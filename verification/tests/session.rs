use emiko::session::{after_answer, after_confirmation, after_run, Action};

fn command_of(a: &Action) -> (&'static str, String) {
    match a {
        Action::Confirm(c) => ("confirm", c.clone()),
        Action::CopyToClipboard(c) => ("clipboard", c.clone()),
        Action::Run(c) => ("run", c.clone()),
        Action::Abort(m) => ("abort", m.clone()),
        Action::Finish { entry } => ("finish", entry.clone()),
        Action::Retry { entry, .. } => ("retry", entry.clone()),
    }
}

#[test]
fn answer_is_confirmed_unless_forced() {
    let a = after_answer(false, false, "```sh\nls\n```".to_string());
    assert_eq!(command_of(&a), ("confirm", "ls".to_string()));
    let a = after_answer(true, false, "ls".to_string());
    assert_eq!(command_of(&a), ("run", "ls".to_string()));
    let a = after_answer(true, true, "ls".to_string());
    assert_eq!(command_of(&a), ("clipboard", "ls".to_string()));
}

#[test]
fn answer_with_broken_block_aborts() {
    let a = after_answer(true, false, "```ls```".to_string());
    assert_eq!(command_of(&a), ("abort", "No command found sorry :/".to_string()));
}

#[test]
fn declined_confirmation_aborts() {
    let a = after_confirmation(false, "rm x".to_string(), "no\n");
    assert_eq!(command_of(&a), ("abort", "Command execution aborted by user.".to_string()));
    let a = after_confirmation(false, "rm x".to_string(), "");
    assert_eq!(command_of(&a), ("abort", "Command execution aborted by user.".to_string()));
}

#[test]
fn accepted_confirmation_runs_or_copies() {
    let a = after_confirmation(false, "ls".to_string(), "yes\n");
    assert_eq!(command_of(&a), ("run", "ls".to_string()));
    let a = after_confirmation(true, "ls".to_string(), "y\n");
    assert_eq!(command_of(&a), ("clipboard", "ls".to_string()));
}

#[test]
fn error_report_is_retried_and_remembered() {
    match after_run("list", "lss", "Error: sh: lss: not found\n") {
        Action::Retry { entry, fix } => {
            assert_eq!(entry, "user: list\nassistant: lss\nstandard output: Error: sh: lss: not found\n\n");
            assert_eq!(fix, "Fix this error:\nInitial prompt:\nlist\nCommand:\nlss\nError: sh: lss: not found\n");
        }
        other => panic!("unexpected {:?}", other),
    }
}

#[test]
fn good_report_finishes() {
    match after_run("list", "ls", "a b\n") {
        Action::Finish { entry } => {
            assert_eq!(entry, "user: list\nassistant: ls\nstandard output: a b\n\n")
        }
        other => panic!("unexpected {:?}", other),
    }
}
