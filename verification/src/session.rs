//! The decisions of one session: from what the model, the user and the
//! shell answered to what happens next. The program performs each action
//! and hands back what came of it.
use vstd::prelude::*;

use crate::command::{
    command_from_answer, extraction_matches, fix_request, fix_request_text, is_error_report,
    regex_compile_error, regex_group_capture, ExtractError, CODE_FENCE, COMMAND_PATTERN,
};
use crate::records::{memory_entry, memory_entry_text};
use crate::terminal::{declines, lowercase, user_declines};
use crate::text::{contains_seq, starts_with_seq};

verus! {

/// What happens next in a session.
#[derive(Debug)]
pub enum Action {
    /// Stop the program with this message.
    Abort(String),
    /// Ask the user to confirm the command.
    Confirm(String),
    /// Copy the command to the clipboard and end.
    CopyToClipboard(String),
    /// Run the command in the shell.
    Run(String),
    /// Remember the interaction and end.
    Finish { entry: String },
    /// Remember the interaction and ask the model again.
    Retry { entry: String, fix: String },
}

/// Abort message when the answer holds no command.
pub const NO_COMMAND_MESSAGE: &'static str = "No command found sorry :/";

/// Abort message when the user declines the command.
pub const DECLINED_MESSAGE: &'static str = "Command execution aborted by user.";

/// The action for a command that is ready: confirmation first unless
/// forced, then the clipboard when asked for, otherwise running it.
pub open spec fn command_action(ask_first: bool, clipboard: bool, command: Seq<char>, r: Action) -> bool {
    if ask_first {
        r matches Action::Confirm(c) && c@ == command
    } else if clipboard {
        r matches Action::CopyToClipboard(c) && c@ == command
    } else {
        r matches Action::Run(c) && c@ == command
    }
}

fn ready_command(ask_first: bool, clipboard: bool, command: String) -> (r: Action)
    ensures
        command_action(ask_first, clipboard, command@, r),
{
    if ask_first {
        Action::Confirm(command)
    } else if clipboard {
        Action::CopyToClipboard(command)
    } else {
        Action::Run(command)
    }
}

/// What follows the model's answer: the command it holds goes on to
/// confirmation (unless `force`), the clipboard or the shell; an answer
/// with a code block but no command ends the session.
pub fn after_answer(force: bool, clipboard: bool, answer: String) -> (r: Action)
    ensures
        !force ==> (r matches Action::Confirm(_) || r matches Action::Abort(_)),
        !force && !contains_seq(answer@, CODE_FENCE@) ==> (r matches Action::Confirm(c) && c@
            == answer@),
        force && clipboard ==> (r matches Action::CopyToClipboard(_) || r matches Action::Abort(_)),
        force && !clipboard ==> (r matches Action::Run(_) || r matches Action::Abort(_)),
        !contains_seq(answer@, CODE_FENCE@) ==> command_action(!force, clipboard, answer@, r),
        contains_seq(answer@, CODE_FENCE@) ==> match regex_compile_error(COMMAND_PATTERN@) {
            Some(e) => r matches Action::Abort(m) && m@ == e,
            None => match regex_group_capture(COMMAND_PATTERN@, answer@, 1) {
                Some(Some(c)) => command_action(!force, clipboard, c, r),
                Some(None) => command_action(!force, clipboard, Seq::<char>::empty(), r),
                None => r matches Action::Abort(m) && m@ == NO_COMMAND_MESSAGE@,
            },
        },
{
    let ghost text = answer@;
    let extracted = command_from_answer(answer);
    proof {
        if contains_seq(text, CODE_FENCE@) {
            assert(extraction_matches(text, extracted));
        }
    }
    match extracted {
        Ok(c) => {
            let a = ready_command(!force, clipboard, c);
            proof {
                law_confirmation_unless_forced(clipboard, c@, a);
            }
            a
        },
        Err(ExtractError::NoCommandFound) => Action::Abort(String::from_str(NO_COMMAND_MESSAGE)),
        Err(ExtractError::InvalidPattern(m)) => Action::Abort(m),
    }
}

/// What follows the user's reply to the confirmation: a declining reply
/// ends the session; otherwise the command goes to the clipboard when
/// asked for, or to the shell.
pub fn after_confirmation(clipboard: bool, command: String, reply: &str) -> (r: Action)
    ensures
        declines(lowercase(reply@), reply@) ==> (r matches Action::Abort(m) && m@
            == DECLINED_MESSAGE@),
        !declines(lowercase(reply@), reply@) ==> command_action(false, clipboard, command@, r),
{
    if user_declines(reply) {
        Action::Abort(String::from_str(DECLINED_MESSAGE))
    } else {
        ready_command(false, clipboard, command)
    }
}

/// What follows a finished command: the interaction is remembered; a
/// report that begins with `Error` leads to another request, with the
/// request to fix it; any other report ends the session.
pub fn after_run(prompt: &str, command: &str, report: &str) -> (r: Action)
    ensures
        starts_with_seq(report@, "Error"@) ==> (r matches Action::Retry { entry, fix } && entry@
            == memory_entry_text(prompt@, command@, report@) && fix@ == fix_request_text(
            prompt@,
            command@,
            report@,
        )),
        !starts_with_seq(report@, "Error"@) ==> (r matches Action::Finish { entry } && entry@
            == memory_entry_text(prompt@, command@, report@)),
{
    let entry = memory_entry(prompt, command, report);
    if is_error_report(report) {
        Action::Retry { entry, fix: fix_request(prompt, command, report) }
    } else {
        Action::Finish { entry }
    }
}

/// Without `force` a ready command is always shown for confirmation first,
/// whatever the clipboard flag; with `force` it goes to the clipboard when
/// asked for and to the shell otherwise, never to confirmation.
pub proof fn law_confirmation_unless_forced(clipboard: bool, command: Seq<char>, r: Action)
    ensures
        command_action(true, clipboard, command, r) ==> (r matches Action::Confirm(c) && c@
            == command),
        command_action(false, true, command, r) ==> (r matches Action::CopyToClipboard(c) && c@
            == command),
        command_action(false, false, command, r) ==> (r matches Action::Run(c) && c@ == command),
{
}

} // verus!
