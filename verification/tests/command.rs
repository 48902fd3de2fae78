use emiko::command::{
    command_from_answer, command_from_capture, command_report, extract_command, fix_request,
    is_error_report, CompiledPattern, ExtractError,
};

#[test]
fn extracts_command_after_language_tag() {
    let r = extract_command("Here:\n```bash\nls -la\n```\nDone".to_string());
    assert_eq!(r.unwrap(), "ls -la");
}

#[test]
fn extracts_command_without_language_tag() {
    assert_eq!(extract_command("```\necho hi\n```".to_string()).unwrap(), "echo hi");
}

#[test]
fn non_word_tag_stays_in_command() {
    assert_eq!(extract_command("```c++\nx\n```".to_string()).unwrap(), "c++\nx");
}

#[test]
fn extracts_first_block_only() {
    let r = extract_command("```sh\na\n```\n```sh\nb\n```".to_string());
    assert_eq!(r.unwrap(), "a");
}

#[test]
fn multi_line_command_is_kept() {
    let r = extract_command("```sh\ncd /tmp\nls\n```".to_string());
    assert_eq!(r.unwrap(), "cd /tmp\nls");
}

#[test]
fn unclosed_block_has_no_command() {
    assert!(matches!(
        extract_command("```ls```".to_string()),
        Err(ExtractError::NoCommandFound)
    ));
}

#[test]
fn answer_without_fence_is_the_command() {
    assert_eq!(command_from_answer("ls -la".to_string()).unwrap(), "ls -la");
}

#[test]
fn answer_with_fence_is_extracted() {
    let r = command_from_answer("```zsh\npwd\n```".to_string());
    assert_eq!(r.unwrap(), "pwd");
}

#[test]
fn capture_outcomes_map_to_commands() {
    assert_eq!(command_from_capture(Some(Some("x".to_string()))).unwrap(), "x");
    assert_eq!(command_from_capture(Some(None)).unwrap(), "");
    assert!(matches!(command_from_capture(None), Err(ExtractError::NoCommandFound)));
}

#[test]
fn patterns_compile_or_report_why_not() {
    let p = CompiledPattern::compile("a(b)?c").ok().unwrap();
    assert_eq!(p.group_capture("xac", 1), Some(None));
    assert_eq!(p.group_capture("xabc", 1), Some(Some("b".to_string())));
    assert_eq!(p.group_capture("xyz", 1), None);
    let captured = p.group_capture("zabcz", 0).unwrap().unwrap();
    assert!("zabcz".contains(captured.as_str()));
    assert!(CompiledPattern::compile("foo(bar").is_err());
}

#[test]
fn successful_output_is_reported_as_is() {
    assert_eq!(command_report(true, b"ok\n".to_vec(), b"ignored".to_vec()), "ok\n");
}

#[test]
fn failed_output_is_reported_as_error() {
    let r = command_report(false, b"out".to_vec(), "no such file é".as_bytes().to_vec());
    assert_eq!(r, "Error: no such file é");
    assert!(is_error_report(&r));
}

#[test]
fn invalid_utf8_is_reported() {
    assert_eq!(command_report(true, vec![0xff, 0xfe], vec![]), "Output is not valid UTF-8");
    let r = command_report(false, vec![], vec![0xc0, 0x80]);
    assert_eq!(r, "Error output is not valid UTF-8");
    assert!(is_error_report(&r));
}

#[test]
fn success_output_beginning_with_error_counts_as_error() {
    assert!(is_error_report(&command_report(true, b"Error here".to_vec(), vec![])));
    assert!(!is_error_report(&command_report(true, b"fine".to_vec(), vec![])));
    assert!(!is_error_report("Err"));
}

#[test]
fn fix_request_names_prompt_command_and_report() {
    assert_eq!(
        fix_request("list", "lss", "Error: not found"),
        "Fix this error:\nInitial prompt:\nlist\nCommand:\nlss\nError: not found"
    );
}
