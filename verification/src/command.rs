//! From the model's answer to a shell command, and from the command's
//! outcome to the text that is shown, remembered and judged.
use vstd::prelude::*;
use vstd::utf8::{decode_utf8, valid_utf8};

use crate::chunking::occurs_at;
use crate::text::{contains_seq, contains_str, starts_with_seq, starts_with_str};

verus! {

/// The pattern of a fenced code block; its first group is the command.
pub const COMMAND_PATTERN: &'static str = "```(?:\\w*\\n)?([\\S\\s]+?)\\n```";

/// The code fence that marks an answer holding a code block.
pub const CODE_FENCE: &'static str = "```";

#[verifier::external_type_specification]
#[verifier::external_body]
pub struct ExRegex(regex::Regex);

/// The message of the error that `regex::Regex::new` gives for a pattern
/// it rejects; `None` when the pattern compiles.
pub uninterp spec fn regex_compile_error(pattern: Seq<char>) -> Option<Seq<char>>;

/// What `Regex::captures` on `haystack` and then `Captures::get(group)`
/// give for the regex compiled from `pattern`: `None` when nothing matches,
/// `Some(None)` when the group takes no part in the first match, and
/// `Some(Some(text))` with the group's text otherwise.
pub uninterp spec fn regex_group_capture(
    pattern: Seq<char>,
    haystack: Seq<char>,
    group: nat,
) -> Option<Option<Seq<char>>>;

/// Compiles a pattern (`regex::Regex::new`). Trusted: it fails exactly when
/// the named compile error exists, with that error's text.
#[verifier::external_body]
fn regex_new(pattern: &str) -> (r: Result<regex::Regex, String>)
    ensures
        r is Ok <==> regex_compile_error(pattern@) is None,
        r matches Err(e) ==> regex_compile_error(pattern@) == Some(e@),
{
    match regex::Regex::new(pattern) {
        Ok(re) => Ok(re),
        Err(e) => Err(e.to_string()),
    }
}

/// A compiled regular expression together with the pattern it was compiled from.
pub struct CompiledPattern {
    pattern: String,
    regex: regex::Regex,
}

impl View for CompiledPattern {
    type V = Seq<char>;

    closed spec fn view(&self) -> Seq<char> {
        self.pattern@
    }
}

/// The contents of a capture.
pub open spec fn capture_view(r: Option<Option<String>>) -> Option<Option<Seq<char>>> {
    match r {
        None => None,
        Some(None) => Some(None),
        Some(Some(s)) => Some(Some(s@)),
    }
}

impl CompiledPattern {
    /// Compiles `pattern`; the error is the compiler's message.
    pub fn compile(pattern: &str) -> (r: Result<CompiledPattern, String>)
        ensures
            r is Ok <==> regex_compile_error(pattern@) is None,
            r matches Ok(p) ==> p@ == pattern@,
            r matches Err(e) ==> regex_compile_error(pattern@) == Some(e@),
    {
        match regex_new(pattern) {
            Ok(regex) => Ok(CompiledPattern { pattern: String::from_str(pattern), regex }),
            Err(e) => Err(e),
        }
    }

    /// The text of group `group` in the first match in `haystack`
    /// (`Regex::captures`, then `Captures::get` and `Match::as_str`).
    /// Trusted: the outcome is the named function of the pattern this was
    /// compiled from, the haystack and the group index, and a captured text
    /// is a part of the haystack; which part matches is not stated.
    #[verifier::external_body]
    pub fn group_capture(&self, haystack: &str, group: usize) -> (r: Option<Option<String>>)
        ensures
            capture_view(r) == regex_group_capture(self@, haystack@, group as nat),
            r matches Some(Some(s)) ==> contains_seq(haystack@, s@),
    {
        match self.regex.captures(haystack) {
            None => None,
            Some(caps) => match caps.get(group) {
                None => Some(None),
                Some(m) => Some(Some(m.as_str().to_string())),
            },
        }
    }
}

/// Why no command could be taken from an answer.
#[derive(Debug)]
pub enum ExtractError {
    /// The answer holds no fenced code block.
    NoCommandFound,
    /// The block pattern did not compile; the text is the compiler's message.
    InvalidPattern(String),
}

/// What `command_from_capture` makes of a capture.
pub open spec fn command_matches(
    capture: Option<Option<Seq<char>>>,
    r: Result<String, ExtractError>,
) -> bool {
    match capture {
        Some(Some(s)) => r matches Ok(c) && c@ == s,
        Some(None) => r matches Ok(c) && c@ == Seq::<char>::empty(),
        None => r matches Err(ExtractError::NoCommandFound),
    }
}

/// The command in a capture: the captured text, empty when the group took
/// no part in the match; no match is an error.
pub fn command_from_capture(capture: Option<Option<String>>) -> (r: Result<String, ExtractError>)
    ensures
        command_matches(capture_view(capture), r),
{
    match capture {
        Some(Some(s)) => Ok(s),
        Some(None) => Ok(String::new()),
        None => Err(ExtractError::NoCommandFound),
    }
}

/// What `extract_command` gives for an answer.
pub open spec fn extraction_matches(answer: Seq<char>, r: Result<String, ExtractError>) -> bool {
    match regex_compile_error(COMMAND_PATTERN@) {
        Some(e) => r matches Err(ExtractError::InvalidPattern(m)) && m@ == e,
        None => command_matches(regex_group_capture(COMMAND_PATTERN@, answer, 1), r),
    }
}

/// The command in the first fenced code block of an answer: the text between
/// the opening fence (with an optional language tag line) and the next
/// newline followed by a closing fence.
pub fn extract_command(answer: String) -> (r: Result<String, ExtractError>)
    ensures
        extraction_matches(answer@, r),
        r matches Ok(c) ==> contains_seq(answer@, c@),
{
    match CompiledPattern::compile(COMMAND_PATTERN) {
        Ok(pattern) => {
            let capture = pattern.group_capture(answer.as_str(), 1);
            proof {
                assert(occurs_at(answer@, Seq::<char>::empty(), 0)) by {
                    assert(answer@.subrange(0, 0) =~= Seq::<char>::empty());
                }
            }
            command_from_capture(capture)
        },
        Err(e) => Err(ExtractError::InvalidPattern(e)),
    }
}

/// The command to run for an answer: the command of its first code block
/// when the answer holds a code fence, the whole answer otherwise.
pub fn command_from_answer(answer: String) -> (r: Result<String, ExtractError>)
    ensures
        contains_seq(answer@, CODE_FENCE@) ==> extraction_matches(answer@, r),
        r matches Ok(c) ==> contains_seq(answer@, c@),
        !contains_seq(answer@, CODE_FENCE@) ==> (r matches Ok(c) && c@ == answer@),
{
    if contains_str(answer.as_str(), CODE_FENCE) {
        extract_command(answer)
    } else {
        assert(occurs_at(answer@, answer@, 0)) by {
            assert(answer@.subrange(0, answer@.len() as int) =~= answer@);
        }
        Ok(answer)
    }
}

/// Decodes bytes as UTF-8 (std `String::from_utf8`). Trusted: the result is
/// present exactly when the bytes are valid UTF-8, and then holds the
/// decoded characters.
#[verifier::external_body]
fn utf8_string(bytes: Vec<u8>) -> (r: Option<String>)
    ensures
        r is Some <==> valid_utf8(bytes@),
        r matches Some(s) ==> s@ == decode_utf8(bytes@),
{
    String::from_utf8(bytes).ok()
}

/// The text reported for a finished command: its standard output when it
/// succeeded, `Error: ` and its standard error when it failed, or a notice
/// when the stream to report is not UTF-8.
pub open spec fn report_text(success: bool, stdout: Seq<u8>, stderr: Seq<u8>) -> Seq<char> {
    if success {
        if valid_utf8(stdout) {
            decode_utf8(stdout)
        } else {
            "Output is not valid UTF-8"@
        }
    } else {
        if valid_utf8(stderr) {
            "Error: "@ + decode_utf8(stderr)
        } else {
            "Error output is not valid UTF-8"@
        }
    }
}

/// The text reported for a finished command (see `report_text`).
pub fn command_report(success: bool, stdout: Vec<u8>, stderr: Vec<u8>) -> (r: String)
    ensures
        r@ == report_text(success, stdout@, stderr@),
        success && valid_utf8(stdout@) ==> r@ == decode_utf8(stdout@),
        success && !valid_utf8(stdout@) ==> r@ == "Output is not valid UTF-8"@,
        !success && valid_utf8(stderr@) ==> r@ == "Error: "@ + decode_utf8(stderr@),
        !success && !valid_utf8(stderr@) ==> r@ == "Error output is not valid UTF-8"@,
{
    if success {
        match utf8_string(stdout) {
            Some(s) => s,
            None => String::from_str("Output is not valid UTF-8"),
        }
    } else {
        match utf8_string(stderr) {
            Some(s) => {
                let mut r = String::from_str("Error: ");
                r.append(s.as_str());
                r
            },
            None => String::from_str("Error output is not valid UTF-8"),
        }
    }
}

/// Whether a report tells of a failure: it begins with `Error`.
pub fn is_error_report(report: &str) -> (r: bool)
    ensures
        r == starts_with_seq(report@, "Error"@),
{
    starts_with_str(report, "Error")
}

/// The request to fix a failed command.
pub open spec fn fix_request_text(prompt: Seq<char>, command: Seq<char>, report: Seq<char>) -> Seq<
    char,
> {
    "Fix this error:\nInitial prompt:\n"@ + prompt + "\nCommand:\n"@ + command + "\n"@ + report
}

/// The request to fix a failed command, naming the prompt, the command and
/// what it reported.
pub fn fix_request(prompt: &str, command: &str, report: &str) -> (r: String)
    ensures
        r@ == fix_request_text(prompt@, command@, report@),
{
    let mut r = String::from_str("Fix this error:\nInitial prompt:\n");
    r.append(prompt);
    r.append("\nCommand:\n");
    r.append(command);
    r.append("\n");
    r.append(report);
    r
}

/// A command that failed is always reported as an error, so it is retried.
pub proof fn law_failed_command_is_error(stdout: Seq<u8>, stderr: Seq<u8>)
    ensures
        starts_with_seq(report_text(false, stdout, stderr), "Error"@),
{
    reveal_strlit("Error");
    reveal_strlit("Error: ");
    reveal_strlit("Error output is not valid UTF-8");
    let r = report_text(false, stdout, stderr);
    if valid_utf8(stderr) {
        assert(r.take(5) =~= "Error"@);
    } else {
        assert(r.take(5) =~= "Error"@);
    }
}

/// A command that succeeded with UTF-8 output is reported by exactly that
/// output, whatever it wrote to standard error: its report begins with
/// `Error` only when its own output does, and empty output is an empty report.
pub proof fn law_success_reports_its_output(stdout: Seq<u8>, stderr: Seq<u8>)
    requires
        valid_utf8(stdout),
    ensures
        report_text(true, stdout, stderr) == decode_utf8(stdout),
        starts_with_seq(report_text(true, stdout, stderr), "Error"@) <==> starts_with_seq(
            decode_utf8(stdout),
            "Error"@,
        ),
        stdout.len() == 0 ==> report_text(true, stdout, stderr).len() == 0,
        stdout.len() == 0 ==> !starts_with_seq(report_text(true, stdout, stderr), "Error"@),
{
    reveal_strlit("Error");
    if stdout.len() == 0 {
        assert(decode_utf8(stdout) =~= Seq::<char>::empty());
    }
}

/// The report of a failed command with UTF-8 standard error is `Error: `
/// followed by exactly that error text, whatever it wrote to standard output.
pub proof fn law_failure_reports_its_error(stdout: Seq<u8>, stderr: Seq<u8>)
    requires
        valid_utf8(stderr),
    ensures
        report_text(false, stdout, stderr) == "Error: "@ + decode_utf8(stderr),
        report_text(false, stdout, stderr).skip(7) == decode_utf8(stderr),
{
    reveal_strlit("Error: ");
    assert(("Error: "@ + decode_utf8(stderr)).skip(7) =~= decode_utf8(stderr));
}

} // verus!
