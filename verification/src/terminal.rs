//! What the terminal shows while the model thinks, and the confirmation
//! asked before a command runs.
use vstd::prelude::*;

use crate::text::{contains_seq, contains_str};

verus! {

/// The spinner's frames, shown in turn.
pub open spec fn spinner_frames() -> Seq<Seq<char>> {
    seq!["🌑"@, "🌒"@, "🌓"@, "🌔"@, "🌕"@, "🌖"@, "🌗"@, "🌘"@]
}

/// The line drawn at a tick of the spinner: a carriage return, the word
/// `Thinking...`, and the frame of that tick.
pub fn loading_line(tick: usize) -> (r: String)
    ensures
        r@ == "\rThinking... "@ + spinner_frames()[(tick % 8) as int],
{
    let frame = match tick % 8 {
        0 => "🌑",
        1 => "🌒",
        2 => "🌓",
        3 => "🌔",
        4 => "🌕",
        5 => "🌖",
        6 => "🌗",
        _ => "🌘",
    };
    let mut r = String::from_str("\rThinking... ");
    r.append(frame);
    r
}

/// What the confirmation shows before the command: the question, then the
/// switch to red on a dark background.
pub const CONFIRM_PREFIX: &'static str =
    "Do you want to execute the following command? [yes/no]\n\x1b[48;5;235m\x1b[91m";

/// What the confirmation shows after the command: the colours reset, and
/// the cursor waiting after `> `.
pub const CONFIRM_SUFFIX: &'static str = "\x1b[0m\n> ";

/// The question shown before a command runs: the command is highlighted
/// in red on a dark background, and the cursor waits after `> `.
pub open spec fn confirmation_text(command: Seq<char>) -> Seq<char> {
    CONFIRM_PREFIX@ + command + CONFIRM_SUFFIX@
}

/// The question shown before a command runs (see `confirmation_text`).
pub fn confirmation_prompt(command: &str) -> (r: String)
    ensures
        r@ == confirmation_text(command@),
        r@.len() == CONFIRM_PREFIX@.len() + command@.len() + CONFIRM_SUFFIX@.len(),
        r@.subrange(CONFIRM_PREFIX@.len() as int, (CONFIRM_PREFIX@.len() + command@.len()) as int)
            == command@,
{
    let mut r = String::from_str(CONFIRM_PREFIX);
    r.append(command);
    r.append(CONFIRM_SUFFIX);
    proof {
        law_confirmation_shows_whole_command(command@);
    }
    r
}

/// What `str::to_lowercase` gives for a text.
pub uninterp spec fn lowercase(s: Seq<char>) -> Seq<char>;

/// The lowercase form of a text (std `str::to_lowercase`). Trusted: the
/// result is the named function of the text; the Unicode case mapping
/// itself is not stated.
#[verifier::external_body]
fn to_lowercase(s: &str) -> (r: String)
    ensures
        r@ == lowercase(s@),
{
    s.to_lowercase()
}

/// Whether an answer to the confirmation declines, given the answer and its
/// lowercase form: it holds an `n`, or is empty, or begins with a newline.
pub open spec fn declines(lowered: Seq<char>, answer: Seq<char>) -> bool {
    contains_seq(lowered, seq!['n']) || answer.len() == 0 || answer[0] == '\n'
}

/// Whether an answer declines, given its lowercase form (see `declines`).
pub fn declines_given_lowercase(lowered: &str, answer: &str) -> (r: bool)
    ensures
        r == declines(lowered@, answer@),
{
    if contains_str(lowered, "n") {
        proof {
            reveal_strlit("n");
            assert("n"@ =~= seq!['n']);
        }
        return true;
    }
    proof {
        reveal_strlit("n");
        assert("n"@ =~= seq!['n']);
    }
    let chars = crate::text::chars_of(answer);
    chars.len() == 0 || chars[0] == '\n'
}

/// Whether the user's answer to the confirmation declines the command.
pub fn user_declines(answer: &str) -> (r: bool)
    ensures
        r == declines(lowercase(answer@), answer@),
{
    let lowered = to_lowercase(answer);
    declines_given_lowercase(lowered.as_str(), answer)
}

/// The confirmation shows the whole command, unchanged, between a fixed
/// question and a fixed ending: its length is the command's plus a constant.
pub proof fn law_confirmation_shows_whole_command(command: Seq<char>)
    ensures
        confirmation_text(command).len() == CONFIRM_PREFIX@.len() + command.len()
            + CONFIRM_SUFFIX@.len(),
        confirmation_text(command).subrange(
            CONFIRM_PREFIX@.len() as int,
            (CONFIRM_PREFIX@.len() + command.len()) as int,
        ) == command,
        confirmation_text(command).take(CONFIRM_PREFIX@.len() as int) == CONFIRM_PREFIX@,
        confirmation_text(command).skip((CONFIRM_PREFIX@.len() + command.len()) as int)
            == CONFIRM_SUFFIX@,
{
    let t = confirmation_text(command);
    let a = CONFIRM_PREFIX@.len() as int;
    assert(t.subrange(a, a + command.len()) =~= command);
    assert(t.take(a) =~= CONFIRM_PREFIX@);
    assert(t.skip(a + command.len()) =~= CONFIRM_SUFFIX@);
}

} // verus!
