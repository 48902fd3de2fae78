//! The lines that emiko appends to its memory and to its log.
use vstd::prelude::*;

use crate::text::push_char;

verus! {

/// The decimal digit for `d`.
pub open spec fn digit(d: int) -> char {
    if d == 0 {
        '0'
    } else if d == 1 {
        '1'
    } else if d == 2 {
        '2'
    } else if d == 3 {
        '3'
    } else if d == 4 {
        '4'
    } else if d == 5 {
        '5'
    } else if d == 6 {
        '6'
    } else if d == 7 {
        '7'
    } else if d == 8 {
        '8'
    } else {
        '9'
    }
}

/// The decimal numeral of `n`, without leading zeros.
pub open spec fn decimal(n: nat) -> Seq<char>
    decreases n,
{
    if n < 10 {
        seq![digit(n as int)]
    } else {
        decimal(n / 10).push(digit((n % 10) as int))
    }
}

fn digit_exec(d: u64) -> (c: char)
    requires
        d < 10,
    ensures
        c == digit(d as int),
{
    match d {
        0 => '0',
        1 => '1',
        2 => '2',
        3 => '3',
        4 => '4',
        5 => '5',
        6 => '6',
        7 => '7',
        8 => '8',
        _ => '9',
    }
}

/// Appends the decimal numeral of `n`.
fn append_decimal(out: &mut String, n: u64)
    ensures
        final(out)@ == old(out)@ + decimal(n as nat),
    decreases n,
{
    if n >= 10 {
        append_decimal(out, n / 10);
    }
    push_char(out, digit_exec(n % 10));
    assert(final(out)@ =~= old(out)@ + decimal(n as nat)) by {
        if n < 10 {
        }
    }
}

/// The decimal numeral of `n`.
pub fn decimal_string(n: u64) -> (r: String)
    ensures
        r@ == decimal(n as nat),
{
    let mut r = String::new();
    append_decimal(&mut r, n);
    assert(Seq::<char>::empty() + decimal(n as nat) =~= decimal(n as nat));
    r
}

/// One remembered interaction, ending with a newline.
pub open spec fn memory_entry_text(prompt: Seq<char>, command: Seq<char>, output: Seq<char>) -> Seq<
    char,
> {
    "user: "@ + prompt + "\nassistant: "@ + command + "\nstandard output: "@ + output + "\n"@
}

/// One remembered interaction: the prompt, the command and its output.
pub fn memory_entry(prompt: &str, command: &str, output: &str) -> (r: String)
    ensures
        r@ == memory_entry_text(prompt@, command@, output@),
        r@.len() == prompt@.len() + command@.len() + output@.len() + 37,
        r@.last() == '\n',
        r@.subrange(r@.len() - 1 - output@.len(), r@.len() - 1) == output@,
{
    let mut r = String::from_str("user: ");
    r.append(prompt);
    r.append("\nassistant: ");
    r.append(command);
    r.append("\nstandard output: ");
    r.append(output);
    r.append("\n");
    proof {
        law_memory_entry_shape(prompt@, command@, output@);
    }
    r
}

/// One log line, ending with a newline.
pub open spec fn log_line_text(timestamp: nat, level: Seq<char>, message: Seq<char>) -> Seq<char> {
    "["@ + decimal(timestamp) + "] "@ + level + ": "@ + message + "\n"@
}

/// One log line: the time in seconds since the Unix epoch, the level and the message.
pub fn log_line(timestamp: u64, level: &str, message: &str) -> (r: String)
    ensures
        r@ == log_line_text(timestamp as nat, level@, message@),
        r@.last() == '\n',
        r@.subrange(r@.len() - 1 - message@.len(), r@.len() - 1) == message@,
{
    let mut r = String::from_str("[");
    append_decimal(&mut r, timestamp);
    r.append("] ");
    r.append(level);
    r.append(": ");
    r.append(message);
    r.append("\n");
    proof {
        law_log_line_shape(timestamp as nat, level@, message@);
    }
    r
}

/// A remembered interaction always ends with a newline, holds the output
/// right before it, begins with `user: ` and the prompt, and is as long as
/// the prompt, the command and the output together plus a fixed 37.
pub proof fn law_memory_entry_shape(prompt: Seq<char>, command: Seq<char>, output: Seq<char>)
    ensures
        memory_entry_text(prompt, command, output).len() == prompt.len() + command.len()
            + output.len() + 37,
        memory_entry_text(prompt, command, output).last() == '\n',
        memory_entry_text(prompt, command, output).subrange(
            memory_entry_text(prompt, command, output).len() - 1 - output.len(),
            memory_entry_text(prompt, command, output).len() - 1,
        ) == output,
        memory_entry_text(prompt, command, output).subrange(6, (6 + prompt.len()) as int) == prompt,
{
    reveal_strlit("user: ");
    reveal_strlit("\nassistant: ");
    reveal_strlit("\nstandard output: ");
    reveal_strlit("\n");
    let e = memory_entry_text(prompt, command, output);
    assert(e.subrange(e.len() - 1 - output.len(), e.len() - 1) =~= output);
    assert(e.subrange(6, (6 + prompt.len()) as int) =~= prompt);
}

/// A log line always ends with a newline, with the message right before it.
pub proof fn law_log_line_shape(timestamp: nat, level: Seq<char>, message: Seq<char>)
    ensures
        log_line_text(timestamp, level, message).last() == '\n',
        log_line_text(timestamp, level, message).subrange(
            log_line_text(timestamp, level, message).len() - 1 - message.len(),
            log_line_text(timestamp, level, message).len() - 1,
        ) == message,
{
    reveal_strlit("\n");
    let l = log_line_text(timestamp, level, message);
    assert(l.subrange(l.len() - 1 - message.len(), l.len() - 1) =~= message);
}

} // verus!
