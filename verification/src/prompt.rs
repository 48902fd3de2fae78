//! The text sent to the model: the standing instructions and the request.
use vstd::prelude::*;

use crate::chunking::occurs_at;
use crate::text::{contains_seq, starts_with_seq};

verus! {

/// Standing instructions, up to the operating system's name.
pub const INSTRUCTIONS_HEAD: &'static str = "\n    You are programming and system administration assistant.\n    Provide only commands without any description.\n    If there is a lack of details, provide most logical solution.\n\n    Provide short responses in about 100 words, unless you are specifically asked for more details.\n    If you need to store any data, assume it will be stored in the conversation.\n\n    Ensure the output is a valid shell command.\n    This command will be automatically executed by a program.\n\n    For example :\n    Question: Write 'this is amazing!' in ~/Developer/test.txt file.\n    Command: echo 'this is amazing!' > ~/Developer/test.txt\n\n    You are running on ";

/// Standing instructions, between the operating system and the architecture.
pub const INSTRUCTIONS_AFTER_OS: &'static str = " with ";

/// Standing instructions, between the architecture and the shell.
pub const INSTRUCTIONS_AFTER_ARCH: &'static str = " architecture and ";

/// Standing instructions, after the shell.
pub const INSTRUCTIONS_TAIL: &'static str = " shell.\n  ";

/// How to chain several commands into one.
pub const CHAINING_GUIDE: &'static str = "\n    If you need to use multiple commands or if multiple steps required, try to combine them. Here's how.\n\n    # Chaining Commands\n\n    In many command-line interfaces, especially Unix-like systems, there are several characters that can be used to chain or manipulate commands.\n\n\n    * `;` (Semicolon): Allows you to execute multiple commands sequentially.\n    * `&&` (AND): Execute the second command only if the first command succeeds (returns a zero exit status).\n    * `||` (OR): Execute the second command only if the first command fails (returns a non-zero exit status).\n    * `&` (Background): Execute the command in the background, allowing the user to continue using the shell.\n    * `|` (Pipe):  Takes the output of the first command and uses it as the input for the second command.\n\n    ```powershell\n    command1; command2   # Execute command1 and then command2\n    command1 && command2 # Execute command2 only if command1 succeeds\n    command1 || command2 # Execute command2 only if command1 fails\n    command1 & command2  # Execute command1 in the background\n    command1 | command2  # Pipe the output of command1 into command2\n    ```\n  ";

/// The assistant's role.
pub const ROLE: &'static str = "You are emiko.\nAn assistant like J.A.R.V.I.S. in Iron Man.";

/// Opens the history of earlier interactions.
pub const HISTORY_OPEN: &'static str = "\n--- History of interactions ---\n";

/// Closes the history of earlier interactions.
pub const HISTORY_CLOSE: &'static str = "--- End of history of interactions ---\n\n";

/// Separates the parts of the request.
pub const BLANK_LINE: &'static str = "\n\n";

/// The standing instructions for the given operating system, architecture and shell.
pub open spec fn instructions_text(os: Seq<char>, arch: Seq<char>, shell: Seq<char>) -> Seq<char> {
    INSTRUCTIONS_HEAD@ + os + INSTRUCTIONS_AFTER_OS@ + arch + INSTRUCTIONS_AFTER_ARCH@ + shell
        + INSTRUCTIONS_TAIL@
}

/// Everything before the user's prompt: the history, the role, the standing
/// instructions and the guide to chaining commands.
pub open spec fn preamble_text(
    memory: Seq<char>,
    os: Seq<char>,
    arch: Seq<char>,
    shell: Seq<char>,
) -> Seq<char> {
    HISTORY_OPEN@ + memory + HISTORY_CLOSE@ + ROLE@ + BLANK_LINE@ + instructions_text(
        os,
        arch,
        shell,
    ) + BLANK_LINE@ + CHAINING_GUIDE@
}

/// The message sent to the model: the preamble, a blank line, the prompt.
pub open spec fn request_text(
    memory: Seq<char>,
    os: Seq<char>,
    arch: Seq<char>,
    shell: Seq<char>,
    prompt: Seq<char>,
) -> Seq<char> {
    preamble_text(memory, os, arch, shell) + BLANK_LINE@ + prompt
}

/// The standing instructions for the given operating system, architecture and shell.
pub fn instructions(os: &str, arch: &str, shell: &str) -> (r: String)
    ensures
        r@ == instructions_text(os@, arch@, shell@),
        r@ == INSTRUCTIONS_HEAD@ + os@ + INSTRUCTIONS_AFTER_OS@ + arch@ + INSTRUCTIONS_AFTER_ARCH@
            + shell@ + INSTRUCTIONS_TAIL@,
{
    let mut r = String::from_str(INSTRUCTIONS_HEAD);
    r.append(os);
    r.append(INSTRUCTIONS_AFTER_OS);
    r.append(arch);
    r.append(INSTRUCTIONS_AFTER_ARCH);
    r.append(shell);
    r.append(INSTRUCTIONS_TAIL);
    r
}

/// Everything before the user's prompt (see `preamble_text`).
pub fn preamble(memory: &str, os: &str, arch: &str, shell: &str) -> (r: String)
    ensures
        r@ == preamble_text(memory@, os@, arch@, shell@),
        r@ == HISTORY_OPEN@ + memory@ + HISTORY_CLOSE@ + ROLE@ + BLANK_LINE@ + INSTRUCTIONS_HEAD@
            + os@ + INSTRUCTIONS_AFTER_OS@ + arch@ + INSTRUCTIONS_AFTER_ARCH@ + shell@
            + INSTRUCTIONS_TAIL@ + BLANK_LINE@ + CHAINING_GUIDE@,
{
    let mut r = String::from_str(HISTORY_OPEN);
    r.append(memory);
    r.append(HISTORY_CLOSE);
    r.append(ROLE);
    r.append(BLANK_LINE);
    let body = instructions(os, arch, shell);
    r.append(body.as_str());
    r.append(BLANK_LINE);
    r.append(CHAINING_GUIDE);
    r
}

/// The message sent to the model for a prompt, given the remembered
/// history and the machine it runs on.
pub fn request_content(memory: &str, os: &str, arch: &str, shell: &str, prompt: &str) -> (r:
    String)
    ensures
        r@ == request_text(memory@, os@, arch@, shell@, prompt@),
        r@ == HISTORY_OPEN@ + memory@ + HISTORY_CLOSE@ + ROLE@ + BLANK_LINE@ + INSTRUCTIONS_HEAD@
            + os@ + INSTRUCTIONS_AFTER_OS@ + arch@ + INSTRUCTIONS_AFTER_ARCH@ + shell@
            + INSTRUCTIONS_TAIL@ + BLANK_LINE@ + CHAINING_GUIDE@ + BLANK_LINE@ + prompt@,
{
    let mut r = preamble(memory, os, arch, shell);
    r.append(BLANK_LINE);
    r.append(prompt);
    r
}

/// The value of the `Authorization` header for an API key, if there is one.
pub fn authorization(api_key: Option<&str>) -> (r: Option<String>)
    ensures
        api_key is None ==> r is None,
        api_key matches Some(k) ==> (r matches Some(v) && v@ == "Bearer "@ + k@),
{
    match api_key {
        Some(k) => {
            let mut v = String::from_str("Bearer ");
            v.append(k);
            Some(v)
        },
        None => None,
    }
}

/// The history always comes first in the request, and the prompt last.
pub proof fn law_request_frames_prompt(
    memory: Seq<char>,
    os: Seq<char>,
    arch: Seq<char>,
    shell: Seq<char>,
    prompt: Seq<char>,
)
    ensures
        starts_with_seq(request_text(memory, os, arch, shell, prompt), HISTORY_OPEN@ + memory),
        request_text(memory, os, arch, shell, prompt).skip(
            request_text(memory, os, arch, shell, prompt).len() - prompt.len(),
        ) == prompt,
{
    let r = request_text(memory, os, arch, shell, prompt);
    let head = HISTORY_OPEN@ + memory;
    assert(r.take(head.len() as int) =~= head);
    assert(r.skip(r.len() - prompt.len()) =~= prompt);
}

/// The request tells the model the machine it runs on, each in its place:
/// the operating system right after `You are running on`, the architecture
/// before `architecture`, the shell before `shell`; it is laid out as the
/// history, the role, those instructions, the chaining guide and the prompt.
pub proof fn law_request_names_the_machine(
    memory: Seq<char>,
    os: Seq<char>,
    arch: Seq<char>,
    shell: Seq<char>,
    prompt: Seq<char>,
)
    ensures
        request_text(memory, os, arch, shell, prompt) == HISTORY_OPEN@ + memory + HISTORY_CLOSE@
            + ROLE@ + BLANK_LINE@ + (INSTRUCTIONS_HEAD@ + os + INSTRUCTIONS_AFTER_OS@ + arch
            + INSTRUCTIONS_AFTER_ARCH@ + shell + INSTRUCTIONS_TAIL@) + BLANK_LINE@ + CHAINING_GUIDE@
            + BLANK_LINE@ + prompt,
        contains_seq(
            preamble_text(memory, os, arch, shell),
            INSTRUCTIONS_HEAD@ + os + INSTRUCTIONS_AFTER_OS@ + arch + INSTRUCTIONS_AFTER_ARCH@ + shell
                + INSTRUCTIONS_TAIL@,
        ),
{
    let head = HISTORY_OPEN@ + memory + HISTORY_CLOSE@ + ROLE@ + BLANK_LINE@;
    let body = INSTRUCTIONS_HEAD@ + os + INSTRUCTIONS_AFTER_OS@ + arch + INSTRUCTIONS_AFTER_ARCH@
        + shell + INSTRUCTIONS_TAIL@;
    let tail = BLANK_LINE@ + CHAINING_GUIDE@;
    let p = preamble_text(memory, os, arch, shell);
    assert(p =~= head + body + tail);
    assert(p.subrange(head.len() as int, (head.len() + body.len()) as int) =~= body);
    assert(occurs_at(p, body, head.len() as int));
    assert(request_text(memory, os, arch, shell, prompt) =~= head + body + tail + BLANK_LINE@
        + prompt);
}

} // verus!
