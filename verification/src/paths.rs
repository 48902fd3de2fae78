//! Where emiko keeps its files: under `.config/emiko` in the home directory.
use vstd::prelude::*;

verus! {

/// The configuration file's name.
pub const CONFIG_FILE_NAME: &'static str = "emiko.json";

/// The log file's name.
pub const LOG_FILE_NAME: &'static str = "emiko.log";

/// The memory file's name.
pub const MEMORY_FILE_NAME: &'static str = "memory.txt";

/// The datasets directory's name.
pub const DATASETS_DIR_NAME: &'static str = "datasets";

/// Stands for the home directory when none is known.
pub const HOME_PLACEHOLDER: &'static str = "Unable to get your home dir!";

/// Why no datasets directory can be set up when no home directory is known.
pub const HOME_MISSING_MESSAGE: &'static str = "Unable to get your home directory!";

/// The home directory: `HOME` when it is set, `USERPROFILE` otherwise.
pub fn home_directory(home: Option<String>, user_profile: Option<String>) -> (r: Option<String>)
    ensures
        home matches Some(h) ==> (r matches Some(d) && d@ == h@),
        home is None ==> (match user_profile {
            Some(u) => r matches Some(d) && d@ == u@,
            None => r is None,
        }),
{
    match home {
        Some(h) => Some(h),
        None => user_profile,
    }
}

/// The home directory, or the placeholder text when none is known.
pub fn home_or_placeholder(home: Option<String>, user_profile: Option<String>) -> (r: String)
    ensures
        home matches Some(h) ==> r@ == h@,
        home is None ==> (match user_profile {
            Some(u) => r@ == u@,
            None => r@ == HOME_PLACEHOLDER@,
        }),
{
    match home_directory(home, user_profile) {
        Some(d) => d,
        None => String::from_str(HOME_PLACEHOLDER),
    }
}

/// Whether `c` separates path components when `separator` is the
/// platform's main separator: `/` always does, and so does the main
/// separator itself (`\\` on Windows).
pub open spec fn is_separator(c: char, separator: char) -> bool {
    c == '/' || c == separator
}

/// `base` extended by the relative path `part`, with `separator` between
/// them unless `base` is empty or already ends with a separator (as
/// `PathBuf::push` does for a relative part; a Windows drive prefix with no
/// root, such as `C:`, is not treated specially).
pub open spec fn push_component(base: Seq<char>, part: Seq<char>, separator: char) -> Seq<char> {
    if base.len() == 0 || is_separator(base.last(), separator) {
        base + part
    } else {
        base + seq![separator] + part
    }
}

/// The path of `name` in emiko's directory under `home`.
pub open spec fn emiko_path_text(home: Seq<char>, name: Seq<char>, separator: char) -> Seq<char> {
    push_component(
        push_component(push_component(home, ".config"@, separator), "emiko"@, separator),
        name,
        separator,
    )
}

fn push_component_exec(base: &mut String, part: &str, separator: char)
    ensures
        final(base)@ == push_component(old(base)@, part@, separator),
{
    let chars = crate::text::chars_of(base.as_str());
    let n = chars.len();
    if n > 0 && chars[n - 1] != '/' && chars[n - 1] != separator {
        proof {
            assert(chars@.last() == base@.last());
        }
        crate::text::push_char(base, separator);
    }
    base.append(part);
}

/// The path of the relative name `name` in emiko's directory under `home`,
/// joined with `separator`, the platform's main path separator
/// (`std::path::MAIN_SEPARATOR`).
pub fn emiko_path(home: &str, name: &str, separator: char) -> (r: String)
    ensures
        r@ == emiko_path_text(home@, name@, separator),
{
    let mut r = String::from_str(home);
    push_component_exec(&mut r, ".config", separator);
    push_component_exec(&mut r, "emiko", separator);
    push_component_exec(&mut r, name, separator);
    r
}

} // verus!
