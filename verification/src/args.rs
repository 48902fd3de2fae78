//! The command-line options.
use vstd::prelude::*;

verus! {

/// The options of one run.
pub struct Opt {
    /// What to ask.
    pub prompt: String,
    /// Run the command without asking for confirmation.
    pub force: bool,
    /// Copy the command to the clipboard instead of running it.
    pub clipboard: bool,
    /// The provider to use instead of the default one.
    pub provider: Option<String>,
    /// Show debugging output.
    pub debug: bool,
    /// Use the retrieval mode.
    pub rag: bool,
}

} // verus!
