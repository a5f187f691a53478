//! What a command hands back to the command line.

use vstd::prelude::*;

verus! {

/// The text a command prints and the exit code it ends with.
#[derive(Debug)]
pub struct CommandOutput {
    pub text: String,
    pub exit_code: i32,
    /// Set by `sync` when it found code drift.
    pub has_drift: bool,
    /// Structured metrics some commands attach, as JSON text.
    pub metrics: Option<String>,
}

impl CommandOutput {
    /// A successful output: exit code 0, no drift, no metrics.
    pub fn success(text: String) -> (r: Self)
        ensures
            r.text == text,
            r.exit_code == 0,
            !r.has_drift,
            r.metrics is None,
    {
        CommandOutput { text, exit_code: 0, has_drift: false, metrics: None }
    }

    /// An output with the given exit code, no drift, no metrics.
    pub fn with_exit_code(text: String, exit_code: i32) -> (r: Self)
        ensures
            r.text == text,
            r.exit_code == exit_code,
            !r.has_drift,
            r.metrics is None,
    {
        CommandOutput { text, exit_code, has_drift: false, metrics: None }
    }
}

} // verus!
