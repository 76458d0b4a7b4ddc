//! A tool that runs shell commands.
use vstd::prelude::*;

use crate::text::{lossy_utf8, text_from_utf8_lossy};

verus! {

/// Runs local shell commands; it is not sandboxed.
#[derive(Debug)]
pub struct CodeInterpreter;

impl CodeInterpreter {
    /// The tool's name.
    pub fn name(&self) -> (name: &'static str)
        ensures
            name@ == "interpreter"@,
    {
        "interpreter"
    }

    /// What the tool does.
    pub fn description(&self) -> (text: &'static str)
        ensures
            text@ == "Execute local shell commands to perform computations or file tasks."@,
    {
        "Execute local shell commands to perform computations or file tasks."
    }

    /// What a finished command gives back: its standard output, decoded, when
    /// it succeeded, and otherwise its standard error, decoded, as the error.
    pub fn command_outcome(success: bool, stdout: &[u8], stderr: &[u8]) -> (outcome: Result<
        String,
        String,
    >)
        ensures
            success ==> (outcome matches Ok(text) && text@ == lossy_utf8(stdout@)),
            !success ==> (outcome matches Err(text) && text@ == lossy_utf8(stderr@)),
    {
        if success {
            Ok(text_from_utf8_lossy(stdout))
        } else {
            Err(text_from_utf8_lossy(stderr))
        }
    }
}

} // verus!
