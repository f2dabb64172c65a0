//! How a failed prompt command is reported on the command line.

use vstd::prelude::*;
use crate::text::concat2;

verus! {

/// Exit code of a command that was aborted.
pub const EXIT_ERROR: i32 = 2;

/// Exit code of a command that failed otherwise.
pub const EXIT_FAILURE: i32 = 1;

/// An error as the command line reports it.
#[derive(Clone, Debug, PartialEq, Eq)]
pub struct CliError {
    pub message: String,
    pub exit_code: i32,
}

/// Why a prompt command failed.
#[derive(Clone, Debug, PartialEq, Eq)]
pub enum CommandFailure {
    /// Execution was aborted, for this reason.
    Aborted(String),
    /// Any other failure, with its message.
    Other(String),
}

/// The command-line error for a failed prompt command: an abort is reported
/// as such with the error exit code; anything else with its own message and
/// exit code 1.
pub fn cli_error_for(failure: &CommandFailure) -> (r: CliError)
    ensures
        failure matches CommandFailure::Aborted(reason) ==> r.message@
            == "Prompt execution aborted: "@ + reason@ && r.exit_code == EXIT_ERROR,
        failure matches CommandFailure::Other(m) ==> r.message@ == m@ && r.exit_code
            == EXIT_FAILURE,
{
    match failure {
        CommandFailure::Aborted(reason) => CliError {
            message: concat2("Prompt execution aborted: ", reason.as_str()),
            exit_code: EXIT_ERROR,
        },
        CommandFailure::Other(m) => CliError { message: m.clone(), exit_code: EXIT_FAILURE },
    }
}

} // verus!
