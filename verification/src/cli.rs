//! Command-line planning and diagnostic formatting.
//!
//! The program takes one command name and passes every further argument to
//! the spawned child verbatim.  With no command name at all, nothing is
//! spawned and the usage text is shown.  Diagnostic lines all carry the same
//! fixed tag so they can be told apart from relayed child output.

use vstd::prelude::*;
use vstd::string::StringExecFns;

verus! {

/// The child process to launch: its program name and its arguments, exactly
/// as they were given.
#[derive(Debug, PartialEq, Eq)]
pub struct Invocation {
    /// The program name, the first command-line argument.
    pub program: String,
    /// Every further argument, in order, passed through verbatim.
    pub arguments: Vec<String>,
}

/// Splits the command-line arguments into the child invocation: the first
/// argument names the program, the rest are handed through unchanged.
/// Returns `None` exactly when no argument was given, in which case nothing
/// is spawned and the usage text is owed.
pub fn plan_invocation(args: Vec<String>) -> (r: Option<Invocation>)
    ensures
        r is Some <==> args@.len() > 0,
        r matches Some(inv) ==> {
            &&& inv.program == args@[0]
            &&& inv.arguments@ == args@.skip(1)
        },
{
    let mut rest = args;
    if rest.len() == 0 {
        None
    } else {
        let program = rest.remove(0);
        proof {
            assert(rest@ =~= args@.skip(1));
        }
        Some(Invocation { program, arguments: rest })
    }
}

/// The usage text shown when no command name was given.
pub fn usage_line() -> (s: &'static str)
    ensures
        s@ == "Usage: crlfify-stdio <cmd> [args]"@,
{
    "Usage: crlfify-stdio <cmd> [args]"
}

/// Prefixes a diagnostic message with the tool's fixed tag.
pub fn log_line(message: &str) -> (line: String)
    ensures
        line@ == "[crlfify-stdio] "@ + message@,
{
    let mut line = String::from_str("[crlfify-stdio] ");
    line.append(message);
    line
}

/// The tagged diagnostic for a failed process launch.
pub fn spawn_failure_line(detail: &str) -> (line: String)
    ensures
        line@ == "[crlfify-stdio] "@ + "Failed to spawn command: "@ + detail@,
{
    let mut line = log_line("Failed to spawn command: ");
    line.append(detail);
    line
}

/// The tagged diagnostic for an unrecoverable read error.
pub fn read_error_line(detail: &str) -> (line: String)
    ensures
        line@ == "[crlfify-stdio] "@ + "Read error: "@ + detail@,
{
    let mut line = log_line("Read error: ");
    line.append(detail);
    line
}

/// The tagged diagnostic for an unrecoverable write error.
pub fn write_error_line(detail: &str) -> (line: String)
    ensures
        line@ == "[crlfify-stdio] "@ + "Write error: "@ + detail@,
{
    let mut line = log_line("Write error: ");
    line.append(detail);
    line
}

} // verus!
