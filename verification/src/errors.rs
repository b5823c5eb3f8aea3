//! The failures that an operation can end in.

use vstd::prelude::*;
use vstd::string::StringExecFns;

verus! {

/// The kinds of failure.
#[derive(Clone, Copy, Debug, PartialEq, Eq, Structural)]
pub enum ErrorKind {
    /// A path that had to exist does not.
    NotFound,
    /// The container format is known to neither archive strategy.
    Unsupported,
    /// The external archiver could not be started or reported a failure.
    ToolInvocation,
    /// A zip, tar or gzip structure is malformed.
    ContainerFormat,
    /// Reading, writing, creating or removing a file failed.
    Io,
    /// The request itself is unusable.
    InvalidArgument,
}

/// A failure: its kind and the message shown to the user.
#[derive(Debug)]
pub struct Failure {
    pub kind: ErrorKind,
    pub message: String,
}

impl View for Failure {
    type V = (ErrorKind, Seq<char>);

    open spec fn view(&self) -> (ErrorKind, Seq<char>) {
        (self.kind, self.message@)
    }
}

/// A text result as a mathematical value.
pub open spec fn text_outcome(r: Result<String, Failure>) -> Result<
    Seq<char>,
    (ErrorKind, Seq<char>),
> {
    match r {
        Ok(s) => Ok(s@),
        Err(f) => Err(f@),
    }
}

/// What went wrong in a file operation, as the operating system reports it.
#[derive(Clone, Copy, Debug, PartialEq, Eq, Structural)]
pub enum IoProblem {
    NotFound,
    PermissionDenied,
    AlreadyExists,
    InvalidInput,
    UnexpectedEof,
    WriteZero,
    Interrupted,
    /// Any other problem; it is shown with the system's own words.
    Other,
}

/// The message shown for a problem with `context`, the file or directory
/// that was worked on. `detail` holds the system's own words and is shown
/// only for a problem without a message of its own.
pub open spec fn problem_text(problem: IoProblem, context: Seq<char>, detail: Seq<char>) -> Seq<
    char,
> {
    match problem {
        IoProblem::NotFound => "Error: "@ + context + " not found."@,
        IoProblem::PermissionDenied => "Error: Permission denied while accessing "@ + context
            + "."@,
        IoProblem::AlreadyExists => "Error: "@ + context + " already exists."@,
        IoProblem::InvalidInput => "Error: Invalid input provided for "@ + context + "."@,
        IoProblem::UnexpectedEof => "Error: Unexpected end of file while reading "@ + context
            + "."@,
        IoProblem::WriteZero => "Error: Failed to write data to "@ + context + "."@,
        IoProblem::Interrupted => "Error: Operation interrupted while working with "@ + context
            + "."@,
        IoProblem::Other => "Unexpected error with "@ + context + ": "@ + detail,
    }
}

/// Writes the message for a problem (see [`problem_text`]).
pub fn handle_error(problem: IoProblem, context: &str, detail: &str) -> (r: String)
    ensures
        r@ == problem_text(problem, context@, detail@),
{
    match problem {
        IoProblem::NotFound => {
            let mut out = prefixed("Error: ", context);
            out.append(" not found.");
            out
        },
        IoProblem::PermissionDenied => {
            let mut out = prefixed("Error: Permission denied while accessing ", context);
            out.append(".");
            out
        },
        IoProblem::AlreadyExists => {
            let mut out = prefixed("Error: ", context);
            out.append(" already exists.");
            out
        },
        IoProblem::InvalidInput => {
            let mut out = prefixed("Error: Invalid input provided for ", context);
            out.append(".");
            out
        },
        IoProblem::UnexpectedEof => {
            let mut out = prefixed("Error: Unexpected end of file while reading ", context);
            out.append(".");
            out
        },
        IoProblem::WriteZero => {
            let mut out = prefixed("Error: Failed to write data to ", context);
            out.append(".");
            out
        },
        IoProblem::Interrupted => {
            let mut out = prefixed("Error: Operation interrupted while working with ", context);
            out.append(".");
            out
        },
        IoProblem::Other => {
            let mut out = prefixed("Unexpected error with ", context);
            out.append(": ");
            out.append(detail);
            out
        },
    }
}

/// The failure that answers an event which an operation was not waiting
/// for.
pub open spec fn out_of_turn() -> (ErrorKind, Seq<char>) {
    (ErrorKind::InvalidArgument, "Unexpected event"@)
}

/// Builds the failure [`out_of_turn`].
pub fn refusal() -> (r: Failure)
    ensures
        r@ == out_of_turn(),
{
    Failure { kind: ErrorKind::InvalidArgument, message: String::from_str("Unexpected event") }
}

/// A failure of the given kind with the given message.
pub fn failure(kind: ErrorKind, message: String) -> (r: Failure)
    ensures
        r@ == (kind, message@),
{
    Failure { kind, message }
}

/// `prefix` followed by `detail`.
pub fn prefixed(prefix: &str, detail: &str) -> (r: String)
    ensures
        r@ == prefix@ + detail@,
{
    let mut out = String::from_str(prefix);
    out.append(detail);
    out
}

} // verus!
