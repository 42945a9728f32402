//! The ways in which a render can fail, and the text that reports them.

use vstd::prelude::*;
use vstd::string::StringExecFns;
use crate::text::{decimal, decimal_text};

verus! {

/// Why a render request or a pipeline run did not produce an artifact.
#[derive(Debug, Clone, PartialEq, Eq)]
pub enum RenderError {
    /// The document has no folder. Final for the request; nothing is retried.
    DocumentNotFound,
    /// An external tool could not be started or ended with a status other
    /// than zero. The pipeline turns this into a plain artifact that holds
    /// the error text, which is then cached like any other artifact.
    ToolFailed { tool: String, exit_code: i32, stdout: String, stderr: String },
    /// The scratch directory or the artifact could not be written. Nothing is
    /// recorded, so the next request runs the pipeline again.
    Io(String),
    /// The store could not be read or written. No record counts as valid.
    Store(String),
    /// A render ended, yet the store holds no record with its fingerprint.
    NotRecorded,
}

/// A render error with its texts as sequences of characters.
pub enum ErrorView {
    DocumentNotFound,
    ToolFailed { tool: Seq<char>, exit_code: int, stdout: Seq<char>, stderr: Seq<char> },
    Io(Seq<char>),
    Store(Seq<char>),
    NotRecorded,
}

impl View for RenderError {
    type V = ErrorView;

    open spec fn view(&self) -> ErrorView {
        match *self {
            RenderError::DocumentNotFound => ErrorView::DocumentNotFound,
            RenderError::ToolFailed { tool, exit_code, stdout, stderr } => ErrorView::ToolFailed {
                tool: tool@,
                exit_code: exit_code as int,
                stdout: stdout@,
                stderr: stderr@,
            },
            RenderError::Io(message) => ErrorView::Io(message@),
            RenderError::Store(message) => ErrorView::Store(message@),
            RenderError::NotRecorded => ErrorView::NotRecorded,
        }
    }
}

/// The report of a tool failure: the command, its exit code, and what it
/// wrote to standard output and to standard error, the latter last.
pub open spec fn tool_failure_text(
    tool: Seq<char>,
    exit_code: int,
    stdout: Seq<char>,
    stderr: Seq<char>,
) -> Seq<char> {
    "Command "@ + tool + " failed with exit code "@ + decimal(exit_code) + "\n\nSTDOUT\n"@ + stdout
        + "\n\nSTDERR\nP"@ + stderr
}

/// The human-readable text of an error.
pub open spec fn error_text(error: ErrorView) -> Seq<char> {
    match error {
        ErrorView::DocumentNotFound => "document does not exist"@,
        ErrorView::ToolFailed { tool, exit_code, stdout, stderr } => tool_failure_text(
            tool,
            exit_code,
            stdout,
            stderr,
        ),
        ErrorView::Io(message) => message,
        ErrorView::Store(message) => message,
        ErrorView::NotRecorded => "renderer didn't insert into cache"@,
    }
}

/// Writes the report of a tool failure.
pub fn tool_failure_report(tool: &str, exit_code: i32, stdout: &str, stderr: &str) -> (text:
    String)
    ensures
        text@ == tool_failure_text(tool@, exit_code as int, stdout@, stderr@),
{
    let code = decimal_text(exit_code);
    String::from_str("Command ").concat(tool).concat(" failed with exit code ").concat(
        code.as_str(),
    ).concat("\n\nSTDOUT\n").concat(stdout).concat("\n\nSTDERR\nP").concat(stderr)
}

impl RenderError {
    /// The human-readable text of this error.
    pub fn message(&self) -> (text: String)
        ensures
            text@ == error_text(self@),
    {
        match self {
            RenderError::DocumentNotFound => String::from_str("document does not exist"),
            RenderError::ToolFailed { tool, exit_code, stdout, stderr } => tool_failure_report(
                tool.as_str(),
                *exit_code,
                stdout.as_str(),
                stderr.as_str(),
            ),
            RenderError::Io(message) => message.clone(),
            RenderError::Store(message) => message.clone(),
            RenderError::NotRecorded => String::from_str("renderer didn't insert into cache"),
        }
    }
}

/// The report of a tool failure ends with what the tool wrote to standard
/// error: whoever reads the report finds the captured text in it, whole.
pub proof fn lemma_report_holds_stderr(
    tool: Seq<char>,
    exit_code: int,
    stdout: Seq<char>,
    stderr: Seq<char>,
)
    ensures
        ({
            let text = tool_failure_text(tool, exit_code, stdout, stderr);
            &&& text.len() >= stderr.len()
            &&& text.subrange(text.len() - stderr.len(), text.len() as int) == stderr
        }),
{
    let text = tool_failure_text(tool, exit_code, stdout, stderr);
    assert(text.subrange(text.len() - stderr.len(), text.len() as int) =~= stderr);
}

} // verus!
