//! The failures that the commands report.
use crate::text::join2;
use vstd::prelude::*;

verus! {

/// What sort of failure an [`ErgoError`] is.
#[derive(Clone, Copy, Debug, PartialEq, Eq, Structural)]
pub enum ErrorKind {
    /// The command line does not follow the usage.
    InvalidInput,
    /// Something that the configuration needs is missing.
    NotFound,
    /// Rift's service does not answer.
    NotConnected,
    /// A wait ran out of time.
    TimedOut,
    /// Rift's state does not allow the command.
    Other,
    /// A failure of something outside, reported as it came.
    Foreign,
}

/// A failure with the text that is shown for it.
#[derive(Debug, PartialEq, Eq)]
pub struct ErgoError {
    pub kind: ErrorKind,
    pub message: String,
}

/// The contents of an [`ErgoError`].
pub struct ErrorView {
    pub kind: ErrorKind,
    pub message: Seq<char>,
}

impl View for ErgoError {
    type V = ErrorView;

    open spec fn view(&self) -> ErrorView {
        ErrorView { kind: self.kind, message: self.message@ }
    }
}

impl Clone for ErgoError {
    fn clone(&self) -> (copy: Self)
        ensures
            copy == *self,
    {
        ErgoError { kind: self.kind, message: self.message.clone() }
    }
}

/// The summary of the command line.
pub open spec fn usage_text() -> Seq<char> {
    "usage:\n  rift-ergo move-follow <workspace-name>\n  rift-ergo switch-workspace <workspace-name>\n  rift-ergo switch-workspace-both <workspace-name>\n  rift-ergo move-window-to-display <next|prev>\n  rift-ergo move-workspace-to-display <next|prev>\n  rift-ergo rehome [workspace-name]"@
}

/// The summary of the command line, as text.
pub fn usage() -> (text: &'static str)
    ensures
        text@ == usage_text(),
{
    "usage:\n  rift-ergo move-follow <workspace-name>\n  rift-ergo switch-workspace <workspace-name>\n  rift-ergo switch-workspace-both <workspace-name>\n  rift-ergo move-window-to-display <next|prev>\n  rift-ergo move-workspace-to-display <next|prev>\n  rift-ergo rehome [workspace-name]"
}

/// The failure for a command line that is not understood.
pub open spec fn usage_failure(message: Seq<char>) -> ErrorView {
    ErrorView { kind: ErrorKind::InvalidInput, message: message + "\n"@ + usage_text() }
}

/// The failure for a state of Rift in which a command cannot proceed.
pub open spec fn state_failure(message: Seq<char>) -> ErrorView {
    ErrorView { kind: ErrorKind::Other, message }
}

/// The failure of a wait.
pub open spec fn timeout_failure(message: Seq<char>) -> ErrorView {
    ErrorView { kind: ErrorKind::TimedOut, message }
}

/// Reports a command line that is not understood: the message, then the usage.
pub fn usage_error(message: &str) -> (error: ErgoError)
    ensures
        error@ == usage_failure(message@),
{
    let mut text = join2(message, "\n");
    text.append(usage());
    ErgoError { kind: ErrorKind::InvalidInput, message: text }
}

/// Reports a state of Rift in which a command cannot proceed.
pub fn state_error(message: String) -> (error: ErgoError)
    ensures
        error@ == state_failure(message@),
{
    ErgoError { kind: ErrorKind::Other, message }
}

/// Reports that a wait ran out of time.
pub fn timeout_error(message: String) -> (error: ErgoError)
    ensures
        error@ == timeout_failure(message@),
{
    ErgoError { kind: ErrorKind::TimedOut, message }
}

/// Whether a failure is a timeout, and so worth another attempt.
pub fn is_timeout(error: &ErgoError) -> (timed_out: bool)
    ensures
        timed_out == (error@.kind is TimedOut),
{
    error.kind == ErrorKind::TimedOut
}

} // verus!
