//! Error taxonomy of the CLI, with the process exit code owed to each class.

use vstd::prelude::*;

verus! {

/// Spec-level image of a `CliError`: the same cases, with the carried
/// message as a sequence of characters.
pub enum ErrorView {
    DaemonNotRunning(Seq<char>),
    ConnectionFailed(Seq<char>),
    ConnectionTimeout,
    CommandFailed(Seq<char>),
    CommandTimeout,
    InvalidArguments(Seq<char>),
    InvalidSession(Seq<char>),
    ProtocolError(Seq<char>),
    IoError(Seq<char>),
    SerializationError(Seq<char>),
}

/// Everything that can go wrong between parsing the arguments and printing
/// the daemon's reply.
#[derive(Debug)]
pub enum CliError {
    /// The daemon is not running or unreachable (socket absent, executable
    /// missing, startup timed out).
    DaemonNotRunning(String),
    /// The socket exists but connecting to it failed.
    ConnectionFailed(String),
    /// Connecting to the socket timed out.
    ConnectionTimeout,
    /// The command reached the daemon and failed there.
    CommandFailed(String),
    /// The reply to a command never arrived in time.
    CommandTimeout,
    /// Invalid command arguments, caught before any connection attempt.
    InvalidArguments(String),
    /// Invalid session name, caught before any connection attempt.
    InvalidSession(String),
    /// A malformed or unexpected frame on the wire.
    ProtocolError(String),
    /// An operating-system I/O error, carried as its message text.
    IoError(String),
    /// A frame whose text does not parse as a known message.
    SerializationError(String),
}

impl View for CliError {
    type V = ErrorView;

    open spec fn view(&self) -> ErrorView {
        match self {
            CliError::DaemonNotRunning(s) => ErrorView::DaemonNotRunning(s@),
            CliError::ConnectionFailed(s) => ErrorView::ConnectionFailed(s@),
            CliError::ConnectionTimeout => ErrorView::ConnectionTimeout,
            CliError::CommandFailed(s) => ErrorView::CommandFailed(s@),
            CliError::CommandTimeout => ErrorView::CommandTimeout,
            CliError::InvalidArguments(s) => ErrorView::InvalidArguments(s@),
            CliError::InvalidSession(s) => ErrorView::InvalidSession(s@),
            CliError::ProtocolError(s) => ErrorView::ProtocolError(s@),
            CliError::IoError(s) => ErrorView::IoError(s@),
            CliError::SerializationError(s) => ErrorView::SerializationError(s@),
        }
    }
}

/// The exit code owed to each error class: a stable integer per class so
/// that scripts can branch on the failure kind.
pub open spec fn spec_exit_code(e: ErrorView) -> int {
    match e {
        ErrorView::DaemonNotRunning(_) => 2,
        ErrorView::ConnectionFailed(_) => 3,
        ErrorView::ConnectionTimeout => 3,
        ErrorView::CommandFailed(_) => 1,
        ErrorView::CommandTimeout => 1,
        ErrorView::InvalidArguments(_) => 64,
        ErrorView::InvalidSession(_) => 65,
        ErrorView::ProtocolError(_) => 76,
        ErrorView::IoError(_) => 74,
        ErrorView::SerializationError(_) => 65,
    }
}

impl CliError {
    /// The process exit code for this error.
    pub fn exit_code(&self) -> (code: i32)
        ensures
            code as int == spec_exit_code(self@),
    {
        match self {
            CliError::DaemonNotRunning(_) => 2,
            CliError::ConnectionFailed(_) | CliError::ConnectionTimeout => 3,
            CliError::CommandFailed(_) | CliError::CommandTimeout => 1,
            CliError::InvalidArguments(_) => 64,
            CliError::InvalidSession(_) => 65,
            CliError::ProtocolError(_) => 76,
            CliError::IoError(_) => 74,
            CliError::SerializationError(_) => 65,
        }
    }
}

} // verus!
