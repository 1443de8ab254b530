//! Typed errors for setup-time failures and the status codes reported to
//! callers.

use vstd::prelude::*;

verus! {

/// A failure while setting up or using the logging subsystem.
#[derive(Debug)]
pub enum LoggingError {
    /// The registration state machine was already past its initial state.
    LoggingAlreadySetUp,
    /// Another sink already owns the process-wide logger slot.
    LoggerRegistrationFailure,
    /// The output target at `path` could not be opened with `buf_size`.
    CreationError { path: String, buf_size: u32 },
}

/// Status code handed back by the operations that report rather than fail.
#[derive(Clone, Copy, Debug, PartialEq, Eq, Structural)]
pub enum LoggerStatus {
    OK,
    LoggerNotSetupError,
    RegistrationFailure,
    LoggerAlreadySetError,
    InvalidUTF8,
    CreationError,
    OtherFailure,
    NullPointerError,
}

/// The status that reports a given error.
pub open spec fn spec_status_of(e: LoggingError) -> LoggerStatus {
    match e {
        LoggingError::LoggerRegistrationFailure => LoggerStatus::RegistrationFailure,
        LoggingError::LoggingAlreadySetUp => LoggerStatus::LoggerAlreadySetError,
        LoggingError::CreationError { .. } => LoggerStatus::CreationError,
    }
}

impl From<LoggingError> for LoggerStatus {
    fn from(e: LoggingError) -> (r: LoggerStatus) {
        match e {
            LoggingError::LoggerRegistrationFailure => LoggerStatus::RegistrationFailure,
            LoggingError::LoggingAlreadySetUp => LoggerStatus::LoggerAlreadySetError,
            LoggingError::CreationError { .. } => LoggerStatus::CreationError,
        }
    }
}

impl vstd::std_specs::convert::FromSpecImpl<LoggingError> for LoggerStatus {
    open spec fn obeys_from_spec() -> bool {
        true
    }

    open spec fn from_spec(e: LoggingError) -> LoggerStatus {
        spec_status_of(e)
    }
}

} // verus!
