//! The errors that the router reports.
use vstd::prelude::*;

use crate::text::{joined, joined3};

verus! {

#[derive(Clone, Copy, Debug, PartialEq, Eq, Structural)]
pub enum ErrorCode {
    InvalidControlValue,
    EndpointNotFound,
    RouteNotFound,
    DuplicateEndpoint,
    DuplicateRoute,
    InvalidRoute,
    BackendUnavailable,
    PersistenceFailed,
    UnsupportedOperation,
    ChannelClosed,
    ThreadFailure,
    Internal,
}

#[derive(Clone, Copy, Debug, PartialEq, Eq, Structural)]
pub enum ErrorSeverity {
    Info,
    Warning,
    Error,
    Critical,
}

/// What went wrong, once for the user and once for the log.
#[derive(Debug)]
pub struct AudioError {
    pub code: ErrorCode,
    pub severity: ErrorSeverity,
    pub retryable: bool,
    pub user_message: String,
    pub technical_message: String,
}

/// What an `AudioError` says, with its messages as sequences.
pub struct ErrorModel {
    pub code: ErrorCode,
    pub severity: ErrorSeverity,
    pub retryable: bool,
    pub user_message: Seq<char>,
    pub technical_message: Seq<char>,
}

impl View for AudioError {
    type V = ErrorModel;

    open spec fn view(&self) -> ErrorModel {
        ErrorModel {
            code: self.code,
            severity: self.severity,
            retryable: self.retryable,
            user_message: self.user_message@,
            technical_message: self.technical_message@,
        }
    }
}

impl Clone for AudioError {
    fn clone(&self) -> (copy: Self)
        ensures
            copy == *self,
    {
        AudioError {
            code: self.code,
            severity: self.severity,
            retryable: self.retryable,
            user_message: self.user_message.clone(),
            technical_message: self.technical_message.clone(),
        }
    }
}

impl AudioError {
    pub fn new(
        code: ErrorCode,
        severity: ErrorSeverity,
        retryable: bool,
        user_message: &str,
        technical_message: &str,
    ) -> (error: Self)
        ensures
            error@ == (ErrorModel {
                code,
                severity,
                retryable,
                user_message: user_message@,
                technical_message: technical_message@,
            }),
    {
        AudioError {
            code,
            severity,
            retryable,
            user_message: user_message.to_owned(),
            technical_message: technical_message.to_owned(),
        }
    }

    /// A control value outside its range. The numbers come as text.
    pub fn invalid_control(name: &str, value: &str, minimum: &str, maximum: &str) -> (error: Self)
        ensures
            error@ == (ErrorModel {
                code: ErrorCode::InvalidControlValue,
                severity: ErrorSeverity::Warning,
                retryable: false,
                user_message: "The "@ + name@ + " value is outside its supported range."@,
                technical_message: "invalid "@ + name@ + " value "@ + value@ + "; expected "@
                    + minimum@ + "..="@ + maximum@,
            }),
    {
        let mut technical = joined3("invalid ", name, " value ");
        technical.append(value);
        technical.append("; expected ");
        technical.append(minimum);
        technical.append("..=");
        technical.append(maximum);
        AudioError {
            code: ErrorCode::InvalidControlValue,
            severity: ErrorSeverity::Warning,
            retryable: false,
            user_message: joined3("The ", name, " value is outside its supported range."),
            technical_message: technical,
        }
    }

    pub fn channel_closed(channel: &str) -> (error: Self)
        ensures
            error@ == (ErrorModel {
                code: ErrorCode::ChannelClosed,
                severity: ErrorSeverity::Error,
                retryable: true,
                user_message: "The audio engine is unavailable."@,
                technical_message: channel@ + " channel is closed"@,
            }),
    {
        AudioError {
            code: ErrorCode::ChannelClosed,
            severity: ErrorSeverity::Error,
            retryable: true,
            user_message: "The audio engine is unavailable.".to_owned(),
            technical_message: joined(channel, " channel is closed"),
        }
    }

    pub fn thread_failure(thread: &str, detail: &str) -> (error: Self)
        ensures
            error@ == (ErrorModel {
                code: ErrorCode::ThreadFailure,
                severity: ErrorSeverity::Critical,
                retryable: false,
                user_message: "The audio engine could not finish that operation."@,
                technical_message: thread@ + " thread failure: "@ + detail@,
            }),
    {
        AudioError {
            code: ErrorCode::ThreadFailure,
            severity: ErrorSeverity::Critical,
            retryable: false,
            user_message: "The audio engine could not finish that operation.".to_owned(),
            technical_message: joined3(thread, " thread failure: ", detail),
        }
    }

    /// The message for the log.
    pub fn message(&self) -> (message: &str)
        ensures
            message@ == self.technical_message@,
    {
        self.technical_message.as_str()
    }
}

} // verus!
