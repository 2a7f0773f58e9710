//! Errors of Herdr's socket API.

use vstd::prelude::*;
use crate::text::{owned, str_eq};

verus! {

/// A failed request over Herdr's socket.
#[derive(Debug, PartialEq, Eq)]
pub enum Error {
    /// The socket could not be reached or read; the I/O error's message.
    Io(String),
    /// Herdr answered with an error.
    Api { code: String, message: String },
    /// Herdr's reply was not understood.
    Protocol(String),
}

/// The error's text as the user sees it.
pub open spec fn error_text(e: Error) -> Seq<char> {
    match e {
        Error::Io(err) => "herdr socket: "@ + err@,
        Error::Api { code, message } => code@ + ": "@ + message@,
        Error::Protocol(detail) => "unexpected reply from herdr: "@ + detail@,
    }
}

/// A failure worth retrying: the server may not be up yet, or the UI is busy.
pub open spec fn transient(e: Error) -> bool {
    match e {
        Error::Io(_) => true,
        Error::Api { code, .. } => code@ == "ui_busy"@,
        Error::Protocol(_) => false,
    }
}

impl Error {
    pub fn code(&self) -> (c: Option<&str>)
        ensures
            match self {
                Error::Api { code, .. } => c matches Some(s) && s@ == code@,
                _ => c is None,
            },
    {
        match self {
            Error::Api { code, .. } => Some(code.as_str()),
            _ => None,
        }
    }

    pub fn is_transient(&self) -> (b: bool)
        ensures
            b == transient(*self),
    {
        match self {
            Error::Io(_) => true,
            Error::Api { code, .. } => str_eq(code.as_str(), "ui_busy"),
            Error::Protocol(_) => false,
        }
    }

    /// The error's text as the user sees it.
    pub fn message(&self) -> (m: String)
        ensures
            m@ == error_text(*self),
    {
        match self {
            Error::Io(err) => {
                let mut m = owned("herdr socket: ");
                m.append(err.as_str());
                m
            },
            Error::Api { code, message } => {
                let mut m = code.clone();
                m.append(": ");
                m.append(message.as_str());
                m
            },
            Error::Protocol(detail) => {
                let mut m = owned("unexpected reply from herdr: ");
                m.append(detail.as_str());
                m
            },
        }
    }
}

} // verus!
