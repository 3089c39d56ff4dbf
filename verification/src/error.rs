//! The errors that the stream layer itself reports.
use vstd::prelude::*;

verus! {

/// The class of an error, as an I/O caller distinguishes them.
#[derive(Clone, Copy, Debug, PartialEq, Eq, Structural)]
pub enum ErrorKind {
    InvalidInput,
    NotConnected,
    Other,
}

/// An error raised by the stream layer.
#[derive(Clone, Copy, Debug, PartialEq, Eq, Structural)]
pub enum Error {
    /// A request fills the largest permitted buffer without being complete.
    RequestTooLarge,
    /// No layer accepted the request.
    CannotWrite,
    /// No layer answered, and none reported why.
    CannotRead,
}

/// The class of an error.
pub open spec fn kind_of(error: Error) -> ErrorKind {
    match error {
        Error::RequestTooLarge => ErrorKind::InvalidInput,
        Error::CannotWrite => ErrorKind::NotConnected,
        Error::CannotRead => ErrorKind::Other,
    }
}

/// The text of an error.
pub open spec fn message_of(error: Error) -> Seq<char> {
    match error {
        Error::RequestTooLarge => "max request size limited: 1mb"@,
        Error::CannotWrite => "cannot write multi-reqs to all resources"@,
        Error::CannotRead => "all poll read failed"@,
    }
}

impl Error {
    /// The class of this error.
    pub fn kind(&self) -> (kind: ErrorKind)
        ensures
            kind == kind_of(*self),
    {
        match self {
            Error::RequestTooLarge => ErrorKind::InvalidInput,
            Error::CannotWrite => ErrorKind::NotConnected,
            Error::CannotRead => ErrorKind::Other,
        }
    }

    /// The text of this error.
    pub fn message(&self) -> (text: &'static str)
        ensures
            text@ == message_of(*self),
    {
        match self {
            Error::RequestTooLarge => "max request size limited: 1mb",
            Error::CannotWrite => "cannot write multi-reqs to all resources",
            Error::CannotRead => "all poll read failed",
        }
    }
}

/// Why an operation failed: an error of this layer, or one that a reader, a
/// writer or a parser reported and that is passed on as it came.
#[derive(Debug)]
pub enum Failure<E> {
    Own(Error),
    Outside(E),
}

} // verus!
