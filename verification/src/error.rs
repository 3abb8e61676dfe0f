//! The typed errors of the codec, the frame protocol and the handlers.

use vstd::prelude::*;

verus! {

/// Why a value could not be read from, or written to, a byte buffer.
#[derive(Clone, Copy, Debug, PartialEq, Eq, Structural)]
pub enum CodecError {
    /// The buffer ends before the value does.
    Truncated,
    /// The code units of a text are not valid UTF-16.
    InvalidText,
    /// A text has more code units than its 32-bit count can hold.
    TooLong,
}

/// Why a frame is dropped without an answer.
#[derive(Clone, Copy, Debug, PartialEq, Eq, Structural)]
pub enum ProtocolError {
    /// The frame does not begin with the magic number of a request.
    BadMagic,
    /// The command identifier names no command.
    UnknownCommand,
    /// A field of the frame could not be decoded or encoded.
    Malformed(CodecError),
    /// The response would not fit into one frame.
    FrameOverflow,
}

/// Why a well-formed request cannot be granted. The client is told.
#[derive(Clone, Copy, Debug, PartialEq, Eq, Structural)]
pub enum RequestError {
    /// The index names no entry of the listing.
    IndexOutOfRange,
    /// The path does not exist.
    NotFound,
    /// The path is not of the kind that the command works on.
    WrongPathKind,
    /// A count or a size does not fit the field that carries it.
    Overflow,
}

/// A failure of the machinery under the server. The client is told.
#[derive(Clone, Copy, Debug, PartialEq, Eq, Structural)]
pub enum SystemError {
    /// The file system could not be queried.
    Filesystem,
    /// The facts handed over answer another question than the command's.
    Adapter,
}

/// Anything that can stop a handler.
#[derive(Clone, Copy, Debug, PartialEq, Eq, Structural)]
pub enum HandlerError {
    /// The frame is faulty: it is dropped, and the client is told nothing.
    Protocol(ProtocolError),
    /// The request cannot be granted.
    Request(RequestError),
    /// The machinery under the server failed.
    System(SystemError),
    /// The command is known, and this server has no handler for it.
    NotImplemented,
}

/// The result field of a response that reports success.
pub const RESULT_SUCCESS: i32 = 0;

/// The result field of the response that reports `error`, or the protocol
/// error that is answered with no response at all. No failure shares the
/// result field of success.
pub open spec fn failure_code(error: HandlerError) -> Result<i32, ProtocolError> {
    match error {
        HandlerError::Protocol(error) => Err(error),
        HandlerError::NotImplemented => Ok(1),
        HandlerError::Request(RequestError::IndexOutOfRange) => Ok(2),
        HandlerError::Request(RequestError::NotFound) => Ok(3),
        HandlerError::Request(RequestError::WrongPathKind) => Ok(4),
        HandlerError::Request(RequestError::Overflow) => Ok(5),
        HandlerError::System(SystemError::Filesystem) => Ok(6),
        HandlerError::System(SystemError::Adapter) => Ok(7),
    }
}

impl HandlerError {
    /// The result field of the response that reports this error, or the
    /// protocol error for which no response is sent.
    pub fn code(&self) -> (code: Result<i32, ProtocolError>)
        ensures
            code == failure_code(*self),
            code != Ok::<i32, ProtocolError>(RESULT_SUCCESS),
    {
        match self {
            HandlerError::Protocol(error) => Err(*error),
            HandlerError::NotImplemented => Ok(1),
            HandlerError::Request(RequestError::IndexOutOfRange) => Ok(2),
            HandlerError::Request(RequestError::NotFound) => Ok(3),
            HandlerError::Request(RequestError::WrongPathKind) => Ok(4),
            HandlerError::Request(RequestError::Overflow) => Ok(5),
            HandlerError::System(SystemError::Filesystem) => Ok(6),
            HandlerError::System(SystemError::Adapter) => Ok(7),
        }
    }
}

} // verus!
