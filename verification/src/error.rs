//! Error taxonomy of the library.
//!
//! `Initialization` errors are fatal to the call that raised them (a missing
//! server capability, a backing allocation that could not be sized, an
//! unsupported pixel format). `Connection` and `Dispatch` carry the message
//! of a broken transport, which is fatal to the process; the transport itself
//! lives outside this library, so only its message is held here.

use vstd::prelude::*;

verus! {

/// What failed during initialization of a window or one of its resources.
#[derive(Clone, Copy, Debug, PartialEq, Eq, Structural)]
pub enum ClientErrorKind {
    Pool,
    File,
    Pixel,
    Surface,
    XdgSurface,
    XdgTopLevel,
}

/// An error surfaced to the caller of a library operation.
#[derive(Debug)]
pub enum ClientError {
    /// The connection to the display server could not be established.
    Connection { message: String },
    /// Dispatching protocol events failed; the connection is unusable.
    Dispatch { message: String },
    /// A window or one of its resources could not be initialized.
    Initialization { kind: ClientErrorKind, message: String },
}

impl ClientError {
    /// The initialization kind of this error, if it is an initialization
    /// error; transport errors carry no kind.
    pub fn kind(&self) -> (r: Option<&ClientErrorKind>)
        ensures
            match self {
                ClientError::Connection { .. } => r is None,
                ClientError::Dispatch { .. } => r is None,
                ClientError::Initialization { kind, .. } => {
                    r matches Some(k) && *k == kind
                },
            },
    {
        match self {
            ClientError::Connection { .. } => None,
            ClientError::Dispatch { .. } => None,
            ClientError::Initialization { kind, message: _ } => Some(kind),
        }
    }

    /// The human-readable message of this error.
    pub fn message(&self) -> (r: &str)
        ensures
            match self {
                ClientError::Connection { message } => r@ == message@,
                ClientError::Dispatch { message } => r@ == message@,
                ClientError::Initialization { message, .. } => r@ == message@,
            },
    {
        match self {
            ClientError::Connection { message } => message.as_str(),
            ClientError::Dispatch { message } => message.as_str(),
            ClientError::Initialization { kind: _, message } => message.as_str(),
        }
    }
}

} // verus!
