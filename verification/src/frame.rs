//! What arrives on a connection, and why the bus asks for one to be closed.

use vstd::prelude::*;

verus! {

/// One frame received from a client.
pub enum Frame {
    /// A text frame with its payload.
    Text(String),
    /// A binary frame with its payload.
    Binary(Vec<u8>),
}

/// The reason that the bus gives for closing a connection.
#[derive(Clone, Copy, Debug, PartialEq, Eq, Structural)]
pub enum CloseCode {
    /// The registration channel was full when the connection arrived: the
    /// client may try again later.
    Again,
    /// The client sent more than the application took: its inbound queue
    /// was full.
    Protocol,
}

} // verus!
