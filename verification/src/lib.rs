//! A message bus between a connection listener and an application loop.
//!
//! Every connected client gets a pipe of two bounded first-in, first-out
//! queues. A handler on the listener's side pushes decoded messages into the
//! inbound queue of its client; the application takes at most one message per
//! client with each call of [`Server::messages`]. No operation waits: a full
//! queue refuses the message, and the handler asks for its connection to be
//! closed. One client's full queue never holds up another client.
//!
//! The [`Server`] owns every queue. The [`Listener`] and the [`Handler`]s
//! work on it through `&mut`, so a host that accepts connections on one
//! thread and polls on another shares the server between them.
//!
//! [`state`] holds the mathematical model that the contracts speak of, and
//! [`trace`] what is proved of every run of the bus.

use vstd::prelude::*;

pub mod frame;
pub mod handler;
pub mod listener;
pub mod message_server;
pub mod queue;
pub mod server;
pub mod state;
pub mod trace;

pub use frame::{CloseCode, Frame};
pub use handler::Handler;
pub use listener::Listener;
pub use message_server::{ClientHandler, MessageServer, MessageSink, MessageSource};
pub use queue::BoundedQueue;
pub use server::{ClientPipe, Server};
pub use state::{ClientId, PipeState, ServerState, REGISTRATION_CAPACITY};
pub use trace::{BusState, Event};

verus! {

/// Makes a server and the listener that is bound to it. Every client's
/// queues will hold `capacity` messages.
pub fn new<I, O>(capacity: usize) -> (pair: (Server<I, O>, Listener<I, O>))
    ensures
        pair.0.well_formed(),
        pair.0@ == ServerState::<I, O>::empty(),
        pair.1.spec_capacity() == capacity,
        pair.1.spec_client_count() == 0,
        pair.1.bound_to(pair.0@),
{
    (Server::new(), Listener::new(capacity))
}

} // verus!
