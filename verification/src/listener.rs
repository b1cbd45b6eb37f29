//! The network's side of the bus: accepting connections.

use crate::frame::CloseCode;
use crate::handler::Handler;
use crate::server::Server;
use crate::state::{ClientId, ServerState};
use crate::trace::{BusState, Event};
use std::marker::PhantomData;
use vstd::prelude::*;

verus! {

/// Hands out client identifiers and registers each accepted connection with
/// the server.
pub struct Listener<I, O> {
    capacity: usize,
    client_count: usize,
    pipes: PhantomData<(I, O)>,
}

impl<I, O> Listener<I, O> {
    /// The capacity that every client's queues get.
    pub closed spec fn spec_capacity(&self) -> nat {
        self.capacity as nat
    }

    /// How many connections have been made: the identifier that the next
    /// one gets.
    pub closed spec fn spec_client_count(&self) -> nat {
        self.client_count as nat
    }

    /// Whether every client that `server` knows got its identifier from this
    /// listener, so that the next identifier is new to the server.
    pub open spec fn bound_to(&self, server: ServerState<I, O>) -> bool {
        forall|id: ClientId| #[trigger] server.pipes.contains_key(id) ==> id < self.spec_client_count()
    }

    /// The whole bus, as this listener and `server` make it up.
    pub open spec fn bus(&self, server: ServerState<I, O>) -> BusState<I, O> {
        BusState { server, client_count: self.spec_client_count(), capacity: self.spec_capacity() }
    }

    /// A listener that has made no connection yet.
    pub fn new(capacity: usize) -> (listener: Self)
        ensures
            listener.spec_capacity() == capacity,
            listener.spec_client_count() == 0,
    {
        Listener { capacity, client_count: 0, pipes: PhantomData }
    }

    /// The capacity that every client's queues get.
    pub fn capacity(&self) -> (c: usize)
        ensures
            c == self.spec_capacity(),
    {
        self.capacity
    }

    /// How many connections have been made.
    pub fn client_count(&self) -> (n: usize)
        ensures
            n == self.spec_client_count(),
    {
        self.client_count
    }

    /// Accepts a connection. It gets the next identifier and a fresh pipe,
    /// and is put into the registration channel. If the channel has room,
    /// the connection's handler comes back. If it is full, the server is
    /// left as it was and the connection is to be closed with
    /// [`CloseCode::Again`]; its identifier is not used again.
    ///
    /// The next identifier must be new to the server, as it is for the
    /// server that the listener is bound to.
    pub fn connection_made(&mut self, server: &mut Server<I, O>) -> (r: Result<Handler<I, O>, CloseCode>)
        requires
            old(server).well_formed(),
            !old(server)@.pipes.contains_key(old(self).spec_client_count() as ClientId),
            old(self).spec_client_count() < usize::MAX,
        ensures
            final(server).well_formed(),
            old(self).bound_to(old(server)@) ==> final(self).bound_to(final(server)@),
            final(self).spec_capacity() == old(self).spec_capacity(),
            final(self).spec_client_count() == old(self).spec_client_count() + 1,
            final(server)@ == old(server)@.register(
                old(self).spec_client_count() as ClientId,
                old(self).spec_capacity(),
            ),
            final(self).bus(final(server)@) == old(self).bus(old(server)@).step(Event::Connect),
            match r {
                Ok(handler) => old(server)@.can_register() && handler.spec_id() == old(self).spec_client_count(),
                Err(code) => !old(server)@.can_register() && code == CloseCode::Again,
            },
    {
        let id: ClientId = self.client_count;
        self.client_count = self.client_count + 1;
        if server.register(id, self.capacity) {
            Ok(Handler::new(id))
        } else {
            Err(CloseCode::Again)
        }
    }
}

} // verus!
