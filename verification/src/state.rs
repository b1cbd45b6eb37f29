//! The mathematical model of the bus: what the queues hold, as sequences and
//! maps, and what each operation makes of it.

use crate::frame::CloseCode;
use vstd::prelude::*;

verus! {

/// Names one accepted connection. Identifiers are handed out in increasing
/// order, starting at 0, and never used twice.
pub type ClientId = usize;

/// How many connections may wait for the registry at once.
pub const REGISTRATION_CAPACITY: usize = 4;

/// What one client's pipe holds.
pub struct PipeState<I, O> {
    /// Messages from the client that the application has not taken yet, oldest first.
    pub inbound: Seq<I>,
    /// Messages for the client, oldest first.
    pub outbound: Seq<O>,
    /// The most that either queue holds.
    pub capacity: nat,
}

impl<I, O> PipeState<I, O> {
    pub open spec fn empty(capacity: nat) -> Self {
        PipeState { inbound: Seq::empty(), outbound: Seq::empty(), capacity }
    }

    pub open spec fn well_formed(self) -> bool {
        &&& self.inbound.len() <= self.capacity
        &&& self.outbound.len() <= self.capacity
    }

    /// The pipe after one attempt to take its oldest inbound message.
    pub open spec fn after_recv(self) -> Self {
        if self.inbound.len() > 0 {
            PipeState { inbound: self.inbound.drop_first(), ..self }
        } else {
            self
        }
    }
}

/// What the server's side of the bus holds.
pub struct ServerState<I, O> {
    /// The registration channel: accepted connections that the registry does
    /// not show yet, oldest first.
    pub pending: Seq<ClientId>,
    /// The pipe of every accepted connection, registered or still pending.
    pub pipes: Map<ClientId, PipeState<I, O>>,
}

impl<I, O> ServerState<I, O> {
    pub open spec fn empty() -> Self {
        ServerState { pending: Seq::empty(), pipes: Map::empty() }
    }

    pub open spec fn well_formed(self) -> bool {
        &&& self.pending.len() <= REGISTRATION_CAPACITY
        &&& self.pending.no_duplicates()
        &&& self.pipes.dom().finite()
        &&& forall|i: int| 0 <= i < self.pending.len() ==> self.pipes.contains_key(#[trigger] self.pending[i])
        &&& forall|id: ClientId| self.pipes.contains_key(id) ==> (#[trigger] self.pipes[id]).well_formed()
    }

    /// Whether the registry shows the client.
    pub open spec fn is_registered(self, id: ClientId) -> bool {
        self.pipes.contains_key(id) && !self.pending.contains(id)
    }

    /// The registry: the pipes of the clients that a poll has taken out of
    /// the registration channel.
    pub open spec fn registry(self) -> Map<ClientId, PipeState<I, O>> {
        self.pipes.remove_keys(self.pending.to_set())
    }

    /// Whether the registration channel has room for one more connection.
    pub open spec fn can_register(self) -> bool {
        self.pending.len() < REGISTRATION_CAPACITY
    }

    /// The state after an attempt to register `id` with a fresh pipe.
    pub open spec fn register(self, id: ClientId, capacity: nat) -> Self {
        if self.can_register() {
            ServerState {
                pending: self.pending.push(id),
                pipes: self.pipes.insert(id, PipeState::empty(capacity)),
            }
        } else {
            self
        }
    }

    /// Whether the inbound queue of `id` exists and has room.
    pub open spec fn accepts(self, id: ClientId) -> bool {
        self.pipes.contains_key(id) && self.pipes[id].inbound.len() < self.pipes[id].capacity
    }

    /// The state after an attempt to queue `msg` for the application.
    pub open spec fn enqueue(self, id: ClientId, msg: I) -> Self {
        if self.accepts(id) {
            let pipe = self.pipes[id];
            ServerState {
                pipes: self.pipes.insert(id, PipeState { inbound: pipe.inbound.push(msg), ..pipe }),
                ..self
            }
        } else {
            self
        }
    }

    /// The state after a handler has dealt with a text frame of `id` whose
    /// payload decoded to `decoded` (`None`: it was malformed).
    pub open spec fn deliver(self, id: ClientId, decoded: Option<I>) -> Self {
        match decoded {
            Some(msg) => self.enqueue(id, msg),
            None => self,
        }
    }

    /// What the handler asks for after that frame: to close the connection
    /// if the message was well-formed and could not be queued, else nothing.
    pub open spec fn verdict(self, id: ClientId, decoded: Option<I>) -> Option<CloseCode> {
        if decoded is Some && !self.accepts(id) {
            Some(CloseCode::Protocol)
        } else {
            None
        }
    }

    /// What one poll yields: the oldest inbound message of every client that
    /// has one.
    pub open spec fn polled(self) -> Map<ClientId, I> {
        Map::new(
            |id: ClientId| self.pipes.contains_key(id) && self.pipes[id].inbound.len() > 0,
            |id: ClientId| self.pipes[id].inbound[0],
        )
    }

    /// The state after one poll: the registration channel is empty and every
    /// pipe has given up its oldest inbound message.
    pub open spec fn after_poll(self) -> Self {
        ServerState {
            pending: Seq::empty(),
            pipes: self.pipes.map_values(|p: PipeState<I, O>| p.after_recv()),
        }
    }
}

} // verus!
