//! The application's side of the bus: the registry and the poll.

use crate::queue::BoundedQueue;
use crate::state::{ClientId, PipeState, ServerState, REGISTRATION_CAPACITY};
use std::collections::HashMap;
use vstd::prelude::*;
use vstd::std_specs::iter::IteratorSpec;

verus! {

broadcast use vstd::std_specs::hash::group_hash_axioms;

/// The two queues of one client: `inbound` towards the application,
/// `outbound` towards the client.
pub struct ClientPipe<I, O> {
    pub inbound: BoundedQueue<I>,
    pub outbound: BoundedQueue<O>,
}

impl<I, O> View for ClientPipe<I, O> {
    type V = PipeState<I, O>;

    open spec fn view(&self) -> PipeState<I, O> {
        PipeState {
            inbound: self.inbound@,
            outbound: self.outbound@,
            capacity: self.inbound.spec_capacity(),
        }
    }
}

impl<I, O> ClientPipe<I, O> {
    pub open spec fn well_formed(&self) -> bool {
        &&& self.inbound.well_formed()
        &&& self.outbound.well_formed()
        &&& self.outbound.spec_capacity() == self.inbound.spec_capacity()
    }

    /// A pipe of two empty queues that hold `capacity` messages each.
    pub fn new(capacity: usize) -> (pipe: Self)
        ensures
            pipe.well_formed(),
            pipe@ == PipeState::<I, O>::empty(capacity as nat),
    {
        ClientPipe { inbound: BoundedQueue::new(capacity), outbound: BoundedQueue::new(capacity) }
    }
}

/// Whether `out` lists what a poll yields: one pair for every client in
/// `polled`, each client once, in whatever order the registry was walked.
pub open spec fn yields<I>(out: Seq<(ClientId, I)>, polled: Map<ClientId, I>) -> bool {
    &&& forall|i: int| 0 <= i < out.len() ==> polled.contains_pair((#[trigger] out[i]).0, out[i].1)
    &&& forall|i: int, j: int| 0 <= i < j < out.len() ==> (#[trigger] out[i]).0 != (#[trigger] out[j]).0
    &&& forall|id: ClientId| #[trigger] polled.contains_key(id) ==> exists|i: int| 0 <= i < out.len() && (#[trigger] out[i]).0 == id
}

/// A poll yields as many pairs as there are clients with a message.
pub proof fn lemma_yields_len<I>(out: Seq<(ClientId, I)>, polled: Map<ClientId, I>)
    requires
        yields(out, polled),
    ensures
        polled.dom().finite(),
        out.len() == polled.dom().len(),
{
    let ids = out.map_values(|p: (ClientId, I)| p.0);
    assert(ids.no_duplicates());
    assert(ids.to_set() =~= polled.dom()) by {
        assert forall|id: ClientId| polled.contains_key(id) implies ids.contains(id) by {
            let i = choose|i: int| 0 <= i < out.len() && (#[trigger] out[i]).0 == id;
            assert(ids[i] == id);
        }
    }
    ids.unique_seq_to_set();
    vstd::seq_lib::seq_to_set_is_finite(ids);
}

/// Owns the registration channel and the pipe of every accepted connection.
pub struct Server<I, O> {
    /// The registration channel: the connections that wait for the registry.
    new_clients: BoundedQueue<ClientId>,
    /// The pipes of the connections that wait in `new_clients`.
    arriving: HashMap<ClientId, ClientPipe<I, O>>,
    /// The registry.
    clients: HashMap<ClientId, ClientPipe<I, O>>,
}

impl<I, O> View for Server<I, O> {
    type V = ServerState<I, O>;

    closed spec fn view(&self) -> ServerState<I, O> {
        ServerState {
            pending: self.new_clients@,
            pipes: self.arriving@.union_prefer_right(self.clients@).map_values(|p: ClientPipe<I, O>| p@),
        }
    }
}

impl<I, O> Server<I, O> {
    pub closed spec fn well_formed(&self) -> bool {
        &&& self@.well_formed()
        &&& self.new_clients.spec_capacity() == REGISTRATION_CAPACITY
        &&& self.arriving@.dom() =~= self.new_clients@.to_set()
        &&& self.arriving@.dom().disjoint(self.clients@.dom())
        &&& forall|id: ClientId| self.arriving@.contains_key(id) ==> (#[trigger] self.arriving@[id]).well_formed()
        &&& forall|id: ClientId| self.clients@.contains_key(id) ==> (#[trigger] self.clients@[id]).well_formed()
    }

    /// A well-formed server keeps a well-formed state.
    pub proof fn lemma_state_well_formed(&self)
        requires
            self.well_formed(),
        ensures
            self@.well_formed(),
    {
    }

    /// A server that knows no client.
    pub fn new() -> (server: Self)
        ensures
            server.well_formed(),
            server@ == ServerState::<I, O>::empty(),
    {
        let server = Server {
            new_clients: BoundedQueue::new(REGISTRATION_CAPACITY),
            arriving: HashMap::new(),
            clients: HashMap::new(),
        };
        assert(server@.pipes =~= Map::empty());
        server
    }

    /// Whether the server holds a pipe for `id`, registered or still waiting.
    pub fn knows(&self, id: ClientId) -> (known: bool)
        requires
            self.well_formed(),
        ensures
            known == self@.pipes.contains_key(id),
    {
        self.clients.contains_key(&id) || self.arriving.contains_key(&id)
    }

    /// Whether the registration channel has room for one more connection.
    pub fn can_register(&self) -> (room: bool)
        requires
            self.well_formed(),
        ensures
            room == self@.can_register(),
    {
        !self.new_clients.is_full()
    }

    /// Puts a new connection into the registration channel, with a fresh pipe
    /// of the given capacity. Returns whether the channel had room; if it had
    /// none, nothing changes.
    pub fn register(&mut self, id: ClientId, capacity: usize) -> (admitted: bool)
        requires
            old(self).well_formed(),
            !old(self)@.pipes.contains_key(id),
        ensures
            final(self).well_formed(),
            admitted == old(self)@.can_register(),
            final(self)@ == old(self)@.register(id, capacity as nat),
    {
        if self.new_clients.is_full() {
            return false;
        }
        let pipe: ClientPipe<I, O> = ClientPipe::new(capacity);
        let sent = self.new_clients.try_send(id);
        self.arriving.insert(id, pipe);
        proof {
            assert(final(self)@.pipes =~= old(self)@.pipes.insert(id, PipeState::empty(capacity as nat)));
            old(self).new_clients@.lemma_push_to_set_commute(id);
        }
        true
    }

    /// Queues `msg` for the application on the inbound queue of `id`. The
    /// message comes back if the client is unknown or its queue is full; then
    /// nothing changes.
    pub fn enqueue(&mut self, id: ClientId, msg: I) -> (r: Result<(), I>)
        requires
            old(self).well_formed(),
        ensures
            final(self).well_formed(),
            final(self)@ == old(self)@.enqueue(id, msg),
            old(self)@.accepts(id) ==> r == Ok::<(), I>(()),
            !old(self)@.accepts(id) ==> r == Err::<(), I>(msg),
    {
        match self.clients.remove(&id) {
            Some(pipe) => {
                let mut pipe = pipe;
                let r = pipe.inbound.try_send(msg);
                self.clients.insert(id, pipe);
                proof {
                    assert(final(self)@.pipes =~= old(self)@.enqueue(id, msg).pipes);
                }
                r
            },
            None => match self.arriving.remove(&id) {
                Some(pipe) => {
                    let mut pipe = pipe;
                    let r = pipe.inbound.try_send(msg);
                    self.arriving.insert(id, pipe);
                    proof {
                        assert(final(self)@.pipes =~= old(self)@.enqueue(id, msg).pipes);
                    }
                    r
                },
                None => {
                    proof {
                        assert(final(self).arriving@ =~= old(self).arriving@);
                        assert(final(self).clients@ =~= old(self).clients@);
                    }
                    Err(msg)
                },
            },
        }
    }

    /// Moves every waiting connection from the registration channel into the
    /// registry.
    fn drain_registrations(&mut self)
        requires
            old(self).well_formed(),
        ensures
            final(self).well_formed(),
            final(self)@.pending == Seq::<ClientId>::empty(),
            final(self)@.pipes == old(self)@.pipes,
            final(self).arriving@ == Map::<ClientId, ClientPipe<I, O>>::empty(),
    {
        loop
            invariant
                self.well_formed(),
                self@.pipes == old(self)@.pipes,
            ensures
                self.new_clients@.len() == 0,
            decreases self.new_clients@.len(),
        {
            let ghost before = *self;
            match self.new_clients.try_recv() {
                None => {
                    break ;
                },
                Some(id) => {
                    match self.arriving.remove(&id) {
                        Some(pipe) => {
                            self.clients.insert(id, pipe);
                        },
                        None => {},
                    }
                    proof {
                        let waiting = before.new_clients@;
                        let rest = waiting.drop_first();
                        assert forall|x: ClientId| waiting.contains(x) && x != id implies rest.contains(x) by {
                            let j = choose|j: int| 0 <= j < waiting.len() && waiting[j] == x;
                            assert(rest[j - 1] == x);
                        }
                        assert(self@.pipes =~= before@.pipes);
                    }
                },
            }
        }
    }

    /// Polls the bus. First every connection that waits in the registration
    /// channel enters the registry. Then every client in the registry is
    /// asked once, without waiting, for its oldest inbound message. The
    /// result holds one pair for every client that had one.
    pub fn messages(&mut self) -> (out: Vec<(ClientId, I)>)
        requires
            old(self).well_formed(),
        ensures
            final(self).well_formed(),
            final(self)@ == old(self)@.after_poll(),
            yields(out@, old(self)@.polled()),
            out@.len() == old(self)@.polled().dom().len(),
    {
        self.drain_registrations();
        let ids = self.client_ids();
        let ghost pipes0 = self@.pipes;
        let ghost polled = old(self)@.polled();
        let mut out: Vec<(ClientId, I)> = Vec::new();
        let mut k: usize = 0;
        while k < ids.len()
            invariant
                0 <= k <= ids.len(),
                ids@.no_duplicates(),
                ids@.to_set() == self.clients@.dom(),
                self.well_formed(),
                self.arriving@ == Map::<ClientId, ClientPipe<I, O>>::empty(),
                self@.pending == Seq::<ClientId>::empty(),
                pipes0 == old(self)@.pipes,
                polled == old(self)@.polled(),
                self@.pipes.dom() == pipes0.dom(),
                forall|id: ClientId| #[trigger]
                    pipes0.contains_key(id) ==> self@.pipes[id] == (if ids@.take(k as int).contains(id) {
                        pipes0[id].after_recv()
                    } else {
                        pipes0[id]
                    }),
                forall|i: int| 0 <= i < out@.len() ==> polled.contains_pair((#[trigger] out@[i]).0, out@[i].1),
                forall|i: int| 0 <= i < out@.len() ==> ids@.take(k as int).contains((#[trigger] out@[i]).0),
                forall|i: int, j: int| 0 <= i < j < out@.len() ==> (#[trigger] out@[i]).0 != (#[trigger] out@[j]).0,
                forall|j: int| 0 <= j < k && polled.contains_key(#[trigger] ids@[j]) ==> exists|i: int|
                    0 <= i < out@.len() && (#[trigger] out@[i]).0 == ids@[j],
            decreases ids.len() - k,
        {
            let id: ClientId = ids[k];
            let ghost before = *self;
            let ghost out_before = out@;
            let ghost asked = ids@.take(k as int);
            proof {
                assert(ids@.to_set().contains(id));
                if asked.contains(id) {
                    let j = choose|j: int| 0 <= j < asked.len() && asked[j] == id;
                    assert(ids@[j] == ids@[k as int]);
                }
                assert(ids@.take(k + 1) =~= asked.push(id));
            }
            match self.clients.remove(&id) {
                Some(pipe) => {
                    let mut pipe = pipe;
                    assert(pipes0.contains_key(id));
                    assert(pipe@ == before@.pipes[id]);
                    assert(pipe@ == pipes0[id]);
                    let msg = pipe.inbound.try_recv();
                    self.clients.insert(id, pipe);
                    assert(msg matches Some(m) ==> polled.contains_pair(id, m));
                    assert(self@.pipes =~= before@.pipes.insert(id, pipes0[id].after_recv()));
                    match msg {
                        Some(msg) => {
                            out.push((id, msg));
                        },
                        None => {},
                    }
                },
                None => {},
            }
            k = k + 1;
            proof {
                assert forall|i: int| 0 <= i < out@.len() implies polled.contains_pair(
                    (#[trigger] out@[i]).0,
                    out@[i].1,
                ) && ids@.take(k as int).contains(out@[i].0) by {
                    if i < out_before.len() {
                        assert(out@[i] == out_before[i]);
                        let j = choose|j: int| 0 <= j < asked.len() && asked[j] == out_before[i].0;
                        assert(ids@.take(k as int)[j] == out@[i].0);
                    } else {
                        assert(ids@.take(k as int)[k - 1] == id);
                    }
                }
                assert forall|j: int| 0 <= j < k && polled.contains_key(#[trigger] ids@[j]) implies exists|i: int|
                    0 <= i < out@.len() && (#[trigger] out@[i]).0 == ids@[j] by {
                    if j < k - 1 {
                        let i = choose|i: int| 0 <= i < out_before.len() && (#[trigger] out_before[i]).0 == ids@[j];
                        assert(out@[i] == out_before[i]);
                    } else {
                        assert(out@[out@.len() - 1].0 == id);
                    }
                }
            }
        }
        proof {
            assert(ids@.take(k as int) =~= ids@);
            assert(self@.pipes =~= old(self)@.after_poll().pipes);
            assert forall|id: ClientId| #[trigger] polled.contains_key(id) implies exists|i: int|
                0 <= i < out@.len() && (#[trigger] out@[i]).0 == id by {
                let j = choose|j: int| 0 <= j < ids@.len() && ids@[j] == id;
                assert(polled.contains_key(ids@[j]));
            }
            lemma_yields_len(out@, polled);
        }
        out
    }

    /// The identifiers in the registry, each once, in no particular order.
    fn client_ids(&self) -> (ids: Vec<ClientId>)
        ensures
            ids@.no_duplicates(),
            ids@.to_set() == self.clients@.dom(),
    {
        let mut ids: Vec<ClientId> = Vec::new();
        let ghost keys: Seq<ClientId> = self.clients.keys().remaining().unref();
        for id in it: self.clients.keys()
            invariant
                it.seq().unref() == keys,
                ids@ == keys.take(it.index()),
        {
            ids.push(*id);
            assert(keys.take(it.index() + 1) =~= keys.take(it.index()).push(keys[it.index()]));
        }
        assert(ids@ =~= keys);
        ids
    }
}

} // verus!
