//! Runs of the bus: what holds of every sequence of connections, frames and
//! polls.

use crate::frame::CloseCode;
use crate::state::{ClientId, ServerState};
use vstd::prelude::*;

verus! {

/// The whole bus: the server's queues and the listener's counter.
pub struct BusState<I, O> {
    pub server: ServerState<I, O>,
    /// How many connections the listener has made.
    pub client_count: nat,
    /// The capacity that the listener gives to every pipe.
    pub capacity: nat,
}

/// One thing that happens to the bus.
pub enum Event<I> {
    /// The listener accepts a connection.
    Connect,
    /// The handler of client `id` gets a text frame; `decoded` is what its
    /// payload decoded to, `None` if it was malformed.
    Text { id: ClientId, decoded: Option<I> },
    /// The handler of client `id` gets a frame that is not text.
    Binary { id: ClientId },
    /// The application polls.
    Poll,
}

impl<I, O> BusState<I, O> {
    /// The bus right after construction.
    pub open spec fn initial(capacity: nat) -> Self {
        BusState { server: ServerState::empty(), client_count: 0, capacity }
    }

    /// The queues are within their bounds, and the listener's counter is
    /// beyond every identifier that the server knows.
    pub open spec fn well_formed(self) -> bool {
        &&& self.server.well_formed()
        &&& forall|id: ClientId| #[trigger] self.server.pipes.contains_key(id) ==> id < self.client_count
    }

    /// The bus after `event`.
    pub open spec fn step(self, event: Event<I>) -> Self {
        match event {
            Event::Connect => BusState {
                server: self.server.register(self.client_count as ClientId, self.capacity),
                client_count: self.client_count + 1,
                ..self
            },
            Event::Text { id, decoded } => BusState { server: self.server.deliver(id, decoded), ..self },
            Event::Binary { id } => self,
            Event::Poll => BusState { server: self.server.after_poll(), ..self },
        }
    }

    /// The bus after all of `events`, in order.
    pub open spec fn run(self, events: Seq<Event<I>>) -> Self
        decreases events.len(),
    {
        if events.len() == 0 {
            self
        } else {
            self.run(events.drop_last()).step(events.last())
        }
    }

    /// The messages of client `id` that the handlers queued during `events`,
    /// in the order of their frames.
    pub open spec fn accepted(self, events: Seq<Event<I>>, id: ClientId) -> Seq<I>
        decreases events.len(),
    {
        if events.len() == 0 {
            Seq::empty()
        } else {
            let before = self.run(events.drop_last());
            let earlier = self.accepted(events.drop_last(), id);
            match events.last() {
                Event::Text { id: from, decoded: Some(msg) } => if from == id && before.server.accepts(id) {
                    earlier.push(msg)
                } else {
                    earlier
                },
                _ => earlier,
            }
        }
    }

    /// The messages of client `id` that the polls among `events` yielded, in
    /// the order of the polls.
    pub open spec fn observed(self, events: Seq<Event<I>>, id: ClientId) -> Seq<I>
        decreases events.len(),
    {
        if events.len() == 0 {
            Seq::empty()
        } else {
            let before = self.run(events.drop_last());
            let earlier = self.observed(events.drop_last(), id);
            match events.last() {
                Event::Poll => if before.server.polled().contains_key(id) {
                    earlier.push(before.server.polled()[id])
                } else {
                    earlier
                },
                _ => earlier,
            }
        }
    }
}

/// The inbound messages of `id` that wait for the application; none if the
/// server does not know the client.
pub open spec fn waiting<I, O>(server: ServerState<I, O>, id: ClientId) -> Seq<I> {
    if server.pipes.contains_key(id) {
        server.pipes[id].inbound
    } else {
        Seq::empty()
    }
}

/// Whether no `Connect` among `events` finds the identifiers used up.
pub open spec fn within_identifiers<I, O>(bus: BusState<I, O>, events: Seq<Event<I>>) -> bool {
    bus.client_count + events.len() <= usize::MAX
}

/// Every event leaves a well-formed bus well-formed: no queue ever holds
/// more than its capacity, and no identifier is given out twice.
pub proof fn lemma_step_well_formed<I, O>(bus: BusState<I, O>, event: Event<I>)
    requires
        bus.well_formed(),
        bus.client_count < usize::MAX,
    ensures
        bus.step(event).well_formed(),
        bus.step(event).client_count >= bus.client_count,
        bus.step(event).client_count <= bus.client_count + 1,
        bus.step(event).capacity == bus.capacity,
{
    let next = bus.step(event);
    match event {
        Event::Connect => {
            let id = bus.client_count as ClientId;
            assert(!bus.server.pipes.contains_key(id));
            if bus.server.can_register() {
                assert(!bus.server.pending.contains(id)) by {
                    if bus.server.pending.contains(id) {
                        let i = choose|i: int| 0 <= i < bus.server.pending.len() && bus.server.pending[i] == id;
                        assert(bus.server.pipes.contains_key(bus.server.pending[i]));
                    }
                }
                assert forall|i: int| 0 <= i < next.server.pending.len() implies next.server.pipes.contains_key(
                    #[trigger] next.server.pending[i],
                ) by {
                    if i < bus.server.pending.len() {
                        assert(bus.server.pipes.contains_key(bus.server.pending[i]));
                    }
                }
                assert forall|i: int, j: int|
                    0 <= i < next.server.pending.len() && 0 <= j < next.server.pending.len() && i != j implies next.server.pending[i]
                    != next.server.pending[j] by {
                    if i < bus.server.pending.len() {
                        assert(bus.server.pending.contains(bus.server.pending[i]));
                    }
                    if j < bus.server.pending.len() {
                        assert(bus.server.pending.contains(bus.server.pending[j]));
                    }
                }
            }
        },
        Event::Text { id, decoded } => {
            assert forall|i: int| 0 <= i < next.server.pending.len() implies next.server.pipes.contains_key(
                #[trigger] next.server.pending[i],
            ) by {
                assert(bus.server.pipes.contains_key(bus.server.pending[i]));
            }
        },
        Event::Binary { id } => {},
        Event::Poll => {
            assert(next.server.pipes.dom() =~= bus.server.pipes.dom());
        },
    }
}

/// A run leaves a well-formed bus well-formed: at no point does a queue
/// hold more than its capacity, or the registration channel more than
/// [`REGISTRATION_CAPACITY`](crate::state::REGISTRATION_CAPACITY) connections.
pub proof fn lemma_run_well_formed<I, O>(bus: BusState<I, O>, events: Seq<Event<I>>)
    requires
        bus.well_formed(),
        within_identifiers(bus, events),
    ensures
        bus.run(events).well_formed(),
        bus.client_count <= bus.run(events).client_count <= bus.client_count + events.len(),
        bus.run(events).capacity == bus.capacity,
    decreases events.len(),
{
    if events.len() > 0 {
        lemma_run_well_formed(bus, events.drop_last());
        lemma_step_well_formed(bus.run(events.drop_last()), events.last());
    }
}

/// First in, first out, and nothing lost or made up. For every client and
/// every run: the messages that waited at the start, followed by those that
/// the handlers queued during the run, are the messages that the polls
/// yielded, followed by those that still wait. So the polls yield a
/// client's messages in the order in which they were queued, each once, and
/// never a message that was refused or malformed.
pub proof fn lemma_observed_in_order<I, O>(bus: BusState<I, O>, events: Seq<Event<I>>, id: ClientId)
    requires
        bus.well_formed(),
        within_identifiers(bus, events),
    ensures
        waiting(bus.server, id) + bus.accepted(events, id) == bus.observed(events, id) + waiting(
            bus.run(events).server,
            id,
        ),
    decreases events.len(),
{
    if events.len() == 0 {
        assert(waiting(bus.server, id) + Seq::<I>::empty() =~= Seq::<I>::empty() + waiting(bus.server, id));
    } else {
        let earlier = events.drop_last();
        let before = bus.run(earlier);
        let after = bus.run(events);
        lemma_observed_in_order(bus, earlier, id);
        lemma_run_well_formed(bus, earlier);
        let start = waiting(bus.server, id);
        let acc = bus.accepted(earlier, id);
        let obs = bus.observed(earlier, id);
        let left = waiting(before.server, id);
        assert(start + acc == obs + left);
        match events.last() {
            Event::Connect => {
                assert(waiting(after.server, id) =~= left);
            },
            Event::Text { id: from, decoded } => {
                match decoded {
                    Some(msg) => {
                        if from == id && before.server.accepts(id) {
                            assert(waiting(after.server, id) =~= left.push(msg));
                            assert(start + acc.push(msg) =~= (start + acc).push(msg));
                            assert(obs + left.push(msg) =~= (obs + left).push(msg));
                        } else {
                            assert(waiting(after.server, id) =~= left);
                        }
                    },
                    None => {},
                }
            },
            Event::Binary { id: from } => {},
            Event::Poll => {
                if before.server.polled().contains_key(id) {
                    assert(waiting(after.server, id) =~= left.drop_first());
                    assert(obs.push(left[0]) + left.drop_first() =~= obs + left);
                } else {
                    assert(waiting(after.server, id) =~= left);
                }
            },
        }
    }
}

/// A client that the server knows stays known, and one that the registry
/// shows stays in the registry: no event removes a client.
pub proof fn lemma_run_keeps_clients<I, O>(bus: BusState<I, O>, events: Seq<Event<I>>, id: ClientId)
    requires
        bus.well_formed(),
        within_identifiers(bus, events),
        bus.server.pipes.contains_key(id),
    ensures
        bus.run(events).server.pipes.contains_key(id),
        bus.server.is_registered(id) ==> bus.run(events).server.is_registered(id),
    decreases events.len(),
{
    if events.len() > 0 {
        let before = bus.run(events.drop_last());
        lemma_run_keeps_clients(bus, events.drop_last(), id);
        lemma_run_well_formed(bus, events.drop_last());
        let after = before.step(events.last());
        match events.last() {
            Event::Connect => {
                if before.server.is_registered(id) && before.server.can_register() {
                    assert(id != before.client_count as ClientId);
                    assert(!after.server.pending.contains(id)) by {
                        if after.server.pending.contains(id) {
                            let i = choose|i: int| 0 <= i < after.server.pending.len() && after.server.pending[i] == id;
                            assert(before.server.pending[i] == id);
                        }
                    }
                }
            },
            Event::Text { id: from, decoded } => {},
            Event::Binary { id: from } => {},
            Event::Poll => {},
        }
    }
}

/// An identifier that the listener has given out and that the server does
/// not know is never known later, and no poll yields a message for it.
pub proof fn lemma_run_keeps_unknown<I, O>(bus: BusState<I, O>, events: Seq<Event<I>>, id: ClientId)
    requires
        bus.well_formed(),
        within_identifiers(bus, events),
        id < bus.client_count,
        !bus.server.pipes.contains_key(id),
    ensures
        !bus.run(events).server.pipes.contains_key(id),
        bus.observed(events, id) == Seq::<I>::empty(),
    decreases events.len(),
{
    if events.len() > 0 {
        lemma_run_keeps_unknown(bus, events.drop_last(), id);
        lemma_run_well_formed(bus, events.drop_last());
    }
}

/// A connection that found room in the registration channel is in the
/// registry after the first poll that follows, whatever happens in between,
/// and stays there.
pub proof fn lemma_registered_by_next_poll<I, O>(
    bus: BusState<I, O>,
    between: Seq<Event<I>>,
    later: Seq<Event<I>>,
)
    requires
        bus.well_formed(),
        bus.server.can_register(),
        bus.client_count + between.len() + later.len() + 2 <= usize::MAX,
    ensures
        bus.step(Event::Connect).run(between).step(Event::Poll).run(later).server.is_registered(
            bus.client_count as ClientId,
        ),
{
    let id = bus.client_count as ClientId;
    let connected = bus.step(Event::Connect);
    lemma_step_well_formed(bus, Event::Connect);
    lemma_run_keeps_clients(connected, between, id);
    lemma_run_well_formed(connected, between);
    let polled = connected.run(between).step(Event::Poll);
    lemma_step_well_formed(connected.run(between), Event::Poll);
    assert(polled.server.is_registered(id));
    lemma_run_keeps_clients(polled, later, id);
}

/// A connection that found the registration channel full leaves the server
/// as it was, is never known to the server later, and no poll ever yields a
/// message for it.
pub proof fn lemma_rejected_never_appears<I, O>(bus: BusState<I, O>, later: Seq<Event<I>>)
    requires
        bus.well_formed(),
        !bus.server.can_register(),
        bus.client_count + later.len() + 1 <= usize::MAX,
    ensures
        bus.step(Event::Connect).server == bus.server,
        !bus.step(Event::Connect).run(later).server.pipes.contains_key(bus.client_count as ClientId),
        bus.step(Event::Connect).observed(later, bus.client_count as ClientId) == Seq::<I>::empty(),
{
    lemma_step_well_formed(bus, Event::Connect);
    lemma_run_keeps_unknown(bus.step(Event::Connect), later, bus.client_count as ClientId);
}

/// A message for a client whose inbound queue is full is dropped: the
/// server is left as it was and the connection is to be closed.
pub proof fn lemma_full_queue_closes<I, O>(bus: BusState<I, O>, id: ClientId, msg: I)
    requires
        bus.well_formed(),
        bus.server.pipes.contains_key(id),
        bus.server.pipes[id].inbound.len() == bus.server.pipes[id].capacity,
    ensures
        bus.server.verdict(id, Some(msg)) == Some(CloseCode::Protocol),
        bus.step(Event::Text { id, decoded: Some(msg) }) == bus,
{
}

/// A malformed payload changes nothing and closes nothing.
pub proof fn lemma_malformed_is_dropped<I, O>(bus: BusState<I, O>, id: ClientId)
    ensures
        bus.server.verdict(id, None) is None,
        bus.step(Event::Text { id, decoded: None }) == bus,
{
}

} // verus!
