//! Both sides of the bus behind one value, for inbound messages only.
//!
//! A [`MessageServer`] is made with its source inside. The host takes the
//! source out once and gives it to whatever accepts the connections; the
//! server itself stays with the application, which polls it.

use crate::frame::{CloseCode, Frame};
use crate::handler::Handler;
use crate::listener::Listener;
use crate::server::{yields, Server};
use crate::state::{ClientId, ServerState};
use crate::trace::{BusState, Event};
use vstd::prelude::*;

verus! {

/// The network's side: opens clients and queues their messages.
pub struct MessageSource<T> {
    listener: Listener<T, ()>,
}

/// The application's side: the registration channel and the registry.
pub struct MessageSink<T> {
    server: Server<T, ()>,
}

/// A sink, and its source until the host takes it.
pub struct MessageServer<I> {
    source: Option<MessageSource<I>>,
    sink: MessageSink<I>,
}

impl<I> MessageServer<I> {
    /// What the sink holds.
    pub closed spec fn sink(&self) -> ServerState<I, ()> {
        self.sink.server@
    }

    /// Whether the source is still inside.
    pub closed spec fn has_source(&self) -> bool {
        self.source is Some
    }

    /// The source, while it is inside.
    pub closed spec fn source(&self) -> MessageSource<I>
        recommends
            self.has_source(),
    {
        self.source->0
    }

    pub closed spec fn well_formed(&self) -> bool {
        &&& self.sink.server.well_formed()
        &&& self.source matches Some(source) ==> source.bound_to(self.sink.server@)
    }

    /// A well-formed server keeps a well-formed sink.
    pub proof fn lemma_sink_well_formed(&self)
        requires
            self.well_formed(),
        ensures
            self.sink().well_formed(),
            self.has_source() ==> self.source().bound_to(self.sink()),
    {
        self.sink.server.lemma_state_well_formed();
    }

    /// A server without clients, with its source inside. Every client's
    /// queue will hold `capacity` messages.
    pub fn new(capacity: usize) -> (server: MessageServer<I>)
        ensures
            server.well_formed(),
            server.sink() == ServerState::<I, ()>::empty(),
            server.has_source(),
            server.source().spec_capacity() == capacity,
            server.source().spec_id_counter() == 0,
    {
        MessageServer {
            source: Some(MessageSource { listener: Listener::new(capacity) }),
            sink: MessageSink { server: Server::new() },
        }
    }

    /// Whether the source is still inside.
    pub fn holds_source(&self) -> (inside: bool)
        ensures
            inside == self.has_source(),
    {
        self.source.is_some()
    }

    /// Whether the sink holds a queue for `id`.
    pub fn knows(&self, id: ClientId) -> (known: bool)
        requires
            self.well_formed(),
        ensures
            known == self.sink().pipes.contains_key(id),
    {
        self.sink.server.knows(id)
    }

    /// Whether the registration channel has room for one more client.
    pub fn can_register(&self) -> (room: bool)
        requires
            self.well_formed(),
        ensures
            room == self.sink().can_register(),
    {
        self.sink.server.can_register()
    }

    /// Takes the source out, for the host to hand to the network's side.
    /// Only the first call gets it.
    pub fn take_source(&mut self) -> (source: Option<MessageSource<I>>)
        requires
            old(self).well_formed(),
        ensures
            final(self).well_formed(),
            !final(self).has_source(),
            final(self).sink() == old(self).sink(),
            match source {
                Some(source) => old(self).has_source() && source == old(self).source() && source.bound_to(
                    final(self).sink(),
                ),
                None => !old(self).has_source(),
            },
    {
        self.source.take()
    }

    /// Polls the bus: see [`Server::messages`].
    pub fn messages(&mut self) -> (out: Vec<(ClientId, I)>)
        requires
            old(self).well_formed(),
        ensures
            final(self).well_formed(),
            final(self).has_source() == old(self).has_source(),
            final(self).has_source() ==> final(self).source() == old(self).source(),
            final(self).sink() == old(self).sink().after_poll(),
            yields(out@, old(self).sink().polled()),
            out@.len() == old(self).sink().polled().dom().len(),
    {
        self.sink.server.messages()
    }
}

impl<T> MessageSource<T> {
    /// The identifier that the next client gets.
    pub fn id_counter(&self) -> (id: ClientId)
        ensures
            id == self.spec_id_counter(),
    {
        self.listener.client_count()
    }

    /// The capacity that every client's queue gets.
    pub closed spec fn spec_capacity(&self) -> nat {
        self.listener.spec_capacity()
    }

    /// The identifier that the next client gets.
    pub closed spec fn spec_id_counter(&self) -> nat {
        self.listener.spec_client_count()
    }

    /// Whether every client that `sink` knows got its identifier from this
    /// source.
    pub open spec fn bound_to(&self, sink: ServerState<T, ()>) -> bool {
        forall|id: ClientId| #[trigger] sink.pipes.contains_key(id) ==> id < self.spec_id_counter()
    }

    /// The whole bus, as this source and `sink` make it up.
    pub open spec fn bus(&self, sink: ServerState<T, ()>) -> BusState<T, ()> {
        BusState { server: sink, client_count: self.spec_id_counter(), capacity: self.spec_capacity() }
    }

    /// Opens a client, without waiting. It gets the next identifier and an
    /// empty queue, and is put into the registration channel for the next
    /// poll to find. If the channel has room, the client's identifier comes
    /// back. If it is full, the sink is left as it was and the connection is
    /// to be closed with [`CloseCode::Again`]; its identifier is not used
    /// again, so the sink never knows it.
    pub fn on_open(&mut self, server: &mut MessageServer<T>) -> (r: Result<ClientId, CloseCode>)
        requires
            old(server).well_formed(),
            !old(server).has_source(),
            !old(server).sink().pipes.contains_key(old(self).spec_id_counter() as ClientId),
            old(self).spec_id_counter() < usize::MAX,
        ensures
            final(server).well_formed(),
            !final(server).has_source(),
            old(self).bound_to(old(server).sink()) ==> final(self).bound_to(final(server).sink()),
            final(self).spec_id_counter() == old(self).spec_id_counter() + 1,
            final(self).spec_capacity() == old(self).spec_capacity(),
            final(server).sink() == old(server).sink().register(
                old(self).spec_id_counter() as ClientId,
                old(self).spec_capacity(),
            ),
            final(self).bus(final(server).sink()) == old(self).bus(old(server).sink()).step(Event::Connect),
            match r {
                Ok(id) => old(server).sink().can_register() && id == old(self).spec_id_counter(),
                Err(code) => {
                    &&& !old(server).sink().can_register()
                    &&& code == CloseCode::Again
                    &&& final(server).sink() == old(server).sink()
                    &&& !final(server).sink().pipes.contains_key(old(self).spec_id_counter() as ClientId)
                },
            },
    {
        match self.listener.connection_made(&mut server.sink.server) {
            Ok(handler) => Ok(handler.id()),
            Err(code) => Err(code),
        }
    }

    /// Deals with one frame of client `id`. A frame that is not text and a
    /// payload that `decode` cannot read are dropped. A message is queued
    /// for the application. `Err` says that it could not be queued, because
    /// the client's queue is full or the client is not known: nothing has
    /// changed then.
    pub fn on_message<F: Fn(&String) -> Option<T>>(
        &mut self,
        server: &mut MessageServer<T>,
        id: ClientId,
        frame: Frame,
        decode: F,
    ) -> (r: Result<(), ()>)
        requires
            old(server).well_formed(),
            !old(server).has_source(),
            frame matches Frame::Text(text) ==> decode.requires((&text,)),
        ensures
            final(server).well_formed(),
            !final(server).has_source(),
            *final(self) == *old(self),
            frame is Binary ==> r is Ok && final(server).sink() == old(server).sink(),
            frame matches Frame::Text(text) ==> exists|decoded: Option<T>|
                {
                    &&& decode.ensures((&text,), decoded)
                    &&& final(server).sink() == old(server).sink().deliver(id, decoded)
                    &&& r is Err <==> old(server).sink().verdict(id, decoded) is Some
                },
    {
        let ghost before = server.sink();
        let ghost received = frame;
        let mut handler: Handler<T, ()> = Handler::new(id);
        let action = handler.on_message(&mut server.sink.server, frame, decode);
        proof {
            if let Frame::Text(text) = received {
                let decoded = choose|decoded: Option<T>|
                    {
                        &&& decode.ensures((&text,), decoded)
                        &&& server.sink() == before.deliver(id, decoded)
                        &&& action == before.verdict(id, decoded)
                    };
                assert(action is Some <==> before.verdict(id, decoded) is Some);
            }
        }
        match action {
            None => Ok(()),
            Some(_) => Err(()),
        }
    }
}

/// Serves one connection of a [`MessageSource`]: opens its client when the
/// connection opens, then hands on its frames.
pub struct ClientHandler {
    id: Option<ClientId>,
}

impl ClientHandler {
    /// The client of this connection, once it is open.
    pub closed spec fn spec_id(&self) -> Option<ClientId> {
        self.id
    }

    /// A handler for a connection that is not open yet.
    pub fn new() -> (handler: Self)
        ensures
            handler.spec_id() is None,
    {
        ClientHandler { id: None }
    }

    /// The client of this connection, once it is open.
    pub fn id(&self) -> (id: Option<ClientId>)
        ensures
            id == self.spec_id(),
    {
        self.id
    }

    /// The connection is open: its client is opened at the source, as
    /// [`MessageSource::on_open`] says, without waiting. If the registration
    /// channel has room, the handler serves the new client from now on and
    /// nothing is asked for. If it is full, the sink is left as it was, the
    /// handler keeps what it had, and the connection is to be closed with
    /// [`CloseCode::Again`].
    pub fn on_open<T>(&mut self, source: &mut MessageSource<T>, server: &mut MessageServer<T>) -> (action: Option<
        CloseCode,
    >)
        requires
            old(server).well_formed(),
            !old(server).has_source(),
            !old(server).sink().pipes.contains_key(old(source).spec_id_counter() as ClientId),
            old(source).spec_id_counter() < usize::MAX,
        ensures
            final(server).well_formed(),
            !final(server).has_source(),
            old(source).bound_to(old(server).sink()) ==> final(source).bound_to(final(server).sink()),
            final(source).spec_id_counter() == old(source).spec_id_counter() + 1,
            final(source).spec_capacity() == old(source).spec_capacity(),
            final(server).sink() == old(server).sink().register(
                old(source).spec_id_counter() as ClientId,
                old(source).spec_capacity(),
            ),
            final(source).bus(final(server).sink()) == old(source).bus(old(server).sink()).step(Event::Connect),
            old(server).sink().can_register() ==> {
                &&& action is None
                &&& final(self).spec_id() == Some(old(source).spec_id_counter() as ClientId)
            },
            !old(server).sink().can_register() ==> {
                &&& action == Some(CloseCode::Again)
                &&& final(self).spec_id() == old(self).spec_id()
                &&& final(server).sink() == old(server).sink()
                &&& !final(server).sink().pipes.contains_key(old(source).spec_id_counter() as ClientId)
            },
    {
        match source.on_open(server) {
            Ok(id) => {
                self.id = Some(id);
                None
            },
            Err(code) => Some(code),
        }
    }

    /// Hands one frame to the source. Before the connection is open every
    /// frame is ignored. The connection is to be closed with
    /// [`CloseCode::Protocol`] if the source could not queue the message.
    pub fn on_message<T, F: Fn(&String) -> Option<T>>(
        &mut self,
        source: &mut MessageSource<T>,
        server: &mut MessageServer<T>,
        frame: Frame,
        decode: F,
    ) -> (action: Option<CloseCode>)
        requires
            old(server).well_formed(),
            !old(server).has_source(),
            frame matches Frame::Text(text) ==> decode.requires((&text,)),
        ensures
            final(server).well_formed(),
            !final(server).has_source(),
            *final(source) == *old(source),
            final(self).spec_id() == old(self).spec_id(),
            old(self).spec_id() is None || frame is Binary ==> action is None && final(server).sink() == old(
                server,
            ).sink(),
            old(self).spec_id() matches Some(id) ==> (frame matches Frame::Text(text) ==> exists|
                decoded: Option<T>,
            |
                {
                    &&& decode.ensures((&text,), decoded)
                    &&& final(server).sink() == old(server).sink().deliver(id, decoded)
                    &&& action == old(server).sink().verdict(id, decoded)
                }),
    {
        match self.id {
            Some(id) => {
                let ghost before = server.sink();
                let ghost received = frame;
                let r = source.on_message(server, id, frame, decode);
                proof {
                    if let Frame::Text(text) = received {
                        let decoded = choose|decoded: Option<T>|
                            {
                                &&& decode.ensures((&text,), decoded)
                                &&& server.sink() == before.deliver(id, decoded)
                                &&& r is Err <==> before.verdict(id, decoded) is Some
                            };
                        assert(before.verdict(id, decoded) is Some ==> before.verdict(id, decoded) == Some(
                            CloseCode::Protocol,
                        ));
                    }
                }
                match r {
                    Ok(()) => None,
                    Err(()) => Some(CloseCode::Protocol),
                }
            },
            None => None,
        }
    }
}

} // verus!
