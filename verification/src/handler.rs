//! The network's side of the bus: one connection's frames.

use crate::frame::{CloseCode, Frame};
use crate::server::Server;
use crate::state::ClientId;
use std::marker::PhantomData;
use vstd::prelude::*;

verus! {

/// Turns the frames of one connection into messages on its client's inbound
/// queue.
pub struct Handler<I, O> {
    id: ClientId,
    pipes: PhantomData<(I, O)>,
}

impl<I, O> Handler<I, O> {
    /// The client that this handler serves.
    pub closed spec fn spec_id(&self) -> ClientId {
        self.id
    }

    /// A handler for the connection of client `id`.
    pub fn new(id: ClientId) -> (handler: Self)
        ensures
            handler.spec_id() == id,
    {
        Handler { id, pipes: PhantomData }
    }

    /// The client that this handler serves.
    pub fn id(&self) -> (id: ClientId)
        ensures
            id == self.spec_id(),
    {
        self.id
    }

    /// Deals with the decoded payload of a text frame. A malformed payload
    /// (`None`) is dropped and the connection goes on. A message is queued
    /// for the application; if its client's inbound queue is full, or the
    /// server does not know the client, the message is dropped, the server
    /// is left as it was, and the connection is to be closed with
    /// [`CloseCode::Protocol`].
    pub fn deliver(&mut self, server: &mut Server<I, O>, decoded: Option<I>) -> (action: Option<CloseCode>)
        requires
            old(server).well_formed(),
        ensures
            final(server).well_formed(),
            final(self).spec_id() == old(self).spec_id(),
            final(server)@ == old(server)@.deliver(old(self).spec_id(), decoded),
            action == old(server)@.verdict(old(self).spec_id(), decoded),
    {
        match decoded {
            None => None,
            Some(msg) => match server.enqueue(self.id, msg) {
                Ok(()) => None,
                Err(_) => Some(CloseCode::Protocol),
            },
        }
    }

    /// Deals with one frame. Only a text frame is decoded, with `decode`,
    /// and its result handed to [`Handler::deliver`]; any other frame is
    /// ignored.
    pub fn on_message<F: Fn(&String) -> Option<I>>(
        &mut self,
        server: &mut Server<I, O>,
        frame: Frame,
        decode: F,
    ) -> (action: Option<CloseCode>)
        requires
            old(server).well_formed(),
            frame matches Frame::Text(text) ==> decode.requires((&text,)),
        ensures
            final(server).well_formed(),
            final(self).spec_id() == old(self).spec_id(),
            frame is Binary ==> action is None && final(server)@ == old(server)@,
            frame matches Frame::Text(text) ==> exists|decoded: Option<I>|
                {
                    &&& decode.ensures((&text,), decoded)
                    &&& final(server)@ == old(server)@.deliver(old(self).spec_id(), decoded)
                    &&& action == old(server)@.verdict(old(self).spec_id(), decoded)
                },
    {
        match frame {
            Frame::Text(text) => {
                let decoded = decode(&text);
                self.deliver(server, decoded)
            },
            Frame::Binary(_) => None,
        }
    }
}

} // verus!
