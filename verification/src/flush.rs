//! Flushing: handing over what is buffered for the clients.
//!
//! Nothing is sent on its own. A flush empties the buffer of every
//! connection into an outbox for whoever writes to the sockets, and tears
//! down the connections that a protocol error has doomed, once their error
//! is in their outbox.

use vstd::prelude::*;
use crate::table::{
    lemma_precedes_transitive, ClientId, ClientView, Message, MessageView, ObjectTable, ResourcePtr,
    TableView,
};

verus! {

/// What a flush hands over for one connection.
#[derive(Debug)]
pub struct Outbox {
    pub client: ClientId,
    /// The messages that were buffered, oldest first.
    pub messages: Vec<Message>,
    /// Whether this flush tore the connection down.
    pub closed: bool,
}

/// Mathematical value of an [`Outbox`].
pub struct OutboxView {
    pub client: ClientId,
    pub messages: Seq<MessageView>,
    pub closed: bool,
}

impl View for Outbox {
    type V = OutboxView;

    open spec fn view(&self) -> OutboxView {
        OutboxView {
            client: self.client,
            messages: Seq::new(self.messages@.len(), |i: int| self.messages@[i]@),
            closed: self.closed,
        }
    }
}

/// A connection after a flush: nothing is buffered for it, and if it was
/// doomed it is closed.
pub open spec fn flushed_client(client: ClientView) -> ClientView {
    if client.doomed {
        ClientView { open: false, doomed: true, incoming: Seq::empty(), outgoing: Seq::empty() }
    } else {
        ClientView { outgoing: Seq::empty(), ..client }
    }
}

impl TableView {
    /// The table after the first `count` connections are flushed.
    pub open spec fn flushed_up_to(self, count: int) -> TableView {
        TableView {
            clients: Seq::new(
                self.clients.len(),
                |i: int|
                    if i < count {
                        flushed_client(self.clients[i])
                    } else {
                        self.clients[i]
                    },
            ),
            objects: Seq::new(
                self.objects.len(),
                |j: int|
                    if self.objects[j] is Some && self.objects[j]->Some_0.client.0 < count
                        && self.clients[self.objects[j]->Some_0.client.0 as int].doomed {
                        None
                    } else {
                        self.objects[j]
                    },
            ),
        }
    }

    /// The table after a flush: no connection has anything buffered for it,
    /// and every doomed connection is torn down, its objects with it.
    pub open spec fn flushed(self) -> TableView {
        self.flushed_up_to(self.clients.len() as int)
    }

    /// What a flush hands over for the connection.
    pub open spec fn outbox(self, client: ClientId) -> OutboxView {
        OutboxView {
            client,
            messages: self.client(client).outgoing,
            closed: self.client(client).open && self.client(client).doomed,
        }
    }
}

impl ObjectTable {
    /// Flushes every connection: see [`TableView::flushed`]. The outboxes
    /// come in the order in which the connections were accepted, one for
    /// each.
    pub fn flush_clients(&mut self) -> (outboxes: Vec<Outbox>)
        requires
            old(self).wf(),
        ensures
            final(self).wf(),
            old(self)@.precedes(final(self)@),
            final(self)@ == old(self)@.flushed(),
            outboxes@.len() == old(self)@.clients.len(),
            forall|i: int|
                0 <= i < outboxes@.len() ==> (#[trigger] outboxes@[i])@ == old(self)@.outbox(
                    ClientId(i as usize),
                ),
    {
        let mut outboxes: Vec<Outbox> = Vec::new();
        let count: usize = self.client_count();
        let slots: usize = self.object_count();
        let mut i: usize = 0;
        proof {
            assert(self@.clients =~= old(self)@.flushed_up_to(0).clients);
            assert(self@.objects =~= old(self)@.flushed_up_to(0).objects);
        }
        while i < count
            invariant
                i <= count,
                count == old(self)@.clients.len(),
                slots == old(self)@.objects.len(),
                old(self).wf(),
                self.wf(),
                old(self)@.precedes(self@),
                self@ == old(self)@.flushed_up_to(i as int),
                outboxes@.len() == i,
                forall|k: int|
                    0 <= k < i ==> (#[trigger] outboxes@[k])@ == old(self)@.outbox(
                        ClientId(k as usize),
                    ),
            decreases count - i,
        {
            let client = ClientId(i);
            let ghost start = self@;
            let doomed: bool = self.is_doomed(client);
            let open: bool = self.is_open(client);
            let messages = self.take_outgoing(client);
            let ghost taken = self@;
            if doomed {
                self.disconnect(client);
            }
            let outbox = Outbox { client, messages, closed: open && doomed };
            proof {
                let before = old(self)@;
                lemma_precedes_transitive(before, start, taken);
                lemma_precedes_transitive(before, taken, self@);
                assert(start.client(client) == before.client(client));
                assert(outbox@.messages =~= before.client(client).outgoing);
                assert(self@.clients =~= before.flushed_up_to(i + 1).clients);
                assert(self@.objects =~= before.flushed_up_to(i + 1).objects) by {
                    assert forall|j: int| 0 <= j < before.objects.len() implies self@.objects[j]
                        == before.flushed_up_to(i + 1).objects[j] by {
                        if before.objects[j] is Some {
                            let owner = before.objects[j]->Some_0.client;
                            assert(before.alive(ResourcePtr(j as usize)));
                            assert(before.is_open(owner));
                        }
                    }
                }
            }
            outboxes.push(outbox);
            i = i + 1;
        }
        outboxes
    }
}

} // verus!
