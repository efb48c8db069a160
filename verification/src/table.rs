//! The table of client connections and of the protocol objects they own.
//!
//! Every object the engine creates gets a slot that is never given to
//! another object, so a handle that outlives its object keeps pointing at an
//! empty slot: destruction shows in every handle at once and never reverts.
//! The id by which a client names an object is free for reuse as soon as the
//! object is gone.

use vstd::prelude::*;
use std::sync::Arc;
use crate::interface::{Interface, InterfaceView};
use crate::wire::{
    decode_header, encode_error, encode_message, error_block, frame_of, frameable, framed,
    lemma_framed_decodes, truncate_at_nul, until_nul, Frame, DISPLAY_ID, ERROR_OPCODE,
};

verus! {

/// Identity of one accepted connection.
#[derive(Copy, Clone, PartialEq, Eq, Structural, Debug)]
pub struct ClientId(pub usize);

/// Raw identity of one protocol object: what every handle to it wraps.
#[derive(Copy, Clone, PartialEq, Eq, Structural, Debug)]
pub struct ResourcePtr(pub usize);

/// A message buffered for a client until the next flush.
#[derive(Debug)]
pub enum Message {
    /// An event of the object that the client knows as `object`.
    Event { object: u32, opcode: u32, payload: Vec<u8> },
    /// A protocol error raised on the object that the client knows as
    /// `object`.
    Error { object: u32, code: u32, text: Vec<u8> },
}

/// Mathematical value of a [`Message`].
pub enum MessageView {
    Event { object: u32, opcode: u32, payload: Seq<u8> },
    Error { object: u32, code: u32, text: Seq<u8> },
}

impl View for Message {
    type V = MessageView;

    open spec fn view(&self) -> MessageView {
        match *self {
            Message::Event { object, opcode, payload } => MessageView::Event {
                object,
                opcode,
                payload: payload@,
            },
            Message::Error { object, code, text } => MessageView::Error { object, code, text: text@ },
        }
    }
}

impl MessageView {
    /// The message as it is framed for the wire. An event goes out as it
    /// is; an error goes out as the error event of the display object.
    pub open spec fn framing(self) -> (u32, u32, Seq<u8>) {
        match self {
            MessageView::Event { object, opcode, payload } => (object, opcode, payload),
            MessageView::Error { object, code, text } => (
                DISPLAY_ID,
                ERROR_OPCODE,
                error_block(object, code, text),
            ),
        }
    }

    /// The message can be framed.
    pub open spec fn encodable(self) -> bool {
        frameable(self.framing().1, self.framing().2)
    }

    /// The bytes of the message on the wire.
    pub open spec fn encoded(self) -> Seq<u8> {
        framed(self.framing().0, self.framing().1, self.framing().2)
    }
}

impl Message {
    /// The bytes of the message on the wire, or `None` for a message that
    /// cannot be framed.
    pub fn encode(&self) -> (bytes: Option<Vec<u8>>)
        ensures
            match bytes {
                Some(encoded) => self@.encodable() && encoded@ == self@.encoded(),
                None => !self@.encodable(),
            },
    {
        match self {
            Message::Event { object, opcode, payload } => encode_message(
                *object,
                *opcode,
                payload.as_slice(),
            ),
            Message::Error { object, code, text } => encode_error(*object, *code, text.as_slice()),
        }
    }
}

/// The callbacks that handle the requests of one object, one per opcode,
/// with the data handed to each of them. A callback is named by a number
/// that the application chooses.
#[derive(Debug)]
pub struct Implementation {
    pub callbacks: Vec<u64>,
    pub data: u64,
}

/// Mathematical value of an [`Implementation`].
pub struct ImplementationView {
    pub callbacks: Seq<u64>,
    pub data: u64,
}

impl View for Implementation {
    type V = ImplementationView;

    open spec fn view(&self) -> ImplementationView {
        ImplementationView { callbacks: self.callbacks@, data: self.data }
    }
}

impl Implementation {
    /// Whether two implementations hold the same callbacks and data.
    pub fn same_as(&self, other: &Implementation) -> (same: bool)
        ensures
            same == (self@ == other@),
    {
        if self.data != other.data || self.callbacks.len() != other.callbacks.len() {
            return false;
        }
        let mut i: usize = 0;
        while i < self.callbacks.len()
            invariant
                i <= self.callbacks.len(),
                self.callbacks.len() == other.callbacks.len(),
                self.data == other.data,
                forall|j: int| 0 <= j < i ==> self.callbacks@[j] == other.callbacks@[j],
            decreases self.callbacks.len() - i,
        {
            if self.callbacks[i] != other.callbacks[i] {
                return false;
            }
            i = i + 1;
        }
        assert(self.callbacks@ =~= other.callbacks@);
        true
    }
}

/// What the table holds of one connection.
pub struct ClientView {
    /// The connection has not been torn down.
    pub open: bool,
    /// A protocol error was raised on one of its objects: the connection is
    /// to be torn down at the next flush.
    pub doomed: bool,
    /// Bytes received and not yet dispatched.
    pub incoming: Seq<u8>,
    /// Messages buffered for the next flush.
    pub outgoing: Seq<MessageView>,
}

/// What the table holds of one live object.
pub struct ObjectView {
    /// The connection that owns the object.
    pub client: ClientId,
    /// The id by which its client names it.
    pub id: u32,
    pub interface: InterfaceView,
    /// The version of the interface that the object was instantiated with.
    pub version: u32,
    /// The user data shared by all handles to the object; 0 when none is set.
    pub user_data: usize,
    /// The implementation registered for the object.
    pub implementation: Option<ImplementationView>,
}

/// Mathematical value of an [`ObjectTable`]: the connections ever accepted,
/// and for every slot ever issued the object in it, or `None` once that
/// object is destroyed.
pub struct TableView {
    pub clients: Seq<ClientView>,
    pub objects: Seq<Option<ObjectView>>,
}

/// Among `objects`, the slot `ptr` holds the live object that `client` names
/// `id`.
pub open spec fn named_in(
    objects: Seq<Option<ObjectView>>,
    client: ClientId,
    id: u32,
    ptr: ResourcePtr,
) -> bool {
    &&& ptr.0 < objects.len()
    &&& objects[ptr.0 as int] matches Some(object)
    &&& object.client == client
    &&& object.id == id
}

impl TableView {
    /// The table has accepted this connection.
    pub open spec fn knows(self, client: ClientId) -> bool {
        client.0 < self.clients.len()
    }

    pub open spec fn client(self, client: ClientId) -> ClientView {
        self.clients[client.0 as int]
    }

    /// The connection was accepted and has not been torn down.
    pub open spec fn is_open(self, client: ClientId) -> bool {
        self.knows(client) && self.client(client).open
    }

    /// The slot was given to an object of this table.
    pub open spec fn issued(self, ptr: ResourcePtr) -> bool {
        ptr.0 < self.objects.len()
    }

    /// The object in this slot exists.
    pub open spec fn alive(self, ptr: ResourcePtr) -> bool {
        self.issued(ptr) && self.objects[ptr.0 as int] is Some
    }

    pub open spec fn object(self, ptr: ResourcePtr) -> ObjectView {
        self.objects[ptr.0 as int]->Some_0
    }

    /// `ptr` is the live object that `client` names `id`.
    pub open spec fn names(self, client: ClientId, id: u32, ptr: ResourcePtr) -> bool {
        named_in(self.objects, client, id, ptr)
    }

    /// `client` has a live object that it names `id`.
    pub open spec fn in_use(self, client: ClientId, id: u32) -> bool {
        exists|ptr: ResourcePtr| named_in(self.objects, client, id, ptr)
    }

    /// The live object that `client` names `id`.
    pub open spec fn resolve(self, client: ClientId, id: u32) -> ResourcePtr {
        choose|ptr: ResourcePtr| named_in(self.objects, client, id, ptr)
    }

    /// Every live object belongs to an open connection and was instantiated
    /// at a version its interface supports, and no connection uses one id for
    /// two live objects. Connections and slots are no more than can be
    /// counted.
    pub open spec fn wf(self) -> bool {
        &&& self.clients.len() <= usize::MAX
        &&& self.objects.len() <= usize::MAX
        &&& forall|ptr: ResourcePtr| #[trigger]
            self.alive(ptr) ==> self.is_open(self.object(ptr).client) && self.object(ptr).version
                <= self.object(ptr).interface.version
        &&& forall|p: ResourcePtr, q: ResourcePtr|
            #![trigger self.alive(p), self.alive(q)]
            self.alive(p) && self.alive(q) && self.object(p).client == self.object(q).client
                && self.object(p).id == self.object(q).id ==> p == q
    }

    /// `next` can come after `self`: nothing that has ended is back. Closed
    /// connections stay closed, doomed ones stay doomed, destroyed objects
    /// stay destroyed, and an object that is still alive is still the same
    /// object.
    pub open spec fn precedes(self, next: TableView) -> bool {
        &&& self.clients.len() <= next.clients.len()
        &&& self.objects.len() <= next.objects.len()
        &&& forall|client: ClientId| #[trigger]
            self.knows(client) ==> (next.client(client).open ==> self.client(client).open) && (
            self.client(client).doomed ==> next.client(client).doomed)
        &&& forall|ptr: ResourcePtr| #[trigger]
            self.issued(ptr) ==> (next.alive(ptr) ==> self.alive(ptr))
        &&& forall|ptr: ResourcePtr| #[trigger]
            next.alive(ptr) && self.alive(ptr) ==> next.object(ptr).client == self.object(
                ptr,
            ).client && next.object(ptr).id == self.object(ptr).id && next.object(ptr).interface
                == self.object(ptr).interface && next.object(ptr).version == self.object(
                ptr,
            ).version
    }
}

impl TableView {
    /// The table with the record of one connection replaced.
    pub open spec fn with_client(self, client: ClientId, record: ClientView) -> TableView {
        TableView { clients: self.clients.update(client.0 as int, record), ..self }
    }

    /// The table with the content of one slot replaced.
    pub open spec fn with_object(self, ptr: ResourcePtr, object: Option<ObjectView>) -> TableView {
        TableView { objects: self.objects.update(ptr.0 as int, object), ..self }
    }

    /// The table once `data` is the user data of the object `ptr`.
    pub open spec fn with_user_data(self, ptr: ResourcePtr, data: usize) -> TableView {
        self.with_object(ptr, Some(ObjectView { user_data: data, ..self.object(ptr) }))
    }

    /// The table once `implementation` is registered for the object `ptr`,
    /// whatever was registered for it before.
    pub open spec fn registered(
        self,
        ptr: ResourcePtr,
        implementation: ImplementationView,
    ) -> TableView {
        self.with_object(
            ptr,
            Some(ObjectView { implementation: Some(implementation), ..self.object(ptr) }),
        )
    }

    /// The table after the connection is torn down: the connection is closed,
    /// what it had sent and not yet seen dispatched is dropped, and every
    /// object it owned is destroyed. Messages buffered for it stay until they
    /// are taken. An unknown connection changes nothing.
    pub open spec fn torn_down(self, client: ClientId) -> TableView {
        if self.knows(client) {
            TableView {
                clients: self.clients.update(
                    client.0 as int,
                    ClientView { open: false, incoming: Seq::empty(), ..self.client(client) },
                ),
                objects: Seq::new(
                    self.objects.len(),
                    |i: int|
                        if self.objects[i] is Some && self.objects[i]->Some_0.client == client {
                            None
                        } else {
                            self.objects[i]
                        },
                ),
            }
        } else {
            self
        }
    }
}

struct ClientRecord {
    open: bool,
    doomed: bool,
    incoming: Vec<u8>,
    outgoing: Vec<Message>,
}

impl View for ClientRecord {
    type V = ClientView;

    closed spec fn view(&self) -> ClientView {
        ClientView {
            open: self.open,
            doomed: self.doomed,
            incoming: self.incoming@,
            outgoing: Seq::new(self.outgoing@.len(), |i: int| self.outgoing@[i]@),
        }
    }
}

struct ObjectRecord {
    client: usize,
    id: u32,
    interface: Arc<Interface>,
    version: u32,
    user_data: usize,
    implementation: Option<Implementation>,
}

impl View for ObjectRecord {
    type V = ObjectView;

    closed spec fn view(&self) -> ObjectView {
        ObjectView {
            client: ClientId(self.client),
            id: self.id,
            interface: self.interface@,
            version: self.version,
            user_data: self.user_data,
            implementation: match self.implementation {
                Some(implementation) => Some(implementation@),
                None => None,
            },
        }
    }
}

/// Why an object could not be created.
#[derive(Copy, Clone, PartialEq, Eq, Structural, Debug)]
pub enum CreateError {
    /// The connection is unknown or torn down.
    Disconnected,
    /// The connection already has a live object with this id.
    IdInUse,
    /// The version exceeds what the interface supports.
    VersionTooHigh,
}

/// The connections and their objects.
pub struct ObjectTable {
    clients: Vec<ClientRecord>,
    objects: Vec<Option<ObjectRecord>>,
}

impl View for ObjectTable {
    type V = TableView;

    closed spec fn view(&self) -> TableView {
        TableView {
            clients: Seq::new(self.clients@.len(), |i: int| self.clients@[i]@),
            objects: Seq::new(
                self.objects@.len(),
                |i: int|
                    match self.objects@[i] {
                        Some(record) => Some(record@),
                        None => None,
                    },
            ),
        }
    }
}

impl ObjectTable {
    /// The invariant of the table: see [`TableView::wf`].
    pub open spec fn wf(&self) -> bool {
        self@.wf()
    }

    /// A table with no connection and no object.
    pub fn new() -> (table: ObjectTable)
        ensures
            table.wf(),
            table@.clients.len() == 0,
            table@.objects.len() == 0,
    {
        ObjectTable { clients: Vec::new(), objects: Vec::new() }
    }

    /// Accepts a connection: it is open, with nothing buffered and no object.
    pub fn add_client(&mut self) -> (client: ClientId)
        requires
            old(self).wf(),
        ensures
            final(self).wf(),
            client.0 == old(self)@.clients.len(),
            final(self)@.clients == old(self)@.clients.push(
                ClientView {
                    open: true,
                    doomed: false,
                    incoming: Seq::empty(),
                    outgoing: Seq::empty(),
                },
            ),
            final(self)@.objects == old(self)@.objects,
            old(self)@.precedes(final(self)@),
    {
        let record = ClientRecord {
            open: true,
            doomed: false,
            incoming: Vec::new(),
            outgoing: Vec::new(),
        };
        assert(record@.outgoing =~= Seq::empty());
        self.clients.push(record);
        proof {
            assert(final(self)@.clients =~= old(self)@.clients.push(record@));
            assert(final(self)@.objects =~= old(self)@.objects);
            assert(self.clients@.len() == self.clients.len());
            Self::lemma_same_objects(old(self)@, final(self)@);
        }
        ClientId(self.clients.len() - 1)
    }

    /// A table that keeps the objects and the open connections of a
    /// well-formed one is well-formed.
    proof fn lemma_same_objects(before: TableView, after: TableView)
        requires
            before.wf(),
            after.objects == before.objects,
            before.clients.len() <= after.clients.len() <= usize::MAX,
            forall|client: ClientId| #[trigger]
                before.is_open(client) ==> after.is_open(client),
        ensures
            after.wf(),
    {
        assert forall|ptr: ResourcePtr| #[trigger] after.alive(ptr) implies after.is_open(
            after.object(ptr).client,
        ) && after.object(ptr).version <= after.object(ptr).interface.version by {
            assert(before.alive(ptr));
            assert(before.is_open(before.object(ptr).client));
        }
        assert forall|p: ResourcePtr, q: ResourcePtr|
            #![trigger after.alive(p), after.alive(q)]
            after.alive(p) && after.alive(q) && after.object(p).client == after.object(q).client
                && after.object(p).id == after.object(q).id implies p == q by {
            assert(before.alive(p) && before.alive(q));
        }
    }

    /// Whether the connection was accepted and has not been torn down.
    pub fn is_open(&self, client: ClientId) -> (open: bool)
        ensures
            open == self@.is_open(client),
    {
        client.0 < self.clients.len() && self.clients[client.0].open
    }

    /// Whether a protocol error was raised on an object of the connection.
    pub fn is_doomed(&self, client: ClientId) -> (doomed: bool)
        ensures
            doomed == (self@.knows(client) && self@.client(client).doomed),
    {
        client.0 < self.clients.len() && self.clients[client.0].doomed
    }

    /// Whether the object in this slot exists.
    pub fn is_alive(&self, ptr: ResourcePtr) -> (alive: bool)
        ensures
            alive == self@.alive(ptr),
    {
        ptr.0 < self.objects.len() && self.objects[ptr.0].is_some()
    }

    /// Whether the slot was ever given to an object of this table.
    pub fn is_issued(&self, ptr: ResourcePtr) -> (issued: bool)
        ensures
            issued == self@.issued(ptr),
    {
        ptr.0 < self.objects.len()
    }

    /// The live object that `client` names `id`, if there is one.
    pub fn lookup(&self, client: ClientId, id: u32) -> (found: Option<ResourcePtr>)
        ensures
            found is Some <==> self@.in_use(client, id),
            found matches Some(ptr) ==> self@.names(client, id, ptr),
            self.wf() && found is Some ==> found == Some(self@.resolve(client, id)),
    {
        let mut i: usize = 0;
        while i < self.objects.len()
            invariant
                i <= self.objects.len(),
                forall|ptr: ResourcePtr| ptr.0 < i ==> !self@.names(client, id, ptr),
            decreases self.objects.len() - i,
        {
            let hit: bool = match &self.objects[i] {
                Some(record) => record.client == client.0 && record.id == id,
                None => false,
            };
            if hit {
                let ptr = ResourcePtr(i);
                assert(self@.names(client, id, ptr));
                proof {
                    if self.wf() {
                        let chosen = self@.resolve(client, id);
                        assert(self@.names(client, id, chosen));
                        assert(self@.alive(chosen) && self@.alive(ptr));
                    }
                }
                return Some(ptr);
            }
            assert forall|ptr: ResourcePtr| ptr.0 < i + 1 implies !self@.names(client, id, ptr) by {
                if ptr.0 == i {
                    assert(ptr == ResourcePtr(i));
                }
            }
            i = i + 1;
        }
        assert(!self@.in_use(client, id)) by {
            if self@.in_use(client, id) {
                let ptr = self@.resolve(client, id);
                assert(self@.names(client, id, ptr));
                assert(ptr.0 < self.objects.len());
            }
        }
        None
    }
}

impl ObjectTable {
    /// Creates the object that `client` will name `id`, instantiated at
    /// `version` of `interface`, with no user data and no implementation.
    ///
    /// Fails, and changes nothing, when the connection is not open, when the
    /// version exceeds what the interface supports, or when the connection
    /// already has a live object with this id.
    pub fn create_object(
        &mut self,
        client: ClientId,
        id: u32,
        interface: Arc<Interface>,
        version: u32,
    ) -> (created: Result<ResourcePtr, CreateError>)
        requires
            old(self).wf(),
        ensures
            final(self).wf(),
            old(self)@.precedes(final(self)@),
            match created {
                Ok(ptr) => {
                    &&& old(self)@.is_open(client)
                    &&& version <= interface@.version
                    &&& !old(self)@.in_use(client, id)
                    &&& ptr.0 == old(self)@.objects.len()
                    &&& final(self)@ == (TableView {
                        objects: old(self)@.objects.push(
                            Some(
                                ObjectView {
                                    client,
                                    id,
                                    interface: interface@,
                                    version,
                                    user_data: 0,
                                    implementation: None,
                                },
                            ),
                        ),
                        ..old(self)@
                    })
                },
                Err(CreateError::Disconnected) => !old(self)@.is_open(client) && final(self)@
                    == old(self)@,
                Err(CreateError::VersionTooHigh) => old(self)@.is_open(client) && version
                    > interface@.version && final(self)@ == old(self)@,
                Err(CreateError::IdInUse) => old(self)@.is_open(client) && version
                    <= interface@.version && old(self)@.in_use(client, id) && final(self)@ == old(
                    self,
                )@,
            },
    {
        if !self.is_open(client) {
            return Err(CreateError::Disconnected);
        }
        if version > interface.version {
            return Err(CreateError::VersionTooHigh);
        }
        if self.lookup(client, id).is_some() {
            return Err(CreateError::IdInUse);
        }
        let record = ObjectRecord {
            client: client.0,
            id,
            interface,
            version,
            user_data: 0,
            implementation: None,
        };
        self.objects.push(Some(record));
        let ptr = ResourcePtr(self.objects.len() - 1);
        proof {
            let before = old(self)@;
            let after = final(self)@;
            assert(after.clients =~= before.clients);
            assert(after.objects =~= before.objects.push(Some(record@)));
            assert forall|p: ResourcePtr| #[trigger] after.alive(p) implies after.is_open(
                after.object(p).client,
            ) && after.object(p).version <= after.object(p).interface.version by {
                if p.0 < before.objects.len() {
                    assert(before.alive(p));
                }
            }
            assert forall|p: ResourcePtr, q: ResourcePtr|
                #![trigger after.alive(p), after.alive(q)]
                after.alive(p) && after.alive(q) && after.object(p).client == after.object(
                    q,
                ).client && after.object(p).id == after.object(q).id implies p == q by {
                if p.0 < before.objects.len() && q.0 < before.objects.len() {
                    assert(before.alive(p) && before.alive(q));
                } else if p.0 < before.objects.len() {
                    assert(before.names(client, id, p));
                } else if q.0 < before.objects.len() {
                    assert(before.names(client, id, q));
                }
            }
        }
        Ok(ptr)
    }

    /// Destroys the object in the slot, if it is alive, and says whether it
    /// was. Its id is free for reuse by its connection.
    pub fn destroy_object(&mut self, ptr: ResourcePtr) -> (destroyed: bool)
        requires
            old(self).wf(),
        ensures
            final(self).wf(),
            old(self)@.precedes(final(self)@),
            destroyed == old(self)@.alive(ptr),
            final(self)@ == if destroyed {
                old(self)@.with_object(ptr, None)
            } else {
                old(self)@
            },
    {
        if !self.is_alive(ptr) {
            return false;
        }
        self.objects[ptr.0] = None;
        proof {
            let before = old(self)@;
            let after = final(self)@;
            assert(after.clients =~= before.clients);
            assert(after.objects =~= before.objects.update(ptr.0 as int, None));
            assert forall|p: ResourcePtr| #[trigger] after.alive(p) implies before.alive(p)
                && after.object(p) == before.object(p) && after.is_open(
                before.object(p).client,
            ) by {
                assert(before.alive(p));
            }
            Self::lemma_fewer_objects(before, after);
        }
        true
    }

    /// A table that keeps the connections of a well-formed one, and of its
    /// objects some, unchanged, is well-formed and can come after it.
    proof fn lemma_fewer_objects(before: TableView, after: TableView)
        requires
            before.wf(),
            after.objects.len() == before.objects.len(),
            after.clients.len() == before.clients.len(),
            forall|client: ClientId| #[trigger]
                before.knows(client) ==> (after.client(client).open ==> before.client(
                    client,
                ).open) && (before.client(client).doomed ==> after.client(client).doomed),
            forall|ptr: ResourcePtr| #[trigger]
                after.alive(ptr) ==> before.alive(ptr) && after.object(ptr) == before.object(ptr)
                    && after.is_open(before.object(ptr).client),
        ensures
            after.wf(),
            before.precedes(after),
    {
        assert forall|p: ResourcePtr, q: ResourcePtr|
            #![trigger after.alive(p), after.alive(q)]
            after.alive(p) && after.alive(q) && after.object(p).client == after.object(q).client
                && after.object(p).id == after.object(q).id implies p == q by {
            assert(before.alive(p) && before.alive(q));
        }
    }

    /// Tears the connection down: see [`TableView::torn_down`].
    pub fn disconnect(&mut self, client: ClientId)
        requires
            old(self).wf(),
        ensures
            final(self).wf(),
            old(self)@.precedes(final(self)@),
            final(self)@ == old(self)@.torn_down(client),
    {
        if client.0 >= self.clients.len() {
            return ;
        }
        self.clients[client.0].open = false;
        self.clients[client.0].incoming = Vec::new();
        let ghost clients = self.clients;
        assert(self@.clients =~= old(self)@.torn_down(client).clients);
        let mut i: usize = 0;
        while i < self.objects.len()
            invariant
                i <= self.objects.len(),
                self.objects.len() == old(self).objects.len(),
                self.clients == clients,
                forall|j: int|
                    0 <= j < i ==> #[trigger] self.objects@[j] == (if old(self).objects@[j] is Some
                        && old(self).objects@[j]->Some_0.client == client.0 {
                        None
                    } else {
                        old(self).objects@[j]
                    }),
                forall|j: int|
                    i <= j < self.objects.len() ==> #[trigger] self.objects@[j] == old(
                        self,
                    ).objects@[j],
            decreases self.objects.len() - i,
        {
            let owned: bool = match &self.objects[i] {
                Some(record) => record.client == client.0,
                None => false,
            };
            if owned {
                self.objects[i] = None;
            }
            i = i + 1;
        }
        proof {
            let before = old(self)@;
            let after = final(self)@;
            assert(after.objects =~= before.torn_down(client).objects);
            assert forall|ptr: ResourcePtr| #[trigger] after.alive(ptr) implies before.alive(ptr)
                && after.object(ptr) == before.object(ptr) && after.is_open(
                before.object(ptr).client,
            ) by {
                assert(before.alive(ptr));
                assert(before.is_open(before.object(ptr).client));
            }
            Self::lemma_fewer_objects(before, after);
        }
    }

    /// Ends a connection that has broken the protocol, and tells it why: see
    /// [`TableView::violated`].
    pub fn violate(&mut self, client: ClientId, object: u32, code: u32)
        requires
            old(self).wf(),
        ensures
            final(self).wf(),
            old(self)@.precedes(final(self)@),
            final(self)@ == old(self)@.violated(client, object, code),
    {
        if client.0 >= self.clients.len() {
            proof {
                lemma_precedes_reflexive(self@);
            }
            return ;
        }
        let message = Message::Error { object, code, text: Vec::new() };
        let ghost pushed = message@;
        self.clients[client.0].outgoing.push(message);
        let ghost told = self@;
        proof {
            let before = old(self)@;
            assert(pushed == MessageView::Error { object, code, text: Seq::<u8>::empty() });
            assert(told.objects =~= before.objects);
            assert(told.client(client).outgoing =~= before.client(client).outgoing.push(pushed));
            assert(told.clients =~= before.with_outgoing(client, pushed).clients);
            Self::lemma_same_identities(before, told);
        }
        self.disconnect(client);
        proof {
            lemma_precedes_transitive(old(self)@, told, self@);
        }
    }

    /// Buffers bytes received from the connection, behind those already
    /// buffered, and says whether it did: bytes of a connection that is not
    /// open are dropped.
    pub fn feed(&mut self, client: ClientId, bytes: &[u8]) -> (accepted: bool)
        requires
            old(self).wf(),
        ensures
            final(self).wf(),
            old(self)@.precedes(final(self)@),
            accepted == old(self)@.is_open(client),
            final(self)@ == if accepted {
                old(self)@.with_client(
                    client,
                    ClientView {
                        incoming: old(self)@.client(client).incoming + bytes@,
                        ..old(self)@.client(client)
                    },
                )
            } else {
                old(self)@
            },
    {
        if !self.is_open(client) {
            return false;
        }
        let mut i: usize = 0;
        while i < bytes.len()
            invariant
                i <= bytes.len(),
                client.0 < self.clients.len(),
                self.objects == old(self).objects,
                self.clients@.len() == old(self).clients@.len(),
                forall|j: int|
                    0 <= j < self.clients@.len() && j != client.0 ==> self.clients@[j] == old(
                        self,
                    ).clients@[j],
                self.clients@[client.0 as int].open == old(self).clients@[client.0 as int].open,
                self.clients@[client.0 as int].doomed == old(self).clients@[client.0 as int].doomed,
                self.clients@[client.0 as int].outgoing == old(self).clients@[client.0 as int].outgoing,
                self.clients@[client.0 as int].incoming@ == old(self).clients@[client.0 as int].incoming@
                    + bytes@.take(i as int),
            decreases bytes.len() - i,
        {
            self.clients[client.0].incoming.push(bytes[i]);
            assert(bytes@.take(i as int).push(bytes@[i as int]) =~= bytes@.take(i + 1));
            assert((old(self).clients@[client.0 as int].incoming@ + bytes@.take(i as int)).push(
                bytes@[i as int],
            ) =~= old(self).clients@[client.0 as int].incoming@ + bytes@.take(i + 1));
            i = i + 1;
        }
        proof {
            let before = old(self)@;
            let after = final(self)@;
            assert(bytes@.take(bytes@.len() as int) =~= bytes@);
            assert(after.objects =~= before.objects);
            assert(after.clients =~= before.clients.update(
                client.0 as int,
                ClientView {
                    incoming: before.client(client).incoming + bytes@,
                    ..before.client(client)
                },
            ));
            Self::lemma_same_objects(before, after);
        }
        true
    }

    /// The connection that owns the object, if the object is alive.
    pub fn owner(&self, ptr: ResourcePtr) -> (owner: Option<ClientId>)
        ensures
            owner == if self@.alive(ptr) {
                Some(self@.object(ptr).client)
            } else {
                None
            },
    {
        if ptr.0 >= self.objects.len() {
            return None;
        }
        match &self.objects[ptr.0] {
            Some(record) => Some(ClientId(record.client)),
            None => None,
        }
    }

    /// The id by which its connection names the object, if the object is
    /// alive.
    pub fn object_id(&self, ptr: ResourcePtr) -> (id: Option<u32>)
        ensures
            id == if self@.alive(ptr) {
                Some(self@.object(ptr).id)
            } else {
                None
            },
    {
        if ptr.0 >= self.objects.len() {
            return None;
        }
        match &self.objects[ptr.0] {
            Some(record) => Some(record.id),
            None => None,
        }
    }

    /// The version the object was instantiated with, if the object is alive.
    pub fn version_of(&self, ptr: ResourcePtr) -> (version: Option<u32>)
        ensures
            version == if self@.alive(ptr) {
                Some(self@.object(ptr).version)
            } else {
                None
            },
    {
        if ptr.0 >= self.objects.len() {
            return None;
        }
        match &self.objects[ptr.0] {
            Some(record) => Some(record.version),
            None => None,
        }
    }

    /// The descriptor of the object's interface, if the object is alive.
    pub fn interface_of(&self, ptr: ResourcePtr) -> (interface: Option<Arc<Interface>>)
        ensures
            match interface {
                Some(descriptor) => self@.alive(ptr) && descriptor@ == self@.object(ptr).interface,
                None => !self@.alive(ptr),
            },
    {
        if ptr.0 >= self.objects.len() {
            return None;
        }
        match &self.objects[ptr.0] {
            Some(record) => Some(record.interface.clone()),
            None => None,
        }
    }

    /// The user data of the object; 0 when none is set or the object is not
    /// alive.
    pub fn user_data(&self, ptr: ResourcePtr) -> (data: usize)
        ensures
            data == if self@.alive(ptr) {
                self@.object(ptr).user_data
            } else {
                0
            },
    {
        if ptr.0 >= self.objects.len() {
            return 0;
        }
        match &self.objects[ptr.0] {
            Some(record) => record.user_data,
            None => 0,
        }
    }

    /// Sets the user data of the object, if it is alive, and says whether it
    /// did.
    pub fn set_user_data(&mut self, ptr: ResourcePtr, data: usize) -> (set: bool)
        requires
            old(self).wf(),
        ensures
            final(self).wf(),
            old(self)@.precedes(final(self)@),
            set == old(self)@.alive(ptr),
            final(self)@ == if set {
                old(self)@.with_user_data(ptr, data)
            } else {
                old(self)@
            },
    {
        if !self.is_alive(ptr) {
            return false;
        }
        match &mut self.objects[ptr.0] {
            Some(record) => {
                record.user_data = data;
            },
            None => {},
        }
        proof {
            let before = old(self)@;
            let after = final(self)@;
            assert(after.clients =~= before.clients);
            assert(after.objects =~= before.objects.update(
                ptr.0 as int,
                Some(ObjectView { user_data: data, ..before.object(ptr) }),
            ));
            Self::lemma_same_identities(before, after);
        }
        true
    }

    /// A table that keeps the connections open and every object's owner, id,
    /// interface and version is well-formed and can come after the first.
    proof fn lemma_same_identities(before: TableView, after: TableView)
        requires
            before.wf(),
            after.objects.len() == before.objects.len(),
            after.clients.len() == before.clients.len(),
            forall|client: ClientId| #[trigger]
                before.knows(client) ==> after.client(client).open == before.client(client).open
                    && (before.client(client).doomed ==> after.client(client).doomed),
            forall|ptr: ResourcePtr| #[trigger]
                after.alive(ptr) <==> before.alive(ptr),
            forall|ptr: ResourcePtr| #[trigger]
                after.alive(ptr) ==> after.object(ptr).client == before.object(ptr).client
                    && after.object(ptr).id == before.object(ptr).id && after.object(ptr).interface
                    == before.object(ptr).interface && after.object(ptr).version == before.object(
                    ptr,
                ).version,
        ensures
            after.wf(),
            before.precedes(after),
    {
        assert forall|ptr: ResourcePtr| #[trigger] after.alive(ptr) implies after.is_open(
            after.object(ptr).client,
        ) && after.object(ptr).version <= after.object(ptr).interface.version by {
            assert(before.alive(ptr));
            assert(before.knows(before.object(ptr).client));
        }
        assert forall|p: ResourcePtr, q: ResourcePtr|
            #![trigger after.alive(p), after.alive(q)]
            after.alive(p) && after.alive(q) && after.object(p).client == after.object(q).client
                && after.object(p).id == after.object(q).id implies p == q by {
            assert(before.alive(p) && before.alive(q));
        }
    }
}

/// What a connection has ready for dispatch.
#[derive(Debug)]
pub enum Pending {
    /// Nothing is taken from this connection: it is unknown, torn down or
    /// doomed.
    Idle,
    /// Its next message has not arrived in full.
    Incomplete,
    /// Its next bytes are no message.
    Malformed,
    /// Its next message, addressed to the object it names `object`.
    Message { object: u32, opcode: u32, block: Vec<u8> },
}

/// Mathematical value of a [`Pending`].
pub enum PendingView {
    Idle,
    Incomplete,
    Malformed,
    Message { object: u32, opcode: u32, block: Seq<u8> },
}

impl View for Pending {
    type V = PendingView;

    open spec fn view(&self) -> PendingView {
        match *self {
            Pending::Idle => PendingView::Idle,
            Pending::Incomplete => PendingView::Incomplete,
            Pending::Malformed => PendingView::Malformed,
            Pending::Message { object, opcode, block } => PendingView::Message {
                object,
                opcode,
                block: block@,
            },
        }
    }
}

impl TableView {
    /// Dispatch takes messages from this connection: it is open and no
    /// protocol error was raised on it.
    pub open spec fn serviceable(self, client: ClientId) -> bool {
        self.is_open(client) && !self.client(client).doomed
    }

    /// What the connection has ready for dispatch.
    pub open spec fn pending(self, client: ClientId) -> PendingView {
        if !self.serviceable(client) {
            PendingView::Idle
        } else {
            let incoming = self.client(client).incoming;
            match frame_of(incoming) {
                Frame::Incomplete => PendingView::Incomplete,
                Frame::Malformed => PendingView::Malformed,
                Frame::Complete { object, opcode, size } => PendingView::Message {
                    object,
                    opcode,
                    block: incoming.subrange(8, size as int),
                },
            }
        }
    }

    /// Servicing the connection would do a unit of work: its buffer starts
    /// with a whole message, or with bytes that are none.
    pub open spec fn has_work(self, client: ClientId) -> bool {
        self.pending(client) is Message || self.pending(client) is Malformed
    }

    /// Some connection has work waiting in its buffer.
    pub open spec fn backlog(self) -> bool {
        exists|client: ClientId| self.has_work(client)
    }

    /// The table once the pending message of the connection, if it has one,
    /// is taken from its buffer.
    pub open spec fn without_pending(self, client: ClientId) -> TableView {
        if self.pending(client) is Message {
            let incoming = self.client(client).incoming;
            self.with_client(
                client,
                ClientView {
                    incoming: incoming.skip(frame_of(incoming)->size as int),
                    ..self.client(client)
                },
            )
        } else {
            self
        }
    }

    /// The table once `message` is buffered for the connection.
    pub open spec fn with_outgoing(self, client: ClientId, message: MessageView) -> TableView {
        self.with_client(
            client,
            ClientView {
                outgoing: self.client(client).outgoing.push(message),
                ..self.client(client)
            },
        )
    }

    /// The table after the connection has broken the protocol: the error,
    /// with the id the client used for the object at fault, is buffered for
    /// it, and the connection is torn down. The error leaves with the next
    /// flush. An unknown connection changes nothing.
    pub open spec fn violated(self, client: ClientId, object: u32, code: u32) -> TableView {
        if self.knows(client) {
            self.with_outgoing(
                client,
                MessageView::Error { object, code, text: Seq::empty() },
            ).torn_down(client)
        } else {
            self
        }
    }

    /// The table once a protocol error is raised on the live object `ptr`:
    /// the error is buffered for the owner of the object, and the owner is
    /// doomed.
    pub open spec fn with_error(self, ptr: ResourcePtr, code: u32, text: Seq<u8>) -> TableView {
        let owner = self.object(ptr).client;
        self.with_client(
            owner,
            ClientView {
                doomed: true,
                outgoing: self.client(owner).outgoing.push(
                    MessageView::Error { object: self.object(ptr).id, code, text },
                ),
                ..self.client(owner)
            },
        )
    }
}

impl ObjectTable {
    /// Takes the next message of the connection from its buffer, if a whole
    /// one is there. A message that has not arrived in full stays where it
    /// is, as do bytes that are no message.
    pub fn take_message(&mut self, client: ClientId) -> (pending: Pending)
        requires
            old(self).wf(),
        ensures
            final(self).wf(),
            old(self)@.precedes(final(self)@),
            pending@ == old(self)@.pending(client),
            final(self)@ == old(self)@.without_pending(client),
    {
        if !self.is_open(client) || self.clients[client.0].doomed {
            return Pending::Idle;
        }
        let frame = decode_header(&self.clients[client.0].incoming);
        match frame {
            Frame::Incomplete => Pending::Incomplete,
            Frame::Malformed => Pending::Malformed,
            Frame::Complete { object, opcode, size } => {
                let mut message = self.clients[client.0].incoming.split_off(size);
                std::mem::swap(&mut message, &mut self.clients[client.0].incoming);
                let block = message.split_off(8);
                proof {
                    let before = old(self)@;
                    let after = final(self)@;
                    let incoming = before.client(client).incoming;
                    assert(block@ =~= incoming.subrange(8, size as int));
                    assert(after.objects =~= before.objects);
                    assert(after.clients =~= before.clients.update(
                        client.0 as int,
                        ClientView { incoming: incoming.skip(size as int), ..before.client(client) },
                    ));
                    Self::lemma_same_identities(before, after);
                }
                Pending::Message { object, opcode, block }
            },
        }
    }

    /// Whether servicing the connection would do a unit of work: its buffer
    /// starts with a whole message, or with bytes that are none.
    pub fn has_work(&self, client: ClientId) -> (yes: bool)
        ensures
            yes == self@.has_work(client),
    {
        if !self.is_open(client) || self.clients[client.0].doomed {
            return false;
        }
        match decode_header(&self.clients[client.0].incoming) {
            Frame::Incomplete => false,
            _ => true,
        }
    }

    /// Whether servicing some connection would do a unit of work.
    pub fn any_work(&self) -> (yes: bool)
        ensures
            yes == self@.backlog(),
    {
        let mut i: usize = 0;
        while i < self.clients.len()
            invariant
                i <= self.clients.len(),
                forall|client: ClientId| client.0 < i ==> !self@.has_work(client),
            decreases self.clients.len() - i,
        {
            if self.has_work(ClientId(i)) {
                return true;
            }
            assert forall|client: ClientId| client.0 < i + 1 implies !self@.has_work(client) by {
                if client.0 == i {
                    assert(client == ClientId(i));
                }
            }
            i = i + 1;
        }
        assert(!self@.backlog()) by {
            if self@.backlog() {
                let client = choose|client: ClientId| self@.has_work(client);
                assert(self@.has_work(client));
                assert(self@.knows(client));
            }
        }
        false
    }

    /// Registers `implementation` for the object, if it is alive, in place of
    /// whatever was registered before, and says whether it did.
    pub fn install(&mut self, ptr: ResourcePtr, implementation: Implementation) -> (installed:
        bool)
        requires
            old(self).wf(),
        ensures
            final(self).wf(),
            old(self)@.precedes(final(self)@),
            installed == old(self)@.alive(ptr),
            final(self)@ == if installed {
                old(self)@.registered(ptr, implementation@)
            } else {
                old(self)@
            },
    {
        if !self.is_alive(ptr) {
            return false;
        }
        let ghost installed = implementation@;
        match &mut self.objects[ptr.0] {
            Some(record) => {
                record.implementation = Some(implementation);
            },
            None => {},
        }
        proof {
            let before = old(self)@;
            let after = final(self)@;
            assert(after.clients =~= before.clients);
            assert(after.objects =~= before.objects.update(
                ptr.0 as int,
                Some(ObjectView { implementation: Some(installed), ..before.object(ptr) }),
            ));
            Self::lemma_same_identities(before, after);
        }
        true
    }

    /// The implementation registered for the object, if it is alive and has
    /// one.
    pub fn registration(&self, ptr: ResourcePtr) -> (registered: Option<&Implementation>)
        ensures
            match registered {
                Some(implementation) => self@.alive(ptr) && self@.object(ptr).implementation
                    == Some(implementation@),
                None => !self@.alive(ptr) || self@.object(ptr).implementation is None,
            },
    {
        if ptr.0 >= self.objects.len() {
            return None;
        }
        match &self.objects[ptr.0] {
            Some(record) => match &record.implementation {
                Some(implementation) => Some(implementation),
                None => None,
            },
            None => None,
        }
    }

    /// Buffers an event of the object for its owner, if the object is alive,
    /// and says whether it did.
    pub fn send_event(&mut self, ptr: ResourcePtr, opcode: u32, payload: &[u8]) -> (sent: bool)
        requires
            old(self).wf(),
        ensures
            final(self).wf(),
            old(self)@.precedes(final(self)@),
            sent == old(self)@.alive(ptr),
            final(self)@ == if sent {
                old(self)@.with_outgoing(
                    old(self)@.object(ptr).client,
                    MessageView::Event { object: old(self)@.object(ptr).id, opcode, payload: payload@ },
                )
            } else {
                old(self)@
            },
    {
        if ptr.0 >= self.objects.len() {
            return false;
        }
        let (owner, object): (usize, u32) = match &self.objects[ptr.0] {
            Some(record) => (record.client, record.id),
            None => {
                return false;
            },
        };
        assert(self@.alive(ptr));
        assert(self@.is_open(self@.object(ptr).client));
        let message = Message::Event { object, opcode, payload: vstd::slice::slice_to_vec(payload) };
        let ghost pushed = message@;
        self.clients[owner].outgoing.push(message);
        proof {
            let before = old(self)@;
            let after = final(self)@;
            let client = ClientId(owner);
            assert(after.objects =~= before.objects);
            assert(after.client(client).outgoing =~= before.client(client).outgoing.push(pushed));
            assert(after.clients =~= before.with_outgoing(client, pushed).clients);
            Self::lemma_same_identities(before, after);
        }
        true
    }

    /// Raises a protocol error on the object, if it is alive, and says whether
    /// it did: the error is buffered for the owner of the object, and the
    /// owner is doomed. The text is cut at its first zero byte. The object
    /// itself stays alive.
    pub fn post_error(&mut self, ptr: ResourcePtr, code: u32, text: &[u8]) -> (posted: bool)
        requires
            old(self).wf(),
        ensures
            final(self).wf(),
            old(self)@.precedes(final(self)@),
            posted == old(self)@.alive(ptr),
            final(self)@ == if posted {
                old(self)@.with_error(ptr, code, until_nul(text@))
            } else {
                old(self)@
            },
    {
        if ptr.0 >= self.objects.len() {
            return false;
        }
        let (owner, object): (usize, u32) = match &self.objects[ptr.0] {
            Some(record) => (record.client, record.id),
            None => {
                return false;
            },
        };
        assert(self@.alive(ptr));
        assert(self@.is_open(self@.object(ptr).client));
        let message = Message::Error { object, code, text: truncate_at_nul(text) };
        let ghost pushed = message@;
        self.clients[owner].outgoing.push(message);
        self.clients[owner].doomed = true;
        proof {
            let before = old(self)@;
            let after = final(self)@;
            let client = ClientId(owner);
            assert(after.objects =~= before.objects);
            assert(after.client(client).outgoing =~= before.client(client).outgoing.push(pushed));
            assert(after.clients =~= before.with_error(ptr, code, until_nul(text@)).clients);
            Self::lemma_same_identities(before, after);
        }
        true
    }

    /// Takes the messages buffered for the connection, oldest first, leaving
    /// none. An unknown connection has none.
    pub fn take_outgoing(&mut self, client: ClientId) -> (messages: Vec<Message>)
        requires
            old(self).wf(),
        ensures
            final(self).wf(),
            old(self)@.precedes(final(self)@),
            messages@.len() == if old(self)@.knows(client) {
                old(self)@.client(client).outgoing.len()
            } else {
                0
            },
            forall|i: int|
                0 <= i < messages@.len() ==> (#[trigger] messages@[i])@ == old(self)@.client(
                    client,
                ).outgoing[i],
            final(self)@ == if old(self)@.knows(client) {
                old(self)@.with_client(
                    client,
                    ClientView { outgoing: Seq::empty(), ..old(self)@.client(client) },
                )
            } else {
                old(self)@
            },
    {
        let mut messages: Vec<Message> = Vec::new();
        if client.0 >= self.clients.len() {
            return messages;
        }
        std::mem::swap(&mut messages, &mut self.clients[client.0].outgoing);
        proof {
            let before = old(self)@;
            let after = final(self)@;
            assert(after.objects =~= before.objects);
            assert(after.client(client).outgoing =~= Seq::empty());
            assert(after.clients =~= before.clients.update(
                client.0 as int,
                ClientView { outgoing: Seq::empty(), ..before.client(client) },
            ));
            Self::lemma_same_identities(before, after);
        }
        messages
    }

    /// The number of connections ever accepted.
    pub fn client_count(&self) -> (count: usize)
        ensures
            count == self@.clients.len(),
    {
        self.clients.len()
    }

    /// The number of slots ever issued.
    pub fn object_count(&self) -> (count: usize)
        ensures
            count == self@.objects.len(),
    {
        self.objects.len()
    }
}

/// A table can come after itself.
pub proof fn lemma_precedes_reflexive(table: TableView)
    ensures
        table.precedes(table),
{
}

/// What can come after what can come after a table can come after it.
pub proof fn lemma_precedes_transitive(first: TableView, second: TableView, third: TableView)
    requires
        first.precedes(second),
        second.precedes(third),
    ensures
        first.precedes(third),
{
    assert forall|client: ClientId| #[trigger] first.knows(client) implies (third.client(
        client,
    ).open ==> first.client(client).open) && (first.client(client).doomed ==> third.client(
        client,
    ).doomed) by {
        assert(second.knows(client));
    }
    assert forall|ptr: ResourcePtr| #[trigger] first.issued(ptr) && third.alive(ptr) implies first.alive(
        ptr,
    ) by {
        assert(second.issued(ptr));
    }
    assert forall|ptr: ResourcePtr| #[trigger]
        third.alive(ptr) && first.alive(ptr) implies third.object(ptr).client == first.object(
        ptr,
    ).client && third.object(ptr).id == first.object(ptr).id && third.object(ptr).interface
        == first.object(ptr).interface && third.object(ptr).version == first.object(
        ptr,
    ).version by {
        assert(first.issued(ptr) && second.issued(ptr));
        assert(second.alive(ptr));
    }
}

/// Registering twice for one object leaves what registering the second
/// implementation alone leaves: nothing of the first is kept.
pub proof fn lemma_registration_replaces(
    table: TableView,
    ptr: ResourcePtr,
    first: ImplementationView,
    second: ImplementationView,
)
    requires
        table.alive(ptr),
    ensures
        table.registered(ptr, first).registered(ptr, second) == table.registered(ptr, second),
        table.registered(ptr, second).alive(ptr),
        table.registered(ptr, second).object(ptr).implementation == Some(second),
{
    assert(table.registered(ptr, first).registered(ptr, second).objects =~= table.registered(
        ptr,
        second,
    ).objects);
}

/// Messages leave the buffer in the order they arrived. Where the buffer of
/// a connection that is serviced starts with a framed message, that message
/// is the one pending, and taking it leaves what follows it, untouched, at
/// the head of the buffer.
pub proof fn lemma_messages_leave_in_order(
    table: TableView,
    client: ClientId,
    object: u32,
    opcode: u32,
    block: Seq<u8>,
    rest: Seq<u8>,
)
    requires
        table.serviceable(client),
        frameable(opcode, block),
        table.client(client).incoming == framed(object, opcode, block) + rest,
    ensures
        table.pending(client) == (PendingView::Message { object, opcode, block }),
        table.without_pending(client).client(client).incoming == rest,
        table.without_pending(client).objects == table.objects,
{
    lemma_framed_decodes(object, opcode, block, rest);
}

} // verus!
