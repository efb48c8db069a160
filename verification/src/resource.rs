//! Handles to protocol objects.
//!
//! A handle wraps the raw identity of one object. Several handles may refer
//! to the same object: they share its liveness and its user data, because
//! both live in the [`ObjectTable`] and not in the handle. A handle to an
//! object that the table did not create is unmanaged, and stays so.

use vstd::prelude::*;
use vstd::utf8::encode_utf8;
use std::sync::Arc;
use crate::interface::{Interface, InterfaceView};
use crate::liveness::{EventResult, Liveness};
use crate::table::{ClientId, MessageView, ObjectTable, ResourcePtr, TableView};
use crate::wire::{truncate_at_nul, until_nul};

verus! {

/// The liveness that a handle shows against a table.
pub open spec fn liveness_of(table: TableView, handle: Handle) -> Liveness {
    if !handle.managed {
        Liveness::Unmanaged
    } else if table.alive(handle.ptr) {
        Liveness::Alive
    } else {
        Liveness::Dead
    }
}

/// The handle can have been made against this table: a managed handle wraps
/// a slot that the table has issued.
pub open spec fn valid_in(table: TableView, handle: Handle) -> bool {
    handle.managed ==> table.issued(handle.ptr)
}

/// A handle to one protocol object, of whatever interface.
#[derive(Debug)]
pub struct Handle {
    /// The raw identity of the object.
    pub ptr: ResourcePtr,
    /// Whether the object was created by the table the handle was made
    /// against. An unmanaged handle stays unmanaged.
    pub managed: bool,
}

/// How a send that went through is delivered.
#[derive(Copy, Clone, PartialEq, Eq, Structural, Debug)]
pub enum Delivery {
    /// The table has buffered the message for the owner of the object.
    Buffered,
    /// The object is unmanaged: the table routes nothing to it, and the
    /// message is to be delivered by whoever supplied the object.
    Raw,
}

/// What became of a protocol error that was posted.
#[derive(Debug)]
pub enum Posted {
    /// The error is buffered for the owner of the object, who is doomed.
    Buffered,
    /// The object is unmanaged: the error, with its text cut at the first
    /// zero byte, is to be delivered by whoever supplied the object.
    Raw { code: u32, text: Vec<u8> },
    /// The object is destroyed: there is nobody to tell.
    Dropped,
}

/// Mathematical value of a [`Posted`].
pub enum PostedView {
    Buffered,
    Raw { code: u32, text: Seq<u8> },
    Dropped,
}

impl View for Posted {
    type V = PostedView;

    open spec fn view(&self) -> PostedView {
        match *self {
            Posted::Buffered => PostedView::Buffered,
            Posted::Raw { code, text } => PostedView::Raw { code, text: text@ },
            Posted::Dropped => PostedView::Dropped,
        }
    }
}

/// What tells which object a handle is to.
pub trait AsHandle: Sized {
    /// The untyped handle that this handle wraps. A type that the verifier
    /// reads says here what `handle` returns; for any other type it stands
    /// for that value.
    open spec fn id(&self) -> Handle {
        arbitrary()
    }

    /// An untyped handle to the same object.
    fn handle(&self) -> (handle: Handle)
        ensures
            handle == self.id(),
    ;
}

/// What every handle to a protocol object can do.
///
/// A type of handle says how it wraps the raw identity of its object; all
/// the rest follows from that and from the table.
pub trait Resource: AsHandle {
    /// Wraps an untyped handle.
    fn from_handle(handle: Handle) -> (wrapped: Self)
        ensures
            wrapped.id() == handle,
    ;

    /// The interface that every handle of this type is of, or `None` for a
    /// type whose handles can be of any interface. A type that the verifier
    /// reads says here what `interface_ptr` returns.
    open spec fn descriptor() -> Option<InterfaceView> {
        arbitrary()
    }

    /// The descriptor of the interface of this type of handle.
    fn interface_ptr() -> (interface: Option<Arc<Interface>>)
        ensures
            match interface {
                Some(found) => Self::descriptor() == Some(found@),
                None => Self::descriptor() is None,
            },
    ;

    /// The name of the interface of this type of handle.
    fn interface_name() -> (name: Option<String>)
        ensures
            match name {
                Some(found) => Self::descriptor() matches Some(interface) && found@
                    == interface.name,
                None => Self::descriptor() is None,
            },
    {
        match Self::interface_ptr() {
            Some(interface) => Some(interface.name.clone()),
            None => None,
        }
    }

    /// The highest version of its interface that this type of handle
    /// supports.
    fn supported_version() -> (version: Option<u32>)
        ensures
            match version {
                Some(found) => Self::descriptor() matches Some(interface) && found
                    == interface.version,
                None => Self::descriptor() is None,
            },
    {
        match Self::interface_ptr() {
            Some(interface) => Some(interface.version),
            None => None,
        }
    }

    /// The raw identity of the object behind this handle.
    fn ptr(&self) -> (ptr: ResourcePtr)
        ensures
            ptr == self.id().ptr,
    {
        self.handle().ptr
    }

    /// Makes the first handle to an object that the table has just created.
    fn from_ptr_new(ptr: ResourcePtr, table: &ObjectTable) -> (handle: Self)
        requires
            table@.alive(ptr),
        ensures
            handle.id() == (Handle { ptr, managed: true }),
    {
        Self::from_handle(Handle { ptr, managed: true })
    }

    /// Makes a handle from a raw identity of unknown origin: it is managed
    /// if the table has issued that slot, and unmanaged otherwise.
    fn from_ptr_initialized(ptr: ResourcePtr, table: &ObjectTable) -> (handle: Self)
        ensures
            handle.id() == (Handle { ptr, managed: table@.issued(ptr) }),
    {
        Self::from_handle(Handle { ptr, managed: table.is_issued(ptr) })
    }

    /// Makes another handle to the same object, whatever its liveness. With
    /// an unmanaged object nothing tells when the new handle outlives it.
    fn clone_unchecked(&self) -> (handle: Self)
        ensures
            handle.id() == self.id(),
    {
        Self::from_handle(self.handle())
    }

    /// Whether the object behind this handle is still alive.
    fn status(&self, table: &ObjectTable) -> (status: Liveness)
        ensures
            status == liveness_of(table@, self.id()),
    {
        if !self.handle().managed {
            Liveness::Unmanaged
        } else if table.is_alive(self.ptr()) {
            Liveness::Alive
        } else {
            Liveness::Dead
        }
    }

    /// The version of its interface that the object was instantiated with,
    /// known while the object is alive.
    fn version(&self, table: &ObjectTable) -> (version: Option<u32>)
        ensures
            version == if liveness_of(table@, self.id()) == Liveness::Alive {
                Some(table@.object(self.id().ptr).version)
            } else {
                None
            },
    {
        if self.handle().managed {
            table.version_of(self.ptr())
        } else {
            None
        }
    }

    /// The descriptor of the object's interface, known while the object is
    /// alive.
    fn interface(&self, table: &ObjectTable) -> (interface: Option<Arc<Interface>>)
        ensures
            match interface {
                Some(descriptor) => liveness_of(table@, self.id())
                    == Liveness::Alive && descriptor@ == table@.object(self.id().ptr).interface,
                None => liveness_of(table@, self.id()) != Liveness::Alive,
            },
    {
        if self.handle().managed {
            table.interface_of(self.ptr())
        } else {
            None
        }
    }

    /// Whether two handles refer to the same object. The answer is `false`
    /// as soon as the object is destroyed.
    fn equals(&self, other: &Self, table: &ObjectTable) -> (equal: bool)
        ensures
            equal == (self.id() == other.id()
                && liveness_of(table@, self.id()) != Liveness::Dead),
    {
        let mine: Handle = self.handle();
        let theirs: Handle = other.handle();
        let same: bool = mine.ptr.0 == theirs.ptr.0 && mine.managed == theirs.managed;
        same && !(self.handle().managed && !table.is_alive(self.ptr()))
    }

    /// Sets the user data of the object, and says whether it did. All handles
    /// to the object share the data. Nothing is set unless the object is
    /// alive: a destroyed object has none, and that of an unmanaged object
    /// is not kept by the table.
    fn set_user_data(&self, table: &mut ObjectTable, data: usize) -> (set: bool)
        requires
            old(table).wf(),
        ensures
            final(table).wf(),
            old(table)@.precedes(final(table)@),
            set == (liveness_of(old(table)@, self.id()) == Liveness::Alive),
            final(table)@ == if set {
                old(table)@.with_user_data(self.id().ptr, data)
            } else {
                old(table)@
            },
    {
        if self.handle().managed {
            table.set_user_data(self.ptr(), data)
        } else {
            false
        }
    }

    /// The user data of the object, 0 when none was set; `None` when the
    /// object is not alive, so that the table has no user data of it.
    fn get_user_data(&self, table: &ObjectTable) -> (data: Option<usize>)
        ensures
            data == if liveness_of(table@, self.id()) == Liveness::Alive {
                Some(table@.object(self.id().ptr).user_data)
            } else {
                None
            },
    {
        if self.handle().managed && table.is_alive(self.ptr()) {
            Some(table.user_data(self.ptr()))
        } else {
            None
        }
    }

    /// Posts a protocol error on the object, whatever its liveness, and says
    /// what became of it.
    ///
    /// The message goes out as zero-terminated text, so it ends before its
    /// first zero byte. On a live object the error is buffered for the client
    /// that owns the object, and that client is doomed. On an unmanaged
    /// object the table has no client to buffer for: the error is handed
    /// back for whoever supplied the object to deliver. On a destroyed
    /// object nobody is left to tell. The object itself stays as alive as it
    /// was.
    fn post_error(&self, table: &mut ObjectTable, error_code: u32, msg: String) -> (posted: Posted)
        requires
            old(table).wf(),
        ensures
            final(table).wf(),
            old(table)@.precedes(final(table)@),
            liveness_of(final(table)@, self.id()) == liveness_of(old(table)@, self.id()),
            posted@ == match liveness_of(old(table)@, self.id()) {
                Liveness::Alive => PostedView::Buffered,
                Liveness::Unmanaged => PostedView::Raw {
                    code: error_code,
                    text: until_nul(encode_utf8(msg@)),
                },
                Liveness::Dead => PostedView::Dropped,
            },
            final(table)@ == if liveness_of(old(table)@, self.id()) == Liveness::Alive {
                old(table)@.with_error(self.id().ptr, error_code, until_nul(encode_utf8(msg@)))
            } else {
                old(table)@
            },
    {
        if !self.handle().managed {
            Posted::Raw { code: error_code, text: truncate_at_nul(msg.as_str().as_bytes()) }
        } else if table.post_error(self.ptr(), error_code, msg.as_str().as_bytes()) {
            Posted::Buffered
        } else {
            Posted::Dropped
        }
    }

    /// Sends an event of the object to its client, and says how it is
    /// delivered.
    ///
    /// On a live object the event is buffered for the owner until the next
    /// flush. On a destroyed object nothing is sent. An unmanaged object is
    /// not routed by the table: the send is let through, and delivering it is
    /// up to whoever supplied the object.
    fn send_event(&self, table: &mut ObjectTable, opcode: u32, payload: &[u8]) -> (result:
        EventResult<Delivery>)
        requires
            old(table).wf(),
        ensures
            final(table).wf(),
            old(table)@.precedes(final(table)@),
            result == match liveness_of(old(table)@, self.id()) {
                Liveness::Alive => EventResult::Sent(Delivery::Buffered),
                Liveness::Unmanaged => EventResult::Sent(Delivery::Raw),
                Liveness::Dead => EventResult::Destroyed,
            },
            final(table)@ == if liveness_of(old(table)@, self.id()) == Liveness::Alive {
                old(table)@.with_outgoing(
                    old(table)@.object(self.id().ptr).client,
                    MessageView::Event {
                        object: old(table)@.object(self.id().ptr).id,
                        opcode,
                        payload: payload@,
                    },
                )
            } else {
                old(table)@
            },
    {
        if !self.handle().managed {
            EventResult::Sent(Delivery::Raw)
        } else if table.send_event(self.ptr(), opcode, payload) {
            EventResult::Sent(Delivery::Buffered)
        } else {
            EventResult::Destroyed
        }
    }

    /// Clones this handle: succeeds exactly when the object is managed and
    /// still alive.
    fn clone(&self, table: &ObjectTable) -> (copy: Option<Self>)
        ensures
            copy is Some <==> liveness_of(table@, self.id()) == Liveness::Alive,
            copy matches Some(handle) ==> handle.id() == self.id(),
    {
        if self.status(table) == Liveness::Alive {
            Some(self.clone_unchecked())
        } else {
            None
        }
    }

    /// Whether this object and the other belong to the same client: `true`
    /// when both are alive and have the same owner, `false` otherwise.
    fn same_client_as<R: AsHandle>(&self, other: &R, table: &ObjectTable) -> (same: bool)
        ensures
            same == (liveness_of(table@, self.id()) == Liveness::Alive && liveness_of(
                table@,
                other.id(),
            ) == Liveness::Alive && table@.object(self.id().ptr).client == table@.object(
                other.id().ptr,
            ).client),
    {
        let theirs: Handle = other.handle();
        if !(self.status(table) == Liveness::Alive && theirs.managed && table.is_alive(theirs.ptr)) {
            false
        } else {
            let my_client: Option<ClientId> = table.owner(self.ptr());
            let other_client: Option<ClientId> = table.owner(theirs.ptr);
            match (my_client, other_client) {
                (Some(mine), Some(theirs)) => mine.0 == theirs.0,
                _ => false,
            }
        }
    }
}

impl AsHandle for Handle {
    open spec fn id(&self) -> Handle {
        *self
    }

    fn handle(&self) -> (handle: Handle) {
        Handle { ptr: self.ptr, managed: self.managed }
    }
}

impl Resource for Handle {
    open spec fn descriptor() -> Option<InterfaceView> {
        None
    }

    fn interface_ptr() -> (interface: Option<Arc<Interface>>) {
        None
    }

    fn from_handle(handle: Handle) -> (wrapped: Handle) {
        handle
    }
}

/// Liveness moves one way. Through whatever comes after a table, a handle
/// that showed its object dead shows it dead, a handle that was unmanaged is
/// unmanaged and no other is; so a live object can only stay alive or die.
pub proof fn lemma_liveness_moves_one_way(before: TableView, after: TableView, handle: Handle)
    requires
        before.precedes(after),
        valid_in(before, handle),
    ensures
        valid_in(after, handle),
        liveness_of(before, handle) == Liveness::Dead ==> liveness_of(after, handle)
            == Liveness::Dead,
        liveness_of(before, handle) == Liveness::Unmanaged <==> liveness_of(after, handle)
            == Liveness::Unmanaged,
{
    if handle.managed {
        assert(before.issued(handle.ptr));
    }
}

/// All handles to one live object share its user data: what is set through
/// one of them is what any of them reads, and the object is as alive as it
/// was.
pub proof fn lemma_user_data_is_shared(table: TableView, writer: Handle, reader: Handle, data: usize)
    requires
        liveness_of(table, writer) == Liveness::Alive,
        reader.ptr == writer.ptr,
        reader.managed,
    ensures
        liveness_of(table.with_user_data(writer.ptr, data), reader) == Liveness::Alive,
        table.with_user_data(writer.ptr, data).object(reader.ptr).user_data == data,
{
}

} // verus!
