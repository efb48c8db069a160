//! Dispatch of one message: from the bytes a client sent to the callback
//! that handles them.
//!
//! Servicing a connection takes the next whole message from its buffer,
//! finds the object it addresses among the objects of that connection,
//! matches the opcode against the implementation registered for the object,
//! and decodes the arguments against the signature of the request. Whatever
//! fails on the way is a protocol error and ends the connection, before any
//! callback runs. A request that is a destructor destroys its object once
//! the callback has returned.

use vstd::prelude::*;
use crate::liveness::Liveness;
use crate::resource::{liveness_of, Handle};
use crate::table::{
    lemma_precedes_transitive, ClientId, ImplementationView, ObjectTable, Pending, PendingView,
    ResourcePtr, TableView,
};
use crate::wire::{
    decode_arguments, parse_arguments, Argument, DISPLAY_ID, IMPLEMENTATION, INVALID_METHOD,
    INVALID_OBJECT,
};

verus! {

/// Why a connection was ended.
#[derive(Copy, Clone, PartialEq, Eq, Structural, Debug)]
pub enum ProtocolError {
    /// The bytes sent are no message.
    MalformedHeader,
    /// The message addresses an id that names no object of the connection.
    UnknownObject,
    /// No implementation is registered for the object addressed.
    NoImplementation,
    /// The object has no request with this opcode at its version, or its
    /// implementation has no callback for it.
    BadOpcode,
    /// The argument block does not match the signature of the request.
    BadArguments,
    /// The callback rejected the request.
    Rejected,
}

impl ProtocolError {
    /// The code under which the client is told of the error.
    pub open spec fn wire_code(self) -> u32 {
        match self {
            ProtocolError::UnknownObject => INVALID_OBJECT,
            ProtocolError::MalformedHeader => INVALID_METHOD,
            ProtocolError::BadOpcode => INVALID_METHOD,
            ProtocolError::BadArguments => INVALID_METHOD,
            ProtocolError::NoImplementation => IMPLEMENTATION,
            ProtocolError::Rejected => IMPLEMENTATION,
        }
    }

    /// The code under which the client is told of the error.
    pub fn code(&self) -> (code: u32)
        ensures
            code == self.wire_code(),
    {
        match self {
            ProtocolError::UnknownObject => INVALID_OBJECT,
            ProtocolError::MalformedHeader => INVALID_METHOD,
            ProtocolError::BadOpcode => INVALID_METHOD,
            ProtocolError::BadArguments => INVALID_METHOD,
            ProtocolError::NoImplementation => IMPLEMENTATION,
            ProtocolError::Rejected => IMPLEMENTATION,
        }
    }
}

/// A request resolved to its callback: what the callback is invoked with.
#[derive(Debug)]
pub struct Request {
    /// The callback registered for the opcode.
    pub callback: u64,
    /// The data registered with the implementation.
    pub data: u64,
    /// The connection that sent the request.
    pub client: ClientId,
    /// The object addressed.
    pub resource: Handle,
    /// The id by which the client names the object addressed.
    pub object: u32,
    pub opcode: u32,
    /// The decoded arguments; strings and arrays lie in `block`.
    pub args: Vec<Argument>,
    /// The argument block as it was sent.
    pub block: Vec<u8>,
    /// Whether the request destroys the object.
    pub destructor: bool,
}

/// Mathematical value of a [`Request`].
pub struct RequestView {
    pub callback: u64,
    pub data: u64,
    pub client: ClientId,
    pub resource: Handle,
    pub object: u32,
    pub opcode: u32,
    pub args: Seq<Argument>,
    pub block: Seq<u8>,
    pub destructor: bool,
}

impl View for Request {
    type V = RequestView;

    open spec fn view(&self) -> RequestView {
        RequestView {
            callback: self.callback,
            data: self.data,
            client: self.client,
            resource: self.resource,
            object: self.object,
            opcode: self.opcode,
            args: self.args@,
            block: self.block@,
            destructor: self.destructor,
        }
    }
}

/// What servicing a connection comes to, before any callback runs.
#[derive(Debug)]
pub enum Step {
    /// Nothing is taken from the connection: it is unknown, torn down or
    /// doomed.
    Idle,
    /// The next message has not arrived in full: the connection waits.
    Suspended,
    /// The next message was taken: this callback is to be invoked.
    Invoke(Request),
    /// The connection broke the protocol and was torn down.
    Violation(ProtocolError),
}

/// Mathematical value of a [`Step`].
pub enum StepView {
    Idle,
    Suspended,
    Invoke(RequestView),
    Violation(ProtocolError),
}

impl View for Step {
    type V = StepView;

    open spec fn view(&self) -> StepView {
        match *self {
            Step::Idle => StepView::Idle,
            Step::Suspended => StepView::Suspended,
            Step::Invoke(request) => StepView::Invoke(request@),
            Step::Violation(error) => StepView::Violation(error),
        }
    }
}

impl TableView {
    /// Where a message of `client` for the object it names `object` goes.
    pub open spec fn route(
        self,
        client: ClientId,
        object: u32,
        opcode: u32,
        block: Seq<u8>,
    ) -> StepView {
        if !self.in_use(client, object) {
            StepView::Violation(ProtocolError::UnknownObject)
        } else {
            let ptr = self.resolve(client, object);
            let target = self.object(ptr);
            match target.implementation {
                None => StepView::Violation(ProtocolError::NoImplementation),
                Some(implementation) => {
                    if !target.interface.accepts(opcode, target.version) || opcode
                        >= implementation.callbacks.len() {
                        StepView::Violation(ProtocolError::BadOpcode)
                    } else {
                        let request = target.interface.requests[opcode as int];
                        match parse_arguments(block, request.signature) {
                            None => StepView::Violation(ProtocolError::BadArguments),
                            Some(args) => StepView::Invoke(
                                RequestView {
                                    callback: implementation.callbacks[opcode as int],
                                    data: implementation.data,
                                    client,
                                    resource: Handle { ptr, managed: true },
                                    object,
                                    opcode,
                                    args,
                                    block,
                                    destructor: request.destructor,
                                },
                            ),
                        }
                    }
                },
            }
        }
    }

    /// What servicing the connection comes to.
    pub open spec fn step(self, client: ClientId) -> StepView {
        match self.pending(client) {
            PendingView::Idle => StepView::Idle,
            PendingView::Incomplete => StepView::Suspended,
            PendingView::Malformed => StepView::Violation(ProtocolError::MalformedHeader),
            PendingView::Message { object, opcode, block } => self.route(
                client,
                object,
                opcode,
                block,
            ),
        }
    }

    /// The id under which the client is told of a protocol error in its
    /// next message: that of the object the message addresses, or that of the
    /// display where the bytes are no message.
    pub open spec fn fault(self, client: ClientId) -> u32 {
        match self.pending(client) {
            PendingView::Message { object, .. } => object,
            _ => DISPLAY_ID,
        }
    }

    /// The table after the connection is serviced, when the callback, if
    /// any, is about to run: a message that goes to a callback has left the
    /// buffer, and a connection that broke the protocol is told so and torn
    /// down.
    pub open spec fn stepped(self, client: ClientId) -> TableView {
        match self.step(client) {
            StepView::Idle => self,
            StepView::Suspended => self,
            StepView::Invoke(_) => self.without_pending(client),
            StepView::Violation(error) => self.violated(
                client,
                self.fault(client),
                error.wire_code(),
            ),
        }
    }

    /// The table once the callback of a request has returned: a rejected
    /// request ends the connection that sent it, which is told so, and a
    /// destructor that went through destroys its object, if the callback has
    /// left it alive.
    pub open spec fn completed(self, request: RequestView, accepted: bool) -> TableView {
        if !accepted {
            self.violated(request.client, request.object, ProtocolError::Rejected.wire_code())
        } else if request.destructor && self.alive(request.resource.ptr) {
            self.with_object(request.resource.ptr, None)
        } else {
            self
        }
    }
}

impl ObjectTable {
    /// Ends a connection that broke the protocol.
    fn violation(&mut self, client: ClientId, object: u32, error: ProtocolError) -> (step: Step)
        requires
            old(self).wf(),
        ensures
            final(self).wf(),
            old(self)@.precedes(final(self)@),
            final(self)@ == old(self)@.violated(client, object, error.wire_code()),
            step@ == StepView::Violation(error),
    {
        self.violate(client, object, error.code());
        Step::Violation(error)
    }

    /// Services a connection up to the point where a callback is to run.
    ///
    /// Takes the next whole message of the connection, if there is one, and
    /// resolves it to the callback registered for it. A message that has not
    /// arrived in full is left alone. On a protocol error the connection is
    /// told of it and torn down, and no callback is named.
    pub fn next_request(&mut self, client: ClientId) -> (step: Step)
        requires
            old(self).wf(),
        ensures
            final(self).wf(),
            old(self)@.precedes(final(self)@),
            step@ == old(self)@.step(client),
            final(self)@ == old(self)@.stepped(client),
    {
        let pending = self.take_message(client);
        proof {
            let before = old(self)@;
            if before.knows(client) {
                assert forall|object: u32, code: u32|
                    #![trigger before.violated(client, object, code)]
                    before.without_pending(client).violated(client, object, code)
                        == before.violated(client, object, code) by {
                    assert(before.without_pending(client).violated(client, object, code).clients
                        =~= before.violated(client, object, code).clients);
                    assert(before.without_pending(client).violated(client, object, code).objects
                        =~= before.violated(client, object, code).objects);
                }
            }
        }
        let ghost taken = self@;
        let step = match pending {
            Pending::Idle => Step::Idle,
            Pending::Incomplete => Step::Suspended,
            Pending::Malformed => self.violation(
                client,
                DISPLAY_ID,
                ProtocolError::MalformedHeader,
            ),
            Pending::Message { object, opcode, block } => {
                match self.lookup(client, object) {
                    None => self.violation(client, object, ProtocolError::UnknownObject),
                    Some(ptr) => {
                        let registered: Option<(u64, u64, bool)> = match self.registration(ptr) {
                            Some(implementation) => {
                                if (opcode as usize) < implementation.callbacks.len() {
                                    Some(
                                        (
                                            implementation.callbacks[opcode as usize],
                                            implementation.data,
                                            true,
                                        ),
                                    )
                                } else {
                                    Some((0, 0, false))
                                }
                            },
                            None => None,
                        };
                        let version: u32 = match self.version_of(ptr) {
                            Some(version) => version,
                            None => 0,
                        };
                        match (registered, self.interface_of(ptr)) {
                            (None, _) => self.violation(
                                client,
                                object,
                                ProtocolError::NoImplementation,
                            ),
                            (Some((callback, data, reachable)), Some(interface)) => {
                                if !reachable || !interface.accepts(opcode, version) {
                                    self.violation(client, object, ProtocolError::BadOpcode)
                                } else {
                                    let destructor: bool = interface.is_destructor(opcode);
                                    match decode_arguments(&block, interface.signature(opcode)) {
                                        None => self.violation(
                                            client,
                                            object,
                                            ProtocolError::BadArguments,
                                        ),
                                        Some(args) => Step::Invoke(
                                            Request {
                                                callback,
                                                data,
                                                client,
                                                resource: Handle { ptr, managed: true },
                                                object,
                                                opcode,
                                                args,
                                                block,
                                                destructor,
                                            },
                                        ),
                                    }
                                }
                            },
                            (Some(_), None) => self.violation(
                                client,
                                object,
                                ProtocolError::UnknownObject,
                            ),
                        }
                    },
                }
            },
        };
        proof {
            lemma_precedes_transitive(old(self)@, taken, self@);
        }
        step
    }

    /// Finishes a request after its callback has returned: see
    /// [`TableView::completed`]. Says what ended the connection, if this did.
    pub fn complete_request(&mut self, request: &Request, accepted: bool) -> (error: Option<
        ProtocolError,
    >)
        requires
            old(self).wf(),
        ensures
            final(self).wf(),
            old(self)@.precedes(final(self)@),
            final(self)@ == old(self)@.completed(request@, accepted),
            error == if accepted {
                None
            } else {
                Some(ProtocolError::Rejected)
            },
            accepted && request.destructor ==> !final(self)@.alive(request.resource.ptr),
    {
        if !accepted {
            self.violate(request.client, request.object, ProtocolError::Rejected.code());
            Some(ProtocolError::Rejected)
        } else {
            if request.destructor {
                self.destroy_object(request.resource.ptr);
            }
            None
        }
    }
}

/// A destructor that went through leaves its object dead for good: every
/// managed handle to the object shows it dead once the request is completed,
/// and in every table that comes after.
pub proof fn lemma_destructor_is_final(
    table: TableView,
    request: RequestView,
    later: TableView,
    handle: Handle,
)
    requires
        request.destructor,
        table.issued(request.resource.ptr),
        handle.ptr == request.resource.ptr,
        handle.managed,
        table.completed(request, true).precedes(later),
    ensures
        liveness_of(table.completed(request, true), handle) == Liveness::Dead,
        liveness_of(later, handle) == Liveness::Dead,
{
    let done = table.completed(request, true);
    assert(done.issued(handle.ptr));
    assert(!done.alive(handle.ptr));
}

/// Dispatch goes by the registration that is current. Once a second
/// implementation is registered for an object, a message for that object
/// that resolves to a callback resolves to the callback and the data of the
/// second, whatever the first held.
pub proof fn lemma_dispatch_uses_current_registration(
    table: TableView,
    client: ClientId,
    object: u32,
    ptr: ResourcePtr,
    first: ImplementationView,
    second: ImplementationView,
    opcode: u32,
    block: Seq<u8>,
)
    requires
        table.wf(),
        table.names(client, object, ptr),
    ensures
        ({
            let current = table.registered(ptr, first).registered(ptr, second);
            current.route(client, object, opcode, block) matches StepView::Invoke(request)
                ==> request.resource.ptr == ptr && request.callback == second.callbacks[opcode as int]
                && request.data == second.data
        }),
{
    let current = table.registered(ptr, first).registered(ptr, second);
    assert(current.names(client, object, ptr));
    let found = current.resolve(client, object);
    assert(current.names(client, object, found));
    assert(table.alive(found) && table.alive(ptr));
    assert(table.object(found).client == client && table.object(found).id == object);
    assert(found == ptr);
}

} // verus!
