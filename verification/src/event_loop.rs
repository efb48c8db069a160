//! The event loop: registration of implementations and globals, binds, and
//! the dispatch cycle.
//!
//! The loop does not wait and does not run callbacks itself. Whoever polls
//! hands it the sources that are ready; it services each of them once, in
//! the order given, and reaches the callbacks through [`Implementable`].
//! During a callback the loop is seen as an [`EventLoopHandle`], through
//! which the callback registers, sends and reaches the shared state.

use vstd::prelude::*;
use std::sync::Arc;
use crate::dispatch::{ProtocolError, Request, RequestView, Step, StepView};
use crate::global::{advertised, Global, GlobalError, GlobalRegistry, GlobalView};
use crate::interface::Interface;
use crate::liveness::Liveness;
use crate::resource::{liveness_of, Handle, Resource};
use crate::sources::{call_for, Ready, SourceCall, SourceRegistry};
use crate::state::StateStore;
use crate::wire::{DISPLAY_ID, INVALID_OBJECT};
use crate::table::{
    lemma_precedes_reflexive, lemma_precedes_transitive, ClientId, Implementation,
    ImplementationView, MessageView, ObjectTable, ObjectView, ResourcePtr, TableView,
};

verus! {

/// Outcome of registering an implementation for a resource.
#[derive(Copy, Clone, PartialEq, Eq, Structural, Debug)]
pub enum RegisterStatus {
    /// The implementation is registered.
    Registered,
    /// The resource is not managed by this loop: nothing is registered.
    Unmanaged,
    /// The resource is destroyed: nothing is registered.
    Dead,
}

/// Why a bind failed.
#[derive(Copy, Clone, PartialEq, Eq, Structural, Debug)]
pub enum BindError {
    /// The connection is unknown, torn down or doomed: nothing was done.
    Disconnected,
    /// The global is not advertised.
    NoSuchGlobal,
    /// The client asked for a version above the advertised one.
    VersionTooHigh,
    /// The client already has a live object with the id it gave.
    IdInUse,
}

/// The object that a bind created, with the callback to introduce it to.
#[derive(Debug)]
pub struct Bound {
    pub resource: Handle,
    /// The version the client asked for.
    pub version: u32,
    /// The callback of the global.
    pub callback: u64,
    /// The data of the global.
    pub data: u64,
}

/// What a bind comes to.
pub open spec fn bind_outcome(
    table: TableView,
    globals: Seq<Option<GlobalView>>,
    client: ClientId,
    global: Global,
    version: u32,
    id: u32,
) -> Result<Bound, BindError> {
    if !table.serviceable(client) {
        Err(BindError::Disconnected)
    } else if !advertised(globals, global) {
        Err(BindError::NoSuchGlobal)
    } else if version > globals[global.0 as int]->Some_0.version {
        Err(BindError::VersionTooHigh)
    } else if table.in_use(client, id) {
        Err(BindError::IdInUse)
    } else {
        Ok(
            Bound {
                resource: Handle { ptr: ResourcePtr(table.objects.len() as usize), managed: true },
                version,
                callback: globals[global.0 as int]->Some_0.callback,
                data: globals[global.0 as int]->Some_0.data,
            },
        )
    }
}

/// The table after a bind: a bind that succeeds adds the new object, alive,
/// with no user data and no implementation; one that breaks the protocol
/// ends the connection, which is told of an invalid object on the display.
pub open spec fn bound_table(
    table: TableView,
    globals: Seq<Option<GlobalView>>,
    client: ClientId,
    global: Global,
    version: u32,
    id: u32,
) -> TableView {
    match bind_outcome(table, globals, client, global, version, id) {
        Ok(_) => TableView {
            objects: table.objects.push(
                Some(
                    ObjectView {
                        client,
                        id,
                        interface: globals[global.0 as int]->Some_0.interface,
                        version,
                        user_data: 0,
                        implementation: None,
                    },
                ),
            ),
            ..table
        },
        Err(BindError::Disconnected) => table,
        Err(_) => table.violated(client, DISPLAY_ID, INVALID_OBJECT),
    }
}

/// The registration and dispatch capability that callbacks are given.
pub struct EventLoopHandle<S> {
    /// The connections and their objects.
    pub objects: ObjectTable,
    /// The advertised globals.
    pub globals: GlobalRegistry,
    /// The state shared by the callbacks.
    pub state: StateStore<S>,
    /// The secondary event sources.
    pub sources: SourceRegistry,
}

impl<S> EventLoopHandle<S> {
    /// The invariant of the loop: that of its table and of its globals.
    pub open spec fn wf(&self) -> bool {
        self.objects.wf() && self.globals.wf()
    }

    /// `next` can come after `self`: what has ended in the table is not
    /// back, and every state token is still good.
    pub open spec fn precedes(&self, next: &EventLoopHandle<S>) -> bool {
        &&& self.objects@.precedes(next.objects@)
        &&& next.state.id() == self.state.id()
        &&& self.state@.len() <= next.state@.len()
    }

    /// Registers an implementation for the object behind `resource`, in
    /// place of whatever was registered for it before.
    ///
    /// Nothing is registered for a destroyed object, nor for an unmanaged
    /// one, which has no place in the table; the status says so.
    pub fn register<R: Resource>(
        &mut self,
        resource: &R,
        callbacks: Vec<u64>,
        data: u64,
    ) -> (status: RegisterStatus)
        requires
            old(self).wf(),
        ensures
            final(self).wf(),
            old(self).precedes(final(self)),
            status == match liveness_of(old(self).objects@, resource.id()) {
                Liveness::Alive => RegisterStatus::Registered,
                Liveness::Dead => RegisterStatus::Dead,
                Liveness::Unmanaged => RegisterStatus::Unmanaged,
            },
            final(self).objects@ == if status == RegisterStatus::Registered {
                old(self).objects@.registered(
                    resource.id().ptr,
                    ImplementationView { callbacks: callbacks@, data },
                )
            } else {
                old(self).objects@
            },
            final(self).globals@ == old(self).globals@,
            final(self).state@ == old(self).state@,
            final(self).sources@ == old(self).sources@,
    {
        let handle: Handle = resource.handle();
        if !handle.managed {
            RegisterStatus::Unmanaged
        } else if self.objects.install(handle.ptr, Implementation { callbacks, data }) {
            RegisterStatus::Registered
        } else {
            RegisterStatus::Dead
        }
    }

    /// Whether `implementation` is what is registered for the object behind
    /// `resource`.
    pub fn is_registered<R: Resource>(
        &self,
        resource: &R,
        implementation: &Implementation,
    ) -> (yes: bool)
        ensures
            yes == (liveness_of(self.objects@, resource.id()) == Liveness::Alive
                && self.objects@.object(resource.id().ptr).implementation == Some(
                implementation@,
            )),
    {
        let handle: Handle = resource.handle();
        if !handle.managed {
            return false;
        }
        match self.objects.registration(handle.ptr) {
            Some(registered) => registered.same_as(implementation),
            None => false,
        }
    }

    /// Advertises a global. Fails, and changes nothing, when the version
    /// exceeds what the interface supports.
    pub fn register_global(
        &mut self,
        interface: Arc<Interface>,
        version: u32,
        callback: u64,
        data: u64,
    ) -> (global: Result<Global, GlobalError>)
        requires
            old(self).wf(),
        ensures
            final(self).wf(),
            old(self).precedes(final(self)),
            match global {
                Ok(handle) => version <= interface@.version && handle.0 == old(self).globals@.len()
                    && final(self).globals@ == old(self).globals@.push(
                    Some(GlobalView { interface: interface@, version, callback, data }),
                ),
                Err(GlobalError::VersionTooHigh) => version > interface@.version && final(
                    self).globals@ == old(self).globals@,
            },
            final(self).objects@ == old(self).objects@,
            final(self).state@ == old(self).state@,
            final(self).sources@ == old(self).sources@,
    {
        proof {
            lemma_precedes_reflexive(self.objects@);
        }
        self.globals.register(interface, version, callback, data)
    }

    /// Binds a global for a client: creates the object that the client
    /// will name `id`, at the version the client asks for.
    ///
    /// A version above the advertised one is a protocol error, as are a
    /// global that is not advertised and an id that is in use: the client is
    /// told of the error at the next flush, and the connection is torn down.
    /// Otherwise the new object is alive and is handed back with the callback
    /// of the global, which is to be told of it.
    pub fn bind(
        &mut self,
        client: ClientId,
        global: Global,
        version: u32,
        id: u32,
    ) -> (outcome: Result<Bound, BindError>)
        requires
            old(self).wf(),
        ensures
            final(self).wf(),
            old(self).precedes(final(self)),
            outcome == bind_outcome(
                old(self).objects@,
                old(self).globals@,
                client,
                global,
                version,
                id,
            ),
            final(self).objects@ == bound_table(
                old(self).objects@,
                old(self).globals@,
                client,
                global,
                version,
                id,
            ),
            final(self).globals@ == old(self).globals@,
            final(self).state@ == old(self).state@,
            final(self).sources@ == old(self).sources@,
    {
        proof {
            lemma_precedes_reflexive(self.objects@);
        }
        if !self.objects.is_open(client) || self.objects.is_doomed(client) {
            return Err(BindError::Disconnected);
        }
        let entry = match self.globals.get(global) {
            Some(entry) => entry,
            None => {
                self.objects.violate(client, DISPLAY_ID, INVALID_OBJECT);
                return Err(BindError::NoSuchGlobal);
            },
        };
        if version > entry.version {
            self.objects.violate(client, DISPLAY_ID, INVALID_OBJECT);
            return Err(BindError::VersionTooHigh);
        }
        assert(advertised(self.globals@, global));
        match self.objects.create_object(client, id, entry.interface, version) {
            Ok(ptr) => Ok(
                Bound {
                    resource: Handle { ptr, managed: true },
                    version,
                    callback: entry.callback,
                    data: entry.data,
                },
            ),
            Err(_) => {
                self.objects.violate(client, DISPLAY_ID, INVALID_OBJECT);
                Err(BindError::IdInUse)
            },
        }
    }
}

impl<S> EventLoopHandle<S> {
    /// `next` holds what `self` holds.
    pub open spec fn same_as(&self, next: &EventLoopHandle<S>) -> bool {
        &&& next.objects@ == self.objects@
        &&& next.globals@ == self.globals@
        &&& next.state@ == self.state@
        &&& next.state.id() == self.state.id()
        &&& next.sources@ == self.sources@
    }

    /// `next` holds what `self` holds, but for the table.
    pub open spec fn same_but_objects(&self, next: &EventLoopHandle<S>) -> bool {
        &&& next.globals@ == self.globals@
        &&& next.state@ == self.state@
        &&& next.state.id() == self.state.id()
        &&& next.sources@ == self.sources@
    }
}

/// The callbacks of an application, as the event loop reaches them.
///
/// The loop names a callback by the number it was registered under and hands
/// over what the callback is owed; invoking the code behind the number is up
/// to the implementor. A callback gets the loop as an [`EventLoopHandle`] and
/// may use its table, its globals, its state and its sources as their own
/// methods allow. What it may not do is bring back what has ended: it owes
/// the loop a table that can come after the one it was given, which rules
/// out putting another table, or another state store, in the place of the
/// one it got.
pub trait Implementable<S>: Sized {
    /// What invoking the callback of a request may come to: from `self` and
    /// the loop `before` to `next` and the loop `after`, the request accepted
    /// or not. An implementor that the verifier reads says here what its
    /// callbacks do; of any other, nothing is known.
    open spec fn invoked(
        &self,
        before: &EventLoopHandle<S>,
        request: RequestView,
        next: &Self,
        after: &EventLoopHandle<S>,
        accepted: bool,
    ) -> bool {
        true
    }

    /// What invoking the callback of a secondary source may come to.
    open spec fn source_invoked(
        &self,
        before: &EventLoopHandle<S>,
        call: SourceCall,
        next: &Self,
        after: &EventLoopHandle<S>,
    ) -> bool {
        true
    }

    /// Invokes the callback of a request. `Err` rejects the request, which
    /// ends the connection that sent it.
    ///
    /// The object addressed is alive when the callback starts, and belongs
    /// to the connection that sent the request.
    fn dispatch_msg(
        &mut self,
        evlh: &mut EventLoopHandle<S>,
        request: &Request,
    ) -> (accepted: Result<(), ()>)
        requires
            old(evlh).wf(),
            request.resource.managed,
            old(evlh).objects@.alive(request.resource.ptr),
            old(evlh).objects@.object(request.resource.ptr).client == request.client,
        ensures
            final(evlh).wf(),
            old(evlh).precedes(final(evlh)),
            old(self).invoked(old(evlh), request@, final(self), final(evlh), accepted is Ok),
    ;

    /// Invokes the callback of a secondary source that is ready.
    fn dispatch_source(&mut self, evlh: &mut EventLoopHandle<S>, call: &SourceCall)
        requires
            old(evlh).wf(),
        ensures
            final(evlh).wf(),
            old(evlh).precedes(final(evlh)),
            old(self).source_invoked(old(evlh), *call, final(self), final(evlh)),
    ;
}

/// What servicing one ready source came to.
#[derive(Copy, Clone, PartialEq, Eq, Structural, Debug)]
pub enum Serviced {
    /// Nothing was there to do: the source is unknown or gone, or what was
    /// reported is nothing it waits for.
    Nothing,
    /// The next message of the connection has not arrived in full.
    Suspended,
    /// One callback ran.
    Dispatched,
    /// The connection broke the protocol and was torn down.
    Violation(ProtocolError),
}

impl Serviced {
    /// A unit of work was done on the source: a callback ran, or a
    /// connection was torn down.
    pub open spec fn counts(self) -> bool {
        self is Dispatched || self is Violation
    }

    /// What the source adds to the count of a cycle.
    pub open spec fn weight(self) -> int {
        if self.counts() {
            1
        } else {
            0
        }
    }

    /// Whether a unit of work was done on the source.
    pub fn counted(&self) -> (yes: bool)
        ensures
            yes == self.counts(),
    {
        match self {
            Serviced::Dispatched => true,
            Serviced::Violation(_) => true,
            _ => false,
        }
    }
}

impl<S> EventLoopHandle<S> {
    /// What servicing a ready connection comes to: from `self` and the
    /// callbacks `callbacks` to `next` and `callbacks_next`, with `outcome`.
    ///
    /// Without a message that resolves to a callback, the table alone says
    /// what happens, and the callbacks are left as they were: a connection
    /// that broke the protocol is told so and torn down. With one, the
    /// callback is invoked once, with the request that the table resolves
    /// the message to, on the loop as it is once the message is taken; then
    /// the request is completed.
    pub open spec fn client_serviced<I: Implementable<S>>(
        &self,
        client: ClientId,
        outcome: Serviced,
        next: &EventLoopHandle<S>,
        callbacks: &I,
        callbacks_next: &I,
    ) -> bool {
        match self.objects@.step(client) {
            StepView::Idle => outcome == Serviced::Nothing && self.same_as(next)
                && *callbacks_next == *callbacks,
            StepView::Suspended => outcome == Serviced::Suspended && self.same_as(next)
                && *callbacks_next == *callbacks,
            StepView::Violation(error) => outcome == Serviced::Violation(error) && next.objects@
                == self.objects@.stepped(client) && self.same_but_objects(next)
                && *callbacks_next == *callbacks,
            StepView::Invoke(request) => exists|
                start: EventLoopHandle<S>,
                after: EventLoopHandle<S>,
                accepted: bool,
            |
                {
                    &&& start.objects@ == self.objects@.stepped(client)
                    &&& self.same_but_objects(&start)
                    &&& #[trigger] callbacks.invoked(
                        &start,
                        request,
                        callbacks_next,
                        &after,
                        accepted,
                    )
                    &&& next.objects@ == after.objects@.completed(request, accepted)
                    &&& after.same_but_objects(next)
                    &&& outcome == if accepted {
                        Serviced::Dispatched
                    } else {
                        Serviced::Violation(ProtocolError::Rejected)
                    }
                },
        }
    }

    /// What servicing a ready secondary source comes to: its callback is
    /// invoked once with what was reported, if the report is for a callback;
    /// nothing happens if not.
    pub open spec fn source_serviced<I: Implementable<S>>(
        &self,
        ready: Ready,
        outcome: Serviced,
        next: &EventLoopHandle<S>,
        callbacks: &I,
        callbacks_next: &I,
    ) -> bool {
        match call_for(self.sources@, ready) {
            Some(call) => outcome == Serviced::Dispatched && callbacks.source_invoked(
                self,
                call,
                callbacks_next,
                next,
            ),
            None => outcome == Serviced::Nothing && self.same_as(next) && *callbacks_next
                == *callbacks,
        }
    }

    /// What servicing a ready source comes to.
    pub open spec fn serviced<I: Implementable<S>>(
        &self,
        ready: Ready,
        outcome: Serviced,
        next: &EventLoopHandle<S>,
        callbacks: &I,
        callbacks_next: &I,
    ) -> bool {
        match ready {
            Ready::Client(client) => self.client_serviced(
                client,
                outcome,
                next,
                callbacks,
                callbacks_next,
            ),
            _ => self.source_serviced(ready, outcome, next, callbacks, callbacks_next),
        }
    }

    /// What a dispatch cycle over `ready` comes to: the sources are
    /// serviced one after the other, in the order given, each on the loop as
    /// the one before it has left it, and `count` of them had work done.
    pub open spec fn dispatched<I: Implementable<S>>(
        &self,
        ready: Seq<Ready>,
        count: int,
        next: &EventLoopHandle<S>,
        callbacks: &I,
        callbacks_next: &I,
    ) -> bool
        decreases ready.len(),
    {
        if ready.len() == 0 {
            count == 0 && self.same_as(next) && *callbacks_next == *callbacks
        } else {
            exists|middle: EventLoopHandle<S>, callbacks_middle: I, outcome: Serviced|
                {
                    &&& self.dispatched(
                        ready.drop_last(),
                        count - outcome.weight(),
                        &middle,
                        callbacks,
                        &callbacks_middle,
                    )
                    &&& #[trigger] middle.serviced(
                        ready.last(),
                        outcome,
                        next,
                        &callbacks_middle,
                        callbacks_next,
                    )
                }
        }
    }

    /// A callback that ran between taking a message and completing its
    /// request is what servicing a connection with such a message comes to.
    proof fn lemma_callback_serviced<I: Implementable<S>>(
        &self,
        client: ClientId,
        outcome: Serviced,
        next: &EventLoopHandle<S>,
        callbacks: &I,
        callbacks_next: &I,
        start: EventLoopHandle<S>,
        after: EventLoopHandle<S>,
        accepted: bool,
    )
        requires
            self.objects@.step(client) is Invoke,
            start.objects@ == self.objects@.stepped(client),
            self.same_but_objects(&start),
            callbacks.invoked(
                &start,
                self.objects@.step(client)->Invoke_0,
                callbacks_next,
                &after,
                accepted,
            ),
            next.objects@ == after.objects@.completed(
                self.objects@.step(client)->Invoke_0,
                accepted,
            ),
            after.same_but_objects(next),
            outcome == if accepted {
                Serviced::Dispatched
            } else {
                Serviced::Violation(ProtocolError::Rejected)
            },
        ensures
            self.client_serviced(client, outcome, next, callbacks, callbacks_next),
    {
    }

    /// The source has nothing to do: a connection with no whole message to
    /// take, or a report that is for no callback.
    pub open spec fn quiet(&self, ready: Ready) -> bool {
        match ready {
            Ready::Client(client) => self.objects@.step(client) is Idle || self.objects@.step(
                client,
            ) is Suspended,
            _ => call_for(self.sources@, ready) is None,
        }
    }

    /// None of the sources has anything to do.
    pub open spec fn all_quiet(&self, ready: Seq<Ready>) -> bool {
        forall|i: int| 0 <= i < ready.len() ==> #[trigger] self.quiet(ready[i])
    }
}

/// How long the poll before a cycle may wait, in milliseconds: not at all
/// while a connection has work buffered, else for the timeout asked, as far
/// as a wait can be that long, and without end, written -1, if none was
/// asked.
pub open spec fn wait_for(backlog: bool, timeout: Option<u32>) -> int {
    if backlog {
        0
    } else {
        match timeout {
            None => -1,
            Some(milliseconds) => if milliseconds > i32::MAX {
                i32::MAX as int
            } else {
                milliseconds as int
            },
        }
    }
}

/// The reactor: the event loop as its owner sees it.
pub struct EventLoop<S> {
    /// The loop as callbacks see it.
    pub handle: EventLoopHandle<S>,
}

impl<S> EventLoop<S> {
    /// An event loop with no connection, no global, no source and an empty
    /// state store of the given id.
    pub fn new(state_id: u64) -> (event_loop: EventLoop<S>)
        ensures
            event_loop.handle.wf(),
            event_loop.handle.objects@.clients.len() == 0,
            event_loop.handle.objects@.objects.len() == 0,
            event_loop.handle.globals@.len() == 0,
            event_loop.handle.sources@.len() == 0,
            event_loop.handle.state@.len() == 0,
            event_loop.handle.state.id() == state_id,
    {
        EventLoop {
            handle: EventLoopHandle {
                objects: ObjectTable::new(),
                globals: GlobalRegistry::new(),
                state: StateStore::new(state_id),
                sources: SourceRegistry::new(),
            },
        }
    }

    /// How long the poll before the next cycle may wait: see [`wait_for`].
    pub fn poll_timeout(&self, timeout: Option<u32>) -> (wait: i32)
        ensures
            wait == wait_for(self.handle.objects@.backlog(), timeout),
    {
        if self.handle.objects.any_work() {
            return 0;
        }
        match timeout {
            None => -1,
            Some(milliseconds) => {
                if milliseconds > 0x7fff_ffff {
                    i32::MAX
                } else {
                    milliseconds as i32
                }
            },
        }
    }

    /// Services a ready connection: dispatches its next message, if a whole
    /// one has arrived.
    ///
    /// Up to the callback, what happens is fixed by the table: see
    /// [`TableView::step`]. No callback runs unless the message resolves to
    /// one. After a callback, a rejected request has ended the connection,
    /// and a destructor has destroyed its object.
    pub fn service_client<I: Implementable<S>>(
        &mut self,
        client: ClientId,
        implementation: &mut I,
    ) -> (outcome: Serviced)
        requires
            old(self).handle.wf(),
        ensures
            final(self).handle.wf(),
            old(self).handle.precedes(&final(self).handle),
            old(self).handle.client_serviced(
                client,
                outcome,
                &final(self).handle,
                old(implementation),
                final(implementation),
            ),
    {
        let step = self.handle.objects.next_request(client);
        match step {
            Step::Idle => Serviced::Nothing,
            Step::Suspended => Serviced::Suspended,
            Step::Violation(error) => Serviced::Violation(error),
            Step::Invoke(request) => {
                let ghost start = self.handle;
                proof {
                    let before = old(self).handle.objects@;
                    let found = before.resolve(client, before.pending(client)->object);
                    assert(before.names(client, before.pending(client)->object, found));
                    assert(request.resource.ptr == found);
                    assert(start.objects@.objects == before.objects);
                }
                let accepted: bool = implementation.dispatch_msg(&mut self.handle, &request).is_ok();
                let ghost after = self.handle;
                let error = self.handle.objects.complete_request(&request, accepted);
                proof {
                    lemma_precedes_transitive(
                        old(self).handle.objects@,
                        start.objects@,
                        after.objects@,
                    );
                    lemma_precedes_transitive(
                        old(self).handle.objects@,
                        after.objects@,
                        self.handle.objects@,
                    );
                }
                let outcome = match error {
                    None => Serviced::Dispatched,
                    Some(error) => Serviced::Violation(error),
                };
                proof {
                    old(self).handle.lemma_callback_serviced(
                        client,
                        outcome,
                        &self.handle,
                        old(implementation),
                        implementation,
                        start,
                        after,
                        accepted,
                    );
                }
                outcome
            },
        }
    }

    /// Services a ready secondary source: invokes its callback with what
    /// was reported, if the source is registered and waits for it.
    pub fn service_source<I: Implementable<S>>(
        &mut self,
        ready: &Ready,
        implementation: &mut I,
    ) -> (outcome: Serviced)
        requires
            old(self).handle.wf(),
        ensures
            final(self).handle.wf(),
            old(self).handle.precedes(&final(self).handle),
            old(self).handle.source_serviced(
                *ready,
                outcome,
                &final(self).handle,
                old(implementation),
                final(implementation),
            ),
    {
        proof {
            lemma_precedes_reflexive(self.handle.objects@);
        }
        match self.handle.sources.resolve(ready) {
            None => Serviced::Nothing,
            Some(call) => {
                implementation.dispatch_source(&mut self.handle, &call);
                Serviced::Dispatched
            },
        }
    }

    /// Services one ready source, connection or secondary.
    pub fn service<I: Implementable<S>>(
        &mut self,
        ready: &Ready,
        implementation: &mut I,
    ) -> (outcome: Serviced)
        requires
            old(self).handle.wf(),
        ensures
            final(self).handle.wf(),
            old(self).handle.precedes(&final(self).handle),
            old(self).handle.serviced(
                *ready,
                outcome,
                &final(self).handle,
                old(implementation),
                final(implementation),
            ),
    {
        match ready {
            Ready::Client(client) => self.service_client(*client, implementation),
            _ => self.service_source(ready, implementation),
        }
    }

    /// Runs one dispatch cycle over the sources that the poll reported
    /// ready, and returns how many of them were serviced.
    ///
    /// Each ready source gets one unit of work, in the order given: one
    /// message of a connection, one invocation for a secondary source. One
    /// callback runs at a time, and all have returned when this returns.
    /// Where no source has anything to do, and so with nothing ready, nothing
    /// happens and the count is zero.
    pub fn dispatch<I: Implementable<S>>(
        &mut self,
        ready: &Vec<Ready>,
        implementation: &mut I,
    ) -> (serviced: usize)
        requires
            old(self).handle.wf(),
        ensures
            final(self).handle.wf(),
            old(self).handle.precedes(&final(self).handle),
            serviced <= ready.len(),
            old(self).handle.dispatched(
                ready@,
                serviced as int,
                &final(self).handle,
                old(implementation),
                final(implementation),
            ),
            old(self).handle.all_quiet(ready@) ==> serviced == 0 && old(self).handle.same_as(
                &final(self).handle,
            ) && *final(implementation) == *old(implementation),
    {
        let mut serviced: usize = 0;
        let mut i: usize = 0;
        proof {
            lemma_precedes_reflexive(self.handle.objects@);
            assert(ready@.take(0).len() == 0);
        }
        while i < ready.len()
            invariant
                i <= ready.len(),
                serviced <= i,
                self.handle.wf(),
                old(self).handle.precedes(&self.handle),
                old(self).handle.dispatched(
                    ready@.take(i as int),
                    serviced as int,
                    &self.handle,
                    old(implementation),
                    implementation,
                ),
                old(self).handle.all_quiet(ready@) ==> serviced == 0 && old(self).handle.same_as(
                    &self.handle,
                ) && *implementation == *old(implementation),
            decreases ready.len() - i,
        {
            let ghost middle = self.handle;
            let ghost callbacks_middle = *implementation;
            let ghost count = serviced as int;
            let outcome = self.service(&ready[i], implementation);
            proof {
                lemma_precedes_transitive(
                    old(self).handle.objects@,
                    middle.objects@,
                    self.handle.objects@,
                );
                if old(self).handle.all_quiet(ready@) {
                    assert(old(self).handle.quiet(ready@[i as int]));
                }
                let longer = ready@.take(i + 1);
                assert(longer.drop_last() =~= ready@.take(i as int));
                assert(longer.last() == ready@[i as int]);
                assert(middle.serviced(
                    longer.last(),
                    outcome,
                    &self.handle,
                    &callbacks_middle,
                    implementation,
                ));
                assert(old(self).handle.dispatched(
                    longer.drop_last(),
                    count + outcome.weight() - outcome.weight(),
                    &middle,
                    old(implementation),
                    &callbacks_middle,
                ));
                assert(old(self).handle.dispatched(
                    longer,
                    count + outcome.weight(),
                    &self.handle,
                    old(implementation),
                    implementation,
                ));
            }
            if outcome.counted() {
                serviced = serviced + 1;
            }
            i = i + 1;
        }
        assert(ready@.take(ready@.len() as int) =~= ready@);
        serviced
    }
}

/// A bind goes by the version. For an open connection that is not doomed, a
/// global that is advertised and an id that the connection does not use:
/// a version above the advertised one is refused, the client is told of a
/// protocol error and its connection is torn down; any other version yields
/// a new object, alive, at that version.
pub proof fn lemma_bind_goes_by_version(
    table: TableView,
    globals: Seq<Option<GlobalView>>,
    client: ClientId,
    global: Global,
    version: u32,
    id: u32,
)
    requires
        table.wf(),
        table.serviceable(client),
        advertised(globals, global),
        !table.in_use(client, id),
    ensures
        ({
            let outcome = bind_outcome(table, globals, client, global, version, id);
            let after = bound_table(table, globals, client, global, version, id);
            if version > globals[global.0 as int]->Some_0.version {
                &&& outcome == Err::<Bound, BindError>(BindError::VersionTooHigh)
                &&& !after.is_open(client)
                &&& after.client(client).outgoing == table.client(client).outgoing.push(
                    MessageView::Error {
                        object: DISPLAY_ID,
                        code: INVALID_OBJECT,
                        text: Seq::empty(),
                    },
                )
                &&& after.objects.len() == table.objects.len()
                &&& forall|ptr: ResourcePtr|
                    table.alive(ptr) && #[trigger] table.object(ptr).client == client
                        ==> !after.alive(ptr)
            } else {
                &&& outcome matches Ok(bound)
                &&& !table.issued(bound.resource.ptr)
                &&& liveness_of(after, bound.resource) == Liveness::Alive
                &&& after.names(client, id, bound.resource.ptr)
                &&& after.object(bound.resource.ptr).version == version
            }
        }),
{
}

} // verus!
