//! Globals: the interfaces that the server advertises for clients to bind.

use vstd::prelude::*;
use std::sync::Arc;
use crate::interface::{Interface, InterfaceView};

verus! {

/// The handle to one advertisement.
#[derive(Copy, Clone, PartialEq, Eq, Structural, Debug)]
pub struct Global(pub usize);

/// Why a global could not be advertised.
#[derive(Copy, Clone, PartialEq, Eq, Structural, Debug)]
pub enum GlobalError {
    /// The version exceeds what the interface supports.
    VersionTooHigh,
}

/// What the registry holds of one advertised global.
pub struct GlobalView {
    pub interface: InterfaceView,
    /// The highest version that a client may bind.
    pub version: u32,
    /// The callback invoked with each object that a bind creates.
    pub callback: u64,
    /// The data handed to the callback.
    pub data: u64,
}

struct GlobalRecord {
    interface: Arc<Interface>,
    version: u32,
    callback: u64,
    data: u64,
}

impl View for GlobalRecord {
    type V = GlobalView;

    closed spec fn view(&self) -> GlobalView {
        GlobalView {
            interface: self.interface@,
            version: self.version,
            callback: self.callback,
            data: self.data,
        }
    }
}

/// An advertised global, as handed out for a bind.
#[derive(Debug)]
pub struct Advertised {
    pub interface: Arc<Interface>,
    pub version: u32,
    pub callback: u64,
    pub data: u64,
}

impl View for Advertised {
    type V = GlobalView;

    open spec fn view(&self) -> GlobalView {
        GlobalView {
            interface: self.interface@,
            version: self.version,
            callback: self.callback,
            data: self.data,
        }
    }
}

/// The globals advertised by one event loop.
pub struct GlobalRegistry {
    globals: Vec<Option<GlobalRecord>>,
}

impl View for GlobalRegistry {
    type V = Seq<Option<GlobalView>>;

    /// For every global ever advertised, what is advertised, or `None` once
    /// it is withdrawn.
    closed spec fn view(&self) -> Seq<Option<GlobalView>> {
        Seq::new(
            self.globals@.len(),
            |i: int|
                match self.globals@[i] {
                    Some(record) => Some(record@),
                    None => None,
                },
        )
    }
}

/// The global is advertised.
pub open spec fn advertised(globals: Seq<Option<GlobalView>>, global: Global) -> bool {
    global.0 < globals.len() && globals[global.0 as int] is Some
}

/// The version at which the global is advertised is one that its interface
/// supports.
pub open spec fn supported(globals: Seq<Option<GlobalView>>, global: Global) -> bool {
    globals[global.0 as int]->Some_0.version <= globals[global.0 as int]->Some_0.interface.version
}

/// No global is advertised at a version that its interface does not
/// support.
pub open spec fn globals_wf(globals: Seq<Option<GlobalView>>) -> bool {
    forall|global: Global| #[trigger] advertised(globals, global) ==> supported(globals, global)
}

impl GlobalRegistry {
    /// The invariant of the registry: see [`globals_wf`].
    pub open spec fn wf(&self) -> bool {
        globals_wf(self@)
    }

    /// A registry that advertises nothing.
    pub fn new() -> (registry: GlobalRegistry)
        ensures
            registry.wf(),
            registry@.len() == 0,
    {
        GlobalRegistry { globals: Vec::new() }
    }

    /// Advertises `interface` at `version`. Fails, and changes nothing, when
    /// the version exceeds what the interface supports.
    pub fn register(
        &mut self,
        interface: Arc<Interface>,
        version: u32,
        callback: u64,
        data: u64,
    ) -> (global: Result<Global, GlobalError>)
        requires
            old(self).wf(),
        ensures
            final(self).wf(),
            match global {
                Ok(handle) => version <= interface@.version && handle.0 == old(self)@.len()
                    && final(self)@ == old(self)@.push(
                    Some(GlobalView { interface: interface@, version, callback, data }),
                ),
                Err(GlobalError::VersionTooHigh) => version > interface@.version && final(self)@
                    == old(self)@,
            },
    {
        if version > interface.version {
            return Err(GlobalError::VersionTooHigh);
        }
        let record = GlobalRecord { interface, version, callback, data };
        self.globals.push(Some(record));
        proof {
            assert(final(self)@ =~= old(self)@.push(Some(record@)));
            assert forall|global: Global| #[trigger]
                advertised(final(self)@, global) implies supported(final(self)@, global) by {
                if global.0 < old(self)@.len() {
                    assert(advertised(old(self)@, global));
                }
            }
        }
        Ok(Global(self.globals.len() - 1))
    }

    /// Withdraws a global, and says whether it was advertised. A withdrawn
    /// global can no longer be bound; the objects bound from it live on.
    pub fn withdraw(&mut self, global: Global) -> (withdrawn: bool)
        requires
            old(self).wf(),
        ensures
            final(self).wf(),
            withdrawn == advertised(old(self)@, global),
            final(self)@ == if withdrawn {
                old(self)@.update(global.0 as int, None)
            } else {
                old(self)@
            },
    {
        if global.0 >= self.globals.len() || self.globals[global.0].is_none() {
            return false;
        }
        self.globals[global.0] = None;
        proof {
            assert(final(self)@ =~= old(self)@.update(global.0 as int, None));
            assert forall|other: Global| #[trigger]
                advertised(final(self)@, other) implies supported(final(self)@, other) by {
                assert(advertised(old(self)@, other));
            }
        }
        true
    }

    /// What is advertised under this handle, if anything.
    pub fn get(&self, global: Global) -> (found: Option<Advertised>)
        ensures
            match found {
                Some(entry) => advertised(self@, global) && entry@ == self@[global.0 as int]->Some_0,
                None => !advertised(self@, global),
            },
    {
        if global.0 >= self.globals.len() {
            return None;
        }
        match &self.globals[global.0] {
            Some(record) => Some(
                Advertised {
                    interface: record.interface.clone(),
                    version: record.version,
                    callback: record.callback,
                    data: record.data,
                },
            ),
            None => None,
        }
    }
}

} // verus!
