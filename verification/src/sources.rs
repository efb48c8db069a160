//! Secondary event sources: file descriptors, signals and timers that the
//! event loop waits on beside the client connections.
//!
//! The registry holds what each source is and which callback it has. Waiting
//! is not done here: whoever polls reports what became ready, and the
//! registry says which callback that is for, and with what payload.

use vstd::prelude::*;
use crate::table::ClientId;

verus! {

/// Mask value of readability.
pub const READ: u32 = 0x01;

/// Mask value of writability.
pub const WRITE: u32 = 0x02;

/// The events of a file descriptor that a source asks for, or that are
/// ready.
#[derive(Copy, Clone, PartialEq, Eq, Structural, Debug)]
pub struct FdInterest {
    pub read: bool,
    pub write: bool,
}

/// The mask that stands for an interest.
pub open spec fn mask_of(interest: FdInterest) -> int {
    (if interest.read {
        1int
    } else {
        0int
    }) + (if interest.write {
        2int
    } else {
        0int
    })
}

impl FdInterest {
    /// The events that are in both.
    pub open spec fn both(self, other: FdInterest) -> FdInterest {
        FdInterest { read: self.read && other.read, write: self.write && other.write }
    }

    pub open spec fn none(self) -> bool {
        !self.read && !self.write
    }

    /// The interest as a mask of `READ` and `WRITE`.
    pub fn bits(&self) -> (bits: u32)
        ensures
            bits == mask_of(*self),
    {
        let read: u32 = if self.read {
            READ
        } else {
            0
        };
        let write: u32 = if self.write {
            WRITE
        } else {
            0
        };
        read + write
    }

    /// The interest that a mask stands for, or `None` for a mask with other
    /// bits than `READ` and `WRITE`.
    pub fn from_bits(bits: u32) -> (interest: Option<FdInterest>)
        ensures
            match interest {
                Some(found) => mask_of(found) == bits,
                None => bits > 3,
            },
    {
        if bits > READ + WRITE {
            None
        } else {
            Some(FdInterest { read: bits % 2 == 1, write: bits >= WRITE })
        }
    }

    /// The events that are in both interests.
    pub fn intersection(&self, other: &FdInterest) -> (common: FdInterest)
        ensures
            common == self.both(*other),
    {
        FdInterest { read: self.read && other.read, write: self.write && other.write }
    }

    /// Whether the interest holds no event.
    pub fn is_empty(&self) -> (empty: bool)
        ensures
            empty == self.none(),
    {
        !self.read && !self.write
    }
}

/// What a source waits for.
#[derive(Copy, Clone, PartialEq, Eq, Structural, Debug)]
pub enum SourceKind {
    /// Events of a file descriptor.
    Fd { fd: i32, interest: FdInterest },
    /// Delivery of a signal.
    Signal { signal: i32 },
    /// Expiry of a timer.
    Timer,
}

/// One registered source.
#[derive(Copy, Clone, PartialEq, Eq, Structural, Debug)]
pub struct Source {
    pub kind: SourceKind,
    /// The callback invoked when the source is ready.
    pub callback: u64,
    /// The data handed to the callback.
    pub data: u64,
}

/// The handle to one registered source.
#[derive(Copy, Clone, PartialEq, Eq, Structural, Debug)]
pub struct SourceId(pub usize);

/// What the poll reports as ready.
#[derive(Copy, Clone, PartialEq, Eq, Structural, Debug)]
pub enum Ready {
    /// A connection has bytes to dispatch.
    Client(ClientId),
    /// A file descriptor has the events of `mask`.
    Fd { source: SourceId, mask: FdInterest },
    /// A signal was delivered.
    Signal { source: SourceId, signal: i32 },
    /// A timer expired, `expirations` times since it was last serviced.
    Timer { source: SourceId, expirations: u64 },
}

/// What the callback of a source is told.
#[derive(Copy, Clone, PartialEq, Eq, Structural, Debug)]
pub enum SourceEvent {
    /// The events, among those asked for, that the file descriptor has.
    Fd { fd: i32, mask: FdInterest },
    Signal { signal: i32 },
    Timer { expirations: u64 },
}

/// A ready source resolved to its callback.
#[derive(Copy, Clone, PartialEq, Eq, Structural, Debug)]
pub struct SourceCall {
    pub callback: u64,
    pub data: u64,
    pub source: SourceId,
    pub event: SourceEvent,
}

/// The source is registered.
pub open spec fn registered(sources: Seq<Option<Source>>, source: SourceId) -> bool {
    source.0 < sources.len() && sources[source.0 as int] is Some
}

/// The payload that a ready report carries for a source of kind `kind`, or
/// `None` where the report is not for such a source or carries nothing the
/// source asked for.
pub open spec fn event_for(kind: SourceKind, ready: Ready) -> Option<SourceEvent> {
    match (kind, ready) {
        (SourceKind::Fd { fd, interest }, Ready::Fd { mask, .. }) => if interest.both(mask).none() {
            None
        } else {
            Some(SourceEvent::Fd { fd, mask: interest.both(mask) })
        },
        (SourceKind::Signal { signal }, Ready::Signal { signal: delivered, .. }) => if signal
            == delivered {
            Some(SourceEvent::Signal { signal })
        } else {
            None
        },
        (SourceKind::Timer, Ready::Timer { expirations, .. }) => if expirations > 0 {
            Some(SourceEvent::Timer { expirations })
        } else {
            None
        },
        _ => None,
    }
}

/// The source that a ready report is about, if it is about a source.
pub open spec fn source_of(ready: Ready) -> Option<SourceId> {
    match ready {
        Ready::Client(_) => None,
        Ready::Fd { source, .. } => Some(source),
        Ready::Signal { source, .. } => Some(source),
        Ready::Timer { source, .. } => Some(source),
    }
}

/// The callback that a ready report is for, with its payload, or `None`
/// where it is for none: the report names a connection, no source or a
/// removed one, or carries nothing for the source it names.
pub open spec fn call_for(sources: Seq<Option<Source>>, ready: Ready) -> Option<SourceCall> {
    match source_of(ready) {
        None => None,
        Some(source) => if registered(sources, source) {
            let entry = sources[source.0 as int]->Some_0;
            match event_for(entry.kind, ready) {
                None => None,
                Some(event) => Some(
                    SourceCall { callback: entry.callback, data: entry.data, source, event },
                ),
            }
        } else {
            None
        },
    }
}

/// The secondary sources of one event loop.
pub struct SourceRegistry {
    sources: Vec<Option<Source>>,
}

impl View for SourceRegistry {
    type V = Seq<Option<Source>>;

    /// For every source ever added, the source, or `None` once it is
    /// removed.
    closed spec fn view(&self) -> Seq<Option<Source>> {
        self.sources@
    }
}

impl SourceRegistry {
    /// A registry without sources.
    pub fn new() -> (registry: SourceRegistry)
        ensures
            registry@.len() == 0,
    {
        SourceRegistry { sources: Vec::new() }
    }

    /// The number of sources ever added.
    pub fn len(&self) -> (len: usize)
        ensures
            len == self@.len(),
    {
        self.sources.len()
    }

    /// Adds a source. It stays until it is removed.
    pub fn add(&mut self, source: Source) -> (id: SourceId)
        ensures
            id.0 == old(self)@.len(),
            final(self)@ == old(self)@.push(Some(source)),
    {
        self.sources.push(Some(source));
        SourceId(self.sources.len() - 1)
    }

    /// Removes a source and hands it back, or `None` if it is not
    /// registered.
    pub fn remove(&mut self, id: SourceId) -> (removed: Option<Source>)
        ensures
            removed == if registered(old(self)@, id) {
                old(self)@[id.0 as int]
            } else {
                None
            },
            final(self)@ == if registered(old(self)@, id) {
                old(self)@.update(id.0 as int, None)
            } else {
                old(self)@
            },
    {
        if id.0 >= self.sources.len() {
            return None;
        }
        let removed: Option<Source> = self.sources[id.0];
        self.sources[id.0] = None;
        assert(final(self)@ =~= old(self)@.update(id.0 as int, None));
        removed
    }

    /// The source registered under this handle, if any.
    pub fn get(&self, id: SourceId) -> (source: Option<Source>)
        ensures
            source == if registered(self@, id) {
                self@[id.0 as int]
            } else {
                None
            },
    {
        if id.0 >= self.sources.len() {
            None
        } else {
            self.sources[id.0]
        }
    }

    /// Resolves a ready report to the callback it is for: see [`call_for`].
    pub fn resolve(&self, ready: &Ready) -> (call: Option<SourceCall>)
        ensures
            call == call_for(self@, *ready),
    {
        let id: SourceId = match ready {
            Ready::Client(_) => {
                return None;
            },
            Ready::Fd { source, .. } => *source,
            Ready::Signal { source, .. } => *source,
            Ready::Timer { source, .. } => *source,
        };
        let entry: Source = match self.get(id) {
            Some(entry) => entry,
            None => {
                return None;
            },
        };
        let event: SourceEvent = match (entry.kind, *ready) {
            (SourceKind::Fd { fd, interest }, Ready::Fd { mask, .. }) => {
                let common = interest.intersection(&mask);
                if common.is_empty() {
                    return None;
                }
                SourceEvent::Fd { fd, mask: common }
            },
            (SourceKind::Signal { signal }, Ready::Signal { signal: delivered, .. }) => {
                if signal != delivered {
                    return None;
                }
                SourceEvent::Signal { signal }
            },
            (SourceKind::Timer, Ready::Timer { expirations, .. }) => {
                if expirations == 0 {
                    return None;
                }
                SourceEvent::Timer { expirations }
            },
            _ => {
                return None;
            },
        };
        Some(SourceCall { callback: entry.callback, data: entry.data, source: id, event })
    }
}

} // verus!
