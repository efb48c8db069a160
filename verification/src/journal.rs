//! Callbacks that only keep a record.
//!
//! A journal stands in for the callbacks of an application where what
//! matters is which callbacks the loop invokes, with what and in what order:
//! it accepts every request, leaves the loop alone and writes down what it
//! was invoked with.

use vstd::prelude::*;
use crate::dispatch::{Request, RequestView};
use crate::event_loop::{EventLoopHandle, Implementable};
use crate::sources::SourceCall;
use crate::table::{lemma_precedes_reflexive, ClientId, ResourcePtr};

verus! {

/// One invocation of a callback.
#[derive(Copy, Clone, PartialEq, Eq, Structural, Debug)]
pub enum Invocation {
    /// The callback of a request.
    Request { callback: u64, data: u64, client: ClientId, resource: ResourcePtr, opcode: u32 },
    /// The callback of a secondary source.
    Source(SourceCall),
}

/// What a journal writes down of a request.
pub open spec fn entry_of(request: RequestView) -> Invocation {
    Invocation::Request {
        callback: request.callback,
        data: request.data,
        client: request.client,
        resource: request.resource.ptr,
        opcode: request.opcode,
    }
}

/// The record of the invocations, oldest first.
pub struct Journal {
    pub entries: Vec<Invocation>,
}

impl Journal {
    /// An empty journal.
    pub fn new() -> (journal: Journal)
        ensures
            journal.entries@.len() == 0,
    {
        Journal { entries: Vec::new() }
    }
}

impl<S> Implementable<S> for Journal {
    open spec fn invoked(
        &self,
        before: &EventLoopHandle<S>,
        request: RequestView,
        next: &Journal,
        after: &EventLoopHandle<S>,
        accepted: bool,
    ) -> bool {
        accepted && before.same_as(after) && next.entries@ == self.entries@.push(entry_of(request))
    }

    open spec fn source_invoked(
        &self,
        before: &EventLoopHandle<S>,
        call: SourceCall,
        next: &Journal,
        after: &EventLoopHandle<S>,
    ) -> bool {
        before.same_as(after) && next.entries@ == self.entries@.push(Invocation::Source(call))
    }

    fn dispatch_msg(
        &mut self,
        evlh: &mut EventLoopHandle<S>,
        request: &Request,
    ) -> (accepted: Result<(), ()>) {
        proof {
            lemma_precedes_reflexive(evlh.objects@);
        }
        self.entries.push(
            Invocation::Request {
                callback: request.callback,
                data: request.data,
                client: request.client,
                resource: request.resource.ptr,
                opcode: request.opcode,
            },
        );
        Ok(())
    }

    fn dispatch_source(&mut self, evlh: &mut EventLoopHandle<S>, call: &SourceCall) {
        proof {
            lemma_precedes_reflexive(evlh.objects@);
        }
        self.entries.push(Invocation::Source(*call));
    }
}

} // verus!
