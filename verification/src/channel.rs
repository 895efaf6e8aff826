//! Output channel: the fixed-capacity, best-effort hand-off of completed
//! event records from the kernel-side producer to the attached user-space
//! consumer. When the consumer is absent or the channel is saturated the
//! record is dropped; the producer never blocks.

use vstd::prelude::*;
use crate::events::ProcessEvent;

verus! {

/// Number of slots the channel holds.
pub const CHANNEL_CAPACITY: usize = 1024;

/// The records after offering `e` to a channel with pending records `q`:
/// appended when a consumer is attached and a slot is free, dropped
/// otherwise.
pub open spec fn emitted(q: Seq<ProcessEvent>, attached: bool, e: ProcessEvent) -> Seq<
    ProcessEvent,
> {
    if attached && q.len() < CHANNEL_CAPACITY {
        q.push(e)
    } else {
        q
    }
}

/// Fixed-capacity channel towards user space. `pending` models the slots
/// handed over but not yet consumed.
#[derive(Clone, Debug)]
pub struct OutputChannel {
    pub pending: Vec<ProcessEvent>,
    pub attached: bool,
}

impl OutputChannel {
    /// The pending records fit the capacity and each is a well-formed event:
    /// an accessor failure sentinel never reaches the channel.
    pub open spec fn wf(self) -> bool {
        &&& self.pending@.len() <= CHANNEL_CAPACITY
        &&& forall|i: int| 0 <= i < self.pending@.len() ==> self.pending@[i].wf()
    }

    /// A fresh channel with an attached consumer and no pending records.
    pub fn new() -> (c: OutputChannel)
        ensures
            c.wf(),
            c.pending@ == Seq::<ProcessEvent>::empty(),
            c.attached,
    {
        OutputChannel { pending: Vec::new(), attached: true }
    }

    /// The consumer attaches; it may do so at any time.
    pub fn attach(&mut self)
        requires
            old(self).wf(),
        ensures
            final(self).wf(),
            final(self).attached,
            final(self).pending@ == old(self).pending@,
    {
        self.attached = true;
    }

    /// The consumer disconnects; records offered meanwhile are dropped.
    pub fn detach(&mut self)
        requires
            old(self).wf(),
        ensures
            final(self).wf(),
            !final(self).attached,
            final(self).pending@ == old(self).pending@,
    {
        self.attached = false;
    }

    /// Offers one record: copied into the next free slot, or silently
    /// dropped when no consumer is attached or the channel is saturated.
    pub fn emit(&mut self, record: &ProcessEvent)
        requires
            old(self).wf(),
            record.wf(),
        ensures
            final(self).wf(),
            final(self).attached == old(self).attached,
            final(self).pending@ == emitted(old(self).pending@, old(self).attached, *record),
    {
        if self.attached && self.pending.len() < CHANNEL_CAPACITY {
            self.pending.push(*record);
        }
    }

    /// The consumer takes every pending record, oldest first.
    pub fn drain(&mut self) -> (r: Vec<ProcessEvent>)
        requires
            old(self).wf(),
        ensures
            final(self).wf(),
            r@ == old(self).pending@,
            final(self).pending@ == Seq::<ProcessEvent>::empty(),
            final(self).attached == old(self).attached,
    {
        let mut taken: Vec<ProcessEvent> = Vec::new();
        core::mem::swap(&mut taken, &mut self.pending);
        taken
    }
}

} // verus!
