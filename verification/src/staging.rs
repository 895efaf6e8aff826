//! Per-CPU event staging: bounded, nesting-aware scratch storage used to
//! assemble an event record before it is committed to the output channel.
//! A probe invocation interrupted on the same CPU by another invocation
//! (nested tracepoint, interrupt) must not corrupt the interrupted
//! invocation's in-progress event: each nesting level owns one scratch
//! slot, and an invocation that would push past the bound abandons its
//! event instead of touching another level's slot.

use vstd::prelude::*;
use crate::channel::{emitted, OutputChannel};
use crate::events::{spec_zeroed_event, ProcessEvent};

verus! {

/// Deepest same-CPU probe nesting the scratch storage accommodates. Probe
/// stacks are shallow and statically sized; invocations beyond this depth
/// drop their event rather than corrupt memory.
pub const MAX_NESTING: usize = 3;

/// Outcome of a `begin` that found every scratch slot taken: the event is
/// silently dropped.
#[derive(Clone, Copy, PartialEq, Eq, Structural, Debug)]
pub struct Dropped;

/// Grant of one scratch slot: the nesting level a `begin` handed out.
#[derive(Clone, Copy, PartialEq, Eq, Structural, Debug)]
pub struct StagingHandle {
    pub level: usize,
}

/// One staging call, seen abstractly for the nesting law.
#[derive(Clone, Copy, PartialEq, Eq, Structural, Debug)]
pub enum StagingOp {
    Begin,
    Commit,
    End,
}

/// How one staging call moves the nesting counter: `begin` increments up to
/// the bound, `end` decrements and never underflows, `commit` leaves it.
pub open spec fn depth_after(d: nat, op: StagingOp) -> nat {
    match op {
        StagingOp::Begin => if d < MAX_NESTING {
            d + 1
        } else {
            d
        },
        StagingOp::Commit => d,
        StagingOp::End => if d > 0 {
            (d - 1) as nat
        } else {
            0
        },
    }
}

/// The nesting counter after a sequence of staging calls.
pub open spec fn depth_after_ops(d: nat, ops: Seq<StagingOp>) -> nat
    decreases ops.len(),
{
    if ops.len() == 0 {
        d
    } else {
        depth_after_ops(depth_after(d, ops[0]), ops.drop_first())
    }
}

/// Law: over any sequence of `begin`/`commit`/`end` calls on one CPU, the
/// nesting counter never exceeds `MAX_NESTING`; being a natural number, it
/// never goes negative either.
pub proof fn lemma_nesting_depth_bounded(d: nat, ops: Seq<StagingOp>)
    requires
        d <= MAX_NESTING,
    ensures
        depth_after_ops(d, ops) <= MAX_NESTING,
    decreases ops.len(),
{
    if ops.len() > 0 {
        lemma_nesting_depth_bounded(depth_after(d, ops[0]), ops.drop_first());
    }
}

/// One CPU's staging state: the nesting counter and one scratch slot per
/// nesting level.
#[derive(Clone, Debug)]
pub struct EventStaging {
    pub nesting_depth: u64,
    pub slots: Vec<ProcessEvent>,
}

impl EventStaging {
    /// The counter stays within the bound and every level has its slot.
    pub open spec fn wf(self) -> bool {
        &&& self.nesting_depth <= MAX_NESTING
        &&& self.slots@.len() == MAX_NESTING
    }

    /// Fresh staging state: no invocation in flight, slots zeroed.
    pub fn new() -> (s: EventStaging)
        ensures
            s.wf(),
            s.nesting_depth == 0,
            forall|i: int| 0 <= i < s.slots@.len() ==> s.slots@[i] == spec_zeroed_event(),
    {
        let mut slots: Vec<ProcessEvent> = Vec::new();
        let mut i: usize = 0;
        while i < MAX_NESTING
            invariant
                slots@.len() == i,
                i <= MAX_NESTING,
                forall|j: int| 0 <= j < i ==> slots@[j] == spec_zeroed_event(),
            decreases MAX_NESTING - i,
        {
            slots.push(ProcessEvent::zeroed());
            i += 1;
        }
        EventStaging { nesting_depth: 0, slots }
    }

    /// Enters one probe invocation: raises the nesting counter and grants
    /// the scratch slot of the new depth, or reports the event dropped when
    /// the bound would be passed. A refused `begin` changes nothing: in
    /// particular it leaves every other level's slot untouched.
    pub fn begin(&mut self) -> (r: Result<StagingHandle, Dropped>)
        requires
            old(self).wf(),
        ensures
            final(self).wf(),
            final(self).nesting_depth == depth_after(
                old(self).nesting_depth as nat,
                StagingOp::Begin,
            ),
            final(self).slots@ == old(self).slots@,
            old(self).nesting_depth < MAX_NESTING ==> r == Ok::<StagingHandle, Dropped>(
                StagingHandle { level: old(self).nesting_depth as usize },
            ),
            old(self).nesting_depth >= MAX_NESTING ==> r == Err::<StagingHandle, Dropped>(Dropped)
                && final(self).nesting_depth == old(self).nesting_depth,
    {
        if self.nesting_depth >= MAX_NESTING as u64 {
            return Err(Dropped);
        }
        let level = self.nesting_depth as usize;
        self.nesting_depth = self.nesting_depth + 1;
        Ok(StagingHandle { level })
    }

    /// Copies the finished event into the granted slot and submits it to
    /// the output channel. Only the granted level's slot is written.
    pub fn commit(&mut self, handle: &StagingHandle, event: ProcessEvent, out: &mut OutputChannel)
        requires
            old(self).wf(),
            old(out).wf(),
            handle.level < old(self).nesting_depth,
            event.wf(),
        ensures
            final(self).wf(),
            final(out).wf(),
            final(self).nesting_depth == old(self).nesting_depth,
            final(self).slots@ == old(self).slots@.update(handle.level as int, event),
            final(out).attached == old(out).attached,
            final(out).pending@ == emitted(old(out).pending@, old(out).attached, event),
    {
        self.slots.set(handle.level, event);
        out.emit(&self.slots[handle.level]);
    }

    /// Leaves one probe invocation: lowers the nesting counter on every
    /// exit path, normal or abandoned, and never below zero.
    pub fn end(&mut self, handle: StagingHandle)
        requires
            old(self).wf(),
        ensures
            final(self).wf(),
            final(self).nesting_depth == depth_after(
                old(self).nesting_depth as nat,
                StagingOp::End,
            ),
            final(self).slots@ == old(self).slots@,
    {
        let _ = handle;
        if self.nesting_depth > 0 {
            self.nesting_depth = self.nesting_depth - 1;
        }
    }
}

} // verus!
