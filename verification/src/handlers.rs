//! Probe handlers: the entry points invoked at the fork-allocation and
//! process-exit hook points. Each follows the same shape — accessor reads,
//! staging begin, populate, commit, staging end — and tolerates every
//! accessor call failing independently: a failure aborts only this
//! invocation's event, and the staging nesting level is restored on every
//! exit path.

use vstd::prelude::*;
use crate::accessors::{spec_exit_code, spec_tgid, KernelState, Task};
use crate::channel::{emitted, OutputChannel};
use crate::events::{
    spec_encode_payload,
    ExitEvent,
    ForkEvent,
    ProcessEvent,
    ProcessEventPayload,
    ProcessEventVariant,
};
use crate::staging::{EventStaging, MAX_NESTING};

verus! {

/// Context handed to a function-entry probe: the hooked call's first
/// argument — the task being allocated — when the kernel provides it.
#[derive(Clone, Copy, Debug)]
pub struct ProbeContext {
    pub arg0: Option<usize>,
}

/// Context handed to a raw tracepoint: the task taking the exit path.
#[derive(Clone, Copy, Debug)]
pub struct RawTracePointContext {
    pub task: usize,
}

/// The fork report staged for a task whose thread-group id read `tgid`.
/// At the allocation hook the thread-group id stands in for both the
/// subject process and the reported parent.
pub open spec fn spec_fork_event(tgid: i32) -> ProcessEvent {
    ProcessEvent {
        timestamp: 0,
        pid: tgid,
        payload: spec_encode_payload(ProcessEventVariant::Fork(ForkEvent { ppid: tgid })),
    }
}

/// The exit report staged for a task whose thread-group id read `tgid` and
/// whose exit code, non-negative by the accessor contract, is carried in
/// the reporting width.
pub open spec fn spec_exit_event(tgid: i32, exit_code: u32) -> ProcessEvent {
    ProcessEvent {
        timestamp: 0,
        pid: tgid,
        payload: spec_encode_payload(ProcessEventVariant::Exit(ExitEvent { exit_code })),
    }
}

/// Channel contents after a fork-allocation invocation on task `h`: one
/// fork report offered when the thread-group id was readable and a scratch
/// slot was free, nothing otherwise.
pub open spec fn fork_outcome(
    k: KernelState,
    h: usize,
    depth: nat,
    q: Seq<ProcessEvent>,
    attached: bool,
) -> Seq<ProcessEvent> {
    match spec_tgid(k, h) {
        Ok(tgid) => if depth < MAX_NESTING {
            emitted(q, attached, spec_fork_event(tgid))
        } else {
            q
        },
        Err(_) => q,
    }
}

/// Whether a fork-allocation invocation on task `h` completes: the
/// thread-group id is readable and the nesting bound is not hit.
pub open spec fn fork_completes(k: KernelState, h: usize, depth: nat) -> bool {
    spec_tgid(k, h) is Ok && depth < MAX_NESTING
}

/// Channel contents after a process-exit invocation on task `h`: one exit
/// report offered when both accessor reads succeed and a scratch slot was
/// free, nothing otherwise.
pub open spec fn exit_outcome(
    k: KernelState,
    h: usize,
    depth: nat,
    q: Seq<ProcessEvent>,
    attached: bool,
) -> Seq<ProcessEvent> {
    match spec_tgid(k, h) {
        Ok(tgid) => match spec_exit_code(k, h) {
            Ok(code) => if depth < MAX_NESTING {
                emitted(q, attached, spec_exit_event(tgid, code as u32))
            } else {
                q
            },
            Err(_) => q,
        },
        Err(_) => q,
    }
}

/// Whether a process-exit invocation on task `h` completes.
pub open spec fn exit_completes(k: KernelState, h: usize, depth: nat) -> bool {
    spec_tgid(k, h) is Ok && spec_exit_code(k, h) is Ok && depth < MAX_NESTING
}

/// Assembles and emits the fork report for a newly allocated task: reads
/// the thread-group id, stages a fork event, commits it to the channel and
/// leaves the nesting level as it found it.
pub fn handle_task_alloc(
    k: &KernelState,
    task: Task,
    staging: &mut EventStaging,
    out: &mut OutputChannel,
) -> (r: Result<(), i64>)
    requires
        old(staging).wf(),
        old(out).wf(),
    ensures
        final(staging).wf(),
        final(out).wf(),
        final(staging).nesting_depth == old(staging).nesting_depth,
        final(out).attached == old(out).attached,
        final(out).pending@ == fork_outcome(
            *k,
            task.handle,
            old(staging).nesting_depth as nat,
            old(out).pending@,
            old(out).attached,
        ),
        r is Ok <==> fork_completes(*k, task.handle, old(staging).nesting_depth as nat),
        match spec_tgid(*k, task.handle) {
            Ok(_) => old(staging).nesting_depth >= MAX_NESTING ==> r == Err::<(), i64>(-1i64),
            Err(e) => r == Err::<(), i64>(e),
        },
{
    let tgid = match task.tgid(k) {
        Ok(v) => v,
        Err(e) => {
            return Err(e);
        },
    };
    let handle = match staging.begin() {
        Ok(h) => h,
        Err(_) => {
            return Err(-1);
        },
    };
    let event = ProcessEvent {
        timestamp: 0,
        pid: tgid,
        payload: ProcessEventPayload::encode(ProcessEventVariant::Fork(ForkEvent { ppid: tgid })),
    };
    staging.commit(&handle, event, out);
    staging.end(handle);
    Ok(())
}

/// Fork-allocation hook body: takes the task from the probe context and
/// hands it to the allocation handler; a missing argument aborts the
/// invocation.
pub fn try_security_task_alloc(
    ctx: &ProbeContext,
    k: &KernelState,
    staging: &mut EventStaging,
    out: &mut OutputChannel,
) -> (r: Result<(), i64>)
    requires
        old(staging).wf(),
        old(out).wf(),
    ensures
        final(staging).wf(),
        final(out).wf(),
        final(staging).nesting_depth == old(staging).nesting_depth,
        final(out).attached == old(out).attached,
        final(out).pending@ == match ctx.arg0 {
            Some(h) => fork_outcome(
                *k,
                h,
                old(staging).nesting_depth as nat,
                old(out).pending@,
                old(out).attached,
            ),
            None => old(out).pending@,
        },
        r is Ok <==> (ctx.arg0 matches Some(h) && fork_completes(
            *k,
            h,
            old(staging).nesting_depth as nat,
        )),
        ctx.arg0 is None ==> r == Err::<(), i64>(-1i64),
{
    let task_handle = match ctx.arg0 {
        Some(h) => h,
        None => {
            return Err(-1);
        },
    };
    handle_task_alloc(k, Task::new(task_handle), staging, out)
}

/// Fork-allocation hook entry point: reports success to the kernel as `0`
/// and any aborted invocation as `1`.
pub fn security_task_alloc(
    ctx: &ProbeContext,
    k: &KernelState,
    staging: &mut EventStaging,
    out: &mut OutputChannel,
) -> (r: u32)
    requires
        old(staging).wf(),
        old(out).wf(),
    ensures
        final(staging).wf(),
        final(out).wf(),
        final(staging).nesting_depth == old(staging).nesting_depth,
        final(out).attached == old(out).attached,
        final(out).pending@ == match ctx.arg0 {
            Some(h) => fork_outcome(
                *k,
                h,
                old(staging).nesting_depth as nat,
                old(out).pending@,
                old(out).attached,
            ),
            None => old(out).pending@,
        },
        r == 0 <==> (ctx.arg0 matches Some(h) && fork_completes(
            *k,
            h,
            old(staging).nesting_depth as nat,
        )),
        r == 0 || r == 1,
{
    match try_security_task_alloc(ctx, k, staging, out) {
        Ok(_) => 0,
        Err(_) => 1,
    }
}

/// Process-exit hook body: reads the thread-group id and the exit code,
/// stages an exit event and commits it; either accessor failing aborts the
/// invocation with no channel write attempted.
pub fn try_sched_process_exit(
    ctx: &RawTracePointContext,
    k: &KernelState,
    staging: &mut EventStaging,
    out: &mut OutputChannel,
) -> (r: Result<(), i64>)
    requires
        old(staging).wf(),
        old(out).wf(),
    ensures
        final(staging).wf(),
        final(out).wf(),
        final(staging).nesting_depth == old(staging).nesting_depth,
        final(out).attached == old(out).attached,
        final(out).pending@ == exit_outcome(
            *k,
            ctx.task,
            old(staging).nesting_depth as nat,
            old(out).pending@,
            old(out).attached,
        ),
        r is Ok <==> exit_completes(*k, ctx.task, old(staging).nesting_depth as nat),
{
    let task = Task::new(ctx.task);
    let tgid = match task.tgid(k) {
        Ok(v) => v,
        Err(e) => {
            return Err(e);
        },
    };
    let exit_code_raw = match task.exit_code(k) {
        Ok(v) => v,
        Err(e) => {
            return Err(e);
        },
    };
    let exit_code: u32 = exit_code_raw as u32;
    let handle = match staging.begin() {
        Ok(h) => h,
        Err(_) => {
            return Err(-1);
        },
    };
    let event = ProcessEvent {
        timestamp: 0,
        pid: tgid,
        payload: ProcessEventPayload::encode(ProcessEventVariant::Exit(ExitEvent { exit_code })),
    };
    staging.commit(&handle, event, out);
    staging.end(handle);
    Ok(())
}

/// Process-exit hook entry point: the kernel ignores the outcome, so an
/// aborted invocation is dropped silently.
pub fn sched_process_exit(
    ctx: &RawTracePointContext,
    k: &KernelState,
    staging: &mut EventStaging,
    out: &mut OutputChannel,
)
    requires
        old(staging).wf(),
        old(out).wf(),
    ensures
        final(staging).wf(),
        final(out).wf(),
        final(staging).nesting_depth == old(staging).nesting_depth,
        final(out).attached == old(out).attached,
        final(out).pending@ == exit_outcome(
            *k,
            ctx.task,
            old(staging).nesting_depth as nat,
            old(out).pending@,
            old(out).attached,
        ),
{
    let _ = try_sched_process_exit(ctx, k, staging, out);
}

} // verus!
