//! Version-stable accessors over live kernel objects. Kernel struct layouts
//! vary by release and configuration, so handler logic never reads a field
//! at a raw offset: every access goes through a typed, fallible accessor
//! that yields the field's value or a negative sentinel when the field
//! cannot be read safely (null intermediate pointer, unsupported layout).
//!
//! A live kernel is modelled as a snapshot table of task and signal
//! descriptors; a handle is a position in that table. Scalar fields carry
//! the raw value a field read returns, where a negative value encodes an
//! unreadable field; link fields are `None` where the kernel pointer is
//! null. Every accessor is a pure read: none allocates or blocks.

use vstd::prelude::*;

verus! {

/// Snapshot of one signal descriptor.
#[derive(Clone, Copy, Debug)]
pub struct SignalRecord {
    pub live_counter: i32,
}

/// Snapshot of one task descriptor.
#[derive(Clone, Copy, Debug)]
pub struct TaskRecord {
    pub pid: i32,
    pub tgid: i32,
    pub exit_code: i32,
    pub parent: Option<usize>,
    pub group_leader: Option<usize>,
    pub signal: Option<usize>,
}

/// Snapshot of the kernel objects a probe invocation may traverse.
#[derive(Clone, Debug)]
pub struct KernelState {
    pub tasks: Vec<TaskRecord>,
    pub signals: Vec<SignalRecord>,
}

/// Outcome of reading a raw scalar field: the value when it is
/// non-negative, otherwise the negative sentinel itself as the error.
pub open spec fn spec_scalar_result(raw: i32) -> Result<i32, i64> {
    if raw >= 0 {
        Ok(raw)
    } else {
        Err(raw as i64)
    }
}

/// The thread-group id accessor's outcome for task handle `h`.
pub open spec fn spec_tgid(k: KernelState, h: usize) -> Result<i32, i64> {
    if h < k.tasks@.len() {
        spec_scalar_result(k.tasks@[h as int].tgid)
    } else {
        Err(-1i64)
    }
}

/// The task-id accessor's outcome for task handle `h`.
pub open spec fn spec_pid(k: KernelState, h: usize) -> Result<i32, i64> {
    if h < k.tasks@.len() {
        spec_scalar_result(k.tasks@[h as int].pid)
    } else {
        Err(-1i64)
    }
}

/// The exit-code accessor's outcome for task handle `h`.
pub open spec fn spec_exit_code(k: KernelState, h: usize) -> Result<i32, i64> {
    if h < k.tasks@.len() {
        spec_scalar_result(k.tasks@[h as int].exit_code)
    } else {
        Err(-1i64)
    }
}

/// A link traversal's outcome: the target handle when the link is live and
/// in range, otherwise the null sentinel.
pub open spec fn spec_link_result(link: Option<usize>, range: nat) -> Result<usize, i64> {
    match link {
        Some(t) => if t < range {
            Ok(t)
        } else {
            Err(-1i64)
        },
        None => Err(-1i64),
    }
}

/// The parent-task traversal's outcome for task handle `h`.
pub open spec fn spec_parent(k: KernelState, h: usize) -> Result<usize, i64> {
    if h < k.tasks@.len() {
        spec_link_result(k.tasks@[h as int].parent, k.tasks@.len())
    } else {
        Err(-1i64)
    }
}

/// The group-leader traversal's outcome for task handle `h`.
pub open spec fn spec_group_leader(k: KernelState, h: usize) -> Result<usize, i64> {
    if h < k.tasks@.len() {
        spec_link_result(k.tasks@[h as int].group_leader, k.tasks@.len())
    } else {
        Err(-1i64)
    }
}

/// The signal-block traversal's outcome for task handle `h`.
pub open spec fn spec_signal(k: KernelState, h: usize) -> Result<usize, i64> {
    if h < k.tasks@.len() {
        spec_link_result(k.tasks@[h as int].signal, k.signals@.len())
    } else {
        Err(-1i64)
    }
}

/// The live-counter accessor's outcome for signal handle `h`.
pub open spec fn spec_live_counter(k: KernelState, h: usize) -> Result<i32, i64> {
    if h < k.signals@.len() {
        spec_scalar_result(k.signals@[h as int].live_counter)
    } else {
        Err(-1i64)
    }
}

/// Handle on a signal descriptor.
#[derive(Clone, Copy, PartialEq, Eq, Structural, Debug)]
pub struct Signal {
    pub handle: usize,
}

impl Signal {
    pub fn new(handle: usize) -> (s: Signal)
        ensures
            s.handle == handle,
    {
        Signal { handle }
    }

    /// How many threads of the group are still live; negative sentinel when
    /// the field cannot be read.
    pub fn live_counter(&self, k: &KernelState) -> (r: Result<i32, i64>)
        ensures
            r == spec_live_counter(*k, self.handle),
    {
        if self.handle >= k.signals.len() {
            return Err(-1i64);
        }
        let live_counter = k.signals[self.handle].live_counter;
        if live_counter < 0 {
            return Err(live_counter as i64);
        }
        Ok(live_counter)
    }
}

/// Handle on a task descriptor.
#[derive(Clone, Copy, PartialEq, Eq, Structural, Debug)]
pub struct Task {
    pub handle: usize,
}

impl Task {
    pub fn new(handle: usize) -> (t: Task)
        ensures
            t.handle == handle,
    {
        Task { handle }
    }

    /// The task's exit code; negative sentinel when unreadable.
    pub fn exit_code(&self, k: &KernelState) -> (r: Result<i32, i64>)
        ensures
            r == spec_exit_code(*k, self.handle),
    {
        if self.handle >= k.tasks.len() {
            return Err(-1i64);
        }
        let exit_code = k.tasks[self.handle].exit_code;
        if exit_code < 0 {
            return Err(exit_code as i64);
        }
        Ok(exit_code)
    }

    /// The kernel-internal task id; negative sentinel when unreadable.
    pub fn pid(&self, k: &KernelState) -> (r: Result<i32, i64>)
        ensures
            r == spec_pid(*k, self.handle),
    {
        if self.handle >= k.tasks.len() {
            return Err(-1i64);
        }
        let pid = k.tasks[self.handle].pid;
        if pid < 0 {
            return Err(pid as i64);
        }
        Ok(pid)
    }

    /// The thread-group id, the externally visible process id; negative
    /// sentinel when unreadable.
    pub fn tgid(&self, k: &KernelState) -> (r: Result<i32, i64>)
        ensures
            r == spec_tgid(*k, self.handle),
    {
        if self.handle >= k.tasks.len() {
            return Err(-1i64);
        }
        let tgid = k.tasks[self.handle].tgid;
        if tgid < 0 {
            return Err(tgid as i64);
        }
        Ok(tgid)
    }

    /// The parent task, or the null sentinel.
    pub fn parent(&self, k: &KernelState) -> (r: Result<Task, i64>)
        ensures
            match r {
                Ok(t) => spec_parent(*k, self.handle) == Ok::<usize, i64>(t.handle),
                Err(e) => spec_parent(*k, self.handle) == Err::<usize, i64>(e),
            },
    {
        if self.handle >= k.tasks.len() {
            return Err(-1i64);
        }
        match k.tasks[self.handle].parent {
            Some(t) => if t < k.tasks.len() {
                Ok(Task { handle: t })
            } else {
                Err(-1i64)
            },
            None => Err(-1i64),
        }
    }

    /// The thread-group leader task, or the null sentinel.
    pub fn group_leader(&self, k: &KernelState) -> (r: Result<Task, i64>)
        ensures
            match r {
                Ok(t) => spec_group_leader(*k, self.handle) == Ok::<usize, i64>(t.handle),
                Err(e) => spec_group_leader(*k, self.handle) == Err::<usize, i64>(e),
            },
    {
        if self.handle >= k.tasks.len() {
            return Err(-1i64);
        }
        match k.tasks[self.handle].group_leader {
            Some(t) => if t < k.tasks.len() {
                Ok(Task { handle: t })
            } else {
                Err(-1i64)
            },
            None => Err(-1i64),
        }
    }

    /// The task's signal block, or the null sentinel.
    pub fn signal(&self, k: &KernelState) -> (r: Result<Signal, i64>)
        ensures
            match r {
                Ok(s) => spec_signal(*k, self.handle) == Ok::<usize, i64>(s.handle),
                Err(e) => spec_signal(*k, self.handle) == Err::<usize, i64>(e),
            },
    {
        if self.handle >= k.tasks.len() {
            return Err(-1i64);
        }
        match k.tasks[self.handle].signal {
            Some(s) => if s < k.signals.len() {
                Ok(Signal::new(s))
            } else {
                Err(-1i64)
            },
            None => Err(-1i64),
        }
    }
}

} // verus!
