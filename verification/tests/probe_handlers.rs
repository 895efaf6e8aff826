use process_monitor::accessors::KernelState;
use process_monitor::accessors::Signal;
use process_monitor::accessors::SignalRecord;
use process_monitor::accessors::Task;
use process_monitor::accessors::TaskRecord;
use process_monitor::channel::OutputChannel;
use process_monitor::events::ExitEvent;
use process_monitor::events::ForkEvent;
use process_monitor::events::ProcessEventVariant;
use process_monitor::handlers::sched_process_exit;
use process_monitor::handlers::security_task_alloc;
use process_monitor::handlers::try_sched_process_exit;
use process_monitor::handlers::try_security_task_alloc;
use process_monitor::handlers::ProbeContext;
use process_monitor::handlers::RawTracePointContext;
use process_monitor::staging::EventStaging;

fn task(pid: i32, tgid: i32, exit_code: i32) -> TaskRecord {
    TaskRecord {
        pid,
        tgid,
        exit_code,
        parent: None,
        group_leader: None,
        signal: None,
    }
}

#[test]
fn fork_hook_emits_one_fork_event() {
    // The allocation hook fires for a task with thread-group id 42: one
    // fork event appears on the channel, with the thread-group id standing
    // in for both the subject pid and the reported parent.
    let kernel = KernelState {
        tasks: vec![task(42, 42, 0)],
        signals: vec![],
    };
    let mut staging = EventStaging::new();
    let mut out = OutputChannel::new();
    let ctx = ProbeContext { arg0: Some(0) };
    let rc = security_task_alloc(&ctx, &kernel, &mut staging, &mut out);
    assert_eq!(rc, 0);
    assert_eq!(staging.nesting_depth, 0);
    assert_eq!(out.pending.len(), 1);
    let event = out.pending[0];
    assert_eq!(event.pid, 42);
    assert_eq!(event.payload.event_type, 0);
    assert_eq!(
        event.payload.payload,
        ProcessEventVariant::Fork(ForkEvent { ppid: 42 })
    );
}

#[test]
fn fork_hook_without_argument_aborts() {
    let kernel = KernelState { tasks: vec![], signals: vec![] };
    let mut staging = EventStaging::new();
    let mut out = OutputChannel::new();
    let ctx = ProbeContext { arg0: None };
    let rc = security_task_alloc(&ctx, &kernel, &mut staging, &mut out);
    assert_eq!(rc, 1);
    assert_eq!(out.pending.len(), 0);
}

#[test]
fn fork_hook_with_unreadable_tgid_aborts() {
    let kernel = KernelState {
        tasks: vec![task(9, -22, 0)],
        signals: vec![],
    };
    let mut staging = EventStaging::new();
    let mut out = OutputChannel::new();
    let ctx = ProbeContext { arg0: Some(0) };
    let r = try_security_task_alloc(&ctx, &kernel, &mut staging, &mut out);
    assert_eq!(r, Err(-22));
    assert_eq!(out.pending.len(), 0);
    assert_eq!(staging.nesting_depth, 0);
}

#[test]
fn exit_hook_emits_exit_event_with_truncated_code() {
    // The exit hook fires for thread-group id 7 with exit code 256: one
    // exit event appears, the code carried in the reporting width.
    let kernel = KernelState {
        tasks: vec![task(7, 7, 256)],
        signals: vec![],
    };
    let mut staging = EventStaging::new();
    let mut out = OutputChannel::new();
    let ctx = RawTracePointContext { task: 0 };
    let r = try_sched_process_exit(&ctx, &kernel, &mut staging, &mut out);
    assert!(r.is_ok());
    assert_eq!(out.pending.len(), 1);
    let event = out.pending[0];
    assert_eq!(event.pid, 7);
    assert_eq!(event.payload.event_type, 1);
    assert_eq!(
        event.payload.payload,
        ProcessEventVariant::Exit(ExitEvent { exit_code: 256 })
    );
}

#[test]
fn exit_hook_with_negative_exit_code_emits_nothing() {
    // The exit-code accessor reports the inaccessible-field sentinel: no
    // event is emitted and no channel write is attempted.
    let kernel = KernelState {
        tasks: vec![task(7, 7, -1)],
        signals: vec![],
    };
    let mut staging = EventStaging::new();
    let mut out = OutputChannel::new();
    let ctx = RawTracePointContext { task: 0 };
    let r = try_sched_process_exit(&ctx, &kernel, &mut staging, &mut out);
    assert_eq!(r, Err(-1));
    assert_eq!(out.pending.len(), 0);
    assert_eq!(staging.nesting_depth, 0);
}

#[test]
fn exit_hook_entry_point_swallows_the_error() {
    let kernel = KernelState { tasks: vec![], signals: vec![] };
    let mut staging = EventStaging::new();
    let mut out = OutputChannel::new();
    let ctx = RawTracePointContext { task: 5 };
    sched_process_exit(&ctx, &kernel, &mut staging, &mut out);
    assert_eq!(out.pending.len(), 0);
    assert_eq!(staging.nesting_depth, 0);
}

#[test]
fn handler_with_exhausted_staging_drops_the_event() {
    let kernel = KernelState {
        tasks: vec![task(1, 1, 0)],
        signals: vec![],
    };
    let mut staging = EventStaging::new();
    let mut out = OutputChannel::new();
    let h0 = staging.begin().unwrap();
    let h1 = staging.begin().unwrap();
    let h2 = staging.begin().unwrap();
    let ctx = ProbeContext { arg0: Some(0) };
    let rc = security_task_alloc(&ctx, &kernel, &mut staging, &mut out);
    assert_eq!(rc, 1);
    assert_eq!(out.pending.len(), 0);
    assert_eq!(staging.nesting_depth, 3);
    staging.end(h2);
    staging.end(h1);
    staging.end(h0);
}

#[test]
fn accessor_chain_walks_parent_and_signal() {
    let kernel = KernelState {
        tasks: vec![
            TaskRecord {
                pid: 1,
                tgid: 1,
                exit_code: 0,
                parent: None,
                group_leader: Some(0),
                signal: Some(0),
            },
            TaskRecord {
                pid: 2,
                tgid: 2,
                exit_code: 0,
                parent: Some(0),
                group_leader: Some(1),
                signal: None,
            },
        ],
        signals: vec![SignalRecord { live_counter: 3 }],
    };
    let child = Task::new(1);
    assert_eq!(child.pid(&kernel), Ok(2));
    assert_eq!(child.tgid(&kernel), Ok(2));
    let parent = child.parent(&kernel).expect("live parent link");
    assert_eq!(parent.pid(&kernel), Ok(1));
    let leader = parent.group_leader(&kernel).expect("live leader link");
    assert_eq!(leader.pid(&kernel), Ok(1));
    let sig = parent.signal(&kernel).expect("live signal link");
    assert_eq!(sig.live_counter(&kernel), Ok(3));
    assert!(child.signal(&kernel).is_err(), "null signal pointer is refused");
    assert!(parent.parent(&kernel).is_err(), "null parent pointer is refused");
}

#[test]
fn accessor_refuses_stale_handle_and_negative_counter() {
    let kernel = KernelState {
        tasks: vec![task(1, 1, 0)],
        signals: vec![SignalRecord { live_counter: -9 }],
    };
    let stale = Task::new(3);
    assert_eq!(stale.tgid(&kernel), Err(-1));
    assert_eq!(stale.exit_code(&kernel), Err(-1));
    let sig = Signal::new(0);
    assert_eq!(sig.live_counter(&kernel), Err(-9));
}
