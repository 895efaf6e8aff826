use process_monitor::channel::OutputChannel;
use process_monitor::channel::CHANNEL_CAPACITY;
use process_monitor::events::ExitEvent;
use process_monitor::events::ForkEvent;
use process_monitor::events::ProcessEvent;
use process_monitor::events::ProcessEventPayload;
use process_monitor::events::ProcessEventVariant;
use process_monitor::staging::EventStaging;
use process_monitor::staging::MAX_NESTING;

fn fork_record(pid: i32) -> ProcessEvent {
    ProcessEvent {
        timestamp: 0,
        pid,
        payload: ProcessEventPayload::encode(ProcessEventVariant::Fork(ForkEvent { ppid: pid })),
    }
}

fn exit_record(pid: i32, exit_code: u32) -> ProcessEvent {
    ProcessEvent {
        timestamp: 0,
        pid,
        payload: ProcessEventPayload::encode(ProcessEventVariant::Exit(ExitEvent { exit_code })),
    }
}

#[test]
fn begin_commit_end_emits_one_record() {
    let mut staging = EventStaging::new();
    let mut out = OutputChannel::new();
    let handle = staging.begin().expect("first begin must be granted");
    assert_eq!(handle.level, 0);
    staging.commit(&handle, fork_record(42), &mut out);
    staging.end(handle);
    assert_eq!(staging.nesting_depth, 0);
    assert_eq!(out.pending.len(), 1);
    assert_eq!(out.pending[0], fork_record(42));
}

#[test]
fn nested_invocations_beyond_bound_are_dropped() {
    // Three nested invocations fit; the fourth is refused and alters no
    // other level's slot, and the first three still emit correctly.
    let mut staging = EventStaging::new();
    let mut out = OutputChannel::new();

    let h0 = staging.begin().expect("level 0 granted");
    let h1 = staging.begin().expect("level 1 granted");
    let h2 = staging.begin().expect("level 2 granted");
    assert_eq!(staging.nesting_depth as usize, MAX_NESTING);

    let slots_before = staging.slots.clone();
    assert!(staging.begin().is_err(), "fourth nested begin must be dropped");
    assert_eq!(staging.nesting_depth as usize, MAX_NESTING);
    for level in 0..MAX_NESTING {
        assert_eq!(staging.slots[level], slots_before[level]);
    }

    staging.commit(&h2, exit_record(3, 0), &mut out);
    staging.end(h2);
    staging.commit(&h1, exit_record(2, 0), &mut out);
    staging.end(h1);
    staging.commit(&h0, fork_record(1), &mut out);
    staging.end(h0);

    assert_eq!(staging.nesting_depth, 0);
    assert_eq!(out.pending.len(), 3);
    assert_eq!(out.pending[0], exit_record(3, 0));
    assert_eq!(out.pending[1], exit_record(2, 0));
    assert_eq!(out.pending[2], fork_record(1));
}

#[test]
fn end_never_drives_the_counter_negative() {
    let mut staging = EventStaging::new();
    let handle = staging.begin().unwrap();
    staging.end(handle);
    assert_eq!(staging.nesting_depth, 0);
    let again = staging.begin().unwrap();
    staging.end(again);
    assert_eq!(staging.nesting_depth, 0);
}

#[test]
fn commit_writes_only_the_granted_slot() {
    let mut staging = EventStaging::new();
    let mut out = OutputChannel::new();
    let h0 = staging.begin().unwrap();
    let h1 = staging.begin().unwrap();
    staging.commit(&h0, fork_record(5), &mut out);
    staging.commit(&h1, exit_record(6, 1), &mut out);
    assert_eq!(staging.slots[0], fork_record(5));
    assert_eq!(staging.slots[1], exit_record(6, 1));
    staging.end(h1);
    staging.end(h0);
}

#[test]
fn saturated_channel_drops_records() {
    let mut out = OutputChannel::new();
    for i in 0..CHANNEL_CAPACITY {
        out.emit(&fork_record(i as i32));
    }
    assert_eq!(out.pending.len(), CHANNEL_CAPACITY);
    out.emit(&fork_record(999_999));
    assert_eq!(out.pending.len(), CHANNEL_CAPACITY, "a full channel drops the record");
    assert_eq!(out.pending[CHANNEL_CAPACITY - 1], fork_record((CHANNEL_CAPACITY - 1) as i32));
}

#[test]
fn detached_channel_drops_records() {
    let mut out = OutputChannel::new();
    out.detach();
    out.emit(&fork_record(1));
    assert_eq!(out.pending.len(), 0);
    out.attach();
    out.emit(&fork_record(1));
    assert_eq!(out.pending.len(), 1);
}

#[test]
fn drain_hands_records_over_oldest_first() {
    let mut out = OutputChannel::new();
    out.emit(&fork_record(1));
    out.emit(&exit_record(1, 0));
    let taken = out.drain();
    assert_eq!(taken.len(), 2);
    assert_eq!(taken[0], fork_record(1));
    assert_eq!(taken[1], exit_record(1, 0));
    assert_eq!(out.pending.len(), 0);
}
