use process_monitor::events::decode_event;
use process_monitor::events::encode_event;
use process_monitor::events::Buffer;
use process_monitor::events::EventData;
use process_monitor::events::BufferIndex;
use process_monitor::events::DecodeError;
use process_monitor::events::ExecEvent;
use process_monitor::events::ExitEvent;
use process_monitor::events::ForkEvent;
use process_monitor::events::ProcessEvent;
use process_monitor::events::ProcessEventPayload;
use process_monitor::events::ProcessEventVariant;
use process_monitor::events::BUFFER_CAPACITY;

#[test]
fn append_then_read_returns_same_bytes() {
    let mut buf = Buffer::new();
    let bytes: Vec<u8> = b"/usr/bin/sh".to_vec();
    let idx = buf.append(&bytes);
    assert_eq!(idx.start, 0);
    assert_eq!(idx.len, 11);
    let back = buf.read(&idx).expect("index produced by append must read back");
    assert_eq!(back, bytes);
}

#[test]
fn appends_are_laid_out_consecutively() {
    let mut buf = Buffer::new();
    let a = buf.append(&b"alpha".to_vec());
    let b = buf.append(&b"beta".to_vec());
    assert_eq!(a.start, 0);
    assert_eq!(a.len, 5);
    assert_eq!(b.start, 5);
    assert_eq!(b.len, 4);
    assert_eq!(buf.read(&a).unwrap(), b"alpha".to_vec());
    assert_eq!(buf.read(&b).unwrap(), b"beta".to_vec());
}

#[test]
fn oversized_append_is_truncated_to_capacity() {
    let mut buf = Buffer::new();
    let filler = vec![7u8; BUFFER_CAPACITY - 3];
    let f = buf.append(&filler);
    assert_eq!(f.len as usize, BUFFER_CAPACITY - 3);
    let long = vec![9u8; 10];
    let idx = buf.append(&long);
    assert_eq!(idx.start as usize, BUFFER_CAPACITY - 3);
    assert_eq!(idx.len, 3);
    assert!(idx.start as usize + idx.len as usize <= BUFFER_CAPACITY);
    let back = buf.read(&idx).unwrap();
    assert_eq!(back, vec![9u8; 3]);
}

#[test]
fn append_to_full_buffer_yields_empty_index() {
    let mut buf = Buffer::new();
    let filler = vec![1u8; BUFFER_CAPACITY];
    let f = buf.append(&filler);
    assert_eq!(f.len as usize, BUFFER_CAPACITY);
    let idx = buf.append(&b"more".to_vec());
    assert_eq!(idx.len, 0);
    assert!(idx.start as usize + idx.len as usize <= BUFFER_CAPACITY);
}

#[test]
fn out_of_bounds_index_is_refused() {
    let mut buf = Buffer::new();
    buf.append(&b"abc".to_vec());
    let bad = BufferIndex { start: 2, len: 2 };
    assert!(buf.read(&bad).is_none());
    let far = BufferIndex { start: 60000, len: 60000 };
    assert!(buf.read(&far).is_none());
}

#[test]
fn payload_round_trip_fork() {
    let v = ProcessEventVariant::Fork(ForkEvent { ppid: 42 });
    let p = ProcessEventPayload::encode(v);
    assert_eq!(p.event_type, 0);
    assert_eq!(p.decode(), Ok(v));
}

#[test]
fn payload_round_trip_exit() {
    let v = ProcessEventVariant::Exit(ExitEvent { exit_code: 256 });
    let p = ProcessEventPayload::encode(v);
    assert_eq!(p.event_type, 1);
    assert_eq!(p.decode(), Ok(v));
}

#[test]
fn payload_round_trip_exec_with_buffer_strings() {
    let mut buf = Buffer::new();
    let filename = buf.append(&b"/usr/bin/env".to_vec());
    let argv = buf.append(&b"env\0VAR=1\0".to_vec());
    let v = ProcessEventVariant::Exec(ExecEvent { filename, args: 2, argv });
    let p = ProcessEventPayload::encode(v);
    assert_eq!(p.event_type, 2);
    let decoded = p.decode().unwrap();
    match decoded {
        ProcessEventVariant::Exec(e) => {
            assert_eq!(e.args, 2);
            assert_eq!(buf.read(&e.filename).unwrap(), b"/usr/bin/env".to_vec());
            assert_eq!(buf.read(&e.argv).unwrap(), b"env\0VAR=1\0".to_vec());
        }
        other => panic!("decoded the wrong member: {:?}", other),
    }
}

#[test]
fn mismatched_discriminant_is_refused() {
    let p = ProcessEventPayload {
        event_type: 1,
        payload: ProcessEventVariant::Fork(ForkEvent { ppid: 1 }),
    };
    assert_eq!(p.decode(), Err(DecodeError::TagMismatch));
}

#[test]
fn exec_data_round_trips_through_the_buffer() {
    let mut buf = Buffer::new();
    let data = EventData::Exec {
        filename: b"/usr/bin/cat".to_vec(),
        args: 2,
        argv: b"cat\0file\0".to_vec(),
    };
    let wire = encode_event(&data, &mut buf);
    let back = decode_event(&wire, &buf).expect("encoded body must decode");
    assert_eq!(back, data);
}

#[test]
fn cgroup_data_round_trips_with_truncation() {
    let mut buf = Buffer::new();
    let filler = vec![0u8; BUFFER_CAPACITY - 4];
    buf.append(&filler);
    let data = EventData::CgroupMkdir {
        path: b"/sys/fs/cgroup/x".to_vec(),
        id: 17,
    };
    let wire = encode_event(&data, &mut buf);
    let back = decode_event(&wire, &buf).expect("encoded body must decode");
    assert_eq!(
        back,
        EventData::CgroupMkdir { path: b"/sys".to_vec(), id: 17 },
        "only the prefix that fit is preserved"
    );
}

#[test]
fn scalar_data_round_trips_without_touching_the_buffer() {
    let mut buf = Buffer::new();
    let data = EventData::ChangeParent { ppid: 12 };
    let wire = encode_event(&data, &mut buf);
    assert_eq!(buf.len, 0);
    assert_eq!(decode_event(&wire, &buf), Some(data));
    let attach = EventData::CgroupAttach {
        pid: 3,
        path: b"/sys/fs/cgroup/y".to_vec(),
        id: 9,
    };
    let wire = encode_event(&attach, &mut buf);
    assert_eq!(decode_event(&wire, &buf), Some(attach));
}

#[test]
fn decode_against_foreign_buffer_is_refused() {
    let mut buf = Buffer::new();
    let data = EventData::CgroupRmdir { path: b"/sys/fs/cgroup/z".to_vec(), id: 1 };
    let wire = encode_event(&data, &mut buf);
    let empty = Buffer::new();
    assert_eq!(decode_event(&wire, &empty), None, "bounds are re-validated on decode");
}

#[test]
fn zeroed_event_is_all_zero() {
    let e = ProcessEvent::zeroed();
    assert_eq!(e.timestamp, 0);
    assert_eq!(e.pid, 0);
    assert_eq!(e.payload.event_type, 0);
    assert_eq!(
        e.payload.payload,
        ProcessEventVariant::Fork(ForkEvent { ppid: 0 })
    );
}
