//! Wire event model: the fixed-size, tagged event record that crosses the
//! kernel/user boundary, and the bounded auxiliary byte buffer that carries
//! variable-length string data (paths, argument vectors) beside it.

use vstd::prelude::*;

verus! {

/// Capacity of the auxiliary string buffer carried beside an event, in bytes.
pub const BUFFER_CAPACITY: usize = 16384;

/// Offset/length pair into the auxiliary byte buffer. `len == 0` denotes an
/// absent or fully truncated string, never an error.
#[derive(Clone, Copy, PartialEq, Eq, Structural, Debug)]
pub struct BufferIndex {
    pub start: u16,
    pub len: u16,
}

impl BufferIndex {
    /// The denoted slice stays inside the buffer capacity.
    pub open spec fn in_bounds(self) -> bool {
        self.start + self.len <= BUFFER_CAPACITY
    }
}

/// Number of bytes actually stored when `n` bytes are appended to a buffer
/// already holding `blen` bytes: the source is truncated to what fits.
pub open spec fn stored_len(blen: int, n: int) -> int {
    if n <= BUFFER_CAPACITY - blen {
        n
    } else {
        BUFFER_CAPACITY - blen
    }
}

/// Buffer contents after appending `bytes` to contents `b`.
pub open spec fn buffer_after_append(b: Seq<u8>, bytes: Seq<u8>) -> Seq<u8> {
    b + bytes.take(stored_len(b.len() as int, bytes.len() as int))
}

/// Index produced by appending `bytes` to contents `b`.
pub open spec fn index_after_append(b: Seq<u8>, bytes: Seq<u8>) -> BufferIndex {
    BufferIndex {
        start: b.len() as u16,
        len: stored_len(b.len() as int, bytes.len() as int) as u16,
    }
}

/// What reading `idx` out of buffer contents `b` yields: the denoted slice,
/// with the bounds re-validated against the actual length first.
pub open spec fn read_result(b: Seq<u8>, idx: BufferIndex) -> Option<Seq<u8>> {
    if idx.start + idx.len <= b.len() {
        Some(b.subrange(idx.start as int, idx.start + idx.len))
    } else {
        None
    }
}

/// Variable-length byte region for strings, bounded by `BUFFER_CAPACITY`.
#[derive(Clone, Debug)]
pub struct Buffer {
    pub len: usize,
    pub buffer: Vec<u8>,
}

impl Buffer {
    /// `len` mirrors the stored byte count, which never exceeds capacity.
    pub open spec fn wf(self) -> bool {
        &&& self.len == self.buffer@.len()
        &&& self.len <= BUFFER_CAPACITY
    }

    pub fn new() -> (b: Buffer)
        ensures
            b.wf(),
            b.buffer@ == Seq::<u8>::empty(),
    {
        Buffer { len: 0, buffer: Vec::new() }
    }

    /// Appends `bytes`, truncating to the remaining capacity, and returns the
    /// index of the stored prefix. The index is always in bounds, even when
    /// the source string is longer than the remaining capacity.
    pub fn append(&mut self, bytes: &Vec<u8>) -> (idx: BufferIndex)
        requires
            old(self).wf(),
        ensures
            final(self).wf(),
            idx == index_after_append(old(self).buffer@, bytes@),
            final(self).buffer@ == buffer_after_append(old(self).buffer@, bytes@),
            idx.in_bounds(),
    {
        let avail = BUFFER_CAPACITY - self.len;
        let take: usize = if bytes.len() <= avail {
            bytes.len()
        } else {
            avail
        };
        let start: u16 = self.len as u16;
        let ghost orig = self.buffer@;
        let mut i: usize = 0;
        while i < take
            invariant
                i <= take,
                take <= bytes@.len(),
                orig.len() + take <= BUFFER_CAPACITY,
                self.buffer@ == orig + bytes@.take(i as int),
                self.len == orig.len(),
            decreases take - i,
        {
            self.buffer.push(bytes[i]);
            assert(self.buffer@ == orig + bytes@.take(i + 1)) by {
                assert(orig + bytes@.take(i as int) + seq![bytes@[i as int]] =~= orig + bytes@.take(
                    i + 1,
                ));
            }
            i += 1;
        }
        self.len = self.len + take;
        BufferIndex { start, len: take as u16 }
    }

    /// Reads the bytes an index denotes, re-validating its bounds against the
    /// stored length (defense against a corrupted or adversarial producer).
    pub fn read(&self, idx: &BufferIndex) -> (r: Option<Vec<u8>>)
        requires
            self.wf(),
        ensures
            match r {
                Some(v) => read_result(self.buffer@, *idx) == Some(v@),
                None => read_result(self.buffer@, *idx) is None,
            },
    {
        let start = idx.start as usize;
        let len = idx.len as usize;
        if len > self.len || start > self.len - len {
            return None;
        }
        let mut out: Vec<u8> = Vec::new();
        let mut i: usize = 0;
        while i < len
            invariant
                i <= len,
                self.wf(),
                start + len <= self.len,
                out@ == self.buffer@.subrange(start as int, start + i),
            decreases len - i,
        {
            out.push(self.buffer[start + i]);
            assert(out@ =~= self.buffer@.subrange(start as int, start + i + 1));
            i += 1;
        }
        Some(out)
    }
}

/// Law: a byte string appended to the buffer is read back, through the index
/// the append produced, as exactly the stored (possibly truncated) prefix.
pub proof fn lemma_buffer_round_trip(b: Seq<u8>, bytes: Seq<u8>)
    requires
        b.len() <= BUFFER_CAPACITY,
    ensures
        read_result(buffer_after_append(b, bytes), index_after_append(b, bytes)) == Some(
            bytes.take(stored_len(b.len() as int, bytes.len() as int)),
        ),
{
    let s = stored_len(b.len() as int, bytes.len() as int);
    let after = buffer_after_append(b, bytes);
    let idx = index_after_append(b, bytes);
    assert(idx.start == b.len());
    assert(idx.len == s);
    assert(after.subrange(b.len() as int, b.len() + s) =~= bytes.take(s));
}

/// Report of a fork: the child's parent process id.
#[derive(Clone, Copy, PartialEq, Eq, Structural, Debug)]
pub struct ForkEvent {
    pub ppid: i32,
}

/// Report of an exec: image path and argument vector live in the buffer.
#[derive(Clone, Copy, PartialEq, Eq, Structural, Debug)]
pub struct ExecEvent {
    pub filename: BufferIndex,
    pub args: i32,
    pub argv: BufferIndex,
}

/// Report of a process exit.
#[derive(Clone, Copy, PartialEq, Eq, Structural, Debug)]
pub struct ExitEvent {
    pub exit_code: u32,
}

/// Report of a process being re-parented.
#[derive(Clone, Copy, PartialEq, Eq, Structural, Debug)]
pub struct ChangeParentEvent {
    pub ppid: i32,
}

/// Report of a cgroup being created or removed.
#[derive(Clone, Copy, PartialEq, Eq, Structural, Debug)]
pub struct CgroupEvent {
    pub path: BufferIndex,
    pub id: u64,
}

/// Report of a process attaching to a cgroup.
#[derive(Clone, Copy, PartialEq, Eq, Structural, Debug)]
pub struct CgroupAttachEvent {
    pub pid: i32,
    pub path: BufferIndex,
    pub id: u64,
}

/// The event body: a closed sum type standing for the wire format's tagged
/// union. Readers select the member through the discriminant beside it,
/// never directly.
#[derive(Clone, Copy, PartialEq, Eq, Structural, Debug)]
pub enum ProcessEventVariant {
    Fork(ForkEvent),
    Exit(ExitEvent),
    Exec(ExecEvent),
    ChangeParent(ChangeParentEvent),
    CgroupMkdir(CgroupEvent),
    CgroupRmdir(CgroupEvent),
    CgroupAttach(CgroupAttachEvent),
}

/// Wire discriminant of each variant.
pub open spec fn spec_event_type(v: ProcessEventVariant) -> u32 {
    match v {
        ProcessEventVariant::Fork(_) => 0,
        ProcessEventVariant::Exit(_) => 1,
        ProcessEventVariant::Exec(_) => 2,
        ProcessEventVariant::ChangeParent(_) => 3,
        ProcessEventVariant::CgroupMkdir(_) => 4,
        ProcessEventVariant::CgroupRmdir(_) => 5,
        ProcessEventVariant::CgroupAttach(_) => 6,
    }
}

impl ProcessEventVariant {
    pub fn event_type(&self) -> (t: u32)
        ensures
            t == spec_event_type(*self),
    {
        match self {
            ProcessEventVariant::Fork(_) => 0,
            ProcessEventVariant::Exit(_) => 1,
            ProcessEventVariant::Exec(_) => 2,
            ProcessEventVariant::ChangeParent(_) => 3,
            ProcessEventVariant::CgroupMkdir(_) => 4,
            ProcessEventVariant::CgroupRmdir(_) => 5,
            ProcessEventVariant::CgroupAttach(_) => 6,
        }
    }
}

/// Decoding failure: the discriminant does not select the live member.
#[derive(Clone, Copy, PartialEq, Eq, Structural, Debug)]
pub enum DecodeError {
    TagMismatch,
}

/// Discriminant plus event body. Well-formed payloads keep the two in step;
/// decoding re-checks that before handing the body out.
#[derive(Clone, Copy, PartialEq, Eq, Structural, Debug)]
pub struct ProcessEventPayload {
    pub event_type: u32,
    pub payload: ProcessEventVariant,
}

/// The payload an encoder produces for a given body.
pub open spec fn spec_encode_payload(v: ProcessEventVariant) -> ProcessEventPayload {
    ProcessEventPayload { event_type: spec_event_type(v), payload: v }
}

/// What decoding a payload yields: the body, provided the discriminant
/// agrees with it.
pub open spec fn spec_decode_payload(p: ProcessEventPayload) -> Result<
    ProcessEventVariant,
    DecodeError,
> {
    if p.event_type == spec_event_type(p.payload) {
        Ok(p.payload)
    } else {
        Err(DecodeError::TagMismatch)
    }
}

impl ProcessEventPayload {
    /// The discriminant agrees with the live variant.
    pub open spec fn wf(self) -> bool {
        self.event_type == spec_event_type(self.payload)
    }

    /// Builds the wire payload for a body, setting the discriminant from it.
    pub fn encode(v: ProcessEventVariant) -> (p: Self)
        ensures
            p == spec_encode_payload(v),
            p.wf(),
    {
        let event_type = v.event_type();
        ProcessEventPayload { event_type, payload: v }
    }

    /// Selects the body through the discriminant, refusing a payload whose
    /// discriminant does not match the live member.
    pub fn decode(&self) -> (r: Result<ProcessEventVariant, DecodeError>)
        ensures
            r == spec_decode_payload(*self),
    {
        let tag = self.payload.event_type();
        if self.event_type == tag {
            Ok(self.payload)
        } else {
            Err(DecodeError::TagMismatch)
        }
    }
}

/// Law: decoding a payload by its discriminant returns exactly the body it
/// was encoded from.
pub proof fn lemma_payload_round_trip(v: ProcessEventVariant)
    ensures
        spec_decode_payload(spec_encode_payload(v)) == Ok::<_, DecodeError>(v),
{
}

/// One event body with its strings in full: what the producer observed,
/// before the strings move into the auxiliary buffer, and what the
/// consumer reassembles from it.
#[derive(Clone, PartialEq, Eq, Debug)]
pub enum EventData {
    Fork { ppid: i32 },
    Exit { exit_code: u32 },
    Exec { filename: Vec<u8>, args: i32, argv: Vec<u8> },
    ChangeParent { ppid: i32 },
    CgroupMkdir { path: Vec<u8>, id: u64 },
    CgroupRmdir { path: Vec<u8>, id: u64 },
    CgroupAttach { pid: i32, path: Vec<u8>, id: u64 },
}

/// An event body with its strings as mathematical byte sequences.
pub enum EventDataView {
    Fork { ppid: i32 },
    Exit { exit_code: u32 },
    Exec { filename: Seq<u8>, args: i32, argv: Seq<u8> },
    ChangeParent { ppid: i32 },
    CgroupMkdir { path: Seq<u8>, id: u64 },
    CgroupRmdir { path: Seq<u8>, id: u64 },
    CgroupAttach { pid: i32, path: Seq<u8>, id: u64 },
}

/// The abstract value of an event body.
pub open spec fn data_view(d: EventData) -> EventDataView {
    match d {
        EventData::Fork { ppid } => EventDataView::Fork { ppid },
        EventData::Exit { exit_code } => EventDataView::Exit { exit_code },
        EventData::Exec { filename, args, argv } => EventDataView::Exec {
            filename: filename@,
            args,
            argv: argv@,
        },
        EventData::ChangeParent { ppid } => EventDataView::ChangeParent { ppid },
        EventData::CgroupMkdir { path, id } => EventDataView::CgroupMkdir { path: path@, id },
        EventData::CgroupRmdir { path, id } => EventDataView::CgroupRmdir { path: path@, id },
        EventData::CgroupAttach { pid, path, id } => EventDataView::CgroupAttach {
            pid,
            path: path@,
            id,
        },
    }
}

/// Encoding an event body against buffer contents `b`: each string moves
/// into the buffer, truncated to what fits, and the wire body carries the
/// indices the appends produced.
pub open spec fn spec_encode_data(d: EventDataView, b: Seq<u8>) -> (ProcessEventVariant, Seq<u8>) {
    match d {
        EventDataView::Fork { ppid } => (ProcessEventVariant::Fork(ForkEvent { ppid }), b),
        EventDataView::Exit { exit_code } => (
            ProcessEventVariant::Exit(ExitEvent { exit_code }),
            b,
        ),
        EventDataView::Exec { filename, args, argv } => {
            let fi = index_after_append(b, filename);
            let b1 = buffer_after_append(b, filename);
            let ai = index_after_append(b1, argv);
            let b2 = buffer_after_append(b1, argv);
            (ProcessEventVariant::Exec(ExecEvent { filename: fi, args, argv: ai }), b2)
        },
        EventDataView::ChangeParent { ppid } => (
            ProcessEventVariant::ChangeParent(ChangeParentEvent { ppid }),
            b,
        ),
        EventDataView::CgroupMkdir { path, id } => (
            ProcessEventVariant::CgroupMkdir(
                CgroupEvent { path: index_after_append(b, path), id },
            ),
            buffer_after_append(b, path),
        ),
        EventDataView::CgroupRmdir { path, id } => (
            ProcessEventVariant::CgroupRmdir(
                CgroupEvent { path: index_after_append(b, path), id },
            ),
            buffer_after_append(b, path),
        ),
        EventDataView::CgroupAttach { pid, path, id } => (
            ProcessEventVariant::CgroupAttach(
                CgroupAttachEvent { pid, path: index_after_append(b, path), id },
            ),
            buffer_after_append(b, path),
        ),
    }
}

/// Decoding a wire body against buffer contents `b`: every index is read
/// back with its bounds re-validated; a body whose index falls outside the
/// buffer decodes to nothing.
pub open spec fn spec_decode_data(v: ProcessEventVariant, b: Seq<u8>) -> Option<EventDataView> {
    match v {
        ProcessEventVariant::Fork(f) => Some(EventDataView::Fork { ppid: f.ppid }),
        ProcessEventVariant::Exit(e) => Some(EventDataView::Exit { exit_code: e.exit_code }),
        ProcessEventVariant::Exec(e) => match (read_result(b, e.filename), read_result(
            b,
            e.argv,
        )) {
            (Some(filename), Some(argv)) => Some(
                EventDataView::Exec { filename, args: e.args, argv },
            ),
            _ => None,
        },
        ProcessEventVariant::ChangeParent(c) => Some(EventDataView::ChangeParent { ppid: c.ppid }),
        ProcessEventVariant::CgroupMkdir(c) => match read_result(b, c.path) {
            Some(path) => Some(EventDataView::CgroupMkdir { path, id: c.id }),
            None => None,
        },
        ProcessEventVariant::CgroupRmdir(c) => match read_result(b, c.path) {
            Some(path) => Some(EventDataView::CgroupRmdir { path, id: c.id }),
            None => None,
        },
        ProcessEventVariant::CgroupAttach(c) => match read_result(b, c.path) {
            Some(path) => Some(EventDataView::CgroupAttach { pid: c.pid, path, id: c.id }),
            None => None,
        },
    }
}

/// An event body with each string reduced to the prefix that fits a buffer
/// already holding `blen` bytes: what encoding at that point preserves.
pub open spec fn spec_truncated_data(d: EventDataView, blen: int) -> EventDataView {
    match d {
        EventDataView::Exec { filename, args, argv } => {
            let f2 = filename.take(stored_len(blen, filename.len() as int));
            let a2 = argv.take(stored_len(blen + f2.len(), argv.len() as int));
            EventDataView::Exec { filename: f2, args, argv: a2 }
        },
        EventDataView::CgroupMkdir { path, id } => EventDataView::CgroupMkdir {
            path: path.take(stored_len(blen, path.len() as int)),
            id,
        },
        EventDataView::CgroupRmdir { path, id } => EventDataView::CgroupRmdir {
            path: path.take(stored_len(blen, path.len() as int)),
            id,
        },
        EventDataView::CgroupAttach { pid, path, id } => EventDataView::CgroupAttach {
            pid,
            path: path.take(stored_len(blen, path.len() as int)),
            id,
        },
        _ => d,
    }
}

/// An index inside `b` reads the same after `b` grows at its end.
proof fn lemma_read_stable_under_append(b: Seq<u8>, idx: BufferIndex, ext: Seq<u8>)
    requires
        idx.start + idx.len <= b.len(),
    ensures
        read_result(b + ext, idx) == read_result(b, idx),
{
    assert((b + ext).subrange(idx.start as int, idx.start + idx.len) =~= b.subrange(
        idx.start as int,
        idx.start + idx.len,
    ));
}

/// Law: decoding an encoded event body, against the buffer contents the
/// encoding produced, yields the original scalar fields and, for each
/// string, the stored (possibly truncated) prefix.
pub proof fn lemma_event_round_trip(d: EventDataView, b: Seq<u8>)
    requires
        b.len() <= BUFFER_CAPACITY,
    ensures
        spec_decode_data(spec_encode_data(d, b).0, spec_encode_data(d, b).1) == Some(
            spec_truncated_data(d, b.len() as int),
        ),
{
    match d {
        EventDataView::Exec { filename, args, argv } => {
            let fi = index_after_append(b, filename);
            let b1 = buffer_after_append(b, filename);
            let ai = index_after_append(b1, argv);
            let b2 = buffer_after_append(b1, argv);
            lemma_buffer_round_trip(b, filename);
            lemma_buffer_round_trip(b1, argv);
            lemma_read_stable_under_append(
                b1,
                fi,
                argv.take(stored_len(b1.len() as int, argv.len() as int)),
            );
            assert(b2 == b1 + argv.take(stored_len(b1.len() as int, argv.len() as int)));
        },
        EventDataView::CgroupMkdir { path, id } => {
            lemma_buffer_round_trip(b, path);
        },
        EventDataView::CgroupRmdir { path, id } => {
            lemma_buffer_round_trip(b, path);
        },
        EventDataView::CgroupAttach { pid, path, id } => {
            lemma_buffer_round_trip(b, path);
        },
        _ => {
        },
    }
}

/// Moves an event body's strings into the auxiliary buffer, truncating
/// each to the remaining capacity — an oversized field shortens the
/// recorded string, it never fails the whole event — and returns the wire
/// body holding the resulting indices.
pub fn encode_event(data: &EventData, buf: &mut Buffer) -> (v: ProcessEventVariant)
    requires
        old(buf).wf(),
    ensures
        final(buf).wf(),
        v == spec_encode_data(data_view(*data), old(buf).buffer@).0,
        final(buf).buffer@ == spec_encode_data(data_view(*data), old(buf).buffer@).1,
{
    match data {
        EventData::Fork { ppid } => ProcessEventVariant::Fork(ForkEvent { ppid: *ppid }),
        EventData::Exit { exit_code } => ProcessEventVariant::Exit(
            ExitEvent { exit_code: *exit_code },
        ),
        EventData::Exec { filename, args, argv } => {
            let fi = buf.append(filename);
            let ai = buf.append(argv);
            ProcessEventVariant::Exec(ExecEvent { filename: fi, args: *args, argv: ai })
        },
        EventData::ChangeParent { ppid } => ProcessEventVariant::ChangeParent(
            ChangeParentEvent { ppid: *ppid },
        ),
        EventData::CgroupMkdir { path, id } => {
            let pi = buf.append(path);
            ProcessEventVariant::CgroupMkdir(CgroupEvent { path: pi, id: *id })
        },
        EventData::CgroupRmdir { path, id } => {
            let pi = buf.append(path);
            ProcessEventVariant::CgroupRmdir(CgroupEvent { path: pi, id: *id })
        },
        EventData::CgroupAttach { pid, path, id } => {
            let pi = buf.append(path);
            ProcessEventVariant::CgroupAttach(CgroupAttachEvent { pid: *pid, path: pi, id: *id })
        },
    }
}

/// Reassembles an event body from a wire body and the auxiliary buffer,
/// re-validating every index against the stored length.
pub fn decode_event(v: &ProcessEventVariant, buf: &Buffer) -> (r: Option<EventData>)
    requires
        buf.wf(),
    ensures
        match r {
            Some(d) => spec_decode_data(*v, buf.buffer@) == Some(data_view(d)),
            None => spec_decode_data(*v, buf.buffer@) is None,
        },
{
    match v {
        ProcessEventVariant::Fork(f) => Some(EventData::Fork { ppid: f.ppid }),
        ProcessEventVariant::Exit(e) => Some(EventData::Exit { exit_code: e.exit_code }),
        ProcessEventVariant::Exec(e) => {
            let filename = match buf.read(&e.filename) {
                Some(bytes) => bytes,
                None => {
                    return None;
                },
            };
            let argv = match buf.read(&e.argv) {
                Some(bytes) => bytes,
                None => {
                    return None;
                },
            };
            Some(EventData::Exec { filename, args: e.args, argv })
        },
        ProcessEventVariant::ChangeParent(c) => Some(EventData::ChangeParent { ppid: c.ppid }),
        ProcessEventVariant::CgroupMkdir(c) => match buf.read(&c.path) {
            Some(path) => Some(EventData::CgroupMkdir { path, id: c.id }),
            None => None,
        },
        ProcessEventVariant::CgroupRmdir(c) => match buf.read(&c.path) {
            Some(path) => Some(EventData::CgroupRmdir { path, id: c.id }),
            None => None,
        },
        ProcessEventVariant::CgroupAttach(c) => match buf.read(&c.path) {
            Some(path) => Some(EventData::CgroupAttach { pid: c.pid, path, id: c.id }),
            None => None,
        },
    }
}

/// One observable process event, fixed size, copied by value across the
/// kernel/user boundary.
#[derive(Clone, Copy, PartialEq, Eq, Structural, Debug)]
pub struct ProcessEvent {
    pub timestamp: u64,
    pub pid: i32,
    pub payload: ProcessEventPayload,
}

impl ProcessEvent {
    /// An emitted event carries the thread-group id of a successfully read
    /// task, never an accessor failure sentinel, and a consistent payload.
    pub open spec fn wf(self) -> bool {
        &&& self.pid >= 0
        &&& self.payload.wf()
    }

    /// The all-zero record the per-CPU scratch slots start from.
    pub fn zeroed() -> (e: ProcessEvent)
        ensures
            e == spec_zeroed_event(),
            e.wf(),
    {
        ProcessEvent {
            timestamp: 0,
            pid: 0,
            payload: ProcessEventPayload {
                event_type: 0,
                payload: ProcessEventVariant::Fork(ForkEvent { ppid: 0 }),
            },
        }
    }
}

/// The all-zero event record.
pub open spec fn spec_zeroed_event() -> ProcessEvent {
    ProcessEvent {
        timestamp: 0,
        pid: 0,
        payload: ProcessEventPayload {
            event_type: 0,
            payload: ProcessEventVariant::Fork(ForkEvent { ppid: 0 }),
        },
    }
}

} // verus!
