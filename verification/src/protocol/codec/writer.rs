//! Buffer-backed writer based on Netty's `ChannelOutboundBuffer` and writing/flushing semantics.
//!
//! The writer keeps the buffers waiting to be written and decides, after each write to
//! the destination, what state it is in. Writing to the destination itself is done by
//! the caller: it asks for the bytes to write with [`Writer::current_chunk`] and reports
//! how many were written with [`Writer::record_written`].
use vstd::prelude::*;
use super::buffer::ByteCursor;
use super::buffer::CursorView;
use super::buffer::OutboundBuffer;
use crate::protocol::frames::content_len;
use crate::protocol::frames::frame_bytes;
use crate::protocol::frames::frame_encodable;
use crate::protocol::frames::lemma_frame_bytes_len;
use crate::protocol::frames::Frame;
use crate::protocol::frames::FRAME_HEAD_LEN;

verus! {

/// Default low watermark.
pub const LOW_WATERMARK: usize = 32 * 1024;

/// Default high watermark.
pub const HIGH_WATERMARK: usize = 64 * 1024;

/// Initial number of entries the outbound buffer has room for.
pub const INIT_BUF_CAPACITY: usize = 64 * 1024;

/// Low and high watermark of a writer's buffered bytes; the low one is never above the
/// high one.
pub struct Watermarks {
    low: usize,
    high: usize,
}

impl Watermarks {
    #[verifier::type_invariant]
    spec fn ordered(self) -> bool {
        self.low <= self.high
    }

    /// The low watermark.
    pub closed spec fn spec_low(&self) -> usize {
        self.low
    }

    /// The high watermark.
    pub closed spec fn spec_high(&self) -> usize {
        self.high
    }

    /// The low watermark.
    fn low(&self) -> (l: usize)
        ensures
            l == self.spec_low(),
            l <= self.spec_high(),
    {
        proof {
            use_type_invariant(self);
        }
        self.low
    }

    /// The high watermark.
    fn high(&self) -> (h: usize)
        ensures
            h == self.spec_high(),
            self.spec_low() <= h,
    {
        proof {
            use_type_invariant(self);
        }
        self.high
    }

}

// Helper for converting a tuple into a Watermarks
impl From<(usize, usize)> for Watermarks {
    fn from(pair: (usize, usize)) -> (w: Self) {
        let (low, high) = pair;
        if high < low {
            Watermarks { low: high, high: low }
        } else {
            Watermarks { low, high }
        }
    }
}

impl vstd::std_specs::convert::FromSpecImpl<(usize, usize)> for Watermarks {
    open spec fn obeys_from_spec() -> bool {
        true
    }

    /// The smaller of the two numbers is the low watermark, the larger the high one
    /// (see [`lemma_watermarks_from`]).
    closed spec fn from_spec(v: (usize, usize)) -> Watermarks {
        if v.1 < v.0 {
            Watermarks { low: v.1, high: v.0 }
        } else {
            Watermarks { low: v.0, high: v.1 }
        }
    }
}

/// Watermarks built from a pair take its smaller number as the low watermark and its
/// larger one as the high watermark.
pub proof fn lemma_watermarks_from(v: (usize, usize))
    ensures
        <Watermarks as vstd::std_specs::convert::FromSpec<(usize, usize)>>::from_spec(v).spec_low()
            == if v.1 < v.0 { v.1 } else { v.0 },
        <Watermarks as vstd::std_specs::convert::FromSpec<(usize, usize)>>::from_spec(v).spec_high()
            == if v.1 < v.0 { v.0 } else { v.1 },
{
}

/// Errors of a writer.
#[derive(Debug, PartialOrd, PartialEq)]
pub enum WriteError {
    HighWatermark,
    /// The writer is at its high watermark; the data that was not buffered is handed back.
    NotReady(Vec<u8>),
    WouldBlock,
    Io,
}

/// The text that describes an error of each kind.
pub open spec fn error_description(e: WriteError) -> Seq<char> {
    match e {
        WriteError::HighWatermark => "Buffering would exceed high watermark"@,
        WriteError::NotReady(_) => "Writer is not ready"@,
        WriteError::WouldBlock => "Writer would block"@,
        WriteError::Io => "I/O error"@,
    }
}

impl WriteError {
    /// A short description of the error.
    pub fn description(&self) -> (d: &'static str)
        ensures
            d@ == error_description(*self),
    {
        match self {
            WriteError::HighWatermark => "Buffering would exceed high watermark",
            WriteError::NotReady(_) => "Writer is not ready",
            WriteError::WouldBlock => "Writer would block",
            WriteError::Io => "I/O error",
        }
    }

    /// The error as a message: `writer error: ` followed by its description.
    pub fn message(&self) -> (m: String)
        ensures
            m@ == "writer error: "@ + error_description(*self),
    {
        String::from_str("writer error: ").concat(self.description())
    }
}

/// The state of a writer.
#[derive(Debug, Clone, Copy, PartialOrd, PartialEq, Eq, Structural)]
pub enum WriteState {
    Error,
    Writable,
    HighWatermarkReached,
}

/// States in which a writer does not accept data: an error, or the high watermark reached.
pub open spec fn state_blocked(s: WriteState) -> bool {
    match s {
        WriteState::HighWatermarkReached | WriteState::Error => true,
        WriteState::Writable => false,
    }
}

impl WriteState {
    /// Returns whether the state is currently blocked from writing.
    pub fn is_blocked(&self) -> (b: bool)
        ensures
            b == state_blocked(*self),
    {
        match *self {
            WriteState::HighWatermarkReached | WriteState::Error => true,
            WriteState::Writable => false,
        }
    }
}

/// The bytes of a sequence of buffers, one after the other.
pub open spec fn concat_all(q: Seq<Seq<u8>>) -> Seq<u8>
    decreases q.len(),
{
    if q.len() == 0 {
        Seq::empty()
    } else {
        q[0] + concat_all(q.drop_first())
    }
}

/// A writer as a value.
pub struct WriterView {
    /// The buffers waiting to be written, oldest first.
    pub queue: Seq<Seq<u8>>,
    /// The buffer being written, with the position up to which it has been written.
    pub current: Option<CursorView>,
    pub state: WriteState,
    pub need_flush: bool,
    /// Count of bytes buffered and not yet reported written.
    pub pending: nat,
    pub low: nat,
    pub high: nat,
    /// The task to wake when the writer becomes writable again, if one waits.
    pub waiting: Option<futures::task::Task>,
    /// The tasks woken so far, in the order they were woken.
    pub woken: Seq<futures::task::Task>,
}

/// The bytes of the current buffer that remain to be written.
pub open spec fn current_remaining(v: WriterView) -> Seq<u8> {
    match v.current {
        Some(c) => c.remaining(),
        None => Seq::empty(),
    }
}

/// Every byte the writer still holds, in the order in which it will be written: what is
/// left of the current buffer, then the queued buffers, oldest first.
pub open spec fn outstanding(v: WriterView) -> Seq<u8> {
    current_remaining(v) + concat_all(v.queue)
}

/// The invariant of a writer: its watermarks are ordered, the current buffer's position is
/// within it, and its count of pending bytes covers every byte it still holds.
pub open spec fn writer_consistent(v: WriterView) -> bool {
    &&& v.low <= v.high
    &&& (v.current matches Some(c) ==> c.wf())
    &&& outstanding(v).len() <= v.pending
}

/// Whether the current buffer has bytes left to write.
pub open spec fn spec_has_remaining(v: WriterView) -> bool {
    current_remaining(v).len() > 0
}

/// The writer after the oldest queued buffer, whatever its length, becomes the current one
/// from its start; what was left of the current buffer is dropped. With nothing queued
/// there is no current buffer.
pub open spec fn after_advance(v: WriterView) -> WriterView {
    if v.queue.len() == 0 {
        WriterView { current: None, ..v }
    } else {
        WriterView {
            current: Some(CursorView { bytes: v.queue[0], pos: 0 }),
            queue: v.queue.drop_first(),
            ..v
        }
    }
}

/// The writer after exhausted buffers are skipped: while the current buffer has no bytes
/// left and buffers are queued, the writer advances.
pub open spec fn after_skip_empty(v: WriterView) -> WriterView
    decreases v.queue.len(),
{
    if spec_has_remaining(v) || v.queue.len() == 0 {
        v
    } else {
        after_skip_empty(after_advance(v))
    }
}

/// The writer when a flush starts: exhausted buffers are skipped, so that the current
/// buffer has bytes whenever any are queued.
pub open spec fn after_prepare_flush(v: WriterView) -> WriterView {
    after_skip_empty(v)
}

/// The writer after `data` is buffered (when it is not at its high watermark): the data is
/// queued last and counted, and a writable writer reaches its high watermark when the count
/// exceeds it. A failed writer stays failed.
pub open spec fn after_buffer(v: WriterView, data: Seq<u8>) -> WriterView {
    let p = v.pending + data.len();
    WriterView {
        queue: v.queue.push(data),
        pending: p,
        state: if v.state == WriteState::Writable && v.high < p {
            WriteState::HighWatermarkReached
        } else {
            v.state
        },
        ..v
    }
}

/// How many more bytes fit under the high watermark after `data` is buffered.
pub open spec fn room_after_buffer(v: WriterView, data: Seq<u8>) -> nat {
    let p = v.pending + data.len();
    if v.high < p {
        0
    } else {
        (v.high - p) as nat
    }
}

/// The state and waiting task after the pending count falls to `p`: a writer at its high
/// watermark becomes writable, and its waiting task is woken and dropped, once the count is
/// below the low watermark. A failed writer stays failed.
pub open spec fn releases(v: WriterView, p: nat) -> bool {
    v.low > p && v.state == WriteState::HighWatermarkReached
}

/// The writer after `n` bytes of the current buffer were written: they are no longer
/// pending, and the writer is released as [`releases`] says; a buffer written to its end
/// is replaced by the next one, and exhausted buffers are skipped.
pub open spec fn after_written(v: WriterView, n: nat) -> WriterView {
    let c = v.current.unwrap();
    let p = (v.pending - n) as nat;
    let moved = WriterView {
        pending: p,
        current: Some(CursorView { pos: (c.pos + n) as nat, ..c }),
        ..v
    };
    let released = if releases(v, p) {
        WriterView {
            state: WriteState::Writable,
            waiting: None,
            woken: match v.waiting {
                Some(t) => v.woken.push(t),
                None => v.woken,
            },
            ..moved
        }
    } else {
        moved
    };
    if n == c.remaining().len() {
        after_skip_empty(after_advance(released))
    } else {
        released
    }
}

/// What the destination did with a write or a flush.
#[derive(Debug, Clone, Copy, PartialEq, Eq, Structural)]
pub enum WriteOutcome {
    /// A write took this many bytes of the current buffer.
    Written(usize),
    /// A flush of the destination completed.
    Flushed,
    /// The destination is not ready; nothing happened.
    Pending,
    /// The destination failed.
    Failed,
}

/// The writer after the destination reported `o`: written bytes are recorded, a failure
/// puts the writer in error, and otherwise nothing changes.
pub open spec fn after_outcome(v: WriterView, o: WriteOutcome) -> WriterView {
    match o {
        WriteOutcome::Written(n) => after_written(v, n as nat),
        WriteOutcome::Flushed | WriteOutcome::Pending => v,
        WriteOutcome::Failed => WriterView { state: WriteState::Error, ..v },
    }
}

/// What a caller waiting for buffer room has to do.
#[derive(Debug, Clone, Copy, PartialEq, Eq, Structural)]
pub enum BufferReadiness {
    /// The writer has failed.
    Failed,
    /// The writer accepts data.
    Ready,
    /// The writer is at its high watermark: flush it, and wait if it still is.
    NeedsFlush,
}

/// Writes buffers of bytes with watermark-based back pressure.
pub struct Writer {
    /// Watermark-based buffer for storing byte buffers before writing
    buffer: OutboundBuffer<Vec<u8>>,
    /// Holds the next buffer to be written to the destination
    current: Option<ByteCursor>,
    /// Tracks the writer's current state
    write_state: WriteState,
    /// Indicates whether the writer needs to flush its buffered contents to the destination
    need_flush: bool,
    /// Counter of the number of bytes waiting to be written
    pending_bytes: usize,
    /// Task which waits for watermark progress on this writer
    waiting_task: Option<futures::task::Task>,
    /// Record of the tasks this writer has woken, oldest first
    woken: Ghost<Seq<futures::task::Task>>,
    /// Configured watermark levels for this writer
    watermarks: Watermarks,
}

/// The bytes of each buffer of a queue, oldest first.
spec fn queue_of(b: OutboundBuffer<Vec<u8>>) -> Seq<Seq<u8>> {
    b@.map_values(|x: Vec<u8>| x@)
}

impl View for Writer {
    type V = WriterView;

    closed spec fn view(&self) -> WriterView {
        WriterView {
            queue: queue_of(self.buffer),
            current: match self.current {
                Some(c) => Some(c@),
                None => None,
            },
            state: self.write_state,
            need_flush: self.need_flush,
            pending: self.pending_bytes as nat,
            low: self.watermarks.spec_low() as nat,
            high: self.watermarks.spec_high() as nat,
            waiting: self.waiting_task,
            woken: self.woken@,
        }
    }
}

impl Writer {
    /// Every writer is consistent; see [`writer_consistent`].
    #[verifier::type_invariant]
    spec fn consistent(self) -> bool {
        writer_consistent(self@)
    }
}

/// Queuing a buffer last appends its bytes to the queued bytes.
pub proof fn lemma_concat_push(q: Seq<Seq<u8>>, x: Seq<u8>)
    ensures
        concat_all(q.push(x)) == concat_all(q) + x,
    decreases q.len(),
{
    if q.len() == 0 {
        let e = Seq::<Seq<u8>>::empty();
        assert(q.push(x).drop_first() =~= e);
        assert(concat_all(e) == Seq::<u8>::empty());
        assert(q.push(x)[0] == x);
        assert(concat_all(q.push(x)) =~= x);
    } else {
        assert(q.push(x).drop_first() =~= q.drop_first().push(x));
        lemma_concat_push(q.drop_first(), x);
        assert(concat_all(q.push(x)) =~= concat_all(q) + x);
    }
}

/// Advancing drops what was left of the current buffer and nothing else: the bytes still
/// held are those that were queued, and the new current buffer starts at its beginning.
pub proof fn lemma_advance(v: WriterView)
    ensures
        outstanding(after_advance(v)) == concat_all(v.queue),
        after_advance(v).current matches Some(c) ==> c.pos == 0 && c.wf(),
        after_advance(v) == (WriterView {
            queue: after_advance(v).queue,
            current: after_advance(v).current,
            ..v
        }),
{
    if v.queue.len() > 0 {
        let c = CursorView { bytes: v.queue[0], pos: 0 };
        assert(c.remaining() =~= v.queue[0]);
        assert(concat_all(v.queue) == v.queue[0] + concat_all(v.queue.drop_first()));
    } else {
        assert(concat_all(v.queue) == Seq::<u8>::empty());
    }
}

/// Skipping exhausted buffers keeps every byte held and nothing else changes; afterwards
/// either the current buffer has bytes or nothing is held and nothing is queued.
pub proof fn lemma_skip_empty(v: WriterView)
    requires
        writer_consistent(v),
    ensures
        outstanding(after_skip_empty(v)) == outstanding(v),
        spec_has_remaining(after_skip_empty(v)) || (after_skip_empty(v).queue.len() == 0
            && outstanding(v).len() == 0),
        writer_consistent(after_skip_empty(v)),
        after_skip_empty(v) == (WriterView {
            queue: after_skip_empty(v).queue,
            current: after_skip_empty(v).current,
            ..v
        }),
    decreases v.queue.len(),
{
    if spec_has_remaining(v) {
    } else if v.queue.len() == 0 {
        assert(concat_all(v.queue) == Seq::<u8>::empty());
        assert(outstanding(v).len() == 0);
    } else {
        let w = after_advance(v);
        lemma_advance(v);
        assert(current_remaining(v) =~= Seq::<u8>::empty());
        assert(outstanding(v) =~= concat_all(v.queue));
        lemma_skip_empty(w);
    }
}

/// Writing `n` bytes consumes the first `n` bytes held and lowers the pending count by `n`;
/// the writer is released as [`releases`] says and nothing else changes; afterwards either
/// the current buffer has bytes or nothing is held.
pub proof fn lemma_written(v: WriterView, n: nat)
    requires
        writer_consistent(v),
        spec_has_remaining(v),
        n <= current_remaining(v).len(),
    ensures
        outstanding(after_written(v, n)) == outstanding(v).skip(n as int),
        after_written(v, n).pending == v.pending - n,
        writer_consistent(after_written(v, n)),
        spec_has_remaining(after_written(v, n)) || outstanding(after_written(v, n)).len() == 0,
        after_written(v, n).state == (if releases(v, (v.pending - n) as nat) {
            WriteState::Writable
        } else {
            v.state
        }),
        after_written(v, n).waiting == (if releases(v, (v.pending - n) as nat) {
            None
        } else {
            v.waiting
        }),
        after_written(v, n).woken == (if releases(v, (v.pending - n) as nat) {
            match v.waiting {
                Some(t) => v.woken.push(t),
                None => v.woken,
            }
        } else {
            v.woken
        }),
        after_written(v, n).low == v.low,
        after_written(v, n).high == v.high,
{
    let c = v.current.unwrap();
    let c2 = CursorView { pos: (c.pos + n) as nat, ..c };
    assert(c2.remaining() =~= c.remaining().skip(n as int));
    let p = (v.pending - n) as nat;
    let moved = WriterView { pending: p, current: Some(c2), ..v };
    let released = if releases(v, p) {
        WriterView {
            state: WriteState::Writable,
            waiting: None,
            woken: match v.waiting {
                Some(t) => v.woken.push(t),
                None => v.woken,
            },
            ..moved
        }
    } else {
        moved
    };
    assert(outstanding(released) =~= outstanding(v).skip(n as int));
    if n == c.remaining().len() {
        lemma_advance(released);
        assert(c2.remaining().len() == 0);
        assert(outstanding(released) =~= concat_all(v.queue));
        lemma_skip_empty(after_advance(released));
    }
}

impl Writer {
    /// A writable writer with nothing buffered and watermarks of 32 KiB and 64 KiB.
    pub fn new() -> (w: Self)
        ensures
            w@ == (WriterView {
                queue: Seq::empty(),
                current: None,
                state: WriteState::Writable,
                need_flush: false,
                pending: 0,
                low: LOW_WATERMARK as nat,
                high: HIGH_WATERMARK as nat,
                waiting: None,
                woken: Seq::empty(),
            }),
            writer_consistent(w@),
    {
        let w = Writer {
            buffer: OutboundBuffer::with_capacity(INIT_BUF_CAPACITY),
            current: None,
            write_state: WriteState::Writable,
            need_flush: false,
            pending_bytes: 0,
            waiting_task: None,
            woken: Ghost(Seq::empty()),
            watermarks: Watermarks::from((LOW_WATERMARK, HIGH_WATERMARK)),
        };
        assert(w@.queue =~= Seq::<Seq<u8>>::empty());
        w
    }

    /// Sets the watermarks: the smaller of `high` and `low` becomes the low watermark,
    /// the larger the high one.
    pub fn set_watermarks(&mut self, high: usize, low: usize)
        ensures
            final(self)@ == (WriterView {
                low: if high < low { high as nat } else { low as nat },
                high: if high < low { low as nat } else { high as nat },
                ..old(self)@
            }),
            writer_consistent(final(self)@),
    {
        proof {
            use_type_invariant(&*self);
        }
        self.watermarks = Watermarks::from((high, low));
        proof {
            use_type_invariant(&*self);
        }
    }

    /// The count of bytes buffered and not yet reported written.
    pub fn pending_bytes(&self) -> (n: usize)
        ensures
            n == self@.pending,
    {
        self.pending_bytes
    }

    /// Attempts to buffer the data for transmission, and returns how many more bytes fit
    /// under the high watermark.
    ///
    /// Returns WriteError::NotReady, with the data, if the buffer is in high water.
    /// Use `buffer_readiness()` to ensure the buffer can accept more data.
    pub fn buffer_data(&mut self, data: Vec<u8>) -> (r: Result<usize, WriteError>)
        requires
            old(self)@.state != WriteState::HighWatermarkReached ==> old(self)@.pending
                + data@.len() <= usize::MAX,
        ensures
            writer_consistent(final(self)@),
            old(self)@.state == WriteState::HighWatermarkReached ==> {
                &&& r matches Err(WriteError::NotReady(d)) && d@ == data@
                &&& final(self)@ == old(self)@
            },
            old(self)@.state != WriteState::HighWatermarkReached ==> {
                &&& r matches Ok(room) && room == room_after_buffer(old(self)@, data@)
                &&& final(self)@ == after_buffer(old(self)@, data@)
            },
    {
        proof {
            use_type_invariant(&*self);
        }
        if self.write_state == WriteState::HighWatermarkReached {
            return Err(WriteError::NotReady(data));
        }
        let ghost before = self@;
        proof {
            lemma_concat_push(before.queue, data@);
        }
        let mut queue = OutboundBuffer::with_capacity(0);
        std::mem::swap(&mut queue, &mut self.buffer);
        assert(queue_of(queue) =~= before.queue);
        self.pending_bytes = self.pending_bytes + data.len();
        let ghost d = data@;
        queue.add_data(data);
        assert(queue_of(queue) =~= before.queue.push(d));
        assert(current_remaining(before) + concat_all(queue_of(queue)) =~= outstanding(before) + d);
        self.buffer = queue;
        if self.write_state == WriteState::Writable && self.watermarks.high()
            < self.pending_bytes {
            self.write_state = WriteState::HighWatermarkReached;
        }
        let high = self.watermarks.high();
        let remaining = if high < self.pending_bytes {
            0
        } else {
            high - self.pending_bytes
        };
        proof {
            use_type_invariant(&*self);
        }
        Ok(remaining)
    }

    /// Returns whether the current buffer has bytes remaining to be written
    pub fn has_remaining(&self) -> (b: bool)
        ensures
            b == spec_has_remaining(self@),
    {
        match &self.current {
            None => false,
            Some(buf) => buf.has_remaining(),
        }
    }

    /// Grabs the oldest queued buffer, whatever its length, as the current one; what was
    /// left of the current buffer is dropped. With nothing queued there is no current buffer.
    pub fn advance(&mut self)
        ensures
            final(self)@ == after_advance(old(self)@),
            writer_consistent(final(self)@),
    {
        proof {
            use_type_invariant(&*self);
        }
        let ghost v0 = self@;
        let mut queue = OutboundBuffer::with_capacity(0);
        std::mem::swap(&mut queue, &mut self.buffer);
        let ghost q = queue_of(queue);
        proof {
            assert(q =~= v0.queue);
            assert(self@.queue =~= Seq::<Seq<u8>>::empty());
            lemma_advance(v0);
        }
        let next = queue.next_buf();
        proof {
            if q.len() > 0 {
                assert(queue_of(queue) =~= q.drop_first());
                assert(concat_all(q) == q[0] + concat_all(q.drop_first()));
            }
        }
        self.current = next;
        self.buffer = queue;
        proof {
            assert(self@ == after_advance(v0));
            use_type_invariant(&*self);
        }
    }

    /// Skips exhausted buffers: while the current buffer has no bytes left and buffers are
    /// queued, takes the next one.
    fn skip_empty(&mut self)
        ensures
            final(self)@ == after_skip_empty(old(self)@),
            writer_consistent(final(self)@),
    {
        proof {
            use_type_invariant(&*self);
        }
        let ghost v0 = self@;
        loop
            invariant
                writer_consistent(self@),
                after_skip_empty(v0) == after_skip_empty(self@),
            ensures
                self@ == after_skip_empty(v0),
            decreases self@.queue.len(),
        {
            if self.has_remaining() || self.buffer.is_empty() {
                assert(self@.queue.len() == self.buffer@.len());
                break;
            }
            self.advance();
        }
    }

    /// Starts a flush: exhausted buffers are skipped, so that the current buffer has bytes
    /// whenever any are queued.
    pub fn prepare_flush(&mut self)
        ensures
            final(self)@ == after_prepare_flush(old(self)@),
            writer_consistent(final(self)@),
    {
        self.skip_empty();
    }

    /// The bytes of the current buffer that remain to be written.
    pub fn current_chunk(&self) -> (s: &[u8])
        requires
            self@.current is Some,
        ensures
            s@ == current_remaining(self@),
    {
        match &self.current {
            Some(buf) => buf.chunk(),
            None => &[],
        }
    }

    /// Records that `n` bytes of the current buffer were written to the destination.
    ///
    /// The bytes are no longer pending. When the pending count falls below the low
    /// watermark, a writer at its high watermark becomes writable and the waiting task, if
    /// any, is woken; a failed writer stays failed. When the current buffer has been written
    /// to its end, the writer advances and skips exhausted buffers.
    pub fn record_written(&mut self, n: usize)
        requires
            spec_has_remaining(old(self)@),
            n <= current_remaining(old(self)@).len(),
        ensures
            final(self)@ == after_written(old(self)@, n as nat),
            writer_consistent(final(self)@),
    {
        proof {
            use_type_invariant(&*self);
        }
        let ghost before = self@;
        proof {
            lemma_written(before, n as nat);
        }
        let mut cur = None;
        std::mem::swap(&mut cur, &mut self.current);
        let mut buf = cur.unwrap();
        let remaining = buf.remaining();
        buf.advance(n);
        self.current = Some(buf);
        self.pending_bytes = self.pending_bytes - n;
        if self.watermarks.low() > self.pending_bytes
            && self.write_state == WriteState::HighWatermarkReached {
            self.write_state = WriteState::Writable;
            let mut waiting = None;
            std::mem::swap(&mut waiting, &mut self.waiting_task);
            if let Some(task) = waiting {
                self.woken = Ghost(self.woken@.push(task));
                task.notify();
            }
        }
        if n == remaining {
            // Recycle buffer
            let ghost mid = self@;
            proof {
                let c = before.current.unwrap();
                let c2 = CursorView { pos: (c.pos + n) as nat, ..c };
                assert(c2.remaining() =~= c.remaining().skip(n as int));
                assert(outstanding(mid).len() <= mid.pending);
            }
            self.advance();
            self.skip_empty();
        }
        proof {
            use_type_invariant(&*self);
        }
    }

    /// Records what the destination did with a write or a flush: the bytes a write took are
    /// recorded as by [`Writer::record_written`], a failure puts the writer in error as by
    /// [`Writer::record_failure`], and otherwise nothing changes.
    pub fn record_outcome(&mut self, o: WriteOutcome)
        requires
            o matches WriteOutcome::Written(n) ==> spec_has_remaining(old(self)@) && n
                <= current_remaining(old(self)@).len(),
        ensures
            final(self)@ == after_outcome(old(self)@, o),
            writer_consistent(final(self)@),
    {
        proof {
            use_type_invariant(&*self);
        }
        match o {
            WriteOutcome::Written(n) => self.record_written(n),
            WriteOutcome::Flushed | WriteOutcome::Pending => {},
            WriteOutcome::Failed => self.record_failure(),
        }
    }

    /// Records that writing to the destination failed: the writer is in error from then on.
    pub fn record_failure(&mut self)
        ensures
            final(self)@ == (WriterView { state: WriteState::Error, ..old(self)@ }),
            writer_consistent(final(self)@),
    {
        proof {
            use_type_invariant(&*self);
        }
        self.write_state = WriteState::Error;
        proof {
            use_type_invariant(&*self);
        }
    }

    /// What a caller that wants to buffer data has to do first: nothing when the writer
    /// accepts data, flush when it is at its high watermark; a failed writer accepts none.
    pub fn buffer_readiness(&self) -> (r: BufferReadiness)
        ensures
            self@.state == WriteState::Error ==> r == BufferReadiness::Failed,
            self@.state == WriteState::Writable ==> r == BufferReadiness::Ready,
            self@.state == WriteState::HighWatermarkReached ==> r == BufferReadiness::NeedsFlush,
    {
        match self.write_state {
            WriteState::Error => BufferReadiness::Failed,
            WriteState::Writable => BufferReadiness::Ready,
            WriteState::HighWatermarkReached => BufferReadiness::NeedsFlush,
        }
    }

    /// Stores `task` as the task to wake when the writer becomes writable again, in place
    /// of any task stored before.
    pub fn park_waiting_task(&mut self, task: futures::task::Task)
        ensures
            final(self)@ == (WriterView { waiting: Some(task), ..old(self)@ }),
    {
        proof {
            use_type_invariant(&*self);
        }
        self.waiting_task = Some(task);
    }

    /// Returns whether the internal buffer can be written to
    pub fn is_writable(&self) -> (b: bool)
        ensures
            b == !state_blocked(self@.state),
    {
        !self.write_state.is_blocked()
    }
}

/// Wraps `Writer` with a frame-friendly API
pub struct FrameWriter {
    writer: Writer,
}

impl View for FrameWriter {
    type V = WriterView;

    closed spec fn view(&self) -> WriterView {
        self.writer@
    }
}

impl FrameWriter {
    /// A frame writer over a fresh [`Writer`].
    pub fn new() -> (w: Self)
        ensures
            w@ == (WriterView {
                queue: Seq::empty(),
                current: None,
                state: WriteState::Writable,
                need_flush: false,
                pending: 0,
                low: LOW_WATERMARK as nat,
                high: HIGH_WATERMARK as nat,
                waiting: None,
                woken: Seq::empty(),
            }),
            writer_consistent(w@),
    {
        FrameWriter { writer: Writer::new() }
    }

    /// Returns whether the internal buffer can be written to
    pub fn is_writable(&self) -> (b: bool)
        ensures
            b == !state_blocked(self@.state),
    {
        self.writer.is_writable()
    }

    /// What a caller that wants to buffer a frame has to do first; see
    /// [`Writer::buffer_readiness`].
    pub fn buffer_readiness(&self) -> (r: BufferReadiness)
        ensures
            self@.state == WriteState::Error ==> r == BufferReadiness::Failed,
            self@.state == WriteState::Writable ==> r == BufferReadiness::Ready,
            self@.state == WriteState::HighWatermarkReached ==> r == BufferReadiness::NeedsFlush,
    {
        self.writer.buffer_readiness()
    }

    /// The underlying writer, for flushing.
    pub fn writer_mut(&mut self) -> (w: &mut Writer)
        ensures
            w@ == old(self)@,
            final(self)@ == final(w)@,
    {
        &mut self.writer
    }

    /// Encodes `frame` and buffers its bytes; see [`Writer::buffer_data`].
    ///
    /// Ping, pong and unknown frames are buffered as their head alone.
    pub fn buffer_frame(&mut self, frame: Frame) -> (r: Result<usize, WriteError>)
        requires
            frame_encodable(frame@),
            content_len(frame@) + FRAME_HEAD_LEN <= usize::MAX,
            old(self)@.state != WriteState::HighWatermarkReached ==> old(self)@.pending
                + content_len(frame@) + FRAME_HEAD_LEN <= usize::MAX,
        ensures
            writer_consistent(final(self)@),
            old(self)@.state == WriteState::HighWatermarkReached ==> {
                &&& r matches Err(WriteError::NotReady(d)) && d@ == frame_bytes(frame@)
                &&& final(self)@ == old(self)@
            },
            old(self)@.state != WriteState::HighWatermarkReached ==> {
                &&& r matches Ok(room) && room == room_after_buffer(old(self)@, frame_bytes(frame@))
                &&& final(self)@ == after_buffer(old(self)@, frame_bytes(frame@))
            },
    {
        let size = frame.encoded_len() + FRAME_HEAD_LEN as usize;
        let mut buf: Vec<u8> = Vec::with_capacity(size);
        let _ = frame.encode_into(&mut buf);
        proof {
            lemma_frame_bytes_len(frame@);
        }
        assert(buf@ =~= frame_bytes(frame@));
        proof {
            use_type_invariant(&self.writer);
        }
        self.writer.buffer_data(buf)
    }
}

/// Total of a sequence of byte counts.
pub open spec fn total(ns: Seq<nat>) -> nat
    decreases ns.len(),
{
    if ns.len() == 0 {
        0
    } else {
        ns[0] + total(ns.drop_first())
    }
}

/// Whether writes of `ns[0]`, `ns[1]`, ... bytes can be reported one after the other: each
/// finds a current buffer with at least that many bytes left.
pub open spec fn writes_valid(v: WriterView, ns: Seq<nat>) -> bool
    decreases ns.len(),
{
    ns.len() == 0 || {
        &&& spec_has_remaining(v)
        &&& ns[0] <= current_remaining(v).len()
        &&& writes_valid(after_written(v, ns[0]), ns.drop_first())
    }
}

/// The writer after writes of `ns[0]`, `ns[1]`, ... bytes are reported one after the other.
pub open spec fn after_writes(v: WriterView, ns: Seq<nat>) -> WriterView
    decreases ns.len(),
{
    if ns.len() == 0 {
        v
    } else {
        after_writes(after_written(v, ns[0]), ns.drop_first())
    }
}

/// The bytes handed to the destination by writes of `ns[0]`, `ns[1]`, ... bytes, each taken
/// from the front of the current buffer.
pub open spec fn bytes_written(v: WriterView, ns: Seq<nat>) -> Seq<u8>
    decreases ns.len(),
{
    if ns.len() == 0 {
        Seq::empty()
    } else {
        current_remaining(v).take(ns[0] as int) + bytes_written(
            after_written(v, ns[0]),
            ns.drop_first(),
        )
    }
}

/// Starting a flush keeps every byte held, and leaves a current buffer with bytes unless
/// nothing is held.
pub proof fn lemma_prepare_flush(v: WriterView)
    requires
        writer_consistent(v),
    ensures
        outstanding(after_prepare_flush(v)) == outstanding(v),
        spec_has_remaining(after_prepare_flush(v)) || outstanding(v).len() == 0,
        writer_consistent(after_prepare_flush(v)),
{
    lemma_skip_empty(v);
}

/// Buffers are written in the order they were buffered: the bytes held after buffering are
/// the bytes held before, followed by the new data.
pub proof fn lemma_buffer_appends(v: WriterView, data: Seq<u8>)
    ensures
        outstanding(after_buffer(v, data)) == outstanding(v) + data,
{
    lemma_concat_push(v.queue, data);
    assert(outstanding(after_buffer(v, data)) =~= outstanding(v) + data);
}

/// Flushing over several writes: the bytes handed to the destination are the bytes held, in
/// order, from the front; each byte written leaves the pending count; and the state moves as
/// the watermarks say. After at least one write, a writer at its high watermark has become
/// writable, dropping its waiting task, exactly when the pending count has fallen below the
/// low watermark; otherwise state and waiting task stay as they were, so a failed writer
/// stays failed. When every byte held is written, nothing is held any more.
pub proof fn lemma_flush_writes(v: WriterView, ns: Seq<nat>)
    requires
        writer_consistent(v),
        writes_valid(v, ns),
    ensures
        total(ns) <= outstanding(v).len(),
        bytes_written(v, ns) == outstanding(v).take(total(ns) as int),
        outstanding(after_writes(v, ns)) == outstanding(v).skip(total(ns) as int),
        after_writes(v, ns).pending == v.pending - total(ns),
        writer_consistent(after_writes(v, ns)),
        ns.len() > 0 && v.state == WriteState::HighWatermarkReached && v.pending - total(ns)
            < v.low ==> after_writes(
            v,
            ns,
        ).state == WriteState::Writable && after_writes(v, ns).waiting is None
            && after_writes(v, ns).woken == (match v.waiting {
            Some(t) => v.woken.push(t),
            None => v.woken,
        }),
        !(ns.len() > 0 && v.state == WriteState::HighWatermarkReached && v.pending - total(ns)
            < v.low) ==> after_writes(
            v,
            ns,
        ).state == v.state && after_writes(v, ns).waiting == v.waiting && after_writes(
            v,
            ns,
        ).woken == v.woken,
        total(ns) == outstanding(v).len() ==> !spec_has_remaining(after_writes(v, ns))
            && outstanding(after_writes(v, ns)).len() == 0,
    decreases ns.len(),
{
    if ns.len() == 0 {
        assert(outstanding(v).take(0) =~= Seq::<u8>::empty());
        assert(outstanding(v).skip(0) =~= outstanding(v));
    } else {
        let n = ns[0];
        let w = after_written(v, n);
        lemma_written(v, n);
        if releases(v, (v.pending - n) as nat) {
            assert(w.state == WriteState::Writable && w.waiting is None);
        } else {
            assert(w.state == v.state && w.waiting == v.waiting);
        }
        lemma_flush_writes(w, ns.drop_first());
        let rest = total(ns.drop_first());
        assert(outstanding(w).len() == outstanding(v).len() - n);
        assert(current_remaining(v).take(n as int) =~= outstanding(v).take(n as int));
        assert(outstanding(v).skip(n as int).take(rest as int) =~= outstanding(v).subrange(
            n as int,
            (n + rest) as int,
        ));
        assert(outstanding(v).take(n as int) + outstanding(v).subrange(n as int, (n + rest) as int)
            =~= outstanding(v).take((n + rest) as int));
        assert(outstanding(v).skip(n as int).skip(rest as int) =~= outstanding(v).skip((n + rest) as int));
        if total(ns) == outstanding(v).len() {
            assert(outstanding(after_writes(v, ns)).len() == 0);
        }
    }
}

/// Buffered data is written after every byte held before it: when a flush that follows the
/// buffering writes everything, the destination receives the bytes held before, then `data`,
/// and nothing is held afterwards.
pub proof fn lemma_buffer_then_flush(v: WriterView, data: Seq<u8>, ns: Seq<nat>)
    requires
        writer_consistent(v),
        writes_valid(after_prepare_flush(after_buffer(v, data)), ns),
        total(ns) == outstanding(v).len() + data.len(),
    ensures
        bytes_written(after_prepare_flush(after_buffer(v, data)), ns) == outstanding(v) + data,
        !spec_has_remaining(after_writes(after_prepare_flush(after_buffer(v, data)), ns)),
        outstanding(after_writes(after_prepare_flush(after_buffer(v, data)), ns)).len() == 0,
        after_writes(after_prepare_flush(after_buffer(v, data)), ns).pending == v.pending
            - outstanding(v).len(),
{
    let w = after_buffer(v, data);
    lemma_buffer_appends(v, data);
    assert(writer_consistent(w));
    lemma_prepare_flush(w);
    lemma_skip_empty(w);
    let f = after_prepare_flush(w);
    assert(f.pending == v.pending + data.len());
    lemma_flush_writes(f, ns);
    assert(outstanding(f).take(total(ns) as int) =~= outstanding(v) + data);
}

/// A failed writer stays failed: buffering, starting a flush and reporting writes leave it in
/// error.
pub proof fn lemma_error_persists(v: WriterView, data: Seq<u8>, ns: Seq<nat>)
    requires
        writer_consistent(v),
        v.state == WriteState::Error,
        writes_valid(after_prepare_flush(v), ns),
    ensures
        after_buffer(v, data).state == WriteState::Error,
        after_prepare_flush(v).state == WriteState::Error,
        after_writes(after_prepare_flush(v), ns).state == WriteState::Error,
{
    lemma_skip_empty(v);
    lemma_prepare_flush(v);
    lemma_flush_writes(after_prepare_flush(v), ns);
}

/// A write wakes the waiting task exactly when it releases the writer: when a writer at its
/// high watermark sees its pending count fall below the low watermark, it becomes writable,
/// and the task that was waiting, if any, is woken once and no longer stored. Otherwise no
/// task is woken and state and waiting task are unchanged.
pub proof fn lemma_release_wakes_waiting_task(v: WriterView, n: nat)
    requires
        writer_consistent(v),
        spec_has_remaining(v),
        n <= current_remaining(v).len(),
    ensures
        v.state == WriteState::HighWatermarkReached && v.pending - n < v.low ==> {
            &&& after_written(v, n).state == WriteState::Writable
            &&& after_written(v, n).waiting is None
            &&& v.waiting matches Some(t) ==> after_written(v, n).woken == v.woken.push(t)
            &&& v.waiting is None ==> after_written(v, n).woken == v.woken
        },
        !(v.state == WriteState::HighWatermarkReached && v.pending - n < v.low) ==> {
            &&& after_written(v, n).state == v.state
            &&& after_written(v, n).waiting == v.waiting
            &&& after_written(v, n).woken == v.woken
        },
{
    lemma_written(v, n);
}

/// A destination that is not ready, or a completed flush, changes nothing in the writer:
/// in particular a writer at its high watermark stays there.
pub proof fn lemma_idle_outcomes_change_nothing(v: WriterView)
    ensures
        after_outcome(v, WriteOutcome::Pending) == v,
        after_outcome(v, WriteOutcome::Flushed) == v,
{
}

/// Whatever the destination reports, a writer at its high watermark leaves it only for
/// error, on a failure, or to become writable with its pending count below the low
/// watermark; and a failed writer stays failed.
pub proof fn lemma_outcome_states(v: WriterView, o: WriteOutcome)
    requires
        writer_consistent(v),
        o matches WriteOutcome::Written(n) ==> spec_has_remaining(v) && n <= current_remaining(
            v,
        ).len(),
    ensures
        v.state == WriteState::HighWatermarkReached && after_outcome(v, o).state
            != WriteState::HighWatermarkReached ==> (o is Failed && after_outcome(v, o).state
            == WriteState::Error) || (after_outcome(v, o).state == WriteState::Writable
            && after_outcome(v, o).pending < v.low),
        v.state == WriteState::Error ==> after_outcome(v, o).state == WriteState::Error,
{
    if let WriteOutcome::Written(n) = o {
        lemma_written(v, n as nat);
    }
}

} // verus!
