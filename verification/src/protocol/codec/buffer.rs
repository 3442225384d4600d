//! Buffer responsible for collecting and emitting buffers before they're sent over the network
use std::collections::VecDeque;
use vstd::prelude::*;

verus! {

/// A queue of byte buffers waiting to be written.
///
/// Buffers are added at the back and taken from the front by [`OutboundBuffer::next`],
/// so that they leave in the order they were added.
pub struct OutboundBuffer<B> {
    buf: VecDeque<B>,
}

impl<B> View for OutboundBuffer<B> {
    type V = Seq<B>;

    closed spec fn view(&self) -> Seq<B> {
        self.buf@
    }
}

impl<B> OutboundBuffer<B> {
    /// An empty buffer with room for `capacity` entries.
    pub fn with_capacity(capacity: usize) -> (b: Self)
        ensures
            b@ == Seq::<B>::empty(),
    {
        OutboundBuffer { buf: VecDeque::with_capacity(capacity) }
    }

    /// Adds `value` at the back.
    pub fn push_back(&mut self, value: B)
        ensures
            final(self)@ == old(self)@.push(value),
    {
        self.buf.push_back(value);
    }

    /// Adds `value` at the front.
    pub fn push_front(&mut self, value: B)
        ensures
            final(self)@ == seq![value] + old(self)@,
    {
        self.buf.push_front(value);
    }

    /// Whether no entry is queued.
    pub fn is_empty(&self) -> (b: bool)
        ensures
            b == (self@.len() == 0),
    {
        self.buf.len() == 0
    }

    /// Adds `value` at the back.
    pub fn add_data(&mut self, value: B)
        ensures
            final(self)@ == old(self)@.push(value),
    {
        self.push_back(value);
    }

    /// Takes the entry at the front, the oldest one, if there is one.
    pub fn next(&mut self) -> (r: Option<B>)
        ensures
            old(self)@.len() == 0 ==> r is None && final(self)@ == old(self)@,
            old(self)@.len() > 0 ==> r == Some(old(self)@[0])
                && final(self)@ == old(self)@.drop_first(),
    {
        let r = self.buf.pop_front();
        proof {
            if old(self)@.len() > 0 {
                assert(old(self)@.drop_first() =~= old(self)@.subrange(1, old(self)@.len() as int));
            }
        }
        r
    }
}

impl OutboundBuffer<Vec<u8>> {
    /// Takes the entry at the front, if there is one, as a cursor at the start of its bytes.
    pub fn next_buf(&mut self) -> (r: Option<ByteCursor>)
        ensures
            old(self)@.len() == 0 ==> r is None && final(self)@ == old(self)@,
            old(self)@.len() > 0 ==> (r matches Some(c) && c@ == (CursorView {
                bytes: old(self)@[0]@,
                pos: 0,
            }) && final(self)@ == old(self)@.drop_first()),
    {
        if let Some(bytes) = self.next() {
            return Some(ByteCursor::new(bytes));
        } else {
            return None;
        }
    }
}

/// A byte buffer with a read position, as a value.
pub struct CursorView {
    pub bytes: Seq<u8>,
    /// Number of bytes already consumed.
    pub pos: nat,
}

impl CursorView {
    /// The read position lies within the bytes.
    pub open spec fn wf(self) -> bool {
        self.pos <= self.bytes.len()
    }

    /// The bytes that remain to be consumed.
    pub open spec fn remaining(self) -> Seq<u8> {
        self.bytes.skip(self.pos as int)
    }
}

/// A byte buffer with a read position: the bytes before the position have been consumed.
pub struct ByteCursor {
    bytes: Vec<u8>,
    pos: usize,
}

impl View for ByteCursor {
    type V = CursorView;

    closed spec fn view(&self) -> CursorView {
        CursorView { bytes: self.bytes@, pos: self.pos as nat }
    }
}

impl ByteCursor {
    #[verifier::type_invariant]
    spec fn pos_in_bounds(self) -> bool {
        self.pos <= self.bytes@.len()
    }

    /// A cursor at the start of `bytes`.
    pub fn new(bytes: Vec<u8>) -> (c: Self)
        ensures
            c@ == (CursorView { bytes: bytes@, pos: 0 }),
    {
        ByteCursor { bytes, pos: 0 }
    }

    /// Number of bytes that remain.
    pub fn remaining(&self) -> (n: usize)
        ensures
            n == self@.remaining().len(),
            self@.wf(),
    {
        proof {
            use_type_invariant(self);
        }
        self.bytes.len() - self.pos
    }

    /// Whether any byte remains.
    pub fn has_remaining(&self) -> (b: bool)
        ensures
            b == (self@.remaining().len() > 0),
            self@.wf(),
    {
        self.remaining() > 0
    }

    /// The bytes that remain.
    pub fn chunk(&self) -> (s: &[u8])
        ensures
            s@ == self@.remaining(),
    {
        proof {
            use_type_invariant(self);
        }
        vstd::slice::slice_subrange(self.bytes.as_slice(), self.pos, self.bytes.len())
    }

    /// Consumes `n` bytes.
    pub fn advance(&mut self, n: usize)
        requires
            n <= old(self)@.remaining().len(),
        ensures
            final(self)@ == (CursorView { pos: (old(self)@.pos + n) as nat, ..old(self)@ }),
            final(self)@.wf(),
    {
        proof {
            use_type_invariant(&*self);
        }
        // The vector's length bounds the new position, so the sum cannot overflow.
        let _len = self.bytes.len();
        self.pos = self.pos + n;
    }
}

} // verus!
