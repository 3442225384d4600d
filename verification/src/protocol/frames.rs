//! Frames are the core of the message transport layer, allowing applications to build
//! custom protocols atop this library.
//!
//! On the wire a frame is a head followed by its content. The head holds the total
//! length of the frame (head included) as a big-endian `u32`, the magic number
//! [`MAGIC_NUM`] and one byte for the frame type. A length-delimited reader strips
//! the length field, so decoding starts at the magic number.
use vstd::prelude::*;
use vstd::slice::slice_subrange;
use vstd::slice::slice_to_vec;
use crate::stream::StreamId;
use super::wire::be_bytes;
use super::wire::be_value;
use super::wire::get_u32_be;
use super::wire::put_u32_be;
use super::wire::lemma_be_value_of_bytes;
use super::wire::lemma_be_bytes_of_value;

verus! {

/// Marks the start of every frame after its length field.
pub const MAGIC_NUM: u32 = 0xC0A1BA11;

/// Length of a frame head: frame length, magic number and frame type.
pub const FRAME_HEAD_LEN: u32 = 4 + 4 + 1;

/// `std::io::Error`, carried by [`FramingError::Io`]; opaque here.
#[verifier::external_type_specification]
#[verifier::external_body]
pub struct ExIoError(std::io::Error);

/// Errors met while decoding frames.
#[derive(Debug)]
pub enum FramingError {
    BufferCapacity,
    UnsupportedFrameType,
    InvalidMagicNum,
    InvalidFrame,
    Io(std::io::Error),
}

impl From<std::io::Error> for FramingError {
    fn from(src: std::io::Error) -> (e: Self) {
        FramingError::Io(src)
    }
}

impl vstd::std_specs::convert::FromSpecImpl<std::io::Error> for FramingError {
    open spec fn obeys_from_spec() -> bool {
        true
    }

    open spec fn from_spec(v: std::io::Error) -> FramingError {
        FramingError::Io(v)
    }
}

/// Core network frame definition
#[derive(Debug)]
pub enum Frame {
    StreamRequest(StreamRequest),
    CreditUpdate(CreditUpdate),
    Data(Data),
    Ping(u32, StreamId),
    Pong(u32, StreamId),
    /// Catch-all for unknown frame types
    Unknown,
}

/// A request to open a stream with the given credit capacity.
#[derive(Debug)]
pub struct StreamRequest {
    pub stream_id: StreamId,
    pub credit_capacity: u32,
}

/// Grants credit to a stream.
#[derive(Debug)]
pub struct CreditUpdate {
    pub stream_id: StreamId,
    pub credit: u32,
}

/// A payload sent on a stream.
#[derive(Debug)]
pub struct Data {
    pub stream_id: StreamId,
    pub seq_num: u32,
    pub payload: Vec<u8>,
}

/// Head of each frame
#[derive(Debug)]
pub struct FrameHead {
    frame_type: FrameType,
}

/// Byte-mappings for frame types
#[derive(Debug, Copy, Clone, PartialEq, Eq, Structural, Ord, PartialOrd)]
pub enum FrameType {
    StreamRequest,
    Data,
    CreditUpdate,
    Ping,
    Pong,
    Unknown,
}

/// A data frame as a value.
pub struct DataView {
    pub stream_id: StreamId,
    pub seq_num: u32,
    pub payload: Seq<u8>,
}

/// A frame as a value.
pub enum FrameView {
    StreamRequest(StreamRequest),
    CreditUpdate(CreditUpdate),
    Data(DataView),
    Ping(u32, StreamId),
    Pong(u32, StreamId),
    Unknown,
}

impl View for Data {
    type V = DataView;

    open spec fn view(&self) -> DataView {
        DataView { stream_id: self.stream_id, seq_num: self.seq_num, payload: self.payload@ }
    }
}

impl View for Frame {
    type V = FrameView;

    open spec fn view(&self) -> FrameView {
        match self {
            Frame::StreamRequest(r) => FrameView::StreamRequest(*r),
            Frame::CreditUpdate(c) => FrameView::CreditUpdate(*c),
            Frame::Data(d) => FrameView::Data(d@),
            Frame::Ping(n, s) => FrameView::Ping(*n, *s),
            Frame::Pong(n, s) => FrameView::Pong(*n, *s),
            Frame::Unknown => FrameView::Unknown,
        }
    }
}

impl View for FrameHead {
    type V = FrameType;

    closed spec fn view(&self) -> FrameType {
        self.frame_type
    }
}

/// The outcome of a decoding, with the frame taken as a value.
pub open spec fn frame_result_view(r: Result<Frame, FramingError>) -> Result<FrameView, FramingError> {
    match r {
        Ok(f) => Ok(f@),
        Err(e) => Err(e),
    }
}

/// The byte that stands for a frame type on the wire.
pub open spec fn frame_type_byte(t: FrameType) -> u8 {
    match t {
        FrameType::StreamRequest => 1,
        FrameType::Data => 2,
        FrameType::CreditUpdate => 3,
        FrameType::Ping => 4,
        FrameType::Pong => 5,
        FrameType::Unknown => 6,
    }
}

/// The frame type that a byte stands for; bytes of no known type give `Unknown`.
pub open spec fn frame_type_of_byte(b: u8) -> FrameType {
    if b == 1 {
        FrameType::StreamRequest
    } else if b == 2 {
        FrameType::Data
    } else if b == 3 {
        FrameType::CreditUpdate
    } else if b == 4 {
        FrameType::Ping
    } else if b == 5 {
        FrameType::Pong
    } else {
        FrameType::Unknown
    }
}

/// The type of a frame.
pub open spec fn frame_type_of(f: FrameView) -> FrameType {
    match f {
        FrameView::StreamRequest(_) => FrameType::StreamRequest,
        FrameView::CreditUpdate(_) => FrameType::CreditUpdate,
        FrameView::Data(_) => FrameType::Data,
        FrameView::Ping(..) => FrameType::Ping,
        FrameView::Pong(..) => FrameType::Pong,
        FrameView::Unknown => FrameType::Unknown,
    }
}

/// Number of content bytes that follow the head of a frame.
pub open spec fn content_len(f: FrameView) -> nat {
    match f {
        FrameView::StreamRequest(_) => 8,
        FrameView::CreditUpdate(_) => 8,
        FrameView::Data(d) => 12 + d.payload.len(),
        _ => 0,
    }
}

/// The head of a frame of type `t` whose content is `content_len` bytes long.
pub open spec fn head_bytes(t: FrameType, content_len: u32) -> Seq<u8> {
    be_bytes((FRAME_HEAD_LEN + content_len) as u32) + be_bytes(MAGIC_NUM) + seq![frame_type_byte(t)]
}

/// The content of a stream request: stream id, then credit capacity.
pub open spec fn stream_request_bytes(r: StreamRequest) -> Seq<u8> {
    be_bytes(r.stream_id.0) + be_bytes(r.credit_capacity)
}

/// The content of a data frame: stream id, sequence number, payload length, payload.
/// The length field holds the payload length truncated to 32 bits.
pub open spec fn data_bytes(d: DataView) -> Seq<u8> {
    be_bytes(d.stream_id.0) + be_bytes(d.seq_num) + be_bytes(d.payload.len() as u32) + d.payload
}

/// The content bytes of a frame; frames other than stream requests and data have none.
pub open spec fn content_bytes(f: FrameView) -> Seq<u8> {
    match f {
        FrameView::StreamRequest(r) => stream_request_bytes(r),
        FrameView::Data(d) => data_bytes(d),
        _ => Seq::empty(),
    }
}

/// The whole encoding of a frame: head (its length field counting the content length
/// truncated to 32 bits), then content.
pub open spec fn frame_bytes(f: FrameView) -> Seq<u8> {
    head_bytes(frame_type_of(f), content_len(f) as u32) + content_bytes(f)
}

/// Frames that `Frame::encode_into` can encode: credit updates have no encoding, and the
/// length field, the content length truncated to 32 bits plus the head length, must not
/// overflow a `u32`. (A content length of 2^32 bytes or more is truncated, as the length
/// field holds 32 bits.)
pub open spec fn frame_encodable(f: FrameView) -> bool {
    &&& !(f is CreditUpdate)
    &&& (content_len(f) as u32) + FRAME_HEAD_LEN <= u32::MAX
}

/// Decoding of a frame head from the bytes after the length field.
pub open spec fn spec_decode_head(b: Seq<u8>) -> Result<FrameType, FramingError> {
    if b.len() < FRAME_HEAD_LEN - 4 {
        Err(FramingError::BufferCapacity)
    } else if be_value(b) != MAGIC_NUM {
        Err(FramingError::InvalidMagicNum)
    } else {
        Ok(frame_type_of_byte(b[4]))
    }
}

/// Decoding of the content of a stream request; bytes after the first eight are ignored.
pub open spec fn spec_decode_stream_request(b: Seq<u8>) -> Result<FrameView, FramingError> {
    if b.len() < 8 {
        Err(FramingError::InvalidFrame)
    } else {
        Ok(
            FrameView::StreamRequest(
                StreamRequest {
                    stream_id: StreamId(be_value(b)),
                    credit_capacity: be_value(b.skip(4)),
                },
            ),
        )
    }
}

/// Decoding of the content of a data frame: the payload is everything after the
/// twelve bytes of fields, whatever the length field says.
pub open spec fn spec_decode_data(b: Seq<u8>) -> Result<FrameView, FramingError> {
    if b.len() < 12 {
        Err(FramingError::InvalidFrame)
    } else {
        Ok(
            FrameView::Data(
                DataView {
                    stream_id: StreamId(be_value(b)),
                    seq_num: be_value(b.skip(4)),
                    payload: b.skip(12),
                },
            ),
        )
    }
}

/// Inputs on which `Frame::decode_from` is defined: those whose head fails to decode or
/// names a stream request or a data frame.
pub open spec fn frame_decodable(b: Seq<u8>) -> bool {
    match spec_decode_head(b) {
        Ok(t) => t == FrameType::StreamRequest || t == FrameType::Data,
        Err(_) => true,
    }
}

/// Decoding of a whole frame from the bytes after its length field.
pub open spec fn spec_decode_frame(b: Seq<u8>) -> Result<FrameView, FramingError> {
    match spec_decode_head(b) {
        Err(e) => Err(e),
        Ok(t) => if t == FrameType::StreamRequest {
            spec_decode_stream_request(b.skip(5))
        } else {
            spec_decode_data(b.skip(5))
        },
    }
}

impl FrameType {
    /// The byte that stands for this frame type on the wire.
    pub fn to_byte(self) -> (b: u8)
        ensures
            b == frame_type_byte(self),
    {
        match self {
            FrameType::StreamRequest => 1,
            FrameType::Data => 2,
            FrameType::CreditUpdate => 3,
            FrameType::Ping => 4,
            FrameType::Pong => 5,
            FrameType::Unknown => 6,
        }
    }
}

impl From<u8> for FrameType {
    fn from(byte: u8) -> (t: Self) {
        if byte == 1 {
            FrameType::StreamRequest
        } else if byte == 2 {
            FrameType::Data
        } else if byte == 3 {
            FrameType::CreditUpdate
        } else if byte == 4 {
            FrameType::Ping
        } else if byte == 5 {
            FrameType::Pong
        } else {
            FrameType::Unknown
        }
    }
}

impl vstd::std_specs::convert::FromSpecImpl<u8> for FrameType {
    open spec fn obeys_from_spec() -> bool {
        true
    }

    open spec fn from_spec(v: u8) -> FrameType {
        frame_type_of_byte(v)
    }
}

impl FrameHead {
    /// The head of a frame of type `frame_type`.
    pub fn new(frame_type: FrameType) -> (h: Self)
        ensures
            h@ == frame_type,
    {
        FrameHead { frame_type }
    }

    /// Encodes the head of a frame whose content is `content_len` bytes long into `dst`:
    /// the length of the whole frame (head included), the magic number and the frame type.
    /// This conforms to the length-delimited decoder used by the framed reader.
    pub fn encode_into(&self, dst: &mut Vec<u8>, content_len: u32)
        requires
            content_len + FRAME_HEAD_LEN <= u32::MAX,
        ensures
            final(dst)@ == old(dst)@ + head_bytes(self@, content_len),
    {
        let len = FRAME_HEAD_LEN + content_len;
        put_u32_be(dst, len);
        put_u32_be(dst, MAGIC_NUM);
        dst.push(self.frame_type.to_byte());
        assert(final(dst)@ =~= old(dst)@ + head_bytes(self@, content_len));
    }

    /// Decodes a head from `src`, the bytes of a frame after its length field (which the
    /// length-delimited decoder has already taken off): the magic number, then the type.
    /// It reads the first five bytes of `src`; the frame's content follows them.
    pub fn decode_from(src: &[u8]) -> (r: Result<Self, FramingError>)
        ensures
            match r {
                Ok(h) => spec_decode_head(src@) == Ok::<FrameType, FramingError>(h@),
                Err(e) => spec_decode_head(src@) == Err::<FrameType, FramingError>(e),
            },
    {
        if src.len() < (FRAME_HEAD_LEN - 4) as usize {
            return Err(FramingError::BufferCapacity);
        }
        let magic_check = get_u32_be(src, 0);
        assert(src@.subrange(0, 4) =~= src@.take(4));
        if magic_check != MAGIC_NUM {
            return Err(FramingError::InvalidMagicNum);
        }
        let frame_type: FrameType = FrameType::from(src[4]);
        Ok(FrameHead::new(frame_type))
    }

    /// The frame type named by this head.
    pub fn frame_type(&self) -> (t: FrameType)
        ensures
            t == self@,
    {
        self.frame_type
    }
}

/// Encoding and decoding of the content of one kind of frame.
pub trait FrameExt: Sized {
    /// Inputs on which `decode_from` is defined.
    spec fn spec_decodable(src: Seq<u8>) -> bool;

    /// What `decode_from` gives on `src`.
    spec fn spec_decode(src: Seq<u8>) -> Result<FrameView, FramingError>;

    /// Whether `encode_into` is defined on this frame.
    spec fn spec_encodable(&self) -> bool;

    /// The bytes that `encode_into` appends.
    spec fn spec_encoding(&self) -> Seq<u8>;

    /// The number of content bytes of this frame.
    spec fn spec_encoded_len(&self) -> nat;

    /// Decodes the content of a frame from `src`, the bytes that follow its head.
    fn decode_from(src: &[u8]) -> (r: Result<Frame, FramingError>)
        requires
            Self::spec_decodable(src@),
        ensures
            frame_result_view(r) == Self::spec_decode(src@),
    ;

    /// Appends the content of this frame to `dst`.
    fn encode_into(&self, dst: &mut Vec<u8>) -> (r: Result<(), ()>)
        requires
            self.spec_encodable(),
        ensures
            r is Ok,
            final(dst)@ == old(dst)@ + self.spec_encoding(),
    ;

    /// The number of content bytes of this frame.
    fn encoded_len(&self) -> (n: usize)
        requires
            self.spec_encoded_len() <= usize::MAX,
        ensures
            n == self.spec_encoded_len(),
    ;
}

impl StreamRequest {
    /// A request to open stream `stream_id` with `credit_capacity` credits.
    pub fn new(stream_id: StreamId, credit_capacity: u32) -> (r: Self)
        ensures
            r.stream_id == stream_id,
            r.credit_capacity == credit_capacity,
    {
        StreamRequest { stream_id, credit_capacity }
    }
}

impl FrameExt for StreamRequest {
    open spec fn spec_decodable(src: Seq<u8>) -> bool {
        true
    }

    open spec fn spec_decode(src: Seq<u8>) -> Result<FrameView, FramingError> {
        spec_decode_stream_request(src)
    }

    open spec fn spec_encodable(&self) -> bool {
        true
    }

    open spec fn spec_encoding(&self) -> Seq<u8> {
        stream_request_bytes(*self)
    }

    open spec fn spec_encoded_len(&self) -> nat {
        8
    }

    fn decode_from(src: &[u8]) -> (r: Result<Frame, FramingError>) {
        if src.len() < 8 {
            return Err(FramingError::InvalidFrame);
        }
        let stream_id: StreamId = StreamId::from(get_u32_be(src, 0));
        let credit = get_u32_be(src, 4);
        assert(src@.subrange(4, 8) =~= src@.skip(4).subrange(0, 4));
        let stream_req = StreamRequest { stream_id, credit_capacity: credit };
        Ok(Frame::StreamRequest(stream_req))
    }

    fn encode_into(&self, dst: &mut Vec<u8>) -> (r: Result<(), ()>) {
        put_u32_be(dst, self.stream_id.into());
        put_u32_be(dst, self.credit_capacity);
        assert(final(dst)@ =~= old(dst)@ + self.spec_encoding());
        Ok(())
    }

    fn encoded_len(&self) -> (n: usize) {
        4 + 4
    }
}

impl Data {
    /// A data frame carrying `payload` on stream `stream_id`.
    pub fn new(stream_id: StreamId, seq_num: u32, payload: Vec<u8>) -> (d: Self)
        ensures
            d.stream_id == stream_id,
            d.seq_num == seq_num,
            d.payload@ == payload@,
    {
        Data { stream_id, seq_num, payload }
    }

    /// A data frame carrying a copy of `raw_bytes`.
    pub fn with_raw_payload(stream_id: StreamId, seq_num: u32, raw_bytes: &[u8]) -> (d: Self)
        ensures
            d.stream_id == stream_id,
            d.seq_num == seq_num,
            d.payload@ == raw_bytes@,
    {
        Data::new(stream_id, seq_num, slice_to_vec(raw_bytes))
    }

    /// The number of content bytes of this frame: twelve bytes of fields, then the payload.
    pub fn encoded_len(&self) -> (n: usize)
        requires
            self.payload@.len() + 12 <= usize::MAX,
        ensures
            n == self.payload@.len() + 12,
    {
        4 + 4 + 4 + self.payload.len()
    }

    /// The payload.
    pub fn payload_ref(&self) -> (p: &Vec<u8>)
        ensures
            p@ == self.payload@,
    {
        &self.payload
    }

    /// Consumes this frame and returns the raw payload buffer
    pub fn payload(self) -> (p: Vec<u8>)
        ensures
            p@ == self.payload@,
    {
        self.payload
    }
}

impl FrameExt for Data {
    open spec fn spec_decodable(src: Seq<u8>) -> bool {
        true
    }

    open spec fn spec_decode(src: Seq<u8>) -> Result<FrameView, FramingError> {
        spec_decode_data(src)
    }

    open spec fn spec_encodable(&self) -> bool {
        true
    }

    open spec fn spec_encoding(&self) -> Seq<u8> {
        data_bytes(self@)
    }

    open spec fn spec_encoded_len(&self) -> nat {
        12 + self.payload@.len()
    }

    fn decode_from(src: &[u8]) -> (r: Result<Frame, FramingError>) {
        if src.len() < 12 {
            return Err(FramingError::InvalidFrame);
        }
        let stream_id: StreamId = StreamId::from(get_u32_be(src, 0));
        let seq_num = get_u32_be(src, 4);
        let _len = get_u32_be(src, 8);
        let payload = slice_to_vec(slice_subrange(src, 12, src.len()));
        assert(src@.subrange(4, 8) =~= src@.skip(4).subrange(0, 4));
        assert(src@.subrange(12, src@.len() as int) =~= src@.skip(12));
        let data_frame = Data { stream_id, seq_num, payload };
        Ok(Frame::Data(data_frame))
    }

    fn encode_into(&self, dst: &mut Vec<u8>) -> (r: Result<(), ()>) {
        // The payload bytes are copied into `dst`.
        let payload_len = self.payload.len();
        put_u32_be(dst, self.stream_id.into());
        put_u32_be(dst, self.seq_num);
        put_u32_be(dst, payload_len as u32);
        let ghost before = dst@;
        let mut i: usize = 0;
        while i < payload_len
            invariant
                i <= payload_len,
                payload_len == self.payload@.len(),
                dst@ == before + self.payload@.take(i as int),
            decreases payload_len - i,
        {
            dst.push(self.payload[i]);
            i = i + 1;
            assert(dst@ =~= before + self.payload@.take(i as int));
        }
        assert(self.payload@.take(payload_len as int) =~= self.payload@);
        assert(final(dst)@ =~= old(dst)@ + self.spec_encoding());
        Ok(())
    }

    fn encoded_len(&self) -> (n: usize) {
        4 + 4 + 4 + self.payload.len()
    }
}

impl FrameExt for CreditUpdate {
    /// Decoding a credit update is not defined.
    open spec fn spec_decodable(src: Seq<u8>) -> bool {
        false
    }

    open spec fn spec_decode(src: Seq<u8>) -> Result<FrameView, FramingError> {
        Err(FramingError::UnsupportedFrameType)
    }

    /// Encoding a credit update is not defined.
    open spec fn spec_encodable(&self) -> bool {
        false
    }

    open spec fn spec_encoding(&self) -> Seq<u8> {
        Seq::empty()
    }

    open spec fn spec_encoded_len(&self) -> nat {
        8
    }

    /// Credit updates have no decoding: no input meets the precondition, and this body is
    /// never run.
    fn decode_from(src: &[u8]) -> (r: Result<Frame, FramingError>) {
        Err(FramingError::UnsupportedFrameType)
    }

    /// Credit updates have no encoding: no frame meets the precondition, and this body is
    /// never run.
    fn encode_into(&self, dst: &mut Vec<u8>) -> (r: Result<(), ()>) {
        Ok(())
    }

    fn encoded_len(&self) -> (n: usize) {
        4 + 4
    }
}

impl Frame {
    /// The type of this frame.
    pub fn frame_type(&self) -> (t: FrameType)
        ensures
            t == frame_type_of(self@),
    {
        match self {
            Frame::StreamRequest(_) => FrameType::StreamRequest,
            Frame::CreditUpdate(_) => FrameType::CreditUpdate,
            Frame::Data(_) => FrameType::Data,
            Frame::Ping(..) => FrameType::Ping,
            Frame::Pong(..) => FrameType::Pong,
            Frame::Unknown => FrameType::Unknown,
        }
    }

    /// Decodes a frame from `buf`, the bytes of one frame after its length field.
    ///
    /// Decoding is defined for stream requests and data frames, and for every input
    /// whose head is malformed.
    pub fn decode_from(buf: &[u8]) -> (r: Result<Self, FramingError>)
        requires
            frame_decodable(buf@),
        ensures
            frame_result_view(r) == spec_decode_frame(buf@),
    {
        let head = match FrameHead::decode_from(buf) {
            Ok(h) => h,
            Err(e) => return Err(e),
        };
        let rest = slice_subrange(buf, 5, buf.len());
        assert(rest@ =~= buf@.skip(5));
        if head.frame_type() == FrameType::StreamRequest {
            StreamRequest::decode_from(rest)
        } else {
            Data::decode_from(rest)
        }
    }

    /// Whether [`Frame::encode_into`] is defined on this frame: it is not a credit update,
    /// and its length fits the length field.
    pub fn can_encode(&self) -> (b: bool)
        ensures
            b == (frame_encodable(self@) && content_len(self@) <= usize::MAX),
    {
        match self {
            Frame::CreditUpdate(_) => false,
            Frame::Data(d) => {
                let n = d.payload.len();
                if n > usize::MAX - 12 {
                    false
                } else {
                    (((n + 12) as u32) as u64) + (FRAME_HEAD_LEN as u64) <= u32::MAX as u64
                }
            },
            _ => true,
        }
    }

    /// Whether [`Frame::decode_from`] is defined on `buf`.
    pub fn can_decode(buf: &[u8]) -> (b: bool)
        ensures
            b == frame_decodable(buf@),
    {
        match FrameHead::decode_from(buf) {
            Ok(h) => {
                let t = h.frame_type();
                t == FrameType::StreamRequest || t == FrameType::Data
            },
            Err(_) => true,
        }
    }

    /// Appends the encoding of this frame, head and content, to `dst`.
    ///
    /// Ping, pong and unknown frames have no content: their head is written and
    /// `Err(())` is returned.
    pub fn encode_into(&self, dst: &mut Vec<u8>) -> (r: Result<(), ()>)
        requires
            frame_encodable(self@),
            content_len(self@) <= usize::MAX,
        ensures
            final(dst)@ == old(dst)@ + frame_bytes(self@),
            r is Ok <==> (self@ is StreamRequest || self@ is Data),
    {
        let head = FrameHead::new(self.frame_type());
        let content_size = self.encoded_len() as u32;
        head.encode_into(dst, content_size);
        let ghost after_head = dst@;
        let r = match self {
            Frame::StreamRequest(frame) => frame.encode_into(dst),
            Frame::Data(frame) => frame.encode_into(dst),
            _ => Err(()),
        };
        assert(final(dst)@ =~= old(dst)@ + frame_bytes(self@));
        r
    }

    /// The number of content bytes of this frame: stream requests and credit updates
    /// have eight, data frames twelve plus the payload, other frames none.
    pub fn encoded_len(&self) -> (n: usize)
        requires
            content_len(self@) <= usize::MAX,
        ensures
            n == content_len(self@),
    {
        match self {
            Frame::StreamRequest(frame) => frame.encoded_len(),
            Frame::CreditUpdate(frame) => frame.encoded_len(),
            Frame::Data(frame) => FrameExt::encoded_len(frame),
            _ => 0,
        }
    }
}

/// The byte of a frame type stands for that frame type.
pub proof fn lemma_frame_type_byte_roundtrip(t: FrameType)
    ensures
        frame_type_of_byte(frame_type_byte(t)) == t,
{
}

/// The value of the first four bytes of `a + b`, when `a` has four bytes, is that of `a`.
proof fn lemma_be_value_prefix(a: Seq<u8>, b: Seq<u8>)
    requires
        a.len() == 4,
    ensures
        be_value(a + b) == be_value(a),
{
    assert((a + b)[0] == a[0] && (a + b)[1] == a[1] && (a + b)[2] == a[2] && (a + b)[3] == a[3]);
}

/// A head decodes, from the bytes after its length field, to the frame type it was
/// written with.
pub proof fn lemma_head_roundtrip(t: FrameType, content_len: u32, rest: Seq<u8>)
    ensures
        spec_decode_head((head_bytes(t, content_len) + rest).skip(4)) == Ok::<FrameType, FramingError>(t),
        (head_bytes(t, content_len) + rest).skip(9) == rest,
{
    let len_bytes = be_bytes((FRAME_HEAD_LEN + content_len) as u32);
    let after = be_bytes(MAGIC_NUM) + seq![frame_type_byte(t)] + rest;
    assert((head_bytes(t, content_len) + rest).skip(4) =~= after);
    lemma_be_value_of_bytes(MAGIC_NUM);
    lemma_be_value_prefix(be_bytes(MAGIC_NUM), seq![frame_type_byte(t)] + rest);
    assert(after =~= be_bytes(MAGIC_NUM) + (seq![frame_type_byte(t)] + rest));
    assert(after[4] == frame_type_byte(t));
    lemma_frame_type_byte_roundtrip(t);
    assert((head_bytes(t, content_len) + rest).skip(9) =~= rest);
}

/// Round trip: decoding the encoding of a stream request or a data frame, from the
/// bytes after its length field, gives the frame back.
pub proof fn lemma_frame_roundtrip(f: FrameView)
    requires
        f is StreamRequest || f is Data,
    ensures
        frame_decodable(frame_bytes(f).skip(4)),
        spec_decode_frame(frame_bytes(f).skip(4)) == Ok::<FrameView, FramingError>(f),
{
    let t = frame_type_of(f);
    let content = content_bytes(f);
    lemma_head_roundtrip(t, content_len(f) as u32, content);
    let body = frame_bytes(f).skip(4);
    assert(body.skip(5) =~= content);
    match f {
        FrameView::StreamRequest(r) => {
            lemma_be_value_of_bytes(r.stream_id.0);
            lemma_be_value_of_bytes(r.credit_capacity);
            lemma_be_value_prefix(be_bytes(r.stream_id.0), be_bytes(r.credit_capacity));
            assert(content.skip(4) =~= be_bytes(r.credit_capacity));
        },
        FrameView::Data(d) => {
            let sid = be_bytes(d.stream_id.0);
            let seqb = be_bytes(d.seq_num);
            let lenb = be_bytes(d.payload.len() as u32);
            lemma_be_value_of_bytes(d.stream_id.0);
            lemma_be_value_of_bytes(d.seq_num);
            assert(content =~= sid + (seqb + lenb + d.payload));
            lemma_be_value_prefix(sid, seqb + lenb + d.payload);
            assert(content.skip(4) =~= seqb + (lenb + d.payload));
            lemma_be_value_prefix(seqb, lenb + d.payload);
            assert(content.skip(12) =~= d.payload);
            assert(spec_decode_data(content) == Ok::<FrameView, FramingError>(f));
        },
        _ => {},
    }
}

/// The encoding of a frame other than a credit update is its head and its content.
pub proof fn lemma_frame_bytes_len(f: FrameView)
    requires
        !(f is CreditUpdate),
    ensures
        frame_bytes(f).len() == content_len(f) + FRAME_HEAD_LEN,
{
    match f {
        FrameView::Data(d) => {
            assert(content_bytes(f).len() == 12 + d.payload.len());
        },
        _ => {},
    }
}

/// The length field at the start of an encoded frame holds the length of the whole
/// encoding, so that a length-delimited reader takes exactly one frame.
pub proof fn lemma_frame_length_field(f: FrameView)
    requires
        !(f is CreditUpdate),
        content_len(f) + FRAME_HEAD_LEN <= u32::MAX,
    ensures
        be_value(frame_bytes(f)) == frame_bytes(f).len(),
        frame_bytes(f).len() == content_len(f) + FRAME_HEAD_LEN,
{
    let t = frame_type_of(f);
    let n = (FRAME_HEAD_LEN + (content_len(f) as u32)) as u32;
    lemma_be_value_of_bytes(n);
    let tail = be_bytes(MAGIC_NUM) + seq![frame_type_byte(t)] + content_bytes(f);
    assert(frame_bytes(f) =~= be_bytes(n) + tail);
    lemma_be_value_prefix(be_bytes(n), tail);
    match f {
        FrameView::Data(d) => {
            assert(content_bytes(f).len() == 12 + d.payload.len());
        },
        _ => {},
    }
}

/// The content of an encoded data frame is its stream id, its sequence number and the
/// length of its payload, each as four big-endian bytes, then the payload: in particular the
/// length field holds the payload's length.
pub proof fn lemma_data_fields(d: DataView)
    requires
        d.payload.len() <= u32::MAX,
    ensures
        data_bytes(d).len() == 12 + d.payload.len(),
        be_value(data_bytes(d)) == d.stream_id.0,
        be_value(data_bytes(d).skip(4)) == d.seq_num,
        be_value(data_bytes(d).skip(8)) as int == d.payload.len(),
        data_bytes(d).skip(12) == d.payload,
{
    let sid = be_bytes(d.stream_id.0);
    let seqb = be_bytes(d.seq_num);
    let lenb = be_bytes(d.payload.len() as u32);
    let content = data_bytes(d);
    lemma_be_value_of_bytes(d.stream_id.0);
    lemma_be_value_of_bytes(d.seq_num);
    lemma_be_value_of_bytes(d.payload.len() as u32);
    assert(content =~= sid + (seqb + lenb + d.payload));
    lemma_be_value_prefix(sid, seqb + lenb + d.payload);
    assert(content.skip(4) =~= seqb + (lenb + d.payload));
    lemma_be_value_prefix(seqb, lenb + d.payload);
    assert(content.skip(8) =~= lenb + d.payload);
    lemma_be_value_prefix(lenb, d.payload);
    assert(content.skip(12) =~= d.payload);
}

/// A head decodes only when its first four bytes are exactly the magic number: shorter
/// input is refused for its length, and any other first four bytes for the magic number.
/// So a frame decodes only from bytes that start with the magic number.
pub proof fn lemma_head_checks_magic(b: Seq<u8>)
    ensures
        spec_decode_head(b) is Ok <==> (b.len() >= 5 && b.take(4) == be_bytes(MAGIC_NUM)),
        b.len() < 5 ==> spec_decode_head(b) == Err::<FrameType, FramingError>(
            FramingError::BufferCapacity,
        ),
        b.len() >= 5 && b.take(4) != be_bytes(MAGIC_NUM) ==> spec_decode_head(b) == Err::<
            FrameType,
            FramingError,
        >(FramingError::InvalidMagicNum),
        spec_decode_frame(b) is Ok ==> b.len() >= 5 && b.take(4) == be_bytes(MAGIC_NUM),
{
    if b.len() >= 5 {
        let head = b.take(4);
        assert(b =~= head + b.skip(4));
        lemma_be_value_prefix(head, b.skip(4));
        lemma_be_bytes_of_value(head);
        lemma_be_value_of_bytes(MAGIC_NUM);
    }
}

} // verus!
