use flowframe::frames::{Data, Frame, StreamRequest};
use flowframe::protocol::codec::buffer::{ByteCursor, OutboundBuffer};
use flowframe::protocol::codec::writer::{
    BufferReadiness, FrameWriter, Watermarks, WriteError, WriteOutcome, WriteState, Writer,
};
use flowframe::stream::StreamId;

/// Writes everything the writer holds, `step` bytes at a time, and returns the bytes.
fn drain(w: &mut Writer, step: usize) -> Vec<u8> {
    let mut out = Vec::new();
    w.prepare_flush();
    while w.has_remaining() {
        let chunk = w.current_chunk();
        let n = chunk.len().min(step);
        out.extend_from_slice(&chunk[..n]);
        w.record_written(n);
    }
    out
}

#[test]
fn write_state_blocking() {
    assert!(WriteState::Error.is_blocked());
    assert!(WriteState::HighWatermarkReached.is_blocked());
    assert!(!WriteState::Writable.is_blocked());
}

#[test]
fn buffer_data_counts_room_under_high_watermark() {
    let mut w = Writer::new();
    assert!(w.is_writable());
    assert_eq!(w.buffer_data(vec![0; 1000]), Ok(64 * 1024 - 1000));
    assert_eq!(w.pending_bytes(), 1000);
    assert_eq!(w.buffer_readiness(), BufferReadiness::Ready);
}

#[test]
fn high_watermark_blocks_and_low_watermark_releases() {
    let mut w = Writer::new();
    w.set_watermarks(20, 10);
    assert_eq!(w.buffer_data(vec![1; 15]), Ok(5));
    assert_eq!(w.buffer_data(vec![2; 10]), Ok(0));
    assert!(!w.is_writable());
    assert_eq!(w.buffer_readiness(), BufferReadiness::NeedsFlush);
    assert_eq!(w.buffer_data(vec![3; 1]), Err(WriteError::NotReady(vec![3])));
    assert_eq!(w.pending_bytes(), 25);
    // Oldest buffer first.
    w.prepare_flush();
    assert_eq!(w.current_chunk(), &[1u8; 15][..]);
    w.record_written(10);
    assert_eq!(w.pending_bytes(), 15);
    assert!(!w.is_writable());
    w.record_written(5);
    assert_eq!(w.pending_bytes(), 10);
    // Not yet below the low watermark.
    assert!(!w.is_writable());
    assert_eq!(w.current_chunk(), &[2u8; 10][..]);
    w.record_written(1);
    assert_eq!(w.pending_bytes(), 9);
    assert!(w.is_writable());
    assert_eq!(w.buffer_readiness(), BufferReadiness::Ready);
}

#[test]
fn swapped_watermarks_are_ordered() {
    let mut w = Writer::new();
    w.set_watermarks(10, 20);
    assert_eq!(w.buffer_data(vec![0; 5]), Ok(15));
    let _ = Watermarks::from((30usize, 4usize));
}

#[test]
fn buffered_bytes_are_written_in_order() {
    let mut w = Writer::new();
    assert_eq!(w.buffer_data(b"ab".to_vec()), Ok(65534));
    assert_eq!(w.buffer_data(b"cd".to_vec()), Ok(65532));
    assert!(w.buffer_data(vec![1, 2, 3]).is_ok());
    assert!(w.buffer_data(vec![4, 5]).is_ok());
    assert_eq!(drain(&mut w, 2), vec![b'a', b'b', b'c', b'd', 1, 2, 3, 4, 5]);
    assert_eq!(w.pending_bytes(), 0);
    assert!(!w.has_remaining());
}

#[test]
fn advance_takes_next_buffer() {
    let mut w = Writer::new();
    assert!(w.buffer_data(vec![1]).is_ok());
    assert!(!w.has_remaining());
    w.advance();
    assert!(w.has_remaining());
    assert_eq!(w.current_chunk(), &[1u8][..]);
    w.advance();
    assert!(!w.has_remaining());
}

#[test]
fn write_error_descriptions() {
    assert_eq!(WriteError::HighWatermark.description(), "Buffering would exceed high watermark");
    assert_eq!(WriteError::NotReady(vec![]).description(), "Writer is not ready");
    assert_eq!(WriteError::WouldBlock.description(), "Writer would block");
    assert_eq!(WriteError::Io.description(), "I/O error");
}

#[test]
fn frame_writer_buffers_encoded_frames() {
    let mut fw = FrameWriter::new();
    assert!(fw.is_writable());
    let room = fw
        .buffer_frame(Frame::StreamRequest(StreamRequest::new(StreamId(1), 2)))
        .unwrap();
    assert_eq!(room, 64 * 1024 - 17);
    let room = fw
        .buffer_frame(Frame::Data(Data::new(StreamId(1), 0, vec![9])))
        .unwrap();
    assert_eq!(room, 64 * 1024 - 17 - 22);
    let bytes = drain(fw.writer_mut(), 7);
    assert_eq!(bytes.len(), 39);
    assert_eq!(&bytes[..4], &[0, 0, 0, 17]);
    assert_eq!(&bytes[17..21], &[0, 0, 0, 22]);
    assert_eq!(bytes[38], 9);
    assert_eq!(fw.buffer_readiness(), BufferReadiness::Ready);
}

#[test]
fn outbound_buffer_is_taken_from_the_front() {
    let mut a: OutboundBuffer<Vec<u8>> = OutboundBuffer::with_capacity(4);
    a.add_data(b"a".to_vec());
    a.add_data(b"b".to_vec());
    assert_eq!(a.next(), Some(b"a".to_vec()));
    assert_eq!(a.next(), Some(b"b".to_vec()));
    assert_eq!(a.next(), None);
    let mut b: OutboundBuffer<u8> = OutboundBuffer::with_capacity(4);
    b.push_back(1);
    b.add_data(2);
    b.push_front(0);
    assert_eq!(b.next(), Some(0));
    assert_eq!(b.next(), Some(1));
    assert_eq!(b.next(), Some(2));
    assert_eq!(b.next(), None);
    let mut v: OutboundBuffer<Vec<u8>> = OutboundBuffer::with_capacity(1);
    v.add_data(vec![1, 2]);
    let c = v.next_buf().unwrap();
    assert_eq!(c.remaining(), 2);
    assert!(v.next_buf().is_none());
}

#[test]
fn byte_cursor_advances() {
    let mut c = ByteCursor::new(vec![1, 2, 3]);
    assert!(c.has_remaining());
    c.advance(2);
    assert_eq!(c.chunk(), &[3u8][..]);
    c.advance(1);
    assert!(!c.has_remaining());
}

#[test]
fn empty_buffers_do_not_stop_a_flush() {
    let mut w = Writer::new();
    assert!(w.buffer_data(vec![1]).is_ok());
    assert!(w.buffer_data(Vec::new()).is_ok());
    assert!(w.buffer_data(vec![2, 3]).is_ok());
    assert_eq!(w.pending_bytes(), 3);
    w.record_failure();
    assert_eq!(w.buffer_readiness(), BufferReadiness::Failed);
    let mut v = Writer::new();
    assert!(v.buffer_data(vec![1]).is_ok());
    assert!(v.buffer_data(Vec::new()).is_ok());
    assert_eq!(drain(&mut v, 8), vec![1]);
    assert_eq!(v.pending_bytes(), 0);
    assert!(!v.has_remaining());
    let mut u = Writer::new();
    assert!(u.buffer_data(Vec::new()).is_ok());
    assert!(u.buffer_data(vec![7]).is_ok());
    u.prepare_flush();
    assert!(u.has_remaining());
    assert_eq!(u.current_chunk(), &[7u8][..]);
}

#[test]
fn a_failed_writer_reports_failure() {
    let mut w = Writer::new();
    assert!(w.buffer_data(vec![1, 2]).is_ok());
    w.record_failure();
    assert_eq!(w.buffer_readiness(), BufferReadiness::Failed);
    assert!(!w.is_writable());
    assert_eq!(w.pending_bytes(), 2);
    let mut fw = FrameWriter::new();
    fw.writer_mut().record_failure();
    assert_eq!(fw.buffer_readiness(), BufferReadiness::Failed);
}

#[test]
fn write_error_messages() {
    assert_eq!(
        WriteError::HighWatermark.message(),
        "writer error: Buffering would exceed high watermark"
    );
    assert_eq!(WriteError::NotReady(vec![1]).message(), "writer error: Writer is not ready");
    assert_eq!(WriteError::WouldBlock.message(), "writer error: Writer would block");
    assert_eq!(WriteError::Io.message(), "writer error: I/O error");
}

#[test]
fn an_error_is_not_cleared_by_later_writes() {
    let mut w = Writer::new();
    assert!(w.buffer_data(vec![1]).is_ok());
    w.record_failure();
    w.prepare_flush();
    w.record_written(1);
    assert_eq!(w.pending_bytes(), 0);
    assert_eq!(w.buffer_readiness(), BufferReadiness::Failed);
    w.set_watermarks(2, 1);
    assert!(w.buffer_data(vec![0; 5]).is_ok());
    assert_eq!(w.buffer_readiness(), BufferReadiness::Failed);
    assert_eq!(drain(&mut w, 2), vec![0; 5]);
    assert_eq!(w.buffer_readiness(), BufferReadiness::Failed);
}

#[test]
fn advance_takes_an_empty_buffer_too() {
    let mut w = Writer::new();
    assert!(w.buffer_data(Vec::new()).is_ok());
    assert!(w.buffer_data(vec![4]).is_ok());
    w.advance();
    assert!(!w.has_remaining());
    w.advance();
    assert_eq!(w.current_chunk(), &[4u8][..]);
}

#[test]
fn outcomes_are_recorded() {
    let mut w = Writer::new();
    w.set_watermarks(3, 2);
    assert_eq!(w.buffer_data(vec![1, 2, 3, 4]), Ok(0));
    assert_eq!(w.buffer_readiness(), BufferReadiness::NeedsFlush);
    w.prepare_flush();
    w.record_outcome(WriteOutcome::Pending);
    assert_eq!(w.pending_bytes(), 4);
    w.record_outcome(WriteOutcome::Written(3));
    assert_eq!(w.pending_bytes(), 1);
    assert_eq!(w.buffer_readiness(), BufferReadiness::Ready);
    assert_eq!(w.current_chunk(), &[4u8][..]);
    w.record_outcome(WriteOutcome::Flushed);
    assert_eq!(w.buffer_readiness(), BufferReadiness::Ready);
    w.record_outcome(WriteOutcome::Failed);
    assert_eq!(w.buffer_readiness(), BufferReadiness::Failed);
}
