use flowframe::frames::{
    CreditUpdate, Data, Frame, FrameExt, FrameHead, FrameType, FramingError, StreamRequest,
    FRAME_HEAD_LEN, MAGIC_NUM,
};
use flowframe::stream::StreamId;

fn encode(frame: &Frame) -> (Result<(), ()>, Vec<u8>) {
    let mut dst = Vec::new();
    let r = frame.encode_into(&mut dst);
    (r, dst)
}

#[test]
fn frame_type_bytes() {
    assert_eq!(FrameType::from(1u8), FrameType::StreamRequest);
    assert_eq!(FrameType::from(2u8), FrameType::Data);
    assert_eq!(FrameType::from(3u8), FrameType::CreditUpdate);
    assert_eq!(FrameType::from(4u8), FrameType::Ping);
    assert_eq!(FrameType::from(5u8), FrameType::Pong);
    assert_eq!(FrameType::from(0u8), FrameType::Unknown);
    assert_eq!(FrameType::from(200u8), FrameType::Unknown);
    for t in [
        FrameType::StreamRequest,
        FrameType::Data,
        FrameType::CreditUpdate,
        FrameType::Ping,
        FrameType::Pong,
        FrameType::Unknown,
    ] {
        assert_eq!(FrameType::from(t.to_byte()), t);
    }
    assert_eq!(FrameType::Unknown.to_byte(), 6);
}

#[test]
fn stream_request_encoding_is_exact() {
    let frame = Frame::StreamRequest(StreamRequest::new(StreamId(0x01020304), 0x0A0B0C0D));
    assert_eq!(frame.encoded_len(), 8);
    let (r, bytes) = encode(&frame);
    assert_eq!(r, Ok(()));
    assert_eq!(
        bytes,
        vec![
            0, 0, 0, 17, 0xC0, 0xA1, 0xBA, 0x11, 1, 1, 2, 3, 4, 0x0A, 0x0B, 0x0C, 0x0D
        ]
    );
}

#[test]
fn data_encoding_is_exact() {
    let frame = Frame::Data(Data::with_raw_payload(StreamId(5), 9, &[0xAA, 0xBB, 0xCC]));
    assert_eq!(frame.encoded_len(), 15);
    let (r, bytes) = encode(&frame);
    assert_eq!(r, Ok(()));
    assert_eq!(
        bytes,
        vec![
            0, 0, 0, 24, 0xC0, 0xA1, 0xBA, 0x11, 2, 0, 0, 0, 5, 0, 0, 0, 9, 0, 0, 0, 3, 0xAA,
            0xBB, 0xCC
        ]
    );
}

#[test]
fn ping_encodes_head_only_and_fails() {
    let frame = Frame::Ping(3, StreamId(1));
    assert_eq!(frame.encoded_len(), 0);
    let (r, bytes) = encode(&frame);
    assert_eq!(r, Err(()));
    assert_eq!(bytes, vec![0, 0, 0, 9, 0xC0, 0xA1, 0xBA, 0x11, 4]);
    let (r, bytes) = encode(&Frame::Unknown);
    assert_eq!(r, Err(()));
    assert_eq!(bytes, vec![0, 0, 0, 9, 0xC0, 0xA1, 0xBA, 0x11, 6]);
}

#[test]
fn credit_update_length() {
    let frame = Frame::CreditUpdate(CreditUpdate { stream_id: StreamId(1), credit: 2 });
    assert_eq!(frame.encoded_len(), 8);
    assert_eq!(frame.frame_type(), FrameType::CreditUpdate);
}

#[test]
fn stream_request_roundtrip() {
    let frame = Frame::StreamRequest(StreamRequest::new(StreamId(77), 4096));
    let (_, bytes) = encode(&frame);
    match Frame::decode_from(&bytes[4..]) {
        Ok(Frame::StreamRequest(r)) => {
            assert_eq!(r.stream_id, StreamId(77));
            assert_eq!(r.credit_capacity, 4096);
        }
        other => panic!("unexpected {:?}", other),
    }
}

#[test]
fn data_roundtrip() {
    let payload: Vec<u8> = (0..200u32).map(|i| (i % 251) as u8).collect();
    let frame = Frame::Data(Data::new(StreamId(3), 42, payload.clone()));
    let (_, bytes) = encode(&frame);
    assert_eq!(bytes.len(), 9 + 12 + 200);
    let len = u32::from_be_bytes([bytes[0], bytes[1], bytes[2], bytes[3]]);
    assert_eq!(len as usize, bytes.len());
    match Frame::decode_from(&bytes[4..]) {
        Ok(Frame::Data(d)) => {
            assert_eq!(d.stream_id, StreamId(3));
            assert_eq!(d.seq_num, 42);
            assert_eq!(d.payload_ref(), &payload);
            assert_eq!(d.payload(), payload);
        }
        other => panic!("unexpected {:?}", other),
    }
}

#[test]
fn decode_errors() {
    match Frame::decode_from(&[0xC0, 0xA1, 0xBA]) {
        Err(FramingError::BufferCapacity) => {}
        other => panic!("unexpected {:?}", other),
    }
    match Frame::decode_from(&[0, 0, 0, 0, 1, 0, 0, 0, 0, 0, 0, 0, 0]) {
        Err(FramingError::InvalidMagicNum) => {}
        other => panic!("unexpected {:?}", other),
    }
    match Frame::decode_from(&[0xC0, 0xA1, 0xBA, 0x11, 1, 0, 0, 0]) {
        Err(FramingError::InvalidFrame) => {}
        other => panic!("unexpected {:?}", other),
    }
    match Frame::decode_from(&[0xC0, 0xA1, 0xBA, 0x11, 2, 0, 0, 0, 1, 0, 0, 0, 2, 0, 0]) {
        Err(FramingError::InvalidFrame) => {}
        other => panic!("unexpected {:?}", other),
    }
}

#[test]
fn data_payload_is_everything_after_fields() {
    // The length field says 1, but the payload is the whole rest.
    let body = [0xC0, 0xA1, 0xBA, 0x11, 2, 0, 0, 0, 1, 0, 0, 0, 2, 0, 0, 0, 1, 7, 8, 9];
    match Frame::decode_from(&body) {
        Ok(Frame::Data(d)) => assert_eq!(d.payload, vec![7, 8, 9]),
        other => panic!("unexpected {:?}", other),
    }
}

#[test]
fn stream_request_ignores_trailing_bytes() {
    let body = [0, 0, 0, 1, 0, 0, 0, 2, 99, 99];
    match StreamRequest::decode_from(&body) {
        Ok(Frame::StreamRequest(r)) => {
            assert_eq!(r.stream_id, StreamId(1));
            assert_eq!(r.credit_capacity, 2);
        }
        other => panic!("unexpected {:?}", other),
    }
}

#[test]
fn head_roundtrip() {
    let head = FrameHead::new(FrameType::Pong);
    let mut dst = Vec::new();
    head.encode_into(&mut dst, 8);
    assert_eq!(dst, vec![0, 0, 0, 17, 0xC0, 0xA1, 0xBA, 0x11, 5]);
    let decoded = FrameHead::decode_from(&dst[4..]).unwrap();
    assert_eq!(decoded.frame_type(), FrameType::Pong);
    assert_eq!(FRAME_HEAD_LEN, 9);
    assert_eq!(MAGIC_NUM, 0xC0A1BA11);
}

#[test]
fn frame_ext_lengths_and_encodings() {
    let r = StreamRequest::new(StreamId(2), 3);
    assert_eq!(r.encoded_len(), 8);
    let mut dst = vec![0xFF];
    assert_eq!(r.encode_into(&mut dst), Ok(()));
    assert_eq!(dst, vec![0xFF, 0, 0, 0, 2, 0, 0, 0, 3]);
    let d = Data::new(StreamId(1), 2, vec![5, 6]);
    assert_eq!(Data::encoded_len(&d), 14);
    assert_eq!(FrameExt::encoded_len(&d), 14);
    let c = CreditUpdate { stream_id: StreamId(1), credit: 1 };
    assert_eq!(c.encoded_len(), 8);
}

#[test]
fn io_error_converts_to_framing_error() {
    let e = std::io::Error::new(std::io::ErrorKind::Other, "x");
    match FramingError::from(e) {
        FramingError::Io(_) => {}
        other => panic!("unexpected {:?}", other),
    }
}
