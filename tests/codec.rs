use btproxy::codec::try_decode;
use btproxy::error::BtProxyError;
use btproxy::frame::{Frame, FrameType, HelloFrame, TargetAddr};

fn all_frames() -> Vec<Frame> {
    let hello = HelloFrame {
        version: 1,
        flags: 1,
        max_frame: 65536,
        keepalive_ms: 10_000,
        nonce: 0x0102_0304_0506_0708,
        hmac: Some([7u8; 32]),
    };
    vec![
        Frame::Hello(hello.clone()),
        Frame::HelloAck(HelloFrame { hmac: None, ..hello }),
        Frame::Open { stream_id: 1, target: TargetAddr::Domain("example.test".to_string(), 80) },
        Frame::Open { stream_id: 2, target: TargetAddr::IpV4([10, 0, 0, 1], 443) },
        Frame::Open { stream_id: 3, target: TargetAddr::IpV6([1; 16], 8080) },
        Frame::OpenOk { stream_id: 4 },
        Frame::OpenErr { stream_id: 5, code: 1, message: "no route".to_string() },
        Frame::Data { stream_id: 6, payload: b"hello".to_vec() },
        Frame::Fin { stream_id: 7 },
        Frame::Rst { stream_id: 8, code: 9 },
        Frame::Ping { nonce: 42 },
        Frame::Pong { nonce: u64::MAX },
    ]
}

#[test]
fn round_trip_every_frame_type() {
    for f in all_frames() {
        let mut buf = f.encode().unwrap();
        let len = buf.len();
        buf.extend_from_slice(&[0xAA, 0xBB]);
        let got = try_decode(&mut buf, 65536).unwrap().unwrap();
        assert_eq!(got, f);
        assert_eq!(buf, vec![0xAA, 0xBB]);
        assert!(len >= 5);
    }
}

#[test]
fn encode_layout_of_data_frame() {
    let f = Frame::Data { stream_id: 0x0102_0304, payload: vec![9, 8] };
    let b = f.encode().unwrap();
    assert_eq!(b, vec![0, 0, 0, 9, 0x20, 1, 2, 3, 4, 0, 2, 9, 8]);
}

#[test]
fn encode_layout_of_ping() {
    let b = Frame::Ping { nonce: 1 }.encode().unwrap();
    assert_eq!(b, vec![0, 0, 0, 9, 0x30, 0, 0, 0, 0, 0, 0, 0, 1]);
}

#[test]
fn encode_refuses_oversized_payload() {
    let f = Frame::Data { stream_id: 1, payload: vec![0u8; 65536] };
    assert!(matches!(f.encode(), Err(BtProxyError::Protocol(_))));
    let ok = Frame::Data { stream_id: 1, payload: vec![0u8; 65535] };
    assert_eq!(ok.encode().unwrap().len(), 4 + 1 + 4 + 2 + 65535);
}

#[test]
fn need_more_on_short_buffers() {
    let full = Frame::Fin { stream_id: 3 }.encode().unwrap();
    for cut in 0..full.len() {
        let mut buf = full[..cut].to_vec();
        assert!(matches!(try_decode(&mut buf, 65536), Ok(None)));
        assert_eq!(buf, full[..cut].to_vec());
    }
}

#[test]
fn frame_too_large_is_fatal_and_leaves_buffer() {
    let max = 1024usize;
    let mut buf = ((max + 1) as u32).to_be_bytes().to_vec();
    buf.push(0x20);
    let before = buf.clone();
    match try_decode(&mut buf, max) {
        Err(BtProxyError::Protocol(m)) => assert_eq!(m, "frame too large"),
        other => panic!("unexpected {:?}", other),
    }
    assert_eq!(buf, before);
}

#[test]
fn bounded_decode_at_the_limit() {
    let f = Frame::Data { stream_id: 1, payload: vec![5u8; 10] };
    let enc = f.encode().unwrap();
    let announced = enc.len() - 4;
    let mut a = enc.clone();
    assert!(matches!(try_decode(&mut a, announced), Ok(Some(_))));
    let mut b = enc.clone();
    assert!(matches!(try_decode(&mut b, announced - 1), Err(BtProxyError::Protocol(_))));
}

#[test]
fn unknown_type_is_protocol_error() {
    let mut buf = vec![0, 0, 0, 1, 0x77];
    assert!(matches!(try_decode(&mut buf, 65536), Err(BtProxyError::Protocol(_))));
    assert_eq!(buf.len(), 5);
    assert!(matches!(Frame::decode(0x77, &[]), Err(BtProxyError::Protocol(_))));
}

#[test]
fn empty_frame_is_protocol_error() {
    let mut buf = vec![0, 0, 0, 0];
    assert!(matches!(try_decode(&mut buf, 65536), Err(BtProxyError::Protocol(_))));
}

#[test]
fn truncated_payloads_are_protocol_errors() {
    assert!(matches!(Frame::decode(0x01, &[0u8; 19]), Err(BtProxyError::Protocol(_))));
    assert!(matches!(Frame::decode(0x11, &[0u8; 3]), Err(BtProxyError::Protocol(_))));
    // a string length beyond the payload
    assert!(matches!(Frame::decode(0x12, &[0, 0, 0, 1, 0, 1, 0, 9, b'x']), Err(BtProxyError::Protocol(_))));
    assert!(matches!(Frame::decode(0x20, &[0, 0, 0, 1, 0, 3, 1]), Err(BtProxyError::Protocol(_))));
    // invalid address type
    assert!(matches!(Frame::decode(0x10, &[0, 0, 0, 1, 9]), Err(BtProxyError::Protocol(_))));
}

#[test]
fn hello_without_mac_and_trailing_bytes() {
    let mut p = vec![0u8, 1, 0, 0, 0, 1, 0, 0, 0, 0, 0x27, 0x10];
    p.extend_from_slice(&5u64.to_be_bytes());
    p.extend_from_slice(&[1, 2, 3]);
    match Frame::decode(0x02, &p).unwrap() {
        Frame::HelloAck(h) => {
            assert_eq!(h.version, 1);
            assert_eq!(h.max_frame, 65536);
            assert_eq!(h.keepalive_ms, 10_000);
            assert_eq!(h.nonce, 5);
            assert_eq!(h.hmac, None);
        }
        other => panic!("unexpected {:?}", other),
    }
}

#[test]
fn invalid_utf8_message_is_decoded_lossily() {
    let p = vec![0, 0, 0, 1, 0, 2, 0, 2, 0xff, b'a'];
    match Frame::decode(0x12, &p).unwrap() {
        Frame::OpenErr { stream_id, code, message } => {
            assert_eq!(stream_id, 1);
            assert_eq!(code, 2);
            assert_eq!(message, "\u{fffd}a");
        }
        other => panic!("unexpected {:?}", other),
    }
}

#[test]
fn frame_type_codes() {
    assert_eq!(FrameType::Hello.code(), 0x01);
    assert_eq!(FrameType::Pong.code(), 0x31);
    assert_eq!(FrameType::from_code(0x22), Some(FrameType::Rst));
    assert_eq!(FrameType::from_code(0x23), None);
}

#[test]
fn two_frames_in_one_buffer_come_out_in_order() {
    let mut buf = Frame::Data { stream_id: 1, payload: b"a".to_vec() }.encode().unwrap();
    buf.extend(Frame::Data { stream_id: 1, payload: b"b".to_vec() }.encode().unwrap());
    let a = try_decode(&mut buf, 65536).unwrap().unwrap();
    let b = try_decode(&mut buf, 65536).unwrap().unwrap();
    assert_eq!(a, Frame::Data { stream_id: 1, payload: b"a".to_vec() });
    assert_eq!(b, Frame::Data { stream_id: 1, payload: b"b".to_vec() });
    assert!(buf.is_empty());
}
