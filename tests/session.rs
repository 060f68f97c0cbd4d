use btproxy::error::BtProxyError;
use btproxy::frame::{Frame, TargetAddr};
use btproxy::handshake::{build_hello, build_hello_ack, compute_hmac, verify_hmac};
use btproxy::session::{Action, MuxConfig, MuxCore, Role};

fn new_core(role: Role, psk: Option<&[u8]>) -> MuxCore {
    let cfg = MuxConfig { psk: psk.map(|k| k.to_vec()), ..MuxConfig::default() };
    MuxCore::new(cfg, role)
}

fn feed(to: &mut MuxCore, f: &Frame) {
    to.push_chunk(&f.encode().unwrap());
}

/// Polls until the buffer is drained, returning the actions in order.
fn drain(c: &mut MuxCore) -> Result<Vec<Action>, BtProxyError> {
    let mut out = Vec::new();
    while let Some(a) = c.poll()? {
        out.push(a);
    }
    Ok(out)
}

/// Runs the handshake between two cores; returns the errors of each side.
fn handshake(a: &mut MuxCore, b: &mut MuxCore) -> (Option<BtProxyError>, Option<BtProxyError>) {
    let ha = a.hello();
    let hb = b.hello();
    feed(b, &ha);
    feed(a, &hb);
    let mut errs = (None, None);
    for _ in 0..2 {
        match drain(a) {
            Ok(acts) => {
                for act in acts {
                    if let Action::Send(f) = act {
                        feed(b, &f);
                    }
                }
            }
            Err(e) => errs.0 = errs.0.or(Some(e)),
        }
        match drain(b) {
            Ok(acts) => {
                for act in acts {
                    if let Action::Send(f) = act {
                        feed(a, &f);
                    }
                }
            }
            Err(e) => errs.1 = errs.1.or(Some(e)),
        }
    }
    errs
}

#[test]
fn echo_tunnel() {
    let mut client = new_core(Role::Client, None);
    let mut server = new_core(Role::Server, None);
    let errs = handshake(&mut client, &mut server);
    assert!(errs.0.is_none() && errs.1.is_none());
    assert!(client.handshake_done() && server.handshake_done());

    let (id, open) = client.begin_open(TargetAddr::Domain("example.test".to_string(), 80)).unwrap();
    assert_eq!(id, 1);
    feed(&mut server, &open);
    let acts = drain(&mut server).unwrap();
    match &acts[..] {
        [Action::Accept { stream_id, target }] => {
            assert_eq!(*stream_id, id);
            assert_eq!(*target, TargetAddr::Domain("example.test".to_string(), 80));
        }
        other => panic!("unexpected {:?}", other),
    }
    feed(&mut client, &server.open_ok_frame(id).unwrap());
    let acts = drain(&mut client).unwrap();
    assert!(matches!(&acts[..], [Action::Resolve { stream_id, result: Ok(()) }] if *stream_id == id));
    assert!(client.has_stream(id) && !client.has_pending(id));

    feed(&mut server, &client.data_frame(id, b"hello".to_vec()).unwrap());
    feed(&mut server, &client.fin_frame(id).unwrap());
    let acts = drain(&mut server).unwrap();
    let mut echoed = Vec::new();
    for a in acts {
        match a {
            Action::Deliver { stream_id, payload } => {
                echoed.push(server.data_frame(stream_id, payload).unwrap());
            }
            Action::Close { stream_id } => echoed.push(server.fin_frame(stream_id).unwrap()),
            other => panic!("unexpected {:?}", other),
        }
    }
    for f in &echoed {
        feed(&mut client, f);
    }
    let acts = drain(&mut client).unwrap();
    match &acts[..] {
        [Action::Deliver { stream_id, payload }, Action::Close { stream_id: closed }] => {
            assert_eq!(*stream_id, id);
            assert_eq!(payload, b"hello");
            assert_eq!(*closed, id);
        }
        other => panic!("unexpected {:?}", other),
    }
    assert!(!client.has_stream(id));
}

#[test]
fn psk_mismatch_fails_both_sides_with_auth() {
    let mut client = new_core(Role::Client, Some(b"A"));
    let mut server = new_core(Role::Server, Some(b"B"));
    let (ea, eb) = handshake(&mut client, &mut server);
    assert!(matches!(ea, Some(BtProxyError::Auth(_))));
    assert!(matches!(eb, Some(BtProxyError::Auth(_))));
    assert!(client.is_closed() && server.is_closed());
    assert!(client.begin_open(TargetAddr::IpV4([1, 2, 3, 4], 1)).is_err());
    assert!(!client.has_stream(1) && !server.has_stream(1));
}

#[test]
fn matching_psk_completes_handshake() {
    let mut client = new_core(Role::Client, Some(b"secret"));
    let mut server = new_core(Role::Server, Some(b"secret"));
    let (ea, eb) = handshake(&mut client, &mut server);
    assert!(ea.is_none() && eb.is_none());
    assert!(client.handshake_done() && server.handshake_done());
}

fn connected() -> (MuxCore, MuxCore) {
    let mut client = new_core(Role::Client, None);
    let mut server = new_core(Role::Server, None);
    handshake(&mut client, &mut server);
    (client, server)
}

#[test]
fn open_rejection() {
    let (mut client, mut server) = connected();
    let (id, open) = client.begin_open(TargetAddr::Domain("x".to_string(), 1)).unwrap();
    feed(&mut server, &open);
    drain(&mut server).unwrap();
    let err = server.open_err_frame(id, 0x01, "no route").unwrap();
    assert!(!server.has_stream(id));
    feed(&mut client, &err);
    let acts = drain(&mut client).unwrap();
    match &acts[..] {
        [Action::Resolve { stream_id, result: Err(BtProxyError::Protocol(m)) }] => {
            assert_eq!(*stream_id, id);
            assert_eq!(m, "no route");
        }
        other => panic!("unexpected {:?}", other),
    }
    client.abandon_open(id);
    assert!(!client.has_stream(id));
    assert!(!client.has_pending(id));
}

#[test]
fn ping_is_answered_with_pong() {
    let (mut client, mut server) = connected();
    for n in 0..3u64 {
        feed(&mut server, &client.ping_frame(n).unwrap());
    }
    let acts = drain(&mut server).unwrap();
    let pongs: Vec<u64> = acts
        .iter()
        .filter_map(|a| match a {
            Action::Send(Frame::Pong { nonce }) => Some(*nonce),
            _ => None,
        })
        .collect();
    assert_eq!(pongs, vec![0, 1, 2]);
    for a in acts {
        if let Action::Send(f) = a {
            feed(&mut client, &f);
        }
    }
    assert!(drain(&mut client).unwrap().iter().all(|a| matches!(a, Action::Ignore)));
}

#[test]
fn frame_too_large_tears_down() {
    let (mut client, _server) = connected();
    let max = MuxConfig::default().max_frame;
    let mut bytes = ((max + 1) as u32).to_be_bytes().to_vec();
    bytes.push(0x20);
    client.push_chunk(&bytes);
    match client.poll() {
        Err(BtProxyError::Protocol(m)) => assert_eq!(m, "frame too large"),
        other => panic!("unexpected {:?}", other),
    }
    assert!(client.is_closed());
    assert!(client.begin_open(TargetAddr::IpV4([1, 1, 1, 1], 1)).is_err());
    assert!(client.data_frame(1, vec![1]).is_err());
    assert!(client.open_ok_frame(1).is_err());
    assert!(client.rst_frame(1, 0).is_err());
    assert!(client.poll().is_err());
}

#[test]
fn data_before_handshake_is_discarded() {
    let mut c = new_core(Role::Server, None);
    feed(&mut c, &Frame::Open { stream_id: 5, target: TargetAddr::IpV4([1, 2, 3, 4], 9) });
    feed(&mut c, &Frame::Data { stream_id: 5, payload: vec![1] });
    let acts = drain(&mut c).unwrap();
    assert!(acts.iter().all(|a| matches!(a, Action::Ignore)));
    assert!(!c.has_stream(5));
    assert!(!c.handshake_done());
}

#[test]
fn hello_after_handshake_is_ignored() {
    let (mut client, _server) = connected();
    feed(&mut client, &build_hello(65536, 10, None));
    let acts = drain(&mut client).unwrap();
    assert!(matches!(&acts[..], [Action::Ignore]));
}

#[test]
fn data_for_unknown_stream_is_dropped_and_fin_closes() {
    let (mut client, mut server) = connected();
    feed(&mut server, &Frame::Data { stream_id: 99, payload: vec![1] });
    assert!(matches!(&drain(&mut server).unwrap()[..], [Action::Ignore]));
    let (id, open) = client.begin_open(TargetAddr::IpV6([0; 16], 22)).unwrap();
    feed(&mut server, &open);
    feed(&mut server, &Frame::Rst { stream_id: id, code: 3 });
    feed(&mut server, &Frame::Data { stream_id: id, payload: vec![1] });
    let acts = drain(&mut server).unwrap();
    assert!(matches!(&acts[..], [Action::Accept { .. }, Action::Close { .. }, Action::Ignore]));
}

#[test]
fn stream_ids_count_up_and_rst_prunes() {
    let (mut client, _server) = connected();
    let (a, _) = client.begin_open(TargetAddr::IpV4([1, 1, 1, 1], 1)).unwrap();
    let (b, _) = client.begin_open(TargetAddr::IpV4([1, 1, 1, 1], 1)).unwrap();
    assert_eq!((a, b), (1, 2));
    assert!(client.has_pending(b));
    let rst = client.rst_frame(b, 7).unwrap();
    assert!(matches!(rst, Frame::Rst { stream_id: 2, code: 7 }));
    assert!(!client.has_pending(b) && !client.has_stream(b));
}

#[test]
fn oversized_send_is_refused() {
    let (client, _server) = connected();
    assert!(matches!(client.data_frame(1, vec![0; 65536]), Err(BtProxyError::Protocol(_))));
    assert!(client.data_frame(1, vec![0; 65535]).is_ok());
}

#[test]
fn handshake_frames_carry_settings_and_mac() {
    let hello = build_hello(4096, 50, Some(b"k"));
    let h = match hello {
        Frame::Hello(h) => h,
        other => panic!("unexpected {:?}", other),
    };
    assert_eq!((h.version, h.flags, h.max_frame, h.keepalive_ms), (1, 1, 4096, 50));
    assert_eq!(h.hmac, Some(compute_hmac(b"k", h.nonce)));
    assert!(verify_hmac(Some(b"k"), &h).is_ok());
    assert!(matches!(verify_hmac(Some(b"other"), &h), Err(BtProxyError::Auth(_))));
    assert!(verify_hmac(None, &h).is_ok());
    match build_hello_ack(4096, 50, None, 77) {
        Frame::HelloAck(a) => {
            assert_eq!((a.flags, a.nonce, a.hmac), (0, 77, None));
        }
        other => panic!("unexpected {:?}", other),
    }
}

#[test]
fn hmac_is_keyed_sha256_of_nonce_and_label() {
    // HMAC-SHA256 with key "key" over the nonce 1 (8 bytes, big-endian) and "btproxy-v1".
    let a = compute_hmac(b"key", 1);
    assert_eq!(
        a,
        [
            96, 5, 80, 171, 92, 209, 154, 252, 204, 37, 234, 152, 6, 189, 216, 112, 108, 165, 254, 220, 28, 133,
            195, 52, 152, 218, 140, 243, 154, 157, 215, 92
        ]
    );
    let b = compute_hmac(b"key", 2);
    let c = compute_hmac(b"yek", 1);
    assert_ne!(a, b);
    assert_ne!(a, c);
    assert_eq!(a, compute_hmac(b"key", 1));
    assert_ne!(a, [0u8; 32]);
}

#[test]
fn missing_mac_fails_when_key_configured() {
    let h = match build_hello_ack(1, 1, None, 3) {
        Frame::HelloAck(h) => h,
        _ => unreachable!(),
    };
    assert!(matches!(verify_hmac(Some(b"k"), &h), Err(BtProxyError::Auth(_))));
}

#[test]
fn default_config() {
    let c = MuxConfig::default();
    assert_eq!((c.max_frame, c.keepalive_ms, c.psk.clone()), (65536, 10_000, None));
    let c2 = MuxCore::new(MuxConfig { keepalive_ms: 50, ..c }, Role::Server);
    assert_eq!(c2.keepalive_ms(), 50);
    assert_eq!(c2.role(), Role::Server);
}
