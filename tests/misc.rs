use btproxy::addr::{hex_to_bytes, parse_bdaddr, parse_bt_addr, parse_uuid, rfcomm_service, Guid, RfcommService};
use btproxy::config::BtLinkConfig;
use btproxy::error::{unsupported, BtProxyError};
use btproxy::net::{head_progress, Backoff, HeadProgress};

#[test]
fn backoff_doubles_up_to_cap_and_resets() {
    let mut b = Backoff::new(1000, 30_000);
    let seq: Vec<u64> = (0..7).map(|_| b.next_delay()).collect();
    assert_eq!(seq, vec![1000, 2000, 4000, 8000, 16000, 30000, 30000]);
    b.reset(1000);
    assert_eq!(b.next_delay(), 1000);
}

#[test]
fn backoff_does_not_overflow() {
    let mut b = Backoff::new(u64::MAX - 1, u64::MAX);
    assert_eq!(b.next_delay(), u64::MAX - 1);
    assert_eq!(b.next_delay(), u64::MAX);
}

#[test]
fn head_progress_states() {
    assert_eq!(head_progress(b"GET / HTTP/1.1\r\nHost: a\r\n\r\n", 1024), HeadProgress::Complete);
    assert_eq!(head_progress(b"GET / HTTP/1.1\r\n", 1024), HeadProgress::NeedMore);
    assert_eq!(head_progress(b"GET / HTTP/1.1\r\n", 10), HeadProgress::TooLarge);
    assert_eq!(head_progress(b"", 10), HeadProgress::NeedMore);
}

#[test]
fn bdaddr_is_reversed() {
    assert_eq!(parse_bdaddr("00:11:22:33:44:55").unwrap(), [0x55, 0x44, 0x33, 0x22, 0x11, 0x00]);
    assert_eq!(parse_bdaddr("aa:BB:cc:dd:ee:ff").unwrap(), [0xff, 0xee, 0xdd, 0xcc, 0xbb, 0xaa]);
}

#[test]
fn bdaddr_errors() {
    for bad in ["", "00:11:22:33:44", "00:11:22:33:44:55:66", "00:11:22:33:44:zz", "00:11:22:33:44:100", "00::22:33:44:55"] {
        assert!(matches!(parse_bdaddr(bad), Err(BtProxyError::Config(_))), "{}", bad);
    }
}

#[test]
fn bt_addr_value() {
    assert_eq!(parse_bt_addr("00:11:22:33:44:55").unwrap(), 0x5544_3322_1100);
    assert!(matches!(parse_bt_addr("nope"), Err(BtProxyError::Config(_))));
}

#[test]
fn hex_bytes() {
    assert_eq!(hex_to_bytes("00ff10").unwrap(), vec![0, 255, 16]);
    assert_eq!(hex_to_bytes("").unwrap(), Vec::<u8>::new());
    assert!(matches!(hex_to_bytes("abc"), Err(BtProxyError::Config(_))));
    assert!(matches!(hex_to_bytes("zz"), Err(BtProxyError::Config(_))));
}

#[test]
fn uuid_fields() {
    let g = parse_uuid(" 00001101-0000-1000-8000-00805F9B34FB ").unwrap();
    assert_eq!(
        g,
        Guid { data1: 0x0000_1101, data2: 0, data3: 0x1000, data4: [0x80, 0x00, 0x00, 0x80, 0x5f, 0x9b, 0x34, 0xfb] }
    );
    assert!(matches!(parse_uuid("00001101-0000-1000-8000"), Err(BtProxyError::Config(_))));
    assert!(matches!(parse_uuid("00001101-0000-1000-800-00805F9B34FB"), Err(BtProxyError::Config(_))));
    assert!(matches!(parse_uuid("x0001101-0000-1000-8000-00805F9B34FB"), Err(BtProxyError::Config(_))));
}

#[test]
fn unsupported_error() {
    let r: Result<u8, BtProxyError> = unsupported("linux uuid sdp lookup not implemented");
    match r {
        Err(BtProxyError::Unsupported(m)) => assert_eq!(m, "linux uuid sdp lookup not implemented"),
        other => panic!("unexpected {:?}", other),
    }
}

#[test]
fn link_config_default() {
    let c = BtLinkConfig::default();
    assert_eq!((c.max_chunk, c.queue_bound), (4096, 256));
    assert_eq!(c.stats_interval, Some(std::time::Duration::from_secs(5)));
}

#[test]
fn rfcomm_service_choice() {
    assert_eq!(rfcomm_service(Some("junk"), Some(3)).unwrap(), RfcommService::Channel(3));
    match rfcomm_service(Some("00001101-0000-1000-8000-00805F9B34FB"), None).unwrap() {
        RfcommService::ServiceClass(g) => assert_eq!(g.data1, 0x1101),
        other => panic!("unexpected {:?}", other),
    }
    assert!(matches!(rfcomm_service(None, None), Err(BtProxyError::Config(_))));
    assert!(matches!(rfcomm_service(Some("junk"), None), Err(BtProxyError::Config(_))));
}
