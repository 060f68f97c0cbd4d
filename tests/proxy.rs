use btproxy::error::BtProxyError;
use btproxy::http::{eq_ignore_ascii_case, parse_connect_target, plan_request, rewrite_request, ProxyPlan};
use btproxy::socks5::{Socks5Client, Socks5Phase};

#[test]
fn connect_target_with_and_without_port() {
    assert_eq!(parse_connect_target("example.com:8443").unwrap(), ("example.com".to_string(), 8443));
    assert_eq!(parse_connect_target("example.com").unwrap(), ("example.com".to_string(), 443));
    assert_eq!(parse_connect_target("example.com:notaport").unwrap(), ("example.com".to_string(), 443));
    assert_eq!(parse_connect_target("example.com:70000").unwrap(), ("example.com".to_string(), 443));
}

#[test]
fn ascii_case_folding() {
    assert!(eq_ignore_ascii_case("Proxy-Connection", "proxy-CONNECTION"));
    assert!(!eq_ignore_ascii_case("Host", "Hostx"));
}

#[test]
fn rewrite_strips_hop_headers_and_adds_host() {
    let head = b"GET http://a.test/x HTTP/1.1\r\nProxy-Connection: keep-alive\r\nAccept: */*\r\nconnection: keep-alive\r\n\r\n";
    let out = rewrite_request(head, "GET", "/x", "a.test");
    assert_eq!(
        String::from_utf8(out).unwrap(),
        "GET /x HTTP/1.1\r\nAccept: */*\r\nHost: a.test\r\nConnection: close\r\n\r\n"
    );
}

#[test]
fn rewrite_keeps_given_host() {
    let head = b"GET http://a.test/ HTTP/1.1\r\nHOST: a.test\r\n\r\n";
    let out = rewrite_request(head, "GET", "/", "a.test");
    assert_eq!(String::from_utf8(out).unwrap(), "GET / HTTP/1.1\r\nHOST: a.test\r\nConnection: close\r\n\r\n");
}

#[test]
fn plan_for_connect() {
    match plan_request(b"CONNECT example.com:443 HTTP/1.1\r\nHost: example.com\r\n\r\n").unwrap() {
        ProxyPlan::Connect { host, port } => assert_eq!((host.as_str(), port), ("example.com", 443)),
        other => panic!("unexpected {:?}", other),
    }
}

#[test]
fn plan_for_absolute_form() {
    match plan_request(b"GET http://a.test:8080/p?q=1 HTTP/1.1\r\nUser-Agent: t\r\n\r\n").unwrap() {
        ProxyPlan::Forward { host, port, head } => {
            assert_eq!((host.as_str(), port), ("a.test", 8080));
            assert_eq!(
                String::from_utf8(head).unwrap(),
                "GET /p?q=1 HTTP/1.1\r\nUser-Agent: t\r\nHost: a.test\r\nConnection: close\r\n\r\n"
            );
        }
        other => panic!("unexpected {:?}", other),
    }
}

#[test]
fn plan_default_port_and_errors() {
    match plan_request(b"GET http://a.test/ HTTP/1.1\r\n\r\n").unwrap() {
        ProxyPlan::Forward { port, .. } => assert_eq!(port, 80),
        other => panic!("unexpected {:?}", other),
    }
    match plan_request(b"GET /relative HTTP/1.1\r\n\r\n") {
        Err(BtProxyError::Protocol(_)) => {}
        other => panic!("unexpected {:?}", other),
    }
    match plan_request(b"GET http://a.test/ HTTP/1.1\r\n") {
        Err(BtProxyError::Protocol(m)) => assert_eq!(m, "partial request"),
        other => panic!("unexpected {:?}", other),
    }
}

fn run(c: &mut Socks5Client, replies: &[&[u8]]) -> Vec<Vec<u8>> {
    let mut written = Vec::new();
    for r in replies {
        let next = c.on_read(r).unwrap();
        written.push(next.write);
    }
    written
}

#[test]
fn socks5_without_credentials() {
    let (mut c, first) = Socks5Client::start(None, None, "example.com", 443).unwrap();
    assert_eq!(first.write, vec![5, 1, 0]);
    assert_eq!(first.read, 2);
    let w = run(&mut c, &[&[5, 0], &[5, 0, 0, 1], &[1, 2, 3, 4, 0, 80]]);
    let mut req = vec![5, 1, 0, 3, 11];
    req.extend_from_slice(b"example.com");
    req.extend_from_slice(&[1, 187]);
    assert_eq!(w[0], req);
    assert_eq!(c.phase(), Socks5Phase::Connected);
}

#[test]
fn socks5_with_credentials_and_domain_reply() {
    let (mut c, first) = Socks5Client::start(Some("u"), Some("pw"), "h", 1).unwrap();
    assert_eq!(first.write, vec![5, 2, 0, 2]);
    let n = c.on_read(&[5, 2]).unwrap();
    assert_eq!(n.write, vec![1, 1, b'u', 2, b'p', b'w']);
    assert_eq!(n.read, 2);
    let n = c.on_read(&[1, 0]).unwrap();
    assert_eq!(n.read, 4);
    let n = c.on_read(&[5, 0, 0, 3]).unwrap();
    assert_eq!(n.read, 1);
    let n = c.on_read(&[3]).unwrap();
    assert_eq!(n.read, 5);
    let n = c.on_read(&[b'a', b'b', b'c', 0, 1]).unwrap();
    assert_eq!(n.read, 0);
    assert_eq!(c.phase(), Socks5Phase::Connected);
}

#[test]
fn socks5_failures() {
    let (mut c, _) = Socks5Client::start(None, None, "h", 1).unwrap();
    assert!(matches!(c.on_read(&[4, 0]), Err(BtProxyError::Protocol(_))));
    let (mut c, _) = Socks5Client::start(None, None, "h", 1).unwrap();
    assert!(matches!(c.on_read(&[5, 2]), Err(BtProxyError::Auth(_))));
    let (mut c, _) = Socks5Client::start(Some("u"), None, "h", 1).unwrap();
    assert!(matches!(c.on_read(&[5, 2]), Err(BtProxyError::Auth(_))));
    let (mut c, _) = Socks5Client::start(Some("u"), Some("p"), "h", 1).unwrap();
    c.on_read(&[5, 2]).unwrap();
    assert!(matches!(c.on_read(&[1, 1]), Err(BtProxyError::Auth(_))));
    let (mut c, _) = Socks5Client::start(None, None, "h", 1).unwrap();
    c.on_read(&[5, 0]).unwrap();
    assert!(matches!(c.on_read(&[5, 1, 0, 1]), Err(BtProxyError::Protocol(_))));
    assert_eq!(c.phase(), Socks5Phase::Failed);
    let (mut c, _) = Socks5Client::start(None, None, "h", 1).unwrap();
    assert!(matches!(c.on_read(&[5, 0xff]), Err(BtProxyError::Protocol(_))));
    assert!(matches!(Socks5Client::start(None, None, &"h".repeat(256), 1), Err(BtProxyError::Protocol(_))));
}
