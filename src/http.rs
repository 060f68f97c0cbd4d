//! Decisions of the local HTTP forward proxy: the target of a `CONNECT`, and
//! the origin-form request head that replaces an absolute-form one.
use crate::error::BtProxyError;
use crate::text::{chars_of, lemma_split_nonempty, parse_number, parse_unsigned, split_chars, split_spec, string_of};
use vstd::prelude::*;
use vstd::utf8::encode_utf8;

verus! {

/// The port of a `CONNECT` target that names none.
pub const DEFAULT_CONNECT_PORT: u16 = 443;

/// The port of an absolute-form URL whose scheme has no known default.
pub const DEFAULT_HTTP_PORT: u16 = 80;

/// The host and port of a `CONNECT` target: what precedes the first `:`,
/// and the decimal port after it, or 443 where there is no valid one.
pub open spec fn connect_target_spec(path: Seq<char>) -> (Seq<char>, u16) {
    let parts = split_spec(path, ':');
    (
        parts[0],
        if parts.len() > 1 && parse_unsigned(parts[1], 10, 65535) is Some {
            parse_unsigned(parts[1], 10, 65535).unwrap() as u16
        } else {
            DEFAULT_CONNECT_PORT
        },
    )
}

/// The host and port that a `CONNECT` request names.
pub fn parse_connect_target(path: &str) -> (r: Result<(String, u16), BtProxyError>)
    ensures
        r matches Ok((h, p)) && (h@, p) == connect_target_spec(path@),
{
    let chars = chars_of(path);
    let parts = split_chars(&chars, ':');
    proof {
        lemma_split_nonempty(path@, ':');
    }
    let host = string_of(&parts[0]);
    let port: u16 = if parts.len() > 1 {
        match parse_number(&parts[1], 10, 65535) {
            Some(p) => p as u16,
            None => DEFAULT_CONNECT_PORT,
        }
    } else {
        DEFAULT_CONNECT_PORT
    };
    Ok((host, port))
}

/// `c` with ASCII upper case letters made lower case.
pub open spec fn ascii_lower(c: char) -> char {
    if 'A' <= c && c <= 'Z' {
        ((c as u8) + 32) as u8 as char
    } else {
        c
    }
}

/// Equality up to ASCII case.
pub open spec fn eq_ignore_case(a: Seq<char>, b: Seq<char>) -> bool {
    a.len() == b.len() && forall|i: int| 0 <= i < a.len() ==> #[trigger] ascii_lower(a[i]) == ascii_lower(b[i])
}

fn lower(c: char) -> (r: char)
    ensures
        r == ascii_lower(c),
{
    if 'A' <= c && c <= 'Z' {
        ((c as u8) + 32) as char
    } else {
        c
    }
}

/// Whether two strings are equal up to ASCII case.
pub fn eq_ignore_ascii_case(a: &str, b: &str) -> (r: bool)
    ensures
        r == eq_ignore_case(a@, b@),
{
    let x = chars_of(a);
    let y = chars_of(b);
    if x.len() != y.len() {
        return false;
    }
    let mut i: usize = 0;
    while i < x.len()
        invariant
            x@ == a@,
            y@ == b@,
            x@.len() == y@.len(),
            i <= x@.len(),
            forall|k: int| 0 <= k < i ==> #[trigger] ascii_lower(x@[k]) == ascii_lower(y@[k]),
        decreases x@.len() - i,
    {
        if lower(x[i]) != lower(y[i]) {
            return false;
        }
        i = i + 1;
    }
    true
}

/// One header line of a request head.
#[derive(Debug, Clone)]
pub struct HeaderField {
    pub name: String,
    pub value: Vec<u8>,
}

pub open spec fn fields_view(h: Seq<HeaderField>) -> Seq<(Seq<char>, Seq<u8>)> {
    h.map_values(|f: HeaderField| (f.name@, f.value@))
}

/// Whether a header is left out of a forwarded request.
pub open spec fn hop_header(name: Seq<char>) -> bool {
    eq_ignore_case(name, "Proxy-Connection"@) || eq_ignore_case(name, "Connection"@)
}

/// The header lines that a forwarded request keeps, in order.
pub open spec fn kept_lines(fields: Seq<(Seq<char>, Seq<u8>)>) -> Seq<u8>
    decreases fields.len(),
{
    if fields.len() == 0 {
        Seq::empty()
    } else {
        let prev = kept_lines(fields.drop_last());
        let f = fields.last();
        if hop_header(f.0) {
            prev
        } else {
            prev + encode_utf8(f.0) + encode_utf8(": "@) + f.1 + encode_utf8("\r\n"@)
        }
    }
}

pub open spec fn names_host(fields: Seq<(Seq<char>, Seq<u8>)>) -> bool {
    exists|i: int| 0 <= i < fields.len() && #[trigger] eq_ignore_case(fields[i].0, "Host"@)
}

/// The origin-form head: the request line, the kept header lines, a `Host`
/// line where none was given, and `Connection: close`.
pub open spec fn rewrite_spec(
    fields: Seq<(Seq<char>, Seq<u8>)>,
    method: Seq<char>,
    origin: Seq<char>,
    host: Seq<char>,
) -> Seq<u8> {
    encode_utf8(method) + encode_utf8(" "@) + encode_utf8(origin) + encode_utf8(" HTTP/1.1\r\n"@)
        + kept_lines(fields) + (if names_host(fields) {
        Seq::empty()
    } else {
        encode_utf8("Host: "@) + encode_utf8(host) + encode_utf8("\r\n"@)
    }) + encode_utf8("Connection: close\r\n\r\n"@)
}

fn push_str(out: &mut Vec<u8>, s: &str)
    ensures
        final(out)@ == old(out)@ + encode_utf8(s@),
{
    crate::wire::push_bytes(out, s.as_bytes());
}

/// The origin-form head for the given header fields, method, origin-form
/// target and host.
pub fn rewrite_with_fields(fields: &Vec<HeaderField>, method: &str, origin: &str, host: &str) -> (r: Vec<u8>)
    ensures
        r@ == rewrite_spec(fields_view(fields@), method@, origin@, host@),
{
    let ghost fv = fields_view(fields@);
    let mut out: Vec<u8> = Vec::new();
    push_str(&mut out, method);
    push_str(&mut out, " ");
    push_str(&mut out, origin);
    push_str(&mut out, " HTTP/1.1\r\n");
    let ghost line = out@;
    let mut has_host = false;
    let mut i: usize = 0;
    while i < fields.len()
        invariant
            i <= fields@.len(),
            fv == fields_view(fields@),
            fv.len() == fields@.len(),
            out@ == line + kept_lines(fv.subrange(0, i as int)),
            has_host == names_host(fv.subrange(0, i as int)),
        decreases fields@.len() - i,
    {
        let f = &fields[i];
        let ghost pre = fv.subrange(0, i as int);
        let ghost next = fv.subrange(0, i + 1);
        assert(next.drop_last() =~= pre);
        assert(next.last() == (f.name@, f.value@));
        let is_host = eq_ignore_ascii_case(f.name.as_str(), "Host");
        if !(eq_ignore_ascii_case(f.name.as_str(), "Proxy-Connection") || eq_ignore_ascii_case(
            f.name.as_str(),
            "Connection",
        )) {
            push_str(&mut out, f.name.as_str());
            push_str(&mut out, ": ");
            crate::wire::push_bytes(&mut out, f.value.as_slice());
            push_str(&mut out, "\r\n");
        }
        proof {
            if names_host(next) {
                let j = choose|j: int| 0 <= j < next.len() && #[trigger] eq_ignore_case(next[j].0, "Host"@);
                if j < i {
                    assert(pre[j] == next[j]);
                }
            }
            if names_host(pre) {
                let j = choose|j: int| 0 <= j < pre.len() && #[trigger] eq_ignore_case(pre[j].0, "Host"@);
                assert(pre[j] == next[j]);
            }
            if is_host {
                assert(eq_ignore_case(next[i as int].0, "Host"@));
            }
        }
        has_host = has_host || is_host;
        i = i + 1;
    }
    assert(fv.subrange(0, fv.len() as int) =~= fv);
    if !has_host {
        push_str(&mut out, "Host: ");
        push_str(&mut out, host);
        push_str(&mut out, "\r\n");
    }
    push_str(&mut out, "Connection: close\r\n\r\n");
    out
}

/// What the request parser makes of a head: whether it is complete (or the
/// parser's error), the method, the path and the header fields.
#[derive(Debug)]
pub struct ParsedRequest {
    pub status: Result<bool, String>,
    pub method: Option<String>,
    pub path: Option<String>,
    pub headers: Vec<HeaderField>,
}

pub open spec fn opt_view(s: Option<String>) -> Option<Seq<char>> {
    match s {
        Some(x) => Some(x@),
        None => None,
    }
}

impl ParsedRequest {
    pub open spec fn view_parts(&self) -> (Result<bool, Seq<char>>, Option<Seq<char>>, Option<Seq<char>>, Seq<(Seq<char>, Seq<u8>)>) {
        (
            match self.status {
                Ok(c) => Ok(c),
                Err(m) => Err(m@),
            },
            opt_view(self.method),
            opt_view(self.path),
            fields_view(self.headers@),
        )
    }
}

/// What httparse's `Request::parse` makes of a head with room for
/// `max_headers` header fields.
pub uninterp spec fn parsed_request(head: Seq<u8>, max_headers: nat) -> (
    Result<bool, Seq<char>>,
    Option<Seq<char>>,
    Option<Seq<char>>,
    Seq<(Seq<char>, Seq<u8>)>,
);

/// Relies on httparse's `Request::parse`: the status, method, path and
/// header fields of the request it parsed, with room for `max_headers`
/// fields.
#[verifier::external_body]
fn parse_request(head: &[u8], max_headers: usize) -> (r: ParsedRequest)
    ensures
        r.view_parts() == parsed_request(head@, max_headers as nat),
{
    let mut fields = vec![httparse::EMPTY_HEADER; max_headers];
    let mut req = httparse::Request::new(&mut fields);
    let status = req.parse(head).map(|s| s.is_complete()).map_err(|e| e.to_string());
    let headers = req.headers.iter().map(|h| HeaderField { name: h.name.to_string(), value: h.value.to_vec() }).collect();
    ParsedRequest { status, method: req.method.map(|m| m.to_string()), path: req.path.map(|p| p.to_string()), headers }
}

/// The parts of an absolute URL that the proxy reads.
#[derive(Debug, Clone)]
pub struct UrlParts {
    pub host: Option<String>,
    pub port: Option<u16>,
    pub path: String,
    pub query: Option<String>,
}

pub open spec fn url_view(u: Result<UrlParts, String>) -> Result<(Option<Seq<char>>, Option<u16>, Seq<char>, Option<Seq<char>>), Seq<char>> {
    match u {
        Ok(p) => Ok((opt_view(p.host), p.port, p.path@, opt_view(p.query))),
        Err(m) => Err(m@),
    }
}

/// What url's `Url::parse` makes of a string: host, port or the scheme's
/// known default, path and query; or the text of its error.
pub uninterp spec fn url_parts(s: Seq<char>) -> Result<(Option<Seq<char>>, Option<u16>, Seq<char>, Option<Seq<char>>), Seq<char>>;

/// Relies on url's `Url::parse` and its `host_str`, `port_or_known_default`,
/// `path` and `query` on the result.
#[verifier::external_body]
fn parse_url(s: &str) -> (r: Result<UrlParts, String>)
    ensures
        url_view(r) == url_parts(s@),
{
    url::Url::parse(s).map(|u| UrlParts {
        host: u.host_str().map(|h| h.to_string()),
        port: u.port_or_known_default(),
        path: u.path().to_string(),
        query: u.query().map(|q| q.to_string()),
    }).map_err(|e| e.to_string())
}

/// The origin-form head that replaces an absolute-form request head.
pub fn rewrite_request(original: &[u8], method: &str, origin: &str, host: &str) -> (r: Vec<u8>)
    ensures
        r@ == rewrite_spec(parsed_request(original@, 64).3, method@, origin@, host@),
{
    let parsed = parse_request(original, 64);
    rewrite_with_fields(&parsed.headers, method, origin, host)
}

/// How the proxy serves a request.
#[derive(Debug)]
pub enum ProxyPlan {
    /// Open a substream to the target and tunnel bytes both ways after a
    /// `200 Connection Established`.
    Connect { host: String, port: u16 },
    /// Open a substream to the target, send the rewritten head, then forward
    /// the body and the answer.
    Forward { host: String, port: u16, head: Vec<u8> },
}

/// A plan as a mathematical value; `Fail` carries the message of the protocol
/// error that refuses the request.
pub enum PlanV {
    Connect(Seq<char>, u16),
    Forward(Seq<char>, u16, Seq<u8>),
    Fail(Seq<char>),
}

pub open spec fn plan_view(r: Result<ProxyPlan, BtProxyError>) -> PlanV {
    match r {
        Ok(ProxyPlan::Connect { host, port }) => PlanV::Connect(host@, port),
        Ok(ProxyPlan::Forward { host, port, head }) => PlanV::Forward(host@, port, head@),
        Err(BtProxyError::Protocol(m)) => PlanV::Fail(m@),
        Err(_) => PlanV::Fail(Seq::empty()),
    }
}

/// The origin-form target: the path, then `?` and the query if there is one.
pub open spec fn origin_of(path: Seq<char>, query: Option<Seq<char>>) -> Seq<char> {
    match query {
        Some(q) => path + seq!['?'] + q,
        None => path,
    }
}

/// The plan for an absolute-form request, given what the URL parser made of
/// its path.
pub open spec fn forward_spec(
    head: Seq<u8>,
    method: Seq<char>,
    url: Result<(Option<Seq<char>>, Option<u16>, Seq<char>, Option<Seq<char>>), Seq<char>>,
) -> PlanV {
    match url {
        Err(m) => PlanV::Fail(m),
        Ok((host, port, path, query)) => match host {
            None => PlanV::Fail("missing host"@),
            Some(h) => PlanV::Forward(
                h,
                match port {
                    Some(p) => p,
                    None => DEFAULT_HTTP_PORT,
                },
                rewrite_spec(parsed_request(head, 64).3, method, origin_of(path, query), h),
            ),
        },
    }
}

/// The plan for a request head, given what the request parser made of it.
pub open spec fn plan_parsed_spec(
    head: Seq<u8>,
    p: (Result<bool, Seq<char>>, Option<Seq<char>>, Option<Seq<char>>, Seq<(Seq<char>, Seq<u8>)>),
) -> PlanV {
    match p.0 {
        Err(m) => PlanV::Fail(m),
        Ok(false) => PlanV::Fail("partial request"@),
        Ok(true) => match (p.1, p.2) {
            (None, _) => PlanV::Fail("no method"@),
            (Some(_), None) => PlanV::Fail("no path"@),
            (Some(method), Some(path)) => if eq_ignore_case(method, "CONNECT"@) {
                PlanV::Connect(connect_target_spec(path).0, connect_target_spec(path).1)
            } else {
                forward_spec(head, method, url_parts(path))
            },
        },
    }
}

fn protocol_error(m: &str) -> (e: BtProxyError)
    ensures
        e matches BtProxyError::Protocol(x) && x@ == m@,
{
    BtProxyError::Protocol(m.to_string())
}

/// The plan for an absolute-form request whose path the URL parser read as
/// `url`.
pub fn plan_forward(head: &[u8], method: &str, url: Result<UrlParts, String>) -> (r: Result<ProxyPlan, BtProxyError>)
    ensures
        plan_view(r) == forward_spec(head@, method@, url_view(url)),
{
    match url {
        Err(m) => Err(BtProxyError::Protocol(m)),
        Ok(u) => match u.host {
            None => Err(protocol_error("missing host")),
            Some(host) => {
                let port = match u.port {
                    Some(p) => p,
                    None => DEFAULT_HTTP_PORT,
                };
                let mut origin = u.path;
                let ghost path = origin@;
                match &u.query {
                    Some(q) => {
                        let mut c = chars_of(origin.as_str());
                        c.push('?');
                        let qc = chars_of(q.as_str());
                        let mut i: usize = 0;
                        while i < qc.len()
                            invariant
                                i <= qc@.len(),
                                c@ == path + seq!['?'] + qc@.subrange(0, i as int),
                            decreases qc@.len() - i,
                        {
                            c.push(qc[i]);
                            i = i + 1;
                        }
                        assert(qc@.subrange(0, qc@.len() as int) =~= qc@);
                        origin = string_of(&c);
                    },
                    None => {},
                }
                let head = rewrite_request(head, method, origin.as_str(), host.as_str());
                Ok(ProxyPlan::Forward { host, port, head })
            },
        },
    }
}

/// The plan for a request head that the request parser read as `parsed`.
pub fn plan_parsed(head: &[u8], parsed: ParsedRequest) -> (r: Result<ProxyPlan, BtProxyError>)
    ensures
        plan_view(r) == plan_parsed_spec(head@, parsed.view_parts()),
{
    let ghost p = parsed.view_parts();
    match parsed.status {
        Err(m) => return Err(BtProxyError::Protocol(m)),
        Ok(false) => return Err(protocol_error("partial request")),
        Ok(true) => {},
    }
    let method = match parsed.method {
        Some(m) => m,
        None => return Err(protocol_error("no method")),
    };
    let path = match parsed.path {
        Some(x) => x,
        None => return Err(protocol_error("no path")),
    };
    if eq_ignore_ascii_case(method.as_str(), "CONNECT") {
        let (host, port) = parse_connect_target(path.as_str())?;
        Ok(ProxyPlan::Connect { host, port })
    } else {
        let url = parse_url(path.as_str());
        plan_forward(head, method.as_str(), url)
    }
}

/// How to serve a request whose head is `head`: a `CONNECT` tunnel, or an
/// absolute-form request forwarded with an origin-form head.
pub fn plan_request(head: &[u8]) -> (r: Result<ProxyPlan, BtProxyError>)
    ensures
        plan_view(r) == plan_parsed_spec(head@, parsed_request(head@, 32)),
{
    let parsed = parse_request(head, 32);
    plan_parsed(head, parsed)
}

} // verus!
