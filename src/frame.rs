//! Typed frames and their wire encoding.
use crate::error::BtProxyError;
use crate::wire::{
    be16, be32, be64, get_u16, get_u32, get_u64, push_bytes, push_u16, push_u32, push_u64, read_be16,
    read_be32, read_be64, copy_range, lemma_read_be16_at, lemma_read_be32_at, lemma_read_be64_at,
};
use vstd::prelude::*;
use vstd::utf8::*;

verus! {

/// The type byte that follows a frame's length prefix.
#[derive(Debug, Clone, Copy, PartialEq, Eq, Structural)]
pub enum FrameType {
    Hello,
    HelloAck,
    Open,
    OpenOk,
    OpenErr,
    Data,
    Fin,
    Rst,
    Ping,
    Pong,
}

impl FrameType {
    pub open spec fn spec_code(self) -> u8 {
        match self {
            FrameType::Hello => 0x01,
            FrameType::HelloAck => 0x02,
            FrameType::Open => 0x10,
            FrameType::OpenOk => 0x11,
            FrameType::OpenErr => 0x12,
            FrameType::Data => 0x20,
            FrameType::Fin => 0x21,
            FrameType::Rst => 0x22,
            FrameType::Ping => 0x30,
            FrameType::Pong => 0x31,
        }
    }

    /// The byte that stands for this type on the wire.
    pub fn code(self) -> (r: u8)
        ensures
            r == self.spec_code(),
    {
        match self {
            FrameType::Hello => 0x01,
            FrameType::HelloAck => 0x02,
            FrameType::Open => 0x10,
            FrameType::OpenOk => 0x11,
            FrameType::OpenErr => 0x12,
            FrameType::Data => 0x20,
            FrameType::Fin => 0x21,
            FrameType::Rst => 0x22,
            FrameType::Ping => 0x30,
            FrameType::Pong => 0x31,
        }
    }

    /// The type that a wire byte stands for, if any.
    pub fn from_code(b: u8) -> (r: Option<FrameType>)
        ensures
            r matches Some(t) ==> t.spec_code() == b,
            r is None <==> !is_frame_type_code(b),
    {
        match b {
            0x01 => Some(FrameType::Hello),
            0x02 => Some(FrameType::HelloAck),
            0x10 => Some(FrameType::Open),
            0x11 => Some(FrameType::OpenOk),
            0x12 => Some(FrameType::OpenErr),
            0x20 => Some(FrameType::Data),
            0x21 => Some(FrameType::Fin),
            0x22 => Some(FrameType::Rst),
            0x30 => Some(FrameType::Ping),
            0x31 => Some(FrameType::Pong),
            _ => None,
        }
    }
}

pub open spec fn is_frame_type_code(b: u8) -> bool {
    b == 0x01 || b == 0x02 || b == 0x10 || b == 0x11 || b == 0x12 || b == 0x20 || b == 0x21
        || b == 0x22 || b == 0x30 || b == 0x31
}

/// The fields of a `Hello` or `HelloAck`.
#[derive(Debug, Clone, PartialEq, Eq)]
pub struct HelloFrame {
    pub version: u16,
    pub flags: u16,
    pub max_frame: u32,
    pub keepalive_ms: u32,
    pub nonce: u64,
    pub hmac: Option<[u8; 32]>,
}

/// Where a substream is to be connected.
#[derive(Debug, Clone, PartialEq, Eq)]
pub enum TargetAddr {
    Domain(String, u16),
    IpV4([u8; 4], u16),
    IpV6([u8; 16], u16),
}

/// One protocol message.
#[derive(Debug, Clone, PartialEq, Eq)]
pub enum Frame {
    Hello(HelloFrame),
    HelloAck(HelloFrame),
    Open { stream_id: u32, target: TargetAddr },
    OpenOk { stream_id: u32 },
    OpenErr { stream_id: u32, code: u16, message: String },
    Data { stream_id: u32, payload: Vec<u8> },
    Fin { stream_id: u32 },
    Rst { stream_id: u32, code: u16 },
    Ping { nonce: u64 },
    Pong { nonce: u64 },
}

/// A `HelloFrame` as a mathematical value.
pub struct HelloV {
    pub version: u16,
    pub flags: u16,
    pub max_frame: u32,
    pub keepalive_ms: u32,
    pub nonce: u64,
    pub hmac: Option<Seq<u8>>,
}

/// A `TargetAddr` as a mathematical value.
pub enum TargetV {
    Domain(Seq<char>, u16),
    IpV4(Seq<u8>, u16),
    IpV6(Seq<u8>, u16),
}

/// A `Frame` as a mathematical value.
pub enum FrameV {
    Hello(HelloV),
    HelloAck(HelloV),
    Open { stream_id: u32, target: TargetV },
    OpenOk { stream_id: u32 },
    OpenErr { stream_id: u32, code: u16, message: Seq<char> },
    Data { stream_id: u32, payload: Seq<u8> },
    Fin { stream_id: u32 },
    Rst { stream_id: u32, code: u16 },
    Ping { nonce: u64 },
    Pong { nonce: u64 },
}

impl View for HelloFrame {
    type V = HelloV;

    open spec fn view(&self) -> HelloV {
        HelloV {
            version: self.version,
            flags: self.flags,
            max_frame: self.max_frame,
            keepalive_ms: self.keepalive_ms,
            nonce: self.nonce,
            hmac: match self.hmac {
                Some(m) => Some(m@),
                None => None,
            },
        }
    }
}

impl View for TargetAddr {
    type V = TargetV;

    open spec fn view(&self) -> TargetV {
        match self {
            TargetAddr::Domain(h, p) => TargetV::Domain(h@, *p),
            TargetAddr::IpV4(a, p) => TargetV::IpV4(a@, *p),
            TargetAddr::IpV6(a, p) => TargetV::IpV6(a@, *p),
        }
    }
}

impl View for Frame {
    type V = FrameV;

    open spec fn view(&self) -> FrameV {
        match self {
            Frame::Hello(h) => FrameV::Hello(h@),
            Frame::HelloAck(h) => FrameV::HelloAck(h@),
            Frame::Open { stream_id, target } => FrameV::Open { stream_id: *stream_id, target: target@ },
            Frame::OpenOk { stream_id } => FrameV::OpenOk { stream_id: *stream_id },
            Frame::OpenErr { stream_id, code, message } => FrameV::OpenErr {
                stream_id: *stream_id,
                code: *code,
                message: message@,
            },
            Frame::Data { stream_id, payload } => FrameV::Data { stream_id: *stream_id, payload: payload@ },
            Frame::Fin { stream_id } => FrameV::Fin { stream_id: *stream_id },
            Frame::Rst { stream_id, code } => FrameV::Rst { stream_id: *stream_id, code: *code },
            Frame::Ping { nonce } => FrameV::Ping { nonce: *nonce },
            Frame::Pong { nonce } => FrameV::Pong { nonce: *nonce },
        }
    }
}

/// The largest length that a `u16` length prefix can announce.
pub const MAX_FIELD_LEN: usize = 65535;

/// The text that a byte field carries: the decoded characters when the bytes
/// are valid UTF-8, and their lossy decoding otherwise.
pub open spec fn text_of(b: Seq<u8>) -> Seq<char> {
    if valid_utf8(b) {
        decode_utf8(b)
    } else {
        lossy_utf8(b)
    }
}

/// The characters that `String::from_utf8_lossy` makes of bytes that are not
/// valid UTF-8.
pub uninterp spec fn lossy_utf8(b: Seq<u8>) -> Seq<char>;

/// Relies on `String::from_utf8_lossy`: valid UTF-8 is decoded as it stands.
#[verifier::external_body]
fn string_from_utf8_lossy(b: &[u8]) -> (r: String)
    ensures
        valid_utf8(b@) ==> r@ == decode_utf8(b@),
        !valid_utf8(b@) ==> r@ == lossy_utf8(b@),
{
    String::from_utf8_lossy(b).into_owned()
}

impl HelloV {
    /// Field values that the encoding can carry.
    pub open spec fn well_formed(self) -> bool {
        self.hmac matches Some(m) ==> m.len() == 32
    }

    pub open spec fn encoding(self) -> Seq<u8> {
        be16(self.version) + be16(self.flags) + be32(self.max_frame) + be32(self.keepalive_ms)
            + be64(self.nonce) + match self.hmac {
            Some(m) => m,
            None => Seq::empty(),
        }
    }
}

impl TargetV {
    pub open spec fn well_formed(self) -> bool {
        match self {
            TargetV::Domain(h, _) => encode_utf8(h).len() <= MAX_FIELD_LEN,
            TargetV::IpV4(a, _) => a.len() == 4,
            TargetV::IpV6(a, _) => a.len() == 16,
        }
    }

    pub open spec fn encoding(self) -> Seq<u8> {
        match self {
            TargetV::Domain(h, p) => seq![1u8] + be16(encode_utf8(h).len() as u16) + encode_utf8(h)
                + be16(p),
            TargetV::IpV4(a, p) => seq![2u8] + a + be16(p),
            TargetV::IpV6(a, p) => seq![3u8] + a + be16(p),
        }
    }
}

impl FrameV {
    /// Every field within the bound that its length prefix can announce.
    pub open spec fn well_formed(self) -> bool {
        match self {
            FrameV::Hello(h) => h.well_formed(),
            FrameV::HelloAck(h) => h.well_formed(),
            FrameV::Open { target, .. } => target.well_formed(),
            FrameV::OpenErr { message, .. } => encode_utf8(message).len() <= MAX_FIELD_LEN,
            FrameV::Data { payload, .. } => payload.len() <= MAX_FIELD_LEN,
            _ => true,
        }
    }

    pub open spec fn type_code(self) -> u8 {
        match self {
            FrameV::Hello(_) => 0x01,
            FrameV::HelloAck(_) => 0x02,
            FrameV::Open { .. } => 0x10,
            FrameV::OpenOk { .. } => 0x11,
            FrameV::OpenErr { .. } => 0x12,
            FrameV::Data { .. } => 0x20,
            FrameV::Fin { .. } => 0x21,
            FrameV::Rst { .. } => 0x22,
            FrameV::Ping { .. } => 0x30,
            FrameV::Pong { .. } => 0x31,
        }
    }

    /// The bytes after the type byte.
    pub open spec fn payload_encoding(self) -> Seq<u8> {
        match self {
            FrameV::Hello(h) => h.encoding(),
            FrameV::HelloAck(h) => h.encoding(),
            FrameV::Open { stream_id, target } => be32(stream_id) + target.encoding(),
            FrameV::OpenOk { stream_id } => be32(stream_id),
            FrameV::OpenErr { stream_id, code, message } => be32(stream_id) + be16(code) + be16(
                encode_utf8(message).len() as u16,
            ) + encode_utf8(message),
            FrameV::Data { stream_id, payload } => be32(stream_id) + be16(payload.len() as u16)
                + payload,
            FrameV::Fin { stream_id } => be32(stream_id),
            FrameV::Rst { stream_id, code } => be32(stream_id) + be16(code),
            FrameV::Ping { nonce } => be64(nonce),
            FrameV::Pong { nonce } => be64(nonce),
        }
    }

    /// The whole frame on the wire: length prefix, type byte, payload.
    pub open spec fn encoding(self) -> Seq<u8> {
        be32((1 + self.payload_encoding().len()) as u32) + seq![self.type_code()]
            + self.payload_encoding()
    }
}

/// The frame that a type byte and its payload stand for, or `None` where the
/// payload cannot be parsed. Bytes past the fields are ignored.
pub open spec fn decode_payload(t: u8, p: Seq<u8>) -> Option<FrameV> {
    if t == 0x01 || t == 0x02 {
        if p.len() < 20 {
            None
        } else {
            let h = HelloV {
                version: read_be16(p, 0),
                flags: read_be16(p, 2),
                max_frame: read_be32(p, 4),
                keepalive_ms: read_be32(p, 8),
                nonce: read_be64(p, 12),
                hmac: if p.len() >= 52 {
                    Some(p.subrange(20, 52))
                } else {
                    None
                },
            };
            if t == 0x01 {
                Some(FrameV::Hello(h))
            } else {
                Some(FrameV::HelloAck(h))
            }
        }
    } else if t == 0x10 {
        match decode_target(p) {
            Some(target) => Some(FrameV::Open { stream_id: read_be32(p, 0), target }),
            None => None,
        }
    } else if t == 0x11 || t == 0x21 {
        if p.len() < 4 {
            None
        } else if t == 0x11 {
            Some(FrameV::OpenOk { stream_id: read_be32(p, 0) })
        } else {
            Some(FrameV::Fin { stream_id: read_be32(p, 0) })
        }
    } else if t == 0x12 {
        if p.len() < 8 || p.len() < 8 + read_be16(p, 6) {
            None
        } else {
            Some(
                FrameV::OpenErr {
                    stream_id: read_be32(p, 0),
                    code: read_be16(p, 4),
                    message: text_of(p.subrange(8, 8 + read_be16(p, 6))),
                },
            )
        }
    } else if t == 0x20 {
        if p.len() < 6 || p.len() < 6 + read_be16(p, 4) {
            None
        } else {
            Some(
                FrameV::Data {
                    stream_id: read_be32(p, 0),
                    payload: p.subrange(6, 6 + read_be16(p, 4)),
                },
            )
        }
    } else if t == 0x22 {
        if p.len() < 6 {
            None
        } else {
            Some(FrameV::Rst { stream_id: read_be32(p, 0), code: read_be16(p, 4) })
        }
    } else if t == 0x30 || t == 0x31 {
        if p.len() < 8 {
            None
        } else if t == 0x30 {
            Some(FrameV::Ping { nonce: read_be64(p, 0) })
        } else {
            Some(FrameV::Pong { nonce: read_be64(p, 0) })
        }
    } else {
        None
    }
}

/// The target of an `Open` payload, which starts after the 4-byte stream id.
pub open spec fn decode_target(p: Seq<u8>) -> Option<TargetV> {
    if p.len() < 5 {
        None
    } else if p[4] == 1 {
        if p.len() < 7 || p.len() < 9 + read_be16(p, 5) {
            None
        } else {
            let n = read_be16(p, 5) as int;
            Some(TargetV::Domain(text_of(p.subrange(7, 7 + n)), read_be16(p, 7 + n)))
        }
    } else if p[4] == 2 {
        if p.len() < 11 {
            None
        } else {
            Some(TargetV::IpV4(p.subrange(5, 9), read_be16(p, 9)))
        }
    } else if p[4] == 3 {
        if p.len() < 23 {
            None
        } else {
            Some(TargetV::IpV6(p.subrange(5, 21), read_be16(p, 21)))
        }
    } else {
        None
    }
}


/// Appends the fields of a `Hello` or `HelloAck`.
fn encode_hello(payload: &mut Vec<u8>, h: &HelloFrame)
    ensures
        final(payload)@ == old(payload)@ + h@.encoding(),
{
    push_u16(payload, h.version);
    push_u16(payload, h.flags);
    push_u32(payload, h.max_frame);
    push_u32(payload, h.keepalive_ms);
    push_u64(payload, h.nonce);
    match &h.hmac {
        Some(m) => {
            push_bytes(payload, m.as_slice());
        },
        None => {},
    }
    assert(payload@ == old(payload)@ + h@.encoding());
}

impl Frame {
    /// The frame's bytes on the wire. Fails with a protocol error where a
    /// field is longer than its `u16` length prefix can announce.
    pub fn encode(&self) -> (r: Result<Vec<u8>, BtProxyError>)
        ensures
            r is Ok <==> self@.well_formed(),
            r matches Ok(b) ==> b@ == self@.encoding(),
            r matches Err(e) ==> e is Protocol,
    {
        let mut payload: Vec<u8> = Vec::new();
        let code: u8 = match self {
            Frame::Hello(h) => {
                encode_hello(&mut payload, h);
                0x01
            },
            Frame::HelloAck(h) => {
                encode_hello(&mut payload, h);
                0x02
            },
            Frame::Open { stream_id, target } => {
                push_u32(&mut payload, *stream_id);
                match target {
                    TargetAddr::Domain(host, port) => {
                        let hb = host.as_str().as_bytes();
                        if hb.len() > MAX_FIELD_LEN {
                            return Err(BtProxyError::Protocol("host name too long".to_string()));
                        }
                        payload.push(1u8);
                        push_u16(&mut payload, hb.len() as u16);
                        push_bytes(&mut payload, hb);
                        push_u16(&mut payload, *port);
                    },
                    TargetAddr::IpV4(addr, port) => {
                        payload.push(2u8);
                        push_bytes(&mut payload, addr.as_slice());
                        push_u16(&mut payload, *port);
                    },
                    TargetAddr::IpV6(addr, port) => {
                        payload.push(3u8);
                        push_bytes(&mut payload, addr.as_slice());
                        push_u16(&mut payload, *port);
                    },
                }
                0x10
            },
            Frame::OpenOk { stream_id } => {
                push_u32(&mut payload, *stream_id);
                0x11
            },
            Frame::OpenErr { stream_id, code, message } => {
                let mb = message.as_str().as_bytes();
                if mb.len() > MAX_FIELD_LEN {
                    return Err(BtProxyError::Protocol("message too long".to_string()));
                }
                push_u32(&mut payload, *stream_id);
                push_u16(&mut payload, *code);
                push_u16(&mut payload, mb.len() as u16);
                push_bytes(&mut payload, mb);
                0x12
            },
            Frame::Data { stream_id, payload: data } => {
                if data.len() > MAX_FIELD_LEN {
                    return Err(BtProxyError::Protocol("payload too long".to_string()));
                }
                push_u32(&mut payload, *stream_id);
                push_u16(&mut payload, data.len() as u16);
                push_bytes(&mut payload, data.as_slice());
                0x20
            },
            Frame::Fin { stream_id } => {
                push_u32(&mut payload, *stream_id);
                0x21
            },
            Frame::Rst { stream_id, code } => {
                push_u32(&mut payload, *stream_id);
                push_u16(&mut payload, *code);
                0x22
            },
            Frame::Ping { nonce } => {
                push_u64(&mut payload, *nonce);
                0x30
            },
            Frame::Pong { nonce } => {
                push_u64(&mut payload, *nonce);
                0x31
            },
        };
        assert(payload@ == self@.payload_encoding());
        assert(code == self@.type_code());
        proof {
            lemma_payload_len(self@);
        }
        let mut buf: Vec<u8> = Vec::new();
        push_u32(&mut buf, (payload.len() + 1) as u32);
        buf.push(code);
        push_bytes(&mut buf, payload.as_slice());
        Ok(buf)
    }
}

/// A well-formed frame's payload fits a `u32` length prefix with room to spare.
pub proof fn lemma_payload_len(f: FrameV)
    requires
        f.well_formed(),
    ensures
        f.payload_encoding().len() <= 70000,
{
    match f {
        FrameV::Open { target, .. } => {
            match target {
                TargetV::Domain(h, _) => {},
                _ => {},
            }
        },
        _ => {},
    }
}

/// A copy of `p[at..at + N]` as an array.
fn array_at<const N: usize>(p: &[u8], at: usize) -> (r: [u8; N])
    requires
        at + N <= p@.len(),
    ensures
        r@ == p@.subrange(at as int, at + N),
{
    let n = p.len();
    let mut a: [u8; N] = [0u8; N];
    let mut i: usize = 0;
    while i < N
        invariant
            i <= N,
            n == p@.len(),
            at + N <= p@.len(),
            a@.len() == N,
            forall|k: int| 0 <= k < i ==> a@[k] == p@[at + k],
        decreases N - i,
    {
        a[i] = p[at + i];
        i = i + 1;
    }
    assert(a@ =~= p@.subrange(at as int, at + N));
    a
}

/// The text of `p[from..to]`.
fn text_at(p: &[u8], from: usize, to: usize) -> (r: String)
    requires
        from <= to <= p@.len(),
    ensures
        r@ == text_of(p@.subrange(from as int, to as int)),
{
    let v = copy_range(p, from, to);
    string_from_utf8_lossy(v.as_slice())
}

/// The target of an `Open` payload.
fn decode_target_exec(p: &[u8]) -> (r: Option<TargetAddr>)
    ensures
        r matches Some(t) ==> decode_target(p@) == Some(t@),
        r is None ==> decode_target(p@) is None,
{
    let len = p.len();
    if len < 5 {
        return None;
    }
    if p[4] == 1 {
        if len < 7 {
            return None;
        }
        let n = get_u16(p, 5) as usize;
        if len < 9 + n {
            return None;
        }
        let host = text_at(p, 7, 7 + n);
        let port = get_u16(p, 7 + n);
        Some(TargetAddr::Domain(host, port))
    } else if p[4] == 2 {
        if len < 11 {
            return None;
        }
        let a: [u8; 4] = array_at(p, 5);
        Some(TargetAddr::IpV4(a, get_u16(p, 9)))
    } else if p[4] == 3 {
        if len < 23 {
            return None;
        }
        let a: [u8; 16] = array_at(p, 5);
        Some(TargetAddr::IpV6(a, get_u16(p, 21)))
    } else {
        None
    }
}

/// The fields of a `Hello` or `HelloAck` payload of at least 20 bytes.
fn decode_hello(p: &[u8]) -> (h: HelloFrame)
    requires
        p@.len() >= 20,
    ensures
        h@ == (HelloV {
            version: read_be16(p@, 0),
            flags: read_be16(p@, 2),
            max_frame: read_be32(p@, 4),
            keepalive_ms: read_be32(p@, 8),
            nonce: read_be64(p@, 12),
            hmac: if p@.len() >= 52 {
                Some(p@.subrange(20, 52))
            } else {
                None
            },
        }),
{
    let hmac: Option<[u8; 32]> = if p.len() >= 52 {
        Some(array_at(p, 20))
    } else {
        None
    };
    HelloFrame {
        version: get_u16(p, 0),
        flags: get_u16(p, 2),
        max_frame: get_u32(p, 4),
        keepalive_ms: get_u32(p, 8),
        nonce: get_u64(p, 12),
        hmac,
    }
}

fn malformed() -> (e: BtProxyError)
    ensures
        e is Protocol,
{
    BtProxyError::Protocol("malformed frame payload".to_string())
}

impl Frame {
    /// The frame that a type byte and its payload stand for. Fails with a
    /// protocol error on an unknown type or a payload that cannot be parsed.
    pub fn decode(frame_type: u8, payload: &[u8]) -> (r: Result<Frame, BtProxyError>)
        ensures
            r matches Ok(f) ==> decode_payload(frame_type, payload@) == Some(f@),
            r is Err ==> decode_payload(frame_type, payload@) is None,
            r matches Err(e) ==> e is Protocol,
    {
        let p = payload;
        let len = p.len();
        let t = frame_type;
        if t == 0x01 || t == 0x02 {
            if len < 20 {
                return Err(BtProxyError::Protocol("hello too short".to_string()));
            }
            let h = decode_hello(p);
            if t == 0x01 {
                Ok(Frame::Hello(h))
            } else {
                Ok(Frame::HelloAck(h))
            }
        } else if t == 0x10 {
            match decode_target_exec(p) {
                Some(target) => Ok(Frame::Open { stream_id: get_u32(p, 0), target }),
                None => Err(BtProxyError::Protocol("invalid addr type".to_string())),
            }
        } else if t == 0x11 || t == 0x21 {
            if len < 4 {
                return Err(malformed());
            }
            let stream_id = get_u32(p, 0);
            if t == 0x11 {
                Ok(Frame::OpenOk { stream_id })
            } else {
                Ok(Frame::Fin { stream_id })
            }
        } else if t == 0x12 {
            if len < 8 {
                return Err(malformed());
            }
            let n = get_u16(p, 6) as usize;
            if len < 8 + n {
                return Err(malformed());
            }
            let message = text_at(p, 8, 8 + n);
            Ok(Frame::OpenErr { stream_id: get_u32(p, 0), code: get_u16(p, 4), message })
        } else if t == 0x20 {
            if len < 6 {
                return Err(malformed());
            }
            let n = get_u16(p, 4) as usize;
            if len < 6 + n {
                return Err(malformed());
            }
            let data = copy_range(p, 6, 6 + n);
            Ok(Frame::Data { stream_id: get_u32(p, 0), payload: data })
        } else if t == 0x22 {
            if len < 6 {
                return Err(malformed());
            }
            Ok(Frame::Rst { stream_id: get_u32(p, 0), code: get_u16(p, 4) })
        } else if t == 0x30 || t == 0x31 {
            if len < 8 {
                return Err(malformed());
            }
            let nonce = get_u64(p, 0);
            if t == 0x30 {
                Ok(Frame::Ping { nonce })
            } else {
                Ok(Frame::Pong { nonce })
            }
        } else {
            Err(BtProxyError::Protocol("unknown frame type".to_string()))
        }
    }
}

proof fn lemma_text_round_trip(t: Seq<char>)
    ensures
        text_of(encode_utf8(t)) == t,
{
    encode_utf8_valid_utf8(t);
    encode_utf8_decode_utf8(t);
}

proof fn lemma_decode_target(stream_id: u32, t: TargetV)
    requires
        t.well_formed(),
    ensures
        decode_target(be32(stream_id) + t.encoding()) == Some(t),
{
    let p = be32(stream_id) + t.encoding();
    match t {
        TargetV::Domain(h, port) => {
            let hb = encode_utf8(h);
            let n = hb.len() as u16;
            assert(p.subrange(5, 7) =~= be16(n));
            lemma_read_be16_at(p, 5, n);
            assert(p.subrange(7, 7 + n) =~= hb);
            assert(p.subrange(7 + n, 9 + n) =~= be16(port));
            lemma_read_be16_at(p, 7 + n, port);
            lemma_text_round_trip(h);
        },
        TargetV::IpV4(a, port) => {
            assert(p.subrange(5, 9) =~= a);
            assert(p.subrange(9, 11) =~= be16(port));
            lemma_read_be16_at(p, 9, port);
        },
        TargetV::IpV6(a, port) => {
            assert(p.subrange(5, 21) =~= a);
            assert(p.subrange(21, 23) =~= be16(port));
            lemma_read_be16_at(p, 21, port);
        },
    }
}

proof fn lemma_decode_hello(h: HelloV)
    requires
        h.well_formed(),
    ensures
        decode_payload(0x01, h.encoding()) == Some(FrameV::Hello(h)),
        decode_payload(0x02, h.encoding()) == Some(FrameV::HelloAck(h)),
{
    let p = h.encoding();
    assert(p.subrange(0, 2) =~= be16(h.version));
    lemma_read_be16_at(p, 0, h.version);
    assert(p.subrange(2, 4) =~= be16(h.flags));
    lemma_read_be16_at(p, 2, h.flags);
    assert(p.subrange(4, 8) =~= be32(h.max_frame));
    lemma_read_be32_at(p, 4, h.max_frame);
    assert(p.subrange(8, 12) =~= be32(h.keepalive_ms));
    lemma_read_be32_at(p, 8, h.keepalive_ms);
    assert(p.subrange(12, 20) =~= be64(h.nonce));
    lemma_read_be64_at(p, 12, h.nonce);
    match h.hmac {
        Some(m) => {
            assert(p.subrange(20, 52) =~= m);
        },
        None => {},
    }
}

/// Decoding the payload that `encoding` writes for a well-formed frame gives
/// the frame back.
pub proof fn lemma_decode_payload_encoding(f: FrameV)
    requires
        f.well_formed(),
    ensures
        decode_payload(f.type_code(), f.payload_encoding()) == Some(f),
{
    let p = f.payload_encoding();
    match f {
        FrameV::Hello(h) => lemma_decode_hello(h),
        FrameV::HelloAck(h) => lemma_decode_hello(h),
        FrameV::Open { stream_id, target } => {
            assert(p.subrange(0, 4) =~= be32(stream_id));
            lemma_read_be32_at(p, 0, stream_id);
            lemma_decode_target(stream_id, target);
        },
        FrameV::OpenOk { stream_id } => {
            assert(p.subrange(0, 4) =~= be32(stream_id));
            lemma_read_be32_at(p, 0, stream_id);
        },
        FrameV::Fin { stream_id } => {
            assert(p.subrange(0, 4) =~= be32(stream_id));
            lemma_read_be32_at(p, 0, stream_id);
        },
        FrameV::OpenErr { stream_id, code, message } => {
            let mb = encode_utf8(message);
            let n = mb.len() as u16;
            assert(p.subrange(0, 4) =~= be32(stream_id));
            lemma_read_be32_at(p, 0, stream_id);
            assert(p.subrange(4, 6) =~= be16(code));
            lemma_read_be16_at(p, 4, code);
            assert(p.subrange(6, 8) =~= be16(n));
            lemma_read_be16_at(p, 6, n);
            assert(p.subrange(8, 8 + n) =~= mb);
            lemma_text_round_trip(message);
        },
        FrameV::Data { stream_id, payload } => {
            let n = payload.len() as u16;
            assert(p.subrange(0, 4) =~= be32(stream_id));
            lemma_read_be32_at(p, 0, stream_id);
            assert(p.subrange(4, 6) =~= be16(n));
            lemma_read_be16_at(p, 4, n);
            assert(p.subrange(6, 6 + n) =~= payload);
        },
        FrameV::Rst { stream_id, code } => {
            assert(p.subrange(0, 4) =~= be32(stream_id));
            lemma_read_be32_at(p, 0, stream_id);
            assert(p.subrange(4, 6) =~= be16(code));
            lemma_read_be16_at(p, 4, code);
        },
        FrameV::Ping { nonce } => {
            assert(p.subrange(0, 8) =~= be64(nonce));
            lemma_read_be64_at(p, 0, nonce);
        },
        FrameV::Pong { nonce } => {
            assert(p.subrange(0, 8) =~= be64(nonce));
            lemma_read_be64_at(p, 0, nonce);
        },
    }
}

} // verus!
