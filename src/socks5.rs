//! The client side of a SOCKS5 `CONNECT` handshake, as a state machine: it
//! says what to write and how many bytes to read next; the caller does the
//! I/O.
use crate::error::BtProxyError;
use crate::wire::{be16, push_bytes, push_u16};
use vstd::prelude::*;
use vstd::utf8::encode_utf8;

verus! {

/// Where the handshake stands.
#[derive(Debug, Clone, Copy, PartialEq, Eq, Structural)]
pub enum Socks5Phase {
    /// The greeting went out; the chosen method is awaited (2 bytes).
    AwaitMethod,
    /// The credentials went out; their verdict is awaited (2 bytes).
    AwaitAuth,
    /// The `CONNECT` went out; the reply header is awaited (4 bytes).
    AwaitReplyHeader,
    /// The length byte of a domain bound address is awaited.
    AwaitAddrLen,
    /// The bound address and port are awaited, then discarded.
    AwaitAddrTail,
    /// The tunnel is open.
    Connected,
    /// The handshake failed.
    Failed,
}

/// What to do next: write these bytes, then read exactly `read` bytes and
/// hand them to `on_read`. `read == 0` means the tunnel is open.
#[derive(Debug)]
pub struct Socks5Next {
    pub write: Vec<u8>,
    pub read: usize,
}

/// A SOCKS5 client handshake towards `host:port`, with optional
/// username/password credentials.
#[derive(Debug)]
pub struct Socks5Client {
    phase: Socks5Phase,
    username: Option<Vec<u8>>,
    password: Option<Vec<u8>>,
    host: Vec<u8>,
    port: u16,
}

/// The handshake's state as a mathematical value.
pub struct Socks5V {
    pub phase: Socks5Phase,
    pub username: Option<Seq<u8>>,
    pub password: Option<Seq<u8>>,
    pub host: Seq<u8>,
    pub port: u16,
}

pub open spec fn bytes_opt(s: Option<Vec<u8>>) -> Option<Seq<u8>> {
    match s {
        Some(v) => Some(v@),
        None => None,
    }
}

impl View for Socks5Client {
    type V = Socks5V;

    closed spec fn view(&self) -> Socks5V {
        Socks5V {
            phase: self.phase,
            username: bytes_opt(self.username),
            password: bytes_opt(self.password),
            host: self.host@,
            port: self.port,
        }
    }
}

/// The greeting: version 5 and the offered methods, no authentication and,
/// with a username, username/password.
pub open spec fn greeting_spec(has_username: bool) -> Seq<u8> {
    if has_username {
        seq![5u8, 2, 0, 2]
    } else {
        seq![5u8, 1, 0]
    }
}

/// The username/password sub-negotiation request.
pub open spec fn auth_request_spec(user: Seq<u8>, pass: Seq<u8>) -> Seq<u8> {
    seq![1u8, user.len() as u8] + user + seq![pass.len() as u8] + pass
}

/// The `CONNECT` request for a domain target.
pub open spec fn connect_request_spec(host: Seq<u8>, port: u16) -> Seq<u8> {
    seq![5u8, 1, 0, 3, host.len() as u8] + host + be16(port)
}

/// What the next input leads to: the next state and what to do, or the
/// error (by kind: `true` for authentication) that ends the handshake.
pub enum StepV {
    Next(Socks5V, Seq<u8>, nat),
    Fail(bool),
}

pub open spec fn step_spec(s: Socks5V, input: Seq<u8>) -> StepV {
    match s.phase {
        Socks5Phase::AwaitMethod => if input[0] != 5 {
            StepV::Fail(false)
        } else if input[1] == 0 {
            StepV::Next(
                Socks5V { phase: Socks5Phase::AwaitReplyHeader, ..s },
                connect_request_spec(s.host, s.port),
                4,
            )
        } else if input[1] == 2 {
            match (s.username, s.password) {
                (Some(u), Some(p)) => StepV::Next(
                    Socks5V { phase: Socks5Phase::AwaitAuth, ..s },
                    auth_request_spec(u, p),
                    2,
                ),
                _ => StepV::Fail(true),
            }
        } else {
            StepV::Fail(false)
        },
        Socks5Phase::AwaitAuth => if input[1] != 0 {
            StepV::Fail(true)
        } else {
            StepV::Next(
                Socks5V { phase: Socks5Phase::AwaitReplyHeader, ..s },
                connect_request_spec(s.host, s.port),
                4,
            )
        },
        Socks5Phase::AwaitReplyHeader => if input[1] != 0 {
            StepV::Fail(false)
        } else if input[3] == 1 {
            StepV::Next(Socks5V { phase: Socks5Phase::AwaitAddrTail, ..s }, Seq::empty(), 6)
        } else if input[3] == 3 {
            StepV::Next(Socks5V { phase: Socks5Phase::AwaitAddrLen, ..s }, Seq::empty(), 1)
        } else if input[3] == 4 {
            StepV::Next(Socks5V { phase: Socks5Phase::AwaitAddrTail, ..s }, Seq::empty(), 18)
        } else {
            StepV::Fail(false)
        },
        Socks5Phase::AwaitAddrLen => StepV::Next(
            Socks5V { phase: Socks5Phase::AwaitAddrTail, ..s },
            Seq::empty(),
            (input[0] + 2) as nat,
        ),
        Socks5Phase::AwaitAddrTail => StepV::Next(
            Socks5V { phase: Socks5Phase::Connected, ..s },
            Seq::empty(),
            0,
        ),
        _ => StepV::Fail(false),
    }
}

/// How many bytes a phase reads at least (the bound address is skipped
/// whatever its length).
pub open spec fn expected_len(s: Socks5V) -> nat {
    match s.phase {
        Socks5Phase::AwaitMethod => 2,
        Socks5Phase::AwaitAuth => 2,
        Socks5Phase::AwaitReplyHeader => 4,
        Socks5Phase::AwaitAddrLen => 1,
        _ => 0,
    }
}

pub open spec fn opt_str_bytes(s: Option<&str>) -> Option<Seq<u8>> {
    match s {
        Some(x) => Some(encode_utf8(x@)),
        None => None,
    }
}

fn opt_bytes(s: Option<&str>) -> (r: Option<Vec<u8>>)
    ensures
        bytes_opt(r) == opt_str_bytes(s),
{
    match s {
        Some(x) => {
            let mut v: Vec<u8> = Vec::new();
            push_bytes(&mut v, x.as_bytes());
            Some(v)
        },
        None => None,
    }
}

fn push_request(out: &mut Vec<u8>, host: &Vec<u8>, port: u16)
    requires
        host@.len() <= 255,
    ensures
        final(out)@ == old(out)@ + connect_request_spec(host@, port),
{
    out.push(5);
    out.push(1);
    out.push(0);
    out.push(3);
    out.push(host.len() as u8);
    push_bytes(out, host.as_slice());
    push_u16(out, port);
    assert(out@ =~= old(out)@ + connect_request_spec(host@, port));
}

impl Socks5Client {
    #[verifier::type_invariant]
    spec fn fits(self) -> bool {
        &&& self.host@.len() <= 255
        &&& (self.username matches Some(u) ==> u@.len() <= 255)
        &&& (self.password matches Some(p) ==> p@.len() <= 255)
    }

    /// Starts a handshake towards `host:port`: returns the client and the
    /// greeting to write; the method choice (2 bytes) is read next. Fails
    /// with a protocol error where the host, username or password is longer
    /// than the 255 bytes that a SOCKS5 length byte can announce.
    pub fn start(username: Option<&str>, password: Option<&str>, host: &str, port: u16) -> (r: Result<(Socks5Client, Socks5Next), BtProxyError>)
        ensures
            r is Ok <==> (encode_utf8(host@).len() <= 255 && (opt_str_bytes(username) matches Some(u)
                ==> u.len() <= 255) && (opt_str_bytes(password) matches Some(p) ==> p.len() <= 255)),
            r matches Ok((c, n)) ==> c@ == (Socks5V {
                phase: Socks5Phase::AwaitMethod,
                username: opt_str_bytes(username),
                password: opt_str_bytes(password),
                host: encode_utf8(host@),
                port,
            }) && n.write@ == greeting_spec(username is Some) && n.read == 2,
            r matches Err(e) ==> e is Protocol,
    {
        let user = opt_bytes(username);
        let pass = opt_bytes(password);
        let mut h: Vec<u8> = Vec::new();
        push_bytes(&mut h, host.as_bytes());
        if h.len() > 255 {
            return Err(BtProxyError::Protocol("socks host too long".to_string()));
        }
        match &user {
            Some(u) => if u.len() > 255 {
                return Err(BtProxyError::Protocol("socks username too long".to_string()));
            },
            None => {},
        }
        match &pass {
            Some(p) => if p.len() > 255 {
                return Err(BtProxyError::Protocol("socks password too long".to_string()));
            },
            None => {},
        }
        let mut greeting: Vec<u8> = Vec::new();
        greeting.push(5);
        if user.is_some() {
            greeting.push(2);
            greeting.push(0);
            greeting.push(2);
        } else {
            greeting.push(1);
            greeting.push(0);
        }
        assert(greeting@ =~= greeting_spec(username is Some));
        let c = Socks5Client { phase: Socks5Phase::AwaitMethod, username: user, password: pass, host: h, port };
        Ok((c, Socks5Next { write: greeting, read: 2 }))
    }

    pub fn phase(&self) -> (r: Socks5Phase)
        ensures
            r == self@.phase,
    {
        self.phase
    }

    fn fail(&mut self, e: BtProxyError) -> (r: Result<Socks5Next, BtProxyError>)
        ensures
            r matches Err(x) && x == e,
            final(self)@ == (Socks5V { phase: Socks5Phase::Failed, ..old(self)@ }),
    {
        proof {
            use_type_invariant(&*self);
        }
        self.phase = Socks5Phase::Failed;
        Err(e)
    }

    /// Takes the bytes that were read, as many as asked for, and says
    /// what to do next. A wrong version, a refused method, failed
    /// credentials, a failed `CONNECT` or an unknown address type end the
    /// handshake with an error (authentication errors for the credentials).
    pub fn on_read(&mut self, input: &[u8]) -> (r: Result<Socks5Next, BtProxyError>)
        requires
            input@.len() >= expected_len(old(self)@),
        ensures
            match step_spec(old(self)@, input@) {
                StepV::Next(s, w, n) => r matches Ok(x) && final(self)@ == s && x.write@ == w
                    && x.read == n,
                StepV::Fail(auth) => r matches Err(e) && (auth ==> e is Auth) && (!auth
                    ==> e is Protocol) && final(self)@.phase == Socks5Phase::Failed,
            },
    {
        proof {
            use_type_invariant(&*self);
        }
        match self.phase {
            Socks5Phase::AwaitMethod => {
                if input[0] != 5 {
                    return self.fail(BtProxyError::Protocol("invalid socks version".to_string()));
                }
                if input[1] == 0 {
                    let mut w: Vec<u8> = Vec::new();
                    push_request(&mut w, &self.host, self.port);
                    self.phase = Socks5Phase::AwaitReplyHeader;
                    Ok(Socks5Next { write: w, read: 4 })
                } else if input[1] == 2 {
                    let mut w: Vec<u8> = Vec::new();
                    match (&self.username, &self.password) {
                        (Some(u), Some(p)) => {
                            w.push(1);
                            w.push(u.len() as u8);
                            push_bytes(&mut w, u.as_slice());
                            w.push(p.len() as u8);
                            push_bytes(&mut w, p.as_slice());
                            assert(w@ =~= auth_request_spec(u@, p@));
                        },
                        (None, _) => {
                            return self.fail(BtProxyError::Auth("username required".to_string()));
                        },
                        (Some(_), None) => {
                            return self.fail(BtProxyError::Auth("password required".to_string()));
                        },
                    }
                    self.phase = Socks5Phase::AwaitAuth;
                    Ok(Socks5Next { write: w, read: 2 })
                } else {
                    self.fail(BtProxyError::Protocol("no acceptable auth method".to_string()))
                }
            },
            Socks5Phase::AwaitAuth => {
                if input[1] != 0 {
                    return self.fail(BtProxyError::Auth("socks auth failed".to_string()));
                }
                let mut w: Vec<u8> = Vec::new();
                push_request(&mut w, &self.host, self.port);
                self.phase = Socks5Phase::AwaitReplyHeader;
                Ok(Socks5Next { write: w, read: 4 })
            },
            Socks5Phase::AwaitReplyHeader => {
                if input[1] != 0 {
                    return self.fail(BtProxyError::Protocol("socks connect failed".to_string()));
                }
                if input[3] == 1 {
                    self.phase = Socks5Phase::AwaitAddrTail;
                    Ok(Socks5Next { write: Vec::new(), read: 6 })
                } else if input[3] == 3 {
                    self.phase = Socks5Phase::AwaitAddrLen;
                    Ok(Socks5Next { write: Vec::new(), read: 1 })
                } else if input[3] == 4 {
                    self.phase = Socks5Phase::AwaitAddrTail;
                    Ok(Socks5Next { write: Vec::new(), read: 18 })
                } else {
                    self.fail(BtProxyError::Protocol("invalid atyp".to_string()))
                }
            },
            Socks5Phase::AwaitAddrLen => {
                self.phase = Socks5Phase::AwaitAddrTail;
                Ok(Socks5Next { write: Vec::new(), read: input[0] as usize + 2 })
            },
            Socks5Phase::AwaitAddrTail => {
                self.phase = Socks5Phase::Connected;
                Ok(Socks5Next { write: Vec::new(), read: 0 })
            },
            _ => self.fail(BtProxyError::Protocol("socks handshake is over".to_string())),
        }
    }
}

} // verus!
