//! The session multiplexer's decisions: handshake, stream tables, dispatch of
//! received frames, and the frames that local operations send.
use crate::codec::{decode_step, try_decode, DecodeStep};
use crate::error::BtProxyError;
use crate::frame::{Frame, FrameV, HelloV, TargetAddr, TargetV, MAX_FIELD_LEN};
use crate::handshake::{build_hello_ack, expected_mac, local_hello, verify_hmac};
use crate::idset::{add_id, has_id, id_set, remove_id};
use vstd::prelude::*;

verus! {

/// Which end of the carrier a session is.
#[derive(Debug, Clone, Copy, PartialEq, Eq, Structural)]
pub enum Role {
    Client,
    Server,
}

/// Session settings.
#[derive(Debug, Clone)]
pub struct MuxConfig {
    pub max_frame: usize,
    pub keepalive_ms: u32,
    pub psk: Option<Vec<u8>>,
}

impl Default for MuxConfig {
    fn default() -> (r: Self)
        ensures
            r.max_frame == 65536,
            r.keepalive_ms == 10_000,
            r.psk is None,
    {
        MuxConfig { max_frame: 65536, keepalive_ms: 10_000, psk: None }
    }
}

/// What the session's worker is to do after a received frame.
#[derive(Debug)]
pub enum Action {
    /// Nothing.
    Ignore,
    /// Enqueue this frame on the outbound queue.
    Send(Frame),
    /// A remote open: create the substream's inbound queue and hand the
    /// substream to the acceptor.
    Accept { stream_id: u32, target: TargetAddr },
    /// Complete the local open that waits for this id.
    Resolve { stream_id: u32, result: Result<(), BtProxyError> },
    /// Push the payload onto the substream's inbound queue.
    Deliver { stream_id: u32, payload: Vec<u8> },
    /// Close the substream's inbound queue.
    Close { stream_id: u32 },
}

/// An `Action` as a mathematical value. A failed open carries the message of
/// the protocol error it completes with.
pub enum ActionV {
    Ignore,
    Send(FrameV),
    Accept { stream_id: u32, target: TargetV },
    Resolve { stream_id: u32, error: Option<Seq<char>> },
    Deliver { stream_id: u32, payload: Seq<u8> },
    Close { stream_id: u32 },
}

impl View for Action {
    type V = ActionV;

    open spec fn view(&self) -> ActionV {
        match self {
            Action::Ignore => ActionV::Ignore,
            Action::Send(f) => ActionV::Send(f@),
            Action::Accept { stream_id, target } => ActionV::Accept {
                stream_id: *stream_id,
                target: target@,
            },
            Action::Resolve { stream_id, result } => ActionV::Resolve {
                stream_id: *stream_id,
                error: match result {
                    Ok(_) => None,
                    Err(BtProxyError::Protocol(m)) => Some(m@),
                    Err(_) => Some(Seq::empty()),
                },
            },
            Action::Deliver { stream_id, payload } => ActionV::Deliver {
                stream_id: *stream_id,
                payload: payload@,
            },
            Action::Close { stream_id } => ActionV::Close { stream_id: *stream_id },
        }
    }
}

/// The session's state as a mathematical value.
pub struct CoreV {
    pub role: Role,
    pub max_frame: u32,
    pub keepalive_ms: u32,
    pub psk: Option<Seq<u8>>,
    pub got_handshake: bool,
    pub closed: bool,
    pub next_stream_id: u32,
    /// Ids with a live inbound queue.
    pub streams: Set<u32>,
    /// Ids of local opens that wait for `OpenOk` / `OpenErr`.
    pub pending: Set<u32>,
    /// Ids whose `OpenOk` / `OpenErr` has been processed, and that no local
    /// open has taken since.
    pub resolved: Set<u32>,
    /// Received bytes not yet decoded.
    pub buffer: Seq<u8>,
}

impl CoreV {
    /// The state invariant: a resolved id waits for nothing.
    pub open spec fn inv(self) -> bool {
        self.resolved.disjoint(self.pending)
    }
}

/// Whether a handshake frame passes the key check.
pub open spec fn mac_ok(psk: Option<Seq<u8>>, h: HelloV) -> bool {
    match psk {
        None => true,
        Some(k) => h.hmac == Some(expected_mac(k, h.nonce)),
    }
}

/// The state and action that a frame received after the handshake leads to.
pub open spec fn dispatch_spec(s: CoreV, f: FrameV) -> (CoreV, ActionV) {
    match f {
        FrameV::Open { stream_id, target } => (
            CoreV { streams: s.streams.insert(stream_id), ..s },
            ActionV::Accept { stream_id, target },
        ),
        FrameV::OpenOk { stream_id } => (
            CoreV {
                pending: s.pending.remove(stream_id),
                resolved: s.resolved.insert(stream_id),
                ..s
            },
            if s.pending.contains(stream_id) {
                ActionV::Resolve { stream_id, error: None }
            } else {
                ActionV::Ignore
            },
        ),
        FrameV::OpenErr { stream_id, message, .. } => (
            CoreV {
                pending: s.pending.remove(stream_id),
                resolved: s.resolved.insert(stream_id),
                ..s
            },
            if s.pending.contains(stream_id) {
                ActionV::Resolve { stream_id, error: Some(message) }
            } else {
                ActionV::Ignore
            },
        ),
        FrameV::Data { stream_id, payload } => (
            s,
            if s.streams.contains(stream_id) {
                ActionV::Deliver { stream_id, payload }
            } else {
                ActionV::Ignore
            },
        ),
        FrameV::Fin { stream_id } => close_spec(s, stream_id),
        FrameV::Rst { stream_id, .. } => close_spec(s, stream_id),
        FrameV::Ping { nonce } => (s, ActionV::Send(FrameV::Pong { nonce })),
        _ => (s, ActionV::Ignore),
    }
}

pub open spec fn close_spec(s: CoreV, id: u32) -> (CoreV, ActionV) {
    (
        CoreV { streams: s.streams.remove(id), ..s },
        if s.streams.contains(id) {
            ActionV::Close { stream_id: id }
        } else {
            ActionV::Ignore
        },
    )
}

/// The state and action that a frame received before the handshake leads to,
/// or `None` where a handshake frame fails the key check.
pub open spec fn handshake_spec(s: CoreV, f: FrameV) -> Option<(CoreV, ActionV)> {
    match f {
        FrameV::Hello(h) => if mac_ok(s.psk, h) {
            Some(
                (
                    CoreV { got_handshake: true, ..s },
                    ActionV::Send(
                        FrameV::HelloAck(local_hello(s.max_frame, s.keepalive_ms, s.psk, h.nonce)),
                    ),
                ),
            )
        } else {
            None
        },
        FrameV::HelloAck(h) => if mac_ok(s.psk, h) {
            Some((CoreV { got_handshake: true, ..s }, ActionV::Ignore))
        } else {
            None
        },
        _ => Some((s, ActionV::Ignore)),
    }
}

/// What one poll of the receive buffer comes to.
pub enum PollV {
    /// The session is closed: nothing is decoded.
    Closed,
    /// No whole frame yet.
    Idle,
    /// The buffer cannot be decoded, or a handshake frame fails the key
    /// check: the session ends in the given state.
    Fatal { auth: bool, next: CoreV },
    /// One frame taken off the buffer, and what it leads to.
    Step(CoreV, ActionV),
}

pub open spec fn poll_spec(s: CoreV) -> PollV {
    if s.closed {
        PollV::Closed
    } else {
        match decode_step(s.buffer, s.max_frame as nat) {
            DecodeStep::NeedMore => PollV::Idle,
            DecodeStep::Frame(f, n) => {
                let s1 = CoreV { buffer: s.buffer.subrange(n as int, s.buffer.len() as int), ..s };
                if s.got_handshake {
                    PollV::Step(dispatch_spec(s1, f).0, dispatch_spec(s1, f).1)
                } else {
                    match handshake_spec(s1, f) {
                        Some((s2, a)) => PollV::Step(s2, a),
                        None => PollV::Fatal { auth: true, next: CoreV { closed: true, ..s1 } },
                    }
                }
            },
            _ => PollV::Fatal { auth: false, next: CoreV { closed: true, ..s } },
        }
    }
}

/// The state of one multiplexed session, shared by its reader, its writer
/// and the local open/accept operations.
pub struct MuxCore {
    role: Role,
    max_frame: u32,
    keepalive_ms: u32,
    psk: Option<Vec<u8>>,
    got_handshake: bool,
    closed: bool,
    next_stream_id: u32,
    streams: Vec<u32>,
    pending: Vec<u32>,
    resolved: Ghost<Set<u32>>,
    buffer: Vec<u8>,
}

impl View for MuxCore {
    type V = CoreV;

    closed spec fn view(&self) -> CoreV {
        CoreV {
            role: self.role,
            max_frame: self.max_frame,
            keepalive_ms: self.keepalive_ms,
            psk: match self.psk {
                Some(k) => Some(k@),
                None => None,
            },
            got_handshake: self.got_handshake,
            closed: self.closed,
            next_stream_id: self.next_stream_id,
            streams: id_set(self.streams@),
            pending: id_set(self.pending@),
            resolved: self.resolved@,
            buffer: self.buffer@,
        }
    }
}

/// The state of a fresh session under `cfg`, before the handshake.
pub open spec fn initial_core(cfg_max_frame: usize, keepalive_ms: u32, psk: Option<Seq<u8>>, role: Role) -> CoreV {
    CoreV {
        role,
        max_frame: if cfg_max_frame > u32::MAX {
            u32::MAX
        } else {
            cfg_max_frame as u32
        },
        keepalive_ms,
        psk,
        got_handshake: false,
        closed: false,
        next_stream_id: 1,
        streams: Set::empty(),
        pending: Set::empty(),
        resolved: Set::empty(),
        buffer: Seq::empty(),
    }
}

pub open spec fn psk_of(psk: Option<Vec<u8>>) -> Option<Seq<u8>> {
    match psk {
        Some(k) => Some(k@),
        None => None,
    }
}

fn session_closed() -> (e: BtProxyError)
    ensures
        e is Protocol,
{
    BtProxyError::Protocol("session closed".to_string())
}

impl MuxCore {
    #[verifier::type_invariant]
    spec fn well_formed(self) -> bool {
        self@.inv()
    }

    /// A session under `cfg` in the given role, before the handshake. A frame
    /// bound beyond `u32::MAX` is read as `u32::MAX`, the largest length a
    /// prefix can announce.
    pub fn new(cfg: MuxConfig, role: Role) -> (r: MuxCore)
        ensures
            r@ == initial_core(cfg.max_frame, cfg.keepalive_ms, psk_of(cfg.psk), role),
    {
        let max_frame: u32 = if cfg.max_frame > u32::MAX as usize {
            u32::MAX
        } else {
            cfg.max_frame as u32
        };
        let r = MuxCore {
            role,
            max_frame,
            keepalive_ms: cfg.keepalive_ms,
            psk: cfg.psk,
            got_handshake: false,
            closed: false,
            next_stream_id: 1,
            streams: Vec::new(),
            pending: Vec::new(),
            resolved: Ghost(Set::empty()),
            buffer: Vec::new(),
        };
        assert(r@.streams =~= Set::empty());
        assert(r@.pending =~= Set::empty());
        r
    }

    pub fn role(&self) -> (r: Role)
        ensures
            r == self@.role,
    {
        self.role
    }

    pub fn is_closed(&self) -> (r: bool)
        ensures
            r == self@.closed,
    {
        self.closed
    }

    pub fn handshake_done(&self) -> (r: bool)
        ensures
            r == self@.got_handshake,
    {
        self.got_handshake
    }

    pub fn keepalive_ms(&self) -> (r: u32)
        ensures
            r == self@.keepalive_ms,
    {
        self.keepalive_ms
    }

    /// Whether `id` has a live inbound queue.
    pub fn has_stream(&self, id: u32) -> (r: bool)
        ensures
            r == self@.streams.contains(id),
    {
        has_id(&self.streams, id)
    }

    /// Whether a local open of `id` waits for its answer.
    pub fn has_pending(&self, id: u32) -> (r: bool)
        ensures
            r == self@.pending.contains(id),
    {
        has_id(&self.pending, id)
    }

    fn psk_slice(&self) -> (r: Option<&[u8]>)
        ensures
            crate::handshake::psk_view(r) == self@.psk,
    {
        match &self.psk {
            Some(k) => Some(k.as_slice()),
            None => None,
        }
    }

    /// The local `Hello`, with a fresh nonce, that opens the handshake.
    pub fn hello(&self) -> (r: Frame)
        ensures
            r matches Frame::Hello(h) && h@ == local_hello(
                self@.max_frame,
                self@.keepalive_ms,
                self@.psk,
                h.nonce,
            ),
    {
        crate::handshake::build_hello(self.max_frame, self.keepalive_ms, self.psk_slice())
    }

    /// Appends received bytes to the buffer.
    pub fn push_chunk(&mut self, chunk: &[u8])
        ensures
            final(self)@ == (CoreV { buffer: old(self)@.buffer + chunk@, ..old(self)@ }),
    {
        proof {
            use_type_invariant(&*self);
        }
        let mut buf: Vec<u8> = Vec::new();
        std::mem::swap(&mut buf, &mut self.buffer);
        crate::wire::push_bytes(&mut buf, chunk);
        self.buffer = buf;
    }

    /// Marks the session as torn down: every later send fails.
    pub fn close(&mut self)
        ensures
            final(self)@ == (CoreV { closed: true, ..old(self)@ }),
    {
        proof {
            use_type_invariant(&*self);
        }
        self.closed = true;
    }
}

impl MuxCore {
    fn streams_insert(&mut self, id: u32)
        ensures
            final(self)@ == (CoreV { streams: old(self)@.streams.insert(id), ..old(self)@ }),
    {
        proof {
            use_type_invariant(&*self);
        }
        let mut v: Vec<u32> = Vec::new();
        std::mem::swap(&mut v, &mut self.streams);
        add_id(&mut v, id);
        self.streams = v;
    }

    fn streams_remove(&mut self, id: u32)
        ensures
            final(self)@ == (CoreV { streams: old(self)@.streams.remove(id), ..old(self)@ }),
    {
        proof {
            use_type_invariant(&*self);
        }
        let mut v: Vec<u32> = Vec::new();
        std::mem::swap(&mut v, &mut self.streams);
        remove_id(&mut v, id);
        self.streams = v;
    }

    fn pending_remove(&mut self, id: u32)
        ensures
            final(self)@ == (CoreV { pending: old(self)@.pending.remove(id), ..old(self)@ }),
    {
        proof {
            use_type_invariant(&*self);
        }
        let mut v: Vec<u32> = Vec::new();
        std::mem::swap(&mut v, &mut self.pending);
        remove_id(&mut v, id);
        self.pending = v;
    }

    /// Records that the answer to an open of `id` has been processed.
    fn resolve(&mut self, id: u32)
        ensures
            final(self)@ == (CoreV {
                pending: old(self)@.pending.remove(id),
                resolved: old(self)@.resolved.insert(id),
                ..old(self)@
            }),
    {
        self.pending_remove(id);
        proof {
            use_type_invariant(&*self);
        }
        self.resolved = Ghost(self.resolved@.insert(id));
    }

    /// Records a local open of `id` that waits for its answer.
    fn await_answer(&mut self, id: u32)
        ensures
            final(self)@ == (CoreV {
                pending: old(self)@.pending.insert(id),
                resolved: old(self)@.resolved.remove(id),
                ..old(self)@
            }),
    {
        proof {
            use_type_invariant(&*self);
        }
        self.resolved = Ghost(self.resolved@.remove(id));
        let mut v: Vec<u32> = Vec::new();
        std::mem::swap(&mut v, &mut self.pending);
        add_id(&mut v, id);
        self.pending = v;
    }

    /// Handles a frame received after the handshake.
    fn dispatch(&mut self, f: Frame) -> (a: Action)
        ensures
            (final(self)@, a@) == dispatch_spec(old(self)@, f@),
    {
        match f {
            Frame::Open { stream_id, target } => {
                self.streams_insert(stream_id);
                Action::Accept { stream_id, target }
            },
            Frame::OpenOk { stream_id } => {
                let was_pending = self.has_pending(stream_id);
                self.resolve(stream_id);
                if was_pending {
                    Action::Resolve { stream_id, result: Ok(()) }
                } else {
                    Action::Ignore
                }
            },
            Frame::OpenErr { stream_id, message, .. } => {
                let was_pending = self.has_pending(stream_id);
                self.resolve(stream_id);
                if was_pending {
                    Action::Resolve { stream_id, result: Err(BtProxyError::Protocol(message)) }
                } else {
                    Action::Ignore
                }
            },
            Frame::Data { stream_id, payload } => {
                if self.has_stream(stream_id) {
                    Action::Deliver { stream_id, payload }
                } else {
                    Action::Ignore
                }
            },
            Frame::Fin { stream_id } => self.close_stream(stream_id),
            Frame::Rst { stream_id, .. } => self.close_stream(stream_id),
            Frame::Ping { nonce } => Action::Send(Frame::Pong { nonce }),
            _ => Action::Ignore,
        }
    }

    fn close_stream(&mut self, id: u32) -> (a: Action)
        ensures
            (final(self)@, a@) == close_spec(old(self)@, id),
    {
        let live = self.has_stream(id);
        self.streams_remove(id);
        if live {
            Action::Close { stream_id: id }
        } else {
            Action::Ignore
        }
    }

    /// Handles a frame received before the handshake.
    fn handshake(&mut self, f: Frame) -> (r: Result<Action, BtProxyError>)
        ensures
            match handshake_spec(old(self)@, f@) {
                Some((s, a)) => r matches Ok(act) && act@ == a && final(self)@ == s,
                None => r matches Err(e) && e is Auth && final(self)@ == old(self)@,
            },
    {
        proof {
            use_type_invariant(&*self);
        }
        match f {
            Frame::Hello(h) => {
                let psk = self.psk_slice();
                match verify_hmac(psk, &h) {
                    Ok(()) => {
                        let ack = build_hello_ack(self.max_frame, self.keepalive_ms, psk, h.nonce);
                        self.got_handshake = true;
                        Ok(Action::Send(ack))
                    },
                    Err(e) => Err(e),
                }
            },
            Frame::HelloAck(h) => {
                let psk = self.psk_slice();
                match verify_hmac(psk, &h) {
                    Ok(()) => {
                        self.got_handshake = true;
                        Ok(Action::Ignore)
                    },
                    Err(e) => Err(e),
                }
            },
            _ => Ok(Action::Ignore),
        }
    }

    /// Takes the next whole frame off the receive buffer and decides what it
    /// leads to. Before the handshake only `Hello` / `HelloAck` count; after
    /// it they are ignored. A buffer that cannot be decoded, or a handshake
    /// frame that fails the key check, ends the session.
    pub fn poll(&mut self) -> (r: Result<Option<Action>, BtProxyError>)
        ensures
            match poll_spec(old(self)@) {
                PollV::Closed => r is Err && final(self)@ == old(self)@,
                PollV::Idle => r matches Ok(None) && final(self)@ == old(self)@,
                PollV::Fatal { auth, next } => r matches Err(e) && (auth ==> e is Auth) && (!auth
                    ==> e is Protocol) && final(self)@ == next,
                PollV::Step(s, a) => r matches Ok(Some(act)) && act@ == a && final(self)@ == s,
            },
    {
        proof {
            use_type_invariant(&*self);
        }
        if self.closed {
            return Err(session_closed());
        }
        let mut buf: Vec<u8> = Vec::new();
        std::mem::swap(&mut buf, &mut self.buffer);
        let decoded = try_decode(&mut buf, self.max_frame as usize);
        self.buffer = buf;
        match decoded {
            Err(e) => {
                self.closed = true;
                Err(e)
            },
            Ok(None) => Ok(None),
            Ok(Some(f)) => {
                if self.got_handshake {
                    Ok(Some(self.dispatch(f)))
                } else {
                    match self.handshake(f) {
                        Ok(a) => Ok(Some(a)),
                        Err(e) => {
                            proof {
                                use_type_invariant(&*self);
                            }
                            self.closed = true;
                            Err(e)
                        },
                    }
                }
            },
        }
    }
}

impl MuxCore {
    /// Starts a local open of `target`: takes the next stream id (wrapping),
    /// records the id as live and waiting for its answer, and returns the
    /// `Open` frame to send. Fails once the session is closed.
    ///
    /// Both ends count ids from 1 in one shared space, and an id that a
    /// remote `Open` names is taken as given; two ends that open at once may
    /// pick the same id.
    pub fn begin_open(&mut self, target: TargetAddr) -> (r: Result<(u32, Frame), BtProxyError>)
        ensures
            old(self)@.closed ==> r is Err && final(self)@ == old(self)@,
            !old(self)@.closed ==> (r matches Ok((id, f)) && id == old(self)@.next_stream_id && f@
                == (FrameV::Open { stream_id: id, target: target@ }) && final(self)@ == (CoreV {
                next_stream_id: old(self)@.next_stream_id.wrapping_add(1),
                streams: old(self)@.streams.insert(id),
                pending: old(self)@.pending.insert(id),
                resolved: old(self)@.resolved.remove(id),
                ..old(self)@
            })),
    {
        proof {
            use_type_invariant(&*self);
        }
        if self.closed {
            return Err(session_closed());
        }
        let id = self.next_stream_id;
        self.next_stream_id = id.wrapping_add(1);
        self.streams_insert(id);
        self.await_answer(id);
        Ok((id, Frame::Open { stream_id: id, target }))
    }

    /// Forgets a local open that failed or was given up: `id` is neither
    /// live nor waiting any more.
    pub fn abandon_open(&mut self, id: u32)
        ensures
            final(self)@ == (CoreV {
                streams: old(self)@.streams.remove(id),
                pending: old(self)@.pending.remove(id),
                ..old(self)@
            }),
    {
        self.streams_remove(id);
        self.pending_remove(id);
    }

    /// The `OpenOk` that accepts a remote open of `id`.
    pub fn open_ok_frame(&self, id: u32) -> (r: Result<Frame, BtProxyError>)
        ensures
            self@.closed ==> r is Err,
            !self@.closed ==> (r matches Ok(f) && f@ == (FrameV::OpenOk { stream_id: id })),
    {
        if self.closed {
            return Err(session_closed());
        }
        Ok(Frame::OpenOk { stream_id: id })
    }

    /// The `OpenErr` that refuses a remote open of `id`; forgets `id` first.
    pub fn open_err_frame(&mut self, id: u32, code: u16, message: &str) -> (r: Result<Frame, BtProxyError>)
        ensures
            old(self)@.closed ==> r is Err && final(self)@ == old(self)@,
            !old(self)@.closed ==> (r matches Ok(f) && f@ == (FrameV::OpenErr {
                stream_id: id,
                code,
                message: message@,
            }) && final(self)@ == (CoreV {
                streams: old(self)@.streams.remove(id),
                pending: old(self)@.pending.remove(id),
                ..old(self)@
            })),
    {
        if self.closed {
            return Err(session_closed());
        }
        self.abandon_open(id);
        Ok(Frame::OpenErr { stream_id: id, code, message: message.to_string() })
    }

    /// The `Rst` that resets `id`; forgets `id` first.
    pub fn rst_frame(&mut self, id: u32, code: u16) -> (r: Result<Frame, BtProxyError>)
        ensures
            old(self)@.closed ==> r is Err && final(self)@ == old(self)@,
            !old(self)@.closed ==> (r matches Ok(f) && f@ == (FrameV::Rst { stream_id: id, code })
                && final(self)@ == (CoreV {
                streams: old(self)@.streams.remove(id),
                pending: old(self)@.pending.remove(id),
                ..old(self)@
            })),
    {
        if self.closed {
            return Err(session_closed());
        }
        self.abandon_open(id);
        Ok(Frame::Rst { stream_id: id, code })
    }

    /// The `Data` frame that carries `payload` on `id`. Fails once the
    /// session is closed, and on a payload beyond 65535 bytes, which the
    /// caller is to split.
    pub fn data_frame(&self, id: u32, payload: Vec<u8>) -> (r: Result<Frame, BtProxyError>)
        ensures
            r is Ok <==> !self@.closed && payload@.len() <= MAX_FIELD_LEN,
            r matches Ok(f) ==> f@ == (FrameV::Data { stream_id: id, payload: payload@ }),
            r matches Err(e) ==> e is Protocol,
    {
        if self.closed {
            return Err(session_closed());
        }
        if payload.len() > MAX_FIELD_LEN {
            return Err(BtProxyError::Protocol("payload too long".to_string()));
        }
        Ok(Frame::Data { stream_id: id, payload })
    }

    /// The `Fin` that ends the local side of `id`.
    pub fn fin_frame(&self, id: u32) -> (r: Result<Frame, BtProxyError>)
        ensures
            self@.closed ==> r is Err,
            !self@.closed ==> (r matches Ok(f) && f@ == (FrameV::Fin { stream_id: id })),
    {
        if self.closed {
            return Err(session_closed());
        }
        Ok(Frame::Fin { stream_id: id })
    }

    /// The `Ping` that keeps the carrier busy.
    pub fn ping_frame(&self, nonce: u64) -> (r: Result<Frame, BtProxyError>)
        ensures
            self@.closed ==> r is Err,
            !self@.closed ==> (r matches Ok(f) && f@ == (FrameV::Ping { nonce })),
    {
        if self.closed {
            return Err(session_closed());
        }
        Ok(Frame::Ping { nonce })
    }
}

/// Once the answer to an open has been processed, and until a new local
/// open takes the id, the id is never both live and waiting.
pub proof fn lemma_resolved_not_both(s: CoreV, id: u32)
    requires
        s.inv(),
        s.resolved.contains(id),
    ensures
        !(s.streams.contains(id) && s.pending.contains(id)),
{
}

/// Processing `OpenOk` or `OpenErr` for an id leaves it resolved, and every
/// step of a session keeps the invariant.
pub proof fn lemma_dispatch_keeps_inv(s: CoreV, f: FrameV)
    requires
        s.inv(),
    ensures
        dispatch_spec(s, f).0.inv(),
        f matches FrameV::OpenOk { stream_id } ==> dispatch_spec(s, f).0.resolved.contains(stream_id),
        f matches FrameV::OpenErr { stream_id, .. } ==> dispatch_spec(s, f).0.resolved.contains(
            stream_id,
        ),
        handshake_spec(s, f) matches Some((s2, _)) ==> s2.inv(),
{
}

/// Before the handshake no frame touches the stream tables, and only a
/// `HelloAck` answering a `Hello` is sent; after it, `Hello` and `HelloAck`
/// are ignored.
pub proof fn lemma_handshake_exclusive(s: CoreV, f: FrameV)
    ensures
        handshake_spec(s, f) matches Some((s2, a)) ==> {
            &&& s2.streams == s.streams
            &&& s2.pending == s.pending
            &&& (a is Ignore || a matches ActionV::Send(FrameV::HelloAck(_)))
        },
        (f is Hello || f is HelloAck) ==> dispatch_spec(s, f) == (s, ActionV::Ignore),
{
}

/// A closed session stays closed: it decodes nothing more, and no frame
/// that reaches it reopens it. Every send it is asked for then fails (see
/// `begin_open`, `open_ok_frame`, `open_err_frame`, `rst_frame`,
/// `data_frame`, `fin_frame`, `ping_frame`).
pub proof fn lemma_closed_is_final(s: CoreV, f: FrameV)
    requires
        s.closed,
    ensures
        poll_spec(s) is Closed,
        dispatch_spec(s, f).0.closed,
        handshake_spec(s, f) matches Some((t, _)) ==> t.closed,
{
}

/// The state and the actions that a sequence of frames received after the
/// handshake leads to, one action per frame.
pub open spec fn dispatch_run(s: CoreV, fs: Seq<FrameV>) -> (CoreV, Seq<ActionV>)
    decreases fs.len(),
{
    if fs.len() == 0 {
        (s, Seq::empty())
    } else {
        let prev = dispatch_run(s, fs.drop_last());
        let next = dispatch_spec(prev.0, fs.last());
        (next.0, prev.1.push(next.1))
    }
}

/// The `k`-th action of a run is what the `k`-th frame leads to in the state
/// that the frames before it left.
pub proof fn lemma_run_step(s: CoreV, fs: Seq<FrameV>, k: int)
    requires
        0 <= k < fs.len(),
    ensures
        dispatch_run(s, fs).1.len() == fs.len(),
        dispatch_run(s, fs).1[k] == dispatch_spec(dispatch_run(s, fs.subrange(0, k)).0, fs[k]).1,
    decreases fs.len(),
{
    lemma_run_len(s, fs);
    if k == fs.len() - 1 {
        assert(fs.drop_last() =~= fs.subrange(0, k));
    } else {
        lemma_run_step(s, fs.drop_last(), k);
        assert(fs.drop_last().subrange(0, k) =~= fs.subrange(0, k));
    }
}

proof fn lemma_run_len(s: CoreV, fs: Seq<FrameV>)
    ensures
        dispatch_run(s, fs).1.len() == fs.len(),
    decreases fs.len(),
{
    if fs.len() > 0 {
        lemma_run_len(s, fs.drop_last());
    }
}

/// Payloads reach a substream in the order their `Data` frames were decoded:
/// two deliveries for one id come from `Data` frames for that id with the
/// same payloads, in the same order.
pub proof fn lemma_data_order(s: CoreV, fs: Seq<FrameV>, i: int, j: int, id: u32, p: Seq<u8>, q: Seq<u8>)
    requires
        0 <= i < j < fs.len(),
        dispatch_run(s, fs).1[i] == (ActionV::Deliver { stream_id: id, payload: p }),
        dispatch_run(s, fs).1[j] == (ActionV::Deliver { stream_id: id, payload: q }),
    ensures
        fs[i] == (FrameV::Data { stream_id: id, payload: p }),
        fs[j] == (FrameV::Data { stream_id: id, payload: q }),
{
    lemma_run_step(s, fs, i);
    lemma_run_step(s, fs, j);
}

/// A `Data` frame for a live substream is delivered as it came.
pub proof fn lemma_data_delivered(s: CoreV, fs: Seq<FrameV>, k: int, id: u32, p: Seq<u8>)
    requires
        0 <= k < fs.len(),
        fs[k] == (FrameV::Data { stream_id: id, payload: p }),
        dispatch_run(s, fs.subrange(0, k)).0.streams.contains(id),
    ensures
        dispatch_run(s, fs).1[k] == (ActionV::Deliver { stream_id: id, payload: p }),
{
    lemma_run_step(s, fs, k);
}

} // verus!
