//! Building and checking the `Hello` / `HelloAck` exchange.
use crate::error::BtProxyError;
use crate::frame::{Frame, FrameV, HelloFrame, HelloV};
use crate::wire::{be64, push_u64};
use hmac::{Hmac, Mac};
use rand::RngCore;
use sha2::Sha256;
use vstd::prelude::*;

verus! {

/// The protocol version that this library speaks.
pub const PROTOCOL_VERSION: u16 = 1;

/// The HMAC-SHA256 tag of `msg` under `key`.
pub uninterp spec fn hmac_sha256(key: Seq<u8>, msg: Seq<u8>) -> Seq<u8>;

/// Relies on hmac's `Hmac::<Sha256>`: `new_from_slice` takes a key of any
/// length, and `finalize` yields the 32-byte tag of the bytes fed to `update`.
#[verifier::external_body]
fn hmac_sha256_tag(key: &[u8], msg: &[u8]) -> (r: [u8; 32])
    ensures
        r@ == hmac_sha256(key@, msg@),
{
    let mut mac = <Hmac<Sha256> as Mac>::new_from_slice(key).expect("any key length");
    mac.update(msg);
    mac.finalize().into_bytes().into()
}

/// Relies on rand's `thread_rng().next_u64()` for a fresh nonce.
#[verifier::external_body]
fn random_nonce() -> u64 {
    rand::thread_rng().next_u64()
}

/// The label that follows the nonce in the authenticated message.
pub open spec fn hmac_label() -> Seq<u8> {
    seq![0x62u8, 0x74, 0x70, 0x72, 0x6f, 0x78, 0x79, 0x2d, 0x76, 0x31]
}

/// The bytes that the handshake tag covers: the nonce, then the label.
pub open spec fn auth_message(nonce: u64) -> Seq<u8> {
    be64(nonce) + hmac_label()
}

/// The tag that a pre-shared key gives a nonce.
pub open spec fn expected_mac(key: Seq<u8>, nonce: u64) -> Seq<u8> {
    hmac_sha256(key, auth_message(nonce))
}

/// What a handshake frame built with the local settings holds.
pub open spec fn local_hello(max_frame: u32, keepalive_ms: u32, psk: Option<Seq<u8>>, nonce: u64) -> HelloV {
    HelloV {
        version: 1,
        flags: if psk is Some {
            1
        } else {
            0
        },
        max_frame,
        keepalive_ms,
        nonce,
        hmac: match psk {
            Some(k) => Some(expected_mac(k, nonce)),
            None => None,
        },
    }
}

pub open spec fn psk_view(psk: Option<&[u8]>) -> Option<Seq<u8>> {
    match psk {
        Some(k) => Some(k@),
        None => None,
    }
}

/// The tag over `nonce` under `key`.
pub fn compute_hmac(key: &[u8], nonce: u64) -> (r: [u8; 32])
    ensures
        r@ == expected_mac(key@, nonce),
{
    let mut msg: Vec<u8> = Vec::new();
    push_u64(&mut msg, nonce);
    msg.push(0x62);
    msg.push(0x74);
    msg.push(0x70);
    msg.push(0x72);
    msg.push(0x6f);
    msg.push(0x78);
    msg.push(0x79);
    msg.push(0x2d);
    msg.push(0x76);
    msg.push(0x31);
    assert(msg@ =~= auth_message(nonce));
    hmac_sha256_tag(key, msg.as_slice())
}

fn hello_fields(max_frame: u32, keepalive_ms: u32, psk: Option<&[u8]>, nonce: u64) -> (h: HelloFrame)
    ensures
        h@ == local_hello(max_frame, keepalive_ms, psk_view(psk), nonce),
{
    let hmac = match psk {
        Some(key) => Some(compute_hmac(key, nonce)),
        None => None,
    };
    HelloFrame {
        version: PROTOCOL_VERSION,
        flags: if psk.is_some() {
            1
        } else {
            0
        },
        max_frame,
        keepalive_ms,
        nonce,
        hmac,
    }
}

/// A `Hello` with a fresh random nonce, tagged when a key is given.
pub fn build_hello(max_frame: u32, keepalive_ms: u32, psk: Option<&[u8]>) -> (r: Frame)
    ensures
        r matches Frame::Hello(h) && h@ == local_hello(
            max_frame,
            keepalive_ms,
            psk_view(psk),
            h.nonce,
        ),
{
    let nonce = random_nonce();
    Frame::Hello(hello_fields(max_frame, keepalive_ms, psk, nonce))
}

/// The `HelloAck` that answers a `Hello` carrying `nonce`.
pub fn build_hello_ack(max_frame: u32, keepalive_ms: u32, psk: Option<&[u8]>, nonce: u64) -> (r: Frame)
    ensures
        r@ == FrameV::HelloAck(local_hello(max_frame, keepalive_ms, psk_view(psk), nonce)),
{
    Frame::HelloAck(hello_fields(max_frame, keepalive_ms, psk, nonce))
}

/// Whether a handshake frame carries exactly the tag `expected`.
pub fn mac_matches(expected: &[u8; 32], frame: &HelloFrame) -> (r: bool)
    ensures
        r == (frame@.hmac == Some(expected@)),
{
    match &frame.hmac {
        None => false,
        Some(got) => {
            assert(frame@.hmac == Some(got@));
            let mut i: usize = 0;
            while i < 32
                invariant
                    i <= 32,
                    frame@.hmac == Some(got@),
                    got@.len() == 32,
                    expected@.len() == 32,
                    forall|k: int| 0 <= k < i ==> got@[k] == expected@[k],
                decreases 32 - i,
            {
                if got[i] != expected[i] {
                    assert(got@[i as int] != expected@[i as int]);
                    assert(got@ != expected@);
                    return false;
                }
                i = i + 1;
            }
            assert(got@ =~= expected@);
            true
        },
    }
}

/// Accepts a handshake frame when no key is configured, or when it carries the
/// tag that the key gives its nonce; fails with an authentication error
/// otherwise.
pub fn verify_hmac(psk: Option<&[u8]>, frame: &HelloFrame) -> (r: Result<(), BtProxyError>)
    ensures
        r is Ok <==> match psk {
            None => true,
            Some(k) => frame@.hmac == Some(expected_mac(k@, frame.nonce)),
        },
        r matches Err(e) ==> e is Auth,
{
    if let Some(key) = psk {
        let expected = compute_hmac(key, frame.nonce);
        if !mac_matches(&expected, frame) {
            return Err(BtProxyError::Auth("invalid hmac".to_string()));
        }
    }
    Ok(())
}

} // verus!
