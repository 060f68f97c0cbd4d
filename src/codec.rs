//! Cutting frames out of a growing receive buffer.
use crate::error::BtProxyError;
use crate::frame::{decode_payload, lemma_decode_payload_encoding, lemma_payload_len, Frame, FrameV};
use crate::wire::{be32, copy_range, get_u32, lemma_read_be32_at, read_be32};
use vstd::prelude::*;

verus! {

/// What the front of a receive buffer holds.
pub enum DecodeStep {
    /// Not a whole frame yet.
    NeedMore,
    /// A frame, and how many bytes it takes up.
    Frame(FrameV, nat),
    /// A length prefix beyond the bound.
    TooLarge,
    /// A whole frame whose type or payload cannot be parsed.
    Malformed,
}

/// The outcome of decoding the front of `buf` under the bound `max_frame` on
/// the announced length.
pub open spec fn decode_step(buf: Seq<u8>, max_frame: nat) -> DecodeStep {
    if buf.len() < 4 {
        DecodeStep::NeedMore
    } else {
        let len = read_be32(buf, 0) as nat;
        if len > max_frame {
            DecodeStep::TooLarge
        } else if buf.len() < 4 + len {
            DecodeStep::NeedMore
        } else if len == 0 {
            DecodeStep::Malformed
        } else {
            match decode_payload(buf[4], buf.subrange(5, 4 + len as int)) {
                Some(f) => DecodeStep::Frame(f, 4 + len),
                None => DecodeStep::Malformed,
            }
        }
    }
}

/// Takes one frame off the front of `buffer`. `Ok(None)` asks for more
/// bytes. On an error the buffer is left as it was.
pub fn try_decode(buffer: &mut Vec<u8>, max_frame: usize) -> (r: Result<Option<Frame>, BtProxyError>)
    ensures
        match decode_step(old(buffer)@, max_frame as nat) {
            DecodeStep::NeedMore => r matches Ok(None) && final(buffer)@ == old(buffer)@,
            DecodeStep::Frame(f, n) => r matches Ok(Some(g)) && g@ == f && final(buffer)@
                == old(buffer)@.subrange(n as int, old(buffer)@.len() as int),
            DecodeStep::TooLarge => r matches Err(BtProxyError::Protocol(m)) && m@
                == "frame too large"@ && final(buffer)@ == old(buffer)@,
            DecodeStep::Malformed => r matches Err(BtProxyError::Protocol(_)) && final(buffer)@
                == old(buffer)@,
        },
{
    let n = buffer.len();
    if n < 4 {
        return Ok(None);
    }
    let len = get_u32(buffer.as_slice(), 0) as usize;
    if len > max_frame {
        return Err(BtProxyError::Protocol("frame too large".to_string()));
    }
    if n - 4 < len {
        return Ok(None);
    }
    if len == 0 {
        return Err(BtProxyError::Protocol("empty frame".to_string()));
    }
    let frame_type = buffer[4];
    let payload = copy_range(buffer.as_slice(), 5, 4 + len);
    match Frame::decode(frame_type, payload.as_slice()) {
        Ok(f) => {
            let rest = buffer.split_off(4 + len);
            *buffer = rest;
            Ok(Some(f))
        },
        Err(e) => Err(e),
    }
}

/// Decoding the encoding of a well-formed frame within the bound, followed by
/// any bytes, gives the frame back and takes up exactly its bytes.
pub proof fn lemma_round_trip(f: FrameV, rest: Seq<u8>, max_frame: nat)
    requires
        f.well_formed(),
        f.encoding().len() <= max_frame + 4,
    ensures
        decode_step(f.encoding() + rest, max_frame) == DecodeStep::Frame(f, f.encoding().len()),
{
    let p = f.payload_encoding();
    let len = (1 + p.len()) as u32;
    let buf = f.encoding() + rest;
    lemma_payload_len(f);
    assert(buf.subrange(0, 4) =~= be32(len));
    lemma_read_be32_at(buf, 0, len);
    assert(buf[4] == f.type_code());
    assert(buf.subrange(5, 4 + len as int) =~= p);
    lemma_decode_payload_encoding(f);
}

/// A decoded frame never takes up more than the bound plus the length prefix,
/// nor more than the buffer holds, and a decoded data payload never exceeds
/// the bound.
pub proof fn lemma_bounded_decode(buf: Seq<u8>, max_frame: nat)
    ensures
        decode_step(buf, max_frame) matches DecodeStep::Frame(f, n) ==> {
            &&& 5 <= n <= max_frame + 4
            &&& n <= buf.len()
            &&& (f matches FrameV::Data { payload, .. } ==> payload.len() <= max_frame)
        },
{
}

} // verus!
