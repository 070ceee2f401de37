//! Framing of messages on the desktop app's local socket: each message is a
//! four-byte big-endian length followed by that many bytes. Both the app and
//! the command-line client read and write messages this way.
use vstd::prelude::*;
use crate::bytes::{append_bytes, be32, from_be32, lemma_be32_roundtrip, push_be32};
use crate::error::{decimal_digits, push_decimal};

verus! {

/// Longest message either side accepts: 100 MiB.
pub const MAX_MESSAGE_LEN: usize = 104857600;

/// The bytes that carry `payload`.
pub open spec fn framed(payload: Seq<u8>) -> Seq<u8> {
    be32(payload.len() as u32) + payload
}

/// What a reader makes of a length header: the length of the payload that
/// follows, or the message refusing a length of zero or over the limit.
pub open spec fn header_outcome(header: Seq<u8>) -> Result<usize, Seq<char>> {
    let n = from_be32(header);
    if 0 < n && n <= MAX_MESSAGE_LEN {
        Ok(n as usize)
    } else {
        Err("invalid message length: "@ + decimal_digits(n as nat))
    }
}

/// The message carrying `payload`: its length, then its bytes.
pub fn frame_message(payload: &[u8]) -> (out: Vec<u8>)
    requires
        payload@.len() <= u32::MAX,
    ensures
        out@ == framed(payload@),
{
    let mut out: Vec<u8> = Vec::new();
    push_be32(&mut out, payload.len() as u32);
    append_bytes(&mut out, payload);
    out
}

/// Reads a length header: the number of payload bytes to read next, or
/// `invalid message length: N` for a length of zero or over 100 MiB.
pub fn message_length(header: &[u8; 4]) -> (res: Result<usize, String>)
    ensures
        match header_outcome(header@) {
            Ok(n) => res == Ok::<usize, String>(n),
            Err(m) => res matches Err(e) && e@ == m,
        },
{
    let n: u32 = ((header[0] as u32) << 24u32) | ((header[1] as u32) << 16u32) | ((header[2] as u32)
        << 8u32) | (header[3] as u32);
    if 0 < n && n as usize <= MAX_MESSAGE_LEN {
        Ok(n as usize)
    } else {
        let mut m = String::new();
        m.append("invalid message length: ");
        proof {
            reveal_strlit("invalid message length: ");
        }
        push_decimal(&mut m, n);
        Err(m)
    }
}

/// A reader takes back from a framed message the length of the payload it
/// carries, and the payload follows the header, for every payload of 1 byte
/// to 100 MiB.
pub proof fn lemma_frame_roundtrip(payload: Seq<u8>)
    requires
        0 < payload.len() <= MAX_MESSAGE_LEN,
    ensures
        header_outcome(framed(payload).subrange(0, 4)) == Ok::<usize, Seq<char>>(
            payload.len() as usize,
        ),
        framed(payload).subrange(4, framed(payload).len() as int) == payload,
{
    let f = framed(payload);
    assert(f.subrange(0, 4) =~= be32(payload.len() as u32));
    lemma_be32_roundtrip(payload.len() as u32);
    assert(f.subrange(4, f.len() as int) =~= payload);
}

} // verus!
