//! The framing of the messages between the browser and the host: a
//! four-byte little-endian length, then that many bytes of JSON.

use crate::envelope::{push_u32, read_u32, u32_at, u32_le};
use crate::text::{decimal, from_chars, push_bytes, push_chars, push_decimal, to_chars};
use vstd::prelude::*;

verus! {

/// Longest message the host reads: 10 MiB. A longer one is taken for
/// malformed input.
pub const MAX_MESSAGE_LEN: usize = 10 * 1024 * 1024;

/// The text that reports a length beyond the limit.
pub open spec fn too_large_text(len: nat) -> Seq<char> {
    "Message too large: "@ + decimal(len) + " bytes"@
}

/// The length that a prefix announces, if it is within the limit.
pub open spec fn announced_length(prefix: Seq<u8>) -> Result<usize, Seq<char>> {
    let len = u32_at(prefix, 0);
    if len > MAX_MESSAGE_LEN {
        Err(too_large_text(len as nat))
    } else {
        Ok(len as usize)
    }
}

/// Reads the length of the message that follows from its prefix.
pub fn message_length(prefix: &[u8; 4]) -> (result: Result<usize, String>)
    ensures
        match result {
            Ok(n) => announced_length(prefix@) == Ok::<usize, Seq<char>>(n),
            Err(e) => announced_length(prefix@) == Err::<usize, Seq<char>>(e@),
        },
{
    let len = read_u32(prefix.as_slice(), 0);
    if len as usize > MAX_MESSAGE_LEN {
        let mut chars = to_chars("Message too large: ");
        push_decimal(&mut chars, len as u64);
        let tail = to_chars(" bytes");
        push_chars(&mut chars, tail.as_slice());
        return Err(from_chars(chars.as_slice()));
    }
    Ok(len as usize)
}

/// The bytes that carry the message `body`: its length in four bytes,
/// then the body.
pub open spec fn framed(body: Seq<u8>) -> Seq<u8>
    recommends
        body.len() <= u32::MAX,
{
    u32_le(body.len() as u32) + body
}

/// Frames one message. `None` for a body whose length does not fit the
/// four-byte prefix.
pub fn frame_message(body: &[u8]) -> (out: Option<Vec<u8>>)
    ensures
        body@.len() <= u32::MAX ==> out.is_some() && out.unwrap()@ == framed(body@),
        body@.len() > u32::MAX ==> out.is_none(),
{
    if body.len() > u32::MAX as usize {
        return None;
    }
    let mut out: Vec<u8> = Vec::new();
    push_u32(&mut out, body.len() as u32);
    push_bytes(&mut out, body);
    assert(out@ =~= framed(body@));
    Some(out)
}

/// A framed message announces the length of its body, and that length is
/// accepted where the body is within the limit.
pub proof fn lemma_framed_length(body: Seq<u8>)
    requires
        body.len() <= MAX_MESSAGE_LEN,
    ensures
        announced_length(framed(body).take(4)) == Ok::<usize, Seq<char>>(body.len() as usize),
        framed(body).skip(4) == body,
{
    crate::envelope::lemma_u32_round_trip(body.len() as u32);
    assert(framed(body).take(4) =~= u32_le(body.len() as u32));
    assert(framed(body).skip(4) =~= body);
}

} // verus!
