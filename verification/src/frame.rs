//! Framing: on a stream every message travels behind its length, which
//! takes four bytes, most significant first.

use vstd::prelude::*;
use vstd::slice::slice_subrange;

use crate::wire::{lemma_u32_be, put_bytes, put_u32, u32_be, u32_from_be};

verus! {

/// A payload behind its length.
pub open spec fn framed(payload: Seq<u8>) -> Seq<u8> {
    u32_be(payload.len() as u32) + payload
}

/// The first frame of a stream: its payload and the stream behind it, once
/// all of the frame is there.
pub open spec fn first_frame(stream: Seq<u8>) -> Option<(Seq<u8>, Seq<u8>)> {
    if stream.len() < 4 {
        None
    } else {
        let len = u32_from_be(stream[0], stream[1], stream[2], stream[3]);
        if stream.len() - 4 < len {
            None
        } else {
            Some((stream.subrange(4, 4 + len), stream.skip(4 + len)))
        }
    }
}

/// Puts a payload behind its length. A payload whose length does not fit in
/// four bytes cannot be framed.
pub fn frame(payload: &[u8]) -> (bytes: Option<Vec<u8>>)
    ensures
        bytes is Some <==> payload@.len() <= u32::MAX,
        bytes is Some ==> bytes->Some_0@ == framed(payload@),
{
    if payload.len() > u32::MAX as usize {
        return None;
    }
    let mut bytes: Vec<u8> = Vec::new();
    put_u32(&mut bytes, payload.len() as u32);
    put_bytes(&mut bytes, payload);
    assert(bytes@ =~= framed(payload@));
    Some(bytes)
}

/// Looks for a whole frame at the front of what has arrived so far: gives
/// its payload and the number of bytes that the frame takes, or `None`
/// while bytes are still missing.
pub fn deframe(stream: &[u8]) -> (found: Option<(&[u8], usize)>)
    ensures
        match first_frame(stream@) {
            Some((payload, rest)) => {
                &&& found is Some
                &&& found->Some_0.0@ == payload
                &&& found->Some_0.1 == 4 + payload.len()
                &&& stream@.skip(found->Some_0.1 as int) == rest
            },
            None => found is None,
        },
{
    if stream.len() < 4 {
        return None;
    }
    reveal(u32_from_be);
    let len: u32 = stream[0] as u32 * 0x100_0000 + stream[1] as u32 * 0x1_0000 + stream[2] as u32
        * 0x100 + stream[3] as u32;
    if stream.len() - 4 < len as usize {
        return None;
    }
    let end: usize = 4 + len as usize;
    Some((slice_subrange(stream, 4, end), end))
}

/// A framed payload comes out of the stream as it went in, and leaves what
/// follows it.
pub proof fn lemma_deframe_frame(payload: Seq<u8>, rest: Seq<u8>)
    requires
        payload.len() <= u32::MAX,
    ensures
        first_frame(framed(payload) + rest) == Some((payload, rest)),
{
    let stream = framed(payload) + rest;
    let len = payload.len() as u32;
    lemma_u32_be(len);
    assert(stream[0] == u32_be(len)[0]);
    assert(stream[1] == u32_be(len)[1]);
    assert(stream[2] == u32_be(len)[2]);
    assert(stream[3] == u32_be(len)[3]);
    assert(stream.subrange(4, 4 + len) =~= payload);
    assert(stream.skip(4 + len) =~= rest);
}

/// A stream that holds only the beginning of a frame holds no frame yet.
pub proof fn lemma_deframe_partial(payload: Seq<u8>, cut: int)
    requires
        payload.len() <= u32::MAX,
        0 <= cut < 4 + payload.len(),
    ensures
        first_frame(framed(payload).take(cut)) is None,
{
    let stream = framed(payload).take(cut);
    let len = payload.len() as u32;
    lemma_u32_be(len);
    if cut >= 4 {
        assert(stream[0] == u32_be(len)[0]);
        assert(stream[1] == u32_be(len)[1]);
        assert(stream[2] == u32_be(len)[2]);
        assert(stream[3] == u32_be(len)[3]);
    }
}

} // verus!
