//! The fixed-width building blocks of the wire format: big-endian integers,
//! single bytes, and the cursor arithmetic that the decoders share.

use vstd::prelude::*;

use crate::packet::Error;

verus! {

/// The four bytes of `value`, most significant first.
#[verifier::opaque]
pub open spec fn u32_be(value: u32) -> Seq<u8> {
    seq![
        (value / 0x100_0000) as u8,
        (value / 0x1_0000 % 0x100) as u8,
        (value / 0x100 % 0x100) as u8,
        (value % 0x100) as u8,
    ]
}

/// The number that four big-endian bytes stand for.
#[verifier::opaque]
pub open spec fn u32_from_be(b0: u8, b1: u8, b2: u8, b3: u8) -> u32 {
    (b0 * 0x100_0000 + b1 * 0x1_0000 + b2 * 0x100 + b3) as u32
}

/// The byte that stands for a flag on the wire.
pub open spec fn bool_byte(flag: bool) -> u8 {
    if flag {
        1
    } else {
        0
    }
}

/// The parts laid end to end.
pub open spec fn concat(parts: Seq<Seq<u8>>) -> Seq<u8>
    decreases parts.len(),
{
    if parts.len() == 0 {
        Seq::empty()
    } else {
        parts[0] + concat(parts.drop_first())
    }
}

/// Reading big-endian undoes writing big-endian.
pub proof fn lemma_u32_be(value: u32)
    ensures
        u32_be(value).len() == 4,
        u32_from_be(u32_be(value)[0], u32_be(value)[1], u32_be(value)[2], u32_be(value)[3])
            == value,
{
    reveal(u32_be);
    reveal(u32_from_be);
}

/// Laying out one more part appends it.
pub proof fn lemma_concat_push(parts: Seq<Seq<u8>>, last: Seq<u8>)
    ensures
        concat(parts.push(last)) == concat(parts) + last,
    decreases parts.len(),
{
    if parts.len() == 0 {
        assert(parts.push(last).drop_first() =~= Seq::<Seq<u8>>::empty());
        assert(concat(parts.push(last)) =~= last + concat(Seq::<Seq<u8>>::empty()));
        assert(concat(parts.push(last)) =~= concat(parts) + last);
    } else {
        assert(parts.push(last).drop_first() =~= parts.drop_first().push(last));
        lemma_concat_push(parts.drop_first(), last);
        assert(concat(parts.push(last)) =~= concat(parts) + last);
    }
}

/// Appends one byte.
pub fn put_u8(out: &mut Vec<u8>, value: u8)
    ensures
        final(out)@ == old(out)@ + seq![value],
{
    out.push(value);
    assert(out@ =~= old(out)@ + seq![value]);
}

/// Appends `value` as four big-endian bytes.
pub fn put_u32(out: &mut Vec<u8>, value: u32)
    ensures
        final(out)@ == old(out)@ + u32_be(value),
{
    out.push((value / 0x100_0000) as u8);
    out.push((value / 0x1_0000 % 0x100) as u8);
    out.push((value / 0x100 % 0x100) as u8);
    out.push((value % 0x100) as u8);
    reveal(u32_be);
    assert(out@ =~= old(out)@ + u32_be(value));
}

/// Appends a run of bytes as it is.
pub fn put_bytes(out: &mut Vec<u8>, bytes: &[u8])
    ensures
        final(out)@ == old(out)@ + bytes@,
{
    let mut i: usize = 0;
    while i < bytes.len()
        invariant
            i <= bytes.len(),
            out@ == old(out)@ + bytes@.take(i as int),
        decreases bytes.len() - i,
    {
        out.push(bytes[i]);
        assert(out@ =~= old(out)@ + bytes@.take(i + 1));
        i += 1;
    }
    assert(bytes@.take(i as int) =~= bytes@);
}

/// What reading one byte from the front of `input` gives: the byte and the
/// input that is left.
pub open spec fn parse_u8(input: Seq<u8>) -> Result<(u8, Seq<u8>), Error> {
    if input.len() < 1 {
        Err(Error::Truncated)
    } else {
        Ok((input[0], input.skip(1)))
    }
}

/// What reading a big-endian `u32` from the front of `input` gives.
pub open spec fn parse_u32(input: Seq<u8>) -> Result<(u32, Seq<u8>), Error> {
    if input.len() < 4 {
        Err(Error::Truncated)
    } else {
        Ok((u32_from_be(input[0], input[1], input[2], input[3]), input.skip(4)))
    }
}

/// What reading `count` raw bytes from the front of `input` gives.
pub open spec fn parse_bytes(input: Seq<u8>, count: nat) -> Result<(Seq<u8>, Seq<u8>), Error> {
    if input.len() < count {
        Err(Error::Truncated)
    } else {
        Ok((input.take(count as int), input.skip(count as int)))
    }
}

/// Reads one byte at `pos`.
pub fn get_u8(bytes: &[u8], pos: usize) -> (read: Result<(u8, usize), Error>)
    requires
        pos <= bytes.len(),
    ensures
        match parse_u8(bytes@.skip(pos as int)) {
            Ok((value, rest)) => read is Ok && read.unwrap().0 == value && read.unwrap().1
                <= bytes.len() && bytes@.skip(read.unwrap().1 as int) == rest,
            Err(error) => read == Err::<(u8, usize), Error>(error),
        },
{
    if bytes.len() - pos < 1 {
        return Err(Error::Truncated);
    }
    assert(bytes@.skip(pos as int).skip(1) =~= bytes@.skip(pos + 1));
    Ok((bytes[pos], pos + 1))
}

/// Reads a big-endian `u32` at `pos`.
pub fn get_u32(bytes: &[u8], pos: usize) -> (read: Result<(u32, usize), Error>)
    requires
        pos <= bytes.len(),
    ensures
        match parse_u32(bytes@.skip(pos as int)) {
            Ok((value, rest)) => read is Ok && read.unwrap().0 == value && read.unwrap().1
                <= bytes.len() && bytes@.skip(read.unwrap().1 as int) == rest,
            Err(error) => read == Err::<(u32, usize), Error>(error),
        },
{
    if bytes.len() - pos < 4 {
        return Err(Error::Truncated);
    }
    assert(bytes@.skip(pos as int).skip(4) =~= bytes@.skip(pos + 4));
    let b0: u32 = bytes[pos] as u32;
    let b1: u32 = bytes[pos + 1] as u32;
    let b2: u32 = bytes[pos + 2] as u32;
    let b3: u32 = bytes[pos + 3] as u32;
    reveal(u32_from_be);
    Ok((b0 * 0x100_0000 + b1 * 0x1_0000 + b2 * 0x100 + b3, pos + 4))
}

} // verus!
