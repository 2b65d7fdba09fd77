//! Variable-length integers as QUIC writes them (RFC 9000, Section 16).
//!
//! The two top bits of the first byte give the size of the encoding, the other bits the value in
//! network byte order. Reading and writing is done by the `octets` crate; this module says what
//! those calls do and what follows from it.

use vstd::prelude::*;

verus! {

/// The largest value that a variable-length integer can carry.
pub const MAX_VARINT: u64 = 4_611_686_018_427_387_903;

/// How many bytes the shortest encoding of `v` takes.
pub open spec fn size_of(v: nat) -> nat {
    if v <= 63 {
        1
    } else if v <= 16383 {
        2
    } else if v <= 1_073_741_823 {
        4
    } else {
        8
    }
}

/// How many bytes an encoding takes that starts with the byte `first`.
pub open spec fn parse_size(first: u8) -> nat {
    if first < 64 {
        1
    } else if first < 128 {
        2
    } else if first < 192 {
        4
    } else {
        8
    }
}

/// The number of values that an encoding of `size` bytes can hold.
pub open spec fn limit(size: nat) -> nat {
    if size <= 1 {
        64
    } else if size == 2 {
        16384
    } else if size == 4 {
        1_073_741_824
    } else {
        4_611_686_018_427_387_904
    }
}

/// The number in the two top bits of an encoding of `size` bytes.
pub open spec fn tag(size: nat) -> nat {
    if size <= 1 {
        0
    } else if size == 2 {
        1
    } else if size == 4 {
        2
    } else {
        3
    }
}

/// The number that bytes in network byte order stand for.
pub open spec fn be_value(bytes: Seq<u8>) -> nat
    decreases bytes.len(),
{
    if bytes.len() == 0 {
        0
    } else {
        be_value(bytes.drop_last()) * 256 + bytes.last() as nat
    }
}

/// The last `size` bytes of `v` in network byte order.
pub open spec fn be_bytes(v: nat, size: nat) -> Seq<u8>
    decreases size,
{
    if size == 0 {
        Seq::empty()
    } else {
        be_bytes(v / 256, (size - 1) as nat).push((v % 256) as u8)
    }
}

/// The shortest encoding of `v`.
pub open spec fn encode(v: nat) -> Seq<u8> {
    let size = size_of(v);
    be_bytes(tag(size) * limit(size) + v, size)
}

/// The value of the encoding at the start of `bytes` and the number of bytes it takes, or `None`
/// where `bytes` ends before the encoding does.
pub open spec fn decode(bytes: Seq<u8>) -> Option<(nat, nat)> {
    if bytes.len() == 0 || bytes.len() < parse_size(bytes[0]) {
        None
    } else {
        let size = parse_size(bytes[0]);
        Some((be_value(bytes.take(size as int)) % limit(size), size))
    }
}

/// `octets::varint_len`: the size of the shortest encoding of `v`. It panics on a value that no
/// encoding can hold.
pub assume_specification[ octets::varint_len ](v: u64) -> (len: usize)
    requires
        v <= MAX_VARINT,
    ensures
        len == size_of(v as nat),
;

/// `octets::varint_parse_len`: the size of an encoding, from its first byte.
pub assume_specification[ octets::varint_parse_len ](first: u8) -> (len: usize)
    ensures
        len == parse_size(first),
;

/// `octets::Octets::get_varint` at the start of `buf`: the value read and the offset after it, or
/// `None` where the crate reports that the buffer is too short.
#[verifier::external_body]
pub(crate) fn get_varint(buf: &[u8]) -> (r: Option<(u64, usize)>)
    ensures
        r is Some <==> decode(buf@) is Some,
        r matches Some((v, off)) ==> decode(buf@) == Some((v as nat, off as nat)),
{
    let mut o = octets::Octets::with_slice(buf);
    match o.get_varint() {
        Ok(v) => Some((v, o.off())),
        Err(_) => None,
    }
}

/// `octets::OctetsMut::put_varint` at the offset `off` of `buf`: the shortest encoding of `v` takes
/// the place of the bytes there and the offset after it is returned. Where it does not fit, the
/// buffer stays as it was and the crate's error comes out as `None`.
#[verifier::external_body]
pub(crate) fn put_varint(buf: &mut [u8], off: usize, v: u64) -> (r: Option<usize>)
    requires
        v <= MAX_VARINT,
    ensures
        off + size_of(v as nat) <= old(buf)@.len() ==> {
            &&& r == Some((off + size_of(v as nat)) as usize)
            &&& final(buf)@ == old(buf)@.take(off as int) + encode(v as nat)
                + old(buf)@.skip(off + size_of(v as nat))
        },
        off + size_of(v as nat) > old(buf)@.len() ==> r is None && final(buf)@ == old(buf)@,
{
    let mut o = octets::OctetsMut::with_slice(buf);
    o.skip(off).ok()?;
    o.put_varint(v).ok()?;
    Some(o.off())
}

/// `octets::OctetsMut::put_bytes` at the offset `off` of `buf`: `bytes` takes the place of the bytes
/// there and the offset after it is returned. Where it does not fit, the buffer stays as it was and
/// the crate's error comes out as `None`.
#[verifier::external_body]
pub(crate) fn put_bytes(buf: &mut [u8], off: usize, bytes: &[u8]) -> (r: Option<usize>)
    ensures
        off + bytes@.len() <= old(buf)@.len() ==> {
            &&& r == Some((off + bytes@.len()) as usize)
            &&& final(buf)@ == old(buf)@.take(off as int) + bytes@ + old(buf)@.skip(
                off + bytes@.len(),
            )
        },
        off + bytes@.len() > old(buf)@.len() ==> r is None && final(buf)@ == old(buf)@,
{
    let mut o = octets::OctetsMut::with_slice(buf);
    o.skip(off).ok()?;
    o.put_bytes(bytes).ok()?;
    Some(o.off())
}

/// The number of values that `size` bytes can hold.
spec fn byte_range(size: nat) -> nat
    decreases size,
{
    if size == 0 {
        1
    } else {
        byte_range((size - 1) as nat) * 256
    }
}

proof fn lemma_byte_range()
    ensures
        byte_range(0) == 1,
        byte_range(1) == 0x100,
        byte_range(3) == 0x100_0000,
        byte_range(7) == 0x100_0000_0000_0000,
        byte_range(2) == 0x1_0000,
        byte_range(4) == 0x1_0000_0000,
        byte_range(8) == 0x1_0000_0000_0000_0000,
{
    reveal_with_fuel(byte_range, 9);
}

proof fn lemma_be_roundtrip(v: nat, size: nat)
    requires
        v < byte_range(size),
    ensures
        be_bytes(v, size).len() == size,
        be_value(be_bytes(v, size)) == v,
    decreases size,
{
    if size > 0 {
        lemma_be_roundtrip(v / 256, (size - 1) as nat);
        assert(be_bytes(v, size).drop_last() =~= be_bytes(v / 256, (size - 1) as nat));
    }
}

proof fn lemma_be_first(v: nat, size: nat)
    requires
        size > 0,
        v < byte_range(size),
    ensures
        be_bytes(v, size).len() == size,
        be_bytes(v, size)[0] == v / byte_range((size - 1) as nat),
    decreases size,
{
    if size > 1 {
        let low = byte_range((size - 2) as nat);
        lemma_be_first(v / 256, (size - 1) as nat);
        assert(low > 0) by { lemma_byte_range_positive((size - 2) as nat) };
        vstd::arithmetic::div_mod::lemma_div_denominator(v as int, 256, low as int);
        assert(byte_range((size - 1) as nat) == low * 256);
        assert(256 * low == low * 256) by (nonlinear_arith);
        assert(be_bytes(v, size)[0] == be_bytes(v / 256, (size - 1) as nat)[0]);
    } else {
        lemma_byte_range();
        assert(byte_range((size - 1) as nat) == 1);
        assert(v / 1 == v);
        assert(be_bytes(v / 256, 0) =~= Seq::<u8>::empty());
        assert(be_bytes(v, 1) =~= Seq::<u8>::empty().push((v % 256) as u8));
    }
}

proof fn lemma_byte_range_positive(size: nat)
    ensures
        byte_range(size) > 0,
    decreases size,
{
    if size > 0 {
        lemma_byte_range_positive((size - 1) as nat);
    }
}

/// An encoding has the size that `size_of` gives, and its first byte announces it.
pub proof fn lemma_encode_size(v: nat)
    requires
        v <= MAX_VARINT,
    ensures
        encode(v).len() == size_of(v),
        parse_size(encode(v)[0]) == size_of(v),
{
    let size = size_of(v);
    let tagged = tag(size) * limit(size) + v;
    lemma_byte_range();
    lemma_be_first(tagged, size);
    let first = tagged / byte_range((size - 1) as nat);
    if size == 1 {
        assert(first == tagged / 1);
    } else if size == 2 {
        assert(first == tagged / 0x100);
    } else if size == 4 {
        assert(first == tagged / 0x100_0000);
    } else {
        assert(first == tagged / 0x100_0000_0000_0000);
    }
}

/// Reading gives back what was written, whatever follows it.
pub proof fn law_roundtrip(v: nat, rest: Seq<u8>)
    requires
        v <= MAX_VARINT,
    ensures
        decode(encode(v) + rest) == Some((v, size_of(v))),
{
    let size = size_of(v);
    let tagged = tag(size) * limit(size) + v;
    let bytes = encode(v) + rest;
    lemma_encode_size(v);
    lemma_byte_range();
    lemma_be_roundtrip(tagged, size);
    assert(bytes.take(size as int) =~= encode(v));
}

/// A value that was read fits into a variable-length integer again.
pub proof fn law_decode_bound(bytes: Seq<u8>)
    ensures
        decode(bytes) matches Some((v, size)) ==> v <= MAX_VARINT && 1 <= size <= 8
            && size <= bytes.len(),
{
}

/// Whether an integer can be read, and which, is settled by the bytes of its encoding: bytes
/// behind it change nothing.
pub proof fn law_prefix(bytes: Seq<u8>, rest: Seq<u8>)
    requires
        decode(bytes) is Some,
    ensures
        decode(bytes + rest) == decode(bytes),
{
    let size = parse_size(bytes[0]);
    assert((bytes + rest).take(size as int) =~= bytes.take(size as int));
}

/// A value below 64 is one byte, that value.
pub proof fn law_small_values(v: nat, rest: Seq<u8>)
    requires
        v < 64,
    ensures
        encode(v) == seq![v as u8],
        decode(seq![v as u8] + rest) == Some((v, 1nat)),
{
    law_roundtrip(v, rest);
    reveal_with_fuel(be_bytes, 2);
    assert(encode(v) =~= seq![v as u8]);
}

} // verus!
