use vstd::bytes::{
    spec_u128_from_le_bytes, spec_u128_to_le_bytes, spec_u64_from_le_bytes, spec_u64_to_le_bytes,
    u128_from_le_bytes, u128_to_le_bytes, u64_from_le_bytes, u64_to_le_bytes,
};
use vstd::prelude::*;
use vstd::slice::slice_subrange;

verus! {

/// The eight bytes of `x`, least significant first.
pub open spec fn le64(x: u64) -> Seq<u8> {
    spec_u64_to_le_bytes(x)
}

/// The number that eight bytes stand for, least significant first.
pub open spec fn from_le64(bytes: Seq<u8>) -> u64 {
    spec_u64_from_le_bytes(bytes)
}

/// The sixteen bytes of `x`, least significant first.
pub open spec fn le128(x: u128) -> Seq<u8> {
    spec_u128_to_le_bytes(x)
}

/// The number that sixteen bytes stand for, least significant first.
pub open spec fn from_le128(bytes: Seq<u8>) -> u128 {
    spec_u128_from_le_bytes(bytes)
}

/// The two's complement bit pattern of a signed number.
pub open spec fn signed_bits(x: i64) -> u64 {
    if x >= 0 {
        x as u64
    } else {
        (x + 0x1_0000_0000_0000_0000) as u64
    }
}

/// The signed number that a two's complement bit pattern stands for.
pub open spec fn from_signed_bits(bits: u64) -> i64 {
    if bits <= 0x7fff_ffff_ffff_ffff {
        bits as i64
    } else {
        (bits - 0x1_0000_0000_0000_0000) as i64
    }
}

/// The byte that stands for a truth value.
pub open spec fn bool_byte(b: bool) -> u8 {
    if b {
        1
    } else {
        0
    }
}

/// The 32-byte array whose bytes are `bytes`.
pub open spec fn array32(bytes: Seq<u8>) -> [u8; 32] {
    choose|a: [u8; 32]| a@ == bytes
}

/// An array is found again from its bytes.
pub proof fn lemma_array32_of_view(a: [u8; 32])
    ensures
        array32(a@) == a,
{
    let b = array32(a@);
    assert(b@ == a@);
    assert(b =~= a);
}

/// A signed number is found again from its bit pattern.
pub proof fn lemma_signed_bits_read_back(x: i64)
    ensures
        from_signed_bits(signed_bits(x)) == x,
{
}

/// The two's complement bit pattern of `x`.
pub fn to_signed_bits(x: i64) -> (bits: u64)
    ensures
        bits == signed_bits(x),
{
    if x >= 0 {
        x as u64
    } else {
        let below: u64 = (-(x + 1)) as u64;
        u64::MAX - below
    }
}

/// The signed number that the bit pattern `bits` stands for.
pub fn of_signed_bits(bits: u64) -> (x: i64)
    ensures
        x == from_signed_bits(bits),
{
    if bits <= 0x7fff_ffff_ffff_ffff {
        bits as i64
    } else {
        let below: u64 = u64::MAX - bits;
        -(below as i64) - 1
    }
}

/// Reads the number that the eight bytes at `at` stand for.
pub fn read_u64(data: &[u8], at: usize) -> (x: u64)
    requires
        at + 8 <= data@.len(),
    ensures
        x == from_le64(data@.subrange(at as int, at + 8)),
{
    let len = data.len();
    assert(at + 8 <= len);
    u64_from_le_bytes(slice_subrange(data, at, at + 8))
}

/// Reads the signed number that the eight bytes at `at` stand for.
pub fn read_i64(data: &[u8], at: usize) -> (x: i64)
    requires
        at + 8 <= data@.len(),
    ensures
        x == from_signed_bits(from_le64(data@.subrange(at as int, at + 8))),
{
    of_signed_bits(read_u64(data, at))
}

/// Reads the number that the sixteen bytes at `at` stand for.
pub fn read_u128(data: &[u8], at: usize) -> (x: u128)
    requires
        at + 16 <= data@.len(),
    ensures
        x == from_le128(data@.subrange(at as int, at + 16)),
{
    let len = data.len();
    assert(at + 16 <= len);
    u128_from_le_bytes(slice_subrange(data, at, at + 16))
}

/// Reads the 32 bytes at `at`.
pub fn read_array32(data: &[u8], at: usize) -> (a: [u8; 32])
    requires
        at + 32 <= data@.len(),
    ensures
        a@ == data@.subrange(at as int, at + 32),
        a == array32(data@.subrange(at as int, at + 32)),
{
    let len = data.len();
    let mut a: [u8; 32] = [0u8; 32];
    let mut i: usize = 0;
    while i < 32
        invariant
            i <= 32,
            at + 32 <= len,
            len == data@.len(),
            forall|j: int| 0 <= j < i ==> a@[j] == data@[at + j],
        decreases 32 - i,
    {
        a[i] = data[at + i];
        i += 1;
    }
    proof {
        assert(a@ =~= data@.subrange(at as int, at + 32));
        lemma_array32_of_view(a);
    }
    a
}

/// Appends `bytes` to `out`.
pub fn write_bytes(out: &mut Vec<u8>, bytes: &[u8])
    ensures
        final(out)@ == old(out)@ + bytes@,
{
    let mut i: usize = 0;
    while i < bytes.len()
        invariant
            i <= bytes@.len(),
            out@ == old(out)@ + bytes@.take(i as int),
        decreases bytes@.len() - i,
    {
        out.push(bytes[i]);
        proof {
            assert(bytes@.take(i + 1) =~= bytes@.take(i as int).push(bytes@[i as int]));
        }
        i += 1;
    }
    proof {
        assert(bytes@.take(bytes@.len() as int) =~= bytes@);
    }
}

/// Appends the eight bytes of `x`.
pub fn write_u64(out: &mut Vec<u8>, x: u64)
    ensures
        final(out)@ == old(out)@ + le64(x),
{
    let bytes = u64_to_le_bytes(x);
    write_bytes(out, bytes.as_slice());
}

/// Appends the eight bytes of the bit pattern of `x`.
pub fn write_i64(out: &mut Vec<u8>, x: i64)
    ensures
        final(out)@ == old(out)@ + le64(signed_bits(x)),
{
    write_u64(out, to_signed_bits(x));
}

/// Appends the sixteen bytes of `x`.
pub fn write_u128(out: &mut Vec<u8>, x: u128)
    ensures
        final(out)@ == old(out)@ + le128(x),
{
    let bytes = u128_to_le_bytes(x);
    write_bytes(out, bytes.as_slice());
}

/// Appends the byte of a truth value.
pub fn write_bool(out: &mut Vec<u8>, b: bool)
    ensures
        final(out)@ == old(out)@ + seq![bool_byte(b)],
{
    out.push(if b { 1 } else { 0 });
    proof {
        assert(out@ =~= old(out)@ + seq![bool_byte(b)]);
    }
}

} // verus!
