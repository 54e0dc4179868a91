//! Big-endian byte encodings of the fixed-width integers that appear in the
//! canonical transaction encoding.

use vstd::prelude::*;

verus! {

/// The 8 bytes of a `u64` in big-endian order.
pub open spec fn spec_u64_to_be_bytes(x: u64) -> Seq<u8> {
    seq![
        ((x >> 56) & 0xff) as u8,
        ((x >> 48) & 0xff) as u8,
        ((x >> 40) & 0xff) as u8,
        ((x >> 32) & 0xff) as u8,
        ((x >> 24) & 0xff) as u8,
        ((x >> 16) & 0xff) as u8,
        ((x >> 8) & 0xff) as u8,
        (x & 0xff) as u8,
    ]
}

/// The 4 bytes of a `u32` in big-endian order.
pub open spec fn spec_u32_to_be_bytes(x: u32) -> Seq<u8> {
    seq![
        ((x >> 24) & 0xff) as u8,
        ((x >> 16) & 0xff) as u8,
        ((x >> 8) & 0xff) as u8,
        (x & 0xff) as u8,
    ]
}

/// Append the big-endian encoding of `x` to `out`.
pub fn push_u64_be(out: &mut Vec<u8>, x: u64)
    ensures
        final(out)@ == old(out)@ + spec_u64_to_be_bytes(x),
{
    out.push(((x >> 56) & 0xff) as u8);
    out.push(((x >> 48) & 0xff) as u8);
    out.push(((x >> 40) & 0xff) as u8);
    out.push(((x >> 32) & 0xff) as u8);
    out.push(((x >> 24) & 0xff) as u8);
    out.push(((x >> 16) & 0xff) as u8);
    out.push(((x >> 8) & 0xff) as u8);
    out.push((x & 0xff) as u8);
    proof {
        assert(out@ =~= old(out)@ + spec_u64_to_be_bytes(x));
    }
}

/// Append the big-endian encoding of `x` to `out`.
pub fn push_u32_be(out: &mut Vec<u8>, x: u32)
    ensures
        final(out)@ == old(out)@ + spec_u32_to_be_bytes(x),
{
    out.push(((x >> 24) & 0xff) as u8);
    out.push(((x >> 16) & 0xff) as u8);
    out.push(((x >> 8) & 0xff) as u8);
    out.push((x & 0xff) as u8);
    proof {
        assert(out@ =~= old(out)@ + spec_u32_to_be_bytes(x));
    }
}

/// The big-endian encoding is injective: two numbers with the same 8 bytes
/// are the same number.
pub proof fn lemma_u64_be_bytes_injective(x: u64, y: u64)
    requires
        spec_u64_to_be_bytes(x) == spec_u64_to_be_bytes(y),
    ensures
        x == y,
{
    let bx = spec_u64_to_be_bytes(x);
    let by_ = spec_u64_to_be_bytes(y);
    assert(bx[0] == by_[0] && bx[1] == by_[1] && bx[2] == by_[2] && bx[3] == by_[3]
        && bx[4] == by_[4] && bx[5] == by_[5] && bx[6] == by_[6] && bx[7] == by_[7]);
    assert(((((x >> 56) & 0xff) as u8 == ((y >> 56) & 0xff) as u8)
        && (((x >> 48) & 0xff) as u8 == ((y >> 48) & 0xff) as u8)
        && (((x >> 40) & 0xff) as u8 == ((y >> 40) & 0xff) as u8)
        && (((x >> 32) & 0xff) as u8 == ((y >> 32) & 0xff) as u8)
        && (((x >> 24) & 0xff) as u8 == ((y >> 24) & 0xff) as u8)
        && (((x >> 16) & 0xff) as u8 == ((y >> 16) & 0xff) as u8)
        && (((x >> 8) & 0xff) as u8 == ((y >> 8) & 0xff) as u8)
        && ((x & 0xff) as u8 == (y & 0xff) as u8)) ==> x == y) by (bit_vector);
}

} // verus!
