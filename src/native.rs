//! Integers read from and written to bytes in native byte order: that of
//! the target the library is built for, as the kernel's structures use it.
use vstd::prelude::*;

verus! {

/// The `u16` that two bytes in native byte order stand for.
pub uninterp spec fn ne_u16(b: Seq<u8>) -> u16;

/// The `u32` that four bytes in native byte order stand for.
pub uninterp spec fn ne_u32(b: Seq<u8>) -> u32;

/// The `u64` that eight bytes in native byte order stand for.
pub uninterp spec fn ne_u64(b: Seq<u8>) -> u64;

/// Relies on `u16::from_ne_bytes`: reads the two bytes at `at`.
#[verifier::external_body]
pub(crate) fn read_u16(b: &[u8], at: usize) -> (r: u16)
    requires
        at + 2 <= b@.len(),
    ensures
        r == ne_u16(b@.subrange(at as int, at + 2)),
{
    u16::from_ne_bytes([b[at], b[at + 1]])
}

/// Relies on `u32::from_ne_bytes`: reads the four bytes at `at`.
#[verifier::external_body]
pub(crate) fn read_u32(b: &[u8], at: usize) -> (r: u32)
    requires
        at + 4 <= b@.len(),
    ensures
        r == ne_u32(b@.subrange(at as int, at + 4)),
{
    u32::from_ne_bytes([b[at], b[at + 1], b[at + 2], b[at + 3]])
}

/// Relies on `u64::from_ne_bytes`: reads the eight bytes at `at`.
#[verifier::external_body]
pub(crate) fn read_u64(b: &[u8], at: usize) -> (r: u64)
    requires
        at + 8 <= b@.len(),
    ensures
        r == ne_u64(b@.subrange(at as int, at + 8)),
{
    u64::from_ne_bytes(
        [b[at], b[at + 1], b[at + 2], b[at + 3], b[at + 4], b[at + 5], b[at + 6], b[at + 7]],
    )
}

/// Relies on `u32::to_ne_bytes`: the four bytes that `u32::from_ne_bytes`
/// reads back as `x`.
#[verifier::external_body]
pub(crate) fn write_u32(out: &mut Vec<u8>, x: u32)
    ensures
        final(out)@.len() == old(out)@.len() + 4,
        final(out)@.subrange(0, old(out)@.len() as int) == old(out)@,
        ne_u32(final(out)@.subrange(old(out)@.len() as int, (old(out)@.len() + 4) as int)) == x,
{
    out.extend_from_slice(&x.to_ne_bytes())
}

/// Relies on `u64::to_ne_bytes`: the eight bytes that `u64::from_ne_bytes`
/// reads back as `x`.
#[verifier::external_body]
pub(crate) fn write_u64(out: &mut Vec<u8>, x: u64)
    ensures
        final(out)@.len() == old(out)@.len() + 8,
        final(out)@.subrange(0, old(out)@.len() as int) == old(out)@,
        ne_u64(final(out)@.subrange(old(out)@.len() as int, (old(out)@.len() + 8) as int)) == x,
{
    out.extend_from_slice(&x.to_ne_bytes())
}

} // verus!
