//! Little-endian byte-level primitives.
//!
//! Every structured type of this crate reads itself from, and writes itself
//! into, a byte buffer through these functions. The spec functions [`le16`],
//! [`le32`] and [`le64`] give the mathematical value held by a little-endian
//! field at a byte offset; the executable readers and writers carry exact
//! contracts in terms of them.

use vstd::prelude::*;

verus! {

/// The value of the little-endian 16-bit field at `off`.
pub open spec fn le16(b: Seq<u8>, off: int) -> int {
    b[off] + 0x100 * b[off + 1]
}

/// The value of the little-endian 32-bit field at `off`.
pub open spec fn le32(b: Seq<u8>, off: int) -> int {
    le16(b, off) + 0x10000 * le16(b, off + 2)
}

/// The value of the little-endian 64-bit field at `off`.
pub open spec fn le64(b: Seq<u8>, off: int) -> int {
    le32(b, off) + 0x100000000 * le32(b, off + 4)
}

/// `b2` agrees with `b1` everywhere outside `[off, off + size)`.
pub open spec fn unchanged_outside(b1: Seq<u8>, b2: Seq<u8>, off: int, size: int) -> bool {
    &&& b2.len() == b1.len()
    &&& forall|i: int| 0 <= i < b1.len() && !(off <= i < off + size) ==> b2[i] == b1[i]
}

pub fn read_u8(buf: &[u8], off: usize) -> (r: u8)
    requires
        off < buf.len(),
    ensures
        r == buf@[off as int],
{
    buf[off]
}

pub fn read_u16(buf: &[u8], off: usize) -> (r: u16)
    requires
        off + 2 <= buf.len(),
    ensures
        r as int == le16(buf@, off as int),
{
    let b0 = buf[off] as u16;
    let b1 = buf[off + 1] as u16;
    b0 + b1 * 0x100
}

pub fn read_u32(buf: &[u8], off: usize) -> (r: u32)
    requires
        off + 4 <= buf.len(),
    ensures
        r as int == le32(buf@, off as int),
{
    let lo = read_u16(buf, off) as u32;
    let hi = read_u16(buf, off + 2) as u32;
    lo + hi * 0x10000
}

pub fn read_u64(buf: &[u8], off: usize) -> (r: u64)
    requires
        off + 8 <= buf.len(),
    ensures
        r as int == le64(buf@, off as int),
{
    let lo = read_u32(buf, off) as u64;
    let hi = read_u32(buf, off + 4) as u64;
    lo + hi * 0x100000000
}

pub fn write_u8(buf: &mut Vec<u8>, off: usize, v: u8)
    requires
        off < old(buf).len(),
    ensures
        final(buf)@ == old(buf)@.update(off as int, v),
        final(buf).len() == old(buf).len(),
        unchanged_outside(old(buf)@, final(buf)@, off as int, 1),
{
    buf[off] = v;
}

pub fn write_u16(buf: &mut Vec<u8>, off: usize, v: u16)
    requires
        off + 2 <= old(buf).len(),
    ensures
        final(buf).len() == old(buf).len(),
        le16(final(buf)@, off as int) == v as int,
        unchanged_outside(old(buf)@, final(buf)@, off as int, 2),
{
    let lo = (v % 0x100) as u8;
    let hi = (v / 0x100) as u8;
    buf[off] = lo;
    buf[off + 1] = hi;
}

pub fn write_u32(buf: &mut Vec<u8>, off: usize, v: u32)
    requires
        off + 4 <= old(buf).len(),
    ensures
        final(buf).len() == old(buf).len(),
        le32(final(buf)@, off as int) == v as int,
        unchanged_outside(old(buf)@, final(buf)@, off as int, 4),
{
    let lo = (v % 0x10000) as u16;
    let hi = (v / 0x10000) as u16;
    write_u16(buf, off, lo);
    write_u16(buf, off + 2, hi);
}

pub fn write_u64(buf: &mut Vec<u8>, off: usize, v: u64)
    requires
        off + 8 <= old(buf).len(),
    ensures
        final(buf).len() == old(buf).len(),
        le64(final(buf)@, off as int) == v as int,
        unchanged_outside(old(buf)@, final(buf)@, off as int, 8),
{
    let lo = (v % 0x100000000) as u32;
    let hi = (v / 0x100000000) as u32;
    write_u32(buf, off, lo);
    write_u32(buf, off + 4, hi);
}

} // verus!
