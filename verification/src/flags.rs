//! A bit-flag store: a byte range addressed as an array of single bits.
//!
//! The store is parameterized by its byte length `N`, so it holds `8 * N`
//! independently addressable flags. A flat bit index `i` maps to bit
//! `i % 8` of byte `i / 8`. Out-of-range indices are reported, never
//! silently ignored.

use crate::codec::unchanged_outside;
use vstd::prelude::*;

verus! {

/// A flag index lay outside the store's capacity.
#[derive(Debug, Clone, Copy, PartialEq, Eq)]
pub struct FlagIndexError;

/// `8 * N` boolean flags packed into `N` bytes.
pub struct BitFlags<const N: usize> {
    pub bytes: Vec<u8>,
}

impl<const N: usize> BitFlags<N> {
    /// The backing storage holds exactly `N` bytes.
    pub open spec fn wf(&self) -> bool {
        self.bytes@.len() == N
    }

    /// The number of addressable flags.
    pub open spec fn spec_capacity() -> int {
        8 * (N as int)
    }

    /// The value of the flag at bit index `i`.
    pub open spec fn flag(&self, i: int) -> bool {
        (self.bytes@[i / 8] >> ((i % 8) as u8)) & 1 == 1
    }

    /// A store with every flag cleared.
    pub fn new() -> (r: Self)
        ensures
            r.wf(),
            forall|i: int| 0 <= i < Self::spec_capacity() ==> !r.flag(i),
    {
        let r = BitFlags { bytes: vec![0u8; N] };
        proof {
            assert(forall|k: u8| k < 8 ==> (0u8 >> k) & 1 == 0) by (bit_vector);
            assert forall|i: int| 0 <= i < Self::spec_capacity() implies !r.flag(i) by {
                assert(0 <= i % 8 < 8);
                assert(0 <= i / 8 < N as int);
            }
        }
        r
    }

    /// The flag at `i`, or `None` when `i` is out of range.
    pub fn get(&self, i: usize) -> (r: Option<bool>)
        requires
            self.wf(),
        ensures
            (i as int) < Self::spec_capacity() ==> r == Some(self.flag(i as int)),
            (i as int) >= Self::spec_capacity() ==> r is None,
    {
        let byte_idx = i / 8;
        if byte_idx >= N {
            return None;
        }
        let bit = (i % 8) as u8;
        Some((self.bytes[byte_idx] >> bit) & 1 == 1)
    }

    /// Sets the flag at `i` to `v`, leaving every other flag as it was;
    /// reports an out-of-range index.
    pub fn set(&mut self, i: usize, v: bool) -> (r: Result<(), FlagIndexError>)
        requires
            old(self).wf(),
        ensures
            final(self).wf(),
            r is Ok <==> (i as int) < Self::spec_capacity(),
            r is Err ==> final(self).bytes@ == old(self).bytes@,
            r is Ok ==> final(self).flag(i as int) == v,
            r is Ok ==> forall|j: int|
                0 <= j < Self::spec_capacity() && j != i ==> final(self).flag(j) == old(
                    self,
                ).flag(j),
            unchanged_outside(old(self).bytes@, final(self).bytes@, i as int / 8, 1),
    {
        let byte_idx = i / 8;
        if byte_idx >= N {
            return Err(FlagIndexError);
        }
        let bit = (i % 8) as u8;
        let b = self.bytes[byte_idx];
        let nb = if v {
            b | (1u8 << bit)
        } else {
            b & !(1u8 << bit)
        };
        self.bytes[byte_idx] = nb;
        proof {
            assert(((b | (1u8 << bit)) >> bit) & 1 == 1) by (bit_vector)
                requires
                    bit < 8,
            ;
            assert(((b & !(1u8 << bit)) >> bit) & 1 == 0) by (bit_vector)
                requires
                    bit < 8,
            ;
            assert(forall|jb: u8|
                jb < 8 && jb != bit ==> ((b | (1u8 << bit)) >> jb) & 1 == (b >> jb) & 1)
                by (bit_vector)
                requires
                    bit < 8,
            ;
            assert(forall|jb: u8|
                jb < 8 && jb != bit ==> ((b & !(1u8 << bit)) >> jb) & 1 == (b >> jb) & 1)
                by (bit_vector)
                requires
                    bit < 8,
            ;
            assert forall|j: int|
                0 <= j < Self::spec_capacity() && j != i implies final(self).flag(j) == old(
                self,
            ).flag(j) by {
                let jb = (j % 8) as u8;
                if j / 8 == byte_idx as int {
                    assert(j == 8 * (j / 8) + j % 8);
                    assert(i as int == 8 * (i as int / 8) + i as int % 8);
                    assert(jb != bit);
                } else {
                    assert(final(self).bytes@[j / 8] == old(self).bytes@[j / 8]);
                }
            }
        }
        Ok(())
    }

    /// Reads `N` bytes at `off` as a flag store.
    pub fn read_at(buf: &[u8], off: usize) -> (r: Self)
        requires
            off + N <= buf.len(),
        ensures
            r.wf(),
            r.bytes@ == buf@.subrange(off as int, off as int + N as int),
    {
        let mut bytes: Vec<u8> = Vec::new();
        let mut k: usize = 0;
        while k < N
            invariant
                off + N <= buf.len(),
                k <= N,
                bytes@.len() == k,
                forall|t: int| 0 <= t < k ==> bytes@[t] == buf@[off + t],
            decreases N - k,
        {
            bytes.push(buf[off + k]);
            k += 1;
        }
        let r = BitFlags { bytes };
        proof {
            assert(r.bytes@ =~= buf@.subrange(off as int, off as int + N as int));
        }
        r
    }

    /// Writes the `N` flag bytes at `off`, leaving all other bytes as they were.
    pub fn write_at(&self, buf: &mut Vec<u8>, off: usize)
        requires
            self.wf(),
            off + N <= old(buf).len(),
        ensures
            final(buf).len() == old(buf).len(),
            final(buf)@.subrange(off as int, off as int + N as int) == self.bytes@,
            unchanged_outside(old(buf)@, final(buf)@, off as int, N as int),
    {
        let mut k: usize = 0;
        while k < N
            invariant
                off + N <= old(buf).len(),
                k <= N,
                self.wf(),
                buf.len() == old(buf).len(),
                forall|t: int| 0 <= t < k ==> buf@[off + t] == self.bytes@[t],
                unchanged_outside(old(buf)@, buf@, off as int, k as int),
            decreases N - k,
        {
            buf[off + k] = self.bytes[k];
            k += 1;
        }
        proof {
            assert(final(buf)@.subrange(off as int, off as int + N as int) =~= self.bytes@);
        }
    }
}

} // verus!
