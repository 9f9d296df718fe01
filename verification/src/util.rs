//! Fixed-capacity containers used by the save layout.
//!
//! [`FixVec`] is an array-backed sequence with a hard capacity `MAX` and an
//! explicit logical length: the backing storage always holds `MAX` elements,
//! and elements at index `>= len` are logically absent even though they are
//! physically present. [`FixStr`] is a nul-terminated string with fixed
//! backing storage.

use crate::codec::le16;
use crate::codec::le64;
use crate::codec::read_u16;
use crate::codec::read_u64;
use crate::codec::unchanged_outside;
use crate::codec::write_u16;
use crate::codec::write_u64;
use vstd::prelude::*;

verus! {

/// The vector has reached its maximum or minimum length.
#[derive(Debug, Clone, Copy, PartialEq, Eq)]
pub struct CapacityError;

/// A type with a designated blank value, used to scrub vacated slots so
/// stale data is never silently retained in unused backing storage.
pub trait Zeroed: Sized {
    spec fn zeroed_spec() -> Self;

    fn zeroed() -> (r: Self)
        ensures
            r == Self::zeroed_spec(),
    ;
}

impl Zeroed for u16 {
    open spec fn zeroed_spec() -> Self {
        0u16
    }

    fn zeroed() -> (r: Self) {
        0
    }
}

/// The value of the 16-bit element `k` of a run of little-endian elements
/// starting at `off`.
pub open spec fn le16_elem(b: Seq<u8>, off: int, k: int) -> int {
    le16(b, off + 2 * k)
}

/// Dynamic array with fixed capacity `MAX`.
///
/// Invariant: `len <= MAX`. The backing storage always holds exactly `MAX`
/// elements; the tail beyond `len` is logically absent.
pub struct FixVec<T, const MAX: usize> {
    pub buf: Vec<T>,
    pub len: usize,
}

impl<T: Copy, const MAX: usize> FixVec<T, MAX> {
    pub open spec fn wf(&self) -> bool {
        &&& self.buf@.len() == MAX
        &&& self.len <= MAX
    }

    /// The logically present elements: the first `len` of the backing storage.
    pub open spec fn elems(&self) -> Seq<T> {
        self.buf@.subrange(0, self.len as int)
    }

    /// An empty vector whose backing storage is filled with `fill`.
    pub fn new(fill: T) -> (r: Self)
        ensures
            r.wf(),
            r.len == 0,
            forall|k: int| 0 <= k < MAX ==> r.buf@[k] == fill,
    {
        let mut buf: Vec<T> = Vec::new();
        let mut k: usize = 0;
        while k < MAX
            invariant
                k <= MAX,
                buf@.len() == k,
                forall|t: int| 0 <= t < k ==> buf@[t] == fill,
            decreases MAX - k,
        {
            buf.push(fill);
            k += 1;
        }
        FixVec { buf, len: 0 }
    }

    /// The element at logical index `i`, or `None` when `i >= len`,
    /// regardless of what physically occupies the backing slot.
    pub fn get(&self, i: usize) -> (r: Option<&T>)
        requires
            self.wf(),
        ensures
            i < self.len ==> (r is Some && *r.unwrap() == self.buf@[i as int]),
            i >= self.len ==> r is None,
    {
        if i >= self.len {
            return None;
        }
        Some(&self.buf[i])
    }

    /// Overwrites the element at logical index `i`; `i < len` is the
    /// caller's obligation.
    pub fn set(&mut self, i: usize, new: T)
        requires
            old(self).wf(),
            i < old(self).len,
        ensures
            final(self).wf(),
            final(self).len == old(self).len,
            final(self).buf@ == old(self).buf@.update(i as int, new),
    {
        self.buf[i] = new;
    }

    /// Appends at the logical end, or reports that the capacity is reached.
    pub fn try_push(&mut self, to_add: T) -> (r: Result<(), CapacityError>)
        requires
            old(self).wf(),
        ensures
            final(self).wf(),
            r is Ok <==> old(self).len < MAX,
            r is Ok ==> final(self).len == old(self).len + 1 && final(self).buf@ == old(
                self,
            ).buf@.update(old(self).len as int, to_add),
            r is Err ==> *final(self) == *old(self),
    {
        let len = self.len;
        if len >= MAX {
            return Err(CapacityError);
        }
        self.buf[len] = to_add;
        self.len = len + 1;
        Ok(())
    }

    pub fn len(&self) -> (r: usize)
        ensures
            r == self.len,
    {
        self.len
    }

    pub fn is_empty(&self) -> (r: bool)
        ensures
            r == (self.len == 0),
    {
        self.len == 0
    }

    /// The logically present elements, front to back, as a fresh vector.
    pub fn iter(&self) -> (r: Vec<T>)
        requires
            self.wf(),
        ensures
            r@ == self.elems(),
    {
        let mut out: Vec<T> = Vec::new();
        let mut k: usize = 0;
        while k < self.len
            invariant
                self.wf(),
                k <= self.len,
                out@.len() == k,
                forall|t: int| 0 <= t < k ==> out@[t] == self.buf@[t],
            decreases self.len - k,
        {
            out.push(self.buf[k]);
            k += 1;
        }
        proof {
            assert(out@ =~= self.elems());
        }
        out
    }

    /// Sets the logical length to zero without touching backing storage.
    pub fn clear(&mut self)
        ensures
            final(self).len == 0,
            final(self).buf@ == old(self).buf@,
    {
        self.len = 0;
    }

    pub fn capacity(&self) -> (r: usize)
        ensures
            r == MAX,
    {
        MAX
    }
}

impl<T: Copy + Zeroed, const MAX: usize> FixVec<T, MAX> {
    /// Removes and returns the last logical element, scrubbing its backing
    /// slot with the blank value; reports an empty vector.
    pub fn try_pop(&mut self) -> (r: Result<T, CapacityError>)
        requires
            old(self).wf(),
        ensures
            final(self).wf(),
            r is Ok <==> old(self).len > 0,
            r is Ok ==> r.unwrap() == old(self).buf@[old(self).len - 1] && final(self).len == old(
                self,
            ).len - 1 && final(self).buf@ == old(self).buf@.update(
                old(self).len - 1,
                T::zeroed_spec(),
            ),
            r is Err ==> *final(self) == *old(self),
    {
        let len = self.len;
        if len == 0 {
            return Err(CapacityError);
        }
        let res = self.buf[len - 1];
        self.buf[len - 1] = T::zeroed();
        self.len = len - 1;
        Ok(res)
    }
}

impl<const MAX: usize> FixVec<u16, MAX> {
    /// Encoded size: `MAX` little-endian elements followed by a 64-bit
    /// length.
    pub open spec fn spec_size() -> int {
        2 * (MAX as int) + 8
    }

    /// The backing elements held by an encoded region.
    pub open spec fn decoded_elems(region: Seq<u8>) -> Seq<u16> {
        Seq::new(MAX as nat, |k: int| le16(region, 2 * k) as u16)
    }

    /// The logical length held by an encoded region, clamped to `MAX` so
    /// that the invariant holds even for an overlong stored count.
    pub open spec fn decoded_len(region: Seq<u8>) -> int {
        if le64(region, 2 * (MAX as int)) < MAX as int {
            le64(region, 2 * (MAX as int))
        } else {
            MAX as int
        }
    }

    /// This vector is exactly what the encoded region holds.
    pub open spec fn matches_region(&self, region: Seq<u8>) -> bool {
        &&& self.buf@ == Self::decoded_elems(region)
        &&& self.len as int == Self::decoded_len(region)
    }

    /// Reads a vector from its encoded region at `off`.
    pub fn read_at(buf: &[u8], off: usize) -> (r: Self)
        requires
            off + 2 * MAX + 8 <= buf.len(),
        ensures
            r.wf(),
            r.matches_region(buf@.subrange(off as int, off as int + Self::spec_size())),
    {
        let mut elems: Vec<u16> = Vec::new();
        let mut k: usize = 0;
        while k < MAX
            invariant
                off + 2 * MAX + 8 <= buf.len(),
                k <= MAX,
                elems@.len() == k,
                forall|t: int| 0 <= t < k ==> elems@[t] as int == le16_elem(buf@, off as int, t),
            decreases MAX - k,
        {
            let e = read_u16(buf, off + 2 * k);
            proof {
                assert(le16(buf@, off as int + 2 * k) == le16_elem(buf@, off as int, k as int));
            }
            elems.push(e);
            k += 1;
        }
        let stored = read_u64(buf, off + 2 * MAX);
        let len: usize = if stored >= MAX as u64 {
            MAX
        } else {
            stored as usize
        };
        let r = FixVec { buf: elems, len };
        proof {
            let region = buf@.subrange(off as int, off as int + Self::spec_size());
            assert forall|t: int| 0 <= t < MAX implies Self::decoded_elems(region)[t] == r.buf@[t] by {
                assert(region[2 * t] == buf@[off + 2 * t]);
                assert(region[2 * t + 1] == buf@[off + 2 * t + 1]);
                assert(le16(region, 2 * t) == le16_elem(buf@, off as int, t));
            }
            assert(r.buf@ =~= Self::decoded_elems(region));
            assert(le64(region, 2 * (MAX as int)) == le64(buf@, off as int + 2 * (MAX as int)));
        }
        r
    }

    /// Writes this vector into its encoded region at `off`, leaving all
    /// other bytes as they were.
    pub fn write_at(&self, buf: &mut Vec<u8>, off: usize)
        requires
            self.wf(),
            off + 2 * MAX + 8 <= old(buf).len(),
        ensures
            final(buf).len() == old(buf).len(),
            self.matches_region(final(buf)@.subrange(off as int, off as int + Self::spec_size())),
            unchanged_outside(old(buf)@, final(buf)@, off as int, Self::spec_size()),
    {
        let mut k: usize = 0;
        while k < MAX
            invariant
                self.wf(),
                off + 2 * MAX + 8 <= old(buf).len(),
                k <= MAX,
                buf.len() == old(buf).len(),
                forall|t: int| 0 <= t < k ==> le16_elem(buf@, off as int, t) == self.buf@[t] as int,
                unchanged_outside(old(buf)@, buf@, off as int, 2 * k as int),
            decreases MAX - k,
        {
            write_u16(buf, off + 2 * k, self.buf[k]);
            proof {
                assert(le16(buf@, off as int + 2 * (k as int)) == le16_elem(
                    buf@,
                    off as int,
                    k as int,
                ));
                assert forall|t: int| 0 <= t < k implies le16_elem(buf@, off as int, t)
                    == self.buf@[t] as int by {
                    assert(le16_elem(buf@, off as int, t) == le16(buf@, off as int + 2 * t));
                }
            }
            k += 1;
        }
        write_u64(buf, off + 2 * MAX, self.len as u64);
        proof {
            let region = final(buf)@.subrange(off as int, off as int + Self::spec_size());
            assert forall|t: int| 0 <= t < MAX implies Self::decoded_elems(region)[t]
                == self.buf@[t] by {
                assert(region[2 * t] == final(buf)@[off + 2 * t]);
                assert(region[2 * t + 1] == final(buf)@[off + 2 * t + 1]);
                assert(le16(region, 2 * t) == le16_elem(final(buf)@, off as int, t));
                assert(le16_elem(final(buf)@, off as int, t) == le16_elem(buf@, off as int, t));
            }
            assert(self.buf@ =~= Self::decoded_elems(region));
            assert(le64(region, 2 * (MAX as int)) == le64(final(buf)@, off as int + 2 * (
            MAX as int)));
        }
    }
}

/// Nul-terminated string with fixed storage and maximum length `MAX`.
///
/// Bytes past the terminator are not guaranteed to be nulls.
pub struct FixStr<const MAX: usize> {
    pub buf: Vec<u8>,
}

impl<const MAX: usize> FixStr<MAX> {
    pub open spec fn wf(&self) -> bool {
        self.buf@.len() == MAX
    }

    /// An all-nul string.
    pub fn new() -> (r: Self)
        ensures
            r.wf(),
            forall|k: int| 0 <= k < MAX ==> r.buf@[k] == 0u8,
    {
        FixStr { buf: vec![0u8; MAX] }
    }

    /// Reads `MAX` storage bytes at `off`.
    pub fn read_at(buf: &[u8], off: usize) -> (r: Self)
        requires
            off + MAX <= buf.len(),
        ensures
            r.wf(),
            r.buf@ == buf@.subrange(off as int, off as int + MAX as int),
    {
        let mut bytes: Vec<u8> = Vec::new();
        let mut k: usize = 0;
        while k < MAX
            invariant
                off + MAX <= buf.len(),
                k <= MAX,
                bytes@.len() == k,
                forall|t: int| 0 <= t < k ==> bytes@[t] == buf@[off + t],
            decreases MAX - k,
        {
            bytes.push(buf[off + k]);
            k += 1;
        }
        let r = FixStr { buf: bytes };
        proof {
            assert(r.buf@ =~= buf@.subrange(off as int, off as int + MAX as int));
        }
        r
    }

    /// Writes the `MAX` storage bytes at `off`, leaving all other bytes as
    /// they were.
    pub fn write_at(&self, buf: &mut Vec<u8>, off: usize)
        requires
            self.wf(),
            off + MAX <= old(buf).len(),
        ensures
            final(buf).len() == old(buf).len(),
            final(buf)@.subrange(off as int, off as int + MAX as int) == self.buf@,
            unchanged_outside(old(buf)@, final(buf)@, off as int, MAX as int),
    {
        let mut k: usize = 0;
        while k < MAX
            invariant
                self.wf(),
                off + MAX <= old(buf).len(),
                k <= MAX,
                buf.len() == old(buf).len(),
                forall|t: int| 0 <= t < k ==> buf@[off + t] == self.buf@[t],
                unchanged_outside(old(buf)@, buf@, off as int, k as int),
            decreases MAX - k,
        {
            buf[off + k] = self.buf[k];
            k += 1;
        }
        proof {
            assert(final(buf)@.subrange(off as int, off as int + MAX as int) =~= self.buf@);
        }
    }
}

} // verus!
