//! The presence bitmap: one bit per packed BDF address.
//!
//! A full scan of the configuration space records, for each of the 65536
//! possible addresses, whether a device responded there. The record is kept
//! as 1024 words of 64 bits and is persisted across a soft reboot, so that a
//! later initialization in the same power cycle need not scan again.

use vstd::prelude::*;

verus! {

/// Number of 64-bit words the bitmap holds: 65536 addresses, one bit each.
pub const BITMAP_WORDS: usize = 1024;

/// One presence bit per packed BDF address.
pub struct PresenceBitmap {
    /// The packed bits: the bit for address `a` is bit `a % 64` of word
    /// `a / 64`.
    pub words: Vec<u64>,
}

impl PresenceBitmap {
    /// Shape invariant: exactly one bit per possible BDF address.
    pub open spec fn wf(self) -> bool {
        self.words@.len() == BITMAP_WORDS
    }

    /// The presence bit for a packed BDF address.
    pub open spec fn bit(self, a: int) -> bool
        recommends
            0 <= a < 65536,
    {
        (self.words@[a / 64] >> ((a % 64) as u64)) & 1 == 1
    }

    /// A bitmap with every bit clear: nothing discovered yet.
    pub fn new() -> (b: PresenceBitmap)
        ensures
            b.wf(),
            forall|a: int| 0 <= a < 65536 ==> !b.bit(a),
    {
        let mut words: Vec<u64> = Vec::new();
        let mut i: usize = 0;
        while i < BITMAP_WORDS
            invariant
                i <= BITMAP_WORDS,
                words@.len() == i,
                forall|k: int| 0 <= k < i ==> words@[k] == 0,
            decreases BITMAP_WORDS - i,
        {
            words.push(0);
            i += 1;
        }
        let b = PresenceBitmap { words };
        proof {
            assert(forall|j: u64| j < 64 ==> ((0u64 >> j) & 1 == 0)) by (bit_vector);
            assert forall|a: int| 0 <= a < 65536 implies !b.bit(a) by {
                assert(0 <= a / 64 < 1024 && 0 <= a % 64 < 64);
                assert(b.words@[a / 64] == 0);
                assert(((a % 64) as u64) < 64);
            }
        }
        b
    }

    /// Set the presence bit for one address; every other bit keeps its value.
    pub fn set(&mut self, a: u16)
        requires
            old(self).wf(),
        ensures
            final(self).wf(),
            final(self).bit(a as int),
            forall|x: int| 0 <= x < 65536 && x != a as int
                ==> final(self).bit(x) == old(self).bit(x),
    {
        let idx: usize = (a / 64) as usize;
        let b: u16 = a % 64;
        let w: u64 = self.words[idx];
        let nw: u64 = w | (1u64 << (b as u64));
        self.words[idx] = nw;
        proof {
            let ghost bb = b as u64;
            assert((nw >> bb) & 1 == 1 && forall|j: u64|
                j < 64 && j != bb ==> ((nw >> j) & 1 == (w >> j) & 1)) by (bit_vector)
                requires
                    bb < 64,
                    nw == w | (1u64 << bb),
            ;
            assert forall|x: int| 0 <= x < 65536 && x != a as int
                implies final(self).bit(x) == old(self).bit(x) by {
                if x / 64 == idx as int {
                    assert(x % 64 != a as int % 64);
                    assert(((x % 64) as u64) < 64);
                }
            }
        }
    }

    /// Read the presence bit for one address.
    pub fn get(&self, a: u16) -> (r: bool)
        requires
            self.wf(),
        ensures
            r == self.bit(a as int),
    {
        let idx: usize = (a / 64) as usize;
        let b: u16 = a % 64;
        let w: u64 = self.words[idx];
        (w >> (b as u64)) & 1 == 1
    }

    /// One word of the packed representation.
    pub fn word(&self, idx: usize) -> (w: u64)
        requires
            self.wf(),
            idx < BITMAP_WORDS,
        ensures
            w == self.words@[idx as int],
    {
        self.words[idx]
    }

    /// Whether two bitmaps carry exactly the same words.
    pub fn same_as(&self, other: &PresenceBitmap) -> (r: bool)
        requires
            self.wf(),
            other.wf(),
        ensures
            r == (self.words@ =~= other.words@),
    {
        let mut i: usize = 0;
        while i < BITMAP_WORDS
            invariant
                self.wf(),
                other.wf(),
                i <= BITMAP_WORDS,
                forall|k: int| 0 <= k < i ==> self.words@[k] == other.words@[k],
            decreases BITMAP_WORDS - i,
        {
            if self.words[i] != other.words[i] {
                return false;
            }
            i += 1;
        }
        proof {
            assert(self.words@ =~= other.words@);
        }
        true
    }
}

} // verus!
