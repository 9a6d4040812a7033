//! The lane-structured intermediate buffer a render backend fills.
//!
//! A `LaneBuffer` holds `channels * BLOCK_SIZE` samples: per channel,
//! `LANES_PER_BLOCK` groups of `LANE_WIDTH` samples.  All channels are sized
//! identically and every `process` call fills the buffer completely.

use vstd::prelude::*;

use crate::BLOCK_SIZE;

verus! {

/// Fixed-capacity per-channel buffer of SIMD-width sample groups.
pub struct LaneBuffer<T> {
    /// Channel count the buffer was sized for.
    pub channels: usize,
    /// Flat storage: sample `i` of channel `c` lives at `c * BLOCK_SIZE + i`.
    pub samples: Vec<T>,
}

impl<T: Copy> LaneBuffer<T> {
    /// The storage holds exactly one block for every channel.
    pub open spec fn wf(self) -> bool {
        self.samples@.len() == self.channels * BLOCK_SIZE
    }

    /// Sample `i` (of one block) of channel `c`.
    pub open spec fn sample(self, c: int, i: int) -> T {
        self.samples@[c * BLOCK_SIZE + i]
    }

    /// A buffer for `channels` channels, holding `fill` everywhere.
    pub fn new(channels: usize, fill: T) -> (r: LaneBuffer<T>)
        requires
            channels * BLOCK_SIZE <= usize::MAX,
        ensures
            r.wf(),
            r.channels == channels,
            forall|c: int, i: int|
                0 <= c < channels && 0 <= i < BLOCK_SIZE ==> r.sample(c, i) == fill,
    {
        let total = channels * BLOCK_SIZE;
        let mut samples: Vec<T> = Vec::new();
        let mut n: usize = 0;
        while n < total
            invariant
                n <= total,
                samples@.len() == n,
                forall|j: int| 0 <= j < n ==> samples@[j] == fill,
            decreases total - n,
        {
            samples.push(fill);
            n = n + 1;
        }
        let r = LaneBuffer { channels, samples };
        proof {
            assert forall|c: int, i: int|
                0 <= c < channels && 0 <= i < BLOCK_SIZE implies r.sample(c, i) == fill by {
                lemma_slot_in_range(c, i, channels as int);
            }
        }
        r
    }

    /// Read sample `i` of channel `c`.
    pub fn at(&self, c: usize, i: usize) -> (r: T)
        requires
            self.wf(),
            c < self.channels,
            i < BLOCK_SIZE,
        ensures
            r == self.sample(c as int, i as int),
    {
        let n = self.samples.len();
        proof {
            lemma_slot_in_range(c as int, i as int, self.channels as int);
            assert(c * BLOCK_SIZE + i < n);
        }
        self.samples[c * BLOCK_SIZE + i]
    }

    /// Write sample `i` of channel `c`; nothing else moves.
    pub fn set(&mut self, c: usize, i: usize, v: T)
        requires
            old(self).wf(),
            c < old(self).channels,
            i < BLOCK_SIZE,
        ensures
            final(self).wf(),
            final(self).channels == old(self).channels,
            final(self).samples@ == old(self).samples@.update(
                c * BLOCK_SIZE + i as int,
                v,
            ),
            final(self).sample(c as int, i as int) == v,
            forall|c2: int, i2: int|
                0 <= c2 < old(self).channels && 0 <= i2 < BLOCK_SIZE && !(c2 == c && i2 == i)
                    ==> final(self).sample(c2, i2) == old(self).sample(c2, i2),
    {
        let n = self.samples.len();
        proof {
            lemma_slot_in_range(c as int, i as int, self.channels as int);
            assert(c * BLOCK_SIZE + i < n);
        }
        self.samples[c * BLOCK_SIZE + i] = v;
        proof {
            assert forall|c2: int, i2: int|
                0 <= c2 < old(self).channels && 0 <= i2 < BLOCK_SIZE && !(c2 == c && i2 == i)
                    implies self.sample(c2, i2) == old(self).sample(c2, i2) by {
                lemma_slot_in_range(c2, i2, old(self).channels as int);
                lemma_slot_distinct(c2, i2, c as int, i as int);
            }
        }
    }

    /// Channel count the buffer was sized for.
    pub fn channel_count(&self) -> (r: usize)
        ensures
            r == self.channels,
    {
        self.channels
    }
}

/// Every (channel, sample) pair names a storage slot inside the buffer.
proof fn lemma_slot_in_range(c: int, i: int, channels: int)
    requires
        0 <= c < channels,
        0 <= i < BLOCK_SIZE,
    ensures
        0 <= c * BLOCK_SIZE + i < channels * BLOCK_SIZE,
{
    assert(c * BLOCK_SIZE + i < channels * BLOCK_SIZE) by (nonlinear_arith)
        requires
            0 <= c < channels,
            0 <= i < BLOCK_SIZE,
    ;
    assert(0 <= c * BLOCK_SIZE + i) by (nonlinear_arith)
        requires
            0 <= c,
            0 <= i,
    ;
}

/// Distinct (channel, sample) pairs name distinct storage slots.
proof fn lemma_slot_distinct(c1: int, i1: int, c2: int, i2: int)
    requires
        0 <= i1 < BLOCK_SIZE,
        0 <= i2 < BLOCK_SIZE,
        !(c1 == c2 && i1 == i2),
    ensures
        c1 * BLOCK_SIZE + i1 != c2 * BLOCK_SIZE + i2,
{
    if c1 == c2 {
    } else {
        assert(c1 * BLOCK_SIZE + i1 != c2 * BLOCK_SIZE + i2) by (nonlinear_arith)
            requires
                0 <= i1 < BLOCK_SIZE,
                0 <= i2 < BLOCK_SIZE,
                c1 != c2,
        ;
    }
}

} // verus!
