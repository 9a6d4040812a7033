//! Transcoding between lane-structured blocks and the flat interleaved
//! sample stream a device consumes.
//!
//! Given a destination of `L` samples and a channel count `C`, the
//! converter renders `N = L / (BLOCK_SIZE * C)` backend blocks and writes
//! sample `i` of channel `c` of block `b` to destination slot
//! `(b * BLOCK_SIZE + i) * C + c`.  Every slot below `N * BLOCK_SIZE * C`
//! is written exactly once, no channel's samples land in another channel's
//! slots, and remainder samples past that point are left untouched.

use vstd::prelude::*;
use vstd::arithmetic::div_mod::lemma_fundamental_div_mod;
use vstd::arithmetic::div_mod::lemma_mod_division_less_than_divisor;
use vstd::arithmetic::mul::lemma_mul_inequality;

use crate::buffer::LaneBuffer;
use crate::runner::RunnerBackend;
use crate::BLOCK_SIZE;

verus! {

/// The destination slot of sample `i` of channel `c` of block `block`.
pub open spec fn frame_slot(block: int, i: int, c: int, channels: int) -> int {
    (block * BLOCK_SIZE + i) * channels + c
}

/// How many whole blocks fit a destination of `len` samples.
pub open spec fn blocks_for(len: int, channels: int) -> int {
    len / (BLOCK_SIZE * channels)
}

/// Translates lane-structured blocks into a flat interleaved stream of
/// `channels` interleaved channels.
pub struct FrameConverter {
    /// Channel count of the destination stream.
    pub channels: usize,
}

impl FrameConverter {
    /// At least one channel, and one whole block of it fits machine size.
    pub open spec fn wf(self) -> bool {
        &&& 1 <= self.channels
        &&& self.channels * BLOCK_SIZE <= usize::MAX
    }

    /// A converter for a `channels`-channel destination stream.
    pub fn new(channels: usize) -> (r: FrameConverter)
        requires
            1 <= channels,
            channels * BLOCK_SIZE <= usize::MAX,
        ensures
            r.wf(),
            r.channels == channels,
    {
        FrameConverter { channels }
    }

    /// The number of backend blocks needed for a destination of `len`
    /// samples; remainder samples are not rendered.
    pub fn blocks_needed(&self, len: usize) -> (n: usize)
        requires
            self.wf(),
        ensures
            n == blocks_for(len as int, self.channels as int),
    {
        len / (BLOCK_SIZE * self.channels)
    }

    /// Interleave one rendered block into its slice of the destination:
    /// slot `(block * BLOCK_SIZE + i) * channels + c` receives sample `i`
    /// of channel `c`, and nothing outside the block's slice moves.
    pub fn write_block<T: Copy>(&self, data: &mut Vec<T>, block: usize, buf: &LaneBuffer<T>)
        requires
            self.wf(),
            buf.wf(),
            buf.channels == self.channels,
            (block + 1) * (BLOCK_SIZE * self.channels) <= old(data)@.len(),
        ensures
            final(data)@.len() == old(data)@.len(),
            forall|i: int, c: int|
                0 <= i < BLOCK_SIZE && 0 <= c < self.channels
                    ==> final(data)@[frame_slot(block as int, i, c, self.channels as int)]
                        == buf.sample(c, i),
            forall|j: int|
                0 <= j < old(data)@.len()
                    && !(block * (BLOCK_SIZE * self.channels) <= j
                        < (block + 1) * (BLOCK_SIZE * self.channels))
                    ==> final(data)@[j] == old(data)@[j],
    {
        let channels = self.channels;
        let mut i: usize = 0;
        while i < BLOCK_SIZE
            invariant
                self.wf(),
                buf.wf(),
                buf.channels == channels,
                channels == self.channels,
                i <= BLOCK_SIZE,
                (block + 1) * (BLOCK_SIZE * channels) <= data@.len(),
                data@.len() == old(data)@.len(),
                forall|i2: int, c2: int|
                    0 <= i2 < i && 0 <= c2 < channels
                        ==> data@[frame_slot(block as int, i2, c2, channels as int)]
                            == buf.sample(c2, i2),
                forall|j: int|
                    0 <= j < old(data)@.len()
                        && !(block * (BLOCK_SIZE * channels) <= j
                            < (block + 1) * (BLOCK_SIZE * channels))
                        ==> data@[j] == old(data)@[j],
            decreases BLOCK_SIZE - i,
        {
            let mut c: usize = 0;
            while c < channels
                invariant
                    self.wf(),
                    buf.wf(),
                    buf.channels == channels,
                    channels == self.channels,
                    i < BLOCK_SIZE,
                    c <= channels,
                    (block + 1) * (BLOCK_SIZE * channels) <= data@.len(),
                    data@.len() == old(data)@.len(),
                    forall|i2: int, c2: int|
                        0 <= i2 < i && 0 <= c2 < channels
                            ==> data@[frame_slot(block as int, i2, c2, channels as int)]
                                == buf.sample(c2, i2),
                    forall|c2: int|
                        0 <= c2 < c
                            ==> data@[frame_slot(block as int, i as int, c2, channels as int)]
                                == buf.sample(c2, i as int),
                    forall|j: int|
                        0 <= j < old(data)@.len()
                            && !(block * (BLOCK_SIZE * channels) <= j
                                < (block + 1) * (BLOCK_SIZE * channels))
                            ==> data@[j] == old(data)@[j],
                decreases channels - c,
            {
                let dlen = data.len();
                proof {
                    lemma_slot_bounds(block as int, i as int, c as int, channels as int);
                    assert(frame_slot(block as int, i as int, c as int, channels as int) < dlen);
                }
                let idx = (block * BLOCK_SIZE + i) * channels + c;
                let v = buf.at(c, i);
                data[idx] = v;
                proof {
                    assert forall|i2: int, c2: int|
                        0 <= i2 < i && 0 <= c2 < channels implies data@[frame_slot(
                        block as int,
                        i2,
                        c2,
                        channels as int,
                    )] == buf.sample(c2, i2) by {
                        lemma_slot_bounds(block as int, i2, c2, channels as int);
                        lemma_slot_injective(
                            (block as int) * BLOCK_SIZE + i2,
                            c2,
                            (block as int) * BLOCK_SIZE + (i as int),
                            c as int,
                            channels as int,
                        );
                    }
                    assert forall|c2: int| 0 <= c2 < c + 1 implies data@[frame_slot(
                        block as int,
                        i as int,
                        c2,
                        channels as int,
                    )] == buf.sample(c2, i as int) by {
                        if c2 < c {
                            lemma_slot_bounds(block as int, i as int, c2, channels as int);
                            lemma_slot_injective(
                                (block as int) * BLOCK_SIZE + (i as int),
                                c2,
                                (block as int) * BLOCK_SIZE + (i as int),
                                c as int,
                                channels as int,
                            );
                        }
                    }
                }
                c = c + 1;
            }
            i = i + 1;
        }
    }

    /// Fill the destination from the backend: render
    /// `N = len / (BLOCK_SIZE * channels)` blocks, interleave each into its
    /// slice in order, and leave any remainder samples untouched.
    pub fn drive<T: Copy>(&self, data: &mut Vec<T>, rb: &mut RunnerBackend<T>)
        requires
            self.wf(),
            old(rb).wf(),
            old(rb).buffer.channels == self.channels,
        ensures
            final(rb).wf(),
            final(rb).buffer.channels == self.channels,
            final(data)@.len() == old(data)@.len(),
            final(rb).backend@ == old(rb).backend@.steps(
                blocks_for(old(data)@.len() as int, self.channels as int) as nat,
            ),
            forall|b: int, i: int, c: int|
                0 <= b < blocks_for(old(data)@.len() as int, self.channels as int)
                    && 0 <= i < BLOCK_SIZE && 0 <= c < self.channels
                    ==> final(data)@[frame_slot(b, i, c, self.channels as int)]
                        == old(rb).backend@.steps(b as nat).out(c, i),
            forall|j: int|
                blocks_for(old(data)@.len() as int, self.channels as int) * (
                BLOCK_SIZE * self.channels) <= j < old(data)@.len()
                    ==> final(data)@[j] == old(data)@[j],
    {
        let channels = self.channels;
        let n = self.blocks_needed(data.len());
        proof {
            lemma_fundamental_div_mod(data@.len() as int, (BLOCK_SIZE * channels) as int);
            lemma_mod_division_less_than_divisor(
                data@.len() as int,
                (BLOCK_SIZE * channels) as int,
            );
        }
        let mut b: usize = 0;
        while b < n
            invariant
                self.wf(),
                channels == self.channels,
                rb.wf(),
                rb.buffer.channels == channels,
                b <= n,
                n == blocks_for(data@.len() as int, channels as int),
                n * (BLOCK_SIZE * channels) <= data@.len(),
                data@.len() == old(data)@.len(),
                rb.backend@ == old(rb).backend@.steps(b as nat),
                forall|b2: int, i: int, c: int|
                    0 <= b2 < b && 0 <= i < BLOCK_SIZE && 0 <= c < channels
                        ==> data@[frame_slot(b2, i, c, channels as int)]
                            == old(rb).backend@.steps(b2 as nat).out(c, i),
                forall|j: int|
                    b * (BLOCK_SIZE * channels) <= j < old(data)@.len()
                        ==> data@[j] == old(data)@[j],
            decreases n - b,
        {
            proof {
                lemma_mul_inequality(b + 1, n as int, (BLOCK_SIZE * channels) as int);
            }
            rb.process();
            let ghost data0 = data@;
            self.write_block(data, b, &rb.buffer);
            proof {
                assert forall|b2: int, i: int, c: int|
                    0 <= b2 < b + 1 && 0 <= i < BLOCK_SIZE && 0 <= c < channels
                        implies data@[frame_slot(b2, i, c, channels as int)]
                        == old(rb).backend@.steps(b2 as nat).out(c, i) by {
                    lemma_slot_bounds(b2, i, c, channels as int);
                    if b2 < b {
                        lemma_mul_inequality(b2 + 1, b as int, (BLOCK_SIZE * channels) as int);
                        lemma_mul_inequality(b as int, n as int, (BLOCK_SIZE * channels) as int);
                        assert(data@[frame_slot(b2, i, c, channels as int)] == data0[frame_slot(
                            b2,
                            i,
                            c,
                            channels as int,
                        )]);
                    } else {
                        assert(data@[frame_slot(b2, i, c, self.channels as int)] == rb.buffer
                            .sample(c, i));
                    }
                }
                assert forall|j: int|
                    (b + 1) * (BLOCK_SIZE * channels) <= j < old(data)@.len() implies data@[j]
                    == old(data)@[j] by {
                    lemma_mul_inequality(b as int, b as int + 1, (BLOCK_SIZE * channels) as int);
                    assert(data@[j] == data0[j]);
                }
            }
            b = b + 1;
        }
    }
}

/// Every (sample, channel) pair of a block lands strictly inside the
/// block's slice of the destination.
proof fn lemma_slot_bounds(block: int, i: int, c: int, channels: int)
    requires
        0 <= block,
        0 <= i < BLOCK_SIZE,
        0 <= c < channels,
    ensures
        block * (BLOCK_SIZE * channels) <= frame_slot(block, i, c, channels),
        frame_slot(block, i, c, channels) < (block + 1) * (BLOCK_SIZE * channels),
        block * BLOCK_SIZE + i <= frame_slot(block, i, c, channels),
{
    assert((block * BLOCK_SIZE + i) * channels + c >= block * (BLOCK_SIZE * channels)
        && (block * BLOCK_SIZE + i) * channels + c < (block + 1) * (BLOCK_SIZE * channels)
        && block * BLOCK_SIZE + i <= (block * BLOCK_SIZE + i) * channels + c)
        by (nonlinear_arith)
        requires
            0 <= block,
            0 <= i < BLOCK_SIZE,
            0 <= c < channels,
    ;
}

/// Distinct (frame, channel) pairs occupy distinct interleaved slots.
proof fn lemma_slot_injective(f1: int, c1: int, f2: int, c2: int, channels: int)
    requires
        0 <= c1 < channels,
        0 <= c2 < channels,
        !(f1 == f2 && c1 == c2),
    ensures
        f1 * channels + c1 != f2 * channels + c2,
{
    assert(f1 * channels + c1 != f2 * channels + c2) by (nonlinear_arith)
        requires
            0 <= c1 < channels,
            0 <= c2 < channels,
            !(f1 == f2 && c1 == c2),
    ;
}

/// The converter never cross-writes channels: with a stereo lane buffer
/// holding `x` on channel 0 and `y` on channel 1, the interleaved image of
/// a block holds `x` at every even and `y` at every odd sample offset, for
/// all of the block's frames.
pub proof fn lemma_no_cross_channel<T: Copy>(
    d: Seq<T>,
    buf: LaneBuffer<T>,
    block: int,
    x: T,
    y: T,
)
    requires
        buf.wf(),
        buf.channels == 2,
        0 <= block,
        forall|i: int| 0 <= i < BLOCK_SIZE ==> buf.sample(0, i) == x && buf.sample(1, i) == y,
        forall|i: int, c: int|
            0 <= i < BLOCK_SIZE && 0 <= c < 2 ==> d[frame_slot(block, i, c, 2)] == buf.sample(
                c,
                i,
            ),
    ensures
        forall|j: int|
            block * (2 * BLOCK_SIZE) <= j < (block + 1) * (2 * BLOCK_SIZE) ==> (#[trigger] d[j])
                == if j % 2 == 0 {
                    x
                } else {
                    y
                },
{
    assert forall|j: int|
        block * (2 * BLOCK_SIZE) <= j < (block + 1) * (2 * BLOCK_SIZE) implies (#[trigger] d[j])
        == if j % 2 == 0 {
        x
    } else {
        y
    } by {
        let f = j / 2;
        let c = j % 2;
        let i = f - block * BLOCK_SIZE;
        assert(j == 2 * f + c);
        assert(0 <= c < 2);
        assert(frame_slot(block, i, c, 2) == j);
        assert(d[frame_slot(block, i, c, 2)] == buf.sample(c, i));
        if c == 0 {
            assert(buf.sample(c, i) == x);
        } else {
            assert(buf.sample(c, i) == y);
        }
    }
}

} // verus!
