//! The immutable, real-time-safe execution snapshot compiled from a
//! validated signal graph.
//!
//! A backend is a value, not a view: it holds one compiled source per
//! declared output channel and never refers back to the mutable graph, so
//! later topology edits cannot corrupt a render in flight.  Every `process`
//! call fills the supplied [`LaneBuffer`] completely — one block of
//! `BLOCK_SIZE` samples per channel — and advances every source by exactly
//! one block.

use vstd::prelude::*;

use crate::buffer::LaneBuffer;
use crate::node::{NodeView, ProcessingNode};
use crate::node::lemma_step_wf;
use crate::BLOCK_SIZE;

verus! {

/// Mathematical state of a compiled backend: one node state per declared
/// output channel, plus the sample rate the snapshot was taken at.
#[verifier::ext_equal]
pub struct BackendView<T> {
    pub sources: Seq<NodeView<T>>,
    pub sample_rate: nat,
}

impl<T> BackendView<T> {
    /// Every per-channel source is well formed.
    pub open spec fn wf(self) -> bool {
        forall|c: int| 0 <= c < self.sources.len() ==> (#[trigger] self.sources[c]).wf()
    }

    /// Declared output channel count of the snapshot.
    pub open spec fn channels(self) -> nat {
        self.sources.len()
    }

    /// The sample the next `process` call writes at position `t` of
    /// channel `c`.
    pub open spec fn out(self, c: int, t: int) -> T {
        self.sources[c].sample(t)
    }

    /// The backend state after one `process` call.
    pub open spec fn step(self) -> BackendView<T> {
        BackendView { sources: self.sources.map_values(|s: NodeView<T>| s.step()), ..self }
    }

    /// The backend state after `k` `process` calls.
    pub open spec fn steps(self, k: nat) -> BackendView<T>
        decreases k,
    {
        if k == 0 {
            self
        } else {
            self.steps((k - 1) as nat).step()
        }
    }
}

/// Blocks are cut from one continuous stream: after `k` `process` calls,
/// position `i` of channel `c` holds sample `k * BLOCK_SIZE + i` of the
/// channel's source — rendering block by block is not observable in the
/// samples themselves.
pub proof fn lemma_blocks_form_one_stream<T>(b: BackendView<T>, c: int, k: nat, i: int)
    requires
        b.wf(),
        0 <= c < b.channels(),
        0 <= i,
    ensures
        b.steps(k).out(c, i) == b.sources[c].sample(k * BLOCK_SIZE + i),
{
    lemma_steps_pointwise(b, c, k);
    lemma_node_stream(b.sources[c], k, i);
}

/// The `k`-fold step of a node stays well formed and reads its stream
/// `k * BLOCK_SIZE` samples further on.
proof fn lemma_node_stream<T>(v: NodeView<T>, k: nat, t: int)
    requires
        v.wf(),
        0 <= t,
    ensures
        steps_of_node(v, k).wf(),
        steps_of_node(v, k).sample(t) == v.sample(k * BLOCK_SIZE + t),
    decreases k,
{
    if k > 0 {
        let w = steps_of_node(v, (k - 1) as nat);
        lemma_node_stream(v, (k - 1) as nat, t + BLOCK_SIZE);
        lemma_step_wf(w);
    }
}

/// Rendering is deterministic: the whole stream of blocks — every sample of
/// every channel after any number of `process` calls — is a function of the
/// starting snapshot alone.
pub proof fn lemma_process_deterministic<T>(a: BackendView<T>, b: BackendView<T>, k: nat)
    requires
        a == b,
    ensures
        a.steps(k) == b.steps(k),
        forall|c: int, t: int| a.steps(k).out(c, t) == b.steps(k).out(c, t),
{
}

/// Fan-out keeps channels identical: when two channels draw from equal
/// sources, they hold equal samples after every number of `process` calls.
pub proof fn lemma_fanout_channels_equal<T>(b: BackendView<T>, c1: int, c2: int, k: nat)
    requires
        0 <= c1 < b.channels(),
        0 <= c2 < b.channels(),
        b.sources[c1] == b.sources[c2],
    ensures
        forall|t: int| b.steps(k).out(c1, t) == b.steps(k).out(c2, t),
{
    lemma_steps_pointwise(b, c1, k);
    lemma_steps_pointwise(b, c2, k);
}

/// After `k` steps, channel `c`'s source is the `k`-fold step of its
/// starting source.
pub proof fn lemma_steps_pointwise<T>(b: BackendView<T>, c: int, k: nat)
    requires
        0 <= c < b.channels(),
    ensures
        b.steps(k).channels() == b.channels(),
        b.steps(k).sources[c] == steps_of_node(b.sources[c], k),
    decreases k,
{
    if k > 0 {
        lemma_steps_pointwise(b, c, (k - 1) as nat);
    }
}

/// The `k`-fold step of a single node state.
pub open spec fn steps_of_node<T>(v: NodeView<T>, k: nat) -> NodeView<T>
    decreases k,
{
    if k == 0 {
        v
    } else {
        steps_of_node(v, (k - 1) as nat).step()
    }
}

/// Immutable, real-time-safe compiled execution plan for one graph
/// snapshot: one source per declared output channel.
pub struct RenderBackend<T> {
    /// The compiled source feeding each output channel, in channel order.
    pub sources: Vec<ProcessingNode<T>>,
    /// Sample rate of the graph the snapshot was compiled from.
    pub sample_rate: u32,
}

impl<T> View for RenderBackend<T> {
    type V = BackendView<T>;

    open spec fn view(&self) -> BackendView<T> {
        BackendView {
            sources: Seq::new(self.sources@.len(), |c: int| self.sources@[c]@),
            sample_rate: self.sample_rate as nat,
        }
    }
}

impl<T: Copy> RenderBackend<T> {
    /// Every compiled source is well formed (including its machine-size
    /// bound).
    pub open spec fn wf(self) -> bool {
        forall|c: int| 0 <= c < self.sources@.len() ==> (#[trigger] self.sources@[c]).wf()
    }

    /// Declared output channel count of the snapshot.
    pub fn channel_count(&self) -> (r: usize)
        ensures
            r as nat == self@.channels(),
    {
        self.sources.len()
    }

    /// Produce exactly one block: fill all `BLOCK_SIZE` samples of every
    /// declared output channel of `out`, then advance every source by one
    /// block.  No partial fill: every slot of `out` is written.
    pub fn process(&mut self, out: &mut LaneBuffer<T>)
        requires
            old(self).wf(),
            old(out).wf(),
            old(out).channels as nat == old(self)@.channels(),
        ensures
            final(self).wf(),
            final(self)@ == old(self)@.step(),
            final(out).wf(),
            final(out).channels == old(out).channels,
            forall|c: int, i: int|
                0 <= c < old(out).channels && 0 <= i < BLOCK_SIZE
                    ==> final(out).sample(c, i) == old(self)@.out(c, i),
    {
        let channels = self.sources.len();
        let mut c: usize = 0;
        while c < channels
            invariant
                channels == self.sources@.len(),
                c <= channels,
                self == old(self),
                self.wf(),
                out.wf(),
                out.channels == channels,
                forall|c2: int, i2: int|
                    0 <= c2 < c && 0 <= i2 < BLOCK_SIZE
                        ==> out.sample(c2, i2) == old(self)@.out(c2, i2),
            decreases channels - c,
        {
            let mut i: usize = 0;
            while i < BLOCK_SIZE
                invariant
                    channels == self.sources@.len(),
                    c < channels,
                    i <= BLOCK_SIZE,
                    self == old(self),
                    self.wf(),
                    out.wf(),
                    out.channels == channels,
                    forall|c2: int, i2: int|
                        0 <= c2 < c && 0 <= i2 < BLOCK_SIZE
                            ==> out.sample(c2, i2) == old(self)@.out(c2, i2),
                    forall|i2: int|
                        0 <= i2 < i ==> out.sample(c as int, i2) == old(self)@.out(c as int, i2),
                decreases BLOCK_SIZE - i,
            {
                let v = self.sources[c].sample_at(i);
                out.set(c, i, v);
                i = i + 1;
            }
            c = c + 1;
        }
        let mut a: usize = 0;
        while a < channels
            invariant
                channels == self.sources@.len(),
                a <= channels,
                self.wf(),
                self.sample_rate == old(self).sample_rate,
                forall|c2: int|
                    0 <= c2 < a ==> (#[trigger] self.sources@[c2])@ == old(self).sources@[c2]@.step(),
                forall|c2: int|
                    a <= c2 < channels ==> #[trigger] self.sources@[c2] == old(self).sources@[c2],
                out.wf(),
                out.channels == channels,
                forall|c2: int, i2: int|
                    0 <= c2 < channels && 0 <= i2 < BLOCK_SIZE
                        ==> out.sample(c2, i2) == old(self)@.out(c2, i2),
            decreases channels - a,
        {
            let node = &mut self.sources[a];
            node.advance();
            a = a + 1;
        }
        proof {
            assert(self@ =~= old(self)@.step());
        }
    }
}

} // verus!
