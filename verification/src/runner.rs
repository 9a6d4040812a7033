//! Composition of graph, backend and buffer for one playback session.
//!
//! A [`Runner`] wraps a freshly built processing node in a stereo
//! [`SignalGraph`], wires the graph outputs (piping when the arities match,
//! fanning a single channel out otherwise), validates and commits.
//! [`Runner::backend`] then hands out a paired buffer + backend object ready
//! for repeated `process` calls, and [`Runner::stop`] degrades the session
//! to silence instead of failing.

use vstd::prelude::*;
use vstd::pervasive::unreached;

use crate::backend::{BackendView, RenderBackend};
use crate::buffer::LaneBuffer;
use crate::graph::{NodeId, SignalGraph, TopologyError};
use crate::node::{NodeView, ProcessingNode};
use crate::{BLOCK_SIZE, CHANNELS, DEFAULT_SAMPLE_RATE};

verus! {

/// No enumerated output device carries the requested name.
#[derive(Clone, Copy, PartialEq, Eq, Structural, Debug)]
pub struct DeviceNotFoundError;

/// A compiled backend paired with the lane buffer it fills: everything the
/// render path needs, allocated once at setup.
pub struct RunnerBackend<T> {
    /// The buffer every `process` call fills completely.
    pub buffer: LaneBuffer<T>,
    /// The immutable execution snapshot driving the buffer.
    pub backend: RenderBackend<T>,
}

impl<T: Copy> RunnerBackend<T> {
    /// The buffer is sized for exactly the backend's channels.
    pub open spec fn wf(self) -> bool {
        &&& self.buffer.wf()
        &&& self.backend.wf()
        &&& self.buffer.channels as nat == self.backend@.channels()
    }

    /// Render one block: fill the whole buffer from the backend and advance
    /// it by `BLOCK_SIZE` samples.
    pub fn process(&mut self)
        requires
            old(self).wf(),
        ensures
            final(self).wf(),
            final(self).buffer.channels == old(self).buffer.channels,
            final(self).backend@ == old(self).backend@.step(),
            forall|c: int, i: int|
                0 <= c < old(self).buffer.channels && 0 <= i < BLOCK_SIZE
                    ==> final(self).buffer.sample(c, i) == old(self).backend@.out(c, i),
    {
        self.backend.process(&mut self.buffer);
    }
}

/// One playback session: the mutable graph, the handle of its root node,
/// and the sample value that stands for silence.
pub struct Runner<T> {
    /// The session's signal graph; committed whenever the runner is handed
    /// out.
    pub graph: SignalGraph<T>,
    /// Handle of the node currently feeding the graph outputs.
    pub root: NodeId,
    /// The sample written when the session is stopped, and the initial
    /// content of every buffer.
    pub silence: T,
}

impl<T: Copy> Runner<T> {
    /// The graph is stereo, committed (hence valid), and the root handle is
    /// live.
    pub open spec fn wf(self) -> bool {
        &&& self.graph.wf()
        &&& self.graph.committed
        &&& self.graph.output_count() == CHANNELS
        &&& self.root.index < self.graph.nodes@.len()
        &&& self.graph.nodes@[self.root.index as int] is Some
    }

    /// Wrap `node` in a stereo graph: pipe its outputs through when its
    /// arity is stereo, otherwise fan its first output out to both
    /// channels; then validate and commit.  A node with no outputs at all
    /// cannot feed the graph and is refused.
    pub fn new(node: ProcessingNode<T>, silence: T) -> (r: Result<Runner<T>, TopologyError>)
        requires
            node.wf(),
        ensures
            r is Ok <==> node@.outputs >= 1,
            r is Err ==> r == Result::<Runner<T>, TopologyError>::Err(TopologyError::ArityMismatch),
            match r {
                Ok(rn) => {
                    &&& rn.wf()
                    &&& rn.silence == silence
                    &&& rn.graph.sample_rate == DEFAULT_SAMPLE_RATE
                    &&& rn.root.index == 0
                    &&& rn.graph.nodes@ == seq![Some(node)]
                    &&& rn.graph.routes@.len() == CHANNELS
                    &&& (node@.outputs == CHANNELS ==> rn.graph.routes@ == Seq::new(
                        CHANNELS as nat,
                        |c: int| Some((rn.root, c as usize)),
                    ))
                    &&& (node@.outputs != CHANNELS ==> rn.graph.routes@ == seq![
                        Some((rn.root, 0usize)),
                        Some((rn.root, 0usize)),
                    ])
                    &&& rn.graph.compiled() == (BackendView {
                        sources: seq![node@, node@],
                        sample_rate: DEFAULT_SAMPLE_RATE as nat,
                    })
                },
                Err(e) => true,
            },
    {
        let outputs = node.output_count();
        if outputs == 0 {
            return Err(TopologyError::ArityMismatch);
        }
        let mut graph: SignalGraph<T> = SignalGraph::new(CHANNELS, DEFAULT_SAMPLE_RATE);
        let id = graph.push(node);
        if outputs == CHANNELS {
            let piped = graph.pipe_output(id);
            match piped {
                Ok(()) => {},
                Err(_) => unreached(),
            }
        } else {
            graph.connect_output(id, 0, 0);
            graph.connect_output(id, 0, 1);
        }
        proof {
            assert forall|c: int| 0 <= c < graph.output_count() implies graph.route_valid(c) by {}
        }
        let checked = graph.check();
        match checked {
            Ok(()) => {},
            Err(_) => unreached(),
        }
        let _snapshot = graph.commit();
        let r = Runner { graph, root: id, silence };
        proof {
            assert(r.graph.nodes@ =~= seq![Some(node)]);
            if node@.outputs == CHANNELS {
                assert(r.graph.routes@ =~= Seq::new(
                    CHANNELS as nat,
                    |c: int| Some((r.root, c as usize)),
                ));
            } else {
                assert(r.graph.routes@ =~= seq![Some((r.root, 0usize)), Some((r.root, 0usize))]);
            }
            assert(r.graph.compiled() =~= (BackendView {
                sources: seq![node@, node@],
                sample_rate: DEFAULT_SAMPLE_RATE as nat,
            }));
        }
        Ok(r)
    }

    /// A paired lane buffer + backend for the committed topology, the
    /// buffer pre-filled with silence.
    pub fn backend(&mut self) -> (r: RunnerBackend<T>)
        requires
            old(self).wf(),
        ensures
            *final(self) == *old(self),
            r.wf(),
            r.backend@ == old(self).graph.compiled(),
            r.buffer.channels == CHANNELS,
            forall|c: int, i: int|
                0 <= c < CHANNELS && 0 <= i < BLOCK_SIZE
                    ==> r.buffer.sample(c, i) == old(self).silence,
    {
        let backend = match self.graph.backend() {
            Ok(b) => b,
            Err(_) => unreached(),
        };
        let buffer = LaneBuffer::new(CHANNELS, self.silence);
        RunnerBackend { buffer, backend }
    }

    /// Replace the topology by a constant-silence source and commit, so
    /// that subsequent renders produce silence rather than failing.
    pub fn stop(&mut self)
        requires
            old(self).wf(),
        ensures
            final(self).wf(),
            final(self).silence == old(self).silence,
            final(self).graph.sample_rate == old(self).graph.sample_rate,
            final(self).root.index == old(self).graph.nodes@.len(),
            final(self).graph.nodes@.len() == old(self).graph.nodes@.len() + 1,
            final(self).graph.nodes@[old(self).root.index as int] is None,
            forall|i: int|
                0 <= i < old(self).graph.nodes@.len() && i != old(self).root.index
                    ==> final(self).graph.nodes@[i] == old(self).graph.nodes@[i],
            final(self).graph.nodes@.last() matches Some(n) && n@ == silent_source::<T>(
                old(self).silence,
            ),
            final(self).graph.routes@ == Seq::new(
                CHANNELS as nat,
                |c: int| Some((final(self).root, c as usize)),
            ),
            final(self).graph.compiled() == (BackendView {
                sources: seq![silent_source::<T>(old(self).silence), silent_source::<T>(old(self).silence)],
                sample_rate: old(self).graph.sample_rate as nat,
            }),
    {
        let sil = ProcessingNode::constant(CHANNELS, self.silence);
        self.graph.remove(self.root);
        let id = self.graph.push(sil);
        let piped = self.graph.pipe_output(id);
        match piped {
            Ok(()) => {},
            Err(_) => unreached(),
        }
        proof {
            assert forall|c: int| 0 <= c < self.graph.output_count() implies self.graph.route_valid(
                c,
            ) by {}
        }
        let _snapshot = self.graph.commit();
        self.root = id;
        proof {
            assert(self.graph.nodes@.last() == Some(sil));
            assert(sil@ =~= silent_source::<T>(old(self).silence));
            assert(self.graph.routes@ =~= Seq::new(
                CHANNELS as nat,
                |c: int| Some((self.root, c as usize)),
            ));
            assert(self.graph.compiled() =~= (BackendView {
                sources: seq![
                    silent_source::<T>(old(self).silence),
                    silent_source::<T>(old(self).silence),
                ],
                sample_rate: old(self).graph.sample_rate as nat,
            }));
        }
    }
}

/// The node state a stopped session leaves on every channel.
pub open spec fn silent_source<T>(silence: T) -> NodeView<T> {
    NodeView { outputs: CHANNELS as nat, table: seq![silence], pos: 0nat }
}

/// A stopped session renders silence forever: every sample of every block
/// of a backend whose sources are all constant-silence is the silence
/// value.
pub proof fn lemma_stopped_backend_silent<T>(b: BackendView<T>, silence: T, k: nat, c: int, t: int)
    requires
        forall|j: int| 0 <= j < b.sources.len() ==> b.sources[j] == silent_source::<T>(silence),
        0 <= c < b.sources.len(),
        0 <= t,
    ensures
        b.steps(k).out(c, t) == silence,
{
    crate::backend::lemma_steps_pointwise(b, c, k);
    lemma_silent_node_fixed::<T>(silence, k);
    vstd::arithmetic::div_mod::lemma_mod_division_less_than_divisor(0 + t, 1);
}

/// Stepping never changes a constant-silence source.
proof fn lemma_silent_node_fixed<T>(silence: T, k: nat)
    ensures
        crate::backend::steps_of_node(silent_source::<T>(silence), k) == silent_source::<T>(
            silence,
        ),
    decreases k,
{
    if k > 0 {
        lemma_silent_node_fixed::<T>(silence, (k - 1) as nat);
        vstd::arithmetic::div_mod::lemma_mod_division_less_than_divisor(0 + BLOCK_SIZE, 1);
        assert(silent_source::<T>(silence).step() =~= silent_source::<T>(silence));
    }
}

/// Pick the output device: the first enumerated name equal to the
/// requested one.  Fails exactly when no enumerated name matches.
pub fn select_device(names: &Vec<String>, requested: &String) -> (r: Result<
    usize,
    DeviceNotFoundError,
>)
    ensures
        r is Err <==> (forall|j: int| 0 <= j < names@.len() ==> names@[j]@ != requested@),
        match r {
            Ok(i) => {
                &&& i < names@.len()
                &&& names@[i as int]@ == requested@
                &&& forall|j: int| 0 <= j < i ==> names@[j]@ != requested@
            },
            Err(e) => e == DeviceNotFoundError,
        },
{
    let mut i: usize = 0;
    while i < names.len()
        invariant
            i <= names@.len(),
            forall|j: int| 0 <= j < i ==> names@[j]@ != requested@,
        decreases names@.len() - i,
    {
        if names[i] == *requested {
            return Ok(i);
        }
        i = i + 1;
    }
    Err(DeviceNotFoundError)
}

/// How many blocks a headless run of `seconds` wall-clock seconds must
/// render: `sample_rate / BLOCK_SIZE * channels * seconds`.
pub fn dummy_block_count(sample_rate: u32, channels: usize, seconds: u32) -> (r: usize)
    requires
        (sample_rate as int / BLOCK_SIZE as int) * channels <= usize::MAX,
        (sample_rate as int / BLOCK_SIZE as int) * channels * seconds <= usize::MAX,
    ensures
        r == (sample_rate as int / BLOCK_SIZE as int) * channels * seconds,
{
    let per_second = sample_rate as usize / BLOCK_SIZE;
    let per_channel = per_second * channels;
    proof {
        assert(per_channel * seconds <= usize::MAX) by (nonlinear_arith)
            requires
                per_channel == (sample_rate as int / BLOCK_SIZE as int) * channels,
                (sample_rate as int / BLOCK_SIZE as int) * channels * seconds <= usize::MAX,
                seconds >= 0,
        ;
    }
    per_channel * seconds as usize
}

} // verus!
