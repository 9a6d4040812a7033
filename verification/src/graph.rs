//! The mutable signal graph and its lifecycle: construct, mutate, commit.
//!
//! A graph owns a set of processing nodes and an explicit output-routing
//! table.  Mutation and execution are split into distinct phases: edits
//! happen on the control path, `check` validates the topology, and `commit`
//! compiles it into an immutable [`RenderBackend`] snapshot.  Obtaining a
//! backend is refused between a mutation and the next successful `commit`,
//! so the render path never observes a half-mutated graph.

use vstd::prelude::*;
use vstd::pervasive::arbitrary;
use vstd::pervasive::unreached;

use crate::backend::{BackendView, RenderBackend};
use crate::node::{NodeView, ProcessingNode};

verus! {

/// Stable handle returned on insertion; invalid after removal.
#[derive(Clone, Copy, PartialEq, Eq, Structural, Debug)]
pub struct NodeId {
    pub index: usize,
}

/// `check` found an unrouted or dangling output, or `pipe_output` was given
/// a node of the wrong arity.
#[derive(Clone, Copy, PartialEq, Eq, Structural, Debug)]
pub enum TopologyError {
    /// The given graph output channel has no route.
    UnroutedOutput { channel: usize },
    /// The given graph output channel's route points at a removed node or
    /// at an output the node does not declare.
    DanglingRoute { channel: usize },
    /// The node's declared output arity does not match the graph's declared
    /// output channel count.
    ArityMismatch,
}

/// A backend was requested before any successful `commit`, or after a
/// mutation with no `commit` in between.
#[derive(Clone, Copy, PartialEq, Eq, Structural, Debug)]
pub struct UncommittedBackendError;

/// Mutable topology: processing nodes plus an output-routing table.
pub struct SignalGraph<T> {
    /// Node slots; a removed node leaves `None` behind, so ids stay stable.
    pub nodes: Vec<Option<ProcessingNode<T>>>,
    /// Route of each declared graph output channel: which node, and which
    /// of its declared outputs, feeds the channel.
    pub routes: Vec<Option<(NodeId, usize)>>,
    /// Sample rate every compiled snapshot is stamped with.
    pub sample_rate: u32,
    /// Whether the current topology has been compiled since its last
    /// mutation.
    pub committed: bool,
}

impl<T: Copy> SignalGraph<T> {
    /// Declared output channel count.
    pub open spec fn output_count(self) -> nat {
        self.routes@.len()
    }

    /// Channel `c`'s route exists and points at a live node output.
    pub open spec fn route_valid(self, c: int) -> bool {
        match self.routes@[c] {
            Some((id, k)) => {
                &&& id.index < self.nodes@.len()
                &&& self.nodes@[id.index as int] is Some
                &&& match self.nodes@[id.index as int] {
                    Some(n) => (k as nat) < n@.outputs,
                    None => false,
                }
            },
            None => false,
        }
    }

    /// Every declared output channel has exactly one route to an existing
    /// node output: the condition `check` tests and `commit` demands.
    pub open spec fn valid(self) -> bool {
        forall|c: int| 0 <= c < self.output_count() ==> self.route_valid(c)
    }

    /// Structural well-formedness: inserted nodes are well formed, routes
    /// never point outside the node table, and a committed graph is valid.
    pub open spec fn wf(self) -> bool {
        &&& forall|i: int|
            0 <= i < self.nodes@.len() ==> match #[trigger] self.nodes@[i] {
                Some(n) => n.wf(),
                None => true,
            }
        &&& forall|c: int|
            0 <= c < self.routes@.len() ==> match #[trigger] self.routes@[c] {
                Some((id, k)) => id.index < self.nodes@.len(),
                None => true,
            }
        &&& self.committed ==> self.valid()
    }

    /// The node state feeding channel `c` (meaningful when the route is
    /// valid).
    pub open spec fn route_source(self, c: int) -> NodeView<T> {
        match self.routes@[c] {
            Some((id, k)) => match self.nodes@[id.index as int] {
                Some(n) => n@,
                None => arbitrary(),
            },
            None => arbitrary(),
        }
    }

    /// The snapshot `commit` compiles from the current topology.
    pub open spec fn compiled(self) -> BackendView<T> {
        BackendView {
            sources: Seq::new(self.output_count(), |c: int| self.route_source(c)),
            sample_rate: self.sample_rate as nat,
        }
    }

    /// An empty graph with `output_channel_count` declared output channels
    /// and no routes.
    pub fn new(output_channel_count: usize, sample_rate: u32) -> (r: SignalGraph<T>)
        ensures
            r.wf(),
            r.nodes@.len() == 0,
            r.routes@.len() == output_channel_count,
            forall|c: int| 0 <= c < output_channel_count ==> r.routes@[c] is None,
            r.sample_rate == sample_rate,
            !r.committed,
    {
        let mut routes: Vec<Option<(NodeId, usize)>> = Vec::new();
        let mut c: usize = 0;
        while c < output_channel_count
            invariant
                c <= output_channel_count,
                routes@.len() == c,
                forall|j: int| 0 <= j < c ==> routes@[j] is None,
            decreases output_channel_count - c,
        {
            routes.push(None);
            c = c + 1;
        }
        SignalGraph { nodes: Vec::new(), routes, sample_rate, committed: false }
    }

    /// Insert a node, taking ownership; returns its stable handle.
    pub fn push(&mut self, node: ProcessingNode<T>) -> (id: NodeId)
        requires
            old(self).wf(),
            node.wf(),
        ensures
            final(self).wf(),
            id.index == old(self).nodes@.len(),
            final(self).nodes@ == old(self).nodes@.push(Some(node)),
            final(self).routes@ == old(self).routes@,
            final(self).sample_rate == old(self).sample_rate,
            !final(self).committed,
    {
        let id = NodeId { index: self.nodes.len() };
        self.nodes.push(Some(node));
        self.committed = false;
        id
    }

    /// Detach and drop the node; routes pointing at it dangle until
    /// re-routed.  Using a stale handle is a programming error, which the
    /// precondition rules out.
    pub fn remove(&mut self, id: NodeId)
        requires
            old(self).wf(),
            id.index < old(self).nodes@.len(),
            old(self).nodes@[id.index as int] is Some,
        ensures
            final(self).wf(),
            final(self).nodes@ == old(self).nodes@.update(id.index as int, None),
            final(self).routes@ == old(self).routes@,
            final(self).sample_rate == old(self).sample_rate,
            !final(self).committed,
    {
        self.nodes[id.index] = None;
        self.committed = false;
    }

    /// Route graph output `graph_output_index` from output
    /// `node_output_index` of node `id`, overwriting any existing route for
    /// that channel.
    pub fn connect_output(&mut self, id: NodeId, node_output_index: usize, graph_output_index: usize)
        requires
            old(self).wf(),
            id.index < old(self).nodes@.len(),
            old(self).nodes@[id.index as int] is Some,
            match old(self).nodes@[id.index as int] {
                Some(n) => (node_output_index as nat) < n@.outputs,
                None => false,
            },
            graph_output_index < old(self).routes@.len(),
        ensures
            final(self).wf(),
            final(self).routes@ == old(self).routes@.update(
                graph_output_index as int,
                Some((id, node_output_index)),
            ),
            final(self).nodes@ == old(self).nodes@,
            final(self).sample_rate == old(self).sample_rate,
            !final(self).committed,
    {
        self.routes[graph_output_index] = Some((id, node_output_index));
        self.committed = false;
    }

    /// Wire node `id`'s first N outputs to the graph's N output channels in
    /// order; fails if the node's declared output arity does not match.
    pub fn pipe_output(&mut self, id: NodeId) -> (r: Result<(), TopologyError>)
        requires
            old(self).wf(),
            id.index < old(self).nodes@.len(),
            old(self).nodes@[id.index as int] is Some,
        ensures
            final(self).wf(),
            r is Ok <==> match old(self).nodes@[id.index as int] {
                Some(n) => n@.outputs == old(self).output_count(),
                None => false,
            },
            r is Err ==> r == Result::<(), TopologyError>::Err(TopologyError::ArityMismatch),
            r is Err ==> *final(self) == *old(self),
            r is Ok ==> final(self).routes@ == Seq::new(
                old(self).routes@.len(),
                |c: int| Some((id, c as usize)),
            ),
            r is Ok ==> final(self).nodes@ == old(self).nodes@,
            r is Ok ==> final(self).sample_rate == old(self).sample_rate,
            r is Ok ==> !final(self).committed,
    {
        let outputs = match &self.nodes[id.index] {
            Some(n) => n.output_count(),
            None => unreached(),
        };
        if outputs != self.routes.len() {
            return Err(TopologyError::ArityMismatch);
        }
        let count = self.routes.len();
        let mut c: usize = 0;
        while c < count
            invariant
                old(self).wf(),
                id.index < old(self).nodes@.len(),
                count == self.routes@.len(),
                c <= count,
                self.nodes@ == old(self).nodes@,
                self.sample_rate == old(self).sample_rate,
                forall|j: int| 0 <= j < c ==> self.routes@[j] == Some((id, j as usize)),
                forall|j: int| c <= j < count ==> self.routes@[j] == old(self).routes@[j],
            decreases count - c,
        {
            self.routes[c] = Some((id, c));
            c = c + 1;
        }
        self.committed = false;
        proof {
            assert(self.routes@ =~= Seq::new(
                old(self).routes@.len(),
                |j: int| Some((id, j as usize)),
            ));
        }
        Ok(())
    }

    /// Validate the topology: every declared output channel must have a
    /// route to a live node output.  Reports the lowest-numbered failing
    /// channel.
    pub fn check(&self) -> (r: Result<(), TopologyError>)
        requires
            self.wf(),
        ensures
            r is Ok <==> self.valid(),
            match r {
                Ok(()) => true,
                Err(TopologyError::UnroutedOutput { channel }) => {
                    &&& channel < self.output_count()
                    &&& self.routes@[channel as int] is None
                    &&& forall|c: int| 0 <= c < channel ==> self.route_valid(c)
                },
                Err(TopologyError::DanglingRoute { channel }) => {
                    &&& channel < self.output_count()
                    &&& self.routes@[channel as int] is Some
                    &&& !self.route_valid(channel as int)
                    &&& forall|c: int| 0 <= c < channel ==> self.route_valid(c)
                },
                Err(TopologyError::ArityMismatch) => false,
            },
    {
        let count = self.routes.len();
        let mut c: usize = 0;
        while c < count
            invariant
                self.wf(),
                count == self.routes@.len(),
                c <= count,
                forall|j: int| 0 <= j < c ==> self.route_valid(j),
            decreases count - c,
        {
            match self.routes[c] {
                None => {
                    proof {
                        assert(!self.route_valid(c as int));
                        assert(!self.valid());
                    }
                    return Err(TopologyError::UnroutedOutput { channel: c });
                },
                Some((id, k)) => {
                    match &self.nodes[id.index] {
                        None => {
                            proof {
                                assert(!self.route_valid(c as int));
                                assert(!self.valid());
                            }
                            return Err(TopologyError::DanglingRoute { channel: c });
                        },
                        Some(n) => {
                            if k >= n.output_count() {
                                proof {
                                    assert(!self.route_valid(c as int));
                                    assert(!self.valid());
                                }
                                return Err(TopologyError::DanglingRoute { channel: c });
                            }
                        },
                    }
                },
            }
            c = c + 1;
        }
        Ok(())
    }

    /// Compile the current topology into a fresh backend value.
    fn compile(&self) -> (r: RenderBackend<T>)
        requires
            self.wf(),
            self.valid(),
        ensures
            r.wf(),
            r@ == self.compiled(),
    {
        let count = self.routes.len();
        let mut sources: Vec<ProcessingNode<T>> = Vec::new();
        let mut c: usize = 0;
        while c < count
            invariant
                self.wf(),
                self.valid(),
                count == self.routes@.len(),
                c <= count,
                sources@.len() == c,
                forall|j: int|
                    0 <= j < c ==> (#[trigger] sources@[j])@ == self.route_source(j)
                        && sources@[j].wf(),
            decreases count - c,
        {
            match self.routes[c] {
                None => {
                    proof {
                        assert(self.route_valid(c as int));
                    }
                    unreached()
                },
                Some((id, k)) => {
                    proof {
                        assert(self.route_valid(c as int));
                    }
                    match &self.nodes[id.index] {
                        None => unreached(),
                        Some(n) => {
                            sources.push(n.duplicate());
                        },
                    }
                },
            }
            c = c + 1;
        }
        let r = RenderBackend { sources, sample_rate: self.sample_rate };
        proof {
            assert(r@ =~= self.compiled());
        }
        r
    }

    /// Compile the current, validated topology into an immutable backend
    /// snapshot; must only be called after a successful `check`.
    pub fn commit(&mut self) -> (r: RenderBackend<T>)
        requires
            old(self).wf(),
            old(self).valid(),
        ensures
            final(self).wf(),
            final(self).committed,
            final(self).nodes@ == old(self).nodes@,
            final(self).routes@ == old(self).routes@,
            final(self).sample_rate == old(self).sample_rate,
            r.wf(),
            r@ == old(self).compiled(),
            r@ == final(self).compiled(),
    {
        let r = self.compile();
        self.committed = true;
        proof {
            assert forall|c: int| 0 <= c < self.output_count() implies self.route_valid(c) by {
                assert(old(self).route_valid(c));
            }
            assert(self.compiled() =~= old(self).compiled());
        }
        r
    }

    /// A fresh backend for the committed topology.  Refused between a
    /// mutation and the next successful `commit`.
    pub fn backend(&self) -> (r: Result<RenderBackend<T>, UncommittedBackendError>)
        requires
            self.wf(),
        ensures
            r is Ok <==> self.committed,
            match r {
                Ok(b) => b.wf() && b@ == self.compiled(),
                Err(e) => e == UncommittedBackendError,
            },
    {
        if self.committed {
            Ok(self.compile())
        } else {
            Err(UncommittedBackendError)
        }
    }

    /// Declared output channel count.
    pub fn output_channel_count(&self) -> (r: usize)
        ensures
            r as nat == self.output_count(),
    {
        self.routes.len()
    }

    /// The sample rate every compiled snapshot is stamped with.
    pub fn rate(&self) -> (r: u32)
        ensures
            r == self.sample_rate,
    {
        self.sample_rate
    }
}

/// Removing a node that some channel is routed to makes `check` fail: the
/// graph is no longer valid, while `check`'s own contract states that a
/// fully routed graph passes.
pub proof fn lemma_remove_invalidates<T: Copy>(
    g: SignalGraph<T>,
    g2: SignalGraph<T>,
    id: NodeId,
    c: int,
)
    requires
        0 <= c < g.output_count(),
        g.routes@[c] matches Some(r) && r.0 == id,
        id.index < g.nodes@.len(),
        g2.nodes@ == g.nodes@.update(id.index as int, None),
        g2.routes@ == g.routes@,
    ensures
        !g2.valid(),
{
    assert(!g2.route_valid(c));
}

/// Taking away a channel's route makes `check` fail.
pub proof fn lemma_unroute_invalidates<T: Copy>(g: SignalGraph<T>, g2: SignalGraph<T>, c: int)
    requires
        0 <= c < g.output_count(),
        g2.routes@ == g.routes@.update(c, None),
    ensures
        !g2.valid(),
{
    assert(!g2.route_valid(c));
}

/// Committing twice with no mutation in between yields backends that render
/// identical output, block for block, forever.
pub proof fn lemma_commit_idempotent<T: Copy>(
    g: SignalGraph<T>,
    b1: BackendView<T>,
    b2: BackendView<T>,
    k: nat,
)
    requires
        b1 == g.compiled(),
        b2 == g.compiled(),
    ensures
        b1.steps(k) == b2.steps(k),
        forall|c: int, t: int| b1.steps(k).out(c, t) == b2.steps(k).out(c, t),
{
}

} // verus!
