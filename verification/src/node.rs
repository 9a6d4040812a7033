//! Processing nodes: opaque per-block signal transforms with a declared
//! channel arity.
//!
//! A node is a source that cycles through a fixed table of samples; its
//! only time-dependent state is the explicit sample counter `pos`.  Every
//! declared output of a node carries the node's signal.

use vstd::prelude::*;

use crate::BLOCK_SIZE;

verus! {

/// Mathematical state of a processing node: a declared output arity, one
/// period of its cyclic signal, and the explicit sample counter.
#[verifier::ext_equal]
pub struct NodeView<T> {
    pub outputs: nat,
    pub table: Seq<T>,
    pub pos: nat,
}

impl<T> NodeView<T> {
    /// A node state is well formed when its table holds at least one sample
    /// and the counter points inside the table.
    pub open spec fn wf(self) -> bool {
        &&& self.table.len() > 0
        &&& self.pos < self.table.len()
    }

    /// The sample the node emits on every declared output `t` steps from now.
    pub open spec fn sample(self, t: int) -> T {
        self.table[(self.pos + t) % (self.table.len() as int)]
    }

    /// The node state after one block of `BLOCK_SIZE` samples has been
    /// rendered.
    pub open spec fn step(self) -> NodeView<T> {
        NodeView {
            pos: ((self.pos + BLOCK_SIZE) % (self.table.len() as int)) as nat,
            ..self
        }
    }
}

/// One block does not change a node's arity or table, keeps it well formed,
/// and shifts its sample stream by exactly `BLOCK_SIZE` positions.
pub proof fn lemma_step_wf<T>(v: NodeView<T>)
    requires
        v.wf(),
    ensures
        v.step().wf(),
        v.step().outputs == v.outputs,
        v.step().table == v.table,
        forall|t: int| 0 <= t ==> v.step().sample(t) == v.sample(t + BLOCK_SIZE),
{
    let p = v.pos as int;
    let len = v.table.len() as int;
    vstd::arithmetic::div_mod::lemma_mod_division_less_than_divisor(p + BLOCK_SIZE, len);
    assert forall|t: int| 0 <= t implies v.step().sample(t) == v.sample(t + BLOCK_SIZE) by {
        vstd::arithmetic::div_mod::lemma_add_mod_noop_right(t, p + BLOCK_SIZE, len);
    }
}

/// A processing node: a cyclic sample source with a declared output arity.
pub struct ProcessingNode<T> {
    /// Declared output channel count.
    pub outputs: usize,
    /// One period of the node's signal.
    pub table: Vec<T>,
    /// Explicit sample counter: the next sample emitted is
    /// `table[pos % table.len()]`.
    pub pos: usize,
}

impl<T> View for ProcessingNode<T> {
    type V = NodeView<T>;

    open spec fn view(&self) -> NodeView<T> {
        NodeView { outputs: self.outputs as nat, table: self.table@, pos: self.pos as nat }
    }
}

impl<T: Copy> ProcessingNode<T> {
    /// Well-formedness: the abstract state is well formed and the table is
    /// short enough that advancing the counter by one block cannot overflow.
    pub open spec fn wf(self) -> bool {
        &&& self@.wf()
        &&& self.table@.len() + BLOCK_SIZE <= usize::MAX
    }

    /// A node that cycles through `table` on `outputs` declared channels.
    pub fn new(outputs: usize, table: Vec<T>) -> (r: ProcessingNode<T>)
        requires
            table@.len() > 0,
            table@.len() + BLOCK_SIZE <= usize::MAX,
        ensures
            r.wf(),
            r@ == (NodeView { outputs: outputs as nat, table: table@, pos: 0nat }),
    {
        ProcessingNode { outputs, table, pos: 0 }
    }

    /// A node that holds `value` on `outputs` declared channels forever.
    pub fn constant(outputs: usize, value: T) -> (r: ProcessingNode<T>)
        ensures
            r.wf(),
            r@ == (NodeView { outputs: outputs as nat, table: seq![value], pos: 0nat }),
            forall|t: int| r@.sample(t) == value,
    {
        let mut table: Vec<T> = Vec::new();
        table.push(value);
        proof {
            assert(table@ =~= seq![value]);
        }
        let r = ProcessingNode { outputs, table, pos: 0 };
        proof {
            assert(r@ =~= (NodeView { outputs: outputs as nat, table: seq![value], pos: 0nat }));
            assert forall|t: int| r@.sample(t) == value by {
                vstd::arithmetic::div_mod::lemma_mod_division_less_than_divisor(0 + t, 1);
            }
        }
        r
    }

    /// Declared output channel count.
    pub fn output_count(&self) -> (r: usize)
        ensures
            r as nat == self@.outputs,
    {
        self.outputs
    }

    /// Declared input channel count; every node in this set is a source.
    pub fn input_count(&self) -> (r: usize)
        ensures
            r == 0,
    {
        0
    }

    /// The sample this node emits `t` steps from now.
    pub fn sample_at(&self, t: usize) -> (r: T)
        requires
            self.wf(),
            t <= BLOCK_SIZE,
        ensures
            r == self@.sample(t as int),
    {
        let len = self.table.len();
        self.table[(self.pos + t) % len]
    }

    /// Advance the sample counter by one block.
    pub fn advance(&mut self)
        requires
            old(self).wf(),
        ensures
            final(self).wf(),
            final(self)@ == old(self)@.step(),
    {
        let len = self.table.len();
        self.pos = (self.pos + BLOCK_SIZE) % len;
        proof {
            assert(self@ =~= old(self)@.step());
        }
    }

    /// An identical copy of this node, sharing no storage with it.
    pub fn duplicate(&self) -> (r: ProcessingNode<T>)
        ensures
            r@ == self@,
            self.wf() ==> r.wf(),
    {
        let mut table: Vec<T> = Vec::new();
        let mut i: usize = 0;
        while i < self.table.len()
            invariant
                i <= self.table@.len(),
                table@ == self.table@.subrange(0, i as int),
            decreases self.table@.len() - i,
        {
            table.push(self.table[i]);
            proof {
                assert(table@ =~= self.table@.subrange(0, i + 1));
            }
            i = i + 1;
        }
        proof {
            assert(table@ =~= self.table@);
        }
        let r = ProcessingNode { outputs: self.outputs, table, pos: self.pos };
        proof {
            assert(r@ =~= self@);
        }
        r
    }
}

} // verus!
