//! The pass graph of the effect: four passes behind one input node, wired
//! slot to slot, and checked edge by edge as it is built.
//!
//! An edge leads from an output slot of one node to an input slot of a later
//! node. The graph accepts an edge only if both slots are what they claim to
//! be, carry the same kind of value, the input has no producer yet, and the
//! edge points forward in the order input, mask, seeding, rounds, composite.
//! A graph built that way cannot hold a cycle.

use vstd::prelude::*;

verus! {

/// The nodes of the graph.
#[derive(Clone, Copy, Debug, PartialEq, Eq, Structural)]
pub enum PassNode {
    /// Supplies the view that the passes run for.
    Input,
    /// Rasterizes the maskable shapes.
    Mask,
    /// Seeds the jump-flood buffer from the mask.
    JfaInit,
    /// Runs the jump-flood rounds.
    Jfa,
    /// Composites the ripples onto the view's target.
    Ripples,
}

/// What a slot carries.
#[derive(Clone, Copy, Debug, PartialEq, Eq, Structural)]
pub enum SlotType {
    Entity,
    TextureView,
}

/// The named slots of the nodes.
#[derive(Clone, Copy, Debug, PartialEq, Eq, Structural)]
pub enum Slot {
    /// Output of the input node: the view entity.
    ViewEntity,
    /// Input of the mask pass: the view entity.
    MaskInView,
    /// Output of the mask pass: the mask.
    MaskOutMask,
    /// Input of the seeding pass: the mask.
    InitInMask,
    /// Output of the seeding pass: the seeded buffer.
    InitOutJfaInit,
    /// Input of the round pass: the view entity.
    JfaInView,
    /// Input of the round pass: the seeded buffer.
    JfaInBase,
    /// Output of the round pass: the final buffer.
    JfaOutJump,
    /// Input of the composite pass: the view entity.
    RipplesInView,
    /// Input of the composite pass: the final buffer.
    RipplesInJfa,
    /// Output of the composite pass: the view entity.
    RipplesOutView,
}

/// The position of a node in the order of execution.
pub open spec fn rank(node: PassNode) -> nat {
    match node {
        PassNode::Input => 0,
        PassNode::Mask => 1,
        PassNode::JfaInit => 2,
        PassNode::Jfa => 3,
        PassNode::Ripples => 4,
    }
}

/// The node that a slot belongs to.
pub open spec fn owner(slot: Slot) -> PassNode {
    match slot {
        Slot::ViewEntity => PassNode::Input,
        Slot::MaskInView => PassNode::Mask,
        Slot::MaskOutMask => PassNode::Mask,
        Slot::InitInMask => PassNode::JfaInit,
        Slot::InitOutJfaInit => PassNode::JfaInit,
        Slot::JfaInView => PassNode::Jfa,
        Slot::JfaInBase => PassNode::Jfa,
        Slot::JfaOutJump => PassNode::Jfa,
        Slot::RipplesInView => PassNode::Ripples,
        Slot::RipplesInJfa => PassNode::Ripples,
        Slot::RipplesOutView => PassNode::Ripples,
    }
}

/// Whether a slot is an output of its node.
pub open spec fn is_output(slot: Slot) -> bool {
    match slot {
        Slot::ViewEntity => true,
        Slot::MaskOutMask => true,
        Slot::InitOutJfaInit => true,
        Slot::JfaOutJump => true,
        Slot::RipplesOutView => true,
        _ => false,
    }
}

/// What a slot carries.
pub open spec fn slot_type(slot: Slot) -> SlotType {
    match slot {
        Slot::ViewEntity => SlotType::Entity,
        Slot::MaskInView => SlotType::Entity,
        Slot::JfaInView => SlotType::Entity,
        Slot::RipplesInView => SlotType::Entity,
        Slot::RipplesOutView => SlotType::Entity,
        _ => SlotType::TextureView,
    }
}

impl PassNode {
    /// The position of the node in the order of execution.
    pub fn position(&self) -> (r: u8)
        ensures
            r == rank(*self),
    {
        match self {
            PassNode::Input => 0,
            PassNode::Mask => 1,
            PassNode::JfaInit => 2,
            PassNode::Jfa => 3,
            PassNode::Ripples => 4,
        }
    }
}

impl Slot {
    /// The node that the slot belongs to.
    pub fn node(&self) -> (n: PassNode)
        ensures
            n == owner(*self),
    {
        match self {
            Slot::ViewEntity => PassNode::Input,
            Slot::MaskInView => PassNode::Mask,
            Slot::MaskOutMask => PassNode::Mask,
            Slot::InitInMask => PassNode::JfaInit,
            Slot::InitOutJfaInit => PassNode::JfaInit,
            Slot::JfaInView => PassNode::Jfa,
            Slot::JfaInBase => PassNode::Jfa,
            Slot::JfaOutJump => PassNode::Jfa,
            Slot::RipplesInView => PassNode::Ripples,
            Slot::RipplesInJfa => PassNode::Ripples,
            Slot::RipplesOutView => PassNode::Ripples,
        }
    }

    /// Whether the slot is an output of its node.
    pub fn produces(&self) -> (b: bool)
        ensures
            b == is_output(*self),
    {
        match self {
            Slot::ViewEntity => true,
            Slot::MaskOutMask => true,
            Slot::InitOutJfaInit => true,
            Slot::JfaOutJump => true,
            Slot::RipplesOutView => true,
            _ => false,
        }
    }

    /// What the slot carries.
    pub fn carries(&self) -> (t: SlotType)
        ensures
            t == slot_type(*self),
    {
        match self {
            Slot::ViewEntity => SlotType::Entity,
            Slot::MaskInView => SlotType::Entity,
            Slot::JfaInView => SlotType::Entity,
            Slot::RipplesInView => SlotType::Entity,
            Slot::RipplesOutView => SlotType::Entity,
            _ => SlotType::TextureView,
        }
    }
}

/// An edge from an output slot to an input slot.
#[derive(Clone, Copy, Debug, PartialEq, Eq, Structural)]
pub struct SlotEdge {
    pub output: Slot,
    pub input: Slot,
}

/// Why an edge was refused.
#[derive(Clone, Copy, Debug, PartialEq, Eq, Structural)]
pub enum GraphError {
    /// The slot named as the producer is an input.
    InvalidOutputSlot,
    /// The slot named as the consumer is an output.
    InvalidInputSlot,
    /// The two slots carry different kinds of value.
    MismatchedSlots,
    /// The edge does not lead to a later node: it would close a cycle or
    /// feed a node from itself.
    BackwardEdge,
    /// The input already has a producer.
    InputOccupied,
}

/// An edge is acceptable by itself.
pub open spec fn edge_ok(edge: SlotEdge) -> bool {
    &&& is_output(edge.output)
    &&& !is_output(edge.input)
    &&& slot_type(edge.output) == slot_type(edge.input)
    &&& rank(owner(edge.output)) < rank(owner(edge.input))
}

/// Some edge of `edges` feeds `input`.
pub open spec fn occupied(edges: Seq<SlotEdge>, input: Slot) -> bool {
    exists|i: int| 0 <= i < edges.len() && (#[trigger] edges[i]).input == input
}

/// The error that adding `edge` to `edges` gives, if any. The checks come in
/// this order: producer, consumer, kinds, direction, single producer.
pub open spec fn refusal(edges: Seq<SlotEdge>, edge: SlotEdge) -> Option<GraphError> {
    if !is_output(edge.output) {
        Some(GraphError::InvalidOutputSlot)
    } else if is_output(edge.input) {
        Some(GraphError::InvalidInputSlot)
    } else if slot_type(edge.output) != slot_type(edge.input) {
        Some(GraphError::MismatchedSlots)
    } else if rank(owner(edge.output)) >= rank(owner(edge.input)) {
        Some(GraphError::BackwardEdge)
    } else if occupied(edges, edge.input) {
        Some(GraphError::InputOccupied)
    } else {
        None
    }
}

/// Every edge is acceptable and no input has two producers.
pub open spec fn edges_ok(edges: Seq<SlotEdge>) -> bool {
    &&& forall|i: int| 0 <= i < edges.len() ==> edge_ok(#[trigger] edges[i])
    &&& forall|i: int, j: int|
        0 <= i < j < edges.len() ==> (#[trigger] edges[i]).input != (#[trigger] edges[j]).input
}

/// `nodes` is a walk along edges of `edges`: each node feeds the next.
pub open spec fn is_walk(edges: Seq<SlotEdge>, nodes: Seq<PassNode>) -> bool {
    forall|k: int|
        0 <= k < nodes.len() - 1 ==> exists|i: int|
            0 <= i < edges.len() && owner((#[trigger] edges[i]).output) == nodes[k] && owner(
                edges[i].input,
            ) == #[trigger] nodes[k + 1]
}

/// The edges of the effect's graph, in the order in which they are added.
pub open spec fn water_effect_edges() -> Seq<SlotEdge> {
    seq![
        SlotEdge { output: Slot::ViewEntity, input: Slot::MaskInView },
        SlotEdge { output: Slot::MaskOutMask, input: Slot::InitInMask },
        SlotEdge { output: Slot::ViewEntity, input: Slot::JfaInView },
        SlotEdge { output: Slot::InitOutJfaInit, input: Slot::JfaInBase },
        SlotEdge { output: Slot::ViewEntity, input: Slot::RipplesInView },
        SlotEdge { output: Slot::JfaOutJump, input: Slot::RipplesInJfa },
    ]
}

/// The input slots of the four passes.
pub open spec fn pass_inputs() -> Seq<Slot> {
    seq![
        Slot::MaskInView,
        Slot::InitInMask,
        Slot::JfaInView,
        Slot::JfaInBase,
        Slot::RipplesInView,
        Slot::RipplesInJfa,
    ]
}

/// The passes in the order in which they run.
pub open spec fn pass_order() -> Seq<PassNode> {
    seq![PassNode::Mask, PassNode::JfaInit, PassNode::Jfa, PassNode::Ripples]
}

/// A graph of passes.
pub struct PassGraph {
    pub edges: Vec<SlotEdge>,
}

impl PassGraph {
    /// The edges, as a sequence.
    pub open spec fn view(&self) -> Seq<SlotEdge> {
        self.edges@
    }

    /// The graph holds only what `add_slot_edge` accepts.
    pub open spec fn wf(&self) -> bool {
        edges_ok(self@)
    }

    /// Every input of every pass has a producer.
    pub open spec fn complete(&self) -> bool {
        forall|k: int| 0 <= k < pass_inputs().len() ==> occupied(self@, #[trigger] pass_inputs()[k])
    }

    /// A graph without edges.
    pub fn new() -> (g: PassGraph)
        ensures
            g@ == Seq::<SlotEdge>::empty(),
            g.wf(),
    {
        PassGraph { edges: Vec::new() }
    }

    /// Whether some edge feeds `input`.
    pub fn has_producer(&self, input: Slot) -> (b: bool)
        ensures
            b == occupied(self@, input),
    {
        let mut i: usize = 0;
        while i < self.edges.len()
            invariant
                i <= self.edges.len(),
                forall|k: int| 0 <= k < i ==> (#[trigger] self.edges@[k]).input != input,
            decreases self.edges.len() - i,
        {
            if self.edges[i].input == input {
                return true;
            }
            i = i + 1;
        }
        false
    }

    /// Adds the edge from `output` to `input`, or says why it cannot be part
    /// of the graph. A refused edge leaves the graph as it was.
    pub fn add_slot_edge(&mut self, output: Slot, input: Slot) -> (r: Result<(), GraphError>)
        requires
            old(self).wf(),
        ensures
            final(self).wf(),
            match refusal(old(self)@, SlotEdge { output, input }) {
                Some(e) => r == Err::<(), GraphError>(e) && final(self)@ == old(self)@,
                None => r is Ok && final(self)@ == old(self)@.push(SlotEdge { output, input }),
            },
    {
        if !output.produces() {
            return Err(GraphError::InvalidOutputSlot);
        }
        if input.produces() {
            return Err(GraphError::InvalidInputSlot);
        }
        if output.carries() != input.carries() {
            return Err(GraphError::MismatchedSlots);
        }
        if output.node().position() >= input.node().position() {
            return Err(GraphError::BackwardEdge);
        }
        if self.has_producer(input) {
            return Err(GraphError::InputOccupied);
        }
        self.edges.push(SlotEdge { output, input });
        Ok(())
    }

    /// The first input of a pass that no edge feeds, in the order of
    /// [`pass_inputs`], or `None` where the graph is complete.
    pub fn missing_input(&self) -> (m: Option<Slot>)
        ensures
            m is None <==> self.complete(),
            m matches Some(slot) ==> exists|k: int|
                0 <= k < pass_inputs().len() && #[trigger] pass_inputs()[k] == slot && !occupied(
                    self@,
                    slot,
                ) && forall|j: int| 0 <= j < k ==> occupied(self@, #[trigger] pass_inputs()[j]),
    {
        if !self.has_producer(Slot::MaskInView) {
            assert(pass_inputs()[0] == Slot::MaskInView);
            return Some(Slot::MaskInView);
        }
        if !self.has_producer(Slot::InitInMask) {
            assert(pass_inputs()[1] == Slot::InitInMask);
            return Some(Slot::InitInMask);
        }
        if !self.has_producer(Slot::JfaInView) {
            assert(pass_inputs()[2] == Slot::JfaInView);
            return Some(Slot::JfaInView);
        }
        if !self.has_producer(Slot::JfaInBase) {
            assert(pass_inputs()[3] == Slot::JfaInBase);
            return Some(Slot::JfaInBase);
        }
        if !self.has_producer(Slot::RipplesInView) {
            assert(pass_inputs()[4] == Slot::RipplesInView);
            return Some(Slot::RipplesInView);
        }
        if !self.has_producer(Slot::RipplesInJfa) {
            assert(pass_inputs()[5] == Slot::RipplesInJfa);
            return Some(Slot::RipplesInJfa);
        }
        None
    }

    /// The passes in the order in which they run.
    pub fn execution_order(&self) -> (order: Vec<PassNode>)
        ensures
            order@ == pass_order(),
    {
        let mut order: Vec<PassNode> = Vec::new();
        order.push(PassNode::Mask);
        order.push(PassNode::JfaInit);
        order.push(PassNode::Jfa);
        order.push(PassNode::Ripples);
        assert(order@ =~= pass_order());
        order
    }
}

/// Builds the graph of the effect: the view feeds the mask, the rounds and
/// the composite; the mask feeds the seeding; the seeding feeds the rounds;
/// the rounds feed the composite. Every edge is accepted.
pub fn water_effect() -> (r: Result<PassGraph, GraphError>)
    ensures
        r is Ok,
        r->Ok_0@ == water_effect_edges(),
        r->Ok_0.wf(),
        r->Ok_0.complete(),
{
    let mut graph = PassGraph::new();
    let ghost e = water_effect_edges();

    assert(refusal(graph@, e[0]) is None);
    match graph.add_slot_edge(Slot::ViewEntity, Slot::MaskInView) {
        Ok(()) => {},
        Err(err) => {
            return Err(err);
        },
    }
    assert(graph@ =~= e.take(1));
    assert(refusal(graph@, e[1]) is None);
    match graph.add_slot_edge(Slot::MaskOutMask, Slot::InitInMask) {
        Ok(()) => {},
        Err(err) => {
            return Err(err);
        },
    }
    assert(graph@ =~= e.take(2));
    assert(refusal(graph@, e[2]) is None);
    match graph.add_slot_edge(Slot::ViewEntity, Slot::JfaInView) {
        Ok(()) => {},
        Err(err) => {
            return Err(err);
        },
    }
    assert(graph@ =~= e.take(3));
    assert(refusal(graph@, e[3]) is None);
    match graph.add_slot_edge(Slot::InitOutJfaInit, Slot::JfaInBase) {
        Ok(()) => {},
        Err(err) => {
            return Err(err);
        },
    }
    assert(graph@ =~= e.take(4));
    assert(refusal(graph@, e[4]) is None);
    match graph.add_slot_edge(Slot::ViewEntity, Slot::RipplesInView) {
        Ok(()) => {},
        Err(err) => {
            return Err(err);
        },
    }
    assert(graph@ =~= e.take(5));
    assert(refusal(graph@, e[5]) is None);
    match graph.add_slot_edge(Slot::JfaOutJump, Slot::RipplesInJfa) {
        Ok(()) => {},
        Err(err) => {
            return Err(err);
        },
    }
    assert(graph@ =~= e);
    proof {
        lemma_water_effect_complete();
    }
    Ok(graph)
}

/// The effect's edges feed every input of every pass.
pub proof fn lemma_water_effect_complete()
    ensures
        forall|k: int|
            0 <= k < pass_inputs().len() ==> occupied(
                water_effect_edges(),
                #[trigger] pass_inputs()[k],
            ),
        edges_ok(water_effect_edges()),
{
    let e = water_effect_edges();
    assert(e[0].input == pass_inputs()[0]);
    assert(e[1].input == pass_inputs()[1]);
    assert(e[2].input == pass_inputs()[2]);
    assert(e[3].input == pass_inputs()[3]);
    assert(e[4].input == pass_inputs()[4]);
    assert(e[5].input == pass_inputs()[5]);
}

/// Along a walk of at least one edge the rank rises.
pub proof fn lemma_walk_rises(edges: Seq<SlotEdge>, nodes: Seq<PassNode>)
    requires
        edges_ok(edges),
        is_walk(edges, nodes),
        nodes.len() >= 2,
    ensures
        rank(nodes[0]) < rank(nodes[nodes.len() - 1]),
    decreases nodes.len(),
{
    let n = nodes.len() as int;
    let k = n - 2;
    assert(rank(nodes[k]) < rank(nodes[k + 1])) by {
        let i = choose|i: int|
            0 <= i < edges.len() && owner((#[trigger] edges[i]).output) == nodes[k] && owner(
                edges[i].input,
            ) == nodes[k + 1];
        assert(edge_ok(edges[i]));
    }
    if n > 2 {
        let shorter = nodes.take(n - 1);
        assert(is_walk(edges, shorter)) by {
            assert forall|j: int| 0 <= j < shorter.len() - 1 implies exists|i: int|
                0 <= i < edges.len() && owner((#[trigger] edges[i]).output) == shorter[j] && owner(
                    edges[i].input,
                ) == #[trigger] shorter[j + 1] by {
                assert(shorter[j] == nodes[j]);
                assert(shorter[j + 1] == nodes[j + 1]);
                let i = choose|i: int|
                    0 <= i < edges.len() && owner((#[trigger] edges[i]).output) == nodes[j]
                        && owner(edges[i].input) == nodes[j + 1];
                assert(owner(edges[i].output) == shorter[j]);
            }
        }
        lemma_walk_rises(edges, shorter);
        assert(shorter[0] == nodes[0]);
        assert(shorter[shorter.len() - 1] == nodes[k]);
    }
}

/// A well-formed graph is acyclic: no walk along its edges returns to the
/// node it started from.
pub proof fn lemma_acyclic(graph: PassGraph, nodes: Seq<PassNode>)
    requires
        graph.wf(),
        is_walk(graph@, nodes),
        nodes.len() >= 2,
    ensures
        nodes[0] != nodes[nodes.len() - 1],
{
    lemma_walk_rises(graph@, nodes);
}

/// In a well-formed graph every input has at most one producer.
pub proof fn lemma_single_producer(graph: PassGraph, i: int, j: int)
    requires
        graph.wf(),
        0 <= i < graph@.len(),
        0 <= j < graph@.len(),
        graph@[i].input == graph@[j].input,
    ensures
        i == j,
{
}

/// Every edge of a well-formed graph leads from a node to one that runs
/// later, so running the passes in the order of [`pass_order`] gives each
/// pass its inputs before it starts.
pub proof fn lemma_edges_follow_order(graph: PassGraph, i: int)
    requires
        graph.wf(),
        0 <= i < graph@.len(),
    ensures
        rank(owner(graph@[i].output)) < rank(owner(graph@[i].input)),
        forall|a: int, b: int|
            0 <= a < b < pass_order().len() ==> rank(#[trigger] pass_order()[a]) < rank(
                #[trigger] pass_order()[b],
            ),
{
    assert(edge_ok(graph@[i]));
}

} // verus!
