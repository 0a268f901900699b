//! The model of a graph: what it holds, when that is consistent, and what
//! follows from consistency.

use vstd::prelude::*;
use crate::key::{NodeId, SlotId};
use crate::node::{DataType, Input, InputParamKind, NodeView, Output, Slot};

verus! {

/// Why `connect` declined a pair of slots.
#[derive(Clone, Copy, Debug, PartialEq, Eq, Structural)]
pub enum ConnectError {
    /// One of the two keys is not the key of a slot.
    InvalidEndpoint,
    /// The two slots have different declared types.
    TypeMismatch,
    /// The two slots belong to the same node.
    SelfLoop,
    /// The pair is not an output slot followed by an input slot.
    DirectionError,
}

/// What a graph holds: node records and slot records by key, and for each
/// connected input slot the output slot that feeds it.
#[verifier::ext_equal]
pub ghost struct GraphView<NodeData, ValueType> {
    pub nodes: Map<u64, NodeView<NodeData>>,
    pub slots: Map<u64, Slot<ValueType>>,
    pub connections: Map<u64, u64>,
}

impl<NodeData, ValueType> GraphView<NodeData, ValueType> {
    /// `s` is the key of an input slot.
    pub open spec fn is_input(self, s: u64) -> bool {
        self.slots.dom().contains(s) && self.slots[s] is Input
    }

    /// `s` is the key of an output slot.
    pub open spec fn is_output(self, s: u64) -> bool {
        self.slots.dom().contains(s) && self.slots[s] is Output
    }

    /// Slot `s` exists and belongs to node `n`.
    pub open spec fn owns(self, n: u64, s: u64) -> bool {
        self.slots.dom().contains(s) && self.slots[s].node()@ == n
    }

    /// The node under key `k` carries that key, and each slot it lists exists,
    /// has the listed direction and names the node as its owner.
    pub open spec fn node_is_sound(self, k: u64) -> bool {
        let n = self.nodes[k];
        &&& n.id@ == k
        &&& forall|j: int|
            0 <= j < n.inputs.len() ==> self.is_input(#[trigger] n.inputs[j].1@) && self.owns(
                k,
                n.inputs[j].1@,
            )
        &&& forall|j: int|
            0 <= j < n.outputs.len() ==> self.is_output(#[trigger] n.outputs[j].1@) && self.owns(
                k,
                n.outputs[j].1@,
            )
    }

    /// The slot under key `s` carries that key, its owner exists, and the
    /// owner lists it on the side of its direction.
    pub open spec fn slot_is_sound(self, s: u64) -> bool {
        let slot = self.slots[s];
        let owner = self.nodes[slot.node()@];
        &&& slot.id()@ == s
        &&& self.nodes.dom().contains(slot.node()@)
        &&& slot is Input ==> exists|j: int|
            0 <= j < owner.inputs.len() && #[trigger] owner.inputs[j].1@ == s
        &&& slot is Output ==> exists|j: int|
            0 <= j < owner.outputs.len() && #[trigger] owner.outputs[j].1@ == s
    }

    /// The connection into `i` runs from an output slot to an input slot of
    /// the same type on another node.
    pub open spec fn connection_is_sound(self, i: u64) -> bool {
        let o = self.connections[i];
        &&& self.is_input(i)
        &&& self.is_output(o)
        &&& self.slots[i].typ() == self.slots[o].typ()
        &&& self.slots[i].node() != self.slots[o].node()
    }

    /// What `connect` answers for a pair of keys: the first of the four
    /// refusals that applies, or success.
    pub open spec fn connect_outcome(self, output: SlotId, input: SlotId) -> Result<
        (),
        ConnectError,
    > {
        if !self.slots.dom().contains(output@) || !self.slots.dom().contains(input@) {
            Err(ConnectError::InvalidEndpoint)
        } else if self.slots[output@].typ() != self.slots[input@].typ() {
            Err(ConnectError::TypeMismatch)
        } else if self.slots[output@].node() == self.slots[input@].node() {
            Err(ConnectError::SelfLoop)
        } else if !(self.slots[output@] is Output && self.slots[input@] is Input) {
            Err(ConnectError::DirectionError)
        } else {
            Ok(())
        }
    }

    /// The output slot that feeds `input`, if it is connected.
    pub open spec fn connection_of(self, input: SlotId) -> Option<SlotId> {
        if self.connections.dom().contains(input@) {
            Some(SlotId(self.connections[input@]))
        } else {
            None
        }
    }

    /// The graph with a new node that has no slots.
    pub open spec fn with_node(self, id: NodeId, label: Seq<char>, data: NodeData) -> Self {
        GraphView {
            nodes: self.nodes.insert(
                id@,
                NodeView { id, label, inputs: seq![], outputs: seq![], data },
            ),
            ..self
        }
    }

    /// The graph with a new input slot at the end of a node's inputs.
    pub open spec fn with_input_slot(
        self,
        node: NodeId,
        id: SlotId,
        name: Seq<char>,
        typ: DataType,
        kind: InputParamKind,
        value: ValueType,
    ) -> Self {
        GraphView {
            nodes: self.nodes.insert(
                node@,
                NodeView { inputs: self.nodes[node@].inputs.push((name, id)), ..self.nodes[node@] },
            ),
            slots: self.slots.insert(id@, Slot::Input(Input { id, typ, kind, value, node })),
            connections: self.connections,
        }
    }

    /// The graph with a new output slot at the end of a node's outputs.
    pub open spec fn with_output_slot(
        self,
        node: NodeId,
        id: SlotId,
        name: Seq<char>,
        typ: DataType,
    ) -> Self {
        GraphView {
            nodes: self.nodes.insert(
                node@,
                NodeView {
                    outputs: self.nodes[node@].outputs.push((name, id)),
                    ..self.nodes[node@]
                },
            ),
            slots: self.slots.insert(id@, Slot::Output(Output { id, node, typ })),
            connections: self.connections,
        }
    }

    /// The graph after `connect`: with the connection in place of whatever
    /// fed the input before, if the pair is accepted, and unchanged if not.
    pub open spec fn with_connection(self, output: SlotId, input: SlotId) -> Self {
        if self.connect_outcome(output, input) is Ok {
            GraphView { connections: self.connections.insert(input@, output@), ..self }
        } else {
            self
        }
    }

    /// The graph without the connection into `input`.
    pub open spec fn without_connection(self, input: SlotId) -> Self {
        GraphView { connections: self.connections.remove(input@), ..self }
    }

    /// The graph with another payload in node `n`.
    pub open spec fn with_payload(self, n: u64, data: NodeData) -> Self {
        GraphView { nodes: self.nodes.insert(n, NodeView { data, ..self.nodes[n] }), ..self }
    }

    /// The graph with another inline constant in input slot `s`.
    pub open spec fn with_constant(self, s: u64, value: ValueType) -> Self {
        GraphView {
            slots: self.slots.insert(
                s,
                Slot::Input(Input { value, ..self.slots[s]->Input_0 }),
            ),
            ..self
        }
    }

    /// The connection into `i` touches a slot of node `n`, at either end.
    pub open spec fn connection_touches(self, n: u64, i: u64) -> bool {
        self.owns(n, i) || self.owns(n, self.connections[i])
    }

    /// The graph without node `n`: the node is gone, and with it every slot it
    /// owned and every connection that touched one of those slots.
    pub open spec fn without_node(self, n: u64) -> Self {
        GraphView {
            nodes: self.nodes.remove(n),
            slots: self.slots.restrict(Set::new(|s: u64| !self.owns(n, s))),
            connections: self.connections.restrict(
                Set::new(|i: u64| !self.connection_touches(n, i)),
            ),
        }
    }

    /// No record refers to anything that is not there.
    pub open spec fn consistent(self) -> bool {
        &&& forall|k: u64| #[trigger] self.nodes.dom().contains(k) ==> self.node_is_sound(k)
        &&& forall|s: u64| #[trigger] self.slots.dom().contains(s) ==> self.slot_is_sound(s)
        &&& forall|i: u64| #[trigger]
            self.connections.dom().contains(i) ==> self.connection_is_sound(i)
    }
}

/// Adding a node under a key that is not in use keeps the graph consistent.
pub proof fn lemma_with_node_consistent<NodeData, ValueType>(
    g: GraphView<NodeData, ValueType>,
    id: NodeId,
    label: Seq<char>,
    data: NodeData,
)
    requires
        g.consistent(),
        !g.nodes.dom().contains(id@),
    ensures
        g.with_node(id, label, data).consistent(),
{
    let h = g.with_node(id, label, data);
    assert forall|k: u64| #[trigger] h.nodes.dom().contains(k) implies h.node_is_sound(k) by {
        if k != id@ {
            assert(g.node_is_sound(k));
        }
    }
    assert forall|s: u64| #[trigger] h.slots.dom().contains(s) implies h.slot_is_sound(s) by {
        assert(g.slot_is_sound(s));
    }
    assert forall|i: u64| #[trigger] h.connections.dom().contains(i) implies h.connection_is_sound(
        i,
    ) by {
        assert(g.connection_is_sound(i));
    }
}

/// Adding an input slot under a key that is not in use, to a node that
/// exists, keeps the graph consistent.
pub proof fn lemma_with_input_slot_consistent<NodeData, ValueType>(
    g: GraphView<NodeData, ValueType>,
    node: NodeId,
    id: SlotId,
    name: Seq<char>,
    typ: DataType,
    kind: InputParamKind,
    value: ValueType,
)
    requires
        g.consistent(),
        g.nodes.dom().contains(node@),
        !g.slots.dom().contains(id@),
    ensures
        g.with_input_slot(node, id, name, typ, kind, value).consistent(),
{
    let h = g.with_input_slot(node, id, name, typ, kind, value);
    assert(h.nodes.dom() =~= g.nodes.dom());
    assert(h.slots.dom() =~= g.slots.dom().insert(id@));
    lemma_slot_added(g, h, node, id, true);
}

/// Adding an output slot under a key that is not in use, to a node that
/// exists, keeps the graph consistent.
pub proof fn lemma_with_output_slot_consistent<NodeData, ValueType>(
    g: GraphView<NodeData, ValueType>,
    node: NodeId,
    id: SlotId,
    name: Seq<char>,
    typ: DataType,
)
    requires
        g.consistent(),
        g.nodes.dom().contains(node@),
        !g.slots.dom().contains(id@),
    ensures
        g.with_output_slot(node, id, name, typ).consistent(),
{
    let h = g.with_output_slot(node, id, name, typ);
    assert(h.nodes.dom() =~= g.nodes.dom());
    assert(h.slots.dom() =~= g.slots.dom().insert(id@));
    lemma_slot_added(g, h, node, id, false);
}

/// Adding a fresh slot to an existing node, on the side of its direction,
/// keeps the records consistent.
proof fn lemma_slot_added<NodeData, ValueType>(
    before: GraphView<NodeData, ValueType>,
    after: GraphView<NodeData, ValueType>,
    node: NodeId,
    id: SlotId,
    input: bool,
)
    requires
        before.consistent(),
        before.nodes.dom().contains(node@),
        !before.slots.dom().contains(id@),
        after.connections == before.connections,
        after.slots.dom() == before.slots.dom().insert(id@),
        forall|s: u64| before.slots.dom().contains(s) ==> after.slots[s] == before.slots[s],
        after.slots[id@].id() == id,
        after.slots[id@].node() == node,
        input ==> after.slots[id@] is Input,
        !input ==> after.slots[id@] is Output,
        after.nodes.dom() == before.nodes.dom(),
        forall|k: u64|
            before.nodes.dom().contains(k) && k != node@ ==> after.nodes[k] == before.nodes[k],
        after.nodes[node@].id == before.nodes[node@].id,
        input ==> after.nodes[node@].inputs == before.nodes[node@].inputs.push(
            (after.nodes[node@].inputs.last().0, id),
        ) && after.nodes[node@].outputs == before.nodes[node@].outputs,
        !input ==> after.nodes[node@].outputs == before.nodes[node@].outputs.push(
            (after.nodes[node@].outputs.last().0, id),
        ) && after.nodes[node@].inputs == before.nodes[node@].inputs,
    ensures
        after.consistent(),
{
    assert forall|k: u64| #[trigger] after.nodes.dom().contains(k) implies after.node_is_sound(
        k,
    ) by {
        assert(before.node_is_sound(k));
        let n = after.nodes[k];
        let m = before.nodes[k];
        assert forall|j: int| 0 <= j < n.inputs.len() implies after.is_input(
            #[trigger] n.inputs[j].1@,
        ) && after.owns(k, n.inputs[j].1@) by {
            if j < m.inputs.len() {
                assert(before.is_input(m.inputs[j].1@));
            }
        }
        assert forall|j: int| 0 <= j < n.outputs.len() implies after.is_output(
            #[trigger] n.outputs[j].1@,
        ) && after.owns(k, n.outputs[j].1@) by {
            if j < m.outputs.len() {
                assert(before.is_output(m.outputs[j].1@));
            }
        }
    }
    assert forall|s: u64| #[trigger] after.slots.dom().contains(s) implies after.slot_is_sound(
        s,
    ) by {
        if s == id@ {
            let owner = after.nodes[node@];
            if input {
                assert(owner.inputs[owner.inputs.len() - 1].1@ == s);
            } else {
                assert(owner.outputs[owner.outputs.len() - 1].1@ == s);
            }
        } else {
            assert(before.slot_is_sound(s));
            let slot = before.slots[s];
            let owner = before.nodes[slot.node()@];
            if slot is Input {
                let j = choose|j: int|
                    0 <= j < owner.inputs.len() && #[trigger] owner.inputs[j].1@ == s;
                assert(after.nodes[slot.node()@].inputs[j].1@ == s);
            } else {
                let j = choose|j: int|
                    0 <= j < owner.outputs.len() && #[trigger] owner.outputs[j].1@ == s;
                assert(after.nodes[slot.node()@].outputs[j].1@ == s);
            }
        }
    }
    assert forall|i: u64| #[trigger]
        after.connections.dom().contains(i) implies after.connection_is_sound(i) by {
        assert(before.connection_is_sound(i));
    }
}

/// `connect` keeps the graph consistent, whether it accepts the pair or not.
pub proof fn lemma_with_connection_consistent<NodeData, ValueType>(
    g: GraphView<NodeData, ValueType>,
    output: SlotId,
    input: SlotId,
)
    requires
        g.consistent(),
    ensures
        g.with_connection(output, input).consistent(),
{
    let h = g.with_connection(output, input);
    assert forall|k: u64| #[trigger] h.nodes.dom().contains(k) implies h.node_is_sound(k) by {
        assert(g.node_is_sound(k));
    }
    assert forall|s: u64| #[trigger] h.slots.dom().contains(s) implies h.slot_is_sound(s) by {
        assert(g.slot_is_sound(s));
    }
    assert forall|i: u64| #[trigger] h.connections.dom().contains(i) implies h.connection_is_sound(
        i,
    ) by {
        if !(g.connect_outcome(output, input) is Ok && i == input@) {
            assert(g.connection_is_sound(i));
        }
    }
}

/// Taking a connection off keeps the graph consistent.
pub proof fn lemma_without_connection_consistent<NodeData, ValueType>(
    g: GraphView<NodeData, ValueType>,
    input: SlotId,
)
    requires
        g.consistent(),
    ensures
        g.without_connection(input).consistent(),
{
    let h = g.without_connection(input);
    assert forall|k: u64| #[trigger] h.nodes.dom().contains(k) implies h.node_is_sound(k) by {
        assert(g.node_is_sound(k));
    }
    assert forall|s: u64| #[trigger] h.slots.dom().contains(s) implies h.slot_is_sound(s) by {
        assert(g.slot_is_sound(s));
    }
    assert forall|i: u64| #[trigger] h.connections.dom().contains(i) implies h.connection_is_sound(
        i,
    ) by {
        assert(g.connection_is_sound(i));
    }
}

/// Removing a node from a consistent graph leaves a consistent graph.
pub proof fn lemma_without_node_consistent<NodeData, ValueType>(
    g: GraphView<NodeData, ValueType>,
    n: u64,
)
    requires
        g.consistent(),
    ensures
        g.without_node(n).consistent(),
{
    let h = g.without_node(n);
    assert forall|k: u64| #[trigger] h.nodes.dom().contains(k) implies h.node_is_sound(k) by {
        assert(g.node_is_sound(k));
        let node = g.nodes[k];
        assert forall|j: int| 0 <= j < node.inputs.len() implies h.is_input(
            #[trigger] node.inputs[j].1@,
        ) && h.owns(k, node.inputs[j].1@) by {
            assert(g.is_input(node.inputs[j].1@));
        }
        assert forall|j: int| 0 <= j < node.outputs.len() implies h.is_output(
            #[trigger] node.outputs[j].1@,
        ) && h.owns(k, node.outputs[j].1@) by {
            assert(g.is_output(node.outputs[j].1@));
        }
    }
    assert forall|s: u64| #[trigger] h.slots.dom().contains(s) implies h.slot_is_sound(s) by {
        assert(g.slots.dom().contains(s));
        assert(g.slot_is_sound(s));
        let slot = g.slots[s];
        let owner = g.nodes[slot.node()@];
        assert(h.slots[s] == slot);
        assert(h.nodes.dom().contains(slot.node()@));
        assert(h.nodes[slot.node()@] == owner);
        if slot is Input {
            let j = choose|j: int| 0 <= j < owner.inputs.len() && #[trigger] owner.inputs[j].1@ == s;
            assert(owner.inputs[j].1@ == s);
        } else {
            let j = choose|j: int|
                0 <= j < owner.outputs.len() && #[trigger] owner.outputs[j].1@ == s;
            assert(owner.outputs[j].1@ == s);
        }
    }
    assert forall|i: u64| #[trigger] h.connections.dom().contains(i) implies h.connection_is_sound(
        i,
    ) by {
        assert(g.connection_is_sound(i));
    }
}

/// A change of a node's payload keeps the graph consistent.
pub proof fn lemma_payload_change<NodeData, ValueType>(
    g: GraphView<NodeData, ValueType>,
    n: u64,
    data: NodeData,
)
    requires
        g.consistent(),
        g.nodes.dom().contains(n),
    ensures
        g.with_payload(n, data).consistent(),
{
    let h = g.with_payload(n, data);
    assert forall|k: u64| #[trigger] h.nodes.dom().contains(k) implies h.node_is_sound(k) by {
        assert(g.node_is_sound(k));
    }
    assert forall|s: u64| #[trigger] h.slots.dom().contains(s) implies h.slot_is_sound(s) by {
        assert(g.slot_is_sound(s));
        let slot = g.slots[s];
        let owner = g.nodes[slot.node()@];
        if slot is Input {
            let j = choose|j: int| 0 <= j < owner.inputs.len() && #[trigger] owner.inputs[j].1@ == s;
            assert(h.nodes[slot.node()@].inputs[j].1@ == s);
        } else {
            let j = choose|j: int|
                0 <= j < owner.outputs.len() && #[trigger] owner.outputs[j].1@ == s;
            assert(h.nodes[slot.node()@].outputs[j].1@ == s);
        }
    }
    assert forall|i: u64| #[trigger] h.connections.dom().contains(i) implies h.connection_is_sound(
        i,
    ) by {
        assert(g.connection_is_sound(i));
    }
}

/// A change of an input slot's inline constant keeps the graph consistent.
pub proof fn lemma_constant_change<NodeData, ValueType>(
    g: GraphView<NodeData, ValueType>,
    s: u64,
    value: ValueType,
)
    requires
        g.consistent(),
        g.is_input(s),
    ensures
        g.with_constant(s, value).consistent(),
{
    let h = g.with_constant(s, value);
    assert forall|k: u64| #[trigger] h.nodes.dom().contains(k) implies h.node_is_sound(k) by {
        assert(g.node_is_sound(k));
        let node = g.nodes[k];
        assert forall|j: int| 0 <= j < node.inputs.len() implies h.is_input(
            #[trigger] node.inputs[j].1@,
        ) && h.owns(k, node.inputs[j].1@) by {
            assert(g.is_input(node.inputs[j].1@));
        }
        assert forall|j: int| 0 <= j < node.outputs.len() implies h.is_output(
            #[trigger] node.outputs[j].1@,
        ) && h.owns(k, node.outputs[j].1@) by {
            assert(g.is_output(node.outputs[j].1@));
        }
    }
    assert forall|t: u64| #[trigger] h.slots.dom().contains(t) implies h.slot_is_sound(t) by {
        assert(g.slots.dom().contains(t));
        assert(g.slot_is_sound(t));
        let slot = g.slots[t];
        let owner = g.nodes[slot.node()@];
        assert(h.slots[t].node() == slot.node());
        assert(h.slots[t].id() == slot.id());
        if slot is Input {
            let j = choose|j: int| 0 <= j < owner.inputs.len() && #[trigger] owner.inputs[j].1@ == t;
            assert(owner.inputs[j].1@ == t);
        } else {
            let j = choose|j: int|
                0 <= j < owner.outputs.len() && #[trigger] owner.outputs[j].1@ == t;
            assert(owner.outputs[j].1@ == t);
        }
    }
    assert forall|i: u64| #[trigger] h.connections.dom().contains(i) implies h.connection_is_sound(
        i,
    ) by {
        assert(g.connection_is_sound(i));
    }
}

/// An input slot is fed by at most one output slot.
pub proof fn lemma_one_source_per_input<NodeData, ValueType>(
    g: GraphView<NodeData, ValueType>,
    input: SlotId,
    a: SlotId,
    b: SlotId,
)
    requires
        g.connection_of(input) == Some(a),
        g.connection_of(input) == Some(b),
    ensures
        a == b,
{
}

/// In a consistent graph every connection runs from an output slot that
/// exists to an input slot that exists, of the same type, on another node.
pub proof fn lemma_connection_endpoints<NodeData, ValueType>(
    g: GraphView<NodeData, ValueType>,
    input: SlotId,
    output: SlotId,
)
    requires
        g.consistent(),
        g.connection_of(input) == Some(output),
    ensures
        g.is_input(input@),
        g.is_output(output@),
        g.slots[input@].typ() == g.slots[output@].typ(),
        g.slots[input@].node() != g.slots[output@].node(),
{
    assert(g.connection_is_sound(input@));
}

/// Once a node is removed, nothing of it is found: not the node, not a slot
/// it owned, and no connection into or out of such a slot.
pub proof fn lemma_removed_node_leaves_nothing<NodeData, ValueType>(
    g: GraphView<NodeData, ValueType>,
    n: NodeId,
    s: SlotId,
)
    requires
        g.consistent(),
        g.owns(n@, s@),
    ensures
        !g.without_node(n@).nodes.dom().contains(n@),
        !g.without_node(n@).slots.dom().contains(s@),
        g.without_node(n@).connection_of(s).is_none(),
        forall|i: SlotId| g.without_node(n@).connection_of(i) != Some(s),
{
    let h = g.without_node(n@);
    assert forall|i: SlotId| h.connection_of(i) != Some(s) by {
        if h.connections.dom().contains(i@) {
            assert(!g.connection_touches(n@, i@));
        }
    }
}

/// Two slots of different types are never connected: `connect` declines
/// them, whatever else holds of them.
pub proof fn lemma_type_mismatch_declined<NodeData, ValueType>(
    g: GraphView<NodeData, ValueType>,
    output: SlotId,
    input: SlotId,
)
    requires
        g.slots.dom().contains(output@),
        g.slots.dom().contains(input@),
        g.slots[output@].typ() != g.slots[input@].typ(),
    ensures
        g.connect_outcome(output, input) == Err::<(), ConnectError>(ConnectError::TypeMismatch),
{
}

/// Two slots of one node are never connected, whatever their types.
pub proof fn lemma_self_loop_declined<NodeData, ValueType>(
    g: GraphView<NodeData, ValueType>,
    output: SlotId,
    input: SlotId,
)
    requires
        g.slots.dom().contains(output@),
        g.slots.dom().contains(input@),
        g.slots[output@].node() == g.slots[input@].node(),
    ensures
        g.connect_outcome(output, input) is Err,
{
}

/// One edit of a graph, with the key that a new node or slot comes under.
pub ghost enum GraphEdit<NodeData, ValueType> {
    AddNode { id: NodeId, label: Seq<char>, data: NodeData },
    AddInputSlot {
        node: NodeId,
        id: SlotId,
        name: Seq<char>,
        typ: DataType,
        kind: InputParamKind,
        value: ValueType,
    },
    AddOutputSlot { node: NodeId, id: SlotId, name: Seq<char>, typ: DataType },
    Connect { output: SlotId, input: SlotId },
    Disconnect { input: SlotId },
    RemoveNode { node: NodeId },
}

impl<NodeData, ValueType> GraphView<NodeData, ValueType> {
    /// The graph without anything in it.
    pub open spec fn empty() -> Self {
        GraphView { nodes: Map::empty(), slots: Map::empty(), connections: Map::empty() }
    }

    /// Whether an edit can be made: a node or a slot is added under a key
    /// that is not in use, and a slot is added to a node that exists. Every
    /// other edit can always be made.
    pub open spec fn admits(self, edit: GraphEdit<NodeData, ValueType>) -> bool {
        match edit {
            GraphEdit::AddNode { id, .. } => !self.nodes.dom().contains(id@),
            GraphEdit::AddInputSlot { node, id, .. } => self.nodes.dom().contains(node@)
                && !self.slots.dom().contains(id@),
            GraphEdit::AddOutputSlot { node, id, .. } => self.nodes.dom().contains(node@)
                && !self.slots.dom().contains(id@),
            _ => true,
        }
    }

    /// The graph after an edit.
    pub open spec fn edited(self, edit: GraphEdit<NodeData, ValueType>) -> Self {
        match edit {
            GraphEdit::AddNode { id, label, data } => self.with_node(id, label, data),
            GraphEdit::AddInputSlot { node, id, name, typ, kind, value } => self.with_input_slot(
                node,
                id,
                name,
                typ,
                kind,
                value,
            ),
            GraphEdit::AddOutputSlot { node, id, name, typ } => self.with_output_slot(
                node,
                id,
                name,
                typ,
            ),
            GraphEdit::Connect { output, input } => self.with_connection(output, input),
            GraphEdit::Disconnect { input } => self.without_connection(input),
            GraphEdit::RemoveNode { node } => {
                if self.nodes.dom().contains(node@) {
                    self.without_node(node@)
                } else {
                    self
                }
            },
        }
    }

    /// The graph after a sequence of edits.
    pub open spec fn edited_all(self, edits: Seq<GraphEdit<NodeData, ValueType>>) -> Self
        decreases edits.len(),
    {
        if edits.len() == 0 {
            self
        } else {
            self.edited_all(edits.drop_last()).edited(edits.last())
        }
    }

    /// Whether each edit of a sequence can be made when its turn comes.
    pub open spec fn admits_all(self, edits: Seq<GraphEdit<NodeData, ValueType>>) -> bool
        decreases edits.len(),
    {
        edits.len() == 0 || (self.admits_all(edits.drop_last()) && self.edited_all(
            edits.drop_last(),
        ).admits(edits.last()))
    }
}

/// Whatever edits are made to a consistent graph, in whatever order, the
/// graph stays consistent: every input slot is fed by at most one output
/// slot, which exists, has the input's type and belongs to another node, and
/// nothing refers to a node or a slot that is gone.
pub proof fn lemma_edits_keep_consistent<NodeData, ValueType>(
    g: GraphView<NodeData, ValueType>,
    edits: Seq<GraphEdit<NodeData, ValueType>>,
)
    requires
        g.consistent(),
        g.admits_all(edits),
    ensures
        g.edited_all(edits).consistent(),
    decreases edits.len(),
{
    if edits.len() > 0 {
        lemma_edits_keep_consistent(g, edits.drop_last());
        let h = g.edited_all(edits.drop_last());
        match edits.last() {
            GraphEdit::AddNode { id, label, data } => {
                lemma_with_node_consistent(h, id, label, data);
            },
            GraphEdit::AddInputSlot { node, id, name, typ, kind, value } => {
                lemma_with_input_slot_consistent(h, node, id, name, typ, kind, value);
            },
            GraphEdit::AddOutputSlot { node, id, name, typ } => {
                lemma_with_output_slot_consistent(h, node, id, name, typ);
            },
            GraphEdit::Connect { output, input } => {
                lemma_with_connection_consistent(h, output, input);
            },
            GraphEdit::Disconnect { input } => {
                lemma_without_connection_consistent(h, input);
            },
            GraphEdit::RemoveNode { node } => {
                lemma_without_node_consistent(h, node@);
            },
        }
    }
}

/// The empty graph is consistent.
pub proof fn lemma_empty_consistent<NodeData, ValueType>()
    ensures
        (GraphView::<NodeData, ValueType>::empty()).consistent(),
{
}

} // verus!
