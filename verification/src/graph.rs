//! The graph: nodes, their slots, and the connections between slots.

use vstd::prelude::*;
use crate::arena::{Arena, ARENA_LIMIT};
use crate::key::{is_regular_key, key_index, key_is_regular, NodeId, SlotId};
use crate::model::{
    lemma_constant_change, lemma_payload_change, lemma_with_connection_consistent,
    lemma_with_input_slot_consistent, lemma_with_node_consistent,
    lemma_with_output_slot_consistent, lemma_without_connection_consistent,
    lemma_without_node_consistent, ConnectError, GraphView,
};
use crate::node::{DataType, Input, InputParamKind, Node, NodeView, Output, Slot};
use crate::store::{
    side_table_entries, side_table_get, side_table_insert, side_table_new, side_table_pairs,
    side_table_remove, SideTable,
};

verus! {

/// Arena-backed storage of nodes and slots, with the connection table.
pub struct Graph<NodeData, ValueType> {
    nodes: Arena<Node<NodeData>>,
    slots: Arena<Slot<ValueType>>,
    connections: SideTable,
}

impl<NodeData, ValueType> View for Graph<NodeData, ValueType> {
    type V = GraphView<NodeData, ValueType>;

    closed spec fn view(&self) -> GraphView<NodeData, ValueType> {
        assembled(self.nodes@, self.slots@, side_table_entries(self.connections))
    }
}

impl<NodeData, ValueType> Graph<NodeData, ValueType> {
    /// The storage is in order and the records are consistent.
    pub closed spec fn wf(&self) -> bool {
        &&& self.nodes.wf()
        &&& self.slots.wf()
        &&& self@.consistent()
    }

    /// What `wf` says of the view.
    pub proof fn lemma_consistent(&self)
        requires
            self.wf(),
        ensures
            self@.consistent(),
            self@.nodes.dom().finite(),
            self@.slots.dom().finite(),
            self@.nodes.dom().len() <= ARENA_LIMIT,
            self@.slots.dom().len() <= ARENA_LIMIT,
    {
        self.nodes.lemma_keys();
        self.slots.lemma_keys();
        assert(self@.nodes.dom() =~= self.nodes@.dom());
    }

    /// What `wf` says of the node keys: each is regular, and no two are on
    /// one position.
    pub proof fn lemma_node_keys(&self)
        requires
            self.wf(),
        ensures
            forall|k: u64| #[trigger] self@.nodes.dom().contains(k) ==> key_is_regular(k),
            forall|k1: u64, k2: u64|
                #![trigger self@.nodes.dom().contains(k1), self@.nodes.dom().contains(k2)]
                self@.nodes.dom().contains(k1) && self@.nodes.dom().contains(k2) && key_index(k1)
                    == key_index(k2) ==> k1 == k2,
    {
        self.nodes.lemma_keys();
        assert(self@.nodes.dom() =~= self.nodes@.dom());
    }

    /// A graph without nodes.
    pub fn new() -> (g: Self)
        ensures
            g.wf(),
            g@ == (GraphView::<NodeData, ValueType>::empty()),
    {
        let g = Graph { nodes: Arena::new(), slots: Arena::new(), connections: side_table_new() };
        assert(g@.nodes =~= Map::<u64, NodeView<NodeData>>::empty());
        assert(g@ =~= GraphView::<NodeData, ValueType>::empty());
        g
    }

    /// Does nothing: a graph has no distinguished node.
    pub fn set_root(&mut self, node: NodeId)
        ensures
            *final(self) == *old(self),
    {
    }

    /// The number of nodes.
    pub fn node_count(&self) -> (n: usize)
        requires
            self.wf(),
        ensures
            n == self@.nodes.dom().len(),
    {
        proof {
            self.lemma_consistent();
            assert(self@.nodes.dom() =~= self.nodes@.dom());
        }
        self.nodes.len()
    }

    /// The number of slots, inputs and outputs together.
    pub fn slot_count(&self) -> (n: usize)
        requires
            self.wf(),
        ensures
            n == self@.slots.dom().len(),
    {
        self.slots.len()
    }

    /// Adds a node without slots and returns its key.
    pub fn add_node(&mut self, label: String, data: NodeData) -> (id: NodeId)
        requires
            old(self).wf(),
            old(self)@.nodes.dom().len() < ARENA_LIMIT,
        ensures
            final(self).wf(),
            !old(self)@.nodes.dom().contains(id@),
            final(self)@ == old(self)@.with_node(id, label@, data),
    {
        proof {
            self.lemma_consistent();
            self.nodes.lemma_keys();
            assert(self@.nodes.dom() =~= self.nodes@.dom());
        }
        let ghost before = self@;
        let node = Node { id: NodeId(0), label, inputs: Vec::new(), outputs: Vec::new(), data };
        let key = self.nodes.insert(node);
        let id = NodeId(key);
        let record = self.nodes.get_mut(key);
        record.id = id;
        proof {
            let after = before.with_node(id, label@, data);
            assert(self.nodes@[key]@.inputs =~= after.nodes[key].inputs);
            assert(self.nodes@[key]@.outputs =~= after.nodes[key].outputs);
            assert(self@.nodes =~= after.nodes);
            lemma_with_node_consistent(before, id, label@, data);
        }
        id
    }

    /// Appends an input slot to a node's inputs and returns the slot's key.
    pub fn add_input_slot(
        &mut self,
        node: NodeId,
        name: String,
        typ: DataType,
        kind: InputParamKind,
        value: ValueType,
    ) -> (id: SlotId)
        requires
            old(self).wf(),
            old(self)@.nodes.dom().contains(node@),
            old(self)@.slots.dom().len() < ARENA_LIMIT,
        ensures
            final(self).wf(),
            !old(self)@.slots.dom().contains(id@),
            final(self)@ == old(self)@.with_input_slot(node, id, name@, typ, kind, value),
    {
        proof {
            self.lemma_consistent();
            self.slots.lemma_keys();
            assert(self@.nodes.dom() =~= self.nodes@.dom());
        }
        let ghost before = self@;
        let key = self.slots.insert(Slot::Input(Input { id: SlotId(0), typ, kind, value, node }));
        let id = SlotId(key);
        match self.slots.get_mut(key) {
            Slot::Input(input) => {
                input.id = id;
            },
            Slot::Output(_) => {},
        }
        let ghost name_view = name@;
        let record = self.nodes.get_mut(node.0);
        record.inputs.push((name, id));
        proof {
            let after = before.with_input_slot(node, id, name_view, typ, kind, value);
            assert(self.nodes@[node@]@.inputs =~= after.nodes[node@].inputs);
            assert(self@.nodes =~= after.nodes);
            assert(self@.slots =~= after.slots);
            lemma_with_input_slot_consistent(before, node, id, name_view, typ, kind, value);
        }
        id
    }

    /// Appends an output slot to a node's outputs and returns the slot's key.
    pub fn add_output_slot(&mut self, node: NodeId, name: String, typ: DataType) -> (id: SlotId)
        requires
            old(self).wf(),
            old(self)@.nodes.dom().contains(node@),
            old(self)@.slots.dom().len() < ARENA_LIMIT,
        ensures
            final(self).wf(),
            !old(self)@.slots.dom().contains(id@),
            final(self)@ == old(self)@.with_output_slot(node, id, name@, typ),
    {
        proof {
            self.lemma_consistent();
            self.slots.lemma_keys();
            assert(self@.nodes.dom() =~= self.nodes@.dom());
        }
        let ghost before = self@;
        let key = self.slots.insert(Slot::Output(Output { id: SlotId(0), node, typ }));
        let id = SlotId(key);
        match self.slots.get_mut(key) {
            Slot::Input(_) => {},
            Slot::Output(output) => {
                output.id = id;
            },
        }
        let ghost name_view = name@;
        let record = self.nodes.get_mut(node.0);
        record.outputs.push((name, id));
        proof {
            let after = before.with_output_slot(node, id, name_view, typ);
            assert(self.nodes@[node@]@.outputs =~= after.nodes[node@].outputs);
            assert(self@.nodes =~= after.nodes);
            assert(self@.slots =~= after.slots);
            lemma_with_output_slot_consistent(before, node, id, name_view, typ);
        }
        id
    }

    /// The node under `id`, if there is one.
    pub fn node(&self, id: NodeId) -> (r: Option<&Node<NodeData>>)
        requires
            self.wf(),
        ensures
            match r {
                Some(n) => self@.nodes.dom().contains(id@) && n@ == self@.nodes[id@],
                None => !self@.nodes.dom().contains(id@),
            },
    {
        proof {
            assert(self@.nodes.dom() =~= self.nodes@.dom());
        }
        self.nodes.get(id.0)
    }

    /// The slot under `id`, if there is one.
    pub fn slot(&self, id: SlotId) -> (r: Option<&Slot<ValueType>>)
        requires
            self.wf(),
        ensures
            match r {
                Some(s) => self@.slots.dom().contains(id@) && *s == self@.slots[id@],
                None => !self@.slots.dom().contains(id@),
            },
    {
        self.slots.get(id.0)
    }

    /// Whether a node lives under `id`.
    pub fn contains_node(&self, id: NodeId) -> (b: bool)
        requires
            self.wf(),
        ensures
            b == self@.nodes.dom().contains(id@),
    {
        proof {
            assert(self@.nodes.dom() =~= self.nodes@.dom());
        }
        self.nodes.contains(id.0)
    }

    /// Whether a slot lives under `id`.
    pub fn contains_slot(&self, id: SlotId) -> (b: bool)
        requires
            self.wf(),
        ensures
            b == self@.slots.dom().contains(id@),
    {
        self.slots.contains(id.0)
    }

    /// The payload of an existing node, to be changed in place. Nothing but
    /// the payload changes.
    pub fn node_data_mut(&mut self, id: NodeId) -> (data: &mut NodeData)
        requires
            old(self).wf(),
            old(self)@.nodes.dom().contains(id@),
        ensures
            *data == old(self)@.nodes[id@].data,
            final(self).wf(),
            final(self)@ == old(self)@.with_payload(id@, *final(data)),
    {
        let ghost nodes = self.nodes@;
        let ghost slots = self.slots@;
        let ghost connections = side_table_entries(self.connections);
        let record = self.nodes.get_mut(id.0);
        let data = &mut record.data;
        proof {
            lemma_stored_payload(
                nodes,
                slots,
                connections,
                id.0,
                Node { data: *final(data), ..nodes[id.0] },
            );
        }
        data
    }

    /// The inline constant of an existing input slot, to be changed in
    /// place. Nothing but the constant changes.
    pub fn input_value_mut(&mut self, slot: SlotId) -> (value: &mut ValueType)
        requires
            old(self).wf(),
            old(self)@.is_input(slot@),
        ensures
            *value == old(self)@.slots[slot@]->Input_0.value,
            final(self).wf(),
            final(self)@ == old(self)@.with_constant(slot@, *final(value)),
    {
        let ghost nodes = self.nodes@;
        let ghost slots = self.slots@;
        let ghost connections = side_table_entries(self.connections);
        match self.slots.get_mut(slot.0) {
            Slot::Input(input) => {
                let value = &mut input.value;
                proof {
                    lemma_stored_constant(
                        nodes,
                        slots,
                        connections,
                        slot.0,
                        Input { value: *final(value), ..slots[slot.0]->Input_0 },
                    );
                }
                value
            },
            Slot::Output(_) => vstd::pervasive::unreached(),
        }
    }

    /// The declared type of an existing slot.
    pub fn slot_type(&self, slot: SlotId) -> (typ: DataType)
        requires
            self.wf(),
            self@.slots.dom().contains(slot@),
        ensures
            typ == self@.slots[slot@].typ(),
    {
        match self.slots.get(slot.0) {
            Some(Slot::Input(i)) => i.typ,
            Some(Slot::Output(o)) => o.typ,
            None => vstd::pervasive::unreached(),
        }
    }

    /// The node that owns an existing slot.
    pub fn slot_owner(&self, slot: SlotId) -> (node: NodeId)
        requires
            self.wf(),
            self@.slots.dom().contains(slot@),
        ensures
            node == self@.slots[slot@].node(),
            self@.nodes.dom().contains(node@),
    {
        proof {
            self.lemma_consistent();
            assert(self@.slot_is_sound(slot@));
        }
        match self.slots.get(slot.0) {
            Some(Slot::Input(i)) => i.node,
            Some(Slot::Output(o)) => o.node,
            None => vstd::pervasive::unreached(),
        }
    }

    /// Whether `slot` is the key of an input slot.
    pub fn is_input(&self, slot: SlotId) -> (b: bool)
        requires
            self.wf(),
        ensures
            b == self@.is_input(slot@),
    {
        match self.slots.get(slot.0) {
            Some(Slot::Input(_)) => true,
            _ => false,
        }
    }

    /// Whether `slot` is the key of an output slot.
    pub fn is_output(&self, slot: SlotId) -> (b: bool)
        requires
            self.wf(),
        ensures
            b == self@.is_output(slot@),
    {
        match self.slots.get(slot.0) {
            Some(Slot::Output(_)) => true,
            _ => false,
        }
    }

    /// The output slot that feeds `input`, if `input` is connected.
    pub fn connection_of(&self, input: SlotId) -> (r: Option<SlotId>)
        requires
            self.wf(),
        ensures
            r == self@.connection_of(input),
    {
        proof {
            self.lemma_consistent();
            self.slots.lemma_keys();
            if self@.connections.dom().contains(input@) {
                assert(self@.connection_is_sound(input@));
            }
        }
        if !is_regular_key(input.0) {
            return None;
        }
        match side_table_get(&self.connections, input.0) {
            Some(output) => Some(SlotId(output)),
            None => None,
        }
    }

    /// Connects an output slot to an input slot, in place of whatever fed the
    /// input before. Declines, and changes nothing, unless both slots exist,
    /// have the same type, belong to different nodes and are an output and an
    /// input in that order.
    pub fn connect(&mut self, output: SlotId, input: SlotId) -> (r: Result<(), ConnectError>)
        requires
            old(self).wf(),
        ensures
            final(self).wf(),
            r == old(self)@.connect_outcome(output, input),
            final(self)@ == old(self)@.with_connection(output, input),
    {
        let ghost before = self@;
        let (out_type, out_node, out_is_output) = match self.slots.get(output.0) {
            Some(Slot::Output(o)) => (o.typ, o.node, true),
            Some(Slot::Input(i)) => (i.typ, i.node, false),
            None => {
                return Err(ConnectError::InvalidEndpoint);
            },
        };
        let (in_type, in_node, in_is_input) = match self.slots.get(input.0) {
            Some(Slot::Input(i)) => (i.typ, i.node, true),
            Some(Slot::Output(o)) => (o.typ, o.node, false),
            None => {
                return Err(ConnectError::InvalidEndpoint);
            },
        };
        if out_type != in_type {
            return Err(ConnectError::TypeMismatch);
        }
        if out_node == in_node {
            return Err(ConnectError::SelfLoop);
        }
        if !(out_is_output && in_is_input) {
            return Err(ConnectError::DirectionError);
        }
        proof {
            self.lemma_consistent();
            self.slots.lemma_keys();
            assert forall|k: u64| #[trigger]
                side_table_entries(self.connections).dom().contains(k) && key_index(k)
                    == key_index(input.0) implies k == input.0 by {
                assert(before.connection_is_sound(k));
            }
        }
        side_table_insert(&mut self.connections, input.0, output.0);
        proof {
            lemma_with_connection_consistent(before, output, input);
        }
        Ok(())
    }

    /// Removes the connection into `input`, if there is one, and returns the
    /// output slot that fed it.
    pub fn disconnect(&mut self, input: SlotId) -> (r: Option<SlotId>)
        requires
            old(self).wf(),
        ensures
            final(self).wf(),
            r == old(self)@.connection_of(input),
            final(self)@ == old(self)@.without_connection(input),
    {
        let ghost before = self@;
        proof {
            self.lemma_consistent();
            self.slots.lemma_keys();
            lemma_without_connection_consistent(before, input);
            if self@.connections.dom().contains(input@) {
                assert(self@.connection_is_sound(input@));
            }
        }
        if !is_regular_key(input.0) {
            proof {
                assert(self@.connections =~= before.connections.remove(input@));
            }
            return None;
        }
        match side_table_remove(&mut self.connections, input.0) {
            Some(output) => Some(SlotId(output)),
            None => None,
        }
    }

    /// Removes a node with every slot it owns and every connection that
    /// touches one of those slots. Does nothing if no node lives under `node`.
    pub fn remove_node(&mut self, node: NodeId)
        requires
            old(self).wf(),
        ensures
            final(self).wf(),
            final(self)@ == (if old(self)@.nodes.dom().contains(node@) {
                old(self)@.without_node(node@)
            } else {
                old(self)@
            }),
    {
        let ghost before = self@;
        proof {
            self.lemma_consistent();
            assert(self@.nodes.dom() =~= self.nodes@.dom());
        }
        let record = match self.nodes.remove(node.0) {
            Some(record) => record,
            None => {
                proof {
                    assert(self@.nodes =~= before.nodes);
                }
                return ;
            },
        };
        unlink_node::<NodeData, ValueType>(
            &mut self.connections,
            &self.slots,
            node,
            Ghost(before),
        );
        drop_slots(&mut self.slots, &record.inputs);
        drop_slots(&mut self.slots, &record.outputs);
        proof {
            let after = before.without_node(node@);
            assert(before.node_is_sound(node@));
            assert(record@ == before.nodes[node@]);
            assert forall|s: u64| before.slots.dom().contains(s) implies (before.owns(node@, s)
                <==> (listed_slot(record.inputs@, record.inputs@.len() as int, s) || listed_slot(
                record.outputs@,
                record.outputs@.len() as int,
                s,
            ))) by {
                assert(before.slot_is_sound(s));
                let owner = before.nodes[node@];
                if before.owns(node@, s) {
                    if before.slots[s] is Input {
                        let j = choose|j: int|
                            0 <= j < owner.inputs.len() && #[trigger] owner.inputs[j].1@ == s;
                        assert(record.inputs@[j].1@ == s);
                    } else {
                        let j = choose|j: int|
                            0 <= j < owner.outputs.len() && #[trigger] owner.outputs[j].1@ == s;
                        assert(record.outputs@[j].1@ == s);
                    }
                }
                if listed_slot(record.inputs@, record.inputs@.len() as int, s) {
                    let j = choose|j: int|
                        0 <= j < record.inputs@.len() && #[trigger] record.inputs@[j].1@ == s;
                    assert(owner.inputs[j].1@ == s);
                }
                if listed_slot(record.outputs@, record.outputs@.len() as int, s) {
                    let j = choose|j: int|
                        0 <= j < record.outputs@.len() && #[trigger] record.outputs@[j].1@ == s;
                    assert(owner.outputs[j].1@ == s);
                }
            }
            assert(self@.slots =~= after.slots);
            assert(self@.nodes =~= after.nodes);
            assert(self@.connections =~= after.connections);
            lemma_without_node_consistent(before, node@);
        }
    }
}

impl<NodeData, ValueType> Default for Graph<NodeData, ValueType> {
    /// The same as `new`.
    fn default() -> (g: Self)
        ensures
            g.wf(),
            g@ == (GraphView::<NodeData, ValueType>::empty()),
    {
        Graph::new()
    }
}

/// The view of a graph that stores these records.
spec fn assembled<NodeData, ValueType>(
    nodes: Map<u64, Node<NodeData>>,
    slots: Map<u64, Slot<ValueType>>,
    connections: Map<u64, u64>,
) -> GraphView<NodeData, ValueType> {
    GraphView { nodes: nodes.map_values(|n: Node<NodeData>| n@), slots, connections }
}

/// Storing a node record that differs only in its payload changes the
/// payload in the view, and the view stays consistent.
proof fn lemma_stored_payload<NodeData, ValueType>(
    nodes: Map<u64, Node<NodeData>>,
    slots: Map<u64, Slot<ValueType>>,
    connections: Map<u64, u64>,
    key: u64,
    record: Node<NodeData>,
)
    requires
        assembled(nodes, slots, connections).consistent(),
        nodes.dom().contains(key),
        record@ == (NodeView { data: record.data, ..nodes[key]@ }),
    ensures
        assembled(nodes.insert(key, record), slots, connections) == assembled(
            nodes,
            slots,
            connections,
        ).with_payload(key, record.data),
        assembled(nodes.insert(key, record), slots, connections).consistent(),
{
    let g = assembled(nodes, slots, connections);
    let h = assembled(nodes.insert(key, record), slots, connections);
    assert(g.nodes.dom().contains(key));
    assert(h.nodes =~= g.with_payload(key, record.data).nodes);
    lemma_payload_change(g, key, record.data);
}

/// Storing an input slot record that differs only in its inline constant
/// changes the constant in the view, and the view stays consistent.
proof fn lemma_stored_constant<NodeData, ValueType>(
    nodes: Map<u64, Node<NodeData>>,
    slots: Map<u64, Slot<ValueType>>,
    connections: Map<u64, u64>,
    key: u64,
    record: Input<DataType, ValueType>,
)
    requires
        assembled(nodes, slots, connections).consistent(),
        assembled(nodes, slots, connections).is_input(key),
        record == (Input { value: record.value, ..slots[key]->Input_0 }),
    ensures
        assembled(nodes, slots.insert(key, Slot::Input(record)), connections) == assembled(
            nodes,
            slots,
            connections,
        ).with_constant(key, record.value),
        assembled(nodes, slots.insert(key, Slot::Input(record)), connections).consistent(),
{
    let g = assembled(nodes, slots, connections);
    lemma_constant_change(g, key, record.value);
}

/// Some pair before position `upto` has `k` as its first component.
spec fn listed_first(pairs: Seq<(u64, u64)>, upto: int, k: u64) -> bool {
    exists|j: int| 0 <= j < upto && #[trigger] pairs[j].0 == k
}

/// Some entry of a slot list before position `upto` has the key `k`.
spec fn listed_slot(list: Seq<(String, SlotId)>, upto: int, k: u64) -> bool {
    exists|j: int| 0 <= j < upto && #[trigger] list[j].1@ == k
}

/// Takes out of the connection table every connection that touches a slot of `node`.
fn unlink_node<NodeData, ValueType>(
    connections: &mut SideTable,
    slots: &Arena<Slot<ValueType>>,
    node: NodeId,
    Ghost(g): Ghost<GraphView<NodeData, ValueType>>,
)
    requires
        slots.wf(),
        g.consistent(),
        g.slots == slots@,
        g.connections == side_table_entries(*old(connections)),
    ensures
        side_table_entries(*final(connections)) == g.connections.restrict(
            Set::new(|i: u64| !g.connection_touches(node@, i)),
        ),
{
    let pairs = side_table_pairs(connections);
    let mut at: usize = 0;
    proof {
        slots.lemma_keys();
    }
    while at < pairs.len()
        invariant
            at <= pairs.len(),
            slots.wf(),
            g.consistent(),
            g.slots == slots@,
            forall|k: u64| #[trigger] slots@.dom().contains(k) ==> key_is_regular(k),
            forall|i: int|
                0 <= i < pairs@.len() ==> g.connections.dom().contains(#[trigger] pairs@[i].0)
                    && g.connections[pairs@[i].0] == pairs@[i].1,
            forall|k: u64|
                g.connections.dom().contains(k) ==> listed_first(pairs@, pairs@.len() as int, k),
            forall|k: u64|
                #![trigger side_table_entries(*connections).dom().contains(k)]
                side_table_entries(*connections).dom().contains(k) <==> g.connections.dom().contains(
                    k,
                ) && !(g.connection_touches(node@, k) && listed_first(pairs@, at as int, k)),
            forall|k: u64| #[trigger]
                side_table_entries(*connections).dom().contains(k) ==> side_table_entries(
                    *connections,
                )[k] == g.connections[k],
        decreases pairs.len() - at,
    {
        let (input, output) = pairs[at];
        let ghost entries = side_table_entries(*connections);
        proof {
            assert(g.connections.dom().contains(pairs@[at as int].0));
            assert(g.connection_is_sound(input));
        }
        let touches = match (slots.get(input), slots.get(output)) {
            (Some(a), Some(b)) => slot_node(a) == node || slot_node(b) == node,
            _ => false,
        };
        assert(touches == g.connection_touches(node@, input));
        if touches {
            let _ = side_table_remove(connections, input);
        }
        proof {
            let next = side_table_entries(*connections);
            assert forall|k: u64|
                #![trigger next.dom().contains(k)]
                next.dom().contains(k) <==> g.connections.dom().contains(k) && !(
                g.connection_touches(node@, k) && listed_first(pairs@, at + 1, k)) by {
                if k == input {
                    assert(pairs@[at as int].0 == k);
                    assert(listed_first(pairs@, at + 1, k));
                } else {
                    if listed_first(pairs@, at as int, k) {
                        let j = choose|j: int| 0 <= j < at && #[trigger] pairs@[j].0 == k;
                        assert(pairs@[j].0 == k);
                        assert(listed_first(pairs@, at + 1, k));
                    }
                    if listed_first(pairs@, at + 1, k) {
                        let j = choose|j: int| 0 <= j < at + 1 && #[trigger] pairs@[j].0 == k;
                        assert(j != at);
                        assert(listed_first(pairs@, at as int, k));
                    }
                }
            }
        }
        at = at + 1;
    }
    proof {
        assert(side_table_entries(*connections) =~= g.connections.restrict(
            Set::new(|i: u64| !g.connection_touches(node@, i)),
        ));
    }
}

/// The node that a slot record names as its owner.
fn slot_node<ValueType>(slot: &Slot<ValueType>) -> (node: NodeId)
    ensures
        node == slot.node(),
{
    match slot {
        Slot::Input(i) => i.node,
        Slot::Output(o) => o.node,
    }
}

/// Takes every slot that `list` names out of the arena.
fn drop_slots<ValueType>(slots: &mut Arena<Slot<ValueType>>, list: &Vec<(String, SlotId)>)
    requires
        old(slots).wf(),
    ensures
        final(slots).wf(),
        final(slots)@ == old(slots)@.restrict(
            Set::new(|s: u64| !listed_slot(list@, list@.len() as int, s)),
        ),
{
    let mut at: usize = 0;
    proof {
        assert(slots@ =~= old(slots)@.restrict(Set::new(|s: u64| !listed_slot(list@, 0, s))));
    }
    while at < list.len()
        invariant
            at <= list.len(),
            slots.wf(),
            slots@ == old(slots)@.restrict(Set::new(|s: u64| !listed_slot(list@, at as int, s))),
        decreases list.len() - at,
    {
        let key = list[at].1.0;
        let ghost prior = slots@;
        let _ = slots.remove(key);
        proof {
            assert forall|s: u64| listed_slot(list@, at + 1, s) <==> (s == key || listed_slot(
                list@,
                at as int,
                s,
            )) by {
                if s == key {
                    assert(list@[at as int].1@ == s);
                }
                if listed_slot(list@, at as int, s) {
                    let j = choose|j: int| 0 <= j < at && #[trigger] list@[j].1@ == s;
                    assert(list@[j].1@ == s);
                }
                if listed_slot(list@, at + 1, s) && s != key {
                    let j = choose|j: int| 0 <= j < at + 1 && #[trigger] list@[j].1@ == s;
                    assert(j != at);
                }
            }
            assert(slots@ =~= old(slots)@.restrict(
                Set::new(|s: u64| !listed_slot(list@, at + 1, s)),
            ));
        }
        at = at + 1;
    }
}

} // verus!
