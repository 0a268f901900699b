//! The editing session: the graph together with what the user is doing to it.

use vstd::prelude::*;
use crate::arena::ARENA_LIMIT;
use crate::geometry::{
    displace, lemma_pack_unpack, pack_point, unpack_point, unpacked_point, Rect, ScreenPoint,
};
use crate::graph::Graph;
use crate::key::{is_regular_key, key_index, NodeId, SlotId};
use crate::model::{lemma_constant_change, lemma_payload_change, ConnectError};
use crate::node::{DataType, InputParamKind};
use crate::order::{lemma_first_at_unique, position_of, remove_first};
use crate::response::NodeResponse;
use crate::selection::box_selected;
use crate::session::EditorView;
use crate::store::{
    side_table_entries, side_table_get, side_table_insert, side_table_new, side_table_remove,
    SideTable,
};

verus! {

/// The search box that offers node kinds to create.
#[derive(Clone, Debug)]
pub struct NodeFinder {
    pub query: String,
    /// Where the finder is to be moved to. Set anew every frame.
    pub position: Option<ScreenPoint>,
    pub just_spawned: bool,
}

/// The graph with the state of one editing surface.
pub struct GraphEditor<NodeData, ValueType> {
    graph: Graph<NodeData, ValueType>,
    node_order: Vec<NodeId>,
    connection_in_progress: Option<(NodeId, SlotId)>,
    selected_nodes: Vec<NodeId>,
    ongoing_box_selection: Option<ScreenPoint>,
    node_positions: SideTable,
    node_finder: Option<NodeFinder>,
}

impl<NodeData, ValueType> View for GraphEditor<NodeData, ValueType> {
    type V = EditorView<NodeData, ValueType>;

    closed spec fn view(&self) -> EditorView<NodeData, ValueType> {
        EditorView {
            graph: self.graph@,
            node_order: self.node_order@,
            connection_in_progress: self.connection_in_progress,
            selected_nodes: self.selected_nodes@,
            ongoing_box_selection: self.ongoing_box_selection,
            node_positions: side_table_entries(self.node_positions).map_values(
                |v: u64| unpacked_point(v),
            ),
        }
    }
}

impl<NodeData, ValueType> GraphEditor<NodeData, ValueType> {
    /// The graph is well formed and the session is consistent with it.
    pub closed spec fn wf(&self) -> bool {
        self.graph.wf() && self@.consistent()
    }

    /// The node finder, while it is open.
    pub closed spec fn finder(&self) -> Option<NodeFinder> {
        self.node_finder
    }

    /// What `wf` says of the view.
    pub proof fn lemma_consistent(&self)
        requires
            self.wf(),
        ensures
            self@.consistent(),
            self@.graph.nodes.dom().finite(),
            self@.graph.slots.dom().finite(),
    {
        self.graph.lemma_consistent();
    }

    /// A session on an empty graph, with nothing selected and nothing in progress.
    pub fn new() -> (e: Self)
        ensures
            e.wf(),
            e@ == (EditorView::<NodeData, ValueType>::empty()),
            e.finder().is_none(),
    {
        let e = GraphEditor {
            graph: Graph::new(),
            node_order: Vec::new(),
            connection_in_progress: None,
            selected_nodes: Vec::new(),
            ongoing_box_selection: None,
            node_positions: side_table_new(),
            node_finder: None,
        };
        proof {
            assert(e@.node_positions =~= Map::<u64, ScreenPoint>::empty());
            assert(e@ =~= EditorView::<NodeData, ValueType>::empty());
        }
        e
    }

    /// The node finder, while it is open.
    pub fn node_finder(&self) -> (finder: &Option<NodeFinder>)
        ensures
            *finder == self.finder(),
    {
        &self.node_finder
    }

    /// Opens, replaces or closes the node finder. Nothing else changes.
    pub fn set_node_finder(&mut self, finder: Option<NodeFinder>)
        ensures
            final(self).finder() == finder,
            final(self)@ == old(self)@,
            old(self).wf() ==> final(self).wf(),
    {
        self.node_finder = finder;
    }

    /// The graph, to read.
    pub fn graph(&self) -> (g: &Graph<NodeData, ValueType>)
        ensures
            g@ == self@.graph,
            self.wf() ==> g.wf(),
    {
        &self.graph
    }

    /// The paint order, bottom first.
    pub fn node_order(&self) -> (order: &Vec<NodeId>)
        ensures
            order@ == self@.node_order,
    {
        &self.node_order
    }

    /// The selected nodes.
    pub fn selected_nodes(&self) -> (selected: &Vec<NodeId>)
        ensures
            selected@ == self@.selected_nodes,
    {
        &self.selected_nodes
    }

    /// Where the wire being dragged started, if one is being dragged.
    pub fn connection_in_progress(&self) -> (origin: Option<(NodeId, SlotId)>)
        ensures
            origin == self@.connection_in_progress,
    {
        self.connection_in_progress
    }

    /// Where the selection rectangle being dragged started.
    pub fn ongoing_box_selection(&self) -> (anchor: Option<ScreenPoint>)
        ensures
            anchor == self@.ongoing_box_selection,
    {
        self.ongoing_box_selection
    }

    /// The position of a node, if `node` is one.
    pub fn node_position(&self, node: NodeId) -> (r: Option<ScreenPoint>)
        requires
            self.wf(),
        ensures
            r == (if self@.is_live(node) {
                Some(self@.node_positions[node@])
            } else {
                None
            }),
    {
        proof {
            self.graph.lemma_node_keys();
        }
        if !is_regular_key(node.0) {
            return None;
        }
        match side_table_get(&self.node_positions, node.0) {
            Some(v) => Some(unpack_point(v)),
            None => None,
        }
    }

    /// Adds a node to the graph, on top of the others, at the given position.
    pub fn add_node(&mut self, label: String, data: NodeData, position: ScreenPoint) -> (id: NodeId)
        requires
            old(self).wf(),
            old(self)@.graph.nodes.dom().len() < ARENA_LIMIT,
        ensures
            final(self).wf(),
            !old(self)@.is_live(id),
            final(self)@ == old(self)@.with_node(id, label@, data, position),
    {
        let ghost before = self@;
        let id = self.graph.add_node(label, data);
        proof {
            self.graph.lemma_node_keys();
            assert(self@.graph.nodes.dom().contains(id@));
        }
        self.node_order.push(id);
        proof {
            let raw = side_table_entries(self.node_positions);
            assert(raw.dom() =~= before.node_positions.dom());
            assert forall|k: u64| #[trigger] raw.dom().contains(k) && key_index(k) == key_index(
                id.0,
            ) implies k == id.0 by {
                assert(before.graph.nodes.dom().contains(k));
                assert(self@.graph.nodes.dom().contains(k));
            }
        }
        side_table_insert(&mut self.node_positions, id.0, pack_point(position));
        proof {
            lemma_pack_unpack(position);
            assert(self@.node_positions =~= before.node_positions.insert(id@, position));
            before.lemma_with_node(id, label@, data, position);
        }
        id
    }

    /// Appends an input slot to a node of the graph.
    pub fn add_input_slot(
        &mut self,
        node: NodeId,
        name: String,
        typ: DataType,
        kind: InputParamKind,
        value: ValueType,
    ) -> (id: SlotId)
        requires
            old(self).wf(),
            old(self)@.is_live(node),
            old(self)@.graph.slots.dom().len() < ARENA_LIMIT,
        ensures
            final(self).wf(),
            !old(self)@.graph.slots.dom().contains(id@),
            final(self)@ == old(self)@.with_graph(
                old(self)@.graph.with_input_slot(node, id, name@, typ, kind, value),
            ),
    {
        let ghost before = self@;
        let id = self.graph.add_input_slot(node, name, typ, kind, value);
        proof {
            self.graph.lemma_consistent();
            assert(self@.graph.nodes.dom() =~= before.graph.nodes.dom());
            before.lemma_with_graph(self@.graph);
        }
        id
    }

    /// Appends an output slot to a node of the graph.
    pub fn add_output_slot(&mut self, node: NodeId, name: String, typ: DataType) -> (id: SlotId)
        requires
            old(self).wf(),
            old(self)@.is_live(node),
            old(self)@.graph.slots.dom().len() < ARENA_LIMIT,
        ensures
            final(self).wf(),
            !old(self)@.graph.slots.dom().contains(id@),
            final(self)@ == old(self)@.with_graph(
                old(self)@.graph.with_output_slot(node, id, name@, typ),
            ),
    {
        let ghost before = self@;
        let id = self.graph.add_output_slot(node, name, typ);
        proof {
            self.graph.lemma_consistent();
            assert(self@.graph.nodes.dom() =~= before.graph.nodes.dom());
            before.lemma_with_graph(self@.graph);
        }
        id
    }

    /// The payload of an existing node, to be changed in place.
    pub fn node_data_mut(&mut self, id: NodeId) -> (data: &mut NodeData)
        requires
            old(self).wf(),
            old(self)@.is_live(id),
        ensures
            *data == old(self)@.graph.nodes[id@].data,
            final(self).wf(),
            final(self)@ == old(self)@.with_graph(
                old(self)@.graph.with_payload(id@, *final(data)),
            ),
    {
        let ghost before = self@;
        let data = self.graph.node_data_mut(id);
        proof {
            let graph = before.graph.with_payload(id@, *final(data));
            lemma_payload_change(before.graph, id@, *final(data));
            assert(graph.nodes.dom() =~= before.graph.nodes.dom());
            before.lemma_with_graph(graph);
        }
        data
    }

    /// The inline constant of an existing input slot, to be changed in place.
    pub fn input_value_mut(&mut self, slot: SlotId) -> (value: &mut ValueType)
        requires
            old(self).wf(),
            old(self)@.graph.is_input(slot@),
        ensures
            *value == old(self)@.graph.slots[slot@]->Input_0.value,
            final(self).wf(),
            final(self)@ == old(self)@.with_graph(
                old(self)@.graph.with_constant(slot@, *final(value)),
            ),
    {
        let ghost before = self@;
        let value = self.graph.input_value_mut(slot);
        proof {
            let graph = before.graph.with_constant(slot@, *final(value));
            lemma_constant_change(before.graph, slot@, *final(value));
            before.lemma_with_graph(graph);
        }
        value
    }

    /// Connects an output slot to an input slot, as `Graph::connect` does.
    pub fn connect(&mut self, output: SlotId, input: SlotId) -> (r: Result<(), ConnectError>)
        requires
            old(self).wf(),
        ensures
            final(self).wf(),
            r == old(self)@.graph.connect_outcome(output, input),
            final(self)@ == old(self)@.with_graph(
                old(self)@.graph.with_connection(output, input),
            ),
    {
        let ghost before = self@;
        let r = self.graph.connect(output, input);
        proof {
            self.graph.lemma_consistent();
            before.lemma_with_graph(self@.graph);
        }
        r
    }

    /// Removes the connection into `input`, as `Graph::disconnect` does.
    pub fn disconnect(&mut self, input: SlotId) -> (r: Option<SlotId>)
        requires
            old(self).wf(),
        ensures
            final(self).wf(),
            r == old(self)@.graph.connection_of(input),
            final(self)@ == old(self)@.with_graph(old(self)@.graph.without_connection(input)),
    {
        let ghost before = self@;
        let r = self.graph.disconnect(input);
        proof {
            self.graph.lemma_consistent();
            before.lemma_with_graph(self@.graph);
        }
        r
    }

    /// Removes a node from the graph and from the session. Returns whether
    /// there was such a node; if not, nothing changes.
    pub fn remove_node(&mut self, node: NodeId) -> (removed: bool)
        requires
            old(self).wf(),
        ensures
            final(self).wf(),
            removed == old(self)@.is_live(node),
            final(self)@ == (if removed {
                old(self)@.with_removed(node)
            } else {
                old(self)@
            }),
    {
        let ghost before = self@;
        if !self.graph.contains_node(node) {
            return false;
        }
        proof {
            self.graph.lemma_node_keys();
        }
        self.graph.remove_node(node);
        remove_first(&mut self.node_order, node);
        remove_first(&mut self.selected_nodes, node);
        let _ = side_table_remove(&mut self.node_positions, node.0);
        match self.connection_in_progress {
            Some((origin, _)) => {
                if origin == node {
                    self.connection_in_progress = None;
                }
            },
            None => {},
        }
        proof {
            assert(self@.node_positions =~= before.with_removed(node).node_positions);
            before.lemma_with_removed(node);
        }
        true
    }

    /// Moves a node to the end of the paint order. Does nothing if `node` is
    /// not a node of the graph.
    pub fn raise_node(&mut self, node: NodeId)
        requires
            old(self).wf(),
        ensures
            final(self).wf(),
            final(self)@ == old(self)@.with_raised(node),
    {
        let ghost before = self@;
        match position_of(&self.node_order, node) {
            Some(i) => {
                proof {
                    lemma_first_at_unique(before.node_order, node, i as int);
                }
                let _ = self.node_order.remove(i);
                self.node_order.push(node);
            },
            None => {},
        }
        proof {
            before.lemma_with_raised(node);
        }
    }

    /// Makes a node the whole selection. Does nothing if `node` is not a
    /// node of the graph.
    pub fn select_node(&mut self, node: NodeId)
        requires
            old(self).wf(),
        ensures
            final(self).wf(),
            final(self)@ == old(self)@.with_selected(node),
    {
        if self.graph.contains_node(node) {
            let mut selected = Vec::new();
            selected.push(node);
            self.selected_nodes = selected;
            proof {
                assert(self@.selected_nodes =~= seq![node]);
            }
        }
    }

    /// Displaces a node. Does nothing if `node` is not a node of the graph.
    pub fn move_node(&mut self, node: NodeId, delta: ScreenPoint)
        requires
            old(self).wf(),
        ensures
            final(self).wf(),
            final(self)@ == old(self)@.with_moved(node, delta),
    {
        let ghost before = self@;
        proof {
            self.graph.lemma_node_keys();
        }
        if !self.graph.contains_node(node) {
            return ;
        }
        let ghost raw = side_table_entries(self.node_positions);
        proof {
            assert(raw.dom() =~= before.node_positions.dom());
        }
        match side_table_get(&self.node_positions, node.0) {
            Some(v) => {
                let moved = displace(unpack_point(v), delta);
                side_table_insert(&mut self.node_positions, node.0, pack_point(moved));
                proof {
                    lemma_pack_unpack(moved);
                    assert(self@.node_positions =~= before.node_positions.insert(node@, moved));
                    assert(self@.node_positions.dom() =~= self@.graph.nodes.dom());
                }
            },
            None => {},
        }
    }

    /// Starts a selection rectangle at `anchor`.
    pub fn begin_box_selection(&mut self, anchor: ScreenPoint)
        requires
            old(self).wf(),
        ensures
            final(self).wf(),
            final(self)@ == (EditorView { ongoing_box_selection: Some(anchor), ..old(self)@ }),
    {
        self.ongoing_box_selection = Some(anchor);
    }

    /// The pointer button was let go: a wire being dragged and a selection
    /// rectangle being dragged both end. The graph and the selection stay.
    pub fn pointer_released(&mut self)
        requires
            old(self).wf(),
        ensures
            final(self).wf(),
            final(self)@ == (EditorView {
                connection_in_progress: None,
                ongoing_box_selection: None,
                ..old(self)@
            }),
    {
        self.connection_in_progress = None;
        self.ongoing_box_selection = None;
    }

    /// While a selection rectangle is being dragged: selects every node
    /// whose rectangle, as the renderer measured it, meets the rectangle
    /// between the anchor and the pointer. Does nothing otherwise.
    pub fn update_box_selection(&mut self, pointer: ScreenPoint, rects: &Vec<(NodeId, Rect)>)
        requires
            old(self).wf(),
        ensures
            final(self).wf(),
            final(self)@ == old(self)@.with_box_updated(pointer, rects@),
    {
        let ghost before = self@;
        let anchor = match self.ongoing_box_selection {
            Some(anchor) => anchor,
            None => {
                return ;
            },
        };
        let area = Rect::from_two_pos(anchor, pointer);
        let ghost live = before.graph.nodes.dom();
        let mut at: usize = 0;
        while at < rects.len()
            invariant
                at <= rects.len(),
                self.graph.wf(),
                self@ == (EditorView {
                    selected_nodes: box_selected(
                        before.selected_nodes,
                        rects@.take(at as int),
                        area,
                        live,
                    ),
                    ..before
                }),
                live == before.graph.nodes.dom(),
            decreases rects.len() - at,
        {
            let (id, rect) = rects[at];
            let ghost earlier = self@.selected_nodes;
            if rect.intersects(area) && self.graph.contains_node(id) && position_of(
                &self.selected_nodes,
                id,
            ).is_none() {
                self.selected_nodes.push(id);
            }
            proof {
                assert(rects@.take(at + 1).drop_last() =~= rects@.take(at as int));
                assert(rects@.take(at + 1).last() == rects@[at as int]);
            }
            at = at + 1;
        }
        proof {
            assert(rects@.take(at as int) =~= rects@);
            before.lemma_with_box_updated(pointer, rects@);
        }
    }

    /// Starts a wire at a slot, if none is in progress and `slot` is a slot
    /// of `node`. Does nothing otherwise.
    pub fn start_connection(&mut self, node: NodeId, slot: SlotId)
        requires
            old(self).wf(),
        ensures
            final(self).wf(),
            final(self)@ == old(self)@.after(NodeResponse::<()>::ConnectEventStarted(node, slot)),
    {
        if self.connection_in_progress.is_none() && self.graph.contains_slot(slot) {
            if self.graph.slot_owner(slot) == node {
                self.connection_in_progress = Some((node, slot));
            }
        }
    }

    /// Acts on one response and returns the answer to it, if it has one.
    pub fn apply_response<U>(&mut self, response: &NodeResponse<U>) -> (answer: Option<
        NodeResponse<U>,
    >)
        requires
            old(self).wf(),
        ensures
            final(self).wf(),
            final(self)@ == old(self)@.after(*response),
            answer == old(self)@.answer(*response),
    {
        match response {
            NodeResponse::ConnectEventStarted(n, s) => {
                self.start_connection(*n, *s);
                None
            },
            NodeResponse::ConnectEventEnded { output, input } => {
                let _ = self.connect(*output, *input);
                None
            },
            NodeResponse::DisconnectEvent { output, input } => {
                let _ = self.disconnect(*input);
                None
            },
            NodeResponse::SelectNode(n) => {
                self.select_node(*n);
                None
            },
            NodeResponse::RaiseNode(n) => {
                self.raise_node(*n);
                None
            },
            NodeResponse::MoveNode { node, drag_delta } => {
                self.move_node(*node, *drag_delta);
                None
            },
            NodeResponse::DeleteNodeUi(n) => {
                if self.remove_node(*n) {
                    Some(NodeResponse::DeleteNodeFull { node_id: *n })
                } else {
                    None
                }
            },
            _ => None,
        }
    }

    /// Acts on the responses of a frame, in order, and returns the answers.
    pub fn apply_responses<U>(&mut self, responses: &Vec<NodeResponse<U>>) -> (answers: Vec<
        NodeResponse<U>,
    >)
        requires
            old(self).wf(),
        ensures
            final(self).wf(),
            final(self)@ == old(self)@.after_all(responses@),
            answers@ == old(self)@.answers(responses@),
    {
        let ghost before = self@;
        let mut answers: Vec<NodeResponse<U>> = Vec::new();
        let mut at: usize = 0;
        while at < responses.len()
            invariant
                at <= responses.len(),
                self.wf(),
                self@ == before.after_all(responses@.take(at as int)),
                answers@ == before.answers(responses@.take(at as int)),
            decreases responses.len() - at,
        {
            proof {
                assert(responses@.take(at + 1).drop_last() =~= responses@.take(at as int));
                assert(responses@.take(at + 1).last() == responses@[at as int]);
            }
            match self.apply_response(&responses[at]) {
                Some(answer) => {
                    answers.push(answer);
                },
                None => {},
            }
            at = at + 1;
        }
        proof {
            assert(responses@.take(at as int) =~= responses@);
        }
        answers
    }

    /// Ends a frame: acts on its responses, then, if a pointer button was
    /// let go, ends the wire and the selection rectangle in progress.
    /// Returns the answers to the responses.
    pub fn finish_frame<U>(&mut self, responses: &Vec<NodeResponse<U>>, released: bool) -> (answers:
        Vec<NodeResponse<U>>)
        requires
            old(self).wf(),
        ensures
            final(self).wf(),
            final(self)@ == old(self)@.after_frame(responses@, released),
            answers@ == old(self)@.answers(responses@),
    {
        let answers = self.apply_responses(responses);
        if released {
            self.pointer_released();
        }
        answers
    }
}

impl<NodeData, ValueType> Default for GraphEditor<NodeData, ValueType> {
    /// The same as `new`.
    fn default() -> (e: Self)
        ensures
            e.wf(),
            e@ == (EditorView::<NodeData, ValueType>::empty()),
            e.finder().is_none(),
    {
        GraphEditor::new()
    }
}

} // verus!
