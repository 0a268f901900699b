//! The model of an editing session: what it holds, when that is
//! consistent, and what each event makes of it.

use vstd::prelude::*;
use crate::geometry::{displaced, Rect, ScreenPoint};
use crate::key::{NodeId, SlotId};
use crate::model::{
    lemma_with_connection_consistent, lemma_with_node_consistent,
    lemma_without_connection_consistent, lemma_without_node_consistent, GraphView,
};
use crate::order::{lemma_raised, lemma_without, raised, without};
use crate::response::NodeResponse;
use crate::selection::{box_selected, lemma_box_selected};

verus! {

/// What a session holds.
#[verifier::ext_equal]
pub ghost struct EditorView<NodeData, ValueType> {
    pub graph: GraphView<NodeData, ValueType>,
    /// Paint order: the last node is on top.
    pub node_order: Seq<NodeId>,
    /// Where the wire being dragged started, if one is being dragged.
    pub connection_in_progress: Option<(NodeId, SlotId)>,
    pub selected_nodes: Seq<NodeId>,
    /// Where the selection rectangle being dragged started.
    pub ongoing_box_selection: Option<ScreenPoint>,
    pub node_positions: Map<u64, ScreenPoint>,
}

impl<NodeData, ValueType> EditorView<NodeData, ValueType> {
    /// The session of an empty graph in which nothing is selected and nothing
    /// is in progress.
    pub open spec fn empty() -> Self {
        EditorView {
            graph: GraphView::empty(),
            node_order: seq![],
            connection_in_progress: None,
            selected_nodes: seq![],
            ongoing_box_selection: None,
            node_positions: Map::empty(),
        }
    }

    /// `n` is a node of the graph.
    pub open spec fn is_live(self, n: NodeId) -> bool {
        self.graph.nodes.dom().contains(n@)
    }

    /// The session refers only to what the graph holds: the order lists each
    /// node once, each node has a position, the selection lists nodes of
    /// the graph, each once, and a wire in progress starts at a slot that
    /// exists.
    pub open spec fn consistent(self) -> bool {
        &&& self.graph.consistent()
        &&& self.node_order.no_duplicates()
        &&& forall|i: int|
            0 <= i < self.node_order.len() ==> self.is_live(#[trigger] self.node_order[i])
        &&& forall|k: u64| #[trigger]
            self.graph.nodes.dom().contains(k) ==> self.node_order.contains(NodeId(k))
        &&& self.selected_nodes.no_duplicates()
        &&& forall|i: int|
            0 <= i < self.selected_nodes.len() ==> self.is_live(#[trigger] self.selected_nodes[i])
        &&& self.node_positions.dom() == self.graph.nodes.dom()
        &&& match self.connection_in_progress {
            Some((n, s)) => self.graph.owns(n@, s@),
            None => true,
        }
    }

    /// The session after a node was added: the graph has the node, the node
    /// is on top and has the given position.
    pub open spec fn with_node(
        self,
        id: NodeId,
        label: Seq<char>,
        data: NodeData,
        position: ScreenPoint,
    ) -> Self {
        EditorView {
            graph: self.graph.with_node(id, label, data),
            node_order: self.node_order.push(id),
            node_positions: self.node_positions.insert(id@, position),
            ..self
        }
    }

    /// The session with another graph and everything else as it was.
    pub open spec fn with_graph(self, graph: GraphView<NodeData, ValueType>) -> Self {
        EditorView { graph, ..self }
    }

    /// The session after node `n`, which is a node, was removed: the graph
    /// is without it, and so are the order, the selection and the positions;
    /// a wire in progress that started at the node is dropped.
    pub open spec fn with_removed(self, n: NodeId) -> Self {
        EditorView {
            graph: self.graph.without_node(n@),
            node_order: without(self.node_order, n),
            connection_in_progress: match self.connection_in_progress {
                Some((origin, slot)) => if origin == n {
                    None
                } else {
                    Some((origin, slot))
                },
                None => None,
            },
            selected_nodes: without(self.selected_nodes, n),
            ongoing_box_selection: self.ongoing_box_selection,
            node_positions: self.node_positions.remove(n@),
        }
    }

    /// The session after the selection rectangle, if one is being dragged,
    /// was held against the nodes' rectangles with the pointer at `pointer`.
    pub open spec fn with_box_updated(self, pointer: ScreenPoint, rects: Seq<(NodeId, Rect)>) -> Self {
        match self.ongoing_box_selection {
            Some(anchor) => EditorView {
                selected_nodes: box_selected(
                    self.selected_nodes,
                    rects,
                    Rect::spanning(anchor, pointer),
                    self.graph.nodes.dom(),
                ),
                ..self
            },
            None => self,
        }
    }

    /// The session after one response was acted on.
    ///
    /// A wire starts only while none is in progress, and only at a slot of
    /// the node named. A wire that ended connects its two slots if the graph
    /// accepts the pair. A disconnection takes the connection into the input
    /// off. A request to delete removes the node. Selecting, raising and
    /// moving act on a node of the graph and are ignored for anything else.
    /// Every other response leaves the session as it is.
    pub open spec fn after<U>(self, response: NodeResponse<U>) -> Self {
        match response {
            NodeResponse::ConnectEventStarted(n, s) => {
                if self.connection_in_progress.is_none() && self.graph.owns(n@, s@) {
                    EditorView { connection_in_progress: Some((n, s)), ..self }
                } else {
                    self
                }
            },
            NodeResponse::ConnectEventEnded { output, input } => self.with_graph(
                self.graph.with_connection(output, input),
            ),
            NodeResponse::DisconnectEvent { output, input } => self.with_graph(
                self.graph.without_connection(input),
            ),
            NodeResponse::SelectNode(n) => self.with_selected(n),
            NodeResponse::RaiseNode(n) => self.with_raised(n),
            NodeResponse::MoveNode { node, drag_delta } => self.with_moved(node, drag_delta),
            NodeResponse::DeleteNodeUi(n) => {
                if self.is_live(n) {
                    self.with_removed(n)
                } else {
                    self
                }
            },
            _ => self,
        }
    }

    /// What the session answers a response with: the report that a node is
    /// gone, for a request to delete a node of the graph.
    pub open spec fn answer<U>(self, response: NodeResponse<U>) -> Option<NodeResponse<U>> {
        match response {
            NodeResponse::DeleteNodeUi(n) => {
                if self.is_live(n) {
                    Some(NodeResponse::DeleteNodeFull { node_id: n })
                } else {
                    None
                }
            },
            _ => None,
        }
    }

    /// The session after a list of responses was acted on, in order.
    pub open spec fn after_all<U>(self, responses: Seq<NodeResponse<U>>) -> Self
        decreases responses.len(),
    {
        if responses.len() == 0 {
            self
        } else {
            self.after_all(responses.drop_last()).after(responses.last())
        }
    }

    /// The answers to a list of responses, in order.
    pub open spec fn answers<U>(self, responses: Seq<NodeResponse<U>>) -> Seq<NodeResponse<U>>
        decreases responses.len(),
    {
        if responses.len() == 0 {
            seq![]
        } else {
            let earlier = self.answers(responses.drop_last());
            match self.after_all(responses.drop_last()).answer(responses.last()) {
                Some(a) => earlier.push(a),
                None => earlier,
            }
        }
    }

    /// The session at the end of a frame: after its responses were acted
    /// on, and, if a pointer button was let go, with no wire and no
    /// selection rectangle in progress any more.
    pub open spec fn after_frame<U>(self, responses: Seq<NodeResponse<U>>, released: bool) -> Self {
        let acted = self.after_all(responses);
        if released {
            EditorView { connection_in_progress: None, ongoing_box_selection: None, ..acted }
        } else {
            acted
        }
    }

    /// The session with `n` moved to the end of the paint order.
    pub open spec fn with_raised(self, n: NodeId) -> Self {
        EditorView { node_order: raised(self.node_order, n), ..self }
    }

    /// The session with `n` as the whole selection, if `n` is a node.
    pub open spec fn with_selected(self, n: NodeId) -> Self {
        if self.is_live(n) {
            EditorView { selected_nodes: seq![n], ..self }
        } else {
            self
        }
    }

    /// The session with `n` displaced, if `n` is a node.
    pub open spec fn with_moved(self, n: NodeId, delta: ScreenPoint) -> Self {
        if self.is_live(n) {
            EditorView {
                node_positions: self.node_positions.insert(
                    n@,
                    displaced(self.node_positions[n@], delta),
                ),
                ..self
            }
        } else {
            self
        }
    }
}

impl<NodeData, ValueType> EditorView<NodeData, ValueType> {
    /// A session stays consistent when its graph changes to another
    /// consistent graph with the same nodes in which the origin of the wire
    /// in progress is still a slot of its node.
    pub proof fn lemma_with_graph(self, graph: GraphView<NodeData, ValueType>)
        requires
            self.consistent(),
            graph.consistent(),
            graph.nodes.dom() == self.graph.nodes.dom(),
            match self.connection_in_progress {
                Some((n, s)) => graph.owns(n@, s@),
                None => true,
            },
        ensures
            self.with_graph(graph).consistent(),
    {
        let after = self.with_graph(graph);
        assert forall|i: int| 0 <= i < after.node_order.len() implies after.is_live(
            #[trigger] after.node_order[i],
        ) by {
            assert(self.is_live(self.node_order[i]));
        }
        assert forall|i: int| 0 <= i < after.selected_nodes.len() implies after.is_live(
            #[trigger] after.selected_nodes[i],
        ) by {
            assert(self.is_live(self.selected_nodes[i]));
        }
    }

    /// Adding a node under a key that is not in use keeps the session consistent.
    pub proof fn lemma_with_node(
        self,
        id: NodeId,
        label: Seq<char>,
        data: NodeData,
        position: ScreenPoint,
    )
        requires
            self.consistent(),
            !self.is_live(id),
        ensures
            self.with_node(id, label, data, position).consistent(),
    {
        let after = self.with_node(id, label, data, position);
        lemma_with_node_consistent(self.graph, id, label, data);
        let order = after.node_order;
        assert forall|i: int, j: int|
            0 <= i < order.len() && 0 <= j < order.len() && i != j implies order[i] != order[j] by {
            if i < self.node_order.len() {
                assert(self.is_live(self.node_order[i]));
            }
            if j < self.node_order.len() {
                assert(self.is_live(self.node_order[j]));
            }
        }
        assert forall|i: int| 0 <= i < order.len() implies after.is_live(#[trigger] order[i]) by {
            if i < self.node_order.len() {
                assert(self.is_live(self.node_order[i]));
            }
        }
        assert forall|k: u64| #[trigger] after.graph.nodes.dom().contains(k) implies order.contains(
            NodeId(k),
        ) by {
            if k == id@ {
                assert(order[order.len() - 1] == NodeId(k));
            } else {
                assert(self.graph.nodes.dom().contains(k));
                let i = choose|i: int|
                    0 <= i < self.node_order.len() && self.node_order[i] == NodeId(k);
                assert(order[i] == NodeId(k));
            }
        }
        assert forall|i: int| 0 <= i < after.selected_nodes.len() implies after.is_live(
            #[trigger] after.selected_nodes[i],
        ) by {
            assert(self.is_live(self.selected_nodes[i]));
        }
        assert(after.node_positions.dom() =~= after.graph.nodes.dom());
    }

    /// Removing a node keeps the session consistent.
    pub proof fn lemma_with_removed(self, n: NodeId)
        requires
            self.consistent(),
            self.is_live(n),
        ensures
            self.with_removed(n).consistent(),
    {
        let after = self.with_removed(n);
        lemma_without_node_consistent(self.graph, n@);
        lemma_without(self.node_order, n);
        lemma_without(self.selected_nodes, n);
        assert(after.node_positions.dom() =~= after.graph.nodes.dom());
        assert forall|i: int| 0 <= i < after.node_order.len() implies after.is_live(
            #[trigger] after.node_order[i],
        ) by {
            let x = after.node_order[i];
            assert(after.node_order.contains(x));
            assert(self.node_order.contains(x));
            let j = choose|j: int| 0 <= j < self.node_order.len() && self.node_order[j] == x;
            assert(self.is_live(self.node_order[j]));
        }
        assert forall|k: u64| #[trigger]
            after.graph.nodes.dom().contains(k) implies after.node_order.contains(NodeId(k)) by {
            assert(self.graph.nodes.dom().contains(k));
        }
        assert forall|i: int| 0 <= i < after.selected_nodes.len() implies after.is_live(
            #[trigger] after.selected_nodes[i],
        ) by {
            let x = after.selected_nodes[i];
            assert(after.selected_nodes.contains(x));
            assert(self.selected_nodes.contains(x));
            let j = choose|j: int|
                0 <= j < self.selected_nodes.len() && self.selected_nodes[j] == x;
            assert(self.is_live(self.selected_nodes[j]));
        }
    }

    /// Raising a node keeps the session consistent.
    pub proof fn lemma_with_raised(self, n: NodeId)
        requires
            self.consistent(),
        ensures
            self.with_raised(n).consistent(),
    {
        let after = self.with_raised(n);
        lemma_raised(self.node_order, n);
        assert forall|i: int| 0 <= i < after.node_order.len() implies after.is_live(
            #[trigger] after.node_order[i],
        ) by {
            let x = after.node_order[i];
            assert(after.node_order.contains(x));
            assert(self.node_order.contains(x));
            let j = choose|j: int| 0 <= j < self.node_order.len() && self.node_order[j] == x;
            assert(self.is_live(self.node_order[j]));
        }
    }

    /// Selecting a node keeps the session consistent.
    pub proof fn lemma_with_selected(self, n: NodeId)
        requires
            self.consistent(),
        ensures
            self.with_selected(n).consistent(),
    {
    }

    /// Moving a node keeps the session consistent.
    pub proof fn lemma_with_moved(self, n: NodeId, delta: ScreenPoint)
        requires
            self.consistent(),
        ensures
            self.with_moved(n, delta).consistent(),
    {
        assert(self.with_moved(n, delta).node_positions.dom() =~= self.graph.nodes.dom());
    }

    /// Holding a selection rectangle against the nodes keeps the session consistent.
    pub proof fn lemma_with_box_updated(self, pointer: ScreenPoint, rects: Seq<(NodeId, Rect)>)
        requires
            self.consistent(),
        ensures
            self.with_box_updated(pointer, rects).consistent(),
    {
        let after = self.with_box_updated(pointer, rects);
        if let Some(anchor) = self.ongoing_box_selection {
            lemma_box_selected(
                self.selected_nodes,
                rects,
                Rect::spanning(anchor, pointer),
                self.graph.nodes.dom(),
            );
            assert forall|i: int| 0 <= i < after.selected_nodes.len() implies after.is_live(
                #[trigger] after.selected_nodes[i],
            ) by {
                let x = after.selected_nodes[i];
                assert(after.selected_nodes.contains(x));
                if self.selected_nodes.contains(x) {
                    let j = choose|j: int|
                        0 <= j < self.selected_nodes.len() && self.selected_nodes[j] == x;
                    assert(self.is_live(self.selected_nodes[j]));
                }
            }
        }
    }

    /// Whatever response a consistent session acts on, it stays consistent.
    pub proof fn lemma_after<U>(self, response: NodeResponse<U>)
        requires
            self.consistent(),
        ensures
            self.after(response).consistent(),
    {
        match response {
            NodeResponse::ConnectEventEnded { output, input } => {
                lemma_with_connection_consistent(self.graph, output, input);
                self.lemma_with_graph(self.graph.with_connection(output, input));
            },
            NodeResponse::DisconnectEvent { output, input } => {
                lemma_without_connection_consistent(self.graph, input);
                self.lemma_with_graph(self.graph.without_connection(input));
            },
            NodeResponse::SelectNode(n) => {
                self.lemma_with_selected(n);
            },
            NodeResponse::RaiseNode(n) => {
                self.lemma_with_raised(n);
            },
            NodeResponse::MoveNode { node, drag_delta } => {
                self.lemma_with_moved(node, drag_delta);
            },
            NodeResponse::DeleteNodeUi(n) => {
                if self.is_live(n) {
                    self.lemma_with_removed(n);
                }
            },
            _ => {},
        }
    }

    /// Whatever responses a consistent session acts on, in whatever order, and
    /// however the frame ends, it stays consistent.
    pub proof fn lemma_after_frame<U>(self, responses: Seq<NodeResponse<U>>, released: bool)
        requires
            self.consistent(),
        ensures
            self.after_all(responses).consistent(),
            self.after_frame(responses, released).consistent(),
        decreases responses.len(),
    {
        if responses.len() > 0 {
            self.lemma_after_frame(responses.drop_last(), released);
            self.after_all(responses.drop_last()).lemma_after(responses.last());
        }
    }
}

} // verus!
