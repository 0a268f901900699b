//! One node in one frame: what the renderer measured of it goes in, the
//! responses that follow from it come out.

use vstd::prelude::*;
use crate::response::NodeResponse;
use crate::session::EditorView;
use crate::geometry::{
    clamp_coord, clamped, closer_than, is_closer_than, is_nonzero, Rect, ScreenPoint,
    DISTANCE_TO_CONNECT,
};
use crate::graph::Graph;
use crate::model::GraphView;
use crate::key::{NodeId, SlotId};
use crate::math::vector::Vector2;
use crate::node::Slot;

verus! {

/// How far the centre of the close button is from the node's top and right edges.
pub const CLOSE_BUTTON_OFFSET: i32 = 13;

/// The side of the close button.
pub const CLOSE_BUTTON_SIZE: i32 = 10;

/// The side of the square that a port takes up.
pub const PORT_SIZE: i32 = 10;

/// A port as the renderer laid it out and sensed it this frame.
#[derive(Clone, Copy, Debug)]
pub struct PortInput {
    pub slot: SlotId,
    /// The centre of the port.
    pub position: ScreenPoint,
    /// A drag began on the port in this frame.
    pub drag_started: bool,
}

/// What the renderer sensed of a node and of the pointer this frame.
#[derive(Clone, Debug)]
pub struct NodeFrame {
    /// The ports that were laid out: inputs first, then outputs, each in the
    /// node's own order.
    pub ports: Vec<PortInput>,
    /// Where the pointer hovers, if it is over the surface.
    pub pointer: Option<ScreenPoint>,
    /// A pointer button was let go in this frame, anywhere.
    pub any_released: bool,
    /// The node's payload allows the node to be deleted.
    pub can_delete: bool,
    /// The close button was clicked.
    pub close_clicked: bool,
    /// How far the node's body was dragged in this frame.
    pub drag_delta: ScreenPoint,
    /// The node's body was clicked with the primary button.
    pub clicked: bool,
}

/// The pointer is within reach of a port at `position`.
pub open spec fn within_reach(position: ScreenPoint, pointer: Option<ScreenPoint>) -> bool {
    match pointer {
        Some(p) => closer_than(position, p, DISTANCE_TO_CONNECT),
        None => false,
    }
}

/// Whether a slot gets a port: every slot but an input that takes constants only.
pub open spec fn has_port<ValueType>(slot: Slot<ValueType>) -> bool {
    match slot {
        Slot::Input(i) => i.kind.has_port(),
        Slot::Output(_) => true,
    }
}

/// What a drag that begins on a port starts, while no wire is in progress:
/// on a connected input it takes the connection off, anywhere else it
/// starts a wire.
pub open spec fn drag_start_events<NodeData, ValueType, U>(
    g: GraphView<NodeData, ValueType>,
    node: NodeId,
    ongoing: Option<(NodeId, SlotId)>,
    port: PortInput,
) -> Seq<NodeResponse<U>> {
    if port.drag_started && ongoing.is_none() {
        if g.is_input(port.slot@) && g.connections.dom().contains(port.slot@) {
            seq![
                NodeResponse::DisconnectEvent {
                    output: SlotId(g.connections[port.slot@]),
                    input: port.slot,
                },
            ]
        } else {
            seq![NodeResponse::ConnectEventStarted(node, port.slot)]
        }
    } else {
        seq![]
    }
}

/// Whether the wire in progress lands on a port of node `node`: it started
/// at another node, at a slot of the port's type, and the button was let
/// go with the pointer within reach of the port.
pub open spec fn wire_lands<NodeData, ValueType>(
    g: GraphView<NodeData, ValueType>,
    node: NodeId,
    origin: (NodeId, SlotId),
    port: PortInput,
    pointer: Option<ScreenPoint>,
    released: bool,
) -> bool {
    &&& origin.0 != node
    &&& g.slots[origin.1@].typ() == g.slots[port.slot@].typ()
    &&& within_reach(port.position, pointer)
    &&& released
}

/// What the wire in progress ends in at a port: a connection between the
/// port and the wire's origin, whichever of the two is the input, if the
/// wire lands and the two are an input and an output.
pub open spec fn drag_end_events<NodeData, ValueType, U>(
    g: GraphView<NodeData, ValueType>,
    node: NodeId,
    ongoing: Option<(NodeId, SlotId)>,
    port: PortInput,
    pointer: Option<ScreenPoint>,
    released: bool,
) -> Seq<NodeResponse<U>> {
    match ongoing {
        Some(origin) => {
            if wire_lands(g, node, origin, port, pointer, released) {
                if g.is_input(port.slot@) && g.is_output(origin.1@) {
                    seq![NodeResponse::ConnectEventEnded { output: origin.1, input: port.slot }]
                } else if g.is_output(port.slot@) && g.is_input(origin.1@) {
                    seq![NodeResponse::ConnectEventEnded { output: port.slot, input: origin.1 }]
                } else {
                    seq![]
                }
            } else {
                seq![]
            }
        },
        None => seq![],
    }
}

/// The responses of one port: what a drag started, then what a wire ended in.
pub open spec fn port_events<NodeData, ValueType, U>(
    g: GraphView<NodeData, ValueType>,
    node: NodeId,
    ongoing: Option<(NodeId, SlotId)>,
    port: PortInput,
    pointer: Option<ScreenPoint>,
    released: bool,
) -> Seq<NodeResponse<U>> {
    drag_start_events(g, node, ongoing, port) + drag_end_events(
        g,
        node,
        ongoing,
        port,
        pointer,
        released,
    )
}

/// The responses of a list of ports, in order. A slot without a port
/// contributes nothing.
pub open spec fn ports_events<NodeData, ValueType, U>(
    g: GraphView<NodeData, ValueType>,
    node: NodeId,
    ongoing: Option<(NodeId, SlotId)>,
    ports: Seq<PortInput>,
    pointer: Option<ScreenPoint>,
    released: bool,
) -> Seq<NodeResponse<U>>
    decreases ports.len(),
{
    if ports.len() == 0 {
        seq![]
    } else {
        let earlier = ports_events(g, node, ongoing, ports.drop_last(), pointer, released);
        if has_port(g.slots[ports.last().slot@]) {
            earlier + port_events(g, node, ongoing, ports.last(), pointer, released)
        } else {
            earlier
        }
    }
}

/// What follows from the node's own controls: a request to delete the node
/// if its close button was clicked and it may be deleted, then a move and a
/// raise if its body was dragged.
pub open spec fn body_events<U>(node: NodeId, frame: NodeFrame) -> Seq<NodeResponse<U>> {
    let delete = if frame.can_delete && frame.close_clicked {
        seq![NodeResponse::DeleteNodeUi(node)]
    } else {
        seq![]
    };
    let moved = if frame.drag_delta.x != 0 || frame.drag_delta.y != 0 {
        seq![
            NodeResponse::MoveNode { node, drag_delta: frame.drag_delta },
            NodeResponse::RaiseNode(node),
        ]
    } else {
        seq![]
    };
    delete + moved
}

/// All the responses of a node in a frame: those of the embedder's own
/// widgets, those of the ports, those of the node's controls, and, only if
/// there is none of these and the body was clicked, a selection and a raise.
pub open spec fn node_events<NodeData, ValueType, U>(
    g: GraphView<NodeData, ValueType>,
    node: NodeId,
    ongoing: Option<(NodeId, SlotId)>,
    frame: NodeFrame,
    user: Seq<NodeResponse<U>>,
) -> Seq<NodeResponse<U>> {
    let before_click = user + ports_events(
        g,
        node,
        ongoing,
        frame.ports@,
        frame.pointer,
        frame.any_released,
    ) + body_events(node, frame);
    if before_click.len() == 0 && frame.clicked {
        seq![NodeResponse::SelectNode(node), NodeResponse::RaiseNode(node)]
    } else {
        before_click
    }
}

/// A wire from an output slot, let go of within reach of an input slot of
/// the same type on another node, ends in exactly one response, and acting
/// on that response connects the two.
pub proof fn lemma_landed_wire_connects<NodeData, ValueType, U>(
    e: EditorView<NodeData, ValueType>,
    node: NodeId,
    port: PortInput,
    pointer: Option<ScreenPoint>,
    output: SlotId,
)
    requires
        e.consistent(),
        e.connection_in_progress matches Some(origin) && origin.1 == output,
        e.graph.is_output(output@),
        e.graph.is_input(port.slot@),
        e.graph.owns(node@, port.slot@),
        e.graph.slots[output@].node() != node,
        e.graph.slots[output@].typ() == e.graph.slots[port.slot@].typ(),
        within_reach(port.position, pointer),
    ensures
        port_events::<NodeData, ValueType, U>(
            e.graph,
            node,
            e.connection_in_progress,
            port,
            pointer,
            true,
        ) == seq![NodeResponse::<U>::ConnectEventEnded { output, input: port.slot }],
        e.after(NodeResponse::<U>::ConnectEventEnded { output, input: port.slot }).graph.connection_of(
            port.slot,
        ) == Some(output),
{
    let origin = e.connection_in_progress.unwrap();
    let events = port_events::<NodeData, ValueType, U>(
        e.graph,
        node,
        e.connection_in_progress,
        port,
        pointer,
        true,
    );
    assert(events =~= seq![NodeResponse::<U>::ConnectEventEnded { output, input: port.slot }]);
}

/// A wire that lands nowhere ends in no response, and the frame in which
/// the button was let go leaves the graph as it was and no wire in progress.
pub proof fn lemma_abandoned_wire<NodeData, ValueType, U>(
    e: EditorView<NodeData, ValueType>,
    node: NodeId,
    port: PortInput,
    pointer: Option<ScreenPoint>,
)
    requires
        e.connection_in_progress matches Some(origin) && !wire_lands(
            e.graph,
            node,
            origin,
            port,
            pointer,
            true,
        ),
    ensures
        port_events::<NodeData, ValueType, U>(
            e.graph,
            node,
            e.connection_in_progress,
            port,
            pointer,
            true,
        ) == Seq::<NodeResponse<U>>::empty(),
        e.after_frame(Seq::<NodeResponse<U>>::empty(), true).graph == e.graph,
        e.after_frame(Seq::<NodeResponse<U>>::empty(), true).connection_in_progress.is_none(),
{
    let events = port_events::<NodeData, ValueType, U>(
        e.graph,
        node,
        e.connection_in_progress,
        port,
        pointer,
        true,
    );
    assert(events =~= Seq::<NodeResponse<U>>::empty());
}

/// A wire never ends at a port of another type or of the node it started at.
pub proof fn lemma_wire_needs_match<NodeData, ValueType, U>(
    g: GraphView<NodeData, ValueType>,
    node: NodeId,
    origin: (NodeId, SlotId),
    port: PortInput,
    pointer: Option<ScreenPoint>,
    released: bool,
)
    requires
        g.slots[origin.1@].typ() != g.slots[port.slot@].typ() || origin.0 == node,
    ensures
        drag_end_events::<NodeData, ValueType, U>(g, node, Some(origin), port, pointer, released)
            == Seq::<NodeResponse<U>>::empty(),
{
}

/// A drag that begins on a connected input, while no wire is in progress,
/// gives exactly one response: the disconnection of that input from the
/// output that fed it. Acting on it leaves the input unconnected and starts
/// no wire.
pub proof fn lemma_drag_off_input_disconnects<NodeData, ValueType, U>(
    e: EditorView<NodeData, ValueType>,
    node: NodeId,
    port: PortInput,
    pointer: Option<ScreenPoint>,
    released: bool,
    output: SlotId,
)
    requires
        e.consistent(),
        e.connection_in_progress.is_none(),
        e.graph.connection_of(port.slot) == Some(output),
        port.drag_started,
    ensures
        port_events::<NodeData, ValueType, U>(e.graph, node, None, port, pointer, released)
            == seq![NodeResponse::<U>::DisconnectEvent { output, input: port.slot }],
        e.after(NodeResponse::<U>::DisconnectEvent { output, input: port.slot }).graph.connection_of(
            port.slot,
        ).is_none(),
        e.after(
            NodeResponse::<U>::DisconnectEvent { output, input: port.slot },
        ).connection_in_progress.is_none(),
{
    assert(e.graph.connection_is_sound(port.slot@));
    let events = port_events::<NodeData, ValueType, U>(
        e.graph,
        node,
        None,
        port,
        pointer,
        released,
    );
    assert(events =~= seq![NodeResponse::<U>::DisconnectEvent { output, input: port.slot }]);
}

/// A click on a node's body in a frame that gave no other response gives
/// exactly a selection followed by a raise, both of that node.
pub proof fn lemma_plain_click_selects<NodeData, ValueType, U>(
    g: GraphView<NodeData, ValueType>,
    node: NodeId,
    ongoing: Option<(NodeId, SlotId)>,
    frame: NodeFrame,
    user: Seq<NodeResponse<U>>,
)
    requires
        frame.clicked,
        user.len() == 0,
        ports_events::<NodeData, ValueType, U>(
            g,
            node,
            ongoing,
            frame.ports@,
            frame.pointer,
            frame.any_released,
        ).len() == 0,
        body_events::<U>(node, frame).len() == 0,
    ensures
        node_events(g, node, ongoing, frame, user) == seq![
            NodeResponse::<U>::SelectNode(node),
            NodeResponse::<U>::RaiseNode(node),
        ],
{
}

/// A click gives no selection in a frame that gave any other response.
pub proof fn lemma_click_yields_to_others<NodeData, ValueType, U>(
    g: GraphView<NodeData, ValueType>,
    node: NodeId,
    ongoing: Option<(NodeId, SlotId)>,
    frame: NodeFrame,
    user: Seq<NodeResponse<U>>,
)
    requires
        user.len() + ports_events::<NodeData, ValueType, U>(
            g,
            node,
            ongoing,
            frame.ports@,
            frame.pointer,
            frame.any_released,
        ).len() + body_events::<U>(node, frame).len() > 0,
    ensures
        node_events(g, node, ongoing, frame, user) == user + ports_events::<NodeData, ValueType, U>(
            g,
            node,
            ongoing,
            frame.ports@,
            frame.pointer,
            frame.any_released,
        ) + body_events::<U>(node, frame),
{
}

/// A node of a graph, while it is shown.
pub struct NodeWidget<'a, NodeData, ValueType> {
    pub graph: &'a Graph<NodeData, ValueType>,
    pub node_id: NodeId,
    /// Where the wire being dragged started, if one is being dragged.
    pub ongoing_drag: Option<(NodeId, SlotId)>,
}

impl<'a, NodeData, ValueType> NodeWidget<'a, NodeData, ValueType> {
    /// The graph is well formed, and the origin of the wire in progress, if
    /// there is one, is a slot of the graph.
    pub open spec fn ready(self) -> bool {
        &&& self.graph.wf()
        &&& match self.ongoing_drag {
            Some((_, origin)) => self.graph@.slots.dom().contains(origin@),
            None => true,
        }
    }

    /// The widget is ready, and the slot of each port is a slot of the graph.
    pub open spec fn ready_for(self, ports: Seq<PortInput>) -> bool {
        &&& self.ready()
        &&& forall|i: int|
            0 <= i < ports.len() ==> self.graph@.slots.dom().contains(#[trigger] ports[i].slot@)
    }

    /// The square that the close button takes up in a node's rectangle: at
    /// its top right corner.
    pub open spec fn close_button_area(node_rect: Rect) -> Rect {
        Rect::around(
            Vector2 {
                x: clamp_coord(node_rect.max.x - CLOSE_BUTTON_OFFSET),
                y: clamp_coord(node_rect.min.y + CLOSE_BUTTON_OFFSET),
            },
            CLOSE_BUTTON_SIZE,
        )
    }

    /// Computes `close_button_area`.
    pub fn close_button(node_rect: Rect) -> (area: Rect)
        ensures
            area == Self::close_button_area(node_rect),
    {
        let center = Vector2 {
            x: clamped(node_rect.max.x as i64 - CLOSE_BUTTON_OFFSET as i64),
            y: clamped(node_rect.min.y as i64 + CLOSE_BUTTON_OFFSET as i64),
        };
        Rect::from_center_size(center, CLOSE_BUTTON_SIZE)
    }

    /// Appends the responses of one port to `responses`.
    pub fn draw_port<U>(
        &self,
        port: PortInput,
        pointer: Option<ScreenPoint>,
        any_released: bool,
        responses: &mut Vec<NodeResponse<U>>,
    )
        requires
            self.ready(),
            self.graph@.slots.dom().contains(port.slot@),
        ensures
            final(responses)@ == old(responses)@ + port_events::<NodeData, ValueType, U>(
                self.graph@,
                self.node_id,
                self.ongoing_drag,
                port,
                pointer,
                any_released,
            ),
    {
        let ghost g = self.graph@;
        let ghost start = responses@;
        let port_type = self.graph.slot_type(port.slot);
        let close_enough = match pointer {
            Some(p) => is_closer_than(port.position, p, DISTANCE_TO_CONNECT),
            None => false,
        };
        if port.drag_started && self.ongoing_drag.is_none() {
            let connected = if self.graph.is_input(port.slot) {
                self.graph.connection_of(port.slot)
            } else {
                None
            };
            match connected {
                Some(output) => {
                    responses.push(NodeResponse::DisconnectEvent { output, input: port.slot });
                },
                None => {
                    responses.push(NodeResponse::ConnectEventStarted(self.node_id, port.slot));
                },
            }
        }
        let ghost middle = responses@;
        assert(middle =~= start + drag_start_events::<NodeData, ValueType, U>(
            g,
            self.node_id,
            self.ongoing_drag,
            port,
        ));
        match self.ongoing_drag {
            Some((origin_node, origin_slot)) => {
                if origin_node != self.node_id && self.graph.slot_type(origin_slot) == port_type
                    && close_enough && any_released {
                    if self.graph.is_input(port.slot) && self.graph.is_output(origin_slot) {
                        responses.push(
                            NodeResponse::ConnectEventEnded { output: origin_slot, input: port.slot },
                        );
                    } else if self.graph.is_output(port.slot) && self.graph.is_input(origin_slot) {
                        responses.push(
                            NodeResponse::ConnectEventEnded { output: port.slot, input: origin_slot },
                        );
                    }
                }
            },
            None => {},
        }
        assert(responses@ =~= middle + drag_end_events::<NodeData, ValueType, U>(
            g,
            self.node_id,
            self.ongoing_drag,
            port,
            pointer,
            any_released,
        ));
        assert(responses@ =~= start + port_events::<NodeData, ValueType, U>(
            g,
            self.node_id,
            self.ongoing_drag,
            port,
            pointer,
            any_released,
        ));
    }

    /// Resolves the node's frame: takes the responses of the embedder's own
    /// widgets and returns them followed by the node's own.
    pub fn show<U>(&self, frame: &NodeFrame, user: Vec<NodeResponse<U>>) -> (responses: Vec<
        NodeResponse<U>,
    >)
        requires
            self.ready_for(frame.ports@),
        ensures
            responses@ == node_events(
                self.graph@,
                self.node_id,
                self.ongoing_drag,
                *frame,
                user@,
            ),
    {
        let ghost g = self.graph@;
        let mut responses = user;
        let mut at: usize = 0;
        while at < frame.ports.len()
            invariant
                at <= frame.ports.len(),
                self.ready_for(frame.ports@),
                g == self.graph@,
                responses@ == user@ + ports_events::<NodeData, ValueType, U>(
                    g,
                    self.node_id,
                    self.ongoing_drag,
                    frame.ports@.take(at as int),
                    frame.pointer,
                    frame.any_released,
                ),
            decreases frame.ports.len() - at,
        {
            let port = frame.ports[at];
            proof {
                assert(frame.ports@.take(at + 1).drop_last() =~= frame.ports@.take(at as int));
                assert(frame.ports@.take(at + 1).last() == port);
                assert(g.slots.dom().contains(frame.ports@[at as int].slot@));
            }
            let drawn = match self.graph.slot(port.slot) {
                Some(Slot::Input(i)) => i.kind.shows_port(),
                _ => true,
            };
            if drawn {
                self.draw_port(port, frame.pointer, frame.any_released, &mut responses);
            }
            at = at + 1;
        }
        proof {
            assert(frame.ports@.take(at as int) =~= frame.ports@);
        }
        let ghost after_ports = responses@;
        if frame.can_delete && frame.close_clicked {
            responses.push(NodeResponse::DeleteNodeUi(self.node_id));
        }
        if is_nonzero(frame.drag_delta) {
            responses.push(
                NodeResponse::MoveNode { node: self.node_id, drag_delta: frame.drag_delta },
            );
            responses.push(NodeResponse::RaiseNode(self.node_id));
        }
        proof {
            assert(responses@ =~= after_ports + body_events::<U>(self.node_id, *frame));
        }
        if responses.len() == 0 && frame.clicked {
            responses.push(NodeResponse::SelectNode(self.node_id));
            responses.push(NodeResponse::RaiseNode(self.node_id));
            proof {
                assert(responses@ =~= seq![
                    NodeResponse::<U>::SelectNode(self.node_id),
                    NodeResponse::<U>::RaiseNode(self.node_id),
                ]);
            }
        }
        responses
    }
}

} // verus!
