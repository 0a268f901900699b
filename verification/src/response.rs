//! The events that a frame produces.

use vstd::prelude::*;
use crate::geometry::ScreenPoint;
use crate::key::{NodeId, SlotId};

verus! {

/// What happened to a node while it was shown, for the session and the
/// embedder to act on. `User` carries whatever the embedder's own widgets
/// reported and is handed through as it is.
#[derive(Clone, Debug, PartialEq, Eq)]
pub enum NodeResponse<UserResponse> {
    ConnectEventStarted(NodeId, SlotId),
    ConnectEventEnded { output: SlotId, input: SlotId },
    CreatedNode(NodeId),
    SelectNode(NodeId),
    /// The user asked for the node to be deleted.
    DeleteNodeUi(NodeId),
    /// The node has been deleted: it is no longer in the graph.
    DeleteNodeFull { node_id: NodeId },
    DisconnectEvent { output: SlotId, input: SlotId },
    /// The node was interacted with and goes on top.
    RaiseNode(NodeId),
    MoveNode { node: NodeId, drag_delta: ScreenPoint },
    User(UserResponse),
}

} // verus!
