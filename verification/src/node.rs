//! The records of a graph: nodes and their slots.

use vstd::prelude::*;
use crate::key::{NodeId, SlotId};

verus! {

/// The declared type of a slot. The embedder gives each tag its meaning; two
/// slots can be wired together when their tags are equal.
#[derive(Clone, Copy, Debug, PartialEq, Eq, Structural, Hash)]
pub struct DataType(pub u32);

/// Whether an input slot takes a connection, an inline constant, or either.
#[derive(Clone, Copy, Debug, PartialEq, Eq, Structural, Hash)]
pub enum InputParamKind {
    ConnectionOnly,
    ConstantOnly,
    ConnectionOrConstant,
}

impl InputParamKind {
    /// Whether a slot of this kind shows a port that a wire can end in.
    pub open spec fn has_port(self) -> bool {
        self != InputParamKind::ConstantOnly
    }

    /// Decides `has_port`.
    pub fn shows_port(self) -> (b: bool)
        ensures
            b == self.has_port(),
    {
        match self {
            InputParamKind::ConnectionOnly => true,
            InputParamKind::ConstantOnly => false,
            InputParamKind::ConnectionOrConstant => true,
        }
    }
}

/// A node: a label, its slots in display order, and the embedder's payload.
pub struct Node<T> {
    pub id: NodeId,
    pub label: String,
    pub inputs: Vec<(String, SlotId)>,
    pub outputs: Vec<(String, SlotId)>,
    pub data: T,
}

/// An input slot. `value` is the inline constant, meaningful while the slot
/// has no connection.
#[derive(Debug, Clone)]
pub struct Input<Type, Value> {
    pub id: SlotId,
    pub typ: Type,
    pub kind: InputParamKind,
    pub value: Value,
    pub node: NodeId,
}

/// An output slot.
#[derive(Debug, Clone)]
pub struct Output<Type> {
    pub id: SlotId,
    pub node: NodeId,
    pub typ: Type,
}

/// A slot of either direction, as the graph stores it.
#[derive(Debug, Clone)]
pub enum Slot<ValueType> {
    Input(Input<DataType, ValueType>),
    Output(Output<DataType>),
}

impl<ValueType> Slot<ValueType> {
    /// The slot's own key.
    pub open spec fn id(self) -> SlotId {
        match self {
            Slot::Input(i) => i.id,
            Slot::Output(o) => o.id,
        }
    }

    /// The node that owns the slot.
    pub open spec fn node(self) -> NodeId {
        match self {
            Slot::Input(i) => i.node,
            Slot::Output(o) => o.node,
        }
    }

    /// The slot's declared type.
    pub open spec fn typ(self) -> DataType {
        match self {
            Slot::Input(i) => i.typ,
            Slot::Output(o) => o.typ,
        }
    }
}

/// The names and keys of a slot list, in order.
pub open spec fn slot_list_view(list: Seq<(String, SlotId)>) -> Seq<(Seq<char>, SlotId)> {
    Seq::new(list.len(), |i: int| (list[i].0@, list[i].1))
}

/// What a node is, apart from how its strings and lists are stored.
#[verifier::ext_equal]
pub ghost struct NodeView<T> {
    pub id: NodeId,
    pub label: Seq<char>,
    pub inputs: Seq<(Seq<char>, SlotId)>,
    pub outputs: Seq<(Seq<char>, SlotId)>,
    pub data: T,
}

impl<T> View for Node<T> {
    type V = NodeView<T>;

    open spec fn view(&self) -> NodeView<T> {
        NodeView {
            id: self.id,
            label: self.label@,
            inputs: slot_list_view(self.inputs@),
            outputs: slot_list_view(self.outputs@),
            data: self.data,
        }
    }
}

} // verus!
