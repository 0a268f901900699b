//! A node-graph data model with typed slots, and the controller that turns
//! pointer events into graph edits.
//!
//! `graph` holds the nodes, their slots and the connections; `editor` adds
//! the state of one editing surface; `widget` resolves what was sensed of one
//! node in one frame into responses, which the editor acts on. `model` and
//! `session` say what a graph and a session are and what holds of them.

pub mod arena;
pub mod editor;
pub mod geometry;
pub mod graph;
pub mod key;
pub mod math;
pub mod model;
pub mod node;
pub mod order;
pub mod response;
pub mod selection;
pub mod session;
pub mod store;
pub mod widget;
