[package]
name = "node_graph"
version = "0.1.0"
edition = "2021"
publish = false

[dependencies]
slotmap = "1"
egui = "0.23"
ndarray = "0.15"
num-traits = "0.2"
serde = { version = "1", features = ["derive"] }
