//! Network topology descriptors: a small line-oriented text format that
//! declares typed nodes and the links between them, parsed into a graph with
//! line-numbered diagnostics; plus the command interpreter and input editing
//! rules of the in-game text console.
pub mod text;
pub mod asset;
pub mod graph;
pub mod command;
pub mod console;
