//! Merging of WebAssembly core modules into one multi-memory module.

pub mod bindings;
pub mod model;
pub mod counting;
pub mod callgraph;
pub mod text;
pub mod component;
pub mod plan;
pub mod encode;
pub mod merge;
pub mod ops;
pub mod analyze;
pub mod rewrite;
pub mod copies;
pub mod linking;
pub mod sharing;
pub mod specialize;
pub mod isolation;
pub mod wiring;
pub mod cli;
