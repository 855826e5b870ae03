//! Decision logic of the export generator for the arcdps plugin host.
//!
//! The generator turns a declarative list of optional callback bindings into
//! the host's fixed export table, the adapters that bridge idiomatic callbacks
//! to the host's native signatures, and the nested "unofficial extras"
//! subscriber protocol. This crate states and proves those decisions over plain
//! values; emitting Rust tokens from them is left to a thin procedural layer.
use vstd::prelude::*;

pub mod slot;
pub mod text;
pub mod decl;
pub mod export;
pub mod adapter;
pub mod extras;
pub mod state;
