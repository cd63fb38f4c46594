//! A verified core for a visual block-programming editor: the statement
//! tree and its path-addressed edits, drag-and-drop decisions, type
//! inference for expression slots, and code generation.
use vstd::prelude::*;

pub mod ast;
pub mod code;
pub mod colorizer;
pub mod laws;
pub mod laws_blocks;
pub mod renderer;
pub mod structs;
pub mod tree;
pub mod utils;
pub mod visual;

verus! {

} // verus!
