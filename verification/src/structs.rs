//! The editor's data: drag payloads, move requests, the editor state, and
//! the outcome of type inference for a slot.
use vstd::prelude::*;
use crate::ast::{Expr, Statement, Type};

verus! {

/// What is being dragged: a new statement from the palette, an existing
/// statement (by its path), or a new expression from the palette.
#[derive(Debug)]
pub enum DraggedBlock {
    NewStatement(Statement),
    MoveStatement { path: Vec<usize> },
    NewExpr(Expr),
}

/// A request to move the statement at `src_path` into the list at
/// `target_path`, before position `insert_idx` of that list (as it was
/// before the statement was taken out).
#[derive(Clone, Debug)]
pub struct MoveRequest {
    pub src_path: Vec<usize>,
    pub target_path: Vec<usize>,
    pub insert_idx: usize,
}

/// The editor's program and the code last generated from it.
#[derive(Debug)]
pub struct VplState {
    pub blocks: Vec<Statement>,
    pub generated_code: String,
}

impl Default for VplState {
    /// An empty program with no generated code.
    fn default() -> (r: Self)
        ensures
            r.blocks@.len() == 0,
            r.generated_code@ == Seq::<char>::empty(),
    {
        VplState { blocks: Vec::new(), generated_code: String::new() }
    }
}

/// The result of inferring the type of an expression: a type, no
/// conclusion, or a contradiction.
#[derive(Clone, Copy, Debug, PartialEq, Eq, Structural)]
pub enum InferResult {
    Type(Type),
    Unknown,
    Invalid,
}

} // verus!
