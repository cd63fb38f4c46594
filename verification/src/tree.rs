//! Paths into a statement tree and the edits addressed by them, stated on
//! the tree's view.
//!
//! A path is a sequence of indices: its first index picks a statement of
//! the top-level list, each further index picks a statement of the body of
//! the statement picked before it. Only `If`, `Loop` and `While` have a body.
use vstd::prelude::*;
use crate::ast::{Statement, StatementView, statement_view};

verus! {

/// The body of a statement, if it is one of the nesting statements.
pub open spec fn body_of(s: StatementView) -> Option<Seq<StatementView>> {
    match s {
        StatementView::If(_, b) => Some(b),
        StatementView::Loop(_, b) => Some(b),
        StatementView::While(_, b) => Some(b),
        _ => None,
    }
}

/// The statement `s` with its body replaced by `b` (unchanged if it has none).
pub open spec fn with_body(s: StatementView, b: Seq<StatementView>) -> StatementView {
    match s {
        StatementView::If(c, _) => StatementView::If(c, b),
        StatementView::Loop(c, _) => StatementView::Loop(c, b),
        StatementView::While(c, _) => StatementView::While(c, b),
        _ => s,
    }
}

/// The statement that `path` addresses in `blocks`, if any.
pub open spec fn statement_at(blocks: Seq<StatementView>, path: Seq<usize>) -> Option<
    StatementView,
>
    decreases path.len(),
{
    if path.len() == 0 || path[0] >= blocks.len() {
        None
    } else if path.len() == 1 {
        Some(blocks[path[0] as int])
    } else {
        match body_of(blocks[path[0] as int]) {
            Some(b) => statement_at(b, path.drop_first()),
            None => None,
        }
    }
}

/// The statement list that `path` addresses in `blocks`: the top-level list
/// for the empty path, else the body of the statement that the path
/// addresses, if that statement has one.
pub open spec fn list_at(blocks: Seq<StatementView>, path: Seq<usize>) -> Option<
    Seq<StatementView>,
>
    decreases path.len(),
{
    if path.len() == 0 {
        Some(blocks)
    } else if path[0] >= blocks.len() {
        None
    } else {
        match body_of(blocks[path[0] as int]) {
            Some(b) => list_at(b, path.drop_first()),
            None => None,
        }
    }
}

/// `blocks` with the statement that `path` addresses taken out; `blocks`
/// itself where `path` addresses no statement.
pub open spec fn removed_at(blocks: Seq<StatementView>, path: Seq<usize>) -> Seq<StatementView>
    decreases path.len(),
{
    if path.len() == 0 || path[0] >= blocks.len() {
        blocks
    } else if path.len() == 1 {
        blocks.remove(path[0] as int)
    } else {
        match body_of(blocks[path[0] as int]) {
            Some(b) => blocks.update(
                path[0] as int,
                with_body(blocks[path[0] as int], removed_at(b, path.drop_first())),
            ),
            None => blocks,
        }
    }
}

/// `blocks` with `s` inserted into the list that `target` addresses, at
/// `idx` or at the end of that list where `idx` is past it; `blocks` itself
/// where `target` addresses no list.
pub open spec fn inserted_at(
    blocks: Seq<StatementView>,
    target: Seq<usize>,
    idx: usize,
    s: StatementView,
) -> Seq<StatementView>
    decreases target.len(),
{
    if target.len() == 0 {
        blocks.insert(if idx <= blocks.len() { idx as int } else { blocks.len() as int }, s)
    } else if target[0] >= blocks.len() {
        blocks
    } else {
        match body_of(blocks[target[0] as int]) {
            Some(b) => blocks.update(
                target[0] as int,
                with_body(blocks[target[0] as int], inserted_at(b, target.drop_first(), idx, s)),
            ),
            None => blocks,
        }
    }
}

/// Replacing the body of a statement by its own body changes nothing.
pub proof fn lemma_with_own_body(s: StatementView)
    requires
        body_of(s) is Some,
    ensures
        with_body(s, body_of(s)->0) == s,
{
}

/// Where `path` addresses no statement, removing at `path` changes nothing.
pub proof fn lemma_remove_missing(blocks: Seq<StatementView>, path: Seq<usize>)
    requires
        statement_at(blocks, path) is None,
    ensures
        removed_at(blocks, path) == blocks,
    decreases path.len(),
{
    if path.len() > 1 && path[0] < blocks.len() {
        let i = path[0] as int;
        if let Some(b) = body_of(blocks[i]) {
            lemma_remove_missing(b, path.drop_first());
            lemma_with_own_body(blocks[i]);
            assert(blocks.update(i, blocks[i]) =~= blocks);
        }
    }
}

/// The view of an optional statement.
pub open spec fn opt_statement_view(o: Option<Statement>) -> Option<StatementView> {
    match o {
        Some(s) => Some(statement_view(s)),
        None => None,
    }
}

} // verus!
