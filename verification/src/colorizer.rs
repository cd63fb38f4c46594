//! The colour of each kind of block.
use vstd::prelude::*;
use crate::ast::{Statement, StatementView};

pub mod colors;

verus! {

/// An opaque colour given by its red, green and blue components.
#[derive(Clone, Copy, Debug, PartialEq, Eq, Structural)]
pub struct Rgb {
    pub r: u8,
    pub g: u8,
    pub b: u8,
}

/// The colour of a statement's block, by its kind: motion, looks,
/// control, variables or events.
pub open spec fn stmt_color(s: StatementView) -> Rgb {
    match s {
        StatementView::Move(_) | StatementView::Turn(_) | StatementView::Dig(_) => colors::motion(),
        StatementView::Print(_) => colors::looks(),
        StatementView::Sleep(_) | StatementView::If(_, _) | StatementView::Loop(_, _)
        | StatementView::While(_, _) => colors::control(),
        StatementView::Let(_, _) => colors::variables(),
        StatementView::Send(_) | StatementView::Receive(_) => colors::event(),
    }
}

/// The colour of the block of `stmt`.
pub fn get_stmt_color(stmt: &Statement) -> (c: Rgb)
    ensures
        c == stmt_color(stmt@),
{
    match stmt {
        Statement::Move(_) | Statement::Turn(_) | Statement::Dig(_) => colors::motion(),
        Statement::Print(_) => colors::looks(),
        Statement::Sleep(_) | Statement::If(_, _) | Statement::Loop(_, _) | Statement::While(
            _,
            _,
        ) => colors::control(),
        Statement::Let(_, _) => colors::variables(),
        Statement::Send(_) | Statement::Receive(_) => colors::event(),
    }
}

} // verus!
