//! The decisions of the editor's views: what a drop does, which type each
//! expression slot expects, and which operators a binary block offers.
use vstd::prelude::*;
use crate::ast::{
    Callee, Direction, Expr, Op, Statement, StatementView, Type, UnaryOp, statements_view,
};
use crate::structs::{DraggedBlock, MoveRequest};
use crate::utils::{
    is_ancestor, is_proper_prefix, is_type_compatible, type_compatible, unary_chain_len,
};

verus! {

broadcast use crate::ast::lemma_statements_view;

/// What a drop on a statement list does to that list: a new statement is
/// inserted at `insert_idx` when that is a position of the list.
pub open spec fn dropped_into(
    payload: DraggedBlock,
    blocks: Seq<StatementView>,
    insert_idx: usize,
) -> Seq<StatementView> {
    match payload {
        DraggedBlock::NewStatement(s) => if insert_idx <= blocks.len() {
            blocks.insert(insert_idx as int, s@)
        } else {
            blocks
        },
        DraggedBlock::MoveStatement { .. } => blocks,
        DraggedBlock::NewExpr(_) => blocks,
    }
}

/// Handles a drop on the list at `current_path`, before position
/// `insert_idx`: a new statement is inserted there; a dragged statement
/// becomes a move request, unless the list lies inside that statement;
/// an expression is ignored.
pub fn handle_drop(
    payload: &DraggedBlock,
    current_blocks: &mut Vec<Statement>,
    current_path: &[usize],
    insert_idx: usize,
    move_request: &mut Option<MoveRequest>,
)
    ensures
        statements_view(final(current_blocks)@) == dropped_into(
            *payload,
            statements_view(old(current_blocks)@),
            insert_idx,
        ),
        match *payload {
            DraggedBlock::MoveStatement { path } => if !is_proper_prefix(path@, current_path@) {
                &&& *final(move_request) is Some
                &&& (*final(move_request))->0.src_path@ == path@
                &&& (*final(move_request))->0.target_path@ == current_path@
                &&& (*final(move_request))->0.insert_idx == insert_idx
            } else {
                *final(move_request) == *old(move_request)
            },
            _ => *final(move_request) == *old(move_request),
        },
{
    match payload {
        DraggedBlock::NewStatement(new_stmt) => {
            if insert_idx <= current_blocks.len() {
                insert_copy(current_blocks, insert_idx, new_stmt);
            }
        },
        DraggedBlock::MoveStatement { path: src_path } => {
            if !is_ancestor(src_path.as_slice(), current_path) {
                *move_request = Some(
                    MoveRequest {
                        src_path: vstd::slice::slice_to_vec(src_path.as_slice()),
                        target_path: vstd::slice::slice_to_vec(current_path),
                        insert_idx,
                    },
                );
            }
        },
        DraggedBlock::NewExpr(_) => {},
    }
}

fn insert_copy(blocks: &mut Vec<Statement>, idx: usize, stmt: &Statement)
    requires
        idx <= old(blocks)@.len(),
    ensures
        statements_view(final(blocks)@) == statements_view(old(blocks)@).insert(idx as int, stmt@),
{
    blocks.insert(idx, stmt.deep_copy());
    proof {
        crate::ast::lemma_statements_view(blocks@);
        crate::ast::lemma_statements_view(old(blocks)@);
        assert(statements_view(blocks@) =~= statements_view(old(blocks)@).insert(
            idx as int,
            stmt@,
        ));
    }
}

/// The type that the expression slot of a statement expects, if any: a
/// direction for moving, turning and digging, a float for sleeping, a
/// number of times for a loop, a condition for `if` and `while`.
pub open spec fn slot_type(s: StatementView) -> Option<Type> {
    match s {
        StatementView::Sleep(_) => Some(Type::Float),
        StatementView::Move(_) => Some(Type::Direction),
        StatementView::Turn(_) => Some(Type::Direction),
        StatementView::Dig(_) => Some(Type::Direction),
        StatementView::If(_, _) => Some(Type::Boolean),
        StatementView::Loop(_, _) => Some(Type::Uint),
        StatementView::While(_, _) => Some(Type::Boolean),
        _ => None,
    }
}

/// The type that the expression slot of `stmt` expects, if any.
pub fn statement_slot_type(stmt: &Statement) -> (t: Option<Type>)
    ensures
        t == slot_type(stmt@),
{
    match stmt {
        Statement::Sleep(_) => Some(Type::Float),
        Statement::Move(_) => Some(Type::Direction),
        Statement::Turn(_) => Some(Type::Direction),
        Statement::Dig(_) => Some(Type::Direction),
        Statement::If(_, _) => Some(Type::Boolean),
        Statement::Loop(_, _) => Some(Type::Uint),
        Statement::While(_, _) => Some(Type::Boolean),
        _ => None,
    }
}

/// The type that both operands of a binary operator take: numbers for
/// arithmetic and comparisons, booleans for `And` and `Or`.
pub open spec fn operand_type(op: Op) -> Type {
    match op {
        Op::And | Op::Or => Type::Boolean,
        _ => Type::Uint,
    }
}

/// The type that the operand slots of a binary block expect.
pub fn binary_operand_type(op: Op) -> (t: Option<Type>)
    ensures
        t == Some(operand_type(op)),
{
    match op {
        Op::Add | Op::Sub | Op::Mul | Op::Div => Some(Type::Uint),
        Op::Eq | Op::Neq | Op::Lt | Op::Gt | Op::Le | Op::Ge => Some(Type::Uint),
        Op::And | Op::Or => Some(Type::Boolean),
    }
}

/// The type that the operand slot of a unary block expects: `Not` takes
/// a boolean.
pub fn unary_operand_type(op: UnaryOp) -> (t: Option<Type>)
    ensures
        t == Some(Type::Boolean),
{
    match op {
        UnaryOp::Not => Some(Type::Boolean),
    }
}

/// The type that the argument slots of a call expect, if any.
pub open spec fn arg_type(c: Callee) -> Option<Type> {
    match c {
        Callee::IsTouched => None,
        Callee::IsEmpty => Some(Type::Direction),
        Callee::Rand => Some(Type::Uint),
    }
}

/// The type that the argument slots of a call block expect, if any.
pub fn call_arg_type(callee: Callee) -> (t: Option<Type>)
    ensures
        t == arg_type(callee),
{
    match callee {
        Callee::IsTouched => None,
        Callee::IsEmpty => Some(Type::Direction),
        Callee::Rand => Some(Type::Uint),
    }
}

/// The operators, with their symbols, among which a binary block with
/// operator `op` lets the user choose: those of the same family.
pub open spec fn op_choices(op: Op) -> Seq<(Op, Seq<char>)> {
    match op {
        Op::Eq | Op::Neq | Op::Lt | Op::Gt | Op::Le | Op::Ge => seq![
            (Op::Eq, "=="@),
            (Op::Neq, "!="@),
            (Op::Lt, "<"@),
            (Op::Gt, ">"@),
            (Op::Le, "<="@),
            (Op::Ge, ">="@),
        ],
        Op::Add | Op::Sub | Op::Mul | Op::Div => seq![
            (Op::Add, "+"@),
            (Op::Sub, "-"@),
            (Op::Mul, "*"@),
            (Op::Div, "/"@),
        ],
        Op::And | Op::Or => seq![(Op::And, "and"@), (Op::Or, "or"@)],
    }
}

/// The operators, with their symbols, offered for a binary block whose
/// operator is `op`.
pub fn binary_op_choices(op: Op) -> (choices: Vec<(Op, &'static str)>)
    ensures
        choices@.len() == op_choices(op).len(),
        forall|i: int|
            0 <= i < choices@.len() ==> choices@[i].0 == op_choices(op)[i].0 && choices@[i].1@
                == op_choices(op)[i].1,
{
    match op {
        Op::Eq | Op::Neq | Op::Lt | Op::Gt | Op::Le | Op::Ge => vec![
            (Op::Eq, "=="),
            (Op::Neq, "!="),
            (Op::Lt, "<"),
            (Op::Gt, ">"),
            (Op::Le, "<="),
            (Op::Ge, ">="),
        ],
        Op::Add | Op::Sub | Op::Mul | Op::Div => vec![
            (Op::Add, "+"),
            (Op::Sub, "-"),
            (Op::Mul, "*"),
            (Op::Div, "/"),
        ],
        Op::And | Op::Or => vec![(Op::And, "and"), (Op::Or, "or")],
    }
}

/// The symbol under which `op` is shown: that of its entry among the
/// choices its block offers, or "?" where it has none.
pub fn op_symbol(op: Op) -> (s: &'static str)
    ensures
        exists|i: int|
            0 <= i < op_choices(op).len() && op_choices(op)[i].0 == op && s@ == op_choices(
                op,
            )[i].1,
{
    let choices = binary_op_choices(op);
    let n = choices.len();
    let mut i: usize = 0;
    while i < n
        invariant
            n == choices@.len(),
            choices@.len() == op_choices(op).len(),
            forall|j: int|
                0 <= j < choices@.len() ==> choices@[j].0 == op_choices(op)[j].0
                    && choices@[j].1@ == op_choices(op)[j].1,
            forall|j: int| 0 <= j < i ==> choices@[j].0 != op,
            0 <= i <= n,
        decreases n - i,
    {
        if choices[i].0 == op {
            return choices[i].1;
        }
        i = i + 1;
    }
    assert(false) by {
        match op {
            Op::Eq => assert(choices@[0].0 == op),
            Op::Neq => assert(choices@[1].0 == op),
            Op::Lt => assert(choices@[2].0 == op),
            Op::Gt => assert(choices@[3].0 == op),
            Op::Le => assert(choices@[4].0 == op),
            Op::Ge => assert(choices@[5].0 == op),
            Op::Add => assert(choices@[0].0 == op),
            Op::Sub => assert(choices@[1].0 == op),
            Op::Mul => assert(choices@[2].0 == op),
            Op::Div => assert(choices@[3].0 == op),
            Op::And => assert(choices@[0].0 == op),
            Op::Or => assert(choices@[1].0 == op),
        }
    }
    "?"
}

/// Drops `payload` on an expression slot that expects `expected`: a new
/// expression replaces the slot's content when its type fits; anything
/// else leaves the slot as it was. `checks` is what the type checker said
/// of the chain of the dropped expression (see `infer_expr_type`).
pub fn drop_on_slot(
    slot: &mut Expr,
    payload: &DraggedBlock,
    expected: Option<Type>,
    checks: &[Option<Type>],
)
    requires
        expected is Some && payload is NewExpr ==> checks@.len() == unary_chain_len(
            payload->NewExpr_0@,
        ),
    ensures
        final(slot)@ == match *payload {
            DraggedBlock::NewExpr(e) => if type_compatible(expected, e@, checks@) {
                e@
            } else {
                old(slot)@
            },
            _ => old(slot)@,
        },
{
    if let DraggedBlock::NewExpr(new_expr) = payload {
        if is_type_compatible(expected, new_expr, checks) {
            *slot = new_expr.deep_copy();
        }
    }
}

/// The number that a drag edit of a number block stores: negative values
/// become 0, and the value is taken modulo 2^32.
pub fn uint_from_drag(val: i64) -> (v: u32)
    ensures
        v == (if val < 0 {
            0
        } else {
            val % 0x1_0000_0000
        }),
{
    if val < 0 {
        0
    } else {
        (val % 0x1_0000_0000) as u32
    }
}

/// The directions offered for a direction block, with their labels.
pub fn direction_choices() -> (choices: Vec<(Direction, &'static str)>)
    ensures
        choices@.len() == 6,
        choices@[0].0 == Direction::Forward && choices@[0].1@ == "Forward"@,
        choices@[1].0 == Direction::Back && choices@[1].1@ == "Back"@,
        choices@[2].0 == Direction::Left && choices@[2].1@ == "Left"@,
        choices@[3].0 == Direction::Right && choices@[3].1@ == "Right"@,
        choices@[4].0 == Direction::Up && choices@[4].1@ == "Up"@,
        choices@[5].0 == Direction::Down && choices@[5].1@ == "Down"@,
{
    vec![
        (Direction::Forward, "Forward"),
        (Direction::Back, "Back"),
        (Direction::Left, "Left"),
        (Direction::Right, "Right"),
        (Direction::Up, "Up"),
        (Direction::Down, "Down"),
    ]
}

} // verus!
