//! Edits of the statement tree by path, and type inference for slots.
use vstd::prelude::*;
use crate::ast::{
    Callee, Expr, ExprView, Op, Statement, StatementView, Type, statement_view, statements_view,
    lemma_statements_view,
};
use crate::structs::InferResult;
use crate::tree::{opt_statement_view, statement_at, removed_at, inserted_at};

verus! {

broadcast use lemma_statements_view;

/// Takes the statement that `path` addresses out of `blocks` and returns
/// it; returns `None` and leaves `blocks` as it was where `path` addresses
/// no statement.
pub fn remove_statement_at_path(blocks: &mut Vec<Statement>, path: &[usize]) -> (removed: Option<
    Statement,
>)
    ensures
        opt_statement_view(removed) == statement_at(statements_view(old(blocks)@), path@),
        statements_view(final(blocks)@) == removed_at(statements_view(old(blocks)@), path@),
{
    assert(path@.skip(0) =~= path@);
    remove_from(blocks, path, 0)
}

fn remove_from(blocks: &mut Vec<Statement>, path: &[usize], depth: usize) -> (removed: Option<
    Statement,
>)
    requires
        depth <= path@.len(),
    ensures
        opt_statement_view(removed) == statement_at(
            statements_view(old(blocks)@),
            path@.skip(depth as int),
        ),
        statements_view(final(blocks)@) == removed_at(
            statements_view(old(blocks)@),
            path@.skip(depth as int),
        ),
    decreases path@.len() - depth,
{
    let ghost rest = path@.skip(depth as int);
    if depth >= path.len() {
        return None;
    }
    let head = path[depth];
    if path.len() - depth == 1 {
        if head < blocks.len() {
            let s = blocks.remove(head);
            assert(statements_view(blocks@) =~= statements_view(old(blocks)@).remove(head as int));
            return Some(s);
        }
        return None;
    }
    if head >= blocks.len() {
        return None;
    }
    assert(rest.drop_first() =~= path@.skip(depth + 1));
    let nests = match &blocks[head] {
        Statement::If(_, _) | Statement::Loop(_, _) | Statement::While(_, _) => true,
        _ => false,
    };
    assert(statements_view(old(blocks)@)[head as int] == statement_view(old(blocks)@[head as int]));
    if !nests {
        return None;
    }
    let body = match &mut blocks[head] {
        Statement::If(_, body) => body,
        Statement::Loop(_, body) => body,
        Statement::While(_, body) => body,
        _ => return None,
    };
    remove_from(body, path, depth + 1)
}

/// Inserts `stmt` into the statement list that `target_path` addresses, at
/// `insert_idx`, or at the end of that list where `insert_idx` is past it;
/// leaves `blocks` as it was where `target_path` addresses no list.
pub fn insert_statement_at_path(
    blocks: &mut Vec<Statement>,
    target_path: &[usize],
    insert_idx: usize,
    stmt: Statement,
)
    ensures
        statements_view(final(blocks)@) == inserted_at(
            statements_view(old(blocks)@),
            target_path@,
            insert_idx,
            stmt@,
        ),
{
    assert(target_path@.skip(0) =~= target_path@);
    insert_into(blocks, target_path, 0, insert_idx, stmt)
}

fn insert_into(
    blocks: &mut Vec<Statement>,
    target_path: &[usize],
    depth: usize,
    insert_idx: usize,
    stmt: Statement,
)
    requires
        depth <= target_path@.len(),
    ensures
        statements_view(final(blocks)@) == inserted_at(
            statements_view(old(blocks)@),
            target_path@.skip(depth as int),
            insert_idx,
            stmt@,
        ),
    decreases target_path@.len() - depth,
{
    let ghost rest = target_path@.skip(depth as int);
    if depth >= target_path.len() {
        let idx = if insert_idx <= blocks.len() {
            insert_idx
        } else {
            blocks.len()
        };
        blocks.insert(idx, stmt);
        assert(statements_view(blocks@) =~= statements_view(old(blocks)@).insert(
            idx as int,
            stmt@,
        ));
        return;
    }
    let head = target_path[depth];
    if head >= blocks.len() {
        return;
    }
    assert(rest.drop_first() =~= target_path@.skip(depth + 1));
    let nests = match &blocks[head] {
        Statement::If(_, _) | Statement::Loop(_, _) | Statement::While(_, _) => true,
        _ => false,
    };
    assert(statements_view(old(blocks)@)[head as int] == statement_view(old(blocks)@[head as int]));
    if !nests {
        return;
    }
    let body = match &mut blocks[head] {
        Statement::If(_, body) => body,
        Statement::Loop(_, body) => body,
        Statement::While(_, body) => body,
        _ => return,
    };
    insert_into(body, target_path, depth + 1, insert_idx, stmt);
}

/// Removes every statement of the program.
pub fn clear_statements(blocks: &mut Vec<Statement>)
    ensures
        final(blocks)@.len() == 0,
{
    blocks.clear();
}

/// Whether `a` is a prefix of `b` (`b` itself included).
pub open spec fn is_prefix(a: Seq<usize>, b: Seq<usize>) -> bool {
    a.len() <= b.len() && b.subrange(0, a.len() as int) == a
}

/// Whether `a` is a proper prefix of `b`: shorter, and equal to the start
/// of `b`.
pub open spec fn is_proper_prefix(a: Seq<usize>, b: Seq<usize>) -> bool {
    a.len() < b.len() && is_prefix(a, b)
}

/// Whether `s` starts with `prefix`.
pub fn starts_with(s: &[usize], prefix: &[usize]) -> (r: bool)
    ensures
        r == is_prefix(prefix@, s@),
{
    let n = prefix.len();
    if n > s.len() {
        return false;
    }
    let mut i: usize = 0;
    while i < n
        invariant
            n == prefix@.len(),
            n <= s@.len(),
            0 <= i <= n,
            forall|j: int| 0 <= j < i ==> prefix@[j] == s@[j],
        decreases n - i,
    {
        if prefix[i] != s[i] {
            assert(s@.subrange(0, n as int)[i as int] != prefix@[i as int]);
            return false;
        }
        i = i + 1;
    }
    assert(s@.subrange(0, n as int) =~= prefix@);
    true
}

/// Whether the statement at `target_path` lies inside the statement at
/// `ancestor_path`: the first path is a proper prefix of the second.
pub fn is_ancestor(ancestor_path: &[usize], target_path: &[usize]) -> (r: bool)
    ensures
        r == is_proper_prefix(ancestor_path@, target_path@),
{
    if ancestor_path.len() >= target_path.len() {
        return false;
    }
    starts_with(target_path, ancestor_path)
}

/// The icon and the name under which a statement is shown.
pub open spec fn stmt_info(s: StatementView) -> (Seq<char>, Seq<char>) {
    match s {
        StatementView::Move(_) => ("🏃"@, "Move"@),
        StatementView::Turn(_) => ("🔄"@, "Turn"@),
        StatementView::Dig(_) => ("🔨"@, "Dig"@),
        StatementView::Print(_) => ("💬"@, "Print"@),
        StatementView::Sleep(_) => ("💤"@, "Sleep"@),
        StatementView::Let(_, _) => ("📝"@, "Let"@),
        StatementView::Send(_) => ("📡"@, "Send"@),
        StatementView::Receive(_) => ("📥"@, "Receive"@),
        StatementView::If(_, _) => ("❓"@, "If"@),
        StatementView::Loop(_, _) => ("🔁"@, "Loop"@),
        StatementView::While(_, _) => ("🔄"@, "While"@),
    }
}

/// The icon and the name under which `stmt` is shown.
pub fn get_stmt_info(stmt: &Statement) -> (r: (&'static str, &'static str))
    ensures
        (r.0@, r.1@) == stmt_info(stmt@),
{
    match stmt {
        Statement::Move(_) => ("🏃", "Move"),
        Statement::Turn(_) => ("🔄", "Turn"),
        Statement::Dig(_) => ("🔨", "Dig"),
        Statement::Print(_) => ("💬", "Print"),
        Statement::Sleep(_) => ("💤", "Sleep"),
        Statement::Let(_, _) => ("📝", "Let"),
        Statement::Send(_) => ("📡", "Send"),
        Statement::Receive(_) => ("📥", "Receive"),
        Statement::If(_, _) => ("❓", "If"),
        Statement::Loop(_, _) => ("🔁", "Loop"),
        Statement::While(_, _) => ("🔄", "While"),
    }
}

/// The number of expressions on the chain that starts at `e` and goes down
/// through the operand of each `Unary` expression: these are the
/// expressions on which inference may consult the type checker.
pub open spec fn unary_chain_len(e: ExprView) -> nat
    decreases e,
{
    match e {
        ExprView::Unary(_, inner) => 1 + unary_chain_len(*inner),
        _ => 1,
    }
}

/// The `i`-th expression of the unary chain that starts at `e`.
pub open spec fn unary_chain_at(e: ExprView, i: nat) -> ExprView
    decreases i,
{
    if i == 0 {
        e
    } else {
        match e {
            ExprView::Unary(_, inner) => unary_chain_at(*inner, (i - 1) as nat),
            _ => e,
        }
    }
}

/// Whether a binary operator yields a boolean (comparisons and logic).
pub open spec fn yields_boolean(op: Op) -> bool {
    match op {
        Op::Eq | Op::Neq | Op::Lt | Op::Gt | Op::Le | Op::Ge | Op::And | Op::Or => true,
        Op::Add | Op::Sub | Op::Mul | Op::Div => false,
    }
}

/// The type inferred for `e`, where `checks[i]` is what the language's type
/// checker said of the `i`-th expression of the unary chain of `e`: the
/// type it found, or `None` where it rejected the expression. Where the
/// checker finds a type, that type is the answer; else the shape of the
/// expression decides.
pub open spec fn inferred_type(e: ExprView, checks: Seq<Option<Type>>) -> InferResult
    decreases e,
{
    if checks.len() > 0 && checks[0] is Some {
        InferResult::Type(checks[0]->0)
    } else {
        match e {
            ExprView::Binary(op, _, _) => if yields_boolean(op) {
                InferResult::Type(Type::Boolean)
            } else {
                InferResult::Type(Type::Uint)
            },
            ExprView::Unary(_, inner) => match inferred_type(*inner, checks.drop_first()) {
                InferResult::Type(Type::Boolean) => InferResult::Type(Type::Boolean),
                InferResult::Type(_) => InferResult::Invalid,
                InferResult::Unknown => InferResult::Type(Type::Boolean),
                InferResult::Invalid => InferResult::Invalid,
            },
            ExprView::Call(Callee::Rand, args) => if args.len() == 0 {
                InferResult::Type(Type::Float)
            } else if args.len() <= 2 {
                InferResult::Type(Type::Uint)
            } else {
                InferResult::Invalid
            },
            _ => InferResult::Unknown,
        }
    }
}

/// The expressions on which inference for `expr` may consult the type
/// checker, in order: `expr`, then the operand of each `Unary` below it.
pub fn unary_chain(expr: &Expr) -> (chain: Vec<&Expr>)
    ensures
        chain@.len() == unary_chain_len(expr@),
        forall|i: int| 0 <= i < chain@.len() ==> chain@[i]@ == unary_chain_at(expr@, i as nat),
{
    let mut chain: Vec<&Expr> = Vec::new();
    let mut cur: &Expr = expr;
    chain.push(cur);
    loop
        invariant
            chain@.len() >= 1,
            cur@ == unary_chain_at(expr@, (chain@.len() - 1) as nat),
            unary_chain_len(expr@) == chain@.len() - 1 + unary_chain_len(cur@),
            forall|i: int| 0 <= i < chain@.len() ==> chain@[i]@ == unary_chain_at(expr@, i as nat),
        ensures
            unary_chain_len(expr@) == chain@.len(),
            forall|i: int| 0 <= i < chain@.len() ==> chain@[i]@ == unary_chain_at(expr@, i as nat),
        decreases unary_chain_len(cur@),
    {
        match cur {
            Expr::Unary { exp, .. } => {
                proof {
                    lemma_unary_chain_step(expr@, (chain@.len() - 1) as nat);
                }
                cur = &**exp;
                chain.push(cur);
            },
            _ => {
                return chain;
            },
        }
    }
}

proof fn lemma_unary_chain_step(e: ExprView, i: nat)
    requires
        unary_chain_at(e, i) is Unary,
    ensures
        unary_chain_at(e, i + 1) == *(unary_chain_at(e, i)->Unary_1),
    decreases i,
{
    match e {
        ExprView::Unary(_, inner) => {
            assert(unary_chain_at(e, i + 1) == unary_chain_at(*inner, i));
            if i > 0 {
                lemma_unary_chain_step(*inner, (i - 1) as nat);
            } else {
                assert(unary_chain_at(*inner, 0) == *inner);
            }
        },
        _ => {},
    }
}

/// Infers the type of `expr`. `checks[i]` is what the language's type
/// checker said of the `i`-th expression of `unary_chain(expr)`: the type
/// it found, or `None` where it rejected the expression.
pub fn infer_expr_type(expr: &Expr, checks: &[Option<Type>]) -> (r: InferResult)
    requires
        checks@.len() == unary_chain_len(expr@),
    ensures
        r == inferred_type(expr@, checks@),
{
    assert(checks@.skip(0) =~= checks@);
    infer_from(expr, checks, 0)
}

fn infer_from(expr: &Expr, checks: &[Option<Type>], depth: usize) -> (r: InferResult)
    requires
        depth <= checks@.len(),
        checks@.len() - depth == unary_chain_len(expr@),
    ensures
        r == inferred_type(expr@, checks@.skip(depth as int)),
    decreases checks@.len() - depth,
{
    if let Some(t) = checks[depth] {
        return InferResult::Type(t);
    }
    match expr {
        Expr::Binary { op, .. } => match op {
            Op::Eq | Op::Neq | Op::Lt | Op::Gt | Op::Le | Op::Ge | Op::And | Op::Or => {
                InferResult::Type(Type::Boolean)
            },
            Op::Add | Op::Sub | Op::Mul | Op::Div => InferResult::Type(Type::Uint),
        },
        Expr::Unary { exp, .. } => {
            assert(checks@.skip(depth as int).drop_first() =~= checks@.skip(depth + 1));
            match infer_from(exp, checks, depth + 1) {
                InferResult::Type(Type::Boolean) => InferResult::Type(Type::Boolean),
                InferResult::Type(_) => InferResult::Invalid,
                InferResult::Unknown => InferResult::Type(Type::Boolean),
                InferResult::Invalid => InferResult::Invalid,
            }
        },
        Expr::Call { callee: Callee::Rand, args } => {
            proof {
                crate::ast::lemma_args_view(args@);
            }
            match args.len() {
                0 => InferResult::Type(Type::Float),
                1 | 2 => InferResult::Type(Type::Uint),
                _ => InferResult::Invalid,
            }
        },
        _ => InferResult::Unknown,
    }
}

/// Whether `incoming` may fill a slot that expects `expected`: any
/// expression fits a slot without a type; else the inferred type must be
/// the expected one, and an expression of unknown type fits.
pub open spec fn type_compatible(
    expected: Option<Type>,
    incoming: ExprView,
    checks: Seq<Option<Type>>,
) -> bool {
    match expected {
        None => true,
        Some(t) => match inferred_type(incoming, checks) {
            InferResult::Type(u) => u == t,
            InferResult::Unknown => true,
            InferResult::Invalid => false,
        },
    }
}

/// Whether `incoming` may be dropped into a slot that expects `expected`.
/// `checks` is as for `infer_expr_type`; it is not read where the slot
/// expects no type.
pub fn is_type_compatible(expected: Option<Type>, incoming: &Expr, checks: &[Option<Type>]) -> (r:
    bool)
    requires
        expected is Some ==> checks@.len() == unary_chain_len(incoming@),
    ensures
        r == type_compatible(expected, incoming@, checks@),
{
    let expected_type = match expected {
        Some(t) => t,
        None => return true,
    };
    let infer = infer_expr_type(incoming, checks);
    match infer {
        InferResult::Type(t) => t == expected_type,
        InferResult::Unknown => true,
        InferResult::Invalid => false,
    }
}

} // verus!
