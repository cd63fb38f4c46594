//! Rendering a program as source code of the block language.
//!
//! Float literals are rendered from a table that maps the bit pattern of a
//! float to its text (one digit after the decimal point); the first entry
//! for a bit pattern counts, and a float without an entry renders as
//! nothing.
use vstd::prelude::*;
use crate::ast::{
    Callee, Direction, Expr, ExprView, Op, Statement, StatementView, UnaryOp, args_view,
    expr_view, lemma_args_view, lemma_statements_view, statement_view, statements_view,
};

verus! {

broadcast use {lemma_statements_view, lemma_args_view};

/// The text of a decimal digit `d < 10`.
pub open spec fn digit_text(d: nat) -> Seq<char> {
    if d == 0 {
        "0"@
    } else if d == 1 {
        "1"@
    } else if d == 2 {
        "2"@
    } else if d == 3 {
        "3"@
    } else if d == 4 {
        "4"@
    } else if d == 5 {
        "5"@
    } else if d == 6 {
        "6"@
    } else if d == 7 {
        "7"@
    } else if d == 8 {
        "8"@
    } else {
        "9"@
    }
}

/// The decimal numeral of `n`, without leading zeros.
pub open spec fn decimal_text(n: nat) -> Seq<char>
    decreases n,
{
    if n < 10 {
        digit_text(n)
    } else {
        decimal_text(n / 10) + digit_text(n % 10)
    }
}

/// The text of the float with bit pattern `bits` in `floats`: that of the
/// first entry for `bits`, or nothing where there is none.
pub open spec fn float_text(floats: Seq<(u64, String)>, bits: u64) -> Seq<char>
    decreases floats.len(),
{
    if floats.len() == 0 {
        Seq::empty()
    } else if floats[0].0 == bits {
        floats[0].1@
    } else {
        float_text(floats.drop_first(), bits)
    }
}

/// How a direction is written.
pub open spec fn direction_code(d: Direction) -> Seq<char> {
    match d {
        Direction::Left => "left"@,
        Direction::Right => "right"@,
        Direction::Forward => "forward"@,
        Direction::Back => "back"@,
        Direction::Up => "up"@,
        Direction::Down => "down"@,
    }
}

/// How a binary operator is written: its name.
pub open spec fn op_name(op: Op) -> Seq<char> {
    match op {
        Op::Eq => "Eq"@,
        Op::Neq => "Neq"@,
        Op::Lt => "Lt"@,
        Op::Gt => "Gt"@,
        Op::Le => "Le"@,
        Op::Ge => "Ge"@,
        Op::And => "And"@,
        Op::Or => "Or"@,
        Op::Add => "Add"@,
        Op::Sub => "Sub"@,
        Op::Mul => "Mul"@,
        Op::Div => "Div"@,
    }
}

/// How a unary operator is written: its name.
pub open spec fn unary_op_name(op: UnaryOp) -> Seq<char> {
    match op {
        UnaryOp::Not => "Not"@,
    }
}

/// The name under which a built-in function is called.
pub open spec fn callee_name(c: Callee) -> Seq<char> {
    match c {
        Callee::IsTouched => "is_touched"@,
        Callee::IsEmpty => "is_empty"@,
        Callee::Rand => "rand"@,
    }
}

/// The code of an expression.
pub open spec fn expr_code(e: ExprView, floats: Seq<(u64, String)>) -> Seq<char>
    decreases e,
{
    match e {
        ExprView::Uint(v) => decimal_text(v as nat),
        ExprView::Float(b) => float_text(floats, b),
        ExprView::String(s) => "\""@ + s + "\""@,
        ExprView::Boolean(b) => if b {
            "true"@
        } else {
            "false"@
        },
        ExprView::Direction(d) => direction_code(d),
        ExprView::Var(n) => n,
        ExprView::Binary(op, l, r) => expr_code(*l, floats) + " "@ + op_name(op) + " "@ + expr_code(
            *r,
            floats,
        ),
        ExprView::Unary(op, x) => unary_op_name(op) + " "@ + expr_code(*x, floats),
        ExprView::Call(c, args) => callee_name(c) + "("@ + args_code(args, floats) + ")"@,
    }
}

/// The code of call arguments: each argument's code, separated by ", ".
pub open spec fn args_code(args: Seq<ExprView>, floats: Seq<(u64, String)>) -> Seq<char>
    decreases args,
{
    if args.len() == 0 {
        Seq::empty()
    } else if args.len() == 1 {
        expr_code(args[0], floats)
    } else {
        args_code(args.drop_last(), floats) + ", "@ + expr_code(args.last(), floats)
    }
}

/// Two spaces for each level of indentation.
pub open spec fn indent_text(level: nat) -> Seq<char>
    decreases level,
{
    if level == 0 {
        Seq::empty()
    } else {
        indent_text((level - 1) as nat) + "  "@
    }
}

/// The code of one statement at indentation `level`: one line, or for a
/// nesting statement a header line, its body one level deeper, and `end`.
pub open spec fn statement_code(s: StatementView, level: nat, floats: Seq<(u64, String)>) -> Seq<
    char,
>
    decreases s,
{
    let ind = indent_text(level);
    match s {
        StatementView::Print(e) => ind + "print "@ + expr_code(e, floats) + "\n"@,
        StatementView::Move(e) => ind + "move "@ + expr_code(e, floats) + "\n"@,
        StatementView::Turn(e) => ind + "turn "@ + expr_code(e, floats) + "\n"@,
        StatementView::Dig(e) => ind + "dig "@ + expr_code(e, floats) + "\n"@,
        StatementView::Let(name, e) => ind + name + " = "@ + expr_code(e, floats) + "\n"@,
        StatementView::Sleep(e) => ind + "sleep "@ + expr_code(e, floats) + "\n"@,
        StatementView::Receive(e) => ind + "receive "@ + expr_code(e, floats) + "\n"@,
        StatementView::Send(e) => ind + "send "@ + expr_code(e, floats) + "\n"@,
        StatementView::Loop(c, body) => ind + "loop "@ + expr_code(c, floats) + "\n"@
            + statements_code(body, level + 1, floats) + ind + "end\n"@,
        StatementView::While(c, body) => ind + "while "@ + expr_code(c, floats) + "\n"@
            + statements_code(body, level + 1, floats) + ind + "end\n"@,
        StatementView::If(c, body) => ind + "if "@ + expr_code(c, floats) + "\n"@
            + statements_code(body, level + 1, floats) + ind + "end\n"@,
    }
}

/// The code of a list of statements: the code of each, in order.
pub open spec fn statements_code(
    stmts: Seq<StatementView>,
    level: nat,
    floats: Seq<(u64, String)>,
) -> Seq<char>
    decreases stmts,
{
    if stmts.len() == 0 {
        Seq::empty()
    } else {
        statements_code(stmts.drop_last(), level, floats) + statement_code(
            stmts.last(),
            level,
            floats,
        )
    }
}

/// Types that can be written as code of the block language.
pub trait ToCode {
    /// The code of `self`, given the texts of float literals.
    spec fn code_of(&self, floats: Seq<(u64, String)>) -> Seq<char>;

    /// Writes `self` as code; `floats` gives the text of each float
    /// literal by its bit pattern.
    fn to_code(&self, floats: &[(u64, String)]) -> (s: String)
        ensures
            s@ == self.code_of(floats@),
    ;
}

impl ToCode for Expr {
    open spec fn code_of(&self, floats: Seq<(u64, String)>) -> Seq<char> {
        expr_code(self@, floats)
    }

    fn to_code(&self, floats: &[(u64, String)]) -> (s: String) {
        let mut out = String::new();
        write_expr(&mut out, self, floats);
        out
    }
}

fn digit_str(d: u32) -> (s: &'static str)
    requires
        d < 10,
    ensures
        s@ == digit_text(d as nat),
{
    match d {
        0 => "0",
        1 => "1",
        2 => "2",
        3 => "3",
        4 => "4",
        5 => "5",
        6 => "6",
        7 => "7",
        8 => "8",
        _ => "9",
    }
}

fn write_decimal(out: &mut String, n: u32)
    ensures
        final(out)@ == old(out)@ + decimal_text(n as nat),
    decreases n,
{
    if n >= 10 {
        write_decimal(out, n / 10);
    }
    out.append(digit_str(n % 10));
}

fn write_float(out: &mut String, floats: &[(u64, String)], bits: u64)
    ensures
        final(out)@ == old(out)@ + float_text(floats@, bits),
{
    let n = floats.len();
    let mut i: usize = 0;
    assert(floats@.skip(0) =~= floats@);
    while i < n
        invariant
            n == floats@.len(),
            0 <= i <= n,
            float_text(floats@, bits) == float_text(floats@.skip(i as int), bits),
            *out == *old(out),
        decreases n - i,
    {
        assert(floats@.skip(i as int).drop_first() =~= floats@.skip(i + 1));
        if floats[i].0 == bits {
            out.append(floats[i].1.as_str());
            return;
        }
        i = i + 1;
    }
    assert(floats@.skip(i as int).len() == 0);
}

fn direction_str(d: Direction) -> (s: &'static str)
    ensures
        s@ == direction_code(d),
{
    match d {
        Direction::Left => "left",
        Direction::Right => "right",
        Direction::Forward => "forward",
        Direction::Back => "back",
        Direction::Up => "up",
        Direction::Down => "down",
    }
}

fn op_str(op: Op) -> (s: &'static str)
    ensures
        s@ == op_name(op),
{
    match op {
        Op::Eq => "Eq",
        Op::Neq => "Neq",
        Op::Lt => "Lt",
        Op::Gt => "Gt",
        Op::Le => "Le",
        Op::Ge => "Ge",
        Op::And => "And",
        Op::Or => "Or",
        Op::Add => "Add",
        Op::Sub => "Sub",
        Op::Mul => "Mul",
        Op::Div => "Div",
    }
}

fn callee_str(c: Callee) -> (s: &'static str)
    ensures
        s@ == callee_name(c),
{
    match c {
        Callee::IsTouched => "is_touched",
        Callee::IsEmpty => "is_empty",
        Callee::Rand => "rand",
    }
}

fn write_expr(out: &mut String, e: &Expr, floats: &[(u64, String)])
    ensures
        final(out)@ == old(out)@ + expr_code(e@, floats@),
    decreases e,
{
    match e {
        Expr::Uint(v) => write_decimal(out, *v),
        Expr::Float(b) => write_float(out, floats, *b),
        Expr::String(s) => {
            out.append("\"");
            out.append(s.as_str());
            out.append("\"");
        },
        Expr::Boolean(b) => {
            if *b {
                out.append("true");
            } else {
                out.append("false");
            }
        },
        Expr::Direction(d) => out.append(direction_str(*d)),
        Expr::Var(name) => out.append(name.as_str()),
        Expr::Binary { op, lhs, rhs } => {
            write_expr(out, lhs, floats);
            out.append(" ");
            out.append(op_str(*op));
            out.append(" ");
            write_expr(out, rhs, floats);
        },
        Expr::Unary { op, exp } => {
            match op {
                UnaryOp::Not => out.append("Not"),
            }
            out.append(" ");
            write_expr(out, exp, floats);
        },
        Expr::Call { callee, args } => {
            out.append(callee_str(*callee));
            out.append("(");
            let ghost start = out@;
            let ghost av = args_view(args@);
            let n = args.len();
            let mut i: usize = 0;
            while i < n
                invariant
                    *e == (Expr::Call { callee: *callee, args: *args }),
                    n == args@.len(),
                    av == args_view(args@),
                    0 <= i <= n,
                    out@ == start + args_code(av.take(i as int), floats@),
                decreases n - i,
            {
                assert(av.take(i + 1).drop_last() =~= av.take(i as int));
                if i > 0 {
                    out.append(", ");
                } else {
                    assert(av.take(0) =~= Seq::<ExprView>::empty());
                }
                proof {
                    vstd::std_specs::vec::axiom_vec_index_decreases(*args, i as int);
                    assert(decreases_to!(*e => (*e)->args));
                }
                write_expr(out, &args[i], floats);
                i = i + 1;
            }
            assert(av.take(n as int) =~= av);
            out.append(")");
        },
    }
}

/// The bit patterns of the float literals of an expression, left to right.
pub open spec fn expr_floats(e: ExprView) -> Seq<u64>
    decreases e,
{
    match e {
        ExprView::Float(b) => seq![b],
        ExprView::Binary(_, l, r) => expr_floats(*l) + expr_floats(*r),
        ExprView::Unary(_, x) => expr_floats(*x),
        ExprView::Call(_, args) => args_floats(args),
        _ => Seq::empty(),
    }
}

/// The bit patterns of the float literals of call arguments, in order.
pub open spec fn args_floats(args: Seq<ExprView>) -> Seq<u64>
    decreases args,
{
    if args.len() == 0 {
        Seq::empty()
    } else {
        args_floats(args.drop_last()) + expr_floats(args.last())
    }
}

/// The bit patterns of the float literals of a statement, in the order in
/// which its code shows them.
pub open spec fn statement_floats(s: StatementView) -> Seq<u64>
    decreases s,
{
    match s {
        StatementView::Move(e) => expr_floats(e),
        StatementView::Turn(e) => expr_floats(e),
        StatementView::Dig(e) => expr_floats(e),
        StatementView::Print(e) => expr_floats(e),
        StatementView::Sleep(e) => expr_floats(e),
        StatementView::Let(_, e) => expr_floats(e),
        StatementView::Send(e) => expr_floats(e),
        StatementView::Receive(e) => expr_floats(e),
        StatementView::If(c, b) => expr_floats(c) + statements_floats(b),
        StatementView::Loop(c, b) => expr_floats(c) + statements_floats(b),
        StatementView::While(c, b) => expr_floats(c) + statements_floats(b),
    }
}

/// The bit patterns of the float literals of a list of statements, in the
/// order in which its code shows them.
pub open spec fn statements_floats(stmts: Seq<StatementView>) -> Seq<u64>
    decreases stmts,
{
    if stmts.len() == 0 {
        Seq::empty()
    } else {
        statements_floats(stmts.drop_last()) + statement_floats(stmts.last())
    }
}

fn collect_expr_floats(out: &mut Vec<u64>, e: &Expr)
    ensures
        final(out)@ == old(out)@ + expr_floats(e@),
    decreases e,
{
    match e {
        Expr::Float(b) => {
            out.push(*b);
        },
        Expr::Binary { lhs, rhs, .. } => {
            collect_expr_floats(out, lhs);
            collect_expr_floats(out, rhs);
        },
        Expr::Unary { exp, .. } => collect_expr_floats(out, exp),
        Expr::Call { callee, args } => {
            let ghost start = out@;
            let ghost av = args_view(args@);
            let n = args.len();
            let mut i: usize = 0;
            while i < n
                invariant
                    *e == (Expr::Call { callee: *callee, args: *args }),
                    n == args@.len(),
                    av == args_view(args@),
                    0 <= i <= n,
                    out@ == start + args_floats(av.take(i as int)),
                decreases n - i,
            {
                assert(av.take(i + 1).drop_last() =~= av.take(i as int));
                proof {
                    vstd::std_specs::vec::axiom_vec_index_decreases(*args, i as int);
                    assert(decreases_to!(*e => (*e)->args));
                }
                collect_expr_floats(out, &args[i]);
                i = i + 1;
            }
            assert(av.take(n as int) =~= av);
        },
        _ => {
            assert(out@ =~= old(out)@ + expr_floats(e@));
        },
    }
}

fn collect_statements_floats(out: &mut Vec<u64>, statements: &[Statement])
    ensures
        final(out)@ == old(out)@ + statements_floats(statements_view(statements@)),
    decreases statements@,
{
    let ghost sv = statements_view(statements@);
    let ghost start = out@;
    let n = statements.len();
    let mut i: usize = 0;
    while i < n
        invariant
            n == statements@.len(),
            sv == statements_view(statements@),
            0 <= i <= n,
            out@ == start + statements_floats(sv.take(i as int)),
        decreases n - i,
    {
        assert(sv.take(i + 1).drop_last() =~= sv.take(i as int));
        assert(sv.take(i + 1).last() == statement_view(statements@[i as int]));
        let ghost before = out@;
        match &statements[i] {
            Statement::Move(e) | Statement::Turn(e) | Statement::Dig(e) | Statement::Print(e)
            | Statement::Sleep(e) | Statement::Let(_, e) | Statement::Send(e)
            | Statement::Receive(e) => collect_expr_floats(out, e),
            Statement::If(c, body) | Statement::Loop(c, body) | Statement::While(c, body) => {
                collect_expr_floats(out, c);
                collect_statements_floats(out, body.as_slice());
            },
        }
        assert(out@ =~= before + statement_floats(sv[i as int]));
        i = i + 1;
    }
    assert(sv.take(n as int) =~= sv);
}

/// The bit patterns of the float literals of `statements`, in the order in
/// which their code shows them: the floats whose text the code needs.
pub fn float_literals(statements: &[Statement]) -> (bits: Vec<u64>)
    ensures
        bits@ == statements_floats(statements_view(statements@)),
{
    let mut bits: Vec<u64> = Vec::new();
    collect_statements_floats(&mut bits, statements);
    assert(bits@ =~= statements_floats(statements_view(statements@)));
    bits
}

fn indent_string(level: usize) -> (s: String)
    ensures
        s@ == indent_text(level as nat),
{
    let mut s = String::new();
    let mut k: usize = 0;
    while k < level
        invariant
            0 <= k <= level,
            s@ == indent_text(k as nat),
        decreases level - k,
    {
        s.append("  ");
        k = k + 1;
    }
    s
}

/// Writes `statements` as code, one line per simple statement, with
/// `indent_level` levels of indentation; the body of a nesting statement
/// is written one level deeper and closed by `end`. `floats` gives the
/// text of each float literal by its bit pattern.
pub fn statements_to_string(
    statements: &[Statement],
    indent_level: usize,
    floats: &[(u64, String)],
) -> (code: String)
    ensures
        code@ == statements_code(statements_view(statements@), indent_level as nat, floats@),
{
    let mut code = String::new();
    let indent = indent_string(indent_level);
    write_statements(&mut code, statements, &indent, Ghost(indent_level as nat), floats);
    code
}

fn write_statement(
    code: &mut String,
    stmt: &Statement,
    indent: &String,
    Ghost(level): Ghost<nat>,
    floats: &[(u64, String)],
)
    requires
        indent@ == indent_text(level),
    ensures
        final(code)@ == old(code)@ + statement_code(stmt@, level, floats@),
    decreases *stmt, 0nat,
{
    let ghost before = code@;
    match stmt {
        Statement::Print(e) => {
            code.append(indent.as_str());
            code.append("print ");
            write_expr(code, e, floats);
            code.append("\n");
        },
        Statement::Move(e) => {
            code.append(indent.as_str());
            code.append("move ");
            write_expr(code, e, floats);
            code.append("\n");
        },
        Statement::Turn(e) => {
            code.append(indent.as_str());
            code.append("turn ");
            write_expr(code, e, floats);
            code.append("\n");
        },
        Statement::Dig(e) => {
            code.append(indent.as_str());
            code.append("dig ");
            write_expr(code, e, floats);
            code.append("\n");
        },
        Statement::Let(name, e) => {
            code.append(indent.as_str());
            code.append(name.as_str());
            code.append(" = ");
            write_expr(code, e, floats);
            code.append("\n");
        },
        Statement::Sleep(e) => {
            code.append(indent.as_str());
            code.append("sleep ");
            write_expr(code, e, floats);
            code.append("\n");
        },
        Statement::Receive(e) => {
            code.append(indent.as_str());
            code.append("receive ");
            write_expr(code, e, floats);
            code.append("\n");
        },
        Statement::Send(e) => {
            code.append(indent.as_str());
            code.append("send ");
            write_expr(code, e, floats);
            code.append("\n");
        },
        Statement::Loop(cond, body) => {
            code.append(indent.as_str());
            code.append("loop ");
            write_expr(code, cond, floats);
            code.append("\n");
            let mut deeper = indent.clone();
            deeper.append("  ");
            write_statements(code, body.as_slice(), &deeper, Ghost(level + 1), floats);
            code.append(indent.as_str());
            code.append("end\n");
        },
        Statement::While(cond, body) => {
            code.append(indent.as_str());
            code.append("while ");
            write_expr(code, cond, floats);
            code.append("\n");
            let mut deeper = indent.clone();
            deeper.append("  ");
            write_statements(code, body.as_slice(), &deeper, Ghost(level + 1), floats);
            code.append(indent.as_str());
            code.append("end\n");
        },
        Statement::If(cond, body) => {
            code.append(indent.as_str());
            code.append("if ");
            write_expr(code, cond, floats);
            code.append("\n");
            let mut deeper = indent.clone();
            deeper.append("  ");
            write_statements(code, body.as_slice(), &deeper, Ghost(level + 1), floats);
            code.append(indent.as_str());
            code.append("end\n");
        },
    }
    assert(code@ =~= before + statement_code(stmt@, level, floats@));
}

fn write_statements(
    code: &mut String,
    statements: &[Statement],
    indent: &String,
    Ghost(level): Ghost<nat>,
    floats: &[(u64, String)],
)
    requires
        indent@ == indent_text(level),
    ensures
        final(code)@ == old(code)@ + statements_code(statements_view(statements@), level, floats@),
    decreases statements@,
{
    let ghost sv = statements_view(statements@);
    let ghost start = code@;
    let n = statements.len();
    let mut i: usize = 0;
    while i < n
        invariant
            n == statements@.len(),
            sv == statements_view(statements@),
            indent@ == indent_text(level),
            0 <= i <= n,
            code@ == start + statements_code(sv.take(i as int), level, floats@),
        decreases n - i,
    {
        assert(sv.take(i + 1).drop_last() =~= sv.take(i as int));
        assert(sv.take(i + 1).last() == statement_view(statements@[i as int]));
        write_statement(code, &statements[i], indent, Ghost(level), floats);
        i = i + 1;
    }
    assert(sv.take(n as int) =~= sv);
    assert(code@ =~= start + statements_code(sv, level, floats@));
}

} // verus!
