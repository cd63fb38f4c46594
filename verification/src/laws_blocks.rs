//! What holds of the editor's answers for single blocks: how numbers,
//! names and directions are written, what inference concludes without the
//! type checker, which type each slot expects, and the colour of a block.
use vstd::prelude::*;
use crate::ast::{Callee, Direction, ExprView, Op, StatementView, Type, UnaryOp};
use crate::colorizer::{Rgb, stmt_color};
use crate::renderer::{arg_type, op_choices, slot_type};
use crate::structs::InferResult;
use crate::utils::{inferred_type, is_proper_prefix, stmt_info, type_compatible};
use crate::visual::{
    args_code, callee_name, decimal_text, digit_text, direction_code, expr_code, float_text,
    op_name, unary_op_name, expr_floats, args_floats, statement_floats, statements_floats,
};
use crate::code::adjusted_path;

verus! {

/// The value of a decimal numeral, read digit by digit.
pub open spec fn numeral_value(s: Seq<char>) -> int
    decreases s.len(),
{
    if s.len() == 0 {
        0
    } else {
        numeral_value(s.drop_last()) * 10 + (s.last() as int - '0' as int)
    }
}

/// Whether every character of `s` is a decimal digit.
pub open spec fn all_digits(s: Seq<char>) -> bool {
    forall|i: int| 0 <= i < s.len() ==> '0' <= #[trigger] s[i] <= '9'
}

proof fn lemma_digit_text(d: nat)
    requires
        d < 10,
    ensures
        digit_text(d) == seq![('0' as int + d) as char],
{
    reveal_strlit("0");
    reveal_strlit("1");
    reveal_strlit("2");
    reveal_strlit("3");
    reveal_strlit("4");
    reveal_strlit("5");
    reveal_strlit("6");
    reveal_strlit("7");
    reveal_strlit("8");
    reveal_strlit("9");
    assert(digit_text(d) =~= seq![('0' as int + d) as char]);
}

/// A number is written as its decimal numeral: digits only, reading back
/// as the number, and without a leading zero unless the number is 0.
pub proof fn law_number_numeral(n: nat)
    ensures
        all_digits(decimal_text(n)),
        numeral_value(decimal_text(n)) == n,
        decimal_text(n).len() > 0,
        n > 0 ==> decimal_text(n)[0] != '0',
    decreases n,
{
    let d = n % 10;
    lemma_digit_text(d);
    if n < 10 {
        let s = decimal_text(n);
        assert(s.drop_last() =~= Seq::<char>::empty());
        assert(numeral_value(s.drop_last()) == 0);
        assert(s.last() as int == '0' as int + d);
        assert(d == n);
    } else {
        let q = n / 10;
        law_number_numeral(q);
        let a = decimal_text(q);
        let s = decimal_text(n);
        assert(s =~= a + seq![('0' as int + d) as char]);
        assert(s.drop_last() =~= a);
        assert(s.last() as int == '0' as int + d);
        assert(q * 10 + d == n) by (nonlinear_arith)
            requires
                q == n / 10,
                d == n % 10,
        ;
        assert forall|i: int| 0 <= i < s.len() implies '0' <= #[trigger] s[i] <= '9' by {
            if i < a.len() {
                assert(s[i] == a[i]);
            }
        }
        assert(s[0] == a[0]);
    }
}

/// Directions, built-in functions and the unary operator are written by
/// their names in the language, and distinct ones differently.
pub proof fn law_names_in_code(d1: Direction, d2: Direction, c1: Callee, c2: Callee)
    ensures
        direction_code(Direction::Left) == "left"@ && direction_code(Direction::Right) == "right"@
            && direction_code(Direction::Forward) == "forward"@ && direction_code(Direction::Back)
            == "back"@ && direction_code(Direction::Up) == "up"@ && direction_code(Direction::Down)
            == "down"@,
        callee_name(Callee::IsTouched) == "is_touched"@ && callee_name(Callee::IsEmpty)
            == "is_empty"@ && callee_name(Callee::Rand) == "rand"@,
        unary_op_name(UnaryOp::Not) == "Not"@,
        direction_code(d1) == direction_code(d2) ==> d1 == d2,
        callee_name(c1) == callee_name(c2) ==> c1 == c2,
{
    reveal_strlit("left");
    reveal_strlit("right");
    reveal_strlit("forward");
    reveal_strlit("back");
    reveal_strlit("up");
    reveal_strlit("down");
    reveal_strlit("is_touched");
    reveal_strlit("is_empty");
    reveal_strlit("rand");
    if direction_code(d1) == direction_code(d2) && d1 != d2 {
        let x = direction_code(d1);
        let y = direction_code(d2);
        assert(x.len() != y.len() || x[0] != y[0]);
    }
    if callee_name(c1) == callee_name(c2) && c1 != c2 {
        let x = callee_name(c1);
        let y = callee_name(c2);
        assert(x.len() != y.len() || x[3] != y[3]);
    }
}

/// Without a type from the checker, inference goes by the shape of the
/// expression: comparisons and logic give booleans, arithmetic gives
/// numbers; `rand()` gives a float, `rand` with one or two arguments a
/// number and with more a contradiction; `Not` gives a boolean for a
/// boolean or unknown operand and a contradiction for any other type; any
/// other expression stays unknown.
pub proof fn law_inference_without_checker(e: ExprView, checks: Seq<Option<Type>>)
    requires
        checks.len() > 0,
        checks[0] is None,
    ensures
        e matches ExprView::Binary(op, _, _) ==> inferred_type(e, checks) == if op == Op::Add
            || op == Op::Sub || op == Op::Mul || op == Op::Div {
            InferResult::Type(Type::Uint)
        } else {
            InferResult::Type(Type::Boolean)
        },
        e matches ExprView::Call(Callee::Rand, args) ==> inferred_type(e, checks) == if args.len()
            == 0 {
            InferResult::Type(Type::Float)
        } else if args.len() <= 2 {
            InferResult::Type(Type::Uint)
        } else {
            InferResult::Invalid
        },
        e matches ExprView::Unary(_, inner) ==> {
            let r = inferred_type(*inner, checks.drop_first());
            inferred_type(e, checks) == if r == InferResult::Type(Type::Boolean)
                || r == InferResult::Unknown {
                InferResult::Type(Type::Boolean)
            } else {
                InferResult::Invalid
            }
        },
        !(e is Binary || e is Unary || e matches ExprView::Call(Callee::Rand, _)) ==> inferred_type(
            e,
            checks,
        ) == InferResult::Unknown,
{
}

/// The slot of a statement expects: a direction for moving, turning and
/// digging; a float for sleeping; a number of times for a loop; a boolean
/// for the condition of `if` and `while`; nothing in particular for
/// printing, assigning, sending and receiving. A call's arguments expect a
/// direction for `is_empty`, numbers for `rand`, nothing for `is_touched`.
pub proof fn law_slot_types(s: StatementView, c: Callee)
    ensures
        (s is Move || s is Turn || s is Dig) ==> slot_type(s) == Some(Type::Direction),
        s is Sleep ==> slot_type(s) == Some(Type::Float),
        s is Loop ==> slot_type(s) == Some(Type::Uint),
        (s is If || s is While) ==> slot_type(s) == Some(Type::Boolean),
        (s is Print || s is Let || s is Send || s is Receive) ==> slot_type(s) is None,
        arg_type(c) == match c {
            Callee::IsTouched => None,
            Callee::IsEmpty => Some(Type::Direction),
            Callee::Rand => Some(Type::Uint),
        },
{
}

/// Each kind of statement is shown under its own name, and two statements
/// share a name only when they are of the same kind.
pub proof fn law_statement_names(a: StatementView, b: StatementView)
    ensures
        stmt_info(a).1 == match a {
            StatementView::Move(_) => "Move"@,
            StatementView::Turn(_) => "Turn"@,
            StatementView::Dig(_) => "Dig"@,
            StatementView::Print(_) => "Print"@,
            StatementView::Sleep(_) => "Sleep"@,
            StatementView::Let(_, _) => "Let"@,
            StatementView::Send(_) => "Send"@,
            StatementView::Receive(_) => "Receive"@,
            StatementView::If(_, _) => "If"@,
            StatementView::Loop(_, _) => "Loop"@,
            StatementView::While(_, _) => "While"@,
        },
        stmt_info(a).1 == stmt_info(b).1 ==> kind(a) == kind(b),
{
    reveal_strlit("Move");
    reveal_strlit("Turn");
    reveal_strlit("Dig");
    reveal_strlit("Print");
    reveal_strlit("Sleep");
    reveal_strlit("Let");
    reveal_strlit("Send");
    reveal_strlit("Receive");
    reveal_strlit("If");
    reveal_strlit("Loop");
    reveal_strlit("While");
    if stmt_info(a).1 == stmt_info(b).1 && kind(a) != kind(b) {
        let x = stmt_info(a).1;
        let y = stmt_info(b).1;
        assert(x.len() != y.len() || x[0] != y[0] || x[1] != y[1]);
    }
}

/// The kind of a statement, as a number: which of the eleven statements it is.
pub open spec fn kind(s: StatementView) -> int {
    match s {
        StatementView::Move(_) => 0,
        StatementView::Turn(_) => 1,
        StatementView::Dig(_) => 2,
        StatementView::Print(_) => 3,
        StatementView::Sleep(_) => 4,
        StatementView::Let(_, _) => 5,
        StatementView::Send(_) => 6,
        StatementView::Receive(_) => 7,
        StatementView::If(_, _) => 8,
        StatementView::Loop(_, _) => 9,
        StatementView::While(_, _) => 10,
    }
}

/// Blocks are coloured by category: motion for moving, turning and
/// digging; looks for printing; control for sleeping and the nesting
/// statements; variables for assignments; events for sending and
/// receiving; and the categories have distinct colours.
pub proof fn law_block_colors(s: StatementView)
    ensures
        (s is Move || s is Turn || s is Dig) ==> stmt_color(s) == (Rgb { r: 76, g: 151, b: 255 }),
        s is Print ==> stmt_color(s) == (Rgb { r: 153, g: 102, b: 255 }),
        (s is Sleep || s is If || s is Loop || s is While) ==> stmt_color(s) == (Rgb {
            r: 255,
            g: 171,
            b: 25,
        }),
        s is Let ==> stmt_color(s) == (Rgb { r: 255, g: 140, b: 0 }),
        (s is Send || s is Receive) ==> stmt_color(s) == (Rgb { r: 255, g: 94, b: 162 }),
{
}

/// Whether operators `a` and `b` belong to the same family: comparisons,
/// arithmetic, or logic.
pub open spec fn same_family(a: Op, b: Op) -> bool {
    let cmp = |o: Op|
        o == Op::Eq || o == Op::Neq || o == Op::Lt || o == Op::Gt || o == Op::Le || o == Op::Ge;
    let arith = |o: Op| o == Op::Add || o == Op::Sub || o == Op::Mul || o == Op::Div;
    (cmp(a) && cmp(b)) || (arith(a) && arith(b)) || (!cmp(a) && !arith(a) && !cmp(b) && !arith(
        b,
    ))
}

/// The symbol under which an operator is offered.
pub open spec fn symbol(o: Op) -> Seq<char> {
    match o {
        Op::Eq => "=="@,
        Op::Neq => "!="@,
        Op::Lt => "<"@,
        Op::Gt => ">"@,
        Op::Le => "<="@,
        Op::Ge => ">="@,
        Op::Add => "+"@,
        Op::Sub => "-"@,
        Op::Mul => "*"@,
        Op::Div => "/"@,
        Op::And => "and"@,
        Op::Or => "or"@,
    }
}

/// A binary block offers exactly the operators of its own operator's
/// family, each once and under its symbol: the operator itself among them.
pub proof fn law_operator_choices(op: Op, other: Op)
    ensures
        forall|i: int|
            0 <= i < op_choices(op).len() ==> same_family(op, #[trigger] op_choices(op)[i].0)
                && op_choices(op)[i].1 == symbol(op_choices(op)[i].0),
        same_family(op, other) ==> exists|i: int|
            0 <= i < op_choices(op).len() && #[trigger] op_choices(op)[i].0 == other,
        forall|i: int, j: int|
            0 <= i < j < op_choices(op).len() ==> #[trigger] op_choices(op)[i].0
                != #[trigger] op_choices(op)[j].0,
{
    let c = op_choices(op);
    if same_family(op, other) {
        match other {
            Op::Eq | Op::Add | Op::And => assert(c[0].0 == other),
            Op::Neq | Op::Sub | Op::Or => assert(c[1].0 == other),
            Op::Lt | Op::Mul => assert(c[2].0 == other),
            Op::Gt | Op::Div => assert(c[3].0 == other),
            Op::Le => assert(c[4].0 == other),
            Op::Ge => assert(c[5].0 == other),
        }
    }
}

/// A float literal is written as the text of the first table entry for its
/// bit pattern: entries for other bit patterns before it are passed over.
pub proof fn law_float_text_first_entry(
    bits: u64,
    text: String,
    rest: Seq<(u64, String)>,
)
    ensures
        float_text(seq![(bits, text)] + rest, bits) == text@,
        forall|b: u64| b != bits ==> float_text(seq![(bits, text)] + rest, b) == float_text(rest, b),
        float_text(Seq::empty(), bits) == Seq::<char>::empty(),
{
    let t = seq![(bits, text)] + rest;
    assert(t.drop_first() =~= rest);
}

/// Text and values are written as the language reads them: a string
/// between double quotes, a boolean as `true` or `false`, a variable by its
/// name, a number by its numeral, `Not e` as `Not` and the code of `e`.
pub proof fn law_atom_code(s: Seq<char>, b: bool, e: ExprView, n: u32, floats: Seq<(u64, String)>)
    ensures
        expr_code(ExprView::String(s), floats) == seq!['"'] + s + seq!['"'],
        expr_code(ExprView::Boolean(b), floats) == if b {
            seq!['t', 'r', 'u', 'e']
        } else {
            seq!['f', 'a', 'l', 's', 'e']
        },
        expr_code(ExprView::Var(s), floats) == s,
        expr_code(ExprView::Uint(n), floats) == decimal_text(n as nat),
        expr_code(ExprView::Unary(UnaryOp::Not, Box::new(e)), floats) == seq!['N', 'o', 't', ' ']
            + expr_code(e, floats),
{
    reveal_strlit("\"");
    reveal_strlit("true");
    reveal_strlit("false");
    reveal_strlit("Not");
    reveal_strlit(" ");
    assert(expr_code(ExprView::String(s), floats) =~= seq!['"'] + s + seq!['"']);
    assert(expr_code(ExprView::Unary(UnaryOp::Not, Box::new(e)), floats) =~= seq![
        'N',
        'o',
        't',
        ' ',
    ] + expr_code(e, floats));
    assert("true"@ =~= seq!['t', 'r', 'u', 'e']);
    assert("false"@ =~= seq!['f', 'a', 'l', 's', 'e']);
}

/// A slot without a type accepts any expression; a slot that expects a
/// type accepts an expression exactly when inference gives that type or
/// reaches no conclusion, and refuses it on a contradiction or another type.
pub proof fn law_slot_accepts(
    expected: Option<Type>,
    incoming: ExprView,
    checks: Seq<Option<Type>>,
)
    ensures
        expected is None ==> type_compatible(expected, incoming, checks),
        expected matches Some(t) ==> (type_compatible(expected, incoming, checks) <==> (
        inferred_type(incoming, checks) == InferResult::Type(t) || inferred_type(incoming, checks)
            == InferResult::Unknown)),
{
}

/// One path lies inside the statement at another exactly when the other
/// is a shorter start of it.
pub proof fn law_ancestor_is_shorter_start(a: Seq<usize>, b: Seq<usize>)
    ensures
        is_proper_prefix(a, b) <==> (a.len() < b.len() && a == b.take(a.len() as int)),
{
    if a.len() < b.len() && a == b.take(a.len() as int) {
        assert(b.subrange(0, a.len() as int) =~= b.take(a.len() as int));
    }
    if is_proper_prefix(a, b) {
        assert(b.subrange(0, a.len() as int) =~= b.take(a.len() as int));
    }
}

/// The icon shown with each kind of statement.
pub proof fn law_statement_icons(s: StatementView)
    ensures
        stmt_info(s).0 == match s {
            StatementView::Move(_) => "🏃"@,
            StatementView::Turn(_) => "🔄"@,
            StatementView::Dig(_) => "🔨"@,
            StatementView::Print(_) => "💬"@,
            StatementView::Sleep(_) => "💤"@,
            StatementView::Let(_, _) => "📝"@,
            StatementView::Send(_) => "📡"@,
            StatementView::Receive(_) => "📥"@,
            StatementView::If(_, _) => "❓"@,
            StatementView::Loop(_, _) => "🔁"@,
            StatementView::While(_, _) => "🔄"@,
        },
{
}

/// A call is written as the function's name and its arguments in round
/// brackets, separated by a comma and a space; a binary expression as its
/// operands around its operator's name, with a space on each side.
pub proof fn law_call_and_binary_code(
    c: Callee,
    args: Seq<ExprView>,
    x: ExprView,
    op: Op,
    l: ExprView,
    r: ExprView,
    floats: Seq<(u64, String)>,
)
    ensures
        expr_code(ExprView::Call(c, args), floats) == callee_name(c) + seq!['('] + args_code(
            args,
            floats,
        ) + seq![')'],
        args_code(Seq::empty(), floats) == Seq::<char>::empty(),
        args_code(seq![x], floats) == expr_code(x, floats),
        args.len() > 0 ==> args_code(args.push(x), floats) == args_code(args, floats) + seq![
            ',',
            ' ',
        ] + expr_code(x, floats),
        expr_code(ExprView::Binary(op, Box::new(l), Box::new(r)), floats) == expr_code(l, floats)
            + seq![' '] + op_name(op) + seq![' '] + expr_code(r, floats),
{
    reveal_strlit("(");
    reveal_strlit(")");
    reveal_strlit(", ");
    reveal_strlit(" ");
    assert(expr_code(ExprView::Call(c, args), floats) =~= callee_name(c) + seq!['('] + args_code(
        args,
        floats,
    ) + seq![')']);
    assert(args.push(x).drop_last() =~= args);
    assert(", "@ =~= seq![',', ' ']);
    assert(expr_code(ExprView::Binary(op, Box::new(l), Box::new(r)), floats) =~= expr_code(
        l,
        floats,
    ) + seq![' '] + op_name(op) + seq![' '] + expr_code(r, floats));
}

/// After the statement at `removed` is taken out, a path changes only where
/// it goes through a later statement of the same list: its index in that
/// list is one less. Every other path, the ones that go through the
/// removed statement itself included, stays as it is.
pub proof fn law_adjusted_path_changes(t: Seq<usize>, removed: Seq<usize>)
    requires
        removed.len() > 0,
    ensures
        ({
            let k = removed.len() - 1;
            let later = t.len() > k && t.take(k) == removed.take(k) && t[k] > removed[k];
            &&& later ==> adjusted_path(t, removed) == t.update(k, (t[k] - 1) as usize)
            &&& !later ==> adjusted_path(t, removed) == t
        }),
{
    let k = removed.len() - 1;
    assert(t.take(k) =~= t.subrange(0, k));
    assert(removed.take(k) =~= removed.subrange(0, k));
}

/// The float literals of a program are listed in the order in which its
/// code shows them: a literal by itself, an operator's left operand before
/// its right one, arguments in order, statements in order, and a nesting
/// statement's condition before its body.
pub proof fn law_float_literal_order(
    b: u64,
    op: Op,
    l: ExprView,
    r: ExprView,
    c: Callee,
    args: Seq<ExprView>,
    x: ExprView,
    stmts: Seq<StatementView>,
    more: Seq<StatementView>,
    body: Seq<StatementView>,
)
    ensures
        expr_floats(ExprView::Float(b)) == seq![b],
        expr_floats(ExprView::Binary(op, Box::new(l), Box::new(r))) == expr_floats(l)
            + expr_floats(r),
        expr_floats(ExprView::Unary(UnaryOp::Not, Box::new(x))) == expr_floats(x),
        expr_floats(ExprView::Call(c, args.push(x))) == args_floats(args) + expr_floats(x),
        args_floats(Seq::empty()) == Seq::<u64>::empty(),
        statements_floats(stmts + more) == statements_floats(stmts) + statements_floats(more),
        statement_floats(StatementView::If(x, body)) == expr_floats(x) + statements_floats(body),
        statement_floats(StatementView::Loop(x, body)) == expr_floats(x) + statements_floats(body),
        statement_floats(StatementView::While(x, body)) == expr_floats(x) + statements_floats(body),
        statement_floats(StatementView::Sleep(x)) == expr_floats(x),
    decreases more.len(),
{
    assert(args.push(x).drop_last() =~= args);
    assert(args.push(x).last() == x);
    assert(args_floats(args.push(x)) == args_floats(args) + expr_floats(x));
    if more.len() == 0 {
        assert(stmts + more =~= stmts);
        assert(statements_floats(stmts) + statements_floats(more) =~= statements_floats(stmts));
    } else {
        law_float_literal_order(b, op, l, r, c, args, x, stmts, more.drop_last(), body);
        assert((stmts + more).drop_last() =~= stmts + more.drop_last());
        assert((stmts + more).last() == more.last());
        assert(statements_floats(stmts) + statements_floats(more.drop_last()) + statement_floats(
            more.last(),
        ) =~= statements_floats(stmts) + (statements_floats(more.drop_last()) + statement_floats(
            more.last(),
        )));
    }
}

} // verus!
