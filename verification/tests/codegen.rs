use keystone_blocks::ast::{Callee, Direction, Expr, Op, Statement, UnaryOp};
use keystone_blocks::visual::{float_literals, statements_to_string, ToCode};

fn no_floats() -> Vec<(u64, String)> {
    Vec::new()
}

#[test]
fn expression_code() {
    let f = no_floats();
    assert_eq!(Expr::Uint(0).to_code(&f), "0");
    assert_eq!(Expr::Uint(4294967295).to_code(&f), "4294967295");
    assert_eq!(Expr::Uint(105).to_code(&f), "105");
    assert_eq!(Expr::String("hi".to_string()).to_code(&f), "\"hi\"");
    assert_eq!(Expr::Boolean(false).to_code(&f), "false");
    assert_eq!(Expr::Direction(Direction::Forward).to_code(&f), "forward");
    assert_eq!(Expr::Var("x".to_string()).to_code(&f), "x");
    let b = Expr::Binary {
        op: Op::Eq,
        lhs: Box::new(Expr::Var("x".to_string())),
        rhs: Box::new(Expr::Uint(0)),
    };
    assert_eq!(b.to_code(&f), "x Eq 0");
    let u = Expr::Unary { op: UnaryOp::Not, exp: Box::new(Expr::Boolean(true)) };
    assert_eq!(u.to_code(&f), "Not true");
    let c = Expr::Call {
        callee: Callee::IsEmpty,
        args: vec![Box::new(Expr::Direction(Direction::Left))],
    };
    assert_eq!(c.to_code(&f), "is_empty(left)");
    let r = Expr::Call {
        callee: Callee::Rand,
        args: vec![Box::new(Expr::Uint(1)), Box::new(Expr::Uint(6))],
    };
    assert_eq!(r.to_code(&f), "rand(1, 6)");
    assert_eq!(Expr::Call { callee: Callee::IsTouched, args: vec![] }.to_code(&f), "is_touched()");
}

#[test]
fn float_code_comes_from_table() {
    let half = 0.5f64.to_bits();
    let table = vec![(half, "0.5".to_string()), (half, "ignored".to_string())];
    assert_eq!(Expr::Float(half).to_code(&table), "0.5");
    assert_eq!(Expr::Float(1.0f64.to_bits()).to_code(&table), "");
}

#[test]
fn program_code() {
    let program = vec![
        Statement::Let("x".to_string(), Expr::Uint(1)),
        Statement::Loop(
            Expr::Uint(3),
            vec![
                Statement::Move(Expr::Direction(Direction::Forward)),
                Statement::If(
                    Expr::Call { callee: Callee::IsTouched, args: vec![] },
                    vec![Statement::Print(Expr::String("hit".to_string()))],
                ),
            ],
        ),
        Statement::While(Expr::Boolean(true), vec![]),
        Statement::Sleep(Expr::Float(1.0f64.to_bits())),
        Statement::Send(Expr::String("signal".to_string())),
        Statement::Receive(Expr::String("signal".to_string())),
        Statement::Turn(Expr::Direction(Direction::Right)),
        Statement::Dig(Expr::Direction(Direction::Up)),
    ];
    let floats = vec![(1.0f64.to_bits(), "1.0".to_string())];
    let expected = "x = 1\n\
loop 3\n  move forward\n  if is_touched()\n    print \"hit\"\n  end\nend\n\
while true\nend\n\
sleep 1.0\n\
send \"signal\"\n\
receive \"signal\"\n\
turn right\n\
dig up\n";
    assert_eq!(statements_to_string(&program, 0, &floats), expected);
}

#[test]
fn program_code_with_indent() {
    let program = vec![Statement::Dig(Expr::Direction(Direction::Down))];
    assert_eq!(statements_to_string(&program, 2, &no_floats()), "    dig down\n");
    assert_eq!(statements_to_string(&[], 5, &no_floats()), "");
}

#[test]
fn code_of_concatenation_on_values() {
    let a = vec![Statement::Move(Expr::Direction(Direction::Back))];
    let b = vec![Statement::If(Expr::Boolean(false), vec![Statement::Print(Expr::Uint(2))])];
    let mut ab = Vec::new();
    ab.push(Statement::Move(Expr::Direction(Direction::Back)));
    ab.push(Statement::If(Expr::Boolean(false), vec![Statement::Print(Expr::Uint(2))]));
    let f = no_floats();
    assert_eq!(
        statements_to_string(&ab, 1, &f),
        statements_to_string(&a, 1, &f) + &statements_to_string(&b, 1, &f)
    );
}

#[test]
fn float_literals_in_code_order() {
    let one = 1.0f64.to_bits();
    let two = 2.5f64.to_bits();
    let three = 3.0f64.to_bits();
    let program = vec![
        Statement::Sleep(Expr::Float(one)),
        Statement::If(
            Expr::Binary {
                op: Op::Lt,
                lhs: Box::new(Expr::Float(two)),
                rhs: Box::new(Expr::Call { callee: Callee::Rand, args: vec![Box::new(Expr::Float(three))] }),
            },
            vec![Statement::Sleep(Expr::Float(one))],
        ),
        Statement::Print(Expr::Uint(7)),
    ];
    assert_eq!(float_literals(&program), vec![one, two, three, one]);
    assert!(float_literals(&[]).is_empty());
}

fn nested_program() -> Vec<Statement> {
    vec![
        Statement::Let("n".to_string(), Expr::Uint(2)),
        Statement::While(
            Expr::Boolean(true),
            vec![
                Statement::If(
                    Expr::Call { callee: Callee::IsEmpty, args: vec![Box::new(Expr::Direction(Direction::Up))] },
                    vec![Statement::Dig(Expr::Direction(Direction::Up))],
                ),
                Statement::Loop(Expr::Uint(4), vec![]),
            ],
        ),
    ]
}

#[test]
fn deeper_indent_shifts_every_line() {
    let f = no_floats();
    let program = nested_program();
    for level in 0..4 {
        let code = statements_to_string(&program, level, &f);
        let deeper = statements_to_string(&program, level + 1, &f);
        assert!(code.ends_with('\n'));
        let shifted: String = code.split_inclusive('\n').map(|l| format!("  {}", l)).collect();
        assert_eq!(deeper, shifted);
    }
}

#[test]
fn nesting_statement_code_shape() {
    let f = no_floats();
    let body = vec![Statement::Print(Expr::Uint(1)), Statement::Turn(Expr::Direction(Direction::Left))];
    for (stmt, kw) in [
        (Statement::If(Expr::Boolean(true), vec![]), "if"),
        (Statement::Loop(Expr::Uint(3), vec![]), "loop"),
        (Statement::While(Expr::Boolean(false), vec![]), "while"),
    ] {
        let cond = match &stmt {
            Statement::If(c, _) | Statement::Loop(c, _) | Statement::While(c, _) => c.to_code(&f),
            _ => unreachable!(),
        };
        let full = match stmt {
            Statement::If(c, _) => Statement::If(c, body.iter().map(|s| s.deep_copy()).collect()),
            Statement::Loop(c, _) => Statement::Loop(c, body.iter().map(|s| s.deep_copy()).collect()),
            Statement::While(c, _) => Statement::While(c, body.iter().map(|s| s.deep_copy()).collect()),
            other => other,
        };
        let ind = "  ".repeat(2);
        let expected = format!(
            "{}{} {}\n{}{}end\n",
            ind,
            kw,
            cond,
            statements_to_string(&body, 3, &f),
            ind
        );
        assert_eq!(statements_to_string(&[full], 2, &f), expected);
    }
}

#[test]
fn empty_program_has_empty_code() {
    assert_eq!(statements_to_string(&[], 0, &no_floats()), "");
}
