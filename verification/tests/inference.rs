use keystone_blocks::ast::{Callee, Direction, Expr, Op, Type, UnaryOp};
use keystone_blocks::structs::InferResult;
use keystone_blocks::utils::{infer_expr_type, is_type_compatible, unary_chain};

fn bin(op: Op, l: Expr, r: Expr) -> Expr {
    Expr::Binary { op, lhs: Box::new(l), rhs: Box::new(r) }
}

fn not(e: Expr) -> Expr {
    Expr::Unary { op: UnaryOp::Not, exp: Box::new(e) }
}

fn rand(n: usize) -> Expr {
    Expr::Call { callee: Callee::Rand, args: (0..n).map(|_| Box::new(Expr::Uint(1))).collect() }
}

#[test]
fn checker_result_wins() {
    let e = bin(Op::Add, Expr::Uint(1), Expr::Uint(2));
    assert_eq!(infer_expr_type(&e, &[Some(Type::Float)]), InferResult::Type(Type::Float));
}

#[test]
fn binary_fallbacks() {
    for op in [Op::Eq, Op::Neq, Op::Lt, Op::Gt, Op::Le, Op::Ge, Op::And, Op::Or] {
        let e = bin(op, Expr::Var("x".to_string()), Expr::Uint(0));
        assert_eq!(infer_expr_type(&e, &[None]), InferResult::Type(Type::Boolean));
    }
    for op in [Op::Add, Op::Sub, Op::Mul, Op::Div] {
        let e = bin(op, Expr::Var("x".to_string()), Expr::Uint(1));
        assert_eq!(infer_expr_type(&e, &[None]), InferResult::Type(Type::Uint));
    }
}

#[test]
fn unary_fallbacks() {
    let inner = Expr::Var("x".to_string());
    let e = not(inner);
    assert_eq!(infer_expr_type(&e, &[None, Some(Type::Boolean)]), InferResult::Type(Type::Boolean));
    assert_eq!(infer_expr_type(&e, &[None, Some(Type::Uint)]), InferResult::Invalid);
    assert_eq!(infer_expr_type(&e, &[None, None]), InferResult::Type(Type::Boolean));
    let e2 = not(rand(3));
    assert_eq!(infer_expr_type(&e2, &[None, None]), InferResult::Invalid);
    let e3 = not(not(Expr::Uint(4)));
    assert_eq!(infer_expr_type(&e3, &[None, None, Some(Type::Uint)]), InferResult::Invalid);
}

#[test]
fn rand_fallbacks() {
    assert_eq!(infer_expr_type(&rand(0), &[None]), InferResult::Type(Type::Float));
    assert_eq!(infer_expr_type(&rand(1), &[None]), InferResult::Type(Type::Uint));
    assert_eq!(infer_expr_type(&rand(2), &[None]), InferResult::Type(Type::Uint));
    assert_eq!(infer_expr_type(&rand(3), &[None]), InferResult::Invalid);
}

#[test]
fn other_fallbacks_are_unknown() {
    let touched = Expr::Call { callee: Callee::IsTouched, args: vec![] };
    assert_eq!(infer_expr_type(&touched, &[None]), InferResult::Unknown);
    assert_eq!(infer_expr_type(&Expr::Direction(Direction::Up), &[None]), InferResult::Unknown);
}

#[test]
fn unary_chain_lists_nested_operands() {
    let e = not(not(Expr::Boolean(true)));
    let chain = unary_chain(&e);
    assert_eq!(chain.len(), 3);
    assert_eq!(format!("{:?}", chain[2]), format!("{:?}", Expr::Boolean(true)));
    assert_eq!(unary_chain(&Expr::Uint(1)).len(), 1);
}

#[test]
fn compatibility() {
    let e = Expr::Uint(3);
    assert!(is_type_compatible(None, &e, &[]));
    assert!(is_type_compatible(Some(Type::Uint), &e, &[Some(Type::Uint)]));
    assert!(!is_type_compatible(Some(Type::Boolean), &e, &[Some(Type::Uint)]));
    let v = Expr::Var("y".to_string());
    assert!(is_type_compatible(Some(Type::Direction), &v, &[None]));
    assert!(!is_type_compatible(Some(Type::Uint), &rand(5), &[None]));
}
