use keystone_blocks::ast::{Callee, Direction, Expr, Op, Statement, Type};
use keystone_blocks::colorizer::{colors, get_stmt_color, Rgb};
use keystone_blocks::renderer::{
    binary_op_choices, binary_operand_type, call_arg_type, direction_choices, drop_on_slot,
    handle_drop, op_symbol, statement_slot_type, uint_from_drag,
};
use keystone_blocks::structs::{DraggedBlock, MoveRequest, VplState};
use keystone_blocks::utils::get_stmt_info;

fn p(n: u32) -> Statement {
    Statement::Print(Expr::Uint(n))
}

#[test]
fn drop_new_statement_inserts_copy() {
    let payload = DraggedBlock::NewStatement(p(7));
    let mut blocks = vec![p(0), p(1)];
    let mut req: Option<MoveRequest> = None;
    handle_drop(&payload, &mut blocks, &[], 1, &mut req);
    assert_eq!(format!("{:?}", blocks), format!("{:?}", vec![p(0), p(7), p(1)]));
    assert!(req.is_none());
    handle_drop(&payload, &mut blocks, &[], 5, &mut req);
    assert_eq!(blocks.len(), 3);
}

#[test]
fn drop_existing_statement_requests_move() {
    let payload = DraggedBlock::MoveStatement { path: vec![0] };
    let mut blocks = vec![p(0), p(1)];
    let mut req: Option<MoveRequest> = None;
    handle_drop(&payload, &mut blocks, &[], 2, &mut req);
    let r = req.expect("a move request");
    assert_eq!(r.src_path, vec![0]);
    assert_eq!(r.target_path, Vec::<usize>::new());
    assert_eq!(r.insert_idx, 2);
    assert_eq!(blocks.len(), 2);
}

#[test]
fn drop_into_own_descendant_is_refused() {
    let payload = DraggedBlock::MoveStatement { path: vec![1] };
    let mut blocks = vec![p(0)];
    let mut req: Option<MoveRequest> = None;
    handle_drop(&payload, &mut blocks, &[1, 0], 0, &mut req);
    assert!(req.is_none());
}

#[test]
fn drop_expression_on_list_is_ignored() {
    let payload = DraggedBlock::NewExpr(Expr::Uint(1));
    let mut blocks = vec![p(0)];
    let mut req: Option<MoveRequest> = None;
    handle_drop(&payload, &mut blocks, &[], 0, &mut req);
    assert_eq!(blocks.len(), 1);
    assert!(req.is_none());
}

#[test]
fn drop_on_slot_respects_type() {
    let mut slot = Expr::Direction(Direction::Up);
    let payload = DraggedBlock::NewExpr(Expr::Uint(5));
    drop_on_slot(&mut slot, &payload, Some(Type::Direction), &[Some(Type::Uint)]);
    assert_eq!(format!("{:?}", slot), format!("{:?}", Expr::Direction(Direction::Up)));
    drop_on_slot(&mut slot, &payload, Some(Type::Uint), &[Some(Type::Uint)]);
    assert_eq!(format!("{:?}", slot), format!("{:?}", Expr::Uint(5)));
    let payload2 = DraggedBlock::NewExpr(Expr::Boolean(true));
    drop_on_slot(&mut slot, &payload2, None, &[]);
    assert_eq!(format!("{:?}", slot), format!("{:?}", Expr::Boolean(true)));
    drop_on_slot(&mut slot, &DraggedBlock::NewStatement(p(1)), None, &[]);
    assert_eq!(format!("{:?}", slot), format!("{:?}", Expr::Boolean(true)));
}

#[test]
fn slot_types() {
    assert_eq!(statement_slot_type(&Statement::Sleep(Expr::Uint(1))), Some(Type::Float));
    assert_eq!(statement_slot_type(&Statement::Move(Expr::Uint(1))), Some(Type::Direction));
    assert_eq!(statement_slot_type(&Statement::Turn(Expr::Uint(1))), Some(Type::Direction));
    assert_eq!(statement_slot_type(&Statement::Dig(Expr::Uint(1))), Some(Type::Direction));
    assert_eq!(statement_slot_type(&p(1)), None);
    assert_eq!(statement_slot_type(&Statement::Let("x".to_string(), Expr::Uint(1))), None);
    assert_eq!(statement_slot_type(&Statement::Send(Expr::Uint(1))), None);
    assert_eq!(statement_slot_type(&Statement::Receive(Expr::Uint(1))), None);
    assert_eq!(statement_slot_type(&Statement::If(Expr::Uint(1), vec![])), Some(Type::Boolean));
    assert_eq!(statement_slot_type(&Statement::Loop(Expr::Uint(1), vec![])), Some(Type::Uint));
    assert_eq!(statement_slot_type(&Statement::While(Expr::Uint(1), vec![])), Some(Type::Boolean));
    assert_eq!(binary_operand_type(Op::Add), Some(Type::Uint));
    assert_eq!(binary_operand_type(Op::Ge), Some(Type::Uint));
    assert_eq!(binary_operand_type(Op::Or), Some(Type::Boolean));
    assert_eq!(call_arg_type(Callee::IsTouched), None);
    assert_eq!(call_arg_type(Callee::IsEmpty), Some(Type::Direction));
    assert_eq!(call_arg_type(Callee::Rand), Some(Type::Uint));
}

#[test]
fn operator_choices() {
    let cmp: Vec<&str> = binary_op_choices(Op::Lt).iter().map(|(_, s)| *s).collect();
    assert_eq!(cmp, vec!["==", "!=", "<", ">", "<=", ">="]);
    let arith: Vec<Op> = binary_op_choices(Op::Div).iter().map(|(o, _)| *o).collect();
    assert_eq!(arith, vec![Op::Add, Op::Sub, Op::Mul, Op::Div]);
    assert_eq!(binary_op_choices(Op::And).len(), 2);
    assert_eq!(op_symbol(Op::Neq), "!=");
    assert_eq!(op_symbol(Op::Mul), "*");
    assert_eq!(op_symbol(Op::Or), "or");
    assert_eq!(direction_choices()[0], (Direction::Forward, "Forward"));
    assert_eq!(direction_choices()[5], (Direction::Down, "Down"));
}

#[test]
fn drag_values_become_numbers() {
    assert_eq!(uint_from_drag(-5), 0);
    assert_eq!(uint_from_drag(42), 42);
    assert_eq!(uint_from_drag(4294967296 + 3), 3);
}

#[test]
fn statement_info_and_colors() {
    assert_eq!(get_stmt_info(&Statement::Move(Expr::Uint(0))), ("🏃", "Move"));
    assert_eq!(get_stmt_info(&Statement::While(Expr::Uint(0), vec![])), ("🔄", "While"));
    assert_eq!(get_stmt_info(&Statement::Let("a".to_string(), Expr::Uint(0))), ("📝", "Let"));
    assert_eq!(get_stmt_color(&Statement::Dig(Expr::Uint(0))), colors::motion());
    assert_eq!(get_stmt_color(&p(0)), colors::looks());
    assert_eq!(get_stmt_color(&Statement::Loop(Expr::Uint(0), vec![])), colors::control());
    assert_eq!(get_stmt_color(&Statement::Sleep(Expr::Uint(0))), colors::control());
    assert_eq!(get_stmt_color(&Statement::Let("a".to_string(), Expr::Uint(0))), colors::variables());
    assert_eq!(get_stmt_color(&Statement::Receive(Expr::Uint(0))), colors::event());
    assert_eq!(colors::motion(), Rgb { r: 76, g: 151, b: 255 });
    assert_eq!(colors::text_white(), Rgb { r: 255, g: 255, b: 255 });
}

#[test]
fn default_state_is_empty() {
    let s = VplState::default();
    assert!(s.blocks.is_empty());
    assert!(s.generated_code.is_empty());
}

#[test]
fn deep_copy_keeps_structure() {
    let s = Statement::If(
        Expr::Call { callee: Callee::Rand, args: vec![Box::new(Expr::Uint(1))] },
        vec![Statement::Let("v".to_string(), Expr::Var("w".to_string()))],
    );
    assert_eq!(format!("{:?}", s.deep_copy()), format!("{:?}", s));
}

#[test]
fn not_takes_a_boolean() {
    assert_eq!(keystone_blocks::renderer::unary_operand_type(keystone_blocks::ast::UnaryOp::Not), Some(Type::Boolean));
}

#[test]
fn clear_and_append() {
    let mut blocks = vec![p(0), p(1)];
    keystone_blocks::utils::insert_statement_at_path(&mut blocks, &[], 2, p(2));
    assert_eq!(format!("{:?}", blocks), format!("{:?}", vec![p(0), p(1), p(2)]));
    keystone_blocks::utils::remove_statement_at_path(&mut blocks, &[1]);
    assert_eq!(format!("{:?}", blocks), format!("{:?}", vec![p(0), p(2)]));
    keystone_blocks::utils::clear_statements(&mut blocks);
    assert!(blocks.is_empty());
}
