use keystone_blocks::ast::{Expr, Statement};
use keystone_blocks::code::{adjust_path_after_removal, apply_move_request};
use keystone_blocks::structs::MoveRequest;

fn p(n: u32) -> Statement {
    Statement::Print(Expr::Uint(n))
}

fn show(blocks: &Vec<Statement>) -> String {
    format!("{:?}", blocks)
}

fn req(src: &[usize], target: &[usize], idx: usize) -> MoveRequest {
    MoveRequest { src_path: src.to_vec(), target_path: target.to_vec(), insert_idx: idx }
}

#[test]
fn adjust_path_cases() {
    assert_eq!(adjust_path_after_removal(&[3, 1], &[1]), vec![2, 1]);
    assert_eq!(adjust_path_after_removal(&[0, 1], &[1]), vec![0, 1]);
    assert_eq!(adjust_path_after_removal(&[2, 4, 0], &[2, 1]), vec![2, 3, 0]);
    assert_eq!(adjust_path_after_removal(&[3, 4], &[2, 1]), vec![3, 4]);
    assert_eq!(adjust_path_after_removal(&[2], &[2, 1]), vec![2]);
    assert_eq!(adjust_path_after_removal(&[], &[0]), Vec::<usize>::new());
    assert_eq!(adjust_path_after_removal(&[5], &[]), vec![5]);
}

#[test]
fn move_forward_within_list() {
    let mut blocks = vec![p(0), p(1), p(2), p(3)];
    apply_move_request(&mut blocks, &req(&[0], &[], 3));
    assert_eq!(show(&blocks), show(&vec![p(1), p(2), p(0), p(3)]));
}

#[test]
fn move_backward_within_list() {
    let mut blocks = vec![p(0), p(1), p(2), p(3)];
    apply_move_request(&mut blocks, &req(&[3], &[], 1));
    assert_eq!(show(&blocks), show(&vec![p(0), p(3), p(1), p(2)]));
}

#[test]
fn move_to_end() {
    let mut blocks = vec![p(0), p(1), p(2)];
    apply_move_request(&mut blocks, &req(&[1], &[], 3));
    assert_eq!(show(&blocks), show(&vec![p(0), p(2), p(1)]));
}

#[test]
fn move_into_later_body() {
    let mut blocks = vec![p(0), p(1), Statement::While(Expr::Boolean(true), vec![p(9)])];
    apply_move_request(&mut blocks, &req(&[0], &[2], 1));
    let expected = vec![p(1), Statement::While(Expr::Boolean(true), vec![p(9), p(0)])];
    assert_eq!(show(&blocks), show(&expected));
}

#[test]
fn move_out_of_body() {
    let mut blocks = vec![Statement::If(Expr::Boolean(true), vec![p(5), p(6)]), p(1)];
    apply_move_request(&mut blocks, &req(&[0, 0], &[], 2));
    let expected = vec![Statement::If(Expr::Boolean(true), vec![p(6)]), p(1), p(5)];
    assert_eq!(show(&blocks), show(&expected));
}

#[test]
fn move_with_missing_source_does_nothing() {
    let mut blocks = vec![p(0), p(1)];
    apply_move_request(&mut blocks, &req(&[4], &[], 0));
    assert_eq!(show(&blocks), show(&vec![p(0), p(1)]));
}

#[test]
fn move_into_own_body_goes_to_next_sibling_path() {
    // The target list is the body of the moved block itself: after it is
    // taken out, the target path names the statement that took its place.
    let mut blocks = vec![
        Statement::Loop(Expr::Uint(2), vec![]),
        Statement::Loop(Expr::Uint(3), vec![]),
    ];
    apply_move_request(&mut blocks, &req(&[0], &[0], 0));
    let expected = vec![Statement::Loop(
        Expr::Uint(3),
        vec![Statement::Loop(Expr::Uint(2), vec![])],
    )];
    assert_eq!(show(&blocks), show(&expected));
}

fn count(blocks: &[Statement]) -> usize {
    blocks
        .iter()
        .map(|s| match s {
            Statement::If(_, b) | Statement::Loop(_, b) | Statement::While(_, b) => 1 + count(b),
            _ => 1,
        })
        .sum()
}

#[test]
fn move_keeps_statement_count() {
    let make = || {
        vec![
            p(0),
            Statement::If(Expr::Boolean(true), vec![p(1), Statement::Loop(Expr::Uint(2), vec![p(2)])]),
            p(3),
        ]
    };
    let cases: Vec<(Vec<usize>, Vec<usize>, usize)> = vec![
        (vec![0], vec![1, 1], 0),
        (vec![1, 1, 0], vec![], 0),
        (vec![2], vec![1], 1),
        (vec![1], vec![], 3),
        (vec![1, 0], vec![1, 1], 1),
    ];
    for (src, target, idx) in cases {
        let mut blocks = make();
        let before = count(&blocks);
        apply_move_request(&mut blocks, &req(&src, &target, idx));
        assert_eq!(count(&blocks), before);
    }
}

#[test]
fn move_lands_at_adjusted_target() {
    let mut blocks = vec![
        p(0),
        Statement::If(Expr::Boolean(true), vec![p(1), p(2)]),
    ];
    // Move p(0) into the body of the If, before p(2).
    apply_move_request(&mut blocks, &req(&[0], &[1], 1));
    let expected = vec![Statement::If(Expr::Boolean(true), vec![p(1), p(0), p(2)])];
    assert_eq!(show(&blocks), show(&expected));
}

#[test]
fn move_into_own_body_before_simple_statement_drops_it() {
    // The target is the moved block's own body and the statement that
    // takes its place has no body: the block is taken out and not put back.
    let mut blocks = vec![Statement::Loop(Expr::Uint(2), vec![]), p(1)];
    apply_move_request(&mut blocks, &req(&[0], &[0], 0));
    assert_eq!(show(&blocks), show(&vec![p(1)]));
}
