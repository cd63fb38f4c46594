use keystone_blocks::ast::{Direction, Expr, Statement};
use keystone_blocks::utils::{insert_statement_at_path, is_ancestor, remove_statement_at_path};

fn mv(d: Direction) -> Statement {
    Statement::Move(Expr::Direction(d))
}

fn show(blocks: &Vec<Statement>) -> String {
    format!("{:?}", blocks)
}

/// [Move Left, If true { Move Up, Loop 3 { Move Down } }, Move Right]
fn sample() -> Vec<Statement> {
    vec![
        mv(Direction::Left),
        Statement::If(
            Expr::Boolean(true),
            vec![
                mv(Direction::Up),
                Statement::Loop(Expr::Uint(3), vec![mv(Direction::Down)]),
            ],
        ),
        mv(Direction::Right),
    ]
}

#[test]
fn remove_top_level_statement() {
    let mut blocks = sample();
    let removed = remove_statement_at_path(&mut blocks, &[2]);
    assert_eq!(format!("{:?}", removed), format!("{:?}", Some(mv(Direction::Right))));
    assert_eq!(blocks.len(), 2);
}

#[test]
fn remove_nested_statement() {
    let mut blocks = sample();
    let removed = remove_statement_at_path(&mut blocks, &[1, 1, 0]);
    assert_eq!(format!("{:?}", removed), format!("{:?}", Some(mv(Direction::Down))));
    let expected = vec![
        mv(Direction::Left),
        Statement::If(
            Expr::Boolean(true),
            vec![mv(Direction::Up), Statement::Loop(Expr::Uint(3), vec![])],
        ),
        mv(Direction::Right),
    ];
    assert_eq!(show(&blocks), show(&expected));
}

#[test]
fn remove_with_empty_path_does_nothing() {
    let mut blocks = sample();
    assert!(remove_statement_at_path(&mut blocks, &[]).is_none());
    assert_eq!(show(&blocks), show(&sample()));
}

#[test]
fn remove_out_of_range_does_nothing() {
    let mut blocks = sample();
    assert!(remove_statement_at_path(&mut blocks, &[3]).is_none());
    assert!(remove_statement_at_path(&mut blocks, &[1, 2]).is_none());
    assert!(remove_statement_at_path(&mut blocks, &[5, 0]).is_none());
    assert_eq!(show(&blocks), show(&sample()));
}

#[test]
fn remove_through_simple_statement_does_nothing() {
    let mut blocks = sample();
    assert!(remove_statement_at_path(&mut blocks, &[0, 0]).is_none());
    assert_eq!(show(&blocks), show(&sample()));
}

#[test]
fn insert_top_level_and_clamped() {
    let mut blocks = sample();
    insert_statement_at_path(&mut blocks, &[], 1, mv(Direction::Back));
    assert_eq!(format!("{:?}", blocks[1]), format!("{:?}", mv(Direction::Back)));
    insert_statement_at_path(&mut blocks, &[], 99, mv(Direction::Forward));
    assert_eq!(blocks.len(), 5);
    assert_eq!(format!("{:?}", blocks[4]), format!("{:?}", mv(Direction::Forward)));
}

#[test]
fn insert_nested() {
    let mut blocks = sample();
    insert_statement_at_path(&mut blocks, &[1, 1], 0, mv(Direction::Forward));
    let expected = vec![
        mv(Direction::Left),
        Statement::If(
            Expr::Boolean(true),
            vec![
                mv(Direction::Up),
                Statement::Loop(
                    Expr::Uint(3),
                    vec![mv(Direction::Forward), mv(Direction::Down)],
                ),
            ],
        ),
        mv(Direction::Right),
    ];
    assert_eq!(show(&blocks), show(&expected));
}

#[test]
fn insert_into_missing_list_does_nothing() {
    let mut blocks = sample();
    insert_statement_at_path(&mut blocks, &[0], 0, mv(Direction::Forward));
    insert_statement_at_path(&mut blocks, &[7], 0, mv(Direction::Forward));
    insert_statement_at_path(&mut blocks, &[1, 0], 0, mv(Direction::Forward));
    assert_eq!(show(&blocks), show(&sample()));
}

#[test]
fn insert_undoes_remove_on_values() {
    for path in [vec![0usize], vec![1], vec![2], vec![1, 0], vec![1, 1], vec![1, 1, 0]] {
        let mut blocks = sample();
        let removed = remove_statement_at_path(&mut blocks, &path).unwrap();
        let parent = &path[..path.len() - 1];
        insert_statement_at_path(&mut blocks, parent, path[path.len() - 1], removed);
        assert_eq!(show(&blocks), show(&sample()));
    }
}

#[test]
fn remove_undoes_insert_on_values() {
    let mut blocks = sample();
    insert_statement_at_path(&mut blocks, &[1], 9, mv(Direction::Back));
    let removed = remove_statement_at_path(&mut blocks, &[1, 2]).unwrap();
    assert_eq!(format!("{:?}", removed), format!("{:?}", mv(Direction::Back)));
    assert_eq!(show(&blocks), show(&sample()));
}

#[test]
fn ancestor_is_proper_prefix() {
    assert!(is_ancestor(&[1], &[1, 0]));
    assert!(is_ancestor(&[], &[0]));
    assert!(is_ancestor(&[1, 1], &[1, 1, 0, 4]));
    assert!(!is_ancestor(&[1], &[1]));
    assert!(!is_ancestor(&[], &[]));
    assert!(!is_ancestor(&[1, 0], &[1]));
    assert!(!is_ancestor(&[2], &[1, 0]));
    assert!(!is_ancestor(&[1, 2], &[1, 3, 0]));
}
