use dim::position::Position;

#[test]
fn test_position_new() {
    let pos = Position::new(3, 5);
    assert_eq!(pos.line, 3);
    assert_eq!(pos.col, 5);
}

#[test]
fn test_position_equality() {
    assert_eq!(Position::new(1, 2), Position::new(1, 2));
    assert_ne!(Position::new(1, 2), Position::new(2, 1));
}

#[test]
fn test_position_ordering_same_line() {
    assert!(Position::new(0, 3) < Position::new(0, 5));
    assert!(Position::new(0, 5) > Position::new(0, 3));
}

#[test]
fn test_position_ordering_different_line() {
    assert!(Position::new(1, 0) < Position::new(2, 0));
    assert!(Position::new(3, 100) > Position::new(2, 0));
}

#[test]
fn test_position_sorting() {
    let mut positions = vec![
        Position::new(2, 5),
        Position::new(0, 0),
        Position::new(1, 10),
        Position::new(0, 5),
    ];
    positions.sort();
    assert_eq!(
        positions,
        vec![
            Position::new(0, 0),
            Position::new(0, 5),
            Position::new(1, 10),
            Position::new(2, 5),
        ]
    );
}

