use engine_core::{Board, Orientation, PieceKind, PieceState, RotationDirection, kick_tests, try_rotate};

#[test]
fn open_space_rotation_uses_first_test() {
    let board = Board::empty();
    let piece = PieceState::new(PieceKind::T, Orientation::Spawn, 3, 10);
    let result = try_rotate(&board, piece, RotationDirection::Clockwise).expect("rotation fits");
    assert_eq!(result.state.orientation, Orientation::Right);
    assert_eq!(result.state.x, piece.x);
    assert_eq!(result.state.y, piece.y);
    assert_eq!(result.kick_index, 0);
}

#[test]
fn wall_rotation_uses_ordered_kick() {
    let board = Board::empty();
    let piece = PieceState::new(PieceKind::T, Orientation::Right, -1, 4);
    assert!(!board.collides(piece));
    let result = try_rotate(&board, piece, RotationDirection::Counterclockwise).expect("R to spawn should kick right");
    assert_eq!(result.state.x, 0);
    assert_eq!(result.kick_index, 1);
}

#[test]
fn srs_plus_i_order_is_explicit() {
    assert_eq!(
        kick_tests(PieceKind::I, Orientation::Spawn, RotationDirection::Clockwise),
        &[(0, 0), (1, 0), (-2, 0), (-2, -1), (1, 2)]
    );
}

#[test]
fn half_rotation_has_six_non_i_tests() {
    assert_eq!(kick_tests(PieceKind::T, Orientation::Spawn, RotationDirection::Half).len(), 6);
}

#[test]
fn kicked_rotation_reports_client_index_one_below_table_index() {
    let board = Board::empty();
    let piece = PieceState::new(PieceKind::T, Orientation::Right, -1, 4);
    let result = try_rotate(&board, piece, RotationDirection::Counterclockwise).expect("kicks");
    assert!(result.used_kick);
    assert_eq!(result.client_kick_index(), 0);
    let open = try_rotate(&board, PieceState::new(PieceKind::T, Orientation::Spawn, 3, 10), RotationDirection::Half)
        .expect("fits");
    assert!(!open.used_kick);
    assert_eq!(open.client_kick_index(), 0);
}
