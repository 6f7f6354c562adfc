use engine_core::board::FULL_ROW;
use engine_core::{Board, BoardError, HEIGHT, LockVisibility, Orientation, PieceKind, PieceState};

#[test]
fn rejects_bits_outside_width() {
    let mut rows = [0; HEIGHT];
    rows[3] = 1 << 10;
    assert_eq!(Board::from_rows(rows), Err(BoardError::InvalidRow { y: 3, row: 1 << 10 }));
}

#[test]
fn rejects_garbage_bits_without_occupancy() {
    let rows = [0; HEIGHT];
    let mut garbage_rows = [0; HEIGHT];
    garbage_rows[2] = 1 << 4;

    assert_eq!(
        Board::from_layers(rows, garbage_rows),
        Err(BoardError::GarbageOutsideOccupancy { y: 2, garbage: 1 << 4, occupied: 0 })
    );
}

#[test]
fn locking_piece_updates_cells_and_checksum() {
    let mut board = Board::empty();
    let before = board.checksum();
    let piece = PieceState::new(PieceKind::O, Orientation::Spawn, 3, -1);
    let result = board.lock(piece).expect("O piece should fit on floor");
    assert_eq!(result.cleared.count(), 0);
    assert!(!result.perfect_clear);
    assert_eq!(result.visibility, LockVisibility::Visible);
    assert_eq!(board.occupied_cells(), 4);
    assert_ne!(board.checksum(), before);
}

#[test]
fn full_rows_are_compacted_in_order() {
    let mut rows = [0; HEIGHT];
    rows[0] = FULL_ROW;
    rows[1] = 0b00_0000_0001;
    rows[2] = FULL_ROW;
    rows[3] = 0b00_0000_0010;
    let mut board = Board::from_rows(rows).expect("valid rows");

    let piece = PieceState::new(PieceKind::O, Orientation::Spawn, 3, 3);
    let result = board.lock(piece).expect("piece should fit");

    assert_eq!(result.cleared.rows(), &[0, 2]);
    assert_eq!(board.row(0), Some(0b00_0000_0001));
    assert_eq!(board.row(1), Some(0b00_0000_0010));
    assert_eq!(board.occupied_cells(), 6);
}

#[test]
fn floor_and_walls_collide() {
    let board = Board::empty();
    assert!(board.collides(PieceState::new(PieceKind::T, Orientation::Spawn, -1, -1)));
    assert!(board.collides(PieceState::new(PieceKind::I, Orientation::Spawn, 7, 0)));
    assert!(!board.collides(PieceState::new(PieceKind::I, Orientation::Spawn, 6, 0)));
}

#[test]
fn clearing_the_last_cells_reports_perfect_clear() {
    let mut rows = [0; HEIGHT];
    rows[0] = FULL_ROW & !0b00_0111_1000;
    let mut board = Board::from_rows(rows).expect("valid almost-full row");
    let piece = PieceState::new(PieceKind::I, Orientation::Reverse, 3, -1);

    let result = board.lock(piece).expect("I piece completes the row");
    assert_eq!(result.cleared.rows(), &[0]);
    assert!(result.perfect_clear);
    assert!(board.is_empty());
}

#[test]
fn garbage_push_shifts_both_layers_and_marks_the_new_row() {
    let mut board = Board::empty();
    board.set_cell(2, 0, true).expect("valid cell");

    let pushed = board.push_garbage_line(4).expect("valid hole");

    assert!(!pushed.overflowed_buffer);
    assert_eq!(board.row(0), Some(FULL_ROW & !(1 << 4)));
    assert_eq!(board.garbage_rows()[0], FULL_ROW & !(1 << 4));
    assert_eq!(board.row(1), Some(1 << 2));
    assert_eq!(board.garbage_rows()[1], 0);
    assert_eq!(board.is_garbage(4, 0), Some(false));
    assert_eq!(board.is_garbage(3, 0), Some(true));
}

#[test]
fn garbage_push_reports_a_filled_buffer_ceiling() {
    let mut rows = [0; HEIGHT];
    rows[HEIGHT - 1] = FULL_ROW;
    let mut board = Board::from_rows(rows).expect("valid full ceiling");

    let pushed = board.push_garbage_line(4).expect("valid hole");

    assert!(pushed.overflowed_buffer);
    assert!(!board.buffer_ceiling_full());
}

#[test]
fn clearing_a_garbage_row_reports_provenance() {
    let mut rows = [0; HEIGHT];
    rows[0] = FULL_ROW & !0b00_0111_1000;
    let garbage_rows = rows;
    let mut board = Board::from_layers(rows, garbage_rows).expect("valid garbage layer");
    let piece = PieceState::new(PieceKind::I, Orientation::Reverse, 3, -1);

    let result = board.lock(piece).expect("I piece completes garbage row");

    assert_eq!(result.cleared.rows(), &[0]);
    assert!(result.cleared_garbage);
    assert!(result.perfect_clear);
    assert!(board.garbage_rows().iter().all(|row| *row == 0));
}

#[test]
fn lock_visibility_distinguishes_partial_and_full_hidden_placement() {
    let mut partial_board = Board::empty();
    let partial = partial_board
        .lock(PieceState::new(PieceKind::O, Orientation::Spawn, 3, 18))
        .expect("partially hidden O fits");
    assert_eq!(partial.visibility, LockVisibility::PartiallyHidden);

    let mut hidden_board = Board::empty();
    let hidden = hidden_board
        .lock(PieceState::new(PieceKind::O, Orientation::Spawn, 3, 19))
        .expect("fully hidden O fits");
    assert_eq!(hidden.visibility, LockVisibility::FullyHidden);
}

#[test]
fn lock_without_full_rows_leaves_none_behind() {
    let mut rows = [0; HEIGHT];
    rows[0] = FULL_ROW & !0b00_0111_1000;
    rows[1] = FULL_ROW & !0b00_0000_0001;
    let mut board = Board::from_rows(rows).expect("valid rows");
    board.lock(PieceState::new(PieceKind::I, Orientation::Reverse, 3, -1)).expect("fits");
    assert!((0..HEIGHT).all(|y| board.row(y) != Some(FULL_ROW)));
    assert_eq!(board.row(0), Some(FULL_ROW & !0b00_0000_0001));
}
