use engine_core::{
    Board, ClearedLines, DELLACHERIE_SCALED_WEIGHTS, FEATURE_COUNT, FEATURE_NAMES, HEIGHT, LinearTeacher, Orientation,
    PieceKind, PieceState, TeacherError, WIDTH, extract_afterstate_features,
};

#[test]
fn empty_board_features_have_only_boundary_transitions() {
    let board = Board::empty();
    let piece = PieceState::new(PieceKind::O, Orientation::Spawn, 3, -1);
    let features = extract_afterstate_features(&board, piece, ClearedLines::new());

    assert_eq!(features[2], i32::try_from(HEIGHT * 2).unwrap());
    assert_eq!(features[3], i32::try_from(WIDTH * 2).unwrap());
    assert_eq!(features[4], 0);
    assert_eq!(features[5], 0);
    assert_eq!(features[6], 0);
}

#[test]
fn eroded_piece_cells_multiplies_cells_by_cleared_lines() {
    let mut board = Board::from_rows([0; HEIGHT]).unwrap();
    for x in 0..8 {
        board.set_cell(x, 0, true).unwrap();
    }
    let piece = PieceState::new(PieceKind::O, Orientation::Spawn, 7, -1);
    let lock = board.lock(piece).unwrap();
    let features = extract_afterstate_features(&board, piece, lock.cleared);

    assert_eq!(lock.cleared.count(), 1);
    assert_eq!(features[1], 2);
    assert_eq!(features[9], 1);
}

#[test]
fn bitboard_features_match_naive_cell_scans() {
    let piece = PieceState::new(PieceKind::T, Orientation::Right, 3, 8);
    let mut state = 0x243f_6a88_u32;
    for case in 0..128 {
        let mut rows = [0_u16; HEIGHT];
        for row in &mut rows {
            state = state.wrapping_mul(1_664_525).wrapping_add(1_013_904_223);
            *row = ((state >> 16) as u16) & 0x03ff;
            if *row == 0x03ff {
                *row ^= 1_u16 << (case % WIDTH);
            }
        }
        let board = Board::from_rows(rows).unwrap();
        let actual = extract_afterstate_features(&board, piece, ClearedLines::new());
        assert_eq!(actual[2], naive_row_transitions(&board));
        assert_eq!(actual[3], naive_column_transitions(&board));
        assert_eq!(actual[4], naive_holes(&board));
        assert_eq!(actual[5], naive_wells(&board));
    }
}

fn naive_occupied(board: &Board, x: usize, y: usize) -> bool {
    board.is_occupied(x, y).unwrap()
}

fn naive_row_transitions(board: &Board) -> i32 {
    let mut transitions = 0;
    for y in 0..HEIGHT {
        let mut previous = true;
        for x in 0..WIDTH {
            let cell = naive_occupied(board, x, y);
            transitions += i32::from(cell != previous);
            previous = cell;
        }
        transitions += i32::from(!previous);
    }
    transitions
}

fn naive_column_transitions(board: &Board) -> i32 {
    let mut transitions = 0;
    for x in 0..WIDTH {
        let mut previous = true;
        for y in 0..HEIGHT {
            let cell = naive_occupied(board, x, y);
            transitions += i32::from(cell != previous);
            previous = cell;
        }
        transitions += i32::from(!previous);
    }
    transitions
}

fn naive_holes(board: &Board) -> i32 {
    let mut holes = 0;
    for x in 0..WIDTH {
        let height = (0..HEIGHT).rev().find(|y| naive_occupied(board, x, *y)).map_or(0, |y| y + 1);
        holes += (0..height).filter(|y| !naive_occupied(board, x, *y)).count() as i32;
    }
    holes
}

fn naive_wells(board: &Board) -> i32 {
    let mut total = 0;
    for x in 0..WIDTH {
        let mut depth = 0;
        for y in 0..HEIGHT {
            let cell = naive_occupied(board, x, y);
            let left = x == 0 || naive_occupied(board, x - 1, y);
            let right = x + 1 == WIDTH || naive_occupied(board, x + 1, y);
            if !cell && left && right {
                depth += 1;
                total += depth;
            } else {
                depth = 0;
            }
        }
    }
    total
}

#[test]
fn dellacherie_teacher_is_deterministic_and_prefers_fewer_holes() {
    let teacher = LinearTeacher::dellacherie_v1();
    let clean = [2, 0, 4, 4, 0, 0, 4, 0, 1, 0];
    let holes = [2, 0, 4, 4, 2, 0, 4, 0, 1, 0];

    assert_eq!(teacher.score(clean).unwrap(), teacher.score(clean).unwrap());
    assert!(teacher.score(clean).unwrap() > teacher.score(holes).unwrap());
}

#[test]
fn teacher_score_is_the_exact_weighted_sum() {
    let teacher = LinearTeacher::dellacherie_v1();
    assert_eq!(teacher.weights(), DELLACHERIE_SCALED_WEIGHTS);
    let features = [2, 1, 4, 4, 0, 3, 4, 0, 1, 1];
    let expected = -2_250 * 2 + 3_418 - 3_218 * 4 - 9_349 * 4 - 3_386 * 3;
    assert_eq!(teacher.score(features), Ok(expected));
    let weight_sum: i64 = DELLACHERIE_SCALED_WEIGHTS.iter().sum();
    assert_eq!(weight_sum, -22_684);
    assert_eq!(teacher.score([i32::MAX; FEATURE_COUNT]), Ok(-22_684 * i64::from(i32::MAX)));
}

#[test]
fn feature_names_follow_the_vector_order() {
    assert_eq!(FEATURE_NAMES[0], "landing_height_x2");
    assert_eq!(FEATURE_NAMES[4], "buried_holes");
    assert_eq!(FEATURE_NAMES[FEATURE_COUNT - 1], "lines_cleared");
}

#[test]
fn features_of_a_placed_t_piece_have_exact_values() {
    let mut board = Board::empty();
    let piece = PieceState::new(PieceKind::T, Orientation::Spawn, 0, -1);
    board.lock(piece).unwrap();
    let features = extract_afterstate_features(&board, piece, ClearedLines::new());
    assert_eq!(features[0], 0 + 1 + 2);
    assert_eq!(features[6], 1 + 2 + 1);
    assert_eq!(features[7], 1 + 1 + 1);
    assert_eq!(features[8], 2);
    assert_eq!(features[4], 0);
    assert_eq!(features[5], 1);
    assert!(matches!(TeacherError::Overflow, TeacherError::Overflow));
}

#[test]
fn board_summary_counts_heights_holes_and_bumpiness() {
    let mut rows = [0u16; HEIGHT];
    rows[0] = 0b10;
    rows[1] = 0b11;
    let board = Board::from_rows(rows).unwrap();
    assert_eq!(engine_core::board_summary(&board), [4, 2, 1, 2]);
    let empty = Board::from_rows([0; HEIGHT]).unwrap();
    assert_eq!(engine_core::board_summary(&empty), [0, 0, 0, 0]);
}
