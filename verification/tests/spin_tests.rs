use engine_core::{
    Board, HEIGHT, LastAction, Orientation, PieceKind, PieceState, RotationDirection, SpinClassification, SpinMode,
    SpinRules, classify_spin,
};

fn rotation() -> LastAction {
    LastAction::Rotation { direction: RotationDirection::Clockwise, kick_index: 0 }
}

#[test]
fn t_front_corners_classify_full() {
    let mut rows = [0; HEIGHT];
    rows[1] = (1 << 3) | (1 << 5);
    let board = Board::from_rows(rows).expect("valid board");
    let piece = PieceState::new(PieceKind::T, Orientation::Spawn, 3, -1);

    let spin = classify_spin(&board, piece, rotation(), SpinRules::all_mini_plus_observed()).expect("three-corner T spin");
    assert_eq!(spin.classification, SpinClassification::Full);
}

#[test]
fn t_three_corner_without_both_front_corners_is_mini() {
    let mut rows = [0; HEIGHT];
    rows[1] = 1 << 3;
    let board = Board::from_rows(rows).expect("valid board");
    let piece = PieceState::new(PieceKind::T, Orientation::Spawn, 3, -1);

    let spin = classify_spin(&board, piece, rotation(), SpinRules::all_mini_plus_observed()).expect("three-corner T mini");
    assert_eq!(spin.classification, SpinClassification::Mini);
}

#[test]
fn explicit_kick_mask_can_upgrade_a_three_corner_t_mini() {
    let mut rows = [0; HEIGHT];
    rows[1] = 1 << 3;
    let board = Board::from_rows(rows).expect("valid board");
    let piece = PieceState::new(PieceKind::T, Orientation::Spawn, 3, -1);
    let rules = SpinRules { mode: SpinMode::AllMiniPlus, t_full_kick_upgrade_mask: 1 << 4 };
    let action = LastAction::Rotation { direction: RotationDirection::Clockwise, kick_index: 4 };

    let spin = classify_spin(&board, piece, action, rules).expect("upgraded T spin");
    assert_eq!(spin.classification, SpinClassification::Full);
}

#[test]
fn immobile_non_t_rotation_is_all_mini_plus_mini() {
    let mut rows = [0; HEIGHT];
    rows[0] = (1 << 3) | (1 << 6);
    rows[2] = 1 << 4;
    let board = Board::from_rows(rows).expect("valid board");
    let piece = PieceState::new(PieceKind::O, Orientation::Spawn, 3, -1);

    let spin = classify_spin(&board, piece, rotation(), SpinRules::all_mini_plus_observed()).expect("immobile O mini");
    assert_eq!(spin.classification, SpinClassification::Mini);
}

#[test]
fn translation_cannot_be_a_spin() {
    let board = Board::empty();
    let piece = PieceState::new(PieceKind::T, Orientation::Spawn, 3, -1);
    assert_eq!(classify_spin(&board, piece, LastAction::Translation, SpinRules::all_mini_plus_observed()), None);
}

#[test]
fn disabled_rules_never_report_a_spin() {
    let mut rows = [0; HEIGHT];
    rows[1] = (1 << 3) | (1 << 5);
    let board = Board::from_rows(rows).expect("valid board");
    let piece = PieceState::new(PieceKind::T, Orientation::Spawn, 3, -1);
    assert_eq!(classify_spin(&board, piece, rotation(), SpinRules::disabled()), None);
}
