use engine_core::{
    BagOrderError, BoardError, GameError, GenerationError, NormalizedDocument, NormalizedFixtureError, Orientation,
    PieceKind, PieceState, SessionStepError, TeacherError,
};

#[test]
fn game_error_messages_name_the_pieces_and_placements() {
    assert_eq!(
        GameError::WrongPiece { active: PieceKind::T, attempted: PieceKind::I }.message(),
        "active piece is T, not I"
    );
    let placement = PieceState { kind: PieceKind::L, orientation: Orientation::Reverse, x: -1, y: 20 };
    assert_eq!(
        GameError::UnreachablePlacement(placement).message(),
        "placement is not reachable: PieceState { kind: L, orientation: Reverse, x: -1, y: 20 }"
    );
    assert_eq!(GameError::HoldAlreadyUsed.message(), "hold was already used for the active piece");
    assert_eq!(
        GameError::BagOrder(BagOrderError::Duplicate(PieceKind::S)).message(),
        "bag order contains duplicate S"
    );
}

#[test]
fn board_error_messages_show_rows_in_hex() {
    assert_eq!(
        BoardError::InvalidRow { y: 3, row: 0x7ff }.message(),
        "row 3 has out-of-width bits: 0x07ff"
    );
    assert_eq!(
        BoardError::GarbageOutsideOccupancy { y: 12, garbage: 0x100, occupied: 0x0ff }.message(),
        "garbage row 12 (0x0100) is not a subset of occupancy (0x00ff)"
    );
    assert_eq!(BoardError::CellOutOfBounds { x: 10, y: 41 }.message(), "cell (10, 41) is outside the board");
    assert_eq!(BoardError::GarbageHoleOutOfBounds(12).message(), "garbage hole column 12 is outside the board");
}

#[test]
fn wrapped_errors_prefix_their_source() {
    assert_eq!(
        GenerationError::Game(GameError::GameOver).message(),
        "engine transition failed: the game is already top-out terminal"
    );
    assert_eq!(
        GenerationError::CandidateCountOverflow(70000).message(),
        "candidate count does not fit u16: 70000"
    );
    assert_eq!(TeacherError::Overflow.message(), "linear teacher score overflowed i64");
    assert_eq!(SessionStepError::Game(GameError::AwaitingSpawn).message(), "the locked piece is awaiting next spawn");
    assert_eq!(
        NormalizedFixtureError::UnsupportedSchema { document: NormalizedDocument::Manifest, actual: 7 }.message(),
        "unsupported manifest schema 7; expected 1"
    );
    assert_eq!(
        NormalizedFixtureError::InvalidField { field: "snapshots[0].frame".to_owned(), reason: "bad" }.message(),
        "invalid field snapshots[0].frame: bad"
    );
}
