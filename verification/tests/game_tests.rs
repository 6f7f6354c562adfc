use engine_core::board::FULL_ROW;
use engine_core::{
    Board, GameConfig, GameError, GameState, HEIGHT, InitialActions, Orientation, PieceKind, PieceState,
    RotationDirection, TopOutReason, WIDTH,
};

#[test]
fn queue_has_configured_preview_length() {
    let game = GameState::new(11, GameConfig::default()).expect("valid game");
    assert_eq!(game.preview().len(), 5);
    assert!(!game.is_top_out());
}

#[test]
fn hold_is_limited_until_piece_lock() {
    let mut game = GameState::new(19, GameConfig::default()).expect("valid game");
    let initial = game.active().kind;
    let hold = game.hold_active().expect("first hold succeeds");
    assert_eq!(hold.held, initial);
    assert_eq!(game.hold(), Some(initial));
    assert_eq!(game.hold_active(), Err(GameError::HoldAlreadyUsed));

    let placement = game.reachable_placements()[0].state;
    game.lock_placement(placement).expect("reachable placement locks");
    assert!(game.hold_available());
    game.hold_active().expect("hold resets after lock");
}

#[test]
fn initial_hold_is_resolved_before_initial_rotation() {
    let mut game = GameState::new(29, GameConfig::default()).expect("valid game");
    let outgoing = game.active().kind;
    let incoming = game.preview()[0];
    let result = game
        .apply_initial_actions(InitialActions::new(true, Some(RotationDirection::Clockwise)))
        .expect("initial actions apply");

    assert!(result.hold_applied);
    assert_eq!(game.hold(), Some(outgoing));
    assert_eq!(result.active.kind, incoming);
    assert_eq!(result.active.orientation, Orientation::Right);
    assert!(result.rotation.is_some());
}

#[test]
fn identical_choices_reproduce_state() {
    let mut first = GameState::new(1234, GameConfig::default()).expect("valid game");
    let mut second = first.clone();

    for _ in 0..6 {
        let first_placement = first.reachable_placements()[0].state;
        let second_placement = second.reachable_placements()[0].state;
        assert_eq!(first_placement, second_placement);
        first.lock_placement(first_placement).expect("first lock");
        second.lock_placement(second_placement).expect("second lock");
        assert_eq!(first, second);
    }
}

#[test]
fn reachable_preview_matches_mutating_deferred_lock() {
    let game = GameState::new(77, GameConfig::default()).unwrap();
    for placement in game.reachable_placements() {
        let preview = game.preview_reachable_placement(&placement).unwrap();
        let mut applied = game.clone();
        let locked = applied.lock_placement_deferred(placement.state, placement.last_action).unwrap();
        assert_eq!(preview.locked, locked);
        assert_eq!(preview.board, *applied.board());
    }
}

#[test]
fn wrong_piece_is_rejected() {
    let mut game = GameState::new(3, GameConfig::default()).expect("valid game");
    let mut placement = game.reachable_placements()[0].state;
    placement.kind = PieceKind::O;
    if placement.kind == game.active().kind {
        placement.kind = PieceKind::I;
    }
    assert!(matches!(game.lock_placement(placement), Err(GameError::WrongPiece { .. })));
}

#[test]
fn colliding_initial_spawn_reports_block_out_reason() {
    let mut rows = [0; HEIGHT];
    rows[18..23].fill((1_u16 << 10) - 1);
    let board = Board::from_rows(rows).expect("valid blocked spawn rows");
    let game = GameState::with_board(5, GameConfig::default(), board).expect("valid game");

    assert!(game.is_top_out());
    assert_eq!(game.top_out_reason(), Some(TopOutReason::BlockOut));
}

/// A floor placement of `kind` that becomes a single clear when row 0 holds
/// every other cell, together with that row.
fn single_clear_floor(kind: PieceKind, spawn: PieceState) -> (PieceState, u16) {
    let board = Board::empty();
    let placements = engine_core::reachable_locks(&board, PieceState { kind, ..spawn });
    for placement in placements {
        let cells = placement.state.cells();
        let mut mask = 0_u16;
        for (x, y) in cells {
            if y == 0 {
                mask |= 1 << x;
            }
        }
        if mask != 0 && cells.iter().all(|&(_, y)| y <= 1) {
            return (placement.state, FULL_ROW & !mask);
        }
    }
    panic!("no floor placement");
}

/// A cell of `piece` that the same piece one row higher does not cover.
fn rescue_cells(piece: PieceState) -> Vec<(i16, i16)> {
    let shifted = piece.translated(0, 1).cells();
    piece.cells().into_iter().filter(|cell| !shifted.contains(cell)).collect()
}

/// A game whose first lock clears one row and whose next queue spawn collides
/// only with a cell that one row of clutch lift clears, if `seed` allows one.
fn queue_clutch_scenario(seed: u64) -> Option<(GameState, PieceState, PieceState)> {
    let config = GameConfig::default();
    let start = GameState::new(seed, config).expect("valid game");
    let active = start.active();
    let next_spawn = config.spawn.piece(start.preview()[0]);
    let (placement, floor_row) = single_clear_floor(active.kind, active);
    let active_cells = active.cells();
    let blocker = rescue_cells(next_spawn).into_iter().find(|&(x, y)| !active_cells.contains(&(x, y + 1)))?;

    let mut rows = [0_u16; HEIGHT];
    rows[0] = floor_row;
    rows[blocker.1 as usize + 1] |= 1 << blocker.0;
    let board = Board::from_rows(rows).expect("valid blocker");
    let game = GameState::with_board(seed, config, board).expect("valid game");
    Some((game, placement, next_spawn))
}

#[test]
fn post_clear_clutch_raises_a_colliding_queue_spawn() {
    let (mut game, placement, next_spawn) =
        (101..400).find_map(queue_clutch_scenario).expect("one-row rescue cell");
    assert!(!game.is_top_out());
    let locked = game.lock_placement_deferred(placement, engine_core::LastAction::NoAction).expect("floor lock");
    assert_eq!(locked.cleared.count(), 1);

    let outcome = game.finish_lock().expect("finish lock");

    assert!(outcome.clutch);
    assert!(!outcome.top_out);
    assert_eq!(outcome.next_active.y, next_spawn.y + 1);
}

/// A game that holds its opener, clears one row with the next piece, and whose
/// held piece then collides at spawn only where one row of clutch lift helps.
fn hold_clutch_scenario(seed: u64) -> Option<(GameState, PieceState, PieceKind)> {
    let config = GameConfig::default();
    let start = GameState::new(seed, config).expect("valid game");
    let held_kind = start.active().kind;
    let dropped = config.spawn.piece(start.preview()[0]);
    let next_spawn = config.spawn.piece(start.preview()[1]);
    let held = config.spawn.piece(held_kind);
    let (placement, floor_row) = single_clear_floor(dropped.kind, dropped);
    let next_cells = next_spawn.cells();
    let held_cells = held.cells();
    let dropped_cells = dropped.cells();
    let blocker = rescue_cells(held).into_iter().find(|&(x, y)| {
        !next_cells.contains(&(x, y)) && !held_cells.contains(&(x, y + 1)) && !dropped_cells.contains(&(x, y + 1))
    })?;

    let mut rows = [0_u16; HEIGHT];
    rows[0] = floor_row;
    rows[blocker.1 as usize + 1] |= 1 << blocker.0;
    let board = Board::from_rows(rows).expect("valid blocker");
    let game = GameState::with_board(seed, config, board).expect("valid game");
    Some((game, placement, held_kind))
}

#[test]
fn post_clear_clutch_also_rescues_an_ihs_replacement() {
    let (mut game, placement, held_kind) =
        (103..400).find_map(hold_clutch_scenario).expect("held-only one-row rescue cell");
    game.hold_active().expect("hold the opener");
    assert_eq!(game.hold(), Some(held_kind));
    game.lock_placement_deferred(placement, engine_core::LastAction::NoAction).expect("floor lock");

    let placement = game.finish_lock().expect("normal spawn");
    assert!(!placement.clutch);
    let initial = game
        .apply_initial_actions_with_clutch(InitialActions::new(true, None), true)
        .expect("IHS with clutch");

    assert!(initial.hold_applied);
    assert!(initial.clutch);
    assert!(!initial.top_out);
    assert_eq!(initial.active.kind, held_kind);
}

#[test]
fn game_errors_follow_the_transition_order() {
    let mut game = GameState::new(7, GameConfig::default()).expect("valid game");
    assert_eq!(game.finish_lock(), Err(GameError::NoPendingLock));
    assert_eq!(game.push_garbage_before_spawn(3), Err(GameError::NoPendingLock));
    let placement = game.reachable_placements()[0].clone();
    game.lock_placement_deferred(placement.state, placement.last_action).expect("lock");
    assert_eq!(game.hold_active(), Err(GameError::AwaitingSpawn));
    assert!(game.reachable_placements().is_empty());
    assert_eq!(
        game.push_garbage_before_spawn(WIDTH),
        Err(GameError::Board(engine_core::BoardError::GarbageHoleOutOfBounds(WIDTH)))
    );
    let pushed = game.push_garbage_before_spawn(2).expect("garbage row");
    assert!(!pushed.overflowed_buffer);
    assert_eq!(game.board().row(0), Some(FULL_ROW & !(1 << 2)));
    let outcome = game.finish_lock().expect("spawn");
    assert_eq!(outcome.pieces_placed, 1);
    assert_eq!(game.pending_lock(), None);
}

#[test]
fn invalid_bag_order_is_reported() {
    let mut config = GameConfig::default();
    config.bag_order = [PieceKind::T; 7];
    assert_eq!(
        GameState::new(1, config),
        Err(GameError::BagOrder(engine_core::BagOrderError::Duplicate(PieceKind::T)))
    );
}
