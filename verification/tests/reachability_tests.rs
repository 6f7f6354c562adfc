use engine_core::{
    Board, GeometricPlacement, HEIGHT, LastAction, Movement, Orientation, PieceKind, PieceState, SpawnRules, hard_drop,
    reachable_locks, try_movement, try_movement_with_action,
};
use std::collections::{BTreeMap, BTreeSet, VecDeque};

#[test]
fn hard_drop_reaches_floor() {
    let board = Board::empty();
    let spawn = SpawnRules::modern_observed().piece(PieceKind::T);
    let dropped = hard_drop(&board, spawn).expect("spawn is valid");
    assert_eq!(dropped.y, -1);
    assert!(try_movement(&board, dropped, Movement::Down).is_none());
}

#[test]
fn empty_board_has_all_t_placements() {
    let board = Board::empty();
    let spawn = PieceState::new(PieceKind::T, Orientation::Spawn, 3, 18);
    let placements = reachable_locks(&board, spawn);
    let states = placements.iter().map(|p| p.state).collect::<BTreeSet<_>>();

    assert_eq!(placements.len(), states.len());
    assert_eq!(placements.len(), 34);
    assert!(placements.iter().all(|p| try_movement(&board, p.state, Movement::Down).is_none()));
}

#[test]
fn every_recorded_path_replays() {
    let board = Board::empty();
    let spawn = PieceState::new(PieceKind::L, Orientation::Spawn, 3, 18);
    for placement in reachable_locks(&board, spawn) {
        let replayed =
            placement.path.iter().try_fold(spawn, |piece, movement| try_movement(&board, piece, *movement));
        assert_eq!(replayed, Some(placement.state));
    }
}

#[test]
fn grounded_rotation_destinations_retain_rotation_provenance() {
    let board = Board::empty();
    let spawn = PieceState::new(PieceKind::T, Orientation::Spawn, 3, 18);
    let placements = reachable_locks(&board, spawn);

    assert!(placements.iter().any(|placement| matches!(placement.last_action, LastAction::Rotation { .. })));
}

#[test]
fn compact_search_matches_the_previous_path_enumerator() {
    let mut state = 0x9e37_79b9_u32;
    for case in 0..16 {
        let mut rows = [0_u16; HEIGHT];
        for row in rows.iter_mut().take(8) {
            state = state.wrapping_mul(1_664_525).wrapping_add(1_013_904_223);
            *row = ((state >> 16) as u16) & 0x03ff;
            if *row == 0x03ff {
                *row ^= 1_u16 << (case % 10);
            }
        }
        let board = Board::from_rows(rows).unwrap();
        for kind in PieceKind::ALL {
            let spawn = SpawnRules::modern_observed().piece(kind);
            assert_eq!(reachable_locks(&board, spawn), legacy_reachable_locks(&board, spawn));
        }
    }
}

fn legacy_reachable_locks(board: &Board, spawn: PieceState) -> Vec<GeometricPlacement> {
    if board.collides(spawn) {
        return Vec::new();
    }
    let mut frontier = VecDeque::from([(spawn, Vec::new())]);
    let mut visited = BTreeSet::from([spawn]);
    let mut placements = BTreeMap::<PieceState, (Vec<Movement>, LastAction)>::new();
    let mut rotation_finishes = BTreeMap::<PieceState, (Vec<Movement>, LastAction)>::new();
    while let Some((piece, path)) = frontier.pop_front() {
        if try_movement(board, piece, Movement::Down).is_none() {
            placements.entry(piece).or_insert_with(|| (path.clone(), legacy_last_action(&path)));
        }
        for movement in Movement::ALL {
            let Some((next, last_action)) = try_movement_with_action(board, piece, movement) else {
                continue;
            };
            let mut next_path = path.clone();
            next_path.push(movement);
            if matches!(last_action, LastAction::Rotation { .. }) && try_movement(board, next, Movement::Down).is_none()
            {
                rotation_finishes.entry(next).or_insert_with(|| (next_path.clone(), last_action));
            }
            if visited.insert(next) {
                frontier.push_back((next, next_path));
            }
        }
    }
    for (piece, rotation_path) in rotation_finishes {
        if placements.contains_key(&piece) {
            placements.insert(piece, rotation_path);
        }
    }
    placements
        .into_iter()
        .map(|(piece, (path, last_action))| GeometricPlacement { state: piece, path, last_action })
        .collect()
}

fn legacy_last_action(path: &[Movement]) -> LastAction {
    match path.last() {
        None => LastAction::NoAction,
        Some(Movement::Down | Movement::Left | Movement::Right) => LastAction::Translation,
        Some(Movement::RotateClockwise | Movement::RotateCounterclockwise | Movement::RotateHalf) => LastAction::NoAction,
    }
}

#[test]
fn colliding_spawn_has_no_placements() {
    let mut rows = [0_u16; HEIGHT];
    rows[19] = 0x3ff;
    let board = Board::from_rows(rows).unwrap();
    let spawn = PieceState::new(PieceKind::T, Orientation::Spawn, 3, 18);
    assert!(board.collides(spawn));
    assert!(reachable_locks(&board, spawn).is_empty());
}
