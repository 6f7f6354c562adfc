use engine_core::{
    Board, FALL_MICROS_PER_CELL, FrameInput, Gravity, LastAction, LinearGravityTiming, Orientation, PieceKind,
    PieceState, RotationDirection, TETRIO_KICK_FALL_FRACTION_MICROS, TimingConfigError, TimingRules, TimingSchedule,
    TimingState, TimingStepError, step_frame,
};

fn rules(numerator: u32, denominator: u32, lock_delay_frames: u16, max_lock_resets: u16) -> TimingRules {
    TimingRules::new(
        Gravity::new(numerator, denominator).expect("test gravity is valid"),
        lock_delay_frames,
        max_lock_resets,
        true,
        true,
    )
}

fn grounded_o() -> PieceState {
    PieceState::new(PieceKind::O, Orientation::Spawn, 3, -1)
}

#[test]
fn fixed_point_gravity_accumulates_without_floats() {
    let board = Board::empty();
    let mut state =
        TimingState::new(&board, PieceState::new(PieceKind::T, Orientation::Spawn, 3, 18)).expect("spawn is valid");

    let first = step_frame(&board, &mut state, rules(1, 2, 30, 0), &[]).expect("first frame advances");
    let second = step_frame(&board, &mut state, rules(1, 2, 30, 0), &[]).expect("second frame advances");

    assert_eq!(first.piece.y, 18);
    assert_eq!(first.gravity_rows, 0);
    assert_eq!(second.piece.y, 17);
    assert_eq!(second.gravity_rows, 1);
}

#[test]
fn observed_spawn_phase_crosses_after_two_point_zero_two_g_frames() {
    let board = Board::empty();
    let spawn = PieceState::new(PieceKind::T, Orientation::Spawn, 3, 18);
    let mut state =
        TimingState::new_with_fall_fraction(&board, spawn, 960_000).expect("observed spawn phase is valid");
    let timing = rules(1, 50, 30, 15);

    let first = step_frame(&board, &mut state, timing, &[]).unwrap();
    let second = step_frame(&board, &mut state, timing, &[]).unwrap();

    assert_eq!(first.piece.y, 18);
    assert_eq!(first.gravity_rows, 0);
    assert_eq!(state.fall_fraction_micros, 1);
    assert_eq!(second.piece.y, 17);
    assert_eq!(second.gravity_rows, 1);
}

#[test]
fn fallback_kick_quantizes_fall_phase_to_point_one() {
    let board = Board::empty();
    let piece = PieceState::new(PieceKind::T, Orientation::Right, -1, 4);
    let mut state = TimingState::new_with_fall_fraction(&board, piece, 777_777).unwrap();

    let rotated =
        step_frame(&board, &mut state, rules(0, 1, 30, 15), &[FrameInput::RotateCounterclockwise]).unwrap();

    assert_eq!(rotated.piece.x, 0);
    assert_eq!(state.fall_fraction_micros, TETRIO_KICK_FALL_FRACTION_MICROS);
    assert_eq!(
        rotated.last_action,
        LastAction::Rotation { direction: RotationDirection::Counterclockwise, kick_index: 0 }
    );
}

#[test]
fn linear_schedule_keeps_one_denominator_and_caps_exactly() {
    let base = rules(1, 50, 30, 15);
    let schedule = TimingSchedule::linear_gravity(
        LinearGravityTiming::new(base, Gravity::new(7, 2_000).unwrap(), 7_200, 60, Gravity::new(20, 1).unwrap())
            .unwrap(),
    );

    let margin = schedule.rules_at_frame(7_200).unwrap().gravity;
    let after_update_frame = schedule.rules_at_frame(7_201).unwrap().gravity;
    let next = schedule.rules_at_frame(7_202).unwrap().gravity;
    let capped = schedule.rules_at_frame(1_000_000).unwrap().gravity;
    assert_eq!(margin, after_update_frame);
    assert_eq!(margin.denominator(), next.denominator());
    assert_eq!(margin, Gravity::new(2_400, 120_000).unwrap());
    assert_eq!(next, Gravity::new(2_407, 120_000).unwrap());
    assert_eq!(capped, Gravity::new(2_400_000, 120_000).unwrap());
}

#[test]
fn rational_schedule_matches_client_float_after_micro_quantization() {
    let schedule = LinearGravityTiming::new(
        rules(1, 50, 30, 15),
        Gravity::new(7, 2_000).unwrap(),
        7_200,
        60,
        Gravity::new(20, 1).unwrap(),
    )
    .unwrap();
    let mut client_g = 0.02_f64;

    for frame in 0..=350_000_u64 {
        let gravity = schedule.rules_at_frame(frame).unwrap().gravity;
        let engine_micros = (u64::from(gravity.numerator()) * u64::from(FALL_MICROS_PER_CELL)
            + u64::from(gravity.denominator()) / 2)
            / u64::from(gravity.denominator());
        let client_micros = (client_g.min(20.0) * f64::from(FALL_MICROS_PER_CELL)).round();
        assert_eq!(engine_micros as f64, client_micros, "frame {frame}");

        if frame > 7_200 {
            client_g += 0.0035_f64 / 60.0;
        }
    }
}

#[test]
fn twenty_g_reaches_the_floor_in_one_frame() {
    let board = Board::empty();
    let mut state =
        TimingState::new(&board, PieceState::new(PieceKind::T, Orientation::Spawn, 3, 18)).expect("spawn is valid");

    let result = step_frame(&board, &mut state, rules(20, 1, 30, 15), &[]).expect("frame advances");

    assert_eq!(result.piece.y, -1);
    assert_eq!(result.gravity_rows, 19);
    assert!(result.grounded);
    assert!(!result.locked);
}

#[test]
fn grounded_piece_locks_on_the_configured_frame() {
    let board = Board::empty();
    let mut state = TimingState::new(&board, grounded_o()).expect("piece is valid");
    let timing = rules(1, 50, 3, 15);

    assert!(!step_frame(&board, &mut state, timing, &[]).unwrap().locked);
    assert!(!step_frame(&board, &mut state, timing, &[]).unwrap().locked);
    assert!(!step_frame(&board, &mut state, timing, &[]).unwrap().locked);
    let fourth = step_frame(&board, &mut state, timing, &[]).unwrap();

    assert!(fourth.locked);
    assert_eq!(fourth.lock_elapsed_frames, 4);
}

#[test]
fn grounded_lateral_move_resets_lock_once() {
    let board = Board::empty();
    let mut state = TimingState::new(&board, grounded_o()).expect("piece is valid");
    let timing = rules(1, 50, 3, 2);

    step_frame(&board, &mut state, timing, &[]).unwrap();
    let moved = step_frame(&board, &mut state, timing, &[FrameInput::MoveLeft]).unwrap();
    assert_eq!(moved.lock_elapsed_frames, 1);
    assert_eq!(moved.lock_resets_used, 1);

    let capped = step_frame(&board, &mut state, timing, &[FrameInput::MoveRight]).unwrap();
    assert_eq!(capped.lock_elapsed_frames, 2);
    assert_eq!(capped.lock_resets_used, 2);
    assert!(capped.locked);
}

#[test]
fn hard_drop_locks_immediately() {
    let board = Board::empty();
    let mut state =
        TimingState::new(&board, PieceState::new(PieceKind::T, Orientation::Spawn, 3, 18)).expect("spawn is valid");

    let result = step_frame(&board, &mut state, rules(0, 1, 30, 15), &[FrameInput::HardDrop]).expect("hard drop succeeds");

    assert!(result.locked);
    assert!(result.grounded);
    assert_eq!(result.piece.y, -1);
    assert_eq!(result.last_action, LastAction::HardDrop);
}

#[test]
fn identical_ordered_inputs_reproduce_state() {
    let board = Board::empty();
    let spawn = PieceState::new(PieceKind::L, Orientation::Spawn, 3, 18);
    let timing = rules(1, 2, 30, 15);
    let frames = [
        vec![FrameInput::MoveLeft, FrameInput::RotateClockwise],
        vec![FrameInput::MoveRight],
        vec![FrameInput::SoftDropCell, FrameInput::RotateHalf],
        vec![],
    ];
    let mut left = TimingState::new(&board, spawn).unwrap();
    let mut right = TimingState::new(&board, spawn).unwrap();

    for inputs in frames {
        let a = step_frame(&board, &mut left, timing, &inputs).unwrap();
        let b = step_frame(&board, &mut right, timing, &inputs).unwrap();
        assert_eq!(a, b);
    }
}

#[test]
fn successful_rotation_preserves_direction_and_kick_until_next_player_move() {
    let board = Board::empty();
    let mut state =
        TimingState::new(&board, PieceState::new(PieceKind::T, Orientation::Spawn, 3, 18)).expect("spawn is valid");
    let timing = rules(0, 1, 30, 15);

    let rotated = step_frame(&board, &mut state, timing, &[FrameInput::RotateClockwise]).expect("rotation succeeds");
    assert_eq!(rotated.last_action, LastAction::Rotation { direction: RotationDirection::Clockwise, kick_index: 0 });

    let moved = step_frame(&board, &mut state, timing, &[FrameInput::MoveLeft]).expect("translation succeeds");
    assert_eq!(moved.last_action, LastAction::Translation);
}

#[test]
fn zero_distance_hard_drop_preserves_rotation_metadata() {
    let board = Board::empty();
    let rotation = LastAction::Rotation { direction: RotationDirection::Counterclockwise, kick_index: 2 };
    let mut state = TimingState::with_last_action(&board, grounded_o(), rotation).expect("grounded piece is valid");

    let outcome =
        step_frame(&board, &mut state, rules(0, 1, 30, 15), &[FrameInput::HardDrop]).expect("zero-distance hard drop locks");

    assert!(outcome.locked);
    assert_eq!(outcome.last_action, rotation);
}

#[test]
fn zero_gravity_denominator_is_rejected() {
    assert_eq!(Gravity::new(1, 0), Err(TimingConfigError::ZeroGravityDenominator));
}

#[test]
fn colliding_or_locked_states_are_rejected() {
    let board = Board::empty();
    let below_floor = PieceState::new(PieceKind::O, Orientation::Spawn, 3, -2);
    assert_eq!(TimingState::new(&board, below_floor), Err(TimingStepError::CollidingPiece));
    assert_eq!(
        TimingState::new_with_fall_fraction(&board, grounded_o(), FALL_MICROS_PER_CELL),
        Err(TimingStepError::InvalidFallFraction)
    );
    let mut state = TimingState::new(&board, grounded_o()).unwrap();
    step_frame(&board, &mut state, rules(0, 1, 30, 15), &[FrameInput::HardDrop]).unwrap();
    assert_eq!(step_frame(&board, &mut state, rules(0, 1, 30, 15), &[]), Err(TimingStepError::AlreadyLocked));
}
