use engine_core::{
    FrameInput, HEIGHT, HandlingRules, HandlingState, InputButton, InputEdge, SoftDropMode, WIDTH,
    initial_actions_on_spawn, normalize_frame, on_piece_spawn, RotationDirection,
};

fn rules(das: u16, arr: u16, dcd: u16) -> HandlingRules {
    HandlingRules::new(das, arr, dcd, SoftDropMode::Disabled)
}

#[test]
fn ordered_same_frame_presses_are_preserved() {
    let mut state = HandlingState::new();
    let result = normalize_frame(
        &mut state,
        rules(10, 2, 0),
        &[InputEdge::press(InputButton::Left), InputEdge::press(InputButton::Right)],
    );

    assert_eq!(result.actions, vec![FrameInput::MoveLeft, FrameInput::MoveRight]);
}

#[test]
fn das_then_arr_emit_at_declared_boundaries() {
    let mut state = HandlingState::new();
    let timing = rules(3, 2, 0);

    assert_eq!(
        normalize_frame(&mut state, timing, &[InputEdge::press(InputButton::Left)]).actions,
        vec![FrameInput::MoveLeft]
    );
    assert!(normalize_frame(&mut state, timing, &[]).actions.is_empty());
    assert_eq!(normalize_frame(&mut state, timing, &[]).actions, vec![FrameInput::MoveLeft]);
    assert!(normalize_frame(&mut state, timing, &[]).actions.is_empty());
    assert_eq!(normalize_frame(&mut state, timing, &[]).actions, vec![FrameInput::MoveLeft]);
}

#[test]
fn zero_arr_expands_to_a_wall_reaching_action_bound() {
    let mut state = HandlingState::new();
    let result = normalize_frame(&mut state, rules(0, 0, 0), &[InputEdge::press(InputButton::Right)]);

    assert_eq!(result.actions.len(), WIDTH + 1);
    assert!(result.actions.iter().all(|action| *action == FrameInput::MoveRight));
}

#[test]
fn rotation_and_spawn_pause_das_without_erasing_charge() {
    let mut state = HandlingState::new();
    let timing = rules(3, 1, 2);

    normalize_frame(&mut state, timing, &[InputEdge::press(InputButton::Left)]);
    assert_eq!(state.das_elapsed(), 1);

    let rotation = normalize_frame(&mut state, timing, &[InputEdge::press(InputButton::RotateClockwise)]);
    assert_eq!(rotation.actions, vec![FrameInput::RotateClockwise]);
    assert_eq!(state.das_elapsed(), 1);
    assert_eq!(state.dcd_remaining(), 1);

    on_piece_spawn(&mut state, timing);
    normalize_frame(&mut state, timing, &[]);
    normalize_frame(&mut state, timing, &[]);
    assert_eq!(state.das_elapsed(), 1);
    assert!(normalize_frame(&mut state, timing, &[]).actions.is_empty());
    assert_eq!(normalize_frame(&mut state, timing, &[]).actions, vec![FrameInput::MoveLeft]);
}

#[test]
fn sonic_drop_expands_to_board_height_without_locking() {
    let mut state = HandlingState::new();
    let timing = HandlingRules::new(10, 2, 0, SoftDropMode::Sonic);
    let result = normalize_frame(&mut state, timing, &[InputEdge::press(InputButton::SoftDrop)]);

    assert_eq!(result.actions.len(), HEIGHT);
    assert!(result.actions.iter().all(|action| *action == FrameInput::SoftDropCell));
}

#[test]
fn idle_frame_without_held_keys_emits_nothing() {
    let mut state = HandlingState::new();
    let result = normalize_frame(&mut state, rules(10, 2, 0), &[]);
    assert!(result.actions.is_empty());
    assert!(!result.hold_requested);
    assert_eq!(state, HandlingState::new());
}

#[test]
fn held_hold_and_rotation_become_initial_actions() {
    let mut state = HandlingState::new();
    let timing = rules(10, 2, 0);
    let frame = normalize_frame(
        &mut state,
        timing,
        &[InputEdge::press(InputButton::Hold), InputEdge::press(InputButton::RotateCounterclockwise)],
    );
    assert!(frame.hold_requested);
    let initial = initial_actions_on_spawn(&mut state, timing);
    assert!(initial.hold_requested);
    assert_eq!(initial.rotation, Some(RotationDirection::Counterclockwise));
}
