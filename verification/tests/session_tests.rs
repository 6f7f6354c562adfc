use engine_core::{
    FrameSession, GameConfig, GameError, Gravity, HandlingRules, InputButton, InputEdge, SessionStepError, SoftDropMode,
    TimingRules,
};

fn timing_rules() -> TimingRules {
    TimingRules::new(Gravity::new(0, 1).unwrap(), 30, 15, true, true)
}

fn handling_rules() -> HandlingRules {
    HandlingRules::new(10, 2, 0, SoftDropMode::Disabled)
}

#[test]
fn hard_drop_locks_and_spawns_the_next_piece_in_one_session_step() {
    let mut session = FrameSession::new(71, GameConfig::default()).expect("valid session");
    let first = session.game().active().kind;
    let outcome = session
        .step(timing_rules(), handling_rules(), &[InputEdge::press(InputButton::HardDrop)])
        .expect("hard drop step");

    assert!(outcome.timing.expect("timing outcome").locked);
    assert!(outcome.placement.is_some());
    assert_eq!(session.game().pieces_placed(), 1);
    assert_ne!(session.game().active().kind, first);
    assert_eq!(session.frame(), 1);
    assert!(!session.is_terminal());
}

#[test]
fn immediate_hold_replaces_the_piece_before_timing_actions() {
    let mut session = FrameSession::new(73, GameConfig::default()).expect("valid session");
    let outgoing = session.game().active().kind;
    let incoming = session.game().preview()[0];
    let outcome =
        session.step(timing_rules(), handling_rules(), &[InputEdge::press(InputButton::Hold)]).expect("hold step");

    assert!(outcome.hold_applied);
    assert!(outcome.placement.is_none());
    assert_eq!(session.game().hold(), Some(outgoing));
    assert_eq!(session.timing().expect("active timing").piece.kind, incoming);
    assert_eq!(session.game().pieces_placed(), 0);
}

#[test]
fn identical_multi_piece_sessions_are_deterministic() {
    let mut first = FrameSession::new(79, GameConfig::default()).expect("valid session");
    let mut second = first.clone();
    let hard_drop = [InputEdge::press(InputButton::HardDrop)];

    for _ in 0..4 {
        let first_outcome = first.step(timing_rules(), handling_rules(), &hard_drop).expect("first session step");
        let second_outcome = second.step(timing_rules(), handling_rules(), &hard_drop).expect("second session step");
        assert_eq!(first_outcome, second_outcome);
        assert_eq!(first, second);
    }
    assert_eq!(first.game().pieces_placed(), 4);
}

#[test]
fn idle_frame_only_advances_the_frame_counter() {
    let mut session = FrameSession::new(83, GameConfig::default()).expect("valid session");
    let active = session.game().active();
    let outcome = session.step(timing_rules(), handling_rules(), &[]).expect("idle step");
    assert_eq!(outcome.frame, 0);
    assert!(outcome.normalized.actions.is_empty());
    assert!(outcome.placement.is_none());
    assert_eq!(session.frame(), 1);
    assert_eq!(session.timing().expect("timing").piece, active);
}

#[test]
fn topped_out_session_refuses_to_step() {
    let mut rows = [0_u16; engine_core::HEIGHT];
    rows[19] = 0x3ff;
    rows[20] = 0x3ff;
    let board = engine_core::Board::from_rows(rows).expect("valid rows");
    let mut session = FrameSession::with_board(5, GameConfig::default(), board).expect("valid session");
    assert!(session.is_terminal());
    assert_eq!(
        session.step(timing_rules(), handling_rules(), &[]),
        Err(SessionStepError::Game(GameError::GameOver))
    );
}

#[test]
fn a_lock_can_wait_for_garbage_before_the_next_spawn() {
    let mut session = FrameSession::new(71, GameConfig::default()).expect("valid session");
    let mut plain = session.clone();
    let first = session.game().active().kind;
    let outcome = session
        .step_until_lock(timing_rules(), handling_rules(), &[InputEdge::press(InputButton::HardDrop)])
        .expect("hard drop frame");
    let locked = outcome.locked.expect("the piece locked");
    assert_eq!(locked.pieces_placed, 1);
    assert!(session.is_terminal());
    assert_eq!(session.frame(), 1);
    assert_eq!(session.game().active().kind, first);

    let pushed = session.push_garbage_before_spawn(4).expect("garbage below the lock");
    assert!(!pushed.overflowed_buffer);
    assert_eq!(session.game().board().garbage_rows()[0].count_ones(), 9);

    let spawn = session.finish_pending_spawn(handling_rules()).expect("spawn");
    assert_eq!(spawn.placement.pieces_placed, 1);
    assert!(!session.is_terminal());

    let direct =
        plain.step(timing_rules(), handling_rules(), &[InputEdge::press(InputButton::HardDrop)]).expect("hard drop step");
    assert_eq!(direct.placement.expect("placement").next_active.kind, session.game().active().kind);
}
