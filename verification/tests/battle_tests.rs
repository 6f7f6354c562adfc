use engine_core::{
    AttackMultiplier, AttackPacketKind, AttackPackets, AttackRules, BattleError, BattleFrameOutcome, BattlePlacementOutcome, BattleResult,
    BattleRules, BattleSession, Board, ComboRule, GameConfig, GameState, GarbageMessinessRules,
    GarbageMultiplierSchedule, GarbageRules, Gravity, HandlingRules, IncomingGarbagePacket, LastAction, PieceKind,
    PlacementAction, PlayerId, ScaledAttack, SoftDropMode, TimingRules, TimingSchedule, WIDTH,
    cross_cancel_simultaneous, hard_drop,
};

fn rules() -> BattleRules {
    BattleRules {
        game: GameConfig::default(),
        timing: TimingSchedule::fixed(TimingRules::new(Gravity::new(0, 1).unwrap(), 30, 15, true, true)),
        handling: [HandlingRules::new(10, 2, 0, SoftDropMode::Disabled); 2],
        attack: AttackRules {
            normal_clear: [0, 0, 1, 2, 4],
            mini_spin: [0, 0, 1, 2, 4],
            full_spin: [0, 2, 4, 6, 10],
            combo: ComboRule::NoCombo,
            back_to_back_bonus: 1,
            back_to_back_charging: false,
            back_to_back_charge_at: 4,
            back_to_back_charge_base: 0,
            perfect_clear_attack: 10,
            perfect_clear_back_to_back: 0,
            perfect_clear_back_to_back_sends: false,
            perfect_clear_back_to_back_dupes: false,
            perfect_clear_charges: false,
            garbage_clear_special_bonus: 0,
        },
        garbage: GarbageRules {
            travel_frames: 0,
            garbage_cap: 8,
            opener_phase_pieces: 0,
            combo_blocking: true,
            messiness: GarbageMessinessRules::tetra_league_observed(),
            multiplier: GarbageMultiplierSchedule::tetra_league_observed(),
        },
    }
}

fn new_battle(seed: u64) -> BattleSession {
    BattleSession::new(seed, rules(), AttackMultiplier::one()).expect("valid battle")
}

/// Both halves of a placement step at multiplier one, where scaling leaves
/// every amount unchanged and the rules have no combo table.
fn step_placements(
    battle: &mut BattleSession,
    actions: [PlacementAction; 2],
    frames_per_placement: u32,
) -> Result<BattlePlacementOutcome, BattleError> {
    assert_eq!(battle.garbage_multiplier(), AttackMultiplier::one());
    let pending = battle.begin_placements(actions, frames_per_placement)?;
    let attack = battle.rules().attack;
    let scale = |player: engine_core::PendingPlayer| ScaledAttack {
        surge_attack: player.terms.raw_surge_attack,
        combo_attack: player.terms.attack_before_combo,
        perfect_clear_attack: if player.locked.clear.perfect_clear { u32::from(attack.perfect_clear_attack) } else { 0 },
    };
    battle.finish_placements([scale(pending.player_one), scale(pending.player_two)], AttackMultiplier::one())
}

/// Both halves of one shared frame at multiplier one.
fn step_frame(battle: &mut BattleSession, actions: [Option<PlacementAction>; 2]) -> Result<BattleFrameOutcome, BattleError> {
    assert_eq!(battle.garbage_multiplier(), AttackMultiplier::one());
    let pending = battle.begin_frame(actions)?;
    let attack = battle.rules().attack;
    let scale = |player: Option<engine_core::PendingPlayer>| match player {
        Some(player) => ScaledAttack {
            surge_attack: player.terms.raw_surge_attack,
            combo_attack: player.terms.attack_before_combo,
            perfect_clear_attack: if player.locked.clear.perfect_clear {
                u32::from(attack.perfect_clear_attack)
            } else {
                0
            },
        },
        None => ScaledAttack { surge_attack: 0, combo_attack: 0, perfect_clear_attack: 0 },
    };
    battle.finish_frame([scale(pending.player_one), scale(pending.player_two)], AttackMultiplier::one())
}

fn hard_drop_frame(battle: &BattleSession) -> [Option<PlacementAction>; 2] {
    [Some(hard_drop_action(battle, PlayerId::One)), Some(hard_drop_action(battle, PlayerId::Two))]
}

fn first_placement(battle: &BattleSession, player: PlayerId) -> PlacementAction {
    let placement =
        battle.player(player).game().reachable_placements().into_iter().next().expect("reachable placement");
    PlacementAction { used_hold: false, placement: placement.state, last_action: placement.last_action }
}

/// The active piece dropped straight down from where it spawned.
fn hard_drop_action(battle: &BattleSession, player: PlayerId) -> PlacementAction {
    let game = battle.player(player).game();
    let landed = hard_drop(game.board(), game.active()).expect("active piece fits");
    PlacementAction { used_hold: false, placement: landed, last_action: LastAction::NoAction }
}

fn hard_drop_both(battle: &BattleSession) -> [PlacementAction; 2] {
    [hard_drop_action(battle, PlayerId::One), hard_drop_action(battle, PlayerId::Two)]
}

#[test]
fn placement_adapter_advances_both_players_by_shared_cadence() {
    let mut battle = new_battle(73);
    let actions = [first_placement(&battle, PlayerId::One), first_placement(&battle, PlayerId::Two)];

    let outcome = step_placements(&mut battle, actions, 12).expect("placement step");

    assert_eq!(outcome.frame, 0);
    assert_eq!(outcome.frames_per_placement, 12);
    assert_eq!(battle.frame(), 12);
    assert_eq!(battle.player(PlayerId::One).game().pieces_placed(), 1);
    assert_eq!(battle.player(PlayerId::Two).game().pieces_placed(), 1);
}

#[test]
fn zero_placement_cadence_is_rejected_transactionally() {
    let mut battle = new_battle(79);
    let before = battle.clone();
    let actions = [first_placement(&battle, PlayerId::One), first_placement(&battle, PlayerId::Two)];

    assert_eq!(step_placements(&mut battle, actions, 0), Err(BattleError::ZeroPlacementCadence));
    assert_eq!(battle, before);
}

#[test]
fn simultaneous_zero_passthrough_is_symmetric_and_preserves_packet_order() {
    let mut one = AttackPackets::empty();
    one.push(AttackPacketKind::Surge, 2).unwrap();
    one.push(AttackPacketKind::Clear, 4).unwrap();
    let mut two = AttackPackets::empty();
    two.push(AttackPacketKind::Clear, 3).unwrap();

    let (one, two) = cross_cancel_simultaneous(one, two).expect("valid cancellation");
    assert_eq!(one.as_slice().len(), 1);
    assert_eq!(one.as_slice()[0].kind, AttackPacketKind::Clear);
    assert_eq!(one.as_slice()[0].lines, 3);
    assert!(two.is_empty());
}

#[test]
fn simultaneous_lock_attacks_cancel_inside_battle_transaction() {
    let (seed, probe) = (1_u64..=100)
        .find_map(|seed| {
            let game = GameState::new(seed, GameConfig::default()).ok()?;
            if game.active().kind == PieceKind::O { Some((seed, game)) } else { None }
        })
        .expect("an O opener seed");
    let active = probe.active();
    let full = (1_u16 << WIDTH) - 1;
    let gap = (1_u16 << (active.x + 1)) | (1_u16 << (active.x + 2));
    let mut rows = [0_u16; engine_core::HEIGHT];
    rows[0] = full & !gap;
    rows[1] = full & !gap;
    let board = Board::from_rows(rows).expect("valid double-clear board");
    let mut battle =
        BattleSession::with_boards(seed, rules(), [board, board], AttackMultiplier::one()).expect("valid mirrored battle");

    let actions = hard_drop_frame(&battle);
    let outcome = step_frame(&mut battle, actions).expect("lock frame");

    assert!(outcome.player_one.transmitted.is_empty());
    assert!(outcome.player_two.transmitted.is_empty());
    assert_eq!(battle.player(PlayerId::One).incoming().pending_lines(), 0);
    assert_eq!(battle.player(PlayerId::Two).incoming().pending_lines(), 0);
    assert_eq!(outcome.result, BattleResult::Ongoing);
}

#[test]
fn ready_garbage_is_inserted_only_at_a_lock_boundary() {
    let mut battle = new_battle(91);
    battle
        .enqueue_incoming(
            PlayerId::One,
            IncomingGarbagePacket::after_travel_generated(2, 0, false, rules().garbage).unwrap(),
        )
        .unwrap();

    let idle = step_frame(&mut battle, [None, None]).expect("idle frame");
    assert!(idle.player_one.insertion.is_none());
    assert_eq!(battle.player(PlayerId::One).incoming().ready_lines(1), 2);

    let actions = hard_drop_frame(&battle);
    let lock = step_frame(&mut battle, actions).expect("lock frame");
    assert_eq!(lock.player_one.insertion.unwrap().inserted, 2);
    assert_eq!(battle.player(PlayerId::One).incoming().pending_lines(), 0);
    assert_eq!(battle.player(PlayerId::One).game().board().garbage_rows()[0].count_ones(), 9);
}

fn blocked_board(seed: u64) -> Board {
    let config = GameConfig::default();
    let probe = GameState::new(seed, config).expect("valid probe game");
    let active_cells = probe.active().cells();
    let next_spawn = config.spawn.piece(probe.preview()[0]);
    let blocker = next_spawn
        .cells()
        .into_iter()
        .find(|cell| !active_cells.contains(cell))
        .expect("different consecutive spawn footprints");
    let mut board = Board::empty();
    board.set_cell(blocker.0 as usize, blocker.1 as usize, true).expect("valid blocker");
    board
}

#[test]
fn simultaneous_block_out_is_a_draw() {
    let seed = 97;
    let board = blocked_board(seed);
    let mut battle =
        BattleSession::with_boards(seed, rules(), [board, board], AttackMultiplier::one()).expect("valid battle");

    let actions = hard_drop_frame(&battle);
    let outcome = step_frame(&mut battle, actions).expect("lock frame");
    assert_eq!(outcome.result, BattleResult::Draw);
    assert!(battle.player(PlayerId::One).game().is_top_out());
    assert!(battle.player(PlayerId::Two).game().is_top_out());
}

#[test]
fn one_sided_block_out_awards_the_other_player() {
    let seed = 101;
    let blocked = blocked_board(seed);
    let mut battle = BattleSession::with_boards(seed, rules(), [blocked, Board::empty()], AttackMultiplier::one())
        .expect("valid battle");

    let actions = hard_drop_frame(&battle);
    let outcome = step_frame(&mut battle, actions).expect("lock frame");
    assert_eq!(outcome.result, BattleResult::PlayerTwoWin);
    assert!(battle.player(PlayerId::One).game().is_top_out());
    assert!(!battle.player(PlayerId::Two).game().is_top_out());
}

#[test]
fn a_finished_round_refuses_further_steps_and_a_second_half_needs_a_first() {
    let seed = 97;
    let board = blocked_board(seed);
    let mut battle =
        BattleSession::with_boards(seed, rules(), [board, board], AttackMultiplier::one()).expect("valid battle");
    let scaled = ScaledAttack { surge_attack: 0, combo_attack: 0, perfect_clear_attack: 0 };
    assert_eq!(battle.finish_placements([scaled, scaled], AttackMultiplier::one()), Err(BattleError::NoPendingPlacement));

    let actions = hard_drop_both(&battle);
    step_placements(&mut battle, actions, 1).expect("lock frame");
    let before = battle.clone();
    assert_eq!(battle.begin_placements(actions, 1), Err(BattleError::RoundOver(BattleResult::Draw)));
    assert_eq!(battle, before);
}

#[test]
fn a_pending_step_blocks_a_second_first_half() {
    let mut battle = new_battle(73);
    let actions = [first_placement(&battle, PlayerId::One), first_placement(&battle, PlayerId::Two)];
    let pending = battle.begin_placements(actions, 12).expect("first half");
    assert_eq!(pending.frame, 0);
    assert_eq!(battle.pending(), Some(pending));
    assert_eq!(battle.begin_placements(actions, 12), Err(BattleError::PlacementPending));
    let too_big = ScaledAttack { surge_attack: u32::MAX, combo_attack: 0, perfect_clear_attack: 0 };
    let zero = ScaledAttack { surge_attack: 0, combo_attack: 0, perfect_clear_attack: 0 };
    assert_eq!(
        battle.finish_placements([too_big, zero], AttackMultiplier::one()),
        Err(BattleError::Attack { player: PlayerId::One, source: engine_core::AttackError::CounterOverflow })
    );
    assert_eq!(battle.pending(), Some(pending));
}

#[test]
fn player_candidates_cover_both_sources_and_complete_with_the_scaled_attack() {
    let battle = new_battle(73);
    let own = battle.player(PlayerId::One).game();
    let active_count = own.reachable_placements().len();
    let mut held = own.clone();
    held.hold_active().expect("hold is available");
    let held_count = held.reachable_placements().len();

    let candidates = engine_core::enumerate_player_candidates(&battle, PlayerId::One).expect("candidates");
    assert_eq!(candidates.len(), active_count + held_count);
    assert!(candidates[..active_count].iter().all(|c| !c.action.used_hold && c.features[40] == 0));
    assert!(candidates[active_count..].iter().all(|c| c.action.used_hold && c.features[40] == 1));
    let active_kind = own.active().kind.index();
    for candidate in &candidates[..active_count] {
        for kind in 0..7 {
            assert_eq!(candidate.features[41 + kind], i32::from(kind == active_kind));
        }
        assert_eq!(candidate.features[10], 0);
        assert_eq!(candidate.diagnostics[3], 0);
    }

    let first = candidates[0];
    let scaled = ScaledAttack { surge_attack: 0, combo_attack: 3, perfect_clear_attack: 0 };
    let completed =
        engine_core::complete_player_candidate(&battle, PlayerId::One, first, scaled).expect("completed candidate");
    assert_eq!(completed.features[10], 3);
    assert_eq!(completed.features[11], 3);
    assert_eq!(completed.diagnostics[3], 3);
    assert_eq!(completed.diagnostics[4], 3);
    assert_eq!(completed.action, first.action);
    let too_big = ScaledAttack { surge_attack: u32::MAX, combo_attack: 0, perfect_clear_attack: 0 };
    assert_eq!(
        engine_core::complete_player_candidate(&battle, PlayerId::One, first, too_big),
        Err(BattleError::Attack { player: PlayerId::One, source: engine_core::AttackError::CounterOverflow })
    );
}

#[test]
fn a_frame_advances_the_clock_by_one_and_only_lockers_spawn() {
    let mut battle = new_battle(73);
    let one = first_placement(&battle, PlayerId::One);
    let outcome = step_frame(&mut battle, [Some(one), None]).expect("frame");
    assert_eq!(outcome.frame, 0);
    assert_eq!(battle.frame(), 1);
    assert!(outcome.player_one.locked.is_some());
    assert!(outcome.player_one.spawn.is_some());
    assert!(outcome.player_two.locked.is_none());
    assert!(outcome.player_two.spawn.is_none());
    assert_eq!(battle.player(PlayerId::One).game().pieces_placed(), 1);
    assert_eq!(battle.player(PlayerId::Two).game().pieces_placed(), 0);
    assert_eq!(battle.pending_frame(), None);
    let pending = battle.begin_frame([None, None]).expect("first half");
    assert_eq!(battle.begin_placements([one, one], 1), Err(BattleError::PlacementPending));
    assert_eq!(pending.player_one, None);
}

#[test]
fn battle_snapshots_show_the_session_and_the_frame_events() {
    let mut battle = new_battle(91);
    battle
        .enqueue_incoming(PlayerId::Two, IncomingGarbagePacket::after_travel_generated(3, 0, false, rules().garbage).unwrap())
        .unwrap();
    let before = engine_core::BattleSnapshot::from_battle(&battle);
    assert_eq!(before.frame, 0);
    assert!(before.events.is_none());
    assert_eq!(before.player_two.incoming.len(), 1);
    assert_eq!(before.player_two.incoming[0].lines, 3);
    assert_eq!(before.player_one.game.board_rows, *battle.player(PlayerId::One).game().board().rows());

    let actions = hard_drop_frame(&battle);
    let outcome = step_frame(&mut battle, actions).expect("lock frame");
    let after = engine_core::BattleSnapshot::after_step(&battle, &outcome);
    assert_eq!(after.frame, 1);
    let events = after.events.expect("events");
    assert_eq!(events.frame, 0);
    assert_eq!(events.player_two.insertion, outcome.player_two.insertion);
    assert_eq!(after.player_two.incoming.len(), 0);
}
