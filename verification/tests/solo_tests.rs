use engine_core::{
    ACTION_SPACE_ID, ClosedLoopError, GameConfig, GameState, GenerationError, LinearTeacher, MECHANICS_STATUS,
    PieceKind, SoloBatch, VISIBLE_HEIGHT, action_token, enumerate_candidates, match_id, match_seed,
    observation_record, rank_candidates, sha256_hex, teacher_record, validate_schedule,
};
use engine_core::{Orientation, PieceState};

#[test]
fn batch_exposes_flat_features_and_applies_one_choice_per_game() {
    let mut batch = SoloBatch::new(&[1, 2]).unwrap();
    let candidates = batch.candidates().unwrap();

    assert_eq!(candidates.offsets.len(), 3);
    assert_eq!(candidates.offsets[0], 0);
    assert_eq!(candidates.offsets[2], candidates.features.len());
    assert!(candidates.teacher_scores.is_empty());
    assert!(candidates.done.iter().all(|done| !done));

    batch.step(&[Some(0), Some(0)]).unwrap();

    assert_eq!(batch.pieces_placed(), vec![1, 1]);
}

#[test]
fn labeled_batch_retains_teacher_scores_for_aggregation() {
    let mut batch = SoloBatch::new(&[3]).unwrap();
    let candidates = batch.labeled_candidates().unwrap();

    assert_eq!(candidates.teacher_scores.len(), candidates.features.len());
    batch.step(&[Some(0)]).unwrap();
    assert_eq!(batch.pieces_placed(), vec![1]);
}

#[test]
fn inference_batch_preserves_labeled_candidate_order_and_features() {
    let mut inference = SoloBatch::new(&[11, 12]).unwrap();
    let mut labeled = SoloBatch::new(&[11, 12]).unwrap();

    let inference_candidates = inference.candidates().unwrap();
    let labeled_candidates = labeled.labeled_candidates().unwrap();

    assert_eq!(inference_candidates.features, labeled_candidates.features);
    assert_eq!(inference_candidates.offsets, labeled_candidates.offsets);
    assert_eq!(inference_candidates.done, labeled_candidates.done);
}

#[test]
fn snapshot_exposes_visible_board_and_queue() {
    let batch = SoloBatch::new(&[5]).unwrap();
    let snapshot = batch.snapshot(0).unwrap();

    assert_eq!(snapshot.board_rows.len(), VISIBLE_HEIGHT);
    assert_eq!(snapshot.garbage_rows.len(), VISIBLE_HEIGHT);
    assert_eq!(snapshot.preview.len(), GameConfig::default().preview);
    assert_eq!(snapshot.pieces_placed, 0);
    assert!(!snapshot.top_out);
}

#[test]
fn step_requires_candidates_and_one_selection_per_active_game() {
    let mut batch = SoloBatch::new(&[7]).unwrap();
    assert!(matches!(batch.step(&[Some(0)]), Err(ClosedLoopError::CandidatesNotRequested(0))));
    batch.candidates().unwrap();
    assert!(matches!(batch.step(&[None]), Err(ClosedLoopError::MissingSelection(0))));
}

#[test]
fn batch_rejects_empty_seed_list_and_wrong_selection_count() {
    assert!(matches!(SoloBatch::new(&[]), Err(ClosedLoopError::EmptySeeds)));
    let mut batch = SoloBatch::new(&[1, 2]).unwrap();
    batch.candidates().unwrap();
    assert!(matches!(
        batch.step(&[Some(0)]),
        Err(ClosedLoopError::SelectionCount { expected: 2, actual: 1 })
    ));
    assert_eq!(batch.pieces_placed(), vec![0, 0]);
}

#[test]
fn selection_past_the_candidates_is_refused_and_leaves_the_game() {
    let mut batch = SoloBatch::new(&[9]).unwrap();
    let candidates = batch.candidates().unwrap();
    let count = candidates.offsets[1];
    match batch.step(&[Some(count)]) {
        Err(ClosedLoopError::SelectionOutOfRange { game, selected, candidates }) => {
            assert_eq!(game, 0);
            assert_eq!(selected, count);
            assert_eq!(candidates, count);
        }
        _ => panic!("expected an out-of-range selection"),
    }
    assert_eq!(batch.pieces_placed(), vec![0]);
    assert!(matches!(batch.snapshot(1), Err(ClosedLoopError::GameOutOfRange { selected: 1, games: 1 })));
}

#[test]
fn closed_loop_error_messages_name_the_games() {
    assert_eq!(ClosedLoopError::EmptySeeds.message(), "at least one seed is required");
    assert_eq!(
        ClosedLoopError::SelectionCount { expected: 2, actual: 1 }.message(),
        "expected 2 selections, got 1"
    );
    assert_eq!(
        ClosedLoopError::SelectionOutOfRange { game: 3, selected: 40, candidates: 12 }.message(),
        "selection 40 is outside 12 candidates for game 3"
    );
}

#[test]
fn sha256_hex_matches_the_standard_digest() {
    assert_eq!(sha256_hex(b"abc"), "ba7816bf8f01cfea414140de5dae2223b00361a396177a9cb410ff61f20015ad");
    assert_eq!(sha256_hex(b""), "e3b0c44298fc1c149afbf4c8996fb92427ae41e4649b934ca495991b7852b855");
}

#[test]
fn match_ids_are_sixteen_hex_digits_of_the_seed() {
    assert_eq!(match_id(7), "solo-0000000000000007");
    assert_eq!(match_id(0x0123_4567_89ab_cdef), "solo-0123456789abcdef");
    assert_eq!(match_id(u64::MAX), "solo-ffffffffffffffff");
}

#[test]
fn match_seeds_step_by_the_stride_and_refuse_overflow() {
    assert_eq!(match_seed(7, 104_729, 0), Some(7));
    assert_eq!(match_seed(7, 104_729, 1), Some(104_736));
    assert_eq!(match_seed(u64::MAX, 1, 1), None);
    assert_eq!(match_seed(0, u64::MAX, 2), None);
}

#[test]
fn schedule_checks_report_each_invalid_field() {
    let revision = String::from("test-revision");
    assert!(validate_schedule(7, 104_729, 2, 3, &revision).is_ok());
    assert_eq!(
        validate_schedule(7, 104_729, 0, 3, &revision),
        Err(GenerationError::InvalidConfig("matches must be positive"))
    );
    assert_eq!(
        validate_schedule(7, 104_729, 2, 0, &revision),
        Err(GenerationError::InvalidConfig("decisions_per_match must be positive"))
    );
    assert_eq!(
        validate_schedule(7, 0, 2, 3, &revision),
        Err(GenerationError::InvalidConfig("seed_stride must be positive"))
    );
    assert_eq!(
        validate_schedule(u64::MAX, 1, 2, 3, &revision),
        Err(GenerationError::InvalidConfig("seed schedule must not overflow u64"))
    );
    assert_eq!(
        validate_schedule(7, 104_729, 2, 3, &String::from("  \t")),
        Err(GenerationError::InvalidConfig("engine_revision must not be empty"))
    );
}

#[test]
fn teacher_record_hashes_its_canonical_weights() {
    let record = teacher_record(LinearTeacher::dellacherie_v1());
    assert_eq!(record.id, "dellacherie-linear-v1");
    assert_eq!(record.style, "solo-stack-survival");
    assert_eq!(record.node_budget, 0);
    assert_eq!(record.config_hash.len(), 64);
    assert!(record.config_hash.chars().all(|c| c.is_ascii_hexdigit() && !c.is_ascii_uppercase()));
    assert_eq!(record, teacher_record(LinearTeacher::dellacherie_v1()));
}

#[test]
fn action_tokens_name_piece_orientation_and_position() {
    let token = action_token(true, PieceState { kind: PieceKind::T, orientation: Orientation::Left, x: 3, y: -1 });
    assert!(token.hold);
    assert_eq!(token.piece, "T");
    assert_eq!(token.orientation, "left");
    assert_eq!(token.x, 3);
    assert_eq!(token.y, -1);
}

#[test]
fn fresh_game_observation_shows_an_empty_board() {
    let game = GameState::new(7, GameConfig::default()).unwrap();
    let observation = observation_record(&game);
    assert!(observation.hold.is_none());
    assert!(observation.hold_available);
    assert_eq!(observation.preview.len(), GameConfig::default().preview);
    assert!(observation.board_hex.chars().all(|c| c == '0'));
    assert!(observation.garbage_hex.chars().all(|c| c == '0'));
    assert!(!observation.board_hex.is_empty());
}

#[test]
fn ranked_candidates_put_the_best_score_first() {
    let game = GameState::new(7, GameConfig::default()).unwrap();
    let mut candidates = enumerate_candidates(&game, GameConfig::default(), LinearTeacher::dellacherie_v1()).unwrap();
    assert!(candidates.len() > 1);
    assert!(candidates.iter().all(|c| c.record.path_length > 0));
    let (chosen, margin) = rank_candidates(&mut candidates).unwrap();
    let chosen = usize::from(chosen);
    assert_eq!(candidates[chosen].record.rank, 0);
    let best = candidates[chosen].record.teacher_score;
    assert!(candidates.iter().all(|c| c.record.teacher_score <= best));
    assert!(margin >= 0);
    let mut ranks: Vec<u16> = candidates.iter().map(|c| c.record.rank).collect();
    ranks.sort();
    assert_eq!(ranks, (0..candidates.len() as u16).collect::<Vec<u16>>());
    assert_eq!(ACTION_SPACE_ID, "geometric-locked-afterstate-v1");
    assert_eq!(MECHANICS_STATUS, "OBSERVED_NOT_FUNCTIONALLY_VERIFIED");
}

#[test]
fn ranking_nothing_is_an_error() {
    let mut none = Vec::new();
    assert_eq!(rank_candidates(&mut none), Err(GenerationError::NoCandidates));
}

#[test]
fn a_solo_rollout_is_deterministic_and_takes_the_top_ranked_candidate() {
    let first = engine_core::solo_match_decisions(7, 5).expect("rollout");
    let second = engine_core::solo_match_decisions(7, 5).expect("rollout");
    assert_eq!(first.len(), 5);
    assert_eq!(second.len(), 5);
    for (ply, (a, b)) in first.iter().zip(second.iter()).enumerate() {
        assert_eq!(a.ply as usize, ply);
        assert_eq!(a.observation, b.observation);
        assert_eq!(a.chosen_index, b.chosen_index);
        assert_eq!(a.top_two_margin, b.top_two_margin);
        let chosen = &a.candidates[usize::from(a.chosen_index)];
        assert_eq!(chosen.record.rank, 0);
        assert!(a.candidates.iter().all(|c| c.record.teacher_score <= chosen.record.teacher_score));
    }
    assert!(engine_core::solo_match_decisions(7, 0).expect("empty rollout").is_empty());
}

#[test]
fn records_and_manifest_carry_the_decision_and_the_schedule() {
    let decision = engine_core::solo_match_decisions(7, 1).expect("rollout").remove(0);
    let chosen = decision.chosen_index;
    let count = decision.candidates.len();
    let teacher = teacher_record(LinearTeacher::dellacherie_v1());
    let record = engine_core::decision_record(
        "rules".to_owned(),
        "rev".to_owned(),
        match_id(7),
        7,
        "obs".to_owned(),
        teacher.clone(),
        decision,
    );
    assert_eq!(record.schema_version, engine_core::DATASET_SCHEMA_VERSION);
    assert_eq!(record.mechanics_status, MECHANICS_STATUS);
    assert_eq!(record.action_space, ACTION_SPACE_ID);
    assert_eq!(record.ply, 0);
    assert_eq!(record.chosen_index, chosen);
    assert_eq!(record.candidates.len(), count);
    assert_eq!(record.terminal_outcome, None);

    let empty = engine_core::dataset_manifest(
        "digest".to_owned(),
        "records.jsonl.gz".to_owned(),
        "rules".to_owned(),
        "rev".to_owned(),
        teacher.clone(),
        (1, 2, 3, 4),
        0,
        (u16::MAX, 0),
    );
    assert_eq!(empty.dataset_id, "digest");
    assert_eq!(empty.min_candidates, 0);
    assert_eq!(empty.completed_matches, 3);
    assert_eq!(empty.feature_names.len(), engine_core::FEATURE_COUNT);
    let some = engine_core::dataset_manifest(
        "digest".to_owned(),
        "records.jsonl.gz".to_owned(),
        "rules".to_owned(),
        "rev".to_owned(),
        teacher,
        (1, 2, 3, 4),
        5,
        (17, 40),
    );
    assert_eq!((some.min_candidates, some.max_candidates, some.decisions), (17, 40, 5));
    assert_eq!(some.rules_id, engine_core::RULES_ID);
}
