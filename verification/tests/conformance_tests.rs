use engine_core::{
    AttackMultiplier, AttackState, BattleConformanceMismatch, BattlePlayerSnapshot, BattleResult, BattleSnapshot,
    BattleSnapshotDifference, ConformanceMismatch, FrameSnapshot, FunctionalCaseFailure, FunctionalCaseKind,
    FunctionalConformanceCase, FunctionalConformancePolicy, FunctionalConformanceStatus, GameConfig, GameState,
    IncomingGarbagePacket, InvalidCaseReason, LastAction, MechanicClaim, REQUIRED_MECHANIC_CLAIMS, ReferenceEvidence,
    ReferenceTrace, SnapshotDifference, TimingSnapshot, compare_battle_traces, compare_snapshot, compare_traces,
    evaluate_functional_conformance, evaluate_functional_conformance_with_policy,
};

fn snapshot(frame: u64) -> FrameSnapshot {
    let game = GameState::new(41, GameConfig::default()).expect("valid game");
    FrameSnapshot::from_game(frame, &game)
}

fn battle_snapshot(frame: u64) -> BattleSnapshot {
    let player = BattlePlayerSnapshot {
        game: snapshot(frame),
        attack: AttackState::default(),
        incoming: Vec::new(),
        sent_lines: 0,
    };
    BattleSnapshot {
        frame,
        player_one: player.clone(),
        player_two: player,
        garbage_multiplier: AttackMultiplier::one(),
        result: BattleResult::Ongoing,
        events: None,
    }
}

fn evidence(target_profile: &str) -> ReferenceEvidence {
    ReferenceEvidence {
        target_profile: target_profile.to_owned(),
        reference_build: "TETR.IO BETA 1.7.8".to_owned(),
        source: "sanitized user-owned reference capture".to_owned(),
        artifact_sha256: "a".repeat(64),
    }
}

#[test]
fn identical_traces_match() {
    let expected = vec![snapshot(0), snapshot(1)];
    assert_eq!(compare_traces(&expected, &expected), Ok(()));
}

#[test]
fn first_board_difference_reports_exact_row_bits() {
    let expected = vec![snapshot(10)];
    let mut actual = expected.clone();
    actual[0].board_rows[3] = 0b0000_0011;

    let mismatch = compare_traces(&expected, &actual).expect_err("must differ");
    let ConformanceMismatch::Frame(frame) = mismatch else {
        panic!("expected frame mismatch");
    };
    let SnapshotDifference::BoardRows(rows) = frame.difference else {
        panic!("expected row mismatch");
    };
    assert_eq!(rows.len(), 1);
    assert_eq!(rows[0].row, 3);
    assert_eq!(rows[0].expected, 0);
    assert_eq!(rows[0].actual, 3);
}

#[test]
fn garbage_provenance_difference_is_not_hidden_by_equal_occupancy() {
    let mut expected = vec![snapshot(12)];
    let mut actual = expected.clone();
    expected[0].board_rows[2] = 0b0000_0011;
    actual[0].board_rows[2] = 0b0000_0011;
    actual[0].garbage_rows[2] = 0b0000_0001;

    let mismatch = compare_traces(&expected, &actual).expect_err("provenance must differ");
    let ConformanceMismatch::Frame(frame) = mismatch else {
        panic!("expected frame mismatch");
    };
    let SnapshotDifference::GarbageRows(rows) = frame.difference else {
        panic!("expected garbage row mismatch");
    };
    assert_eq!(rows.len(), 1);
    assert_eq!(rows[0].row, 2);
    assert_eq!(rows[0].expected, 0);
    assert_eq!(rows[0].actual, 1);
}

#[test]
fn timing_and_length_mismatches_are_distinct() {
    let expected = vec![snapshot(0), snapshot(1)];
    let mut timing_actual = expected.clone();
    timing_actual[0].timing = Some(TimingSnapshot {
        fall_fraction_micros: 1,
        lock_elapsed_frames: 0,
        lock_resets_used: 0,
        locked: false,
        last_action: LastAction::NoAction,
    });
    assert!(matches!(compare_traces(&expected, &timing_actual), Err(ConformanceMismatch::Frame(_))));
    assert_eq!(
        compare_traces(&expected, &expected[..1]),
        Err(ConformanceMismatch::TraceLength { matched_frames: 1, expected: 2, actual: 1 })
    );
}

#[test]
fn battle_trace_reports_exact_queue_difference() {
    let expected = vec![battle_snapshot(8)];
    let mut actual = expected.clone();
    actual[0].player_two.incoming.push(IncomingGarbagePacket {
        lines: 2,
        hole_column: Some(4),
        ready_at_frame: 28,
        hardened: false,
    });

    let mismatch = compare_battle_traces(&expected, &actual).expect_err("must differ");
    let BattleConformanceMismatch::Frame(frame) = mismatch else {
        panic!("expected frame mismatch");
    };
    assert!(matches!(frame.difference, BattleSnapshotDifference::PlayerTwoIncoming { .. }));
}

#[test]
fn all_required_claims_and_exact_traces_are_conformant() {
    let target = "tetrio-beta-1.7.8-tl-s2";
    let solo = vec![snapshot(0)];
    let battle = vec![battle_snapshot(0)];
    let solo_claims = REQUIRED_MECHANIC_CLAIMS.iter().copied().filter(|claim| !claim.requires_battle_trace()).collect();
    let battle_claims = REQUIRED_MECHANIC_CLAIMS.iter().copied().filter(|claim| claim.requires_battle_trace()).collect();
    let cases = vec![
        FunctionalConformanceCase {
            id: "solo-reference".to_owned(),
            kind: FunctionalCaseKind::Boundary,
            evidence: evidence(target),
            claims: solo_claims,
            trace: ReferenceTrace::Solo { expected: &solo, actual: &solo },
        },
        FunctionalConformanceCase {
            id: "battle-reference".to_owned(),
            kind: FunctionalCaseKind::RandomizedBattle,
            evidence: evidence(target),
            claims: battle_claims,
            trace: ReferenceTrace::Battle { expected: &battle, actual: &battle },
        },
    ];

    let report = evaluate_functional_conformance_with_policy(
        target,
        &cases,
        FunctionalConformancePolicy { minimum_randomized_battle_cases: 1 },
    );
    assert_eq!(report.status, FunctionalConformanceStatus::Conformant);
    assert_eq!(report.compared_cases, 2);
    assert_eq!(report.compared_frames, 2);
    assert!(report.missing_claims.is_empty());
    assert!(report.failures.is_empty());
}

#[test]
fn a_mismatch_is_divergent_and_does_not_cover_its_claim() {
    let target = "tetrio-beta-1.7.8-tl-s2";
    let expected = vec![snapshot(0)];
    let mut actual = expected.clone();
    actual[0].board_rows[0] = 1;
    let cases = vec![FunctionalConformanceCase {
        id: "geometry-reference".to_owned(),
        kind: FunctionalCaseKind::Boundary,
        evidence: evidence(target),
        claims: vec![MechanicClaim::BoardAndClearGeometry],
        trace: ReferenceTrace::Solo { expected: &expected, actual: &actual },
    }];

    let report = evaluate_functional_conformance(target, &cases);
    assert_eq!(report.status, FunctionalConformanceStatus::Divergent);
    assert!(report.missing_claims.contains(&MechanicClaim::BoardAndClearGeometry));
    assert!(matches!(report.failures.as_slice(), [FunctionalCaseFailure::SoloMismatch { .. }]));
}

#[test]
fn battle_claim_cannot_be_covered_by_a_solo_trace() {
    let target = "tetrio-beta-1.7.8-tl-s2";
    let trace = vec![snapshot(0)];
    let cases = vec![FunctionalConformanceCase {
        id: "wrong-trace-kind".to_owned(),
        kind: FunctionalCaseKind::Boundary,
        evidence: evidence(target),
        claims: vec![MechanicClaim::GarbageTransitAndCancellation],
        trace: ReferenceTrace::Solo { expected: &trace, actual: &trace },
    }];

    let report = evaluate_functional_conformance(target, &cases);
    assert_eq!(report.status, FunctionalConformanceStatus::Divergent);
    assert!(matches!(
        report.failures.as_slice(),
        [FunctionalCaseFailure::Invalid {
            reason: InvalidCaseReason::BattleClaimRequiresBattleTrace(MechanicClaim::GarbageTransitAndCancellation),
            ..
        }]
    ));
}

#[test]
fn default_policy_requires_ten_thousand_randomized_battle_cases() {
    let target = "tetrio-beta-1.7.8-tl-s2";
    let battle = vec![battle_snapshot(0)];
    let cases = vec![FunctionalConformanceCase {
        id: "one-random-seed".to_owned(),
        kind: FunctionalCaseKind::RandomizedBattle,
        evidence: evidence(target),
        claims: REQUIRED_MECHANIC_CLAIMS.to_vec(),
        trace: ReferenceTrace::Battle { expected: &battle, actual: &battle },
    }];

    let report = evaluate_functional_conformance(target, &cases);
    assert_eq!(report.status, FunctionalConformanceStatus::Incomplete);
    assert_eq!(report.randomized_battle_cases, 1);
    assert_eq!(report.required_randomized_battle_cases, 10_000);
    assert_eq!(FunctionalConformancePolicy::default().minimum_randomized_battle_cases, 10_000);
}

#[test]
fn invalid_cases_report_the_first_failed_check_in_order() {
    let target = "tetrio-beta-1.7.8-tl-s2";
    let trace = vec![snapshot(0)];
    let case = |id: &str, evidence: ReferenceEvidence, claims: Vec<MechanicClaim>| FunctionalConformanceCase {
        id: id.to_owned(),
        kind: FunctionalCaseKind::Boundary,
        evidence,
        claims,
        trace: ReferenceTrace::Solo { expected: &trace, actual: &trace },
    };
    let mut wrong_target = evidence(target);
    wrong_target.target_profile = "other".to_owned();
    let mut bad_digest = evidence(target);
    bad_digest.artifact_sha256 = "g".repeat(64);
    let mut blank_source = evidence(target);
    blank_source.source = " \t\u{3000}".to_owned();
    let cases = vec![
        case(" \n", evidence(target), vec![MechanicClaim::PieceRandomizer]),
        case("a", evidence(target), vec![MechanicClaim::PieceRandomizer]),
        case("a", evidence(target), vec![MechanicClaim::PieceRandomizer]),
        case("b", blank_source, vec![MechanicClaim::PieceRandomizer]),
        case("c", wrong_target, vec![MechanicClaim::PieceRandomizer]),
        case("d", bad_digest, vec![MechanicClaim::PieceRandomizer]),
        case("e", evidence(target), Vec::new()),
    ];
    let report = evaluate_functional_conformance(target, &cases);
    let reasons: Vec<InvalidCaseReason> = report
        .failures
        .iter()
        .map(|failure| match failure {
            FunctionalCaseFailure::Invalid { reason, .. } => reason.clone(),
            other => panic!("unexpected failure {other:?}"),
        })
        .collect();
    assert_eq!(
        reasons,
        vec![
            InvalidCaseReason::EmptyId,
            InvalidCaseReason::DuplicateId,
            InvalidCaseReason::EmptyReferenceMetadata,
            InvalidCaseReason::TargetProfileMismatch { expected: target.to_owned(), actual: "other".to_owned() },
            InvalidCaseReason::InvalidArtifactSha256,
            InvalidCaseReason::NoClaims,
        ]
    );
    assert_eq!(report.compared_cases, 1);
    assert_eq!(report.coverage[1].claim, MechanicClaim::PieceRandomizer);
    assert_eq!(report.coverage[1].passing_case_ids, vec!["a".to_owned()]);
    assert_eq!(MechanicClaim::MarginMultiplier.as_str(), "margin_multiplier");
}

#[test]
fn snapshot_comparison_reports_hold_before_preview() {
    let expected = snapshot(3);
    let mut actual = expected.clone();
    actual.preview.reverse();
    actual.hold = Some(engine_core::PieceKind::I);
    assert!(matches!(compare_snapshot(&expected, &actual), Some(SnapshotDifference::Hold { .. })));
    assert_eq!(compare_snapshot(&expected, &expected.clone()), None);
}
