use engine_core::{
    FunctionalCaseKind, LoadedReferenceTrace, MechanicClaim, NormalizedDocument, NormalizedFixtureError,
    WireAttackPacket, WireAttackState, WireBattleEventsSnapshot, WireBattlePlayerEventsSnapshot,
    WireBattlePlayerSnapshot, WireBattleSnapshot, WireFrameSnapshot, WireIncomingGarbagePacket, WireLastAction,
    WireManifest, WirePieceState, WireTimingSnapshot, WireTrace, load_normalized_fixture, sha256_hex,
};
use engine_core::{FrameSnapshot, LastAction, Orientation, PieceKind, RotationDirection};

const TRACE: &str = r#"{
  "schema_version": 1,
  "trace_kind": "solo",
  "snapshots": [{
    "frame": 0,
    "board_rows": [0,0,0,0,0,0,0,0,0,0,0,0,0,0,0,0,0,0,0,0,0,0,0,0,0,0,0,0,0,0,0,0,0,0,0,0,0,0,0,0],
    "garbage_rows": [0,0,0,0,0,0,0,0,0,0,0,0,0,0,0,0,0,0,0,0,0,0,0,0,0,0,0,0,0,0,0,0,0,0,0,0,0,0,0,0],
    "active": {"kind":"I","orientation":"spawn","x":3,"y":20},
    "hold": null,
    "preview": ["J","L","O","S","T"],
    "top_out": null,
    "timing": null
  }]
}"#;

fn manifest(trace_hash: &str, claim: &str) -> WireManifest {
    WireManifest {
        schema_version: 1,
        case_id: "schema-example-solo".to_owned(),
        case_kind: "boundary".to_owned(),
        target_profile: "schema-example-not-conformance".to_owned(),
        reference_build: "schema-example".to_owned(),
        source: "synthetic schema test only".to_owned(),
        source_artifact_sha256: "a".repeat(64),
        trace_sha256: trace_hash.to_owned(),
        claims: vec![claim.to_owned()],
    }
}

fn solo_frame() -> WireFrameSnapshot {
    WireFrameSnapshot {
        frame: 0,
        board_rows: vec![0; 40],
        garbage_rows: vec![0; 40],
        active: WirePieceState { kind: "I".to_owned(), orientation: "spawn".to_owned(), x: 3, y: 20 },
        hold: None,
        preview: ["J", "L", "O", "S", "T"].iter().map(|s| s.to_string()).collect(),
        top_out: None,
        timing: None,
    }
}

fn solo_trace() -> WireTrace {
    WireTrace::Solo { schema_version: 1, snapshots: vec![solo_frame()] }
}

fn battle_player() -> WireBattlePlayerSnapshot {
    WireBattlePlayerSnapshot {
        game: solo_frame(),
        attack: WireAttackState { combo: 0, back_to_back: 0 },
        incoming: Vec::new(),
        sent_lines: 0,
    }
}

fn player_events() -> WireBattlePlayerEventsSnapshot {
    WireBattlePlayerEventsSnapshot { attack: None, cancellation: None, insertion: None, transmitted: Vec::new() }
}

fn battle_snapshot() -> WireBattleSnapshot {
    WireBattleSnapshot {
        frame: 0,
        player_one: battle_player(),
        player_two: battle_player(),
        garbage_multiplier_bits: "0x3ff0000000000000".to_owned(),
        result: "ongoing".to_owned(),
        events: Some(WireBattleEventsSnapshot {
            frame: 0,
            player_one: player_events(),
            player_two: player_events(),
            result: "ongoing".to_owned(),
        }),
    }
}

fn load_solo(frames: Vec<WireFrameSnapshot>) -> Result<LoadedReferenceTrace, NormalizedFixtureError> {
    load_normalized_fixture(
        Ok(manifest(&sha256_hex(TRACE.as_bytes()), "board_and_clear_geometry")),
        Ok(WireTrace::Solo { schema_version: 1, snapshots: frames }),
        TRACE.as_bytes(),
    )
    .map(|fixture| fixture.trace)
}

fn invalid_field(error: NormalizedFixtureError) -> (String, &'static str) {
    match error {
        NormalizedFixtureError::InvalidField { field, reason } => (field, reason),
        other => panic!("expected an invalid field, got {other:?}"),
    }
}

#[test]
fn valid_manifest_loads_exact_solo_snapshot() {
    let fixture = load_normalized_fixture(
        Ok(manifest(&sha256_hex(TRACE.as_bytes()), "board_and_clear_geometry")),
        Ok(solo_trace()),
        TRACE.as_bytes(),
    )
    .expect("valid normalized fixture");

    assert_eq!(fixture.trace_sha256, sha256_hex(TRACE.as_bytes()));
    let LoadedReferenceTrace::Solo(trace) = fixture.trace else {
        panic!("expected solo trace");
    };
    assert_eq!(trace.len(), 1);
    assert_eq!(trace[0].active.x, 3);
}

#[test]
fn changed_trace_bytes_fail_before_json_is_trusted() {
    let error = load_normalized_fixture(
        Ok(manifest(&"0".repeat(64), "board_and_clear_geometry")),
        Ok(solo_trace()),
        TRACE.as_bytes(),
    )
    .expect_err("hash mismatch");
    assert!(matches!(error, NormalizedFixtureError::TraceHashMismatch { .. }));
}

#[test]
fn battle_only_claim_cannot_hide_in_solo_trace() {
    let error = load_normalized_fixture(
        Ok(manifest(&sha256_hex(TRACE.as_bytes()), "garbage_transit_and_cancellation")),
        Ok(solo_trace()),
        TRACE.as_bytes(),
    )
    .expect_err("wrong trace kind");
    assert!(matches!(error, NormalizedFixtureError::TraceKindMismatch { .. }));
}

#[test]
fn battle_trace_preserves_exact_multiplier_and_event_projection() {
    let bytes = b"battle trace bytes".to_vec();
    let fixture = load_normalized_fixture(
        Ok(manifest(&sha256_hex(&bytes), "garbage_transit_and_cancellation")),
        Ok(WireTrace::Battle { schema_version: 1, snapshots: vec![battle_snapshot()] }),
        &bytes,
    )
    .expect("valid battle trace");

    let LoadedReferenceTrace::Battle(trace) = fixture.trace else {
        panic!("expected battle trace");
    };
    assert_eq!(trace[0].garbage_multiplier.ieee_bits(), 0x3ff0_0000_0000_0000);
    assert_eq!(trace[0].events.expect("event projection").frame, 0);
}

#[test]
fn parser_messages_are_reported_for_their_document() {
    let error = load_normalized_fixture(Err("expected value".to_owned()), Ok(solo_trace()), TRACE.as_bytes())
        .expect_err("manifest parse error");
    assert_eq!(
        error,
        NormalizedFixtureError::Json { document: NormalizedDocument::Manifest, message: "expected value".to_owned() }
    );
    let error = load_normalized_fixture(
        Ok(manifest(&sha256_hex(TRACE.as_bytes()), "board_and_clear_geometry")),
        Err("unknown field `guess`".to_owned()),
        TRACE.as_bytes(),
    )
    .expect_err("trace parse error");
    assert_eq!(
        error,
        NormalizedFixtureError::Json { document: NormalizedDocument::Trace, message: "unknown field `guess`".to_owned() }
    );
    assert_eq!(error.message(), "invalid trace JSON: unknown field `guess`");
}

#[test]
fn manifest_header_errors_come_in_order() {
    let mut m = manifest(&sha256_hex(TRACE.as_bytes()), "board_and_clear_geometry");
    m.schema_version = 2;
    assert_eq!(
        load_normalized_fixture(Ok(m), Ok(solo_trace()), TRACE.as_bytes()),
        Err(NormalizedFixtureError::UnsupportedSchema { document: NormalizedDocument::Manifest, actual: 2 })
    );
    let mut m = manifest(&sha256_hex(TRACE.as_bytes()), "board_and_clear_geometry");
    m.source_artifact_sha256 = "xyz".to_owned();
    assert_eq!(
        load_normalized_fixture(Ok(m), Ok(solo_trace()), TRACE.as_bytes()),
        Err(NormalizedFixtureError::InvalidSha256 { field: "source_artifact_sha256" })
    );
    let mut m = manifest(&sha256_hex(TRACE.as_bytes()), "board_and_clear_geometry");
    m.case_id = "   ".to_owned();
    let error = load_normalized_fixture(Ok(m), Ok(solo_trace()), TRACE.as_bytes()).unwrap_err();
    assert_eq!(invalid_field(error), ("case_id".to_owned(), "value must not be blank"));
    let mut m = manifest(&sha256_hex(TRACE.as_bytes()), "board_and_clear_geometry");
    m.case_kind = "fuzz".to_owned();
    let error = load_normalized_fixture(Ok(m), Ok(solo_trace()), TRACE.as_bytes()).unwrap_err();
    assert_eq!(invalid_field(error), ("case_kind".to_owned(), "unknown case kind"));
}

#[test]
fn uppercase_trace_hash_is_accepted_and_evidence_is_lowercased() {
    let mut m = manifest(&sha256_hex(TRACE.as_bytes()).to_uppercase(), "board_and_clear_geometry");
    m.source_artifact_sha256 = "ABCDEF".repeat(10) + "ABCD";
    let fixture = load_normalized_fixture(Ok(m), Ok(solo_trace()), TRACE.as_bytes()).unwrap();
    assert_eq!(fixture.evidence.artifact_sha256, "abcdef".repeat(10) + "abcd");
    assert_eq!(fixture.trace_sha256, sha256_hex(TRACE.as_bytes()));
    assert_eq!(fixture.kind, FunctionalCaseKind::Boundary);
    assert_eq!(fixture.claims, vec![MechanicClaim::BoardAndClearGeometry]);
    assert_eq!(fixture.trace.kind_name(), "solo");
    assert_eq!(fixture.trace.len(), 1);
    assert!(!fixture.trace.is_empty());
}

#[test]
fn claims_must_be_known_and_distinct() {
    let mut m = manifest(&sha256_hex(TRACE.as_bytes()), "board_and_clear_geometry");
    m.claims = Vec::new();
    let error = load_normalized_fixture(Ok(m), Ok(solo_trace()), TRACE.as_bytes()).unwrap_err();
    assert_eq!(invalid_field(error), ("claims".to_owned(), "at least one mechanics claim is required"));
    let mut m = manifest(&sha256_hex(TRACE.as_bytes()), "board_and_clear_geometry");
    m.claims.push("piece_randomizer".to_owned());
    m.claims.push("board_and_clear_geometry".to_owned());
    let error = load_normalized_fixture(Ok(m), Ok(solo_trace()), TRACE.as_bytes()).unwrap_err();
    assert_eq!(invalid_field(error), ("claims[2]".to_owned(), "duplicate mechanics claim"));
    let mut m = manifest(&sha256_hex(TRACE.as_bytes()), "board_and_clear_geometry");
    m.claims.push("tea_time".to_owned());
    let error = load_normalized_fixture(Ok(m), Ok(solo_trace()), TRACE.as_bytes()).unwrap_err();
    assert_eq!(invalid_field(error), ("claims[1]".to_owned(), "unknown mechanics claim"));
}

#[test]
fn frame_fields_are_checked_with_their_paths() {
    let mut frame = solo_frame();
    frame.board_rows.pop();
    let error = load_solo(vec![frame]).unwrap_err();
    assert_eq!(invalid_field(error), ("snapshots[0].board_rows".to_owned(), "row count must equal engine board height"));

    let mut frame = solo_frame();
    frame.board_rows[7] = 0x400;
    let error = load_solo(vec![frame]).unwrap_err();
    assert_eq!(
        invalid_field(error),
        ("snapshots[0].board_rows[7]".to_owned(), "row contains bits outside the board width")
    );

    let mut frame = solo_frame();
    frame.board_rows[3] = 0b11;
    frame.garbage_rows[3] = 0b100;
    let error = load_solo(vec![frame]).unwrap_err();
    assert_eq!(
        invalid_field(error),
        ("snapshots[0].garbage_rows[3]".to_owned(), "garbage cells must be a subset of occupied cells")
    );

    let mut frame = solo_frame();
    frame.preview[2] = "Q".to_owned();
    let error = load_solo(vec![frame]).unwrap_err();
    assert_eq!(invalid_field(error), ("snapshots[0].preview[2]".to_owned(), "unknown piece kind"));

    let mut frame = solo_frame();
    frame.active.orientation = "sideways".to_owned();
    let error = load_solo(vec![frame]).unwrap_err();
    assert_eq!(invalid_field(error), ("snapshots[0].active.orientation".to_owned(), "unknown orientation"));

    let mut frame = solo_frame();
    frame.timing = Some(WireTimingSnapshot {
        fall_fraction_micros: 1_000_000,
        lock_elapsed_frames: 0,
        lock_resets_used: 0,
        locked: false,
        last_action: WireLastAction::NoAction,
    });
    let error = load_solo(vec![frame]).unwrap_err();
    assert_eq!(
        invalid_field(error),
        ("snapshots[0].timing.fall_fraction_micros".to_owned(), "fraction must be below 1000000")
    );

    let mut second = solo_frame();
    second.frame = 0;
    let error = load_solo(vec![solo_frame(), second]).unwrap_err();
    assert_eq!(invalid_field(error), ("snapshots[1].frame".to_owned(), "frame numbers must be strictly increasing"));

    let error = load_solo(Vec::new()).unwrap_err();
    assert_eq!(invalid_field(error), ("snapshots".to_owned(), "trace must contain at least one frame"));
}

#[test]
fn frame_conversion_keeps_every_field() {
    let mut frame = solo_frame();
    frame.frame = 12;
    frame.board_rows[0] = 0x3ff;
    frame.garbage_rows[0] = 0x1ff;
    frame.hold = Some("T".to_owned());
    frame.top_out = Some("garbage_out".to_owned());
    frame.timing = Some(WireTimingSnapshot {
        fall_fraction_micros: 500,
        lock_elapsed_frames: 3,
        lock_resets_used: 2,
        locked: true,
        last_action: WireLastAction::Rotation { direction: "half".to_owned(), kick_index: 4 },
    });
    let LoadedReferenceTrace::Solo(trace) = load_solo(vec![frame]).unwrap() else {
        panic!("expected solo trace");
    };
    let f: &FrameSnapshot = &trace[0];
    assert_eq!(f.frame, 12);
    assert_eq!(f.board_rows[0], 0x3ff);
    assert_eq!(f.garbage_rows[0], 0x1ff);
    assert_eq!(f.active.kind, PieceKind::I);
    assert_eq!(f.active.orientation, Orientation::Spawn);
    assert_eq!(f.hold, Some(PieceKind::T));
    assert_eq!(f.preview, vec![PieceKind::J, PieceKind::L, PieceKind::O, PieceKind::S, PieceKind::T]);
    assert_eq!(f.top_out, Some(engine_core::TopOutReason::GarbageOut));
    let timing = f.timing.unwrap();
    assert_eq!(timing.fall_fraction_micros, 500);
    assert!(timing.locked);
    assert_eq!(timing.last_action, LastAction::Rotation { direction: RotationDirection::Half, kick_index: 4 });
}

#[test]
fn battle_fields_are_checked_with_their_paths() {
    let bytes = b"battle".to_vec();
    let load = |snapshot: WireBattleSnapshot| {
        load_normalized_fixture(
            Ok(manifest(&sha256_hex(&bytes), "garbage_transit_and_cancellation")),
            Ok(WireTrace::Battle { schema_version: 1, snapshots: vec![snapshot] }),
            &bytes,
        )
    };

    let mut snapshot = battle_snapshot();
    snapshot.frame = 4;
    let error = load(snapshot).unwrap_err();
    assert_eq!(
        invalid_field(error),
        ("snapshots[0].frame".to_owned(), "outer and both player game frame numbers must match")
    );

    let mut snapshot = battle_snapshot();
    snapshot.garbage_multiplier_bits = "0x7ff0000000000000".to_owned();
    let error = load(snapshot).unwrap_err();
    assert_eq!(
        invalid_field(error),
        ("snapshots[0].garbage_multiplier_bits".to_owned(), "multiplier must be finite")
    );

    let mut snapshot = battle_snapshot();
    snapshot.garbage_multiplier_bits = "0xbff0000000000000".to_owned();
    let error = load(snapshot).unwrap_err();
    assert_eq!(
        invalid_field(error),
        ("snapshots[0].garbage_multiplier_bits".to_owned(), "multiplier must be non-negative")
    );

    let mut snapshot = battle_snapshot();
    snapshot.garbage_multiplier_bits = "3ff0000000000000".to_owned();
    let error = load(snapshot).unwrap_err();
    assert_eq!(
        invalid_field(error),
        ("snapshots[0].garbage_multiplier_bits".to_owned(), "expected 0x followed by 16 hex digits")
    );

    let mut snapshot = battle_snapshot();
    snapshot.player_two.incoming.push(WireIncomingGarbagePacket {
        lines: 2,
        hole_column: Some(10),
        ready_at_frame: 0,
        hardened: false,
    });
    let error = load(snapshot).unwrap_err();
    assert_eq!(
        invalid_field(error),
        ("snapshots[0].player_two.incoming[0].hole_column".to_owned(), "hole column must be within the board")
    );

    let mut snapshot = battle_snapshot();
    if let Some(events) = snapshot.events.as_mut() {
        events.player_one.transmitted.push(WireAttackPacket { kind: "clear".to_owned(), lines: 0 });
    }
    let error = load(snapshot).unwrap_err();
    assert_eq!(
        invalid_field(error),
        ("snapshots[0].events.player_one.transmitted[0].lines".to_owned(), "packet lines must be positive")
    );

    let mut snapshot = battle_snapshot();
    if let Some(events) = snapshot.events.as_mut() {
        events.result = "draw".to_owned();
    }
    let error = load(snapshot).unwrap_err();
    assert_eq!(
        invalid_field(error),
        ("snapshots[0].events".to_owned(), "event frame and result must match the enclosing snapshot")
    );

    let mut snapshot = battle_snapshot();
    if let Some(events) = snapshot.events.as_mut() {
        for _ in 0..6 {
            events.player_two.transmitted.push(WireAttackPacket { kind: "surge".to_owned(), lines: 1 });
        }
    }
    let error = load(snapshot).unwrap_err();
    assert_eq!(
        invalid_field(error),
        ("snapshots[0].events.player_two.transmitted".to_owned(), "attack packet capacity exceeded")
    );
}

#[test]
fn bound_fixture_refuses_the_other_trace_kind() {
    let fixture = load_normalized_fixture(
        Ok(manifest(&sha256_hex(TRACE.as_bytes()), "board_and_clear_geometry")),
        Ok(solo_trace()),
        TRACE.as_bytes(),
    )
    .unwrap();
    assert!(matches!(
        fixture.bind_battle(&[]),
        Err(NormalizedFixtureError::ActualTraceKindMismatch { expected: "solo", actual: "battle" })
    ));
    let case = fixture.bind_solo(&[]).unwrap();
    assert_eq!(case.id, "schema-example-solo");
    assert_eq!(case.claims, vec![MechanicClaim::BoardAndClearGeometry]);
}

#[test]
fn a_given_digest_decides_the_hash_check() {
    let digest = "ab".repeat(32);
    let error = engine_core::check_normalized_fixture(
        Ok(manifest(&"AB".repeat(32), "board_and_clear_geometry")),
        Err("not parsed".to_owned()),
        digest.clone(),
    )
    .expect_err("trace document missing");
    assert!(matches!(error, NormalizedFixtureError::Json { .. }));

    let error = engine_core::check_normalized_fixture(
        Ok(manifest(&"0".repeat(64), "board_and_clear_geometry")),
        Ok(solo_trace()),
        digest.clone(),
    )
    .expect_err("hash mismatch");
    match error {
        NormalizedFixtureError::TraceHashMismatch { expected, actual } => {
            assert_eq!(expected, "0".repeat(64));
            assert_eq!(actual, digest);
        }
        other => panic!("expected a hash mismatch, got {other:?}"),
    }
    let fixture = engine_core::check_normalized_fixture(
        Ok(manifest(&"AB".repeat(32), "board_and_clear_geometry")),
        Ok(solo_trace()),
        digest.clone(),
    )
    .expect("upper-case claim matches the digest");
    assert_eq!(fixture.trace_sha256, digest);
}
