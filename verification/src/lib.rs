//! Deterministic mechanics kernel for a falling-block engine: bitboard, pieces,
//! SRS+ rotation, reachability, spins, timing, input handling, game and
//! session state, plus versioned rules profiles and score-free versus logic.

pub mod bits;
pub mod piece;
pub mod board;
pub mod rng;
pub mod rotation;
pub mod topout;
pub mod clear;
pub mod spin;
pub mod reachability;
pub mod timing;
pub mod handling;
pub mod game;
pub mod session;
pub mod versus;
pub mod battle;
pub mod versus_candidates;
pub mod rules_tetrio;
pub mod features;
pub mod teacher;
pub mod replay;
pub mod replay_battle;
pub mod conformance;
pub mod playground;
pub mod text;
pub mod solo;
pub mod closed_loop;
pub mod normalized;

pub use board::{
    Board, BoardError, ClearedLines, GarbagePushResult, HEIGHT, LockResult, LockVisibility, VISIBLE_HEIGHT, WIDTH,
};
pub use clear::ClearEvent;
pub use game::{
    GameConfig, GameError, GameState, HoldOutcome, InitialActionOutcome, LockedPlacement, PlacementOutcome,
    PlacementPreview, SpawnRules, TETRIO_7_BAG_ORDER, TETRIO_SPAWN_FALL_FRACTION_MICROS,
};
pub use handling::{
    HandlingRules, HandlingState, InitialActions, InputButton, InputEdge, InputEdgeKind, NormalizedFrame, SoftDropMode,
    initial_actions_on_spawn, normalize_frame, on_piece_spawn,
};
pub use piece::{Orientation, PieceKind, PieceState};
pub use reachability::{GeometricPlacement, Movement, hard_drop, reachable_locks, try_movement, try_movement_with_action};
pub use rng::{BagOrderError, MinStd, SevenBag};
pub use rotation::{RotationDirection, RotationResult, kick_tests, try_rotate};
pub use session::{FrameSession, SessionFrameOutcome, SessionLockFrameOutcome, SessionSpawnOutcome, SessionStepError};
pub use spin::{SpinClassification, SpinMode, SpinOutcome, SpinRules, classify_spin};
pub use timing::{
    FALL_MICROS_PER_CELL, FrameInput, FrameOutcome, Gravity, LastAction, LinearGravityTiming,
    TETRIO_KICK_FALL_FRACTION_MICROS, TimingConfigError, TimingRules, TimingSchedule, TimingScheduleError, TimingState,
    TimingStepError, step_frame,
};
pub use topout::{TopOutReason, TopOutRules};
pub use versus::{
    AttackConfigError, AttackContext, AttackError, AttackMultiplier, AttackOutcome, AttackPacket, AttackPacketKind,
    AttackPackets, AttackRules, AttackState, AttackTerms, BattleError, BattleResult, BattleRules, ComboRule,
    GarbageCancellationOutcome, GarbageConfigError, GarbageError, GarbageHoleGenerator, GarbageInsertionOutcome,
    GarbageMessinessRules, GarbageMultiplierSchedule, GarbageRules, IncomingGarbagePacket, IncomingGarbageQueue,
    PlayerId, assemble_attack, attack_terms, cancel_attack_packets, cross_cancel_simultaneous, discard_attack_prefix,
    enqueue_generated_packets, insert_ready_garbage, result_from_terminals, zero_base_combo_attack,
};
pub use battle::{
    BattleFrameOutcome, BattlePlacementOutcome, BattlePlacementPlayerOutcome, BattlePlayerFrameOutcome,
    BattlePlayerState, BattleSession, PendingFrame, PendingPlacement, PendingPlayer, PlacementAction, ScaledAttack,
};
pub use versus_candidates::{
    PlayerCandidate, VERSUS_CANDIDATE_DIAGNOSTIC_COUNT, VERSUS_CANDIDATE_FEATURE_COUNT, complete_player_candidate,
    enumerate_player_candidates,
};
pub use rules_tetrio::{
    ActiveTimingProfile, AttackProfileDraft, Confidence, Evidence, GarbageProfileDraft, PLAYER_HANDLING_SCHEMA_VERSION,
    PlayerHandlingProfile, ProfileActivationError, RESEARCH_ACCESS_DATE, RoomHandlingProfileDraft, RotationSystem,
    Sourced, SpinSystem, TARGET_PROFILE_ID, TetrioRulesDraft, TimingProfileDraft,
};
pub use features::{FEATURE_COUNT, FEATURE_NAMES, board_summary, extract_afterstate_features};
pub use teacher::{DELLACHERIE_SCALED_WEIGHTS, LinearTeacher, TeacherError};
pub use replay::{
    ConformanceMismatch, FrameMismatch, FrameSnapshot, RowDifference, SnapshotDifference, TimingSnapshot,
    compare_snapshot, compare_traces,
};
pub use replay_battle::{
    BattleConformanceMismatch, BattleEventsSnapshot, BattleFrameMismatch, BattlePlayerEventsSnapshot,
    BattlePlayerSnapshot, BattleSnapshot, BattleSnapshotDifference, compare_battle_traces,
};
pub use conformance::{
    ClaimCoverage, FunctionalCaseFailure, FunctionalCaseKind, FunctionalConformanceCase, FunctionalConformancePolicy,
    FunctionalConformanceReport, FunctionalConformanceStatus, InvalidCaseReason, MechanicClaim,
    REQUIRED_MECHANIC_CLAIMS, ReferenceEvidence, ReferenceTrace, evaluate_functional_conformance,
    evaluate_functional_conformance_with_policy,
};
pub use playground::{
    ActivePieceView, PlaygroundError, PlaygroundState, PlaygroundView, ResetRequest, StepRequest, TimingView,
    WireInputEdge,
};
pub use solo::{
    ACTION_SPACE_ID, ActionToken, CandidateChoice, CandidateRecord, DATASET_SCHEMA_VERSION, DatasetManifest,
    DecisionRecord, GenerationError, ImmediateEvents, MECHANICS_STATUS, ObservationRecord, RULES_CANONICAL, RULES_ID,
    SoloGenerationSummary, TEACHER_ID, TEACHER_STYLE, TeacherRecord, action_token, enumerate_candidates, match_id,
    locks_fit, match_seed, observation_record, rank_candidates, sha256_hex, teacher_record, validate_schedule,
};
pub use closed_loop::{
    CandidateBatch, ClosedLoopError, InferenceChoice, SoloBatch, SoloDecision, SoloSnapshot, dataset_manifest,
    decision_record, solo_match_decisions,
};
pub use normalized::{
    LoadedReferenceFixture, LoadedReferenceTrace, NORMALIZED_TRACE_SCHEMA_VERSION, NormalizedDocument,
    NormalizedFixtureError, WireAttackOutcome, WireAttackPacket, WireAttackState, WireBattleEventsSnapshot,
    WireBattlePlayerEventsSnapshot, WireBattlePlayerSnapshot, WireBattleSnapshot, WireFrameSnapshot,
    WireGarbageCancellationOutcome, WireGarbageInsertionOutcome, WireIncomingGarbagePacket, WireLastAction,
    WireManifest, WirePieceState, WireTimingSnapshot, WireTrace, check_normalized_fixture, load_normalized_fixture,
};
