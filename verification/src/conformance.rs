//! Functional conformance of a declared corpus of reference traces: every
//! required mechanics claim covered by an exact passing trace.
use vstd::prelude::*;
use vstd::string::*;
use crate::replay::{ConformanceMismatch, FrameSnapshot, compare_traces, min_len, prefix_agrees, trace_comparison};
use crate::replay_battle::{
    BattleConformanceMismatch, BattleSnapshot, battle_prefix_agrees, battle_trace_comparison, compare_battle_traces,
};

verus! {

/// Atomic mechanics claims that must each be covered by at least one exact,
/// version-pinned reference trace.
#[derive(Clone, Copy, Debug, PartialEq, Eq, Hash, Structural)]
pub enum MechanicClaim {
    BoardAndClearGeometry,
    PieceRandomizer,
    SpawnHoldAndPreview,
    MovementAndReachability,
    RotationAndKicks,
    DasArrDcdAndSoftDrop,
    GravityAndLocking,
    IrsIhsAndSpawnOrder,
    SpinAndPerfectClear,
    TopOutClassification,
    AttackComboAndPerfectClear,
    BackToBackChargingAndSurge,
    OpenerCancellation,
    GarbageTransitAndCancellation,
    GarbageCapHoleAndInsertion,
    MarginMultiplier,
    ClutchAndGarbageOut,
    SimultaneousBattleScheduling,
    RoundTerminalResult,
    DeterministicReplay,
}

pub const REQUIRED_MECHANIC_CLAIMS: [MechanicClaim; 20] = [
    MechanicClaim::BoardAndClearGeometry,
    MechanicClaim::PieceRandomizer,
    MechanicClaim::SpawnHoldAndPreview,
    MechanicClaim::MovementAndReachability,
    MechanicClaim::RotationAndKicks,
    MechanicClaim::DasArrDcdAndSoftDrop,
    MechanicClaim::GravityAndLocking,
    MechanicClaim::IrsIhsAndSpawnOrder,
    MechanicClaim::SpinAndPerfectClear,
    MechanicClaim::TopOutClassification,
    MechanicClaim::AttackComboAndPerfectClear,
    MechanicClaim::BackToBackChargingAndSurge,
    MechanicClaim::OpenerCancellation,
    MechanicClaim::GarbageTransitAndCancellation,
    MechanicClaim::GarbageCapHoleAndInsertion,
    MechanicClaim::MarginMultiplier,
    MechanicClaim::ClutchAndGarbageOut,
    MechanicClaim::SimultaneousBattleScheduling,
    MechanicClaim::RoundTerminalResult,
    MechanicClaim::DeterministicReplay,
];

/// Claims about two-player mechanics, which only a battle trace can cover.
pub open spec fn needs_battle(c: MechanicClaim) -> bool {
    match c {
        MechanicClaim::AttackComboAndPerfectClear
        | MechanicClaim::BackToBackChargingAndSurge
        | MechanicClaim::OpenerCancellation
        | MechanicClaim::GarbageTransitAndCancellation
        | MechanicClaim::GarbageCapHoleAndInsertion
        | MechanicClaim::MarginMultiplier
        | MechanicClaim::ClutchAndGarbageOut
        | MechanicClaim::SimultaneousBattleScheduling
        | MechanicClaim::RoundTerminalResult => true,
        _ => false,
    }
}

/// The claim whose identifier is `s`.
pub open spec fn claim_named(s: Seq<char>) -> Option<MechanicClaim> {
    if s == "board_and_clear_geometry"@ {
        Some(MechanicClaim::BoardAndClearGeometry)
    } else if s == "piece_randomizer"@ {
        Some(MechanicClaim::PieceRandomizer)
    } else if s == "spawn_hold_and_preview"@ {
        Some(MechanicClaim::SpawnHoldAndPreview)
    } else if s == "movement_and_reachability"@ {
        Some(MechanicClaim::MovementAndReachability)
    } else if s == "rotation_and_kicks"@ {
        Some(MechanicClaim::RotationAndKicks)
    } else if s == "das_arr_dcd_and_soft_drop"@ {
        Some(MechanicClaim::DasArrDcdAndSoftDrop)
    } else if s == "gravity_and_locking"@ {
        Some(MechanicClaim::GravityAndLocking)
    } else if s == "irs_ihs_and_spawn_order"@ {
        Some(MechanicClaim::IrsIhsAndSpawnOrder)
    } else if s == "spin_and_perfect_clear"@ {
        Some(MechanicClaim::SpinAndPerfectClear)
    } else if s == "top_out_classification"@ {
        Some(MechanicClaim::TopOutClassification)
    } else if s == "attack_combo_and_perfect_clear"@ {
        Some(MechanicClaim::AttackComboAndPerfectClear)
    } else if s == "back_to_back_charging_and_surge"@ {
        Some(MechanicClaim::BackToBackChargingAndSurge)
    } else if s == "opener_cancellation"@ {
        Some(MechanicClaim::OpenerCancellation)
    } else if s == "garbage_transit_and_cancellation"@ {
        Some(MechanicClaim::GarbageTransitAndCancellation)
    } else if s == "garbage_cap_hole_and_insertion"@ {
        Some(MechanicClaim::GarbageCapHoleAndInsertion)
    } else if s == "margin_multiplier"@ {
        Some(MechanicClaim::MarginMultiplier)
    } else if s == "clutch_and_garbage_out"@ {
        Some(MechanicClaim::ClutchAndGarbageOut)
    } else if s == "simultaneous_battle_scheduling"@ {
        Some(MechanicClaim::SimultaneousBattleScheduling)
    } else if s == "round_terminal_result"@ {
        Some(MechanicClaim::RoundTerminalResult)
    } else if s == "deterministic_replay"@ {
        Some(MechanicClaim::DeterministicReplay)
    } else {
        None
    }
}

impl MechanicClaim {
    /// The claim with the identifier `id`, if any.
    pub fn from_id(id: &str) -> (r: Option<MechanicClaim>)
        ensures
            r == claim_named(id@),
    {
        let text = String::from_str(id);
        if text == String::from_str("board_and_clear_geometry") {
            Some(MechanicClaim::BoardAndClearGeometry)
        } else if text == String::from_str("piece_randomizer") {
            Some(MechanicClaim::PieceRandomizer)
        } else if text == String::from_str("spawn_hold_and_preview") {
            Some(MechanicClaim::SpawnHoldAndPreview)
        } else if text == String::from_str("movement_and_reachability") {
            Some(MechanicClaim::MovementAndReachability)
        } else if text == String::from_str("rotation_and_kicks") {
            Some(MechanicClaim::RotationAndKicks)
        } else if text == String::from_str("das_arr_dcd_and_soft_drop") {
            Some(MechanicClaim::DasArrDcdAndSoftDrop)
        } else if text == String::from_str("gravity_and_locking") {
            Some(MechanicClaim::GravityAndLocking)
        } else if text == String::from_str("irs_ihs_and_spawn_order") {
            Some(MechanicClaim::IrsIhsAndSpawnOrder)
        } else if text == String::from_str("spin_and_perfect_clear") {
            Some(MechanicClaim::SpinAndPerfectClear)
        } else if text == String::from_str("top_out_classification") {
            Some(MechanicClaim::TopOutClassification)
        } else if text == String::from_str("attack_combo_and_perfect_clear") {
            Some(MechanicClaim::AttackComboAndPerfectClear)
        } else if text == String::from_str("back_to_back_charging_and_surge") {
            Some(MechanicClaim::BackToBackChargingAndSurge)
        } else if text == String::from_str("opener_cancellation") {
            Some(MechanicClaim::OpenerCancellation)
        } else if text == String::from_str("garbage_transit_and_cancellation") {
            Some(MechanicClaim::GarbageTransitAndCancellation)
        } else if text == String::from_str("garbage_cap_hole_and_insertion") {
            Some(MechanicClaim::GarbageCapHoleAndInsertion)
        } else if text == String::from_str("margin_multiplier") {
            Some(MechanicClaim::MarginMultiplier)
        } else if text == String::from_str("clutch_and_garbage_out") {
            Some(MechanicClaim::ClutchAndGarbageOut)
        } else if text == String::from_str("simultaneous_battle_scheduling") {
            Some(MechanicClaim::SimultaneousBattleScheduling)
        } else if text == String::from_str("round_terminal_result") {
            Some(MechanicClaim::RoundTerminalResult)
        } else if text == String::from_str("deterministic_replay") {
            Some(MechanicClaim::DeterministicReplay)
        } else {
            None
        }
    }

    pub fn requires_battle_trace(self) -> (r: bool)
        ensures
            r == needs_battle(self),
    {
        match self {
            MechanicClaim::AttackComboAndPerfectClear
            | MechanicClaim::BackToBackChargingAndSurge
            | MechanicClaim::OpenerCancellation
            | MechanicClaim::GarbageTransitAndCancellation
            | MechanicClaim::GarbageCapHoleAndInsertion
            | MechanicClaim::MarginMultiplier
            | MechanicClaim::ClutchAndGarbageOut
            | MechanicClaim::SimultaneousBattleScheduling
            | MechanicClaim::RoundTerminalResult => true,
            _ => false,
        }
    }

    pub fn as_str(self) -> (r: &'static str)
        ensures
            r@ == match self {
                MechanicClaim::BoardAndClearGeometry => "board_and_clear_geometry"@,
                MechanicClaim::PieceRandomizer => "piece_randomizer"@,
                MechanicClaim::SpawnHoldAndPreview => "spawn_hold_and_preview"@,
                MechanicClaim::MovementAndReachability => "movement_and_reachability"@,
                MechanicClaim::RotationAndKicks => "rotation_and_kicks"@,
                MechanicClaim::DasArrDcdAndSoftDrop => "das_arr_dcd_and_soft_drop"@,
                MechanicClaim::GravityAndLocking => "gravity_and_locking"@,
                MechanicClaim::IrsIhsAndSpawnOrder => "irs_ihs_and_spawn_order"@,
                MechanicClaim::SpinAndPerfectClear => "spin_and_perfect_clear"@,
                MechanicClaim::TopOutClassification => "top_out_classification"@,
                MechanicClaim::AttackComboAndPerfectClear => "attack_combo_and_perfect_clear"@,
                MechanicClaim::BackToBackChargingAndSurge => "back_to_back_charging_and_surge"@,
                MechanicClaim::OpenerCancellation => "opener_cancellation"@,
                MechanicClaim::GarbageTransitAndCancellation => "garbage_transit_and_cancellation"@,
                MechanicClaim::GarbageCapHoleAndInsertion => "garbage_cap_hole_and_insertion"@,
                MechanicClaim::MarginMultiplier => "margin_multiplier"@,
                MechanicClaim::ClutchAndGarbageOut => "clutch_and_garbage_out"@,
                MechanicClaim::SimultaneousBattleScheduling => "simultaneous_battle_scheduling"@,
                MechanicClaim::RoundTerminalResult => "round_terminal_result"@,
                MechanicClaim::DeterministicReplay => "deterministic_replay"@,
            },
    {
        match self {
            MechanicClaim::BoardAndClearGeometry => "board_and_clear_geometry",
            MechanicClaim::PieceRandomizer => "piece_randomizer",
            MechanicClaim::SpawnHoldAndPreview => "spawn_hold_and_preview",
            MechanicClaim::MovementAndReachability => "movement_and_reachability",
            MechanicClaim::RotationAndKicks => "rotation_and_kicks",
            MechanicClaim::DasArrDcdAndSoftDrop => "das_arr_dcd_and_soft_drop",
            MechanicClaim::GravityAndLocking => "gravity_and_locking",
            MechanicClaim::IrsIhsAndSpawnOrder => "irs_ihs_and_spawn_order",
            MechanicClaim::SpinAndPerfectClear => "spin_and_perfect_clear",
            MechanicClaim::TopOutClassification => "top_out_classification",
            MechanicClaim::AttackComboAndPerfectClear => "attack_combo_and_perfect_clear",
            MechanicClaim::BackToBackChargingAndSurge => "back_to_back_charging_and_surge",
            MechanicClaim::OpenerCancellation => "opener_cancellation",
            MechanicClaim::GarbageTransitAndCancellation => "garbage_transit_and_cancellation",
            MechanicClaim::GarbageCapHoleAndInsertion => "garbage_cap_hole_and_insertion",
            MechanicClaim::MarginMultiplier => "margin_multiplier",
            MechanicClaim::ClutchAndGarbageOut => "clutch_and_garbage_out",
            MechanicClaim::SimultaneousBattleScheduling => "simultaneous_battle_scheduling",
            MechanicClaim::RoundTerminalResult => "round_terminal_result",
            MechanicClaim::DeterministicReplay => "deterministic_replay",
        }
    }
}

#[derive(Clone, Debug, PartialEq, Eq)]
pub struct ReferenceEvidence {
    pub target_profile: String,
    pub reference_build: String,
    pub source: String,
    pub artifact_sha256: String,
}

#[derive(Clone, Copy, Debug, PartialEq, Eq, Structural)]
pub enum FunctionalCaseKind {
    Boundary,
    RandomizedBattle,
}

#[derive(Clone, Copy, Debug, PartialEq, Eq, Structural)]
pub struct FunctionalConformancePolicy {
    pub minimum_randomized_battle_cases: usize,
}

impl Default for FunctionalConformancePolicy {
    fn default() -> (r: Self)
        ensures
            r.minimum_randomized_battle_cases == 10_000,
    {
        FunctionalConformancePolicy { minimum_randomized_battle_cases: 10_000 }
    }
}

#[derive(Clone, Copy, Debug)]
pub enum ReferenceTrace<'a> {
    Solo { expected: &'a [FrameSnapshot], actual: &'a [FrameSnapshot] },
    Battle { expected: &'a [BattleSnapshot], actual: &'a [BattleSnapshot] },
}

#[derive(Clone, Debug)]
pub struct FunctionalConformanceCase<'a> {
    pub id: String,
    pub kind: FunctionalCaseKind,
    pub evidence: ReferenceEvidence,
    pub claims: Vec<MechanicClaim>,
    pub trace: ReferenceTrace<'a>,
}

#[derive(Clone, Copy, Debug, PartialEq, Eq, Structural)]
pub enum FunctionalConformanceStatus {
    Incomplete,
    Divergent,
    Conformant,
}

#[derive(Clone, Debug, PartialEq, Eq)]
pub enum InvalidCaseReason {
    EmptyId,
    DuplicateId,
    EmptyReferenceMetadata,
    TargetProfileMismatch { expected: String, actual: String },
    InvalidArtifactSha256,
    NoClaims,
    EmptyTrace,
    BattleClaimRequiresBattleTrace(MechanicClaim),
    RandomizedCaseRequiresBattleTrace,
}

#[derive(Clone, Debug, PartialEq, Eq)]
pub enum FunctionalCaseFailure {
    Invalid { case_id: String, reason: InvalidCaseReason },
    SoloMismatch { case_id: String, mismatch: ConformanceMismatch },
    BattleMismatch { case_id: String, mismatch: BattleConformanceMismatch },
}

#[derive(Clone, Debug, PartialEq, Eq)]
pub struct ClaimCoverage {
    pub claim: MechanicClaim,
    pub passing_case_ids: Vec<String>,
}

#[derive(Clone, Debug, PartialEq, Eq)]
pub struct FunctionalConformanceReport {
    pub target_profile: String,
    pub status: FunctionalConformanceStatus,
    pub compared_cases: usize,
    pub compared_frames: usize,
    pub randomized_battle_cases: usize,
    pub required_randomized_battle_cases: usize,
    pub coverage: Vec<ClaimCoverage>,
    pub missing_claims: Vec<MechanicClaim>,
    pub failures: Vec<FunctionalCaseFailure>,
}

/// Unicode `White_Space`, the characters that `str::trim` removes.
pub open spec fn unicode_whitespace(c: char) -> bool {
    ||| '\u{9}' <= c <= '\u{d}'
    ||| c == ' '
    ||| c == '\u{85}'
    ||| c == '\u{a0}'
    ||| c == '\u{1680}'
    ||| '\u{2000}' <= c <= '\u{200a}'
    ||| c == '\u{2028}'
    ||| c == '\u{2029}'
    ||| c == '\u{202f}'
    ||| c == '\u{205f}'
    ||| c == '\u{3000}'
}

/// Empty once surrounding whitespace is trimmed.
pub open spec fn blank(s: Seq<char>) -> bool {
    forall|i: int| 0 <= i < s.len() ==> unicode_whitespace(#[trigger] s[i])
}

pub open spec fn hex_digit(c: char) -> bool {
    ||| '0' <= c <= '9'
    ||| 'a' <= c <= 'f'
    ||| 'A' <= c <= 'F'
}

/// Sixty-four hexadecimal digits.
pub open spec fn sha256_text(s: Seq<char>) -> bool {
    &&& s.len() == 64
    &&& forall|i: int| 0 <= i < s.len() ==> hex_digit(#[trigger] s[i])
}

/// The first claim among the first `n` that needs a battle trace.
pub open spec fn first_battle_claim(s: Seq<MechanicClaim>, n: nat) -> Option<MechanicClaim>
    decreases n,
{
    if n == 0 {
        None
    } else {
        match first_battle_claim(s, (n - 1) as nat) {
            Some(c) => Some(c),
            None => if needs_battle(s[n - 1]) {
                Some(s[n - 1])
            } else {
                None
            },
        }
    }
}

pub open spec fn trace_is_solo(t: ReferenceTrace) -> bool {
    t matches ReferenceTrace::Solo { .. }
}

pub open spec fn trace_nonempty(t: ReferenceTrace) -> bool {
    match t {
        ReferenceTrace::Solo { expected, actual } => expected@.len() > 0 && actual@.len() > 0,
        ReferenceTrace::Battle { expected, actual } => expected@.len() > 0 && actual@.len() > 0,
    }
}

/// Whether case `k` passes validation step `i`. The steps, in order: a
/// non-blank id, an id no earlier case used, non-blank build and source, the
/// target profile, the artifact digest, at least one claim, non-empty traces,
/// no two-player claim on a solo trace, no randomized case on a solo trace.
pub open spec fn case_check(target: Seq<char>, cases: Seq<FunctionalConformanceCase>, k: int, i: int) -> bool {
    let c = cases[k];
    if i == 0 {
        !blank(c.id@)
    } else if i == 1 {
        forall|j: int| 0 <= j < k ==> (#[trigger] cases[j]).id@ != c.id@
    } else if i == 2 {
        !blank(c.evidence.reference_build@) && !blank(c.evidence.source@)
    } else if i == 3 {
        c.evidence.target_profile@ == target
    } else if i == 4 {
        sha256_text(c.evidence.artifact_sha256@)
    } else if i == 5 {
        c.claims@.len() > 0
    } else if i == 6 {
        trace_nonempty(c.trace)
    } else if i == 7 {
        trace_is_solo(c.trace) ==> first_battle_claim(c.claims@, c.claims@.len()) is None
    } else {
        trace_is_solo(c.trace) ==> c.kind != FunctionalCaseKind::RandomizedBattle
    }
}

pub open spec fn case_checks_pass(target: Seq<char>, cases: Seq<FunctionalConformanceCase>, k: int, n: int) -> bool {
    forall|i: int| 0 <= i < n ==> #[trigger] case_check(target, cases, k, i)
}

pub open spec fn case_valid(target: Seq<char>, cases: Seq<FunctionalConformanceCase>, k: int) -> bool {
    case_checks_pass(target, cases, k, 9)
}

/// `reason` names the first validation step that case `k` fails.
pub open spec fn reason_fits(
    target: Seq<char>,
    cases: Seq<FunctionalConformanceCase>,
    k: int,
    reason: InvalidCaseReason,
) -> bool {
    let c = cases[k];
    match reason {
        InvalidCaseReason::EmptyId => !case_check(target, cases, k, 0),
        InvalidCaseReason::DuplicateId => case_checks_pass(target, cases, k, 1) && !case_check(target, cases, k, 1),
        InvalidCaseReason::EmptyReferenceMetadata => case_checks_pass(target, cases, k, 2) && !case_check(
            target,
            cases,
            k,
            2,
        ),
        InvalidCaseReason::TargetProfileMismatch { expected, actual } => {
            &&& case_checks_pass(target, cases, k, 3)
            &&& !case_check(target, cases, k, 3)
            &&& expected@ == target
            &&& actual@ == c.evidence.target_profile@
        },
        InvalidCaseReason::InvalidArtifactSha256 => case_checks_pass(target, cases, k, 4) && !case_check(
            target,
            cases,
            k,
            4,
        ),
        InvalidCaseReason::NoClaims => case_checks_pass(target, cases, k, 5) && !case_check(target, cases, k, 5),
        InvalidCaseReason::EmptyTrace => case_checks_pass(target, cases, k, 6) && !case_check(target, cases, k, 6),
        InvalidCaseReason::BattleClaimRequiresBattleTrace(claim) => {
            &&& case_checks_pass(target, cases, k, 7)
            &&& !case_check(target, cases, k, 7)
            &&& first_battle_claim(c.claims@, c.claims@.len()) == Some(claim)
        },
        InvalidCaseReason::RandomizedCaseRequiresBattleTrace => case_checks_pass(target, cases, k, 8)
            && !case_check(target, cases, k, 8),
    }
}

/// The two traces of a case agree frame for frame and in length.
pub open spec fn traces_agree(t: ReferenceTrace) -> bool {
    match t {
        ReferenceTrace::Solo { expected, actual } => expected@.len() == actual@.len() && prefix_agrees(
            expected@,
            actual@,
            expected@.len() as int,
        ),
        ReferenceTrace::Battle { expected, actual } => expected@.len() == actual@.len() && battle_prefix_agrees(
            expected@,
            actual@,
            expected@.len() as int,
        ),
    }
}

pub open spec fn case_passes(target: Seq<char>, cases: Seq<FunctionalConformanceCase>, k: int) -> bool {
    case_valid(target, cases, k) && traces_agree(cases[k].trace)
}

pub open spec fn paired_frames(t: ReferenceTrace) -> nat {
    match t {
        ReferenceTrace::Solo { expected, actual } => min_len(expected@.len(), actual@.len()),
        ReferenceTrace::Battle { expected, actual } => min_len(expected@.len(), actual@.len()),
    }
}

/// Cases among the first `n` that pass validation.
pub open spec fn valid_count(target: Seq<char>, cases: Seq<FunctionalConformanceCase>, n: nat) -> nat
    decreases n,
{
    if n == 0 {
        0
    } else {
        valid_count(target, cases, (n - 1) as nat) + if case_valid(target, cases, n - 1) {
            1nat
        } else {
            0nat
        }
    }
}

/// Frames paired by the comparisons of valid cases among the first `n`.
pub open spec fn frames_compared(target: Seq<char>, cases: Seq<FunctionalConformanceCase>, n: nat) -> nat
    decreases n,
{
    if n == 0 {
        0
    } else {
        frames_compared(target, cases, (n - 1) as nat) + if case_valid(target, cases, n - 1) {
            paired_frames(cases[n - 1].trace)
        } else {
            0nat
        }
    }
}

/// Passing randomized-battle cases among the first `n`.
pub open spec fn randomized_passing(target: Seq<char>, cases: Seq<FunctionalConformanceCase>, n: nat) -> nat
    decreases n,
{
    if n == 0 {
        0
    } else {
        randomized_passing(target, cases, (n - 1) as nat) + if case_passes(target, cases, n - 1)
            && cases[n - 1].kind == FunctionalCaseKind::RandomizedBattle {
            1nat
        } else {
            0nat
        }
    }
}

/// Cases among the first `n` that fail validation or comparison.
pub open spec fn failing_count(target: Seq<char>, cases: Seq<FunctionalConformanceCase>, n: nat) -> nat
    decreases n,
{
    if n == 0 {
        0
    } else {
        failing_count(target, cases, (n - 1) as nat) + if case_passes(target, cases, n - 1) {
            0nat
        } else {
            1nat
        }
    }
}

/// `f` is the failure entry of case `k`.
pub open spec fn failure_fits(
    target: Seq<char>,
    cases: Seq<FunctionalConformanceCase>,
    k: int,
    f: FunctionalCaseFailure,
) -> bool {
    let c = cases[k];
    match f {
        FunctionalCaseFailure::Invalid { case_id, reason } => {
            &&& !case_valid(target, cases, k)
            &&& case_id@ == c.id@
            &&& reason_fits(target, cases, k, reason)
        },
        FunctionalCaseFailure::SoloMismatch { case_id, mismatch } => {
            &&& case_valid(target, cases, k)
            &&& case_id@ == c.id@
            &&& match c.trace {
                ReferenceTrace::Solo { expected, actual } => trace_comparison(
                    expected@,
                    actual@,
                    Err(mismatch),
                ),
                ReferenceTrace::Battle { .. } => false,
            }
        },
        FunctionalCaseFailure::BattleMismatch { case_id, mismatch } => {
            &&& case_valid(target, cases, k)
            &&& case_id@ == c.id@
            &&& match c.trace {
                ReferenceTrace::Battle { expected, actual } => battle_trace_comparison(
                    expected@,
                    actual@,
                    Err(mismatch),
                ),
                ReferenceTrace::Solo { .. } => false,
            }
        },
    }
}

/// How often `claim` occurs among the first `n` claims of a case.
pub open spec fn claim_occurrences(s: Seq<MechanicClaim>, claim: MechanicClaim, n: nat) -> nat
    decreases n,
{
    if n == 0 {
        0
    } else {
        claim_occurrences(s, claim, (n - 1) as nat) + if s[n - 1] == claim {
            1nat
        } else {
            0nat
        }
    }
}

/// Ids of the passing cases among the first `n` that cover `claim`, in case
/// order, once per occurrence of the claim in the case.
pub open spec fn covering_ids(
    target: Seq<char>,
    cases: Seq<FunctionalConformanceCase>,
    claim: MechanicClaim,
    n: nat,
) -> Seq<Seq<char>>
    decreases n,
{
    if n == 0 {
        Seq::empty()
    } else {
        let c = cases[n - 1];
        covering_ids(target, cases, claim, (n - 1) as nat) + if case_passes(target, cases, n - 1) {
            Seq::new(claim_occurrences(c.claims@, claim, c.claims@.len()), |i: int| c.id@)
        } else {
            Seq::empty()
        }
    }
}

/// Required claims, among the first `n`, that no passing case covers.
pub open spec fn uncovered_claims(target: Seq<char>, cases: Seq<FunctionalConformanceCase>, n: nat) -> Seq<
    MechanicClaim,
>
    decreases n,
{
    if n == 0 {
        Seq::empty()
    } else {
        let claim = REQUIRED_MECHANIC_CLAIMS@[n - 1];
        uncovered_claims(target, cases, (n - 1) as nat) + if covering_ids(
            target,
            cases,
            claim,
            cases.len(),
        ).len() == 0 {
            seq![claim]
        } else {
            Seq::empty()
        }
    }
}

pub(crate) fn text_is_blank(s: &String) -> (r: bool)
    ensures
        r == blank(s@),
{
    broadcast use vstd::string::axiom_spec_iter;

    let text = s.as_str();
    let mut all = true;
    for c in it: text.chars()
        invariant
            it.seq() == s@,
            all == (forall|i: int| 0 <= i < it.index() ==> unicode_whitespace(#[trigger] s@[i])),
    {
        let white = ('\u{9}' <= c && c <= '\u{d}') || c == ' ' || c == '\u{85}' || c == '\u{a0}' || c
            == '\u{1680}' || ('\u{2000}' <= c && c <= '\u{200a}') || c == '\u{2028}' || c == '\u{2029}' || c
            == '\u{202f}' || c == '\u{205f}' || c == '\u{3000}';
        if !white {
            all = false;
        }
    }
    all
}

pub(crate) fn is_sha256(s: &String) -> (r: bool)
    ensures
        r == sha256_text(s@),
{
    broadcast use vstd::string::axiom_spec_iter;

    let text = s.as_str();
    let mut hex = true;
    let mut count: usize = 0;
    for c in it: text.chars()
        invariant
            it.seq() == s@,
            hex == (forall|i: int| 0 <= i < it.index() ==> hex_digit(#[trigger] s@[i])),
            count == if it.index() <= 65 {
                it.index() as int
            } else {
                65
            },
    {
        if !(('0' <= c && c <= '9') || ('a' <= c && c <= 'f') || ('A' <= c && c <= 'F')) {
            hex = false;
        }
        if count < 65 {
            count += 1;
        }
    }
    hex && count == 64
}

fn first_battle_claim_of(claims: &Vec<MechanicClaim>) -> (r: Option<MechanicClaim>)
    ensures
        r == first_battle_claim(claims@, claims@.len()),
{
    let mut found: Option<MechanicClaim> = None;
    let mut i: usize = 0;
    while i < claims.len()
        invariant
            i <= claims@.len(),
            found == first_battle_claim(claims@, i as nat),
        decreases claims@.len() - i,
    {
        if found.is_none() && claims[i].requires_battle_trace() {
            found = Some(claims[i]);
        }
        i += 1;
    }
    found
}

fn validate_case(target: &String, cases: &[FunctionalConformanceCase], k: usize) -> (r: Option<
    InvalidCaseReason,
>)
    requires
        k < cases@.len(),
    ensures
        match r {
            None => case_valid(target@, cases@, k as int),
            Some(reason) => !case_valid(target@, cases@, k as int) && reason_fits(target@, cases@, k as int, reason),
        },
{
    let ghost t = target@;
    let ghost cs = cases@;
    let case = &cases[k];
    if text_is_blank(&case.id) {
        assert(!case_check(t, cs, k as int, 0));
        return Some(InvalidCaseReason::EmptyId);
    }
    assert(case_checks_pass(t, cs, k as int, 1));
    let mut j: usize = 0;
    while j < k
        invariant
            j <= k,
            k < cases@.len(),
            cs == cases@,
            t == target@,
            case_checks_pass(t, cs, k as int, 1),
            case == &cases@[k as int],
            forall|i: int| 0 <= i < j ==> (#[trigger] cases@[i]).id@ != case.id@,
        decreases k - j,
    {
        if cases[j].id == case.id {
            assert(cs[j as int].id@ == cs[k as int].id@);
            assert(!case_check(t, cs, k as int, 1));
            return Some(InvalidCaseReason::DuplicateId);
        }
        j += 1;
    }
    assert(case_checks_pass(t, cs, k as int, 2));
    if text_is_blank(&case.evidence.reference_build) || text_is_blank(&case.evidence.source) {
        assert(!case_check(t, cs, k as int, 2));
        return Some(InvalidCaseReason::EmptyReferenceMetadata);
    }
    assert(case_checks_pass(t, cs, k as int, 3));
    if case.evidence.target_profile != *target {
        assert(!case_check(t, cs, k as int, 3));
        return Some(
            InvalidCaseReason::TargetProfileMismatch {
                expected: target.clone(),
                actual: case.evidence.target_profile.clone(),
            },
        );
    }
    assert(case_checks_pass(t, cs, k as int, 4));
    if !is_sha256(&case.evidence.artifact_sha256) {
        assert(!case_check(t, cs, k as int, 4));
        return Some(InvalidCaseReason::InvalidArtifactSha256);
    }
    assert(case_checks_pass(t, cs, k as int, 5));
    if case.claims.len() == 0 {
        assert(!case_check(t, cs, k as int, 5));
        return Some(InvalidCaseReason::NoClaims);
    }
    assert(case_checks_pass(t, cs, k as int, 6));
    match case.trace {
        ReferenceTrace::Solo { expected, actual } => {
            if expected.len() == 0 || actual.len() == 0 {
                assert(!case_check(t, cs, k as int, 6));
                return Some(InvalidCaseReason::EmptyTrace);
            }
            assert(case_checks_pass(t, cs, k as int, 7));
            if let Some(claim) = first_battle_claim_of(&case.claims) {
                assert(!case_check(t, cs, k as int, 7));
                return Some(InvalidCaseReason::BattleClaimRequiresBattleTrace(claim));
            }
            assert(case_checks_pass(t, cs, k as int, 8));
            if case.kind == FunctionalCaseKind::RandomizedBattle {
                assert(!case_check(t, cs, k as int, 8));
                return Some(InvalidCaseReason::RandomizedCaseRequiresBattleTrace);
            }
        },
        ReferenceTrace::Battle { expected, actual } => {
            if expected.len() == 0 || actual.len() == 0 {
                assert(!case_check(t, cs, k as int, 6));
                return Some(InvalidCaseReason::EmptyTrace);
            }
        },
    }
    assert(case_checks_pass(t, cs, k as int, 9));
    None
}

/// Evaluates exact observable equivalence for a declared fixture corpus
/// against the default policy of ten thousand randomized battle cases.
pub fn evaluate_functional_conformance(target_profile: &str, cases: &[FunctionalConformanceCase<'_>]) -> (r:
    FunctionalConformanceReport)
    requires
        frames_compared(target_profile@, cases@, cases@.len()) <= usize::MAX,
    ensures
        report_fits(target_profile@, cases@, 10_000, r),
{
    evaluate_functional_conformance_with_policy(
        target_profile,
        cases,
        FunctionalConformancePolicy { minimum_randomized_battle_cases: 10_000 },
    )
}

/// The report of a corpus: counts, per-claim coverage, uncovered claims, one
/// failure per failing case in case order, and the status. `Conformant`
/// means every required claim has a passing case, the randomized-battle floor
/// is met and nothing failed; any failure makes the corpus `Divergent`.
pub open spec fn report_fits(
    target: Seq<char>,
    cases: Seq<FunctionalConformanceCase>,
    minimum: usize,
    r: FunctionalConformanceReport,
) -> bool {
    let n = cases.len();
    &&& r.target_profile@ == target
    &&& r.compared_cases == valid_count(target, cases, n)
    &&& r.compared_frames == frames_compared(target, cases, n)
    &&& r.randomized_battle_cases == randomized_passing(target, cases, n)
    &&& r.required_randomized_battle_cases == minimum
    &&& r.coverage@.len() == 20
    &&& forall|c: int|
        0 <= c < 20 ==> {
            &&& (#[trigger] r.coverage@[c]).claim == REQUIRED_MECHANIC_CLAIMS@[c]
            &&& r.coverage@[c].passing_case_ids@.map_values(|s: String| s@) == covering_ids(
                target,
                cases,
                REQUIRED_MECHANIC_CLAIMS@[c],
                n,
            )
        }
    &&& r.missing_claims@ == uncovered_claims(target, cases, 20)
    &&& r.failures@.len() == failing_count(target, cases, n)
    &&& forall|k: int|
        0 <= k < n && !case_passes(target, cases, k) ==> failure_fits(
            target,
            cases,
            k,
            r.failures@[failing_count(target, cases, k as nat) as int],
        )
    &&& r.status == if failing_count(target, cases, n) > 0 {
        FunctionalConformanceStatus::Divergent
    } else if uncovered_claims(target, cases, 20).len() > 0 || randomized_passing(target, cases, n) < minimum {
        FunctionalConformanceStatus::Incomplete
    } else {
        FunctionalConformanceStatus::Conformant
    }
}

proof fn lemma_frames_monotone(target: Seq<char>, cases: Seq<FunctionalConformanceCase>, m: nat, n: nat)
    requires
        m <= n,
    ensures
        frames_compared(target, cases, m) <= frames_compared(target, cases, n),
    decreases n,
{
    if m < n {
        lemma_frames_monotone(target, cases, m, (n - 1) as nat);
    }
}

proof fn lemma_counts_bounded(target: Seq<char>, cases: Seq<FunctionalConformanceCase>, n: nat)
    ensures
        valid_count(target, cases, n) <= n,
        randomized_passing(target, cases, n) <= n,
        failing_count(target, cases, n) <= n,
    decreases n,
{
    if n > 0 {
        lemma_counts_bounded(target, cases, (n - 1) as nat);
    }
}

proof fn lemma_failing_monotone(target: Seq<char>, cases: Seq<FunctionalConformanceCase>, m: nat, n: nat)
    requires
        m <= n,
    ensures
        failing_count(target, cases, m) <= failing_count(target, cases, n),
    decreases n,
{
    if m < n {
        lemma_failing_monotone(target, cases, m, (n - 1) as nat);
    }
}

proof fn lemma_reported_difference_disagrees(e: FrameSnapshot, a: FrameSnapshot, d: crate::replay::SnapshotDifference)
    requires
        crate::replay::reports_difference(e, a, d),
    ensures
        !crate::replay::same_snapshot(e, a),
{
}

/// A solo mismatch report means the traces do not agree.
proof fn lemma_solo_mismatch_disagrees(e: Seq<FrameSnapshot>, a: Seq<FrameSnapshot>, m: ConformanceMismatch)
    requires
        trace_comparison(e, a, Err(m)),
    ensures
        !(e.len() == a.len() && prefix_agrees(e, a, e.len() as int)),
{
    match m {
        ConformanceMismatch::Frame(f) => {
            lemma_reported_difference_disagrees(e[f.index as int], a[f.index as int], f.difference);
        },
        ConformanceMismatch::TraceLength { .. } => {},
    }
}

proof fn lemma_battle_difference_disagrees(
    e: BattleSnapshot,
    a: BattleSnapshot,
    d: crate::replay_battle::BattleSnapshotDifference,
)
    requires
        crate::replay_battle::reports_battle_difference(e, a, d),
    ensures
        !crate::replay_battle::same_battle_snapshot(e, a),
{
    match d {
        crate::replay_battle::BattleSnapshotDifference::PlayerOneGame(sd) => {
            lemma_reported_difference_disagrees(e.player_one.game, a.player_one.game, sd);
            assert(!crate::replay_battle::battle_check(e, a, 1));
        },
        crate::replay_battle::BattleSnapshotDifference::PlayerTwoGame(sd) => {
            lemma_reported_difference_disagrees(e.player_two.game, a.player_two.game, sd);
            assert(!crate::replay_battle::battle_check(e, a, 2));
        },
        _ => {},
    }
}

/// A battle mismatch report means the traces do not agree.
proof fn lemma_battle_mismatch_disagrees(e: Seq<BattleSnapshot>, a: Seq<BattleSnapshot>, m: BattleConformanceMismatch)
    requires
        battle_trace_comparison(e, a, Err(m)),
    ensures
        !(e.len() == a.len() && battle_prefix_agrees(e, a, e.len() as int)),
{
    match m {
        BattleConformanceMismatch::Frame(f) => {
            lemma_battle_difference_disagrees(e[f.index as int], a[f.index as int], f.difference);
        },
        BattleConformanceMismatch::TraceLength { .. } => {},
    }
}

fn repeat_id(ids: &mut Vec<String>, id: &String, claims: &Vec<MechanicClaim>, claim: MechanicClaim)
    ensures
        final(ids)@.map_values(|s: String| s@) == old(ids)@.map_values(|s: String| s@) + Seq::new(
            claim_occurrences(claims@, claim, claims@.len()),
            |i: int| id@,
        ),
{
    let ghost start = old(ids)@.map_values(|s: String| s@);
    let mut i: usize = 0;
    while i < claims.len()
        invariant
            i <= claims@.len(),
            ids@.map_values(|s: String| s@) == start + Seq::new(
                claim_occurrences(claims@, claim, i as nat),
                |j: int| id@,
            ),
        decreases claims@.len() - i,
    {
        if claims[i] == claim {
            let ghost before = ids@;
            ids.push(id.clone());
            proof {
                assert(ids@.map_values(|s: String| s@) =~= before.map_values(|s: String| s@).push(id@));
                assert(start + Seq::new(claim_occurrences(claims@, claim, (i + 1) as nat), |j: int| id@) =~= (start
                    + Seq::new(claim_occurrences(claims@, claim, i as nat), |j: int| id@)).push(id@));
            }
        } else {
            proof {
                assert(Seq::new(claim_occurrences(claims@, claim, (i + 1) as nat), |j: int| id@) =~= Seq::new(
                    claim_occurrences(claims@, claim, i as nat),
                    |j: int| id@,
                ));
            }
        }
        i += 1;
    }
}

fn covering_ids_of(
    target: &String,
    cases: &[FunctionalConformanceCase],
    passing: &Vec<bool>,
    claim: MechanicClaim,
) -> (r: Vec<String>)
    requires
        passing@.len() == cases@.len(),
        forall|k: int| 0 <= k < cases@.len() ==> passing@[k] == case_passes(target@, cases@, k),
    ensures
        r@.map_values(|s: String| s@) == covering_ids(target@, cases@, claim, cases@.len()),
{
    let mut ids: Vec<String> = Vec::new();
    let mut k: usize = 0;
    while k < cases.len()
        invariant
            k <= cases@.len(),
            passing@.len() == cases@.len(),
            forall|i: int| 0 <= i < cases@.len() ==> passing@[i] == case_passes(target@, cases@, i),
            ids@.map_values(|s: String| s@) == covering_ids(target@, cases@, claim, k as nat),
        decreases cases@.len() - k,
    {
        if passing[k] {
            repeat_id(&mut ids, &cases[k].id, &cases[k].claims, claim);
        } else {
            proof {
                assert(covering_ids(target@, cases@, claim, (k + 1) as nat) =~= covering_ids(
                    target@,
                    cases@,
                    claim,
                    k as nat,
                ));
            }
        }
        k += 1;
    }
    ids
}

pub fn evaluate_functional_conformance_with_policy(
    target_profile: &str,
    cases: &[FunctionalConformanceCase<'_>],
    policy: FunctionalConformancePolicy,
) -> (r: FunctionalConformanceReport)
    requires
        frames_compared(target_profile@, cases@, cases@.len()) <= usize::MAX,
    ensures
        report_fits(target_profile@, cases@, policy.minimum_randomized_battle_cases, r),
{
    let target = target_profile.to_owned();
    let ghost t = target_profile@;
    let ghost cs = cases@;
    let mut passing: Vec<bool> = Vec::new();
    let mut failures: Vec<FunctionalCaseFailure> = Vec::new();
    let mut compared_cases: usize = 0;
    let mut compared_frames: usize = 0;
    let mut randomized_battle_cases: usize = 0;
    let mut k: usize = 0;
    while k < cases.len()
        invariant
            target@ == t,
            cs == cases@,
            frames_compared(t, cs, cs.len()) <= usize::MAX,
            k <= cs.len(),
            passing@.len() == k,
            forall|i: int| 0 <= i < k ==> passing@[i] == case_passes(t, cs, i),
            compared_cases == valid_count(t, cs, k as nat),
            compared_frames == frames_compared(t, cs, k as nat),
            randomized_battle_cases == randomized_passing(t, cs, k as nat),
            failures@.len() == failing_count(t, cs, k as nat),
            forall|i: int|
                0 <= i < k && !case_passes(t, cs, i) ==> failure_fits(
                    t,
                    cs,
                    i,
                    #[trigger] failures@[failing_count(t, cs, i as nat) as int],
                ),
        decreases cs.len() - k,
    {
        proof {
            lemma_frames_monotone(t, cs, (k + 1) as nat, cs.len());
            lemma_counts_bounded(t, cs, (k + 1) as nat);
        }
        let case = &cases[k];
        let ghost fails_before = failures@;
        if let Some(reason) = validate_case(&target, cases, k) {
            failures.push(FunctionalCaseFailure::Invalid { case_id: case.id.clone(), reason });
            passing.push(false);
        } else {
            let paired = match case.trace {
                ReferenceTrace::Solo { expected, actual } => if expected.len() <= actual.len() {
                    expected.len()
                } else {
                    actual.len()
                },
                ReferenceTrace::Battle { expected, actual } => if expected.len() <= actual.len() {
                    expected.len()
                } else {
                    actual.len()
                },
            };
            compared_frames = compared_frames + paired;
            compared_cases = compared_cases + 1;
            let outcome = match case.trace {
                ReferenceTrace::Solo { expected, actual } => match compare_traces(expected, actual) {
                    Ok(()) => None,
                    Err(mismatch) => {
                        proof {
                            lemma_solo_mismatch_disagrees(expected@, actual@, mismatch);
                        }
                        Some(FunctionalCaseFailure::SoloMismatch { case_id: case.id.clone(), mismatch })
                    },
                },
                ReferenceTrace::Battle { expected, actual } => match compare_battle_traces(expected, actual) {
                    Ok(()) => None,
                    Err(mismatch) => {
                        proof {
                            lemma_battle_mismatch_disagrees(expected@, actual@, mismatch);
                        }
                        Some(FunctionalCaseFailure::BattleMismatch { case_id: case.id.clone(), mismatch })
                    },
                },
            };
            match outcome {
                None => {
                    if case.kind == FunctionalCaseKind::RandomizedBattle {
                        randomized_battle_cases = randomized_battle_cases + 1;
                    }
                    passing.push(true);
                },
                Some(failure) => {
                    failures.push(failure);
                    passing.push(false);
                },
            }
        }
        proof {
            assert forall|i: int|
                0 <= i < k + 1 && !case_passes(t, cs, i) implies failure_fits(
                t,
                cs,
                i,
                #[trigger] failures@[failing_count(t, cs, i as nat) as int],
            ) by {
                if i < k {
                    lemma_failing_monotone(t, cs, (i + 1) as nat, k as nat);
                    assert(failures@[failing_count(t, cs, i as nat) as int] == fails_before[failing_count(
                        t,
                        cs,
                        i as nat,
                    ) as int]);
                }
            }
        }
        k += 1;
    }
    let mut coverage: Vec<ClaimCoverage> = Vec::new();
    let mut missing_claims: Vec<MechanicClaim> = Vec::new();
    let mut c: usize = 0;
    while c < 20
        invariant
            target@ == t,
            cs == cases@,
            c <= 20,
            passing@.len() == cs.len(),
            forall|i: int| 0 <= i < cs.len() ==> passing@[i] == case_passes(t, cs, i),
            coverage@.len() == c,
            forall|j: int|
                0 <= j < c ==> {
                    &&& (#[trigger] coverage@[j]).claim == REQUIRED_MECHANIC_CLAIMS@[j]
                    &&& coverage@[j].passing_case_ids@.map_values(|s: String| s@) == covering_ids(
                        t,
                        cs,
                        REQUIRED_MECHANIC_CLAIMS@[j],
                        cs.len(),
                    )
                },
            missing_claims@ == uncovered_claims(t, cs, c as nat),
        decreases 20 - c,
    {
        let claim = REQUIRED_MECHANIC_CLAIMS[c];
        let ids = covering_ids_of(&target, cases, &passing, claim);
        if ids.len() == 0 {
            missing_claims.push(claim);
        }
        coverage.push(ClaimCoverage { claim, passing_case_ids: ids });
        c += 1;
    }
    let status = if failures.len() > 0 {
        FunctionalConformanceStatus::Divergent
    } else if missing_claims.len() > 0 || randomized_battle_cases < policy.minimum_randomized_battle_cases {
        FunctionalConformanceStatus::Incomplete
    } else {
        FunctionalConformanceStatus::Conformant
    };
    FunctionalConformanceReport {
        target_profile: target,
        status,
        compared_cases,
        compared_frames,
        randomized_battle_cases,
        required_randomized_battle_cases: policy.minimum_randomized_battle_cases,
        coverage,
        missing_claims,
        failures,
    }
}

} // verus!
