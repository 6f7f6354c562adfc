//! Normalized reference fixtures: a manifest and the exact trace bytes it
//! hashes, checked field by field before they become reference traces.
use vstd::prelude::*;
use vstd::string::*;
use crate::board::{HEIGHT, WIDTH};
use crate::conformance::{blank, claim_named, hex_digit, is_sha256, needs_battle, sha256_text, text_is_blank};
use crate::conformance::{FunctionalCaseKind, FunctionalConformanceCase, MechanicClaim, ReferenceEvidence, ReferenceTrace};
use crate::piece::{Orientation, PieceKind, PieceState};
use crate::playground::string_named;
use crate::replay::{FrameSnapshot, TimingSnapshot};
use crate::replay_battle::{BattleEventsSnapshot, BattlePlayerEventsSnapshot, BattlePlayerSnapshot, BattleSnapshot};
use crate::rotation::RotationDirection;
use crate::solo::{sha256_digest, sha256_hex};
use crate::text::{append_decimal, decimal, hex_bytes};
use crate::timing::LastAction;
use crate::topout::TopOutReason;
use crate::versus::{
    AttackMultiplier, AttackOutcome, AttackPacket, AttackPacketKind, AttackPackets, AttackState, BattleResult,
    GarbageCancellationOutcome, GarbageInsertionOutcome, IncomingGarbagePacket, finite_bits, kept_packets,
};

verus! {

pub const NORMALIZED_TRACE_SCHEMA_VERSION: u16 = 1;

#[derive(Clone, Copy, Debug, PartialEq, Eq, Structural)]
pub enum NormalizedDocument {
    Manifest,
    Trace,
}

pub open spec fn document_name(d: NormalizedDocument) -> Seq<char> {
    match d {
        NormalizedDocument::Manifest => "manifest"@,
        NormalizedDocument::Trace => "trace"@,
    }
}

impl NormalizedDocument {
    /// The document's name as error messages show it.
    pub fn name(&self) -> (r: &'static str)
        ensures
            r@ == document_name(*self),
    {
        match self {
            NormalizedDocument::Manifest => "manifest",
            NormalizedDocument::Trace => "trace",
        }
    }
}

#[derive(Clone, Debug, PartialEq, Eq)]
pub enum NormalizedFixtureError {
    Json { document: NormalizedDocument, message: String },
    UnsupportedSchema { document: NormalizedDocument, actual: u16 },
    InvalidSha256 { field: &'static str },
    TraceHashMismatch { expected: String, actual: String },
    InvalidField { field: String, reason: &'static str },
    TraceKindMismatch { reason: &'static str },
    ActualTraceKindMismatch { expected: &'static str, actual: &'static str },
}

impl NormalizedFixtureError {
    /// The message as text.
    pub open spec fn text(&self) -> Seq<char> {
        match self {
            NormalizedFixtureError::Json { document, message } => "invalid "@ + document_name(*document) + " JSON: "@
                + message@,
            NormalizedFixtureError::UnsupportedSchema { document, actual } => "unsupported "@ + document_name(*document)
                + " schema "@ + decimal(*actual as nat) + "; expected "@ + decimal(NORMALIZED_TRACE_SCHEMA_VERSION as nat),
            NormalizedFixtureError::InvalidSha256 { field } => field@ + " must be exactly 64 hexadecimal characters"@,
            NormalizedFixtureError::TraceHashMismatch { expected, actual } => "trace_sha256 mismatch: expected "@
                + expected@ + ", calculated "@ + actual@,
            NormalizedFixtureError::InvalidField { field, reason } => "invalid field "@ + field@ + ": "@ + reason@,
            NormalizedFixtureError::TraceKindMismatch { reason } => reason@,
            NormalizedFixtureError::ActualTraceKindMismatch { expected, actual } => "fixture contains "@ + expected@
                + " trace, not "@ + actual@,
        }
    }

    /// The error as a sentence.
    pub fn message(&self) -> (r: String)
        ensures
            r@ == self.text(),
    {
        match self {
            NormalizedFixtureError::Json { document, message } => {
                let mut s = String::from_str("invalid ");
                s.append(document.name());
                s.append(" JSON: ");
                s.append(message.as_str());
                s
            },
            NormalizedFixtureError::UnsupportedSchema { document, actual } => {
                let mut s = String::from_str("unsupported ");
                s.append(document.name());
                s.append(" schema ");
                append_decimal(&mut s, *actual as u64);
                s.append("; expected ");
                append_decimal(&mut s, NORMALIZED_TRACE_SCHEMA_VERSION as u64);
                s
            },
            NormalizedFixtureError::InvalidSha256 { field } => {
                let mut s = String::from_str(field);
                s.append(" must be exactly 64 hexadecimal characters");
                s
            },
            NormalizedFixtureError::TraceHashMismatch { expected, actual } => {
                let mut s = String::from_str("trace_sha256 mismatch: expected ");
                s.append(expected.as_str());
                s.append(", calculated ");
                s.append(actual.as_str());
                s
            },
            NormalizedFixtureError::InvalidField { field, reason } => {
                let mut s = String::from_str("invalid field ");
                s.append(field.as_str());
                s.append(": ");
                s.append(reason);
                s
            },
            NormalizedFixtureError::TraceKindMismatch { reason } => String::from_str(reason),
            NormalizedFixtureError::ActualTraceKindMismatch { expected, actual } => {
                let mut s = String::from_str("fixture contains ");
                s.append(expected);
                s.append(" trace, not ");
                s.append(actual);
                s
            },
        }
    }
}

/// `r` is the invalid-field error naming `field` for `reason`.
pub open spec fn invalid_field<T>(r: Result<T, NormalizedFixtureError>, field: Seq<char>, reason: &'static str) -> bool {
    r matches Err(NormalizedFixtureError::InvalidField { field: f, reason: m }) && f@ == field && m == reason
}

/// A field path followed by an index in square brackets.
pub open spec fn indexed(path: Seq<char>, index: nat) -> Seq<char> {
    path + "["@ + decimal(index) + "]"@
}

fn join(path: &String, suffix: &str) -> (r: String)
    ensures
        r@ == path@ + suffix@,
{
    let mut s = path.clone();
    s.append(suffix);
    s
}

fn at(path: &String, index: usize) -> (r: String)
    ensures
        r@ == indexed(path@, index as nat),
{
    let mut s = path.clone();
    s.append("[");
    append_decimal(&mut s, index as u64);
    s.append("]");
    s
}

fn invalid<T>(field: String, reason: &'static str) -> (r: Result<T, NormalizedFixtureError>)
    ensures
        invalid_field(r, field@, reason),
{
    Err(NormalizedFixtureError::InvalidField { field, reason })
}

pub open spec fn piece_kind_named(s: Seq<char>) -> Option<PieceKind> {
    if s == "I"@ {
        Some(PieceKind::I)
    } else if s == "J"@ {
        Some(PieceKind::J)
    } else if s == "L"@ {
        Some(PieceKind::L)
    } else if s == "O"@ {
        Some(PieceKind::O)
    } else if s == "S"@ {
        Some(PieceKind::S)
    } else if s == "T"@ {
        Some(PieceKind::T)
    } else if s == "Z"@ {
        Some(PieceKind::Z)
    } else {
        None
    }
}

fn parse_piece_kind(value: &String, field: String) -> (r: Result<PieceKind, NormalizedFixtureError>)
    ensures
        match piece_kind_named(value@) {
            Some(k) => r == Ok::<PieceKind, NormalizedFixtureError>(k),
            None => invalid_field(r, field@, "unknown piece kind"),
        },
{
    if string_named(value, "I") {
        Ok(PieceKind::I)
    } else if string_named(value, "J") {
        Ok(PieceKind::J)
    } else if string_named(value, "L") {
        Ok(PieceKind::L)
    } else if string_named(value, "O") {
        Ok(PieceKind::O)
    } else if string_named(value, "S") {
        Ok(PieceKind::S)
    } else if string_named(value, "T") {
        Ok(PieceKind::T)
    } else if string_named(value, "Z") {
        Ok(PieceKind::Z)
    } else {
        invalid(field, "unknown piece kind")
    }
}

pub open spec fn orientation_named(s: Seq<char>) -> Option<Orientation> {
    if s == "spawn"@ {
        Some(Orientation::Spawn)
    } else if s == "right"@ {
        Some(Orientation::Right)
    } else if s == "reverse"@ {
        Some(Orientation::Reverse)
    } else if s == "left"@ {
        Some(Orientation::Left)
    } else {
        None
    }
}

fn parse_orientation(value: &String, field: String) -> (r: Result<Orientation, NormalizedFixtureError>)
    ensures
        match orientation_named(value@) {
            Some(o) => r == Ok::<Orientation, NormalizedFixtureError>(o),
            None => invalid_field(r, field@, "unknown orientation"),
        },
{
    if string_named(value, "spawn") {
        Ok(Orientation::Spawn)
    } else if string_named(value, "right") {
        Ok(Orientation::Right)
    } else if string_named(value, "reverse") {
        Ok(Orientation::Reverse)
    } else if string_named(value, "left") {
        Ok(Orientation::Left)
    } else {
        invalid(field, "unknown orientation")
    }
}

pub open spec fn rotation_named(s: Seq<char>) -> Option<RotationDirection> {
    if s == "clockwise"@ {
        Some(RotationDirection::Clockwise)
    } else if s == "counterclockwise"@ {
        Some(RotationDirection::Counterclockwise)
    } else if s == "half"@ {
        Some(RotationDirection::Half)
    } else {
        None
    }
}

fn parse_rotation_direction(value: &String, field: String) -> (r: Result<RotationDirection, NormalizedFixtureError>)
    ensures
        match rotation_named(value@) {
            Some(d) => r == Ok::<RotationDirection, NormalizedFixtureError>(d),
            None => invalid_field(r, field@, "unknown rotation direction"),
        },
{
    if string_named(value, "clockwise") {
        Ok(RotationDirection::Clockwise)
    } else if string_named(value, "counterclockwise") {
        Ok(RotationDirection::Counterclockwise)
    } else if string_named(value, "half") {
        Ok(RotationDirection::Half)
    } else {
        invalid(field, "unknown rotation direction")
    }
}

pub open spec fn top_out_named(s: Seq<char>) -> Option<TopOutReason> {
    if s == "block_out"@ {
        Some(TopOutReason::BlockOut)
    } else if s == "lock_out"@ {
        Some(TopOutReason::LockOut)
    } else if s == "partial_lock_out"@ {
        Some(TopOutReason::PartialLockOut)
    } else if s == "garbage_out"@ {
        Some(TopOutReason::GarbageOut)
    } else {
        None
    }
}

fn parse_top_out(value: &String, field: String) -> (r: Result<TopOutReason, NormalizedFixtureError>)
    ensures
        match top_out_named(value@) {
            Some(t) => r == Ok::<TopOutReason, NormalizedFixtureError>(t),
            None => invalid_field(r, field@, "unknown top-out reason"),
        },
{
    if string_named(value, "block_out") {
        Ok(TopOutReason::BlockOut)
    } else if string_named(value, "lock_out") {
        Ok(TopOutReason::LockOut)
    } else if string_named(value, "partial_lock_out") {
        Ok(TopOutReason::PartialLockOut)
    } else if string_named(value, "garbage_out") {
        Ok(TopOutReason::GarbageOut)
    } else {
        invalid(field, "unknown top-out reason")
    }
}

pub open spec fn packet_kind_named(s: Seq<char>) -> Option<AttackPacketKind> {
    if s == "surge"@ {
        Some(AttackPacketKind::Surge)
    } else if s == "clear"@ {
        Some(AttackPacketKind::Clear)
    } else if s == "perfect_clear"@ {
        Some(AttackPacketKind::PerfectClear)
    } else {
        None
    }
}

fn parse_attack_packet_kind(value: &String, field: String) -> (r: Result<AttackPacketKind, NormalizedFixtureError>)
    ensures
        match packet_kind_named(value@) {
            Some(k) => r == Ok::<AttackPacketKind, NormalizedFixtureError>(k),
            None => invalid_field(r, field@, "unknown attack packet kind"),
        },
{
    if string_named(value, "surge") {
        Ok(AttackPacketKind::Surge)
    } else if string_named(value, "clear") {
        Ok(AttackPacketKind::Clear)
    } else if string_named(value, "perfect_clear") {
        Ok(AttackPacketKind::PerfectClear)
    } else {
        invalid(field, "unknown attack packet kind")
    }
}

pub open spec fn battle_result_named(s: Seq<char>) -> Option<BattleResult> {
    if s == "ongoing"@ {
        Some(BattleResult::Ongoing)
    } else if s == "player_one_win"@ {
        Some(BattleResult::PlayerOneWin)
    } else if s == "player_two_win"@ {
        Some(BattleResult::PlayerTwoWin)
    } else if s == "draw"@ {
        Some(BattleResult::Draw)
    } else {
        None
    }
}

fn parse_battle_result(value: &String, field: String) -> (r: Result<BattleResult, NormalizedFixtureError>)
    ensures
        match battle_result_named(value@) {
            Some(b) => r == Ok::<BattleResult, NormalizedFixtureError>(b),
            None => invalid_field(r, field@, "unknown battle result"),
        },
{
    if string_named(value, "ongoing") {
        Ok(BattleResult::Ongoing)
    } else if string_named(value, "player_one_win") {
        Ok(BattleResult::PlayerOneWin)
    } else if string_named(value, "player_two_win") {
        Ok(BattleResult::PlayerTwoWin)
    } else if string_named(value, "draw") {
        Ok(BattleResult::Draw)
    } else {
        invalid(field, "unknown battle result")
    }
}

pub open spec fn case_kind_named(s: Seq<char>) -> Option<FunctionalCaseKind> {
    if s == "boundary"@ {
        Some(FunctionalCaseKind::Boundary)
    } else if s == "randomized_battle"@ {
        Some(FunctionalCaseKind::RandomizedBattle)
    } else {
        None
    }
}

fn parse_case_kind(value: &String) -> (r: Result<FunctionalCaseKind, NormalizedFixtureError>)
    ensures
        match case_kind_named(value@) {
            Some(k) => r == Ok::<FunctionalCaseKind, NormalizedFixtureError>(k),
            None => invalid_field(r, "case_kind"@, "unknown case kind"),
        },
{
    if string_named(value, "boundary") {
        Ok(FunctionalCaseKind::Boundary)
    } else if string_named(value, "randomized_battle") {
        Ok(FunctionalCaseKind::RandomizedBattle)
    } else {
        invalid(String::from_str("case_kind"), "unknown case kind")
    }
}

/// The value of a hexadecimal digit.
pub open spec fn hex_value(c: char) -> nat {
    if '0' <= c <= '9' {
        (c as nat - '0' as nat) as nat
    } else if 'a' <= c <= 'f' {
        (c as nat - 'a' as nat + 10) as nat
    } else {
        (c as nat - 'A' as nat + 10) as nat
    }
}

/// The number that a run of hexadecimal digits writes, most significant first.
pub open spec fn hex_number(s: Seq<char>) -> nat
    decreases s.len(),
{
    if s.len() == 0 {
        0
    } else {
        hex_number(s.drop_last()) * 16 + hex_value(s.last())
    }
}

/// `0x` followed by exactly sixteen hexadecimal digits.
pub open spec fn bits_text(s: Seq<char>) -> bool {
    &&& s.len() == 18
    &&& s[0] == '0'
    &&& s[1] == 'x'
    &&& forall|i: int| 2 <= i < 18 ==> hex_digit(#[trigger] s[i])
}

/// Sixteen to the power `n`.
pub open spec fn p16(n: nat) -> nat
    decreases n,
{
    if n == 0 {
        1
    } else {
        16 * p16((n - 1) as nat)
    }
}

proof fn lemma_p16_monotone(m: nat, n: nat)
    requires
        m <= n,
    ensures
        p16(m) <= p16(n),
    decreases n,
{
    if m < n {
        lemma_p16_monotone(m, (n - 1) as nat);
    }
}

fn parse_bits(value: &String, field: String) -> (r: Result<u64, NormalizedFixtureError>)
    ensures
        bits_text(value@) ==> r == Ok::<u64, NormalizedFixtureError>(hex_number(value@.subrange(2, 18)) as u64)
            && hex_number(value@.subrange(2, 18)) <= u64::MAX,
        !bits_text(value@) ==> invalid_field(r, field@, "expected 0x followed by 16 hex digits"),
{
    let text = value.as_str();
    let n = text.unicode_len();
    if n != 18 || text.get_char(0) != '0' || text.get_char(1) != 'x' {
        return invalid(field, "expected 0x followed by 16 hex digits");
    }
    let mut acc: u64 = 0;
    let mut i: usize = 2;
    proof {
        assert(value@.subrange(2, 2) =~= Seq::<char>::empty());
        assert(p16(15) == 0x1000_0000_0000_0000) by {
            reveal_with_fuel(p16, 16);
        }
    }
    while i < 18
        invariant
            2 <= i <= 18,
            text@ == value@,
            value@.len() == 18,
            value@[0] == '0',
            value@[1] == 'x',
            forall|j: int| 2 <= j < i ==> hex_digit(#[trigger] value@[j]),
            acc == hex_number(value@.subrange(2, i as int)),
            acc < p16((i - 2) as nat),
            p16(15) == 0x1000_0000_0000_0000,
        decreases 18 - i,
    {
        let c = text.get_char(i);
        let d: u64 = if '0' <= c && c <= '9' {
            (c as u64) - ('0' as u64)
        } else if 'a' <= c && c <= 'f' {
            (c as u64) - ('a' as u64) + 10
        } else if 'A' <= c && c <= 'F' {
            (c as u64) - ('A' as u64) + 10
        } else {
            return invalid(field, "expected 0x followed by 16 hex digits");
        };
        proof {
            let s = value@.subrange(2, i + 1);
            assert(s.drop_last() =~= value@.subrange(2, i as int));
            assert(s.last() == c);
            assert(d == hex_value(c));
            lemma_p16_monotone((i - 2) as nat, 15);
            assert(p16((i + 1 - 2) as nat) == 16 * p16((i - 2) as nat));
        }
        acc = acc * 16 + d;
        i += 1;
    }
    Ok(acc)
}

/// Sixty-four hexadecimal digits, or the error that names the field.
fn require_sha256(value: &String, field: &'static str) -> (r: Result<(), NormalizedFixtureError>)
    ensures
        sha256_text(value@) ==> r is Ok,
        !sha256_text(value@) ==> r == Err::<(), NormalizedFixtureError>(NormalizedFixtureError::InvalidSha256 { field }),
{
    if is_sha256(value) {
        Ok(())
    } else {
        Err(NormalizedFixtureError::InvalidSha256 { field })
    }
}

fn validate_nonempty(value: &String, field: &str) -> (r: Result<(), NormalizedFixtureError>)
    ensures
        !blank(value@) ==> r is Ok,
        blank(value@) ==> invalid_field(r, field@, "value must not be blank"),
{
    if text_is_blank(value) {
        invalid(String::from_str(field), "value must not be blank")
    } else {
        Ok(())
    }
}

/// The first index below `n` at which `p` holds.
pub open spec fn first_where(n: nat, p: spec_fn(int) -> bool) -> Option<nat>
    decreases n,
{
    if n == 0 {
        None
    } else {
        match first_where((n - 1) as nat, p) {
            Some(k) => Some(k),
            None => if p(n - 1) {
                Some((n - 1) as nat)
            } else {
                None
            },
        }
    }
}

proof fn lemma_first_where(n: nat, p: spec_fn(int) -> bool)
    ensures
        first_where(n, p) is None <==> forall|j: int| 0 <= j < n ==> !#[trigger] p(j),
        first_where(n, p) matches Some(k) ==> k < n && p(k as int) && forall|j: int| 0 <= j < k ==> !#[trigger] p(j),
    decreases n,
{
    if n > 0 {
        lemma_first_where((n - 1) as nat, p);
    }
}

/// `p` fails below `i` and holds at `i`: `i` is the first index where it holds.
proof fn lemma_first_where_at(n: nat, p: spec_fn(int) -> bool, i: nat)
    requires
        i < n,
        p(i as int),
        forall|j: int| 0 <= j < i ==> !#[trigger] p(j),
    ensures
        first_where(n, p) == Some(i),
{
    lemma_first_where(n, p);
    if let Some(k) = first_where(n, p) {
        if k < i {
            assert(!p(k as int));
        }
    }
}

#[derive(Clone, Debug, PartialEq, Eq)]
pub struct WireManifest {
    pub schema_version: u16,
    pub case_id: String,
    pub case_kind: String,
    pub target_profile: String,
    pub reference_build: String,
    pub source: String,
    pub source_artifact_sha256: String,
    pub trace_sha256: String,
    pub claims: Vec<String>,
}

#[derive(Clone, Debug, PartialEq, Eq)]
pub enum WireTrace {
    Solo { schema_version: u16, snapshots: Vec<WireFrameSnapshot> },
    Battle { schema_version: u16, snapshots: Vec<WireBattleSnapshot> },
}

#[derive(Clone, Debug, PartialEq, Eq)]
pub struct WireFrameSnapshot {
    pub frame: u64,
    pub board_rows: Vec<u16>,
    pub garbage_rows: Vec<u16>,
    pub active: WirePieceState,
    pub hold: Option<String>,
    pub preview: Vec<String>,
    pub top_out: Option<String>,
    pub timing: Option<WireTimingSnapshot>,
}

#[derive(Clone, Debug, PartialEq, Eq)]
pub struct WirePieceState {
    pub kind: String,
    pub orientation: String,
    pub x: i16,
    pub y: i16,
}

#[derive(Clone, Debug, PartialEq, Eq)]
pub struct WireTimingSnapshot {
    pub fall_fraction_micros: u32,
    pub lock_elapsed_frames: u16,
    pub lock_resets_used: u16,
    pub locked: bool,
    pub last_action: WireLastAction,
}

#[derive(Clone, Debug, PartialEq, Eq)]
pub enum WireLastAction {
    NoAction,
    Translation,
    SoftDrop,
    HardDrop,
    Rotation { direction: String, kick_index: u8 },
}

#[derive(Clone, Debug, PartialEq, Eq)]
pub struct WireBattleSnapshot {
    pub frame: u64,
    pub player_one: WireBattlePlayerSnapshot,
    pub player_two: WireBattlePlayerSnapshot,
    pub garbage_multiplier_bits: String,
    pub result: String,
    pub events: Option<WireBattleEventsSnapshot>,
}

#[derive(Clone, Debug, PartialEq, Eq)]
pub struct WireBattlePlayerSnapshot {
    pub game: WireFrameSnapshot,
    pub attack: WireAttackState,
    pub incoming: Vec<WireIncomingGarbagePacket>,
    pub sent_lines: u64,
}

#[derive(Clone, Copy, Debug, PartialEq, Eq)]
pub struct WireAttackState {
    pub combo: u32,
    pub back_to_back: u32,
}

#[derive(Clone, Copy, Debug, PartialEq, Eq)]
pub struct WireIncomingGarbagePacket {
    pub lines: u32,
    pub hole_column: Option<u8>,
    pub ready_at_frame: u64,
    pub hardened: bool,
}

#[derive(Clone, Debug, PartialEq, Eq)]
pub struct WireBattleEventsSnapshot {
    pub frame: u64,
    pub player_one: WireBattlePlayerEventsSnapshot,
    pub player_two: WireBattlePlayerEventsSnapshot,
    pub result: String,
}

#[derive(Clone, Debug, PartialEq, Eq)]
pub struct WireBattlePlayerEventsSnapshot {
    pub attack: Option<WireAttackOutcome>,
    pub cancellation: Option<WireGarbageCancellationOutcome>,
    pub insertion: Option<WireGarbageInsertionOutcome>,
    pub transmitted: Vec<WireAttackPacket>,
}

#[derive(Clone, Debug, PartialEq, Eq)]
pub struct WireAttackOutcome {
    pub state: WireAttackState,
    pub packets: Vec<WireAttackPacket>,
    pub base_attack: u32,
    pub clear_attack: u32,
    pub back_to_back_bonus: u32,
    pub special_bonus: u32,
    pub surge_attack: u32,
    pub perfect_clear_attack: u32,
    pub difficult: bool,
    pub back_to_back: bool,
}

#[derive(Clone, Debug, PartialEq, Eq)]
pub struct WireAttackPacket {
    pub kind: String,
    pub lines: u32,
}

#[derive(Clone, Debug, PartialEq, Eq)]
pub struct WireGarbageCancellationOutcome {
    pub outgoing: Vec<WireAttackPacket>,
    pub attack_cancelled: u32,
    pub opener_bonus_cancelled: u32,
    pub sent_lines_after: u64,
}

#[derive(Clone, Copy, Debug, PartialEq, Eq)]
pub struct WireGarbageInsertionOutcome {
    pub inserted: u8,
    pub overflowed_buffer: bool,
    pub blocked_by_clear: bool,
}

/// A row with a cell past the board's width.
pub open spec fn wide_row(r: u16) -> bool {
    r >= 0x400
}

/// The first problem of a list of board rows: its length, then a row with
/// cells outside the board.
pub open spec fn rows_error(rows: Seq<u16>, path: Seq<char>) -> Option<(Seq<char>, &'static str)> {
    if rows.len() != HEIGHT {
        Some((path, "row count must equal engine board height"))
    } else {
        match first_where(HEIGHT as nat, |i: int| wide_row(rows[i])) {
            Some(i) => Some((indexed(path, i), "row contains bits outside the board width")),
            None => None,
        }
    }
}

fn convert_rows(rows: &Vec<u16>, path: &String) -> (r: Result<[u16; HEIGHT], NormalizedFixtureError>)
    ensures
        match rows_error(rows@, path@) {
            Some(e) => invalid_field(r, e.0, e.1),
            None => r matches Ok(a) && a@ == rows@,
        },
{
    if rows.len() != HEIGHT {
        return invalid(path.clone(), "row count must equal engine board height");
    }
    let ghost p = |i: int| wide_row(rows@[i]);
    let mut out = [0u16; HEIGHT];
    let mut i: usize = 0;
    while i < HEIGHT
        invariant
            i <= HEIGHT,
            rows@.len() == HEIGHT,
            p == (|i: int| wide_row(rows@[i])),
            forall|j: int| 0 <= j < i ==> !#[trigger] p(j),
            forall|j: int| 0 <= j < i ==> out@[j] == rows@[j],
            out@.len() == HEIGHT,
        decreases HEIGHT - i,
    {
        if rows[i] >= 0x400 {
            proof {
                lemma_first_where_at(HEIGHT as nat, p, i as nat);
            }
            return invalid(at(path, i), "row contains bits outside the board width");
        }
        out[i] = rows[i];
        i += 1;
    }
    proof {
        lemma_first_where(HEIGHT as nat, p);
        assert(out@ =~= rows@);
    }
    Ok(out)
}

pub open spec fn piece_error(w: WirePieceState, path: Seq<char>) -> Option<(Seq<char>, &'static str)> {
    if piece_kind_named(w.kind@) is None {
        Some((path + ".kind"@, "unknown piece kind"))
    } else if orientation_named(w.orientation@) is None {
        Some((path + ".orientation"@, "unknown orientation"))
    } else {
        None
    }
}

pub open spec fn piece_of(w: WirePieceState) -> PieceState {
    PieceState {
        kind: piece_kind_named(w.kind@)->Some_0,
        orientation: orientation_named(w.orientation@)->Some_0,
        x: w.x,
        y: w.y,
    }
}

fn convert_piece(w: &WirePieceState, path: &String) -> (r: Result<PieceState, NormalizedFixtureError>)
    ensures
        match piece_error(*w, path@) {
            Some(e) => invalid_field(r, e.0, e.1),
            None => r == Ok::<PieceState, NormalizedFixtureError>(piece_of(*w)),
        },
{
    let kind = parse_piece_kind(&w.kind, join(path, ".kind"))?;
    let orientation = parse_orientation(&w.orientation, join(path, ".orientation"))?;
    Ok(PieceState { kind, orientation, x: w.x, y: w.y })
}

pub open spec fn timing_error(w: WireTimingSnapshot, path: Seq<char>) -> Option<(Seq<char>, &'static str)> {
    if w.fall_fraction_micros >= 1_000_000 {
        Some((path + ".fall_fraction_micros"@, "fraction must be below 1000000"))
    } else {
        match w.last_action {
            WireLastAction::Rotation { direction, kick_index } => if rotation_named(direction@) is None {
                Some((path + ".last_action.direction"@, "unknown rotation direction"))
            } else {
                None
            },
            _ => None,
        }
    }
}

pub open spec fn last_action_of(w: WireLastAction) -> LastAction {
    match w {
        WireLastAction::NoAction => LastAction::NoAction,
        WireLastAction::Translation => LastAction::Translation,
        WireLastAction::SoftDrop => LastAction::SoftDrop,
        WireLastAction::HardDrop => LastAction::HardDrop,
        WireLastAction::Rotation { direction, kick_index } => LastAction::Rotation {
            direction: rotation_named(direction@)->Some_0,
            kick_index,
        },
    }
}

pub open spec fn timing_of(w: WireTimingSnapshot) -> TimingSnapshot {
    TimingSnapshot {
        fall_fraction_micros: w.fall_fraction_micros,
        lock_elapsed_frames: w.lock_elapsed_frames,
        lock_resets_used: w.lock_resets_used,
        locked: w.locked,
        last_action: last_action_of(w.last_action),
    }
}

fn convert_timing(w: &WireTimingSnapshot, path: &String) -> (r: Result<TimingSnapshot, NormalizedFixtureError>)
    ensures
        match timing_error(*w, path@) {
            Some(e) => invalid_field(r, e.0, e.1),
            None => r == Ok::<TimingSnapshot, NormalizedFixtureError>(timing_of(*w)),
        },
{
    if w.fall_fraction_micros >= 1_000_000 {
        return invalid(join(path, ".fall_fraction_micros"), "fraction must be below 1000000");
    }
    let last_action = match &w.last_action {
        WireLastAction::NoAction => LastAction::NoAction,
        WireLastAction::Translation => LastAction::Translation,
        WireLastAction::SoftDrop => LastAction::SoftDrop,
        WireLastAction::HardDrop => LastAction::HardDrop,
        WireLastAction::Rotation { direction, kick_index } => LastAction::Rotation {
            direction: parse_rotation_direction(direction, join(path, ".last_action.direction"))?,
            kick_index: *kick_index,
        },
    };
    Ok(
        TimingSnapshot {
            fall_fraction_micros: w.fall_fraction_micros,
            lock_elapsed_frames: w.lock_elapsed_frames,
            lock_resets_used: w.lock_resets_used,
            locked: w.locked,
            last_action,
        },
    )
}

/// A garbage row with a cell that the board row does not hold.
pub open spec fn stray_garbage(g: u16, b: u16) -> bool {
    g & !b != 0
}

/// The first problem of a wire frame, in the order the fields are checked.
pub open spec fn frame_error(w: WireFrameSnapshot, path: Seq<char>) -> Option<(Seq<char>, &'static str)> {
    let board = w.board_rows@;
    let garbage = w.garbage_rows@;
    if rows_error(board, path + ".board_rows"@) is Some {
        rows_error(board, path + ".board_rows"@)
    } else if rows_error(garbage, path + ".garbage_rows"@) is Some {
        rows_error(garbage, path + ".garbage_rows"@)
    } else if first_where(HEIGHT as nat, |i: int| stray_garbage(garbage[i], board[i])) is Some {
        Some(
            (
                indexed(
                    path + ".garbage_rows"@,
                    first_where(HEIGHT as nat, |i: int| stray_garbage(garbage[i], board[i]))->Some_0,
                ),
                "garbage cells must be a subset of occupied cells",
            ),
        )
    } else if w.timing is Some && timing_error(w.timing->Some_0, path + ".timing"@) is Some {
        timing_error(w.timing->Some_0, path + ".timing"@)
    } else if piece_error(w.active, path + ".active"@) is Some {
        piece_error(w.active, path + ".active"@)
    } else if w.hold is Some && piece_kind_named(w.hold->Some_0@) is None {
        Some((path + ".hold"@, "unknown piece kind"))
    } else if first_where(w.preview@.len(), |i: int| piece_kind_named(w.preview@[i]@) is None) is Some {
        Some(
            (
                indexed(
                    path + ".preview"@,
                    first_where(w.preview@.len(), |i: int| piece_kind_named(w.preview@[i]@) is None)->Some_0,
                ),
                "unknown piece kind",
            ),
        )
    } else if w.top_out is Some && top_out_named(w.top_out->Some_0@) is None {
        Some((path + ".top_out"@, "unknown top-out reason"))
    } else {
        None
    }
}

/// The snapshot a valid wire frame converts to.
pub open spec fn frame_fits(w: WireFrameSnapshot, f: FrameSnapshot) -> bool {
    &&& f.frame == w.frame
    &&& f.board_rows@ == w.board_rows@
    &&& f.garbage_rows@ == w.garbage_rows@
    &&& f.active == piece_of(w.active)
    &&& f.hold == match w.hold {
        Some(h) => piece_kind_named(h@),
        None => None,
    }
    &&& f.preview@ == w.preview@.map_values(|v: String| piece_kind_named(v@)->Some_0)
    &&& f.top_out == match w.top_out {
        Some(t) => top_out_named(t@),
        None => None,
    }
    &&& f.timing == match w.timing {
        Some(t) => Some(timing_of(t)),
        None => None,
    }
}

fn convert_preview(preview: &Vec<String>, path: &String) -> (r: Result<Vec<PieceKind>, NormalizedFixtureError>)
    ensures
        match first_where(preview@.len(), |i: int| piece_kind_named(preview@[i]@) is None) {
            Some(i) => invalid_field(r, indexed(path@, i), "unknown piece kind"),
            None => r matches Ok(v) && v@ == preview@.map_values(|s: String| piece_kind_named(s@)->Some_0),
        },
{
    let ghost p = |i: int| piece_kind_named(preview@[i]@) is None;
    let mut out: Vec<PieceKind> = Vec::new();
    let mut i: usize = 0;
    while i < preview.len()
        invariant
            i <= preview@.len(),
            p == (|i: int| piece_kind_named(preview@[i]@) is None),
            forall|j: int| 0 <= j < i ==> !#[trigger] p(j),
            out@ == preview@.take(i as int).map_values(|s: String| piece_kind_named(s@)->Some_0),
        decreases preview@.len() - i,
    {
        let kind = match parse_piece_kind(&preview[i], at(path, i)) {
            Ok(k) => k,
            Err(e) => {
                proof {
                    lemma_first_where_at(preview@.len(), p, i as nat);
                }
                return Err(e);
            },
        };
        out.push(kind);
        proof {
            assert(preview@.take(i + 1).map_values(|s: String| piece_kind_named(s@)->Some_0) =~= preview@.take(
                i as int,
            ).map_values(|s: String| piece_kind_named(s@)->Some_0).push(kind));
        }
        i += 1;
    }
    proof {
        lemma_first_where(preview@.len(), p);
        assert(preview@.take(preview@.len() as int) =~= preview@);
    }
    Ok(out)
}

fn convert_frame(w: &WireFrameSnapshot, path: &String) -> (r: Result<FrameSnapshot, NormalizedFixtureError>)
    ensures
        match frame_error(*w, path@) {
            Some(e) => invalid_field(r, e.0, e.1),
            None => r matches Ok(f) && frame_fits(*w, f),
        },
{
    let board_path = join(path, ".board_rows");
    let garbage_path = join(path, ".garbage_rows");
    let board_rows = convert_rows(&w.board_rows, &board_path)?;
    let garbage_rows = convert_rows(&w.garbage_rows, &garbage_path)?;
    let ghost p = |i: int| stray_garbage(w.garbage_rows@[i], w.board_rows@[i]);
    let mut row: usize = 0;
    while row < HEIGHT
        invariant
            row <= HEIGHT,
            board_rows@ == w.board_rows@,
            garbage_rows@ == w.garbage_rows@,
            p == (|i: int| stray_garbage(w.garbage_rows@[i], w.board_rows@[i])),
            forall|j: int| 0 <= j < row ==> !#[trigger] p(j),
            rows_error(w.board_rows@, path@ + ".board_rows"@) is None,
            rows_error(w.garbage_rows@, path@ + ".garbage_rows"@) is None,
            garbage_path@ == path@ + ".garbage_rows"@,
        decreases HEIGHT - row,
    {
        if garbage_rows[row] & !board_rows[row] != 0 {
            proof {
                lemma_first_where_at(HEIGHT as nat, p, row as nat);
            }
            return invalid(at(&garbage_path, row), "garbage cells must be a subset of occupied cells");
        }
        row += 1;
    }
    proof {
        lemma_first_where(HEIGHT as nat, p);
    }
    let timing = match &w.timing {
        Some(t) => Some(convert_timing(t, &join(path, ".timing"))?),
        None => None,
    };
    let active = convert_piece(&w.active, &join(path, ".active"))?;
    let hold = match &w.hold {
        Some(h) => Some(parse_piece_kind(h, join(path, ".hold"))?),
        None => None,
    };
    let preview = convert_preview(&w.preview, &join(path, ".preview"))?;
    let top_out = match &w.top_out {
        Some(t) => Some(parse_top_out(t, join(path, ".top_out"))?),
        None => None,
    };
    Ok(FrameSnapshot { frame: w.frame, board_rows, garbage_rows, active, hold, preview, top_out, timing })
}


proof fn lemma_kept_all_positive(s: Seq<AttackPacket>)
    requires
        forall|i: int| 0 <= i < s.len() ==> (#[trigger] s[i]).lines > 0,
    ensures
        kept_packets(s) == s,
    decreases s.len(),
{
    if s.len() > 0 {
        let t = s.drop_last();
        assert forall|i: int| 0 <= i < t.len() implies (#[trigger] t[i]).lines > 0 by {
            assert(t[i] == s[i]);
        }
        lemma_kept_all_positive(t);
        assert(s.last().lines > 0);
        assert(t.push(s.last()) =~= s);
    }
}

pub open spec fn packet_of(w: WireAttackPacket) -> AttackPacket {
    AttackPacket { kind: packet_kind_named(w.kind@)->Some_0, lines: w.lines }
}

pub open spec fn bad_packet(w: WireAttackPacket) -> bool {
    w.lines == 0 || packet_kind_named(w.kind@) is None
}

/// The first problem of a wire packet list: a packet without lines or of an
/// unknown kind, then more packets than a sequence holds.
pub open spec fn packets_error(ws: Seq<WireAttackPacket>, path: Seq<char>) -> Option<(Seq<char>, &'static str)> {
    match first_where(ws.len(), |i: int| bad_packet(ws[i])) {
        Some(i) => if ws[i as int].lines == 0 {
            Some((indexed(path, i) + ".lines"@, "packet lines must be positive"))
        } else {
            Some((indexed(path, i) + ".kind"@, "unknown attack packet kind"))
        },
        None => if ws.len() > 5 {
            Some((path, "attack packet capacity exceeded"))
        } else {
            None
        },
    }
}

fn convert_packets(ws: &Vec<WireAttackPacket>, path: &String) -> (r: Result<AttackPackets, NormalizedFixtureError>)
    ensures
        match packets_error(ws@, path@) {
            Some(e) => invalid_field(r, e.0, e.1),
            None => r matches Ok(p) && p.wf() && p@ == ws@.map_values(|w: WireAttackPacket| packet_of(w)),
        },
{
    let ghost p = |i: int| bad_packet(ws@[i]);
    let mut packets: Vec<AttackPacket> = Vec::new();
    let mut i: usize = 0;
    while i < ws.len()
        invariant
            i <= ws@.len(),
            p == (|i: int| bad_packet(ws@[i])),
            forall|j: int| 0 <= j < i ==> !#[trigger] p(j),
            packets@ == ws@.take(i as int).map_values(|w: WireAttackPacket| packet_of(w)),
        decreases ws@.len() - i,
    {
        let item_path = at(path, i);
        if ws[i].lines == 0 {
            proof {
                lemma_first_where_at(ws@.len(), p, i as nat);
            }
            return invalid(join(&item_path, ".lines"), "packet lines must be positive");
        }
        let kind = match parse_attack_packet_kind(&ws[i].kind, join(&item_path, ".kind")) {
            Ok(k) => k,
            Err(e) => {
                proof {
                    lemma_first_where_at(ws@.len(), p, i as nat);
                }
                return Err(e);
            },
        };
        packets.push(AttackPacket { kind, lines: ws[i].lines });
        proof {
            assert(ws@.take(i + 1).map_values(|w: WireAttackPacket| packet_of(w)) =~= ws@.take(i as int).map_values(
                |w: WireAttackPacket| packet_of(w),
            ).push(packet_of(ws@[i as int])));
        }
        i += 1;
    }
    proof {
        lemma_first_where(ws@.len(), p);
        assert(ws@.take(ws@.len() as int) =~= ws@);
        assert forall|j: int| 0 <= j < packets@.len() implies (#[trigger] packets@[j]).lines > 0 by {
            assert(!p(j));
        }
        lemma_kept_all_positive(packets@);
    }
    match AttackPackets::try_from_slice(packets.as_slice()) {
        Ok(v) => Ok(v),
        Err(_) => invalid(path.clone(), "attack packet capacity exceeded"),
    }
}

pub open spec fn incoming_error(w: WireIncomingGarbagePacket, path: Seq<char>) -> Option<(Seq<char>, &'static str)> {
    if w.lines == 0 {
        Some((path + ".lines"@, "packet lines must be positive"))
    } else if w.hole_column matches Some(c) && c >= WIDTH {
        Some((path + ".hole_column"@, "hole column must be within the board"))
    } else {
        None
    }
}

pub open spec fn incoming_of(w: WireIncomingGarbagePacket) -> IncomingGarbagePacket {
    IncomingGarbagePacket {
        lines: w.lines,
        hole_column: w.hole_column,
        ready_at_frame: w.ready_at_frame,
        hardened: w.hardened,
    }
}

fn convert_incoming(w: &WireIncomingGarbagePacket, path: &String) -> (r: Result<
    IncomingGarbagePacket,
    NormalizedFixtureError,
>)
    ensures
        match incoming_error(*w, path@) {
            Some(e) => invalid_field(r, e.0, e.1),
            None => r == Ok::<IncomingGarbagePacket, NormalizedFixtureError>(incoming_of(*w)),
        },
{
    if w.lines == 0 {
        return invalid(join(path, ".lines"), "packet lines must be positive");
    }
    if let Some(c) = w.hole_column {
        if c as usize >= WIDTH {
            return invalid(join(path, ".hole_column"), "hole column must be within the board");
        }
    }
    Ok(
        IncomingGarbagePacket {
            lines: w.lines,
            hole_column: w.hole_column,
            ready_at_frame: w.ready_at_frame,
            hardened: w.hardened,
        },
    )
}

pub open spec fn attack_state_of(w: WireAttackState) -> AttackState {
    AttackState { combo: w.combo, back_to_back: w.back_to_back }
}

pub open spec fn attack_fits(w: WireAttackOutcome, o: AttackOutcome) -> bool {
    &&& o.state == attack_state_of(w.state)
    &&& o.packets.wf()
    &&& o.packets@ == w.packets@.map_values(|p: WireAttackPacket| packet_of(p))
    &&& o.base_attack == w.base_attack
    &&& o.clear_attack == w.clear_attack
    &&& o.back_to_back_bonus == w.back_to_back_bonus
    &&& o.special_bonus == w.special_bonus
    &&& o.surge_attack == w.surge_attack
    &&& o.perfect_clear_attack == w.perfect_clear_attack
    &&& o.difficult == w.difficult
    &&& o.back_to_back == w.back_to_back
}

fn convert_attack_outcome(w: &WireAttackOutcome, path: &String) -> (r: Result<AttackOutcome, NormalizedFixtureError>)
    ensures
        match packets_error(w.packets@, path@ + ".packets"@) {
            Some(e) => invalid_field(r, e.0, e.1),
            None => r matches Ok(o) && attack_fits(*w, o),
        },
{
    let packets = convert_packets(&w.packets, &join(path, ".packets"))?;
    Ok(
        AttackOutcome {
            state: AttackState { combo: w.state.combo, back_to_back: w.state.back_to_back },
            packets,
            base_attack: w.base_attack,
            clear_attack: w.clear_attack,
            back_to_back_bonus: w.back_to_back_bonus,
            special_bonus: w.special_bonus,
            surge_attack: w.surge_attack,
            perfect_clear_attack: w.perfect_clear_attack,
            difficult: w.difficult,
            back_to_back: w.back_to_back,
        },
    )
}

pub open spec fn cancellation_fits(w: WireGarbageCancellationOutcome, o: GarbageCancellationOutcome) -> bool {
    &&& o.outgoing.wf()
    &&& o.outgoing@ == w.outgoing@.map_values(|p: WireAttackPacket| packet_of(p))
    &&& o.attack_cancelled == w.attack_cancelled
    &&& o.opener_bonus_cancelled == w.opener_bonus_cancelled
    &&& o.sent_lines_after == w.sent_lines_after
}

fn convert_cancellation(w: &WireGarbageCancellationOutcome, path: &String) -> (r: Result<
    GarbageCancellationOutcome,
    NormalizedFixtureError,
>)
    ensures
        match packets_error(w.outgoing@, path@ + ".outgoing"@) {
            Some(e) => invalid_field(r, e.0, e.1),
            None => r matches Ok(o) && cancellation_fits(*w, o),
        },
{
    let outgoing = convert_packets(&w.outgoing, &join(path, ".outgoing"))?;
    Ok(
        GarbageCancellationOutcome {
            outgoing,
            attack_cancelled: w.attack_cancelled,
            opener_bonus_cancelled: w.opener_bonus_cancelled,
            sent_lines_after: w.sent_lines_after,
        },
    )
}

pub open spec fn insertion_of(w: WireGarbageInsertionOutcome) -> GarbageInsertionOutcome {
    GarbageInsertionOutcome {
        inserted: w.inserted,
        overflowed_buffer: w.overflowed_buffer,
        blocked_by_clear: w.blocked_by_clear,
    }
}

pub open spec fn player_events_error(w: WireBattlePlayerEventsSnapshot, path: Seq<char>) -> Option<
    (Seq<char>, &'static str),
> {
    if w.attack is Some && packets_error(w.attack->Some_0.packets@, path + ".attack"@ + ".packets"@) is Some {
        packets_error(w.attack->Some_0.packets@, path + ".attack"@ + ".packets"@)
    } else if w.cancellation is Some && packets_error(
        w.cancellation->Some_0.outgoing@,
        path + ".cancellation"@ + ".outgoing"@,
    ) is Some {
        packets_error(w.cancellation->Some_0.outgoing@, path + ".cancellation"@ + ".outgoing"@)
    } else {
        packets_error(w.transmitted@, path + ".transmitted"@)
    }
}

pub open spec fn player_events_fits(w: WireBattlePlayerEventsSnapshot, e: BattlePlayerEventsSnapshot) -> bool {
    &&& match w.attack {
        Some(a) => e.attack matches Some(o) && attack_fits(a, o),
        None => e.attack is None,
    }
    &&& match w.cancellation {
        Some(c) => e.cancellation matches Some(o) && cancellation_fits(c, o),
        None => e.cancellation is None,
    }
    &&& e.insertion == match w.insertion {
        Some(i) => Some(insertion_of(i)),
        None => None,
    }
    &&& e.transmitted.wf()
    &&& e.transmitted@ == w.transmitted@.map_values(|p: WireAttackPacket| packet_of(p))
}

fn convert_player_events(w: &WireBattlePlayerEventsSnapshot, path: &String) -> (r: Result<
    BattlePlayerEventsSnapshot,
    NormalizedFixtureError,
>)
    ensures
        match player_events_error(*w, path@) {
            Some(e) => invalid_field(r, e.0, e.1),
            None => r matches Ok(e) && player_events_fits(*w, e),
        },
{
    let attack = match &w.attack {
        Some(a) => Some(convert_attack_outcome(a, &join(path, ".attack"))?),
        None => None,
    };
    let cancellation = match &w.cancellation {
        Some(c) => Some(convert_cancellation(c, &join(path, ".cancellation"))?),
        None => None,
    };
    let insertion = match &w.insertion {
        Some(i) => Some(
            GarbageInsertionOutcome {
                inserted: i.inserted,
                overflowed_buffer: i.overflowed_buffer,
                blocked_by_clear: i.blocked_by_clear,
            },
        ),
        None => None,
    };
    let transmitted = convert_packets(&w.transmitted, &join(path, ".transmitted"))?;
    Ok(BattlePlayerEventsSnapshot { attack, cancellation, insertion, transmitted })
}

pub open spec fn events_error(w: WireBattleEventsSnapshot, path: Seq<char>) -> Option<(Seq<char>, &'static str)> {
    if player_events_error(w.player_one, path + ".player_one"@) is Some {
        player_events_error(w.player_one, path + ".player_one"@)
    } else if player_events_error(w.player_two, path + ".player_two"@) is Some {
        player_events_error(w.player_two, path + ".player_two"@)
    } else if battle_result_named(w.result@) is None {
        Some((path + ".result"@, "unknown battle result"))
    } else {
        None
    }
}

pub open spec fn events_fits(w: WireBattleEventsSnapshot, e: BattleEventsSnapshot) -> bool {
    &&& e.frame == w.frame
    &&& player_events_fits(w.player_one, e.player_one)
    &&& player_events_fits(w.player_two, e.player_two)
    &&& e.result == battle_result_named(w.result@)->Some_0
}

fn convert_events(w: &WireBattleEventsSnapshot, path: &String) -> (r: Result<BattleEventsSnapshot, NormalizedFixtureError>)
    ensures
        match events_error(*w, path@) {
            Some(e) => invalid_field(r, e.0, e.1),
            None => r matches Ok(e) && events_fits(*w, e),
        },
{
    let player_one = convert_player_events(&w.player_one, &join(path, ".player_one"))?;
    let player_two = convert_player_events(&w.player_two, &join(path, ".player_two"))?;
    let result = parse_battle_result(&w.result, join(path, ".result"))?;
    Ok(BattleEventsSnapshot { frame: w.frame, player_one, player_two, result })
}

pub open spec fn battle_player_error(w: WireBattlePlayerSnapshot, path: Seq<char>) -> Option<(Seq<char>, &'static str)> {
    if frame_error(w.game, path + ".game"@) is Some {
        frame_error(w.game, path + ".game"@)
    } else {
        match first_where(w.incoming@.len(), |i: int| incoming_error(w.incoming@[i], indexed(path + ".incoming"@, i as nat)) is Some) {
            Some(i) => incoming_error(w.incoming@[i as int], indexed(path + ".incoming"@, i)),
            None => None,
        }
    }
}

pub open spec fn battle_player_fits(w: WireBattlePlayerSnapshot, b: BattlePlayerSnapshot) -> bool {
    &&& frame_fits(w.game, b.game)
    &&& b.attack == attack_state_of(w.attack)
    &&& b.incoming@ == w.incoming@.map_values(|p: WireIncomingGarbagePacket| incoming_of(p))
    &&& b.sent_lines == w.sent_lines
}

fn convert_battle_player(w: &WireBattlePlayerSnapshot, path: &String) -> (r: Result<
    BattlePlayerSnapshot,
    NormalizedFixtureError,
>)
    ensures
        match battle_player_error(*w, path@) {
            Some(e) => invalid_field(r, e.0, e.1),
            None => r matches Ok(b) && battle_player_fits(*w, b),
        },
{
    let game = convert_frame(&w.game, &join(path, ".game"))?;
    let incoming_path = join(path, ".incoming");
    let ghost p = |i: int| incoming_error(w.incoming@[i], indexed(path@ + ".incoming"@, i as nat)) is Some;
    let mut incoming: Vec<IncomingGarbagePacket> = Vec::new();
    let mut i: usize = 0;
    while i < w.incoming.len()
        invariant
            i <= w.incoming@.len(),
            incoming_path@ == path@ + ".incoming"@,
            p == (|i: int| incoming_error(w.incoming@[i], indexed(path@ + ".incoming"@, i as nat)) is Some),
            frame_error(w.game, path@ + ".game"@) is None,
            forall|j: int| 0 <= j < i ==> !#[trigger] p(j),
            incoming@ == w.incoming@.take(i as int).map_values(|p: WireIncomingGarbagePacket| incoming_of(p)),
        decreases w.incoming@.len() - i,
    {
        let packet = match convert_incoming(&w.incoming[i], &at(&incoming_path, i)) {
            Ok(v) => v,
            Err(e) => {
                proof {
                    lemma_first_where_at(w.incoming@.len(), p, i as nat);
                }
                return Err(e);
            },
        };
        incoming.push(packet);
        proof {
            assert(w.incoming@.take(i + 1).map_values(|p: WireIncomingGarbagePacket| incoming_of(p))
                =~= w.incoming@.take(i as int).map_values(|p: WireIncomingGarbagePacket| incoming_of(p)).push(
                incoming_of(w.incoming@[i as int]),
            ));
        }
        i += 1;
    }
    proof {
        lemma_first_where(w.incoming@.len(), p);
        assert(w.incoming@.take(w.incoming@.len() as int) =~= w.incoming@);
    }
    Ok(
        BattlePlayerSnapshot {
            game,
            attack: AttackState { combo: w.attack.combo, back_to_back: w.attack.back_to_back },
            incoming,
            sent_lines: w.sent_lines,
        },
    )
}


/// The first problem of a wire battle snapshot at `path`, in the order the
/// fields are checked.
pub open spec fn battle_error(w: WireBattleSnapshot, path: Seq<char>) -> Option<(Seq<char>, &'static str)> {
    let bits_field = path + ".garbage_multiplier_bits"@;
    let bits = hex_number(w.garbage_multiplier_bits@.subrange(2, 18)) as u64;
    if battle_player_error(w.player_one, path + ".player_one"@) is Some {
        battle_player_error(w.player_one, path + ".player_one"@)
    } else if battle_player_error(w.player_two, path + ".player_two"@) is Some {
        battle_player_error(w.player_two, path + ".player_two"@)
    } else if w.player_one.game.frame != w.frame || w.player_two.game.frame != w.frame {
        Some((path + ".frame"@, "outer and both player game frame numbers must match"))
    } else if battle_result_named(w.result@) is None {
        Some((path + ".result"@, "unknown battle result"))
    } else if w.events is Some && events_error(w.events->Some_0, path + ".events"@) is Some {
        events_error(w.events->Some_0, path + ".events"@)
    } else if w.events is Some && (w.events->Some_0.frame != w.frame || battle_result_named(
        w.events->Some_0.result@,
    ) != battle_result_named(w.result@)) {
        Some((path + ".events"@, "event frame and result must match the enclosing snapshot"))
    } else if !bits_text(w.garbage_multiplier_bits@) {
        Some((bits_field, "expected 0x followed by 16 hex digits"))
    } else if !finite_bits(bits) {
        Some((bits_field, "multiplier must be finite"))
    } else if bits >> 63u64 == 1 {
        Some((bits_field, "multiplier must be non-negative"))
    } else {
        None
    }
}

pub open spec fn battle_fits(w: WireBattleSnapshot, b: BattleSnapshot) -> bool {
    &&& b.frame == w.frame
    &&& battle_player_fits(w.player_one, b.player_one)
    &&& battle_player_fits(w.player_two, b.player_two)
    &&& b.garbage_multiplier.bits() == hex_number(w.garbage_multiplier_bits@.subrange(2, 18)) as u64
    &&& b.result == battle_result_named(w.result@)->Some_0
    &&& match w.events {
        Some(e) => b.events matches Some(x) && events_fits(e, x),
        None => b.events is None,
    }
}

fn convert_battle(w: &WireBattleSnapshot, path: &String) -> (r: Result<BattleSnapshot, NormalizedFixtureError>)
    ensures
        match battle_error(*w, path@) {
            Some(e) => invalid_field(r, e.0, e.1),
            None => r matches Ok(b) && battle_fits(*w, b),
        },
{
    let player_one = convert_battle_player(&w.player_one, &join(path, ".player_one"))?;
    let player_two = convert_battle_player(&w.player_two, &join(path, ".player_two"))?;
    if player_one.game.frame != w.frame || player_two.game.frame != w.frame {
        return invalid(join(path, ".frame"), "outer and both player game frame numbers must match");
    }
    let result = parse_battle_result(&w.result, join(path, ".result"))?;
    let events = match &w.events {
        Some(e) => Some(convert_events(e, &join(path, ".events"))?),
        None => None,
    };
    if let Some(e) = &events {
        if e.frame != w.frame || e.result != result {
            return invalid(join(path, ".events"), "event frame and result must match the enclosing snapshot");
        }
    }
    let bits_path = join(path, ".garbage_multiplier_bits");
    let bits = parse_bits(&w.garbage_multiplier_bits, bits_path.clone())?;
    let garbage_multiplier = match AttackMultiplier::from_ieee_bits(bits) {
        Ok(m) => m,
        Err(_) => {
            return invalid(bits_path, "multiplier must be finite");
        },
    };
    if bits >> 63u64 == 1 {
        return invalid(bits_path, "multiplier must be non-negative");
    }
    Ok(BattleSnapshot { frame: w.frame, player_one, player_two, garbage_multiplier, result, events })
}

/// The first problem of a trace's frame numbers: none at all, then a frame
/// that does not come after the one before it.
pub open spec fn order_error(frames: Seq<u64>) -> Option<(Seq<char>, &'static str)> {
    if frames.len() == 0 {
        Some(("snapshots"@, "trace must contain at least one frame"))
    } else {
        match first_where((frames.len() - 1) as nat, |i: int| frames[i] >= frames[i + 1]) {
            Some(i) => Some((indexed("snapshots"@, i + 1) + ".frame"@, "frame numbers must be strictly increasing")),
            None => None,
        }
    }
}

fn validate_order(frames: &Vec<u64>) -> (r: Result<(), NormalizedFixtureError>)
    ensures
        match order_error(frames@) {
            Some(e) => invalid_field(r, e.0, e.1),
            None => r is Ok,
        },
{
    if frames.len() == 0 {
        return invalid(String::from_str("snapshots"), "trace must contain at least one frame");
    }
    let ghost p = |i: int| frames@[i] >= frames@[i + 1];
    let mut i: usize = 0;
    let last = frames.len() - 1;
    while i < last
        invariant
            i <= last,
            last == frames@.len() - 1,
            p == (|i: int| frames@[i] >= frames@[i + 1]),
            forall|j: int| 0 <= j < i ==> !#[trigger] p(j),
        decreases frames@.len() - i,
    {
        if frames[i] >= frames[i + 1] {
            proof {
                lemma_first_where_at((frames@.len() - 1) as nat, p, i as nat);
            }
            let mut field = at(&String::from_str("snapshots"), i + 1);
            field.append(".frame");
            return invalid(field, "frame numbers must be strictly increasing");
        }
        i += 1;
    }
    proof {
        lemma_first_where((frames@.len() - 1) as nat, p);
    }
    Ok(())
}

fn validate_frames(trace: &Vec<FrameSnapshot>) -> (r: Result<(), NormalizedFixtureError>)
    ensures
        match order_error(trace@.map_values(|f: FrameSnapshot| f.frame)) {
            Some(e) => invalid_field(r, e.0, e.1),
            None => r is Ok,
        },
{
    let mut frames: Vec<u64> = Vec::new();
    let mut i: usize = 0;
    while i < trace.len()
        invariant
            i <= trace@.len(),
            frames@ == trace@.take(i as int).map_values(|f: FrameSnapshot| f.frame),
        decreases trace@.len() - i,
    {
        frames.push(trace[i].frame);
        proof {
            assert(trace@.take(i + 1).map_values(|f: FrameSnapshot| f.frame) =~= trace@.take(i as int).map_values(
                |f: FrameSnapshot| f.frame,
            ).push(trace@[i as int].frame));
        }
        i += 1;
    }
    proof {
        assert(trace@.take(trace@.len() as int) =~= trace@);
    }
    validate_order(&frames)
}

fn validate_battle_frames(trace: &Vec<BattleSnapshot>) -> (r: Result<(), NormalizedFixtureError>)
    ensures
        match order_error(trace@.map_values(|f: BattleSnapshot| f.frame)) {
            Some(e) => invalid_field(r, e.0, e.1),
            None => r is Ok,
        },
{
    let mut frames: Vec<u64> = Vec::new();
    let mut i: usize = 0;
    while i < trace.len()
        invariant
            i <= trace@.len(),
            frames@ == trace@.take(i as int).map_values(|f: BattleSnapshot| f.frame),
        decreases trace@.len() - i,
    {
        frames.push(trace[i].frame);
        proof {
            assert(trace@.take(i + 1).map_values(|f: BattleSnapshot| f.frame) =~= trace@.take(i as int).map_values(
                |f: BattleSnapshot| f.frame,
            ).push(trace@[i as int].frame));
        }
        i += 1;
    }
    proof {
        assert(trace@.take(trace@.len() as int) =~= trace@);
    }
    validate_order(&frames)
}

#[derive(Clone, Debug, PartialEq, Eq)]
pub enum LoadedReferenceTrace {
    Solo(Vec<FrameSnapshot>),
    Battle(Vec<BattleSnapshot>),
}

impl LoadedReferenceTrace {
    pub open spec fn frame_count(&self) -> nat {
        match self {
            LoadedReferenceTrace::Solo(t) => t@.len(),
            LoadedReferenceTrace::Battle(t) => t@.len(),
        }
    }

    pub fn len(&self) -> (r: usize)
        ensures
            r == self.frame_count(),
    {
        match self {
            LoadedReferenceTrace::Solo(t) => t.len(),
            LoadedReferenceTrace::Battle(t) => t.len(),
        }
    }

    pub fn is_empty(&self) -> (r: bool)
        ensures
            r == (self.frame_count() == 0),
    {
        self.len() == 0
    }

    pub fn kind_name(&self) -> (r: &'static str)
        ensures
            r@ == match self {
                LoadedReferenceTrace::Solo(_) => "solo"@,
                LoadedReferenceTrace::Battle(_) => "battle"@,
            },
    {
        match self {
            LoadedReferenceTrace::Solo(_) => "solo",
            LoadedReferenceTrace::Battle(_) => "battle",
        }
    }
}

/// The first problem among a solo trace's snapshots, then its frame order.
pub open spec fn solo_items_error(ws: Seq<WireFrameSnapshot>) -> Option<(Seq<char>, &'static str)> {
    match first_where(ws.len(), |i: int| frame_error(ws[i], indexed("snapshots"@, i as nat)) is Some) {
        Some(i) => frame_error(ws[i as int], indexed("snapshots"@, i)),
        None => order_error(ws.map_values(|w: WireFrameSnapshot| w.frame)),
    }
}

/// The first problem among a battle trace's snapshots, then its frame order.
pub open spec fn battle_items_error(ws: Seq<WireBattleSnapshot>) -> Option<(Seq<char>, &'static str)> {
    match first_where(ws.len(), |i: int| battle_error(ws[i], indexed("snapshots"@, i as nat)) is Some) {
        Some(i) => battle_error(ws[i as int], indexed("snapshots"@, i)),
        None => order_error(ws.map_values(|w: WireBattleSnapshot| w.frame)),
    }
}

/// What converting a wire trace gives: the schema error, the first field
/// error, or the trace whose every snapshot is its wire snapshot converted.
pub open spec fn trace_fits(t: WireTrace, r: Result<LoadedReferenceTrace, NormalizedFixtureError>) -> bool {
    match t {
        WireTrace::Solo { schema_version, snapshots } => if schema_version != NORMALIZED_TRACE_SCHEMA_VERSION {
            r == Err::<LoadedReferenceTrace, NormalizedFixtureError>(
                NormalizedFixtureError::UnsupportedSchema {
                    document: NormalizedDocument::Trace,
                    actual: schema_version,
                },
            )
        } else {
            match solo_items_error(snapshots@) {
                Some(e) => invalid_field(r, e.0, e.1),
                None => r matches Ok(LoadedReferenceTrace::Solo(v)) && v@.len() == snapshots@.len() && forall|i: int|
                    0 <= i < v@.len() ==> frame_fits(snapshots@[i], #[trigger] v@[i]),
            }
        },
        WireTrace::Battle { schema_version, snapshots } => if schema_version != NORMALIZED_TRACE_SCHEMA_VERSION {
            r == Err::<LoadedReferenceTrace, NormalizedFixtureError>(
                NormalizedFixtureError::UnsupportedSchema {
                    document: NormalizedDocument::Trace,
                    actual: schema_version,
                },
            )
        } else {
            match battle_items_error(snapshots@) {
                Some(e) => invalid_field(r, e.0, e.1),
                None => r matches Ok(LoadedReferenceTrace::Battle(v)) && v@.len() == snapshots@.len() && forall|i: int|
                    0 <= i < v@.len() ==> battle_fits(snapshots@[i], #[trigger] v@[i]),
            }
        },
    }
}

/// The trace converts without error.
pub open spec fn trace_converts(t: WireTrace) -> bool {
    match t {
        WireTrace::Solo { schema_version, snapshots } => schema_version == NORMALIZED_TRACE_SCHEMA_VERSION
            && solo_items_error(snapshots@) is None,
        WireTrace::Battle { schema_version, snapshots } => schema_version == NORMALIZED_TRACE_SCHEMA_VERSION
            && battle_items_error(snapshots@) is None,
    }
}

fn convert_solo_frames(ws: &Vec<WireFrameSnapshot>) -> (r: Result<Vec<FrameSnapshot>, NormalizedFixtureError>)
    ensures
        match solo_items_error(ws@) {
            Some(e) => invalid_field(r, e.0, e.1),
            None => r matches Ok(v) && v@.len() == ws@.len() && forall|i: int|
                0 <= i < v@.len() ==> frame_fits(ws@[i], #[trigger] v@[i]),
        },
{
    let ghost p = |i: int| frame_error(ws@[i], indexed("snapshots"@, i as nat)) is Some;
    let mut out: Vec<FrameSnapshot> = Vec::new();
    let mut i: usize = 0;
    while i < ws.len()
        invariant
            i <= ws@.len(),
            p == (|i: int| frame_error(ws@[i], indexed("snapshots"@, i as nat)) is Some),
            forall|j: int| 0 <= j < i ==> !#[trigger] p(j),
            out@.len() == i,
            forall|j: int| 0 <= j < i ==> frame_fits(ws@[j], #[trigger] out@[j]),
        decreases ws@.len() - i,
    {
        let path = at(&String::from_str("snapshots"), i);
        let frame = match convert_frame(&ws[i], &path) {
            Ok(f) => f,
            Err(e) => {
                proof {
                    lemma_first_where_at(ws@.len(), p, i as nat);
                }
                return Err(e);
            },
        };
        out.push(frame);
        i += 1;
    }
    proof {
        lemma_first_where(ws@.len(), p);
        assert(out@.map_values(|f: FrameSnapshot| f.frame) =~= ws@.map_values(|w: WireFrameSnapshot| w.frame));
    }
    validate_frames(&out)?;
    Ok(out)
}

fn convert_battle_frames(ws: &Vec<WireBattleSnapshot>) -> (r: Result<Vec<BattleSnapshot>, NormalizedFixtureError>)
    ensures
        match battle_items_error(ws@) {
            Some(e) => invalid_field(r, e.0, e.1),
            None => r matches Ok(v) && v@.len() == ws@.len() && forall|i: int|
                0 <= i < v@.len() ==> battle_fits(ws@[i], #[trigger] v@[i]),
        },
{
    let ghost p = |i: int| battle_error(ws@[i], indexed("snapshots"@, i as nat)) is Some;
    let mut out: Vec<BattleSnapshot> = Vec::new();
    let mut i: usize = 0;
    while i < ws.len()
        invariant
            i <= ws@.len(),
            p == (|i: int| battle_error(ws@[i], indexed("snapshots"@, i as nat)) is Some),
            forall|j: int| 0 <= j < i ==> !#[trigger] p(j),
            out@.len() == i,
            forall|j: int| 0 <= j < i ==> battle_fits(ws@[j], #[trigger] out@[j]),
        decreases ws@.len() - i,
    {
        let path = at(&String::from_str("snapshots"), i);
        let snapshot = match convert_battle(&ws[i], &path) {
            Ok(b) => b,
            Err(e) => {
                proof {
                    lemma_first_where_at(ws@.len(), p, i as nat);
                }
                return Err(e);
            },
        };
        out.push(snapshot);
        i += 1;
    }
    proof {
        lemma_first_where(ws@.len(), p);
        assert(out@.map_values(|f: BattleSnapshot| f.frame) =~= ws@.map_values(|w: WireBattleSnapshot| w.frame));
    }
    validate_battle_frames(&out)?;
    Ok(out)
}

fn convert_trace(t: &WireTrace) -> (r: Result<LoadedReferenceTrace, NormalizedFixtureError>)
    ensures
        trace_fits(*t, r),
        r is Ok <==> trace_converts(*t),
{
    match t {
        WireTrace::Solo { schema_version, snapshots } => {
            if *schema_version != NORMALIZED_TRACE_SCHEMA_VERSION {
                return Err(
                    NormalizedFixtureError::UnsupportedSchema {
                        document: NormalizedDocument::Trace,
                        actual: *schema_version,
                    },
                );
            }
            let frames = convert_solo_frames(snapshots)?;
            Ok(LoadedReferenceTrace::Solo(frames))
        },
        WireTrace::Battle { schema_version, snapshots } => {
            if *schema_version != NORMALIZED_TRACE_SCHEMA_VERSION {
                return Err(
                    NormalizedFixtureError::UnsupportedSchema {
                        document: NormalizedDocument::Trace,
                        actual: *schema_version,
                    },
                );
            }
            let frames = convert_battle_frames(snapshots)?;
            Ok(LoadedReferenceTrace::Battle(frames))
        },
    }
}


/// Claim `i` names no claim or repeats an earlier one.
pub open spec fn bad_claim(values: Seq<String>, i: int) -> bool {
    ||| claim_named(values[i]@) is None
    ||| exists|j: int| 0 <= j < i && claim_named(values[j]@) == claim_named(values[i]@)
}

/// The first problem of a manifest's claim list.
pub open spec fn claims_error(values: Seq<String>) -> Option<(Seq<char>, &'static str)> {
    if values.len() == 0 {
        Some(("claims"@, "at least one mechanics claim is required"))
    } else {
        match first_where(values.len(), |i: int| bad_claim(values, i)) {
            Some(i) => if claim_named(values[i as int]@) is None {
                Some((indexed("claims"@, i), "unknown mechanics claim"))
            } else {
                Some((indexed("claims"@, i), "duplicate mechanics claim"))
            },
            None => None,
        }
    }
}

pub open spec fn claims_of(values: Seq<String>) -> Seq<MechanicClaim> {
    values.map_values(|v: String| claim_named(v@)->Some_0)
}

fn parse_claims(values: &Vec<String>) -> (r: Result<Vec<MechanicClaim>, NormalizedFixtureError>)
    ensures
        match claims_error(values@) {
            Some(e) => invalid_field(r, e.0, e.1),
            None => r matches Ok(v) && v@ == claims_of(values@),
        },
{
    if values.len() == 0 {
        return invalid(String::from_str("claims"), "at least one mechanics claim is required");
    }
    let ghost p = |i: int| bad_claim(values@, i);
    let mut claims: Vec<MechanicClaim> = Vec::new();
    let mut i: usize = 0;
    while i < values.len()
        invariant
            i <= values@.len(),
            p == (|i: int| bad_claim(values@, i)),
            forall|j: int| 0 <= j < i ==> !#[trigger] p(j),
            claims@ == values@.take(i as int).map_values(|v: String| claim_named(v@)->Some_0),
        decreases values@.len() - i,
    {
        let claim = match MechanicClaim::from_id(values[i].as_str()) {
            Some(c) => c,
            None => {
                proof {
                    lemma_first_where_at(values@.len(), p, i as nat);
                }
                return invalid(at(&String::from_str("claims"), i), "unknown mechanics claim");
            },
        };
        proof {
            assert forall|j: int| 0 <= j < i implies claim_named(values@[j]@) is Some by {
                assert(!p(j));
            }
        }
        let mut k: usize = 0;
        while k < claims.len()
            invariant
                k <= claims@.len(),
                claims@.len() == i,
                i < values@.len(),
                claim_named(values@[i as int]@) == Some(claim),
                claims@ == values@.take(i as int).map_values(|v: String| claim_named(v@)->Some_0),
                forall|j: int| 0 <= j < i ==> claim_named(values@[j]@) is Some,
                forall|j: int| 0 <= j < k ==> claims@[j] != claim,
                p == (|i: int| bad_claim(values@, i)),
                forall|j: int| 0 <= j < i ==> !#[trigger] p(j),
            decreases claims@.len() - k,
        {
            if claims[k] == claim {
                proof {
                    assert(claims@[k as int] == claim_named(values@[k as int]@)->Some_0);
                    assert(claim_named(values@[k as int]@) == claim_named(values@[i as int]@));
                    assert(p(i as int));
                    lemma_first_where_at(values@.len(), p, i as nat);
                }
                return invalid(at(&String::from_str("claims"), i), "duplicate mechanics claim");
            }
            k += 1;
        }
        proof {
            assert(!p(i as int)) by {
                if exists|j: int| 0 <= j < i && claim_named(values@[j]@) == claim_named(values@[i as int]@) {
                    let j = choose|j: int| 0 <= j < i && claim_named(values@[j]@) == claim_named(values@[i as int]@);
                    assert(claims@[j] == claim_named(values@[j]@)->Some_0);
                }
            }
        }
        claims.push(claim);
        proof {
            assert(values@.take(i + 1).map_values(|v: String| claim_named(v@)->Some_0) =~= values@.take(
                i as int,
            ).map_values(|v: String| claim_named(v@)->Some_0).push(claim));
        }
        i += 1;
    }
    proof {
        lemma_first_where(values@.len(), p);
        assert(values@.take(values@.len() as int) =~= values@);
    }
    Ok(claims)
}

/// Hexadecimal text with every digit in lowercase.
pub open spec fn hex_lower(s: Seq<char>) -> Seq<char>
    decreases s.len(),
{
    if s.len() == 0 {
        Seq::empty()
    } else {
        hex_lower(s.drop_last()) + crate::text::nibble_text(hex_value(s.last()) as int)
    }
}

fn lower_hex(s: &String) -> (r: String)
    requires
        forall|i: int| 0 <= i < s@.len() ==> hex_digit(#[trigger] s@[i]),
    ensures
        r@ == hex_lower(s@),
{
    let text = s.as_str();
    let n = text.unicode_len();
    let mut out = String::new();
    let mut i: usize = 0;
    while i < n
        invariant
            i <= n,
            n == s@.len(),
            text@ == s@,
            forall|i: int| 0 <= i < s@.len() ==> hex_digit(#[trigger] s@[i]),
            out@ == hex_lower(s@.take(i as int)),
        decreases n - i,
    {
        let c = text.get_char(i);
        proof {
            assert(hex_digit(s@[i as int]));
        }
        let d: u64 = if '0' <= c && c <= '9' {
            (c as u64) - ('0' as u64)
        } else if 'a' <= c && c <= 'f' {
            (c as u64) - ('a' as u64) + 10
        } else {
            (c as u64) - ('A' as u64) + 10
        };
        out.append(crate::text::nibble_name(d));
        proof {
            assert(s@.take(i + 1).drop_last() =~= s@.take(i as int));
            assert(s@.take(i + 1).last() == c);
        }
        i += 1;
    }
    proof {
        assert(s@.take(n as int) =~= s@);
    }
    out
}

#[derive(Clone, Debug, PartialEq, Eq)]
pub struct LoadedReferenceFixture {
    pub id: String,
    pub kind: FunctionalCaseKind,
    pub evidence: ReferenceEvidence,
    pub trace_sha256: String,
    pub claims: Vec<MechanicClaim>,
    pub trace: LoadedReferenceTrace,
}

impl LoadedReferenceFixture {
    /// A conformance case comparing this fixture's solo trace with `actual`.
    pub fn bind_solo<'a>(&'a self, actual: &'a [FrameSnapshot]) -> (r: Result<
        FunctionalConformanceCase<'a>,
        NormalizedFixtureError,
    >)
        ensures
            match self.trace {
                LoadedReferenceTrace::Solo(expected) => r matches Ok(c) && self.case_fits(c) && (c.trace
                    matches ReferenceTrace::Solo { expected: e, actual: a } && e@ == expected@ && a@ == actual@),
                LoadedReferenceTrace::Battle(_) => r == Err::<FunctionalConformanceCase<'a>, NormalizedFixtureError>(
                    NormalizedFixtureError::ActualTraceKindMismatch { expected: "battle", actual: "solo" },
                ),
            },
    {
        match &self.trace {
            LoadedReferenceTrace::Solo(expected) => Ok(
                self.case(ReferenceTrace::Solo { expected: expected.as_slice(), actual }),
            ),
            LoadedReferenceTrace::Battle(_) => Err(
                NormalizedFixtureError::ActualTraceKindMismatch { expected: "battle", actual: "solo" },
            ),
        }
    }

    /// A conformance case comparing this fixture's battle trace with `actual`.
    pub fn bind_battle<'a>(&'a self, actual: &'a [BattleSnapshot]) -> (r: Result<
        FunctionalConformanceCase<'a>,
        NormalizedFixtureError,
    >)
        ensures
            match self.trace {
                LoadedReferenceTrace::Battle(expected) => r matches Ok(c) && self.case_fits(c) && (c.trace
                    matches ReferenceTrace::Battle { expected: e, actual: a } && e@ == expected@ && a@ == actual@),
                LoadedReferenceTrace::Solo(_) => r == Err::<FunctionalConformanceCase<'a>, NormalizedFixtureError>(
                    NormalizedFixtureError::ActualTraceKindMismatch { expected: "solo", actual: "battle" },
                ),
            },
    {
        match &self.trace {
            LoadedReferenceTrace::Battle(expected) => Ok(
                self.case(ReferenceTrace::Battle { expected: expected.as_slice(), actual }),
            ),
            LoadedReferenceTrace::Solo(_) => Err(
                NormalizedFixtureError::ActualTraceKindMismatch { expected: "solo", actual: "battle" },
            ),
        }
    }

    /// The case carries this fixture's identity, kind, evidence and claims.
    pub open spec fn case_fits(&self, c: FunctionalConformanceCase) -> bool {
        &&& c.id@ == self.id@
        &&& c.kind == self.kind
        &&& c.evidence.target_profile@ == self.evidence.target_profile@
        &&& c.evidence.reference_build@ == self.evidence.reference_build@
        &&& c.evidence.source@ == self.evidence.source@
        &&& c.evidence.artifact_sha256@ == self.evidence.artifact_sha256@
        &&& c.claims@ == self.claims@
    }

    fn case<'a>(&'a self, trace: ReferenceTrace<'a>) -> (r: FunctionalConformanceCase<'a>)
        ensures
            self.case_fits(r),
            r.trace == trace,
    {
        FunctionalConformanceCase {
            id: self.id.clone(),
            kind: self.kind,
            evidence: ReferenceEvidence {
                target_profile: self.evidence.target_profile.clone(),
                reference_build: self.evidence.reference_build.clone(),
                source: self.evidence.source.clone(),
                artifact_sha256: self.evidence.artifact_sha256.clone(),
            },
            claims: self.claims.clone(),
            trace,
        }
    }
}


/// The first of the manifest's descriptive fields that is blank.
pub open spec fn metadata_error(m: WireManifest) -> Option<Seq<char>> {
    if blank(m.case_id@) {
        Some("case_id"@)
    } else if blank(m.target_profile@) {
        Some("target_profile"@)
    } else if blank(m.reference_build@) {
        Some("reference_build"@)
    } else if blank(m.source@) {
        Some("source"@)
    } else {
        None
    }
}

/// Schema and both hashes well formed.
pub open spec fn header_ok(m: WireManifest) -> bool {
    &&& m.schema_version == NORMALIZED_TRACE_SCHEMA_VERSION
    &&& sha256_text(m.source_artifact_sha256@)
    &&& sha256_text(m.trace_sha256@)
}

/// Every manifest check passes for a trace whose bytes hash to `digest`.
pub open spec fn manifest_ok(m: WireManifest, digest: Seq<char>) -> bool {
    &&& header_ok(m)
    &&& hex_lower(m.trace_sha256@) == digest
    &&& metadata_error(m) is None
    &&& case_kind_named(m.case_kind@) is Some
    &&& claims_error(m.claims@) is None
}

/// Why a manifest cannot go with a trace of this kind, if it cannot.
pub open spec fn kind_mismatch(m: WireManifest, t: WireTrace) -> Option<&'static str> {
    if t is Battle {
        None
    } else if case_kind_named(m.case_kind@) == Some(FunctionalCaseKind::RandomizedBattle) {
        Some("randomized_battle manifest requires a battle trace")
    } else if exists|i: int| 0 <= i < m.claims@.len() && needs_battle(#[trigger] claims_of(m.claims@)[i]) {
        Some("a battle-only mechanics claim requires a battle trace")
    } else {
        None
    }
}

/// The fixture that a valid manifest and trace load to.
pub open spec fn fixture_fits(m: WireManifest, t: WireTrace, digest: Seq<char>, f: LoadedReferenceFixture) -> bool {
    &&& f.id@ == m.case_id@
    &&& f.kind == case_kind_named(m.case_kind@)->Some_0
    &&& f.evidence.target_profile@ == m.target_profile@
    &&& f.evidence.reference_build@ == m.reference_build@
    &&& f.evidence.source@ == m.source@
    &&& f.evidence.artifact_sha256@ == hex_lower(m.source_artifact_sha256@)
    &&& f.trace_sha256@ == digest
    &&& f.claims@ == claims_of(m.claims@)
    &&& trace_fits(t, Ok(f.trace))
}

fn any_battle_claim(claims: &Vec<MechanicClaim>) -> (r: bool)
    ensures
        r == exists|i: int| 0 <= i < claims@.len() && needs_battle(#[trigger] claims@[i]),
{
    let mut i: usize = 0;
    while i < claims.len()
        invariant
            i <= claims@.len(),
            forall|j: int| 0 <= j < i ==> !needs_battle(#[trigger] claims@[j]),
        decreases claims@.len() - i,
    {
        if claims[i].requires_battle_trace() {
            return true;
        }
        i += 1;
    }
    false
}

/// What loading a fixture returns, given the lowercase hex SHA-256 of the
/// trace bytes.
pub open spec fn fixture_load_post(
    manifest: Result<WireManifest, String>,
    trace: Result<WireTrace, String>,
    digest: Seq<char>,
    r: Result<LoadedReferenceFixture, NormalizedFixtureError>,
) -> bool {
    &&& manifest matches Err(message) ==> r == Err::<LoadedReferenceFixture, NormalizedFixtureError>(
        NormalizedFixtureError::Json { document: NormalizedDocument::Manifest, message },
    )
    &&& manifest matches Ok(m) ==> {
        &&& m.schema_version != NORMALIZED_TRACE_SCHEMA_VERSION ==> r == Err::<
            LoadedReferenceFixture,
            NormalizedFixtureError,
        >(NormalizedFixtureError::UnsupportedSchema { document: NormalizedDocument::Manifest, actual: m.schema_version })
        &&& m.schema_version == NORMALIZED_TRACE_SCHEMA_VERSION && !sha256_text(m.source_artifact_sha256@) ==> r
            == Err::<LoadedReferenceFixture, NormalizedFixtureError>(
            NormalizedFixtureError::InvalidSha256 { field: "source_artifact_sha256" },
        )
        &&& m.schema_version == NORMALIZED_TRACE_SCHEMA_VERSION && sha256_text(m.source_artifact_sha256@)
            && !sha256_text(m.trace_sha256@) ==> r == Err::<LoadedReferenceFixture, NormalizedFixtureError>(
            NormalizedFixtureError::InvalidSha256 { field: "trace_sha256" },
        )
        &&& header_ok(m) && hex_lower(m.trace_sha256@) != digest ==> (r matches Err(
            NormalizedFixtureError::TraceHashMismatch { expected, actual },
        ) && expected@ == m.trace_sha256@ && actual@ == digest)
        &&& header_ok(m) && hex_lower(m.trace_sha256@) == digest && metadata_error(m) is Some ==> invalid_field(
            r,
            metadata_error(m)->Some_0,
            "value must not be blank",
        )
        &&& header_ok(m) && hex_lower(m.trace_sha256@) == digest && metadata_error(m) is None && case_kind_named(
            m.case_kind@,
        ) is None ==> invalid_field(r, "case_kind"@, "unknown case kind")
        &&& header_ok(m) && hex_lower(m.trace_sha256@) == digest && metadata_error(m) is None && case_kind_named(
            m.case_kind@,
        ) is Some && claims_error(m.claims@) is Some ==> invalid_field(
            r,
            claims_error(m.claims@)->Some_0.0,
            claims_error(m.claims@)->Some_0.1,
        )
        &&& manifest_ok(m, digest) && trace is Err ==> r == Err::<LoadedReferenceFixture, NormalizedFixtureError>(
            NormalizedFixtureError::Json { document: NormalizedDocument::Trace, message: trace->Err_0 },
        )
        &&& manifest_ok(m, digest) && trace is Ok && !trace_converts(trace->Ok_0) ==> (r matches Err(e) && trace_fits(
            trace->Ok_0,
            Err(e),
        ))
        &&& manifest_ok(m, digest) && trace is Ok && trace_converts(trace->Ok_0) && kind_mismatch(
            m,
            trace->Ok_0,
        ) is Some ==> r == Err::<LoadedReferenceFixture, NormalizedFixtureError>(
            NormalizedFixtureError::TraceKindMismatch { reason: kind_mismatch(m, trace->Ok_0)->Some_0 },
        )
        &&& manifest_ok(m, digest) && trace is Ok && trace_converts(trace->Ok_0) && kind_mismatch(
            m,
            trace->Ok_0,
        ) is None ==> (r matches Ok(f) && fixture_fits(m, trace->Ok_0, digest, f))
    }
}

/// Loads a fixture from its parsed manifest and trace documents (or the
/// parser's message for each) and the exact trace bytes, whose SHA-256 it
/// computes: see [`check_normalized_fixture`].
pub fn load_normalized_fixture(
    manifest: Result<WireManifest, String>,
    trace: Result<WireTrace, String>,
    trace_bytes: &[u8],
) -> (r: Result<LoadedReferenceFixture, NormalizedFixtureError>)
    ensures
        fixture_load_post(manifest, trace, hex_bytes(sha256_digest(trace_bytes@)), r),
{
    let digest = sha256_hex(trace_bytes);
    check_normalized_fixture(manifest, trace, digest)
}

/// Checks a fixture given its parsed manifest and trace documents (or the
/// parser's message for each) and the lowercase hex SHA-256 of the trace
/// bytes: the trace is trusted only after the manifest's schema, both hashes,
/// the trace digest, the descriptive fields, the case kind and the claims
/// check out, and it must be a battle trace where the case kind or a claim
/// needs one.
pub fn check_normalized_fixture(
    manifest: Result<WireManifest, String>,
    trace: Result<WireTrace, String>,
    trace_digest: String,
) -> (r: Result<LoadedReferenceFixture, NormalizedFixtureError>)
    ensures
        fixture_load_post(manifest, trace, trace_digest@, r),
{
    let manifest = match manifest {
        Ok(m) => m,
        Err(message) => {
            return Err(NormalizedFixtureError::Json { document: NormalizedDocument::Manifest, message });
        },
    };
    if manifest.schema_version != NORMALIZED_TRACE_SCHEMA_VERSION {
        return Err(
            NormalizedFixtureError::UnsupportedSchema {
                document: NormalizedDocument::Manifest,
                actual: manifest.schema_version,
            },
        );
    }
    require_sha256(&manifest.source_artifact_sha256, "source_artifact_sha256")?;
    require_sha256(&manifest.trace_sha256, "trace_sha256")?;
    let actual = trace_digest;
    let claimed = lower_hex(&manifest.trace_sha256);
    if claimed != actual {
        return Err(NormalizedFixtureError::TraceHashMismatch { expected: manifest.trace_sha256, actual });
    }
    validate_nonempty(&manifest.case_id, "case_id")?;
    validate_nonempty(&manifest.target_profile, "target_profile")?;
    validate_nonempty(&manifest.reference_build, "reference_build")?;
    validate_nonempty(&manifest.source, "source")?;
    let kind = parse_case_kind(&manifest.case_kind)?;
    let claims = parse_claims(&manifest.claims)?;
    let wire_trace = match trace {
        Ok(t) => t,
        Err(message) => {
            return Err(NormalizedFixtureError::Json { document: NormalizedDocument::Trace, message });
        },
    };
    let converted = convert_trace(&wire_trace)?;
    let battle = match &converted {
        LoadedReferenceTrace::Battle(_) => true,
        LoadedReferenceTrace::Solo(_) => false,
    };
    proof {
        assert(battle == (wire_trace is Battle));
    }
    if kind == FunctionalCaseKind::RandomizedBattle && !battle {
        return Err(
            NormalizedFixtureError::TraceKindMismatch { reason: "randomized_battle manifest requires a battle trace" },
        );
    }
    if !battle && any_battle_claim(&claims) {
        return Err(
            NormalizedFixtureError::TraceKindMismatch {
                reason: "a battle-only mechanics claim requires a battle trace",
            },
        );
    }
    let artifact_sha256 = lower_hex(&manifest.source_artifact_sha256);
    Ok(
        LoadedReferenceFixture {
            id: manifest.case_id,
            kind,
            evidence: ReferenceEvidence {
                target_profile: manifest.target_profile,
                reference_build: manifest.reference_build,
                source: manifest.source,
                artifact_sha256,
            },
            trace_sha256: actual,
            claims,
            trace: converted,
        },
    )
}


} // verus!
