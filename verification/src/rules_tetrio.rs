use vstd::prelude::*;
use vstd::string::*;
use crate::game::{GameConfig, is_default_config};
use crate::handling::{HandlingRules, SoftDropMode};
use crate::spin::{SpinMode, SpinRules};
use crate::timing::{
    Gravity, LinearGravityTiming, TimingConfigError, TimingRules, TimingSchedule, TimingScheduleError,
    schedule_rules_spec,
};
use crate::versus::{
    AttackConfigError, AttackRules, BattleRules, ComboRule, GarbageConfigError, GarbageMessinessRules,
    GarbageMultiplierSchedule, GarbageRules,
};

verus! {

pub const TARGET_PROFILE_ID: &'static str = "tetrio-beta-1.7.8-tetra-league-season-2";

pub const RESEARCH_ACCESS_DATE: &'static str = "2026-08-24";

pub const PLAYER_HANDLING_SCHEMA_VERSION: u16 = 1;

pub const OFFICIAL_PATCH_NOTES: &'static str = "https://tetr.io/about/patchnotes/";

pub const WIKI_MECHANICS: &'static str = "https://tetrio.wiki.gg/wiki/Mechanics";

pub const CURRENT_CLIENT_ASSET: &'static str = "https://tetr.io/js/tetrio.js?hv=63ab5c7c7.efa161fa8f91.20260810T191705";

pub const CLIENT_OPTIONS_FIXTURE: &'static str = "client-options-hv-63ab5c7c7-20260824";

pub const CLIENT_FIREPOWER_FIXTURE: &'static str = "client-firepower-hv-63ab5c7c7-20260824";

pub const CLIENT_GARBAGE_FIXTURE: &'static str = "client-garbage-hv-63ab5c7c7-20260824";

/// Zero-base combo thresholds of the observed multiplier combo rule.
pub open spec fn zero_base_thresholds_spec() -> Seq<u32> {
    seq![
        2u32, 6, 16, 43, 118, 322, 877, 2_384, 6_482, 17_621, 47_899, 130_204, 353_930, 962_083, 2_615_214,
        7_108_888, 19_323_962, 52_527_975, 142_785_840, 388_132_156, 1_055_052_587, 2_867_930_277,
    ]
}

pub fn multiplier_zero_base_thresholds() -> (r: &'static [u32])
    ensures
        r@ == zero_base_thresholds_spec(),
{
    let r = vstd::array::array_as_slice(
        &[
            2u32,
            6,
            16,
            43,
            118,
            322,
            877,
            2_384,
            6_482,
            17_621,
            47_899,
            130_204,
            353_930,
            962_083,
            2_615_214,
            7_108_888,
            19_323_962,
            52_527_975,
            142_785_840,
            388_132_156,
            1_055_052_587,
            2_867_930_277,
        ],
    );
    assert(r@ =~= zero_base_thresholds_spec());
    r
}

#[derive(Clone, Copy, Debug, PartialEq, Eq, Structural)]
pub enum Confidence {
    Confirmed,
    Observed,
    Unconfirmed,
}

#[derive(Clone, Copy, Debug, PartialEq, Eq)]
pub struct Evidence {
    pub source_url: &'static str,
    pub accessed_on: &'static str,
    pub confidence: Confidence,
    pub fixture_id: Option<&'static str>,
    pub note: &'static str,
}

impl Evidence {
    pub fn new(source_url: &'static str, confidence: Confidence, fixture_id: Option<&'static str>, note: &'static str) -> (r: Self)
        ensures
            r == (Evidence { source_url, accessed_on: RESEARCH_ACCESS_DATE, confidence, fixture_id, note }),
    {
        Evidence { source_url, accessed_on: RESEARCH_ACCESS_DATE, confidence, fixture_id, note }
    }

    /// The evidence does not certify conformance: it is not confirmed or no
    /// fixture backs it.
    pub open spec fn blocks(self) -> bool {
        self.confidence != Confidence::Confirmed || self.fixture_id is None
    }
}

#[derive(Clone, Copy, Debug, PartialEq, Eq)]
pub struct Sourced<T> {
    pub value: Option<T>,
    pub unit: &'static str,
    pub evidence: Evidence,
}

impl<T> Sourced<T> {
    pub fn new(value: Option<T>, unit: &'static str, evidence: Evidence) -> (r: Self)
        ensures
            r == (Sourced { value, unit, evidence }),
    {
        Sourced { value, unit, evidence }
    }
}

#[derive(Clone, Copy, Debug, PartialEq, Eq, Structural)]
pub enum RotationSystem {
    SrsPlus,
}

#[derive(Clone, Copy, Debug, PartialEq, Eq, Structural)]
pub enum SpinSystem {
    AllMiniPlus,
}

impl SpinSystem {
    pub fn core_rules(self) -> (r: SpinRules)
        ensures
            r == (SpinRules { mode: SpinMode::AllMiniPlus, t_full_kick_upgrade_mask: 8 }),
    {
        match self {
            SpinSystem::AllMiniPlus => SpinRules::all_mini_plus_observed(),
        }
    }
}

#[derive(Clone, Copy, Debug, PartialEq, Eq)]
pub struct TimingProfileDraft {
    pub tick_rate_hz: Sourced<u16>,
    pub are_frames: Sourced<u16>,
    pub line_clear_are_frames: Sourced<u16>,
    pub gravity_numerator: Sourced<u32>,
    pub gravity_denominator: Sourced<u32>,
    pub gravity_increase_numerator_per_second: Sourced<u32>,
    pub gravity_increase_denominator_per_second: Sourced<u32>,
    pub gravity_margin_frames: Sourced<u32>,
    pub gravity_cap_numerator: Sourced<u32>,
    pub gravity_cap_denominator: Sourced<u32>,
    pub lock_delay_frames: Sourced<u16>,
    pub max_lock_resets: Sourced<u16>,
    pub reset_on_lateral_move: Sourced<bool>,
    pub reset_on_rotation: Sourced<bool>,
}

#[derive(Clone, Copy, Debug, PartialEq, Eq)]
pub struct AttackProfileDraft {
    pub normal_clear: Sourced<[u16; 5]>,
    pub mini_spin: Sourced<[u16; 5]>,
    pub full_spin: Sourced<[u16; 5]>,
    pub combo: Sourced<ComboRule>,
    pub back_to_back_bonus: Sourced<u16>,
    pub back_to_back_charging: Sourced<bool>,
    pub back_to_back_charge_at: Sourced<u32>,
    pub back_to_back_charge_base: Sourced<u32>,
    pub perfect_clear_attack: Sourced<u16>,
    pub perfect_clear_back_to_back: Sourced<u32>,
    pub perfect_clear_back_to_back_sends: Sourced<bool>,
    pub perfect_clear_back_to_back_dupes: Sourced<bool>,
    pub perfect_clear_charges: Sourced<bool>,
    pub garbage_clear_special_bonus: Sourced<u16>,
}

#[derive(Clone, Copy, Debug, PartialEq, Eq)]
pub struct GarbageProfileDraft {
    pub travel_frames: Sourced<u32>,
    pub garbage_cap: Sourced<u8>,
    pub opener_phase_pieces: Sourced<u64>,
    pub combo_blocking: Sourced<bool>,
    pub multiplier: Sourced<GarbageMultiplierSchedule>,
}

#[derive(Clone, Copy, Debug, PartialEq, Eq)]
pub struct RoomHandlingProfileDraft {
    pub enforced: Sourced<bool>,
    pub inactive_arr_frames: Sourced<u16>,
    pub inactive_das_frames: Sourced<u16>,
    pub inactive_sdf_value: Sourced<u16>,
}

impl RoomHandlingProfileDraft {
    pub fn requires_player_handling(self) -> (r: bool)
        ensures
            r == (self.enforced.value == Some(false)),
    {
        match self.enforced.value {
            Some(enforced) => !enforced,
            None => false,
        }
    }
}

/// Replay/config-derived effective handling after unit conversion to frames.
///
/// TETRA LEAGUE does not enforce room handling in the observed target profile,
/// so this record must accompany every replay fixture. Raw UI/client values are
/// converted by a versioned adapter before constructing this type.
#[derive(Clone, Copy, Debug, PartialEq, Eq, Structural)]
pub struct PlayerHandlingProfile {
    pub schema_version: u16,
    pub das_frames: u16,
    pub arr_frames: u16,
    pub dcd_frames: u16,
    pub soft_drop: SoftDropMode,
}

impl PlayerHandlingProfile {
    pub fn normalized(das_frames: u16, arr_frames: u16, dcd_frames: u16, soft_drop: SoftDropMode) -> (r: Self)
        ensures
            r == (PlayerHandlingProfile {
                schema_version: PLAYER_HANDLING_SCHEMA_VERSION,
                das_frames,
                arr_frames,
                dcd_frames,
                soft_drop,
            }),
    {
        PlayerHandlingProfile { schema_version: PLAYER_HANDLING_SCHEMA_VERSION, das_frames, arr_frames, dcd_frames, soft_drop }
    }

    pub open spec fn core_rules_spec(self) -> HandlingRules {
        HandlingRules {
            das_frames: self.das_frames,
            arr_frames: self.arr_frames,
            dcd_frames: self.dcd_frames,
            soft_drop: self.soft_drop,
        }
    }

    pub fn core_rules(self) -> (r: HandlingRules)
        ensures
            r == self.core_rules_spec(),
    {
        HandlingRules::new(self.das_frames, self.arr_frames, self.dcd_frames, self.soft_drop)
    }
}

#[derive(Clone, Copy, Debug, PartialEq, Eq)]
pub struct TetrioRulesDraft {
    pub profile_id: &'static str,
    pub upstream_version: &'static str,
    pub mode: &'static str,
    pub version_evidence: Evidence,
    pub board_width: Sourced<u8>,
    pub board_height: Sourced<u8>,
    pub rotation_system: Sourced<RotationSystem>,
    pub spin_system: Sourced<SpinSystem>,
    pub timing: TimingProfileDraft,
    pub attack: AttackProfileDraft,
    pub garbage: GarbageProfileDraft,
    pub room_handling: RoomHandlingProfileDraft,
}

#[derive(Clone, Copy, Debug, PartialEq, Eq, Structural)]
pub struct ActiveTimingProfile {
    pub tick_rate_hz: u16,
    pub are_frames: u16,
    pub line_clear_are_frames: u16,
    pub initial_gravity: Gravity,
    pub gravity_increase_per_second: Gravity,
    pub gravity_margin_frames: u32,
    pub gravity_cap: Gravity,
    pub lock_delay_frames: u16,
    pub max_lock_resets: u16,
    pub reset_on_lateral_move: bool,
    pub reset_on_rotation: bool,
}

#[derive(Clone, Debug, PartialEq, Eq)]
pub enum ProfileActivationError {
    MissingRequiredFields(Vec<&'static str>),
    InvalidTimingConfiguration(TimingConfigError),
    InvalidAttackConfiguration(AttackConfigError),
    InvalidGarbageConfiguration(GarbageConfigError),
    ZeroTickRate,
    TimingArithmeticOverflow,
    InternalValidationInvariant,
}

impl ProfileActivationError {
    /// The message as text.
    pub open spec fn text(&self) -> Seq<char> {
        match self {
            ProfileActivationError::MissingRequiredFields(_) => "required profile fields are missing"@,
            ProfileActivationError::InvalidTimingConfiguration(_) => "invalid timing configuration"@,
            ProfileActivationError::InvalidAttackConfiguration(_) => "invalid attack configuration"@,
            ProfileActivationError::InvalidGarbageConfiguration(_) => "invalid garbage configuration"@,
            ProfileActivationError::ZeroTickRate => "tick rate is zero"@,
            ProfileActivationError::TimingArithmeticOverflow => "timing arithmetic overflowed"@,
            ProfileActivationError::InternalValidationInvariant => "internal validation invariant failed"@,
        }
    }

    pub fn message(&self) -> (r: String)
        ensures
            r@ == self.text(),
    {
        match self {
            ProfileActivationError::MissingRequiredFields(_) => String::from_str("required profile fields are missing"),
            ProfileActivationError::InvalidTimingConfiguration(_) => String::from_str("invalid timing configuration"),
            ProfileActivationError::InvalidAttackConfiguration(_) => String::from_str("invalid attack configuration"),
            ProfileActivationError::InvalidGarbageConfiguration(_) => String::from_str(
                "invalid garbage configuration",
            ),
            ProfileActivationError::ZeroTickRate => String::from_str("tick rate is zero"),
            ProfileActivationError::TimingArithmeticOverflow => String::from_str("timing arithmetic overflowed"),
            ProfileActivationError::InternalValidationInvariant => String::from_str(
                "internal validation invariant failed",
            ),
        }
    }
}

pub open spec fn map_schedule_error_spec(e: TimingScheduleError) -> ProfileActivationError {
    match e {
        TimingScheduleError::ZeroTickRate => ProfileActivationError::ZeroTickRate,
        TimingScheduleError::ArithmeticOverflow => ProfileActivationError::TimingArithmeticOverflow,
        TimingScheduleError::InvalidGravity(g) => ProfileActivationError::InvalidTimingConfiguration(g),
    }
}

fn map_timing_schedule_error(error: TimingScheduleError) -> (r: ProfileActivationError)
    ensures
        r == map_schedule_error_spec(error),
{
    match error {
        TimingScheduleError::ZeroTickRate => ProfileActivationError::ZeroTickRate,
        TimingScheduleError::ArithmeticOverflow => ProfileActivationError::TimingArithmeticOverflow,
        TimingScheduleError::InvalidGravity(error) => ProfileActivationError::InvalidTimingConfiguration(error),
    }
}

fn required<T>(value: Option<T>) -> (r: Result<T, ProfileActivationError>)
    ensures
        match value {
            Some(v) => r == Ok::<T, ProfileActivationError>(v),
            None => r == Err::<T, ProfileActivationError>(ProfileActivationError::InternalValidationInvariant),
        },
{
    match value {
        Some(v) => Ok(v),
        None => Err(ProfileActivationError::InternalValidationInvariant),
    }
}

impl ActiveTimingProfile {
    pub open spec fn wf(self) -> bool {
        self.initial_gravity.wf() && self.gravity_increase_per_second.wf() && self.gravity_cap.wf()
    }

    pub open spec fn base_rules(self) -> TimingRules {
        TimingRules {
            gravity: self.initial_gravity,
            lock_delay_frames: self.lock_delay_frames,
            max_lock_resets: self.max_lock_resets,
            reset_on_lateral_move: self.reset_on_lateral_move,
            reset_on_rotation: self.reset_on_rotation,
        }
    }

    /// The linear gravity schedule of the profile, when its tick rate is valid.
    pub open spec fn schedule_spec(self) -> Result<TimingSchedule, ProfileActivationError> {
        if self.tick_rate_hz == 0 {
            Err(ProfileActivationError::ZeroTickRate)
        } else {
            Ok(
                TimingSchedule::LinearGravity(
                    LinearGravityTiming {
                        base_rules: self.base_rules(),
                        increase_per_second: self.gravity_increase_per_second,
                        margin_frames: self.gravity_margin_frames as u64,
                        tick_rate_hz: self.tick_rate_hz as u32,
                        cap: self.gravity_cap,
                    },
                ),
            )
        }
    }

    pub fn core_schedule(self) -> (r: Result<TimingSchedule, ProfileActivationError>)
        requires
            self.wf(),
        ensures
            r == self.schedule_spec(),
            r matches Ok(s) ==> s.wf(),
    {
        let base_rules = TimingRules::new(
            self.initial_gravity,
            self.lock_delay_frames,
            self.max_lock_resets,
            self.reset_on_lateral_move,
            self.reset_on_rotation,
        );
        match LinearGravityTiming::new(
            base_rules,
            self.gravity_increase_per_second,
            self.gravity_margin_frames as u64,
            self.tick_rate_hz as u32,
            self.gravity_cap,
        ) {
            Ok(schedule) => Ok(TimingSchedule::linear_gravity(schedule)),
            Err(e) => Err(map_timing_schedule_error(e)),
        }
    }

    pub open spec fn rules_at_spec(self, elapsed_frames: u64) -> Result<TimingRules, ProfileActivationError> {
        match self.schedule_spec() {
            Err(e) => Err(e),
            Ok(s) => match schedule_rules_spec(s, elapsed_frames) {
                Ok(rules) => Ok(rules),
                Err(e) => Err(map_schedule_error_spec(e)),
            },
        }
    }

    pub fn core_rules_at_frame(self, elapsed_frames: u64) -> (r: Result<TimingRules, ProfileActivationError>)
        requires
            self.wf(),
        ensures
            r == self.rules_at_spec(elapsed_frames),
            r matches Ok(rules) ==> rules.wf(),
    {
        let schedule = match self.core_schedule() {
            Ok(s) => s,
            Err(e) => {
                return Err(e);
            },
        };
        match schedule.rules_at_frame(elapsed_frames) {
            Ok(rules) => Ok(rules),
            Err(e) => Err(map_timing_schedule_error(e)),
        }
    }

    pub fn gravity_at_frame(self, elapsed_frames: u64) -> (r: Result<Gravity, ProfileActivationError>)
        requires
            self.wf(),
        ensures
            match self.rules_at_spec(elapsed_frames) {
                Ok(rules) => r == Ok::<Gravity, ProfileActivationError>(rules.gravity),
                Err(e) => r == Err::<Gravity, ProfileActivationError>(e),
            },
    {
        match self.core_rules_at_frame(elapsed_frames) {
            Ok(rules) => Ok(rules.gravity),
            Err(e) => Err(e),
        }
    }
}

/// Named required fields with whether a value is present and its evidence.
pub type FieldStatus = (&'static str, bool, Evidence);

pub open spec fn timing_fields(timing: TimingProfileDraft) -> Seq<FieldStatus> {
    seq![
        ("timing.tick_rate_hz", timing.tick_rate_hz.value is Some, timing.tick_rate_hz.evidence),
        ("timing.are_frames", timing.are_frames.value is Some, timing.are_frames.evidence),
        ("timing.line_clear_are_frames", timing.line_clear_are_frames.value is Some, timing.line_clear_are_frames.evidence),
        ("timing.gravity_numerator", timing.gravity_numerator.value is Some, timing.gravity_numerator.evidence),
        ("timing.gravity_denominator", timing.gravity_denominator.value is Some, timing.gravity_denominator.evidence),
        ("timing.gravity_increase_numerator_per_second", timing.gravity_increase_numerator_per_second.value is Some, timing.gravity_increase_numerator_per_second.evidence),
        ("timing.gravity_increase_denominator_per_second", timing.gravity_increase_denominator_per_second.value is Some, timing.gravity_increase_denominator_per_second.evidence),
        ("timing.gravity_margin_frames", timing.gravity_margin_frames.value is Some, timing.gravity_margin_frames.evidence),
        ("timing.gravity_cap_numerator", timing.gravity_cap_numerator.value is Some, timing.gravity_cap_numerator.evidence),
        ("timing.gravity_cap_denominator", timing.gravity_cap_denominator.value is Some, timing.gravity_cap_denominator.evidence),
        ("timing.lock_delay_frames", timing.lock_delay_frames.value is Some, timing.lock_delay_frames.evidence),
        ("timing.max_lock_resets", timing.max_lock_resets.value is Some, timing.max_lock_resets.evidence),
        ("timing.reset_on_lateral_move", timing.reset_on_lateral_move.value is Some, timing.reset_on_lateral_move.evidence),
        ("timing.reset_on_rotation", timing.reset_on_rotation.value is Some, timing.reset_on_rotation.evidence)
    ]
}

pub open spec fn attack_fields(attack: AttackProfileDraft) -> Seq<FieldStatus> {
    seq![
        ("attack.normal_clear", attack.normal_clear.value is Some, attack.normal_clear.evidence),
        ("attack.mini_spin", attack.mini_spin.value is Some, attack.mini_spin.evidence),
        ("attack.full_spin", attack.full_spin.value is Some, attack.full_spin.evidence),
        ("attack.combo", attack.combo.value is Some, attack.combo.evidence),
        ("attack.back_to_back_bonus", attack.back_to_back_bonus.value is Some, attack.back_to_back_bonus.evidence),
        ("attack.back_to_back_charging", attack.back_to_back_charging.value is Some, attack.back_to_back_charging.evidence),
        ("attack.back_to_back_charge_at", attack.back_to_back_charge_at.value is Some, attack.back_to_back_charge_at.evidence),
        ("attack.back_to_back_charge_base", attack.back_to_back_charge_base.value is Some, attack.back_to_back_charge_base.evidence),
        ("attack.perfect_clear_attack", attack.perfect_clear_attack.value is Some, attack.perfect_clear_attack.evidence),
        ("attack.perfect_clear_back_to_back", attack.perfect_clear_back_to_back.value is Some, attack.perfect_clear_back_to_back.evidence),
        ("attack.perfect_clear_back_to_back_sends", attack.perfect_clear_back_to_back_sends.value is Some, attack.perfect_clear_back_to_back_sends.evidence),
        ("attack.perfect_clear_back_to_back_dupes", attack.perfect_clear_back_to_back_dupes.value is Some, attack.perfect_clear_back_to_back_dupes.evidence),
        ("attack.perfect_clear_charges", attack.perfect_clear_charges.value is Some, attack.perfect_clear_charges.evidence),
        ("attack.garbage_clear_special_bonus", attack.garbage_clear_special_bonus.value is Some, attack.garbage_clear_special_bonus.evidence)
    ]
}

pub open spec fn garbage_fields(garbage: GarbageProfileDraft) -> Seq<FieldStatus> {
    seq![
        ("garbage.travel_frames", garbage.travel_frames.value is Some, garbage.travel_frames.evidence),
        ("garbage.garbage_cap", garbage.garbage_cap.value is Some, garbage.garbage_cap.evidence),
        ("garbage.opener_phase_pieces", garbage.opener_phase_pieces.value is Some, garbage.opener_phase_pieces.evidence),
        ("garbage.combo_blocking", garbage.combo_blocking.value is Some, garbage.combo_blocking.evidence),
        ("garbage.multiplier", garbage.multiplier.value is Some, garbage.multiplier.evidence)
    ]
}

/// Names of the fields without a value, in order.
pub open spec fn missing_names(s: Seq<FieldStatus>) -> Seq<&'static str>
    decreases s.len(),
{
    if s.len() == 0 {
        Seq::empty()
    } else if !s.last().1 {
        missing_names(s.drop_last()).push(s.last().0)
    } else {
        missing_names(s.drop_last())
    }
}

/// Names of the fields whose evidence does not certify conformance, in order.
pub open spec fn blocker_names(s: Seq<FieldStatus>) -> Seq<&'static str>
    decreases s.len(),
{
    if s.len() == 0 {
        Seq::empty()
    } else if s.last().2.blocks() {
        blocker_names(s.drop_last()).push(s.last().0)
    } else {
        blocker_names(s.drop_last())
    }
}

fn required_timing_fields(timing: TimingProfileDraft) -> (r: [FieldStatus; 14])
    ensures
        r@ == timing_fields(timing),
{
    let r = [
        ("timing.tick_rate_hz", timing.tick_rate_hz.value.is_some(), timing.tick_rate_hz.evidence),
        ("timing.are_frames", timing.are_frames.value.is_some(), timing.are_frames.evidence),
        ("timing.line_clear_are_frames", timing.line_clear_are_frames.value.is_some(), timing.line_clear_are_frames.evidence),
        ("timing.gravity_numerator", timing.gravity_numerator.value.is_some(), timing.gravity_numerator.evidence),
        ("timing.gravity_denominator", timing.gravity_denominator.value.is_some(), timing.gravity_denominator.evidence),
        ("timing.gravity_increase_numerator_per_second", timing.gravity_increase_numerator_per_second.value.is_some(), timing.gravity_increase_numerator_per_second.evidence),
        ("timing.gravity_increase_denominator_per_second", timing.gravity_increase_denominator_per_second.value.is_some(), timing.gravity_increase_denominator_per_second.evidence),
        ("timing.gravity_margin_frames", timing.gravity_margin_frames.value.is_some(), timing.gravity_margin_frames.evidence),
        ("timing.gravity_cap_numerator", timing.gravity_cap_numerator.value.is_some(), timing.gravity_cap_numerator.evidence),
        ("timing.gravity_cap_denominator", timing.gravity_cap_denominator.value.is_some(), timing.gravity_cap_denominator.evidence),
        ("timing.lock_delay_frames", timing.lock_delay_frames.value.is_some(), timing.lock_delay_frames.evidence),
        ("timing.max_lock_resets", timing.max_lock_resets.value.is_some(), timing.max_lock_resets.evidence),
        ("timing.reset_on_lateral_move", timing.reset_on_lateral_move.value.is_some(), timing.reset_on_lateral_move.evidence),
        ("timing.reset_on_rotation", timing.reset_on_rotation.value.is_some(), timing.reset_on_rotation.evidence)
    ];
    assert(r@ =~= timing_fields(timing));
    r
}

fn required_attack_fields(attack: AttackProfileDraft) -> (r: [FieldStatus; 14])
    ensures
        r@ == attack_fields(attack),
{
    let r = [
        ("attack.normal_clear", attack.normal_clear.value.is_some(), attack.normal_clear.evidence),
        ("attack.mini_spin", attack.mini_spin.value.is_some(), attack.mini_spin.evidence),
        ("attack.full_spin", attack.full_spin.value.is_some(), attack.full_spin.evidence),
        ("attack.combo", attack.combo.value.is_some(), attack.combo.evidence),
        ("attack.back_to_back_bonus", attack.back_to_back_bonus.value.is_some(), attack.back_to_back_bonus.evidence),
        ("attack.back_to_back_charging", attack.back_to_back_charging.value.is_some(), attack.back_to_back_charging.evidence),
        ("attack.back_to_back_charge_at", attack.back_to_back_charge_at.value.is_some(), attack.back_to_back_charge_at.evidence),
        ("attack.back_to_back_charge_base", attack.back_to_back_charge_base.value.is_some(), attack.back_to_back_charge_base.evidence),
        ("attack.perfect_clear_attack", attack.perfect_clear_attack.value.is_some(), attack.perfect_clear_attack.evidence),
        ("attack.perfect_clear_back_to_back", attack.perfect_clear_back_to_back.value.is_some(), attack.perfect_clear_back_to_back.evidence),
        ("attack.perfect_clear_back_to_back_sends", attack.perfect_clear_back_to_back_sends.value.is_some(), attack.perfect_clear_back_to_back_sends.evidence),
        ("attack.perfect_clear_back_to_back_dupes", attack.perfect_clear_back_to_back_dupes.value.is_some(), attack.perfect_clear_back_to_back_dupes.evidence),
        ("attack.perfect_clear_charges", attack.perfect_clear_charges.value.is_some(), attack.perfect_clear_charges.evidence),
        ("attack.garbage_clear_special_bonus", attack.garbage_clear_special_bonus.value.is_some(), attack.garbage_clear_special_bonus.evidence)
    ];
    assert(r@ =~= attack_fields(attack));
    r
}

fn required_garbage_fields(garbage: GarbageProfileDraft) -> (r: [FieldStatus; 5])
    ensures
        r@ == garbage_fields(garbage),
{
    let r = [
        ("garbage.travel_frames", garbage.travel_frames.value.is_some(), garbage.travel_frames.evidence),
        ("garbage.garbage_cap", garbage.garbage_cap.value.is_some(), garbage.garbage_cap.evidence),
        ("garbage.opener_phase_pieces", garbage.opener_phase_pieces.value.is_some(), garbage.opener_phase_pieces.evidence),
        ("garbage.combo_blocking", garbage.combo_blocking.value.is_some(), garbage.combo_blocking.evidence),
        ("garbage.multiplier", garbage.multiplier.value.is_some(), garbage.multiplier.evidence)
    ];
    assert(r@ =~= garbage_fields(garbage));
    r
}

fn missing_of(fields: &[FieldStatus]) -> (r: Vec<&'static str>)
    ensures
        r@ == missing_names(fields@),
{
    let mut out: Vec<&'static str> = Vec::new();
    let mut i: usize = 0;
    while i < fields.len()
        invariant
            i <= fields@.len(),
            out@ == missing_names(fields@.take(i as int)),
        decreases fields@.len() - i,
    {
        proof {
            assert(fields@.take(i + 1).drop_last() =~= fields@.take(i as int));
        }
        let (name, present, _) = fields[i];
        if !present {
            out.push(name);
        }
        i += 1;
    }
    assert(fields@.take(fields@.len() as int) =~= fields@);
    out
}

fn blockers_of(fields: &[FieldStatus]) -> (r: Vec<&'static str>)
    ensures
        r@ == blocker_names(fields@),
{
    let mut out: Vec<&'static str> = Vec::new();
    let mut i: usize = 0;
    while i < fields.len()
        invariant
            i <= fields@.len(),
            out@ == blocker_names(fields@.take(i as int)),
        decreases fields@.len() - i,
    {
        proof {
            assert(fields@.take(i + 1).drop_last() =~= fields@.take(i as int));
        }
        let (name, _, evidence) = fields[i];
        let confirmed = match evidence.confidence {
            Confidence::Confirmed => true,
            _ => false,
        };
        if !confirmed || evidence.fixture_id.is_none() {
            out.push(name);
        }
        i += 1;
    }
    assert(fields@.take(fields@.len() as int) =~= fields@);
    out
}

/// No field is missing exactly when every field carries a value.
pub proof fn lemma_missing_empty(s: Seq<FieldStatus>)
    ensures
        missing_names(s).len() == 0 <==> forall|i: int| 0 <= i < s.len() ==> #[trigger] s[i].1,
    decreases s.len(),
{
    if s.len() > 0 {
        lemma_missing_empty(s.drop_last());
        if missing_names(s).len() == 0 {
            assert forall|i: int| 0 <= i < s.len() implies #[trigger] s[i].1 by {
                if i < s.len() - 1 {
                    assert(s.drop_last()[i] == s[i]);
                }
            }
        }
        if forall|i: int| 0 <= i < s.len() ==> #[trigger] s[i].1 {
            assert(s[s.len() - 1].1);
            assert forall|i: int| 0 <= i < s.drop_last().len() implies #[trigger] s.drop_last()[i].1 by {
                assert(s.drop_last()[i] == s[i]);
            }
        }
    }
}

/// Observed, not confirmed, evidence backed by the given client fixture.
pub open spec fn observed_by(e: Evidence, fixture: &'static str) -> bool {
    e.confidence == Confidence::Observed && e.fixture_id == Some(fixture)
}

pub open spec fn mechanics_evidence() -> Evidence {
    Evidence {
        source_url: WIKI_MECHANICS,
        accessed_on: RESEARCH_ACCESS_DATE,
        confidence: Confidence::Observed,
        fixture_id: None,
        note: "Community-maintained description; reference replay fixtures are still required.",
    }
}

pub open spec fn client_options_evidence() -> Evidence {
    Evidence {
        source_url: CURRENT_CLIENT_ASSET,
        accessed_on: RESEARCH_ACCESS_DATE,
        confidence: Confidence::Observed,
        fixture_id: Some(CLIENT_OPTIONS_FIXTURE),
        note: "Reproducibly extracted TL options; all 31 fields matched the 2026-05-04 asset snapshot.",
    }
}

pub open spec fn reset_behavior_evidence() -> Evidence {
    Evidence {
        source_url: WIKI_MECHANICS,
        accessed_on: RESEARCH_ACCESS_DATE,
        confidence: Confidence::Observed,
        fixture_id: Some(CLIENT_OPTIONS_FIXTURE),
        note: "Wiki documents move/rotation resets; client options independently expose a 15-reset cap.",
    }
}

pub open spec fn client_firepower_evidence() -> Evidence {
    Evidence {
        source_url: CURRENT_CLIENT_ASSET,
        accessed_on: RESEARCH_ACCESS_DATE,
        confidence: Confidence::Observed,
        fixture_id: Some(CLIENT_FIREPOWER_FIXTURE),
        note: "Current client tables and 53 generated clear/combo/B2B/All-Clear cases; snapshot SHA-256 b92d2446e42752a8ba86d873696a83cee0d99223d4bdafc1355a22cabbb3206b.",
    }
}

pub open spec fn client_garbage_evidence() -> Evidence {
    Evidence {
        source_url: CURRENT_CLIENT_ASSET,
        accessed_on: RESEARCH_ACCESS_DATE,
        confidence: Confidence::Observed,
        fixture_id: Some(CLIENT_GARBAGE_FIXTURE),
        note: "Current TL preset plus FightLines/TakeAllDamage control flow; bundle SHA-256 aab6d586aaaef57f84553cbd60237604832be420fa2b27773b6e697f66b84d66.",
    }
}

/// Version, mode and the evidence behind every field of the observed
/// TETRA LEAGUE season 2 profile.
pub open spec fn observed_tetra_league_sources(d: TetrioRulesDraft) -> bool {
    &&& d.upstream_version == "BETA 1.7.8"
    &&& d.mode == "TETRA LEAGUE Season 2"
    &&& d.version_evidence == (Evidence {
        source_url: OFFICIAL_PATCH_NOTES,
        accessed_on: RESEARCH_ACCESS_DATE,
        confidence: Confidence::Confirmed,
        fixture_id: None,
        note: "Official patch history identifies the pinned upstream version.",
    })
    &&& d.board_width.evidence == mechanics_evidence()
    &&& d.board_height.evidence == mechanics_evidence()
    &&& d.rotation_system.evidence == client_options_evidence()
    &&& d.spin_system.evidence == (Evidence {
        source_url: OFFICIAL_PATCH_NOTES,
        accessed_on: RESEARCH_ACCESS_DATE,
        confidence: Confidence::Confirmed,
        fixture_id: Some(CLIENT_OPTIONS_FIXTURE),
        note: "BETA 1.5.0 changed multiplayer defaults; current client snapshot still selects All-Mini+.",
    })
    &&& forall|i: int| 0 <= i < 12 ==> #[trigger] timing_fields(d.timing)[i].2 == client_options_evidence()
    &&& timing_fields(d.timing)[12].2 == reset_behavior_evidence()
    &&& timing_fields(d.timing)[13].2 == reset_behavior_evidence()
    &&& forall|i: int| 0 <= i < 14 ==> #[trigger] attack_fields(d.attack)[i].2 == client_firepower_evidence()
    &&& forall|i: int| 0 <= i < 5 ==> #[trigger] garbage_fields(d.garbage)[i].2 == client_garbage_evidence()
    &&& d.room_handling.enforced.evidence == client_options_evidence()
    &&& d.room_handling.inactive_arr_frames.evidence == client_options_evidence()
    &&& d.room_handling.inactive_das_frames.evidence == client_options_evidence()
    &&& d.room_handling.inactive_sdf_value.evidence == client_options_evidence()
}

/// Values and evidence of the observed TETRA LEAGUE season 2 profile.
pub open spec fn observed_tetra_league(d: TetrioRulesDraft) -> bool {
    let t = d.timing;
    let a = d.attack;
    let g = d.garbage;
    &&& d.profile_id == TARGET_PROFILE_ID
    &&& d.board_width.value == Some(10u8)
    &&& d.board_height.value == Some(40u8)
    &&& d.rotation_system.value == Some(RotationSystem::SrsPlus)
    &&& d.spin_system.value == Some(SpinSystem::AllMiniPlus)
    &&& t.tick_rate_hz.value == Some(60u16)
    &&& t.are_frames.value == Some(0u16)
    &&& t.line_clear_are_frames.value == Some(0u16)
    &&& t.gravity_numerator.value == Some(1u32)
    &&& t.gravity_denominator.value == Some(50u32)
    &&& t.gravity_increase_numerator_per_second.value == Some(7u32)
    &&& t.gravity_increase_denominator_per_second.value == Some(2000u32)
    &&& t.gravity_margin_frames.value == Some(7200u32)
    &&& t.gravity_cap_numerator.value == Some(20u32)
    &&& t.gravity_cap_denominator.value == Some(1u32)
    &&& t.lock_delay_frames.value == Some(30u16)
    &&& t.max_lock_resets.value == Some(15u16)
    &&& t.reset_on_lateral_move.value == Some(true)
    &&& t.reset_on_rotation.value == Some(true)
    &&& forall|i: int| 0 <= i < 14 ==> #[trigger] observed_by(timing_fields(t)[i].2, CLIENT_OPTIONS_FIXTURE)
    &&& a.normal_clear.value matches Some(v) && v@ == seq![0u16, 0, 1, 2, 4]
    &&& a.mini_spin.value matches Some(v) && v@ == seq![0u16, 0, 1, 2, 4]
    &&& a.full_spin.value matches Some(v) && v@ == seq![0u16, 2, 4, 6, 10]
    &&& a.combo.value matches Some(ComboRule::Multiplier { increment_numerator, increment_denominator, zero_base_min_combo_index })
        && increment_numerator == 1 && increment_denominator == 4 && zero_base_min_combo_index@
        == zero_base_thresholds_spec()
    &&& a.back_to_back_bonus.value == Some(1u16)
    &&& a.back_to_back_charging.value == Some(true)
    &&& a.back_to_back_charge_at.value == Some(4u32)
    &&& a.back_to_back_charge_base.value == Some(0u32)
    &&& a.perfect_clear_attack.value == Some(5u16)
    &&& a.perfect_clear_back_to_back.value == Some(1u32)
    &&& a.perfect_clear_back_to_back_sends.value == Some(false)
    &&& a.perfect_clear_back_to_back_dupes.value == Some(true)
    &&& a.perfect_clear_charges.value == Some(false)
    &&& a.garbage_clear_special_bonus.value == Some(1u16)
    &&& forall|i: int| 0 <= i < 14 ==> #[trigger] observed_by(attack_fields(a)[i].2, CLIENT_FIREPOWER_FIXTURE)
    &&& g.travel_frames.value == Some(20u32)
    &&& g.garbage_cap.value == Some(8u8)
    &&& g.opener_phase_pieces.value == Some(14u64)
    &&& g.combo_blocking.value == Some(true)
    &&& g.multiplier.value == Some(
        GarbageMultiplierSchedule {
            initial_numerator: 1,
            initial_denominator: 1,
            increase_numerator_per_second: 1,
            increase_denominator_per_second: 125,
            margin_frames: 10_800,
            tick_rate_hz: 60,
        },
    )
    &&& forall|i: int| 0 <= i < 5 ==> #[trigger] observed_by(garbage_fields(g)[i].2, CLIENT_GARBAGE_FIXTURE)
    &&& d.room_handling.enforced.value == Some(false)
    &&& d.room_handling.inactive_arr_frames.value == Some(2u16)
    &&& d.room_handling.inactive_das_frames.value == Some(10u16)
    &&& d.room_handling.inactive_sdf_value.value == Some(6u16)
}

pub proof fn lemma_blockers_all(s: Seq<FieldStatus>)
    requires
        forall|i: int| 0 <= i < s.len() ==> #[trigger] s[i].2.blocks(),
    ensures
        blocker_names(s).len() == s.len(),
        forall|i: int| 0 <= i < s.len() ==> blocker_names(s)[i] == #[trigger] s[i].0,
    decreases s.len(),
{
    if s.len() > 0 {
        assert forall|i: int| 0 <= i < s.drop_last().len() implies #[trigger] s.drop_last()[i].2.blocks() by {
            assert(s.drop_last()[i] == s[i]);
        }
        lemma_blockers_all(s.drop_last());
        assert(s[s.len() - 1].2.blocks());
        assert forall|i: int| 0 <= i < s.len() implies blocker_names(s)[i] == #[trigger] s[i].0 by {
            if i < s.len() - 1 {
                assert(s.drop_last()[i] == s[i]);
            }
        }
    }
}

/// The observed profile is complete and executable: no required timing,
/// attack or garbage field is missing, its gravities have nonzero
/// denominators, its attack and garbage rules validate, and, being only
/// observed, every timing field still blocks conformance certification.
pub proof fn lemma_observed_profile_activates(d: TetrioRulesDraft)
    requires
        observed_tetra_league(d),
    ensures
        missing_names(timing_fields(d.timing)).len() == 0,
        !zero_gravity_denominator(d.timing),
        missing_names(attack_fields(d.attack)).len() == 0,
        attack_rules_of(d.attack).config_error() is None,
        missing_names(garbage_fields(d.garbage)).len() == 0,
        garbage_rules_of(d.garbage).config_error() is None,
        blocker_names(timing_fields(d.timing)) == timing_fields(d.timing).map_values(|f: FieldStatus| f.0),
{
    lemma_missing_empty(timing_fields(d.timing));
    lemma_missing_empty(attack_fields(d.attack));
    lemma_missing_empty(garbage_fields(d.garbage));
    let t = zero_base_thresholds_spec();
        assert(t[0] < t[1]);
        assert(t[1] < t[2]);
        assert(t[2] < t[3]);
        assert(t[3] < t[4]);
        assert(t[4] < t[5]);
        assert(t[5] < t[6]);
        assert(t[6] < t[7]);
        assert(t[7] < t[8]);
        assert(t[8] < t[9]);
        assert(t[9] < t[10]);
        assert(t[10] < t[11]);
        assert(t[11] < t[12]);
        assert(t[12] < t[13]);
        assert(t[13] < t[14]);
        assert(t[14] < t[15]);
        assert(t[15] < t[16]);
        assert(t[16] < t[17]);
        assert(t[17] < t[18]);
        assert(t[18] < t[19]);
        assert(t[19] < t[20]);
        assert(t[20] < t[21]);
    assert(crate::versus::increasing(t));
    let fields = timing_fields(d.timing);
    assert forall|i: int| 0 <= i < fields.len() implies #[trigger] fields[i].2.blocks() by {
        assert(observed_by(fields[i].2, CLIENT_OPTIONS_FIXTURE));
    }
    lemma_blockers_all(fields);
    assert(blocker_names(fields) =~= fields.map_values(|f: FieldStatus| f.0));
}

/// The attack rules a complete attack draft activates.
pub open spec fn attack_rules_of(a: AttackProfileDraft) -> AttackRules {
    AttackRules {
        normal_clear: a.normal_clear.value->Some_0,
        mini_spin: a.mini_spin.value->Some_0,
        full_spin: a.full_spin.value->Some_0,
        combo: a.combo.value->Some_0,
        back_to_back_bonus: a.back_to_back_bonus.value->Some_0,
        back_to_back_charging: a.back_to_back_charging.value->Some_0,
        back_to_back_charge_at: a.back_to_back_charge_at.value->Some_0,
        back_to_back_charge_base: a.back_to_back_charge_base.value->Some_0,
        perfect_clear_attack: a.perfect_clear_attack.value->Some_0,
        perfect_clear_back_to_back: a.perfect_clear_back_to_back.value->Some_0,
        perfect_clear_back_to_back_sends: a.perfect_clear_back_to_back_sends.value->Some_0,
        perfect_clear_back_to_back_dupes: a.perfect_clear_back_to_back_dupes.value->Some_0,
        perfect_clear_charges: a.perfect_clear_charges.value->Some_0,
        garbage_clear_special_bonus: a.garbage_clear_special_bonus.value->Some_0,
    }
}

/// The garbage rules a complete garbage draft activates.
pub open spec fn garbage_rules_of(g: GarbageProfileDraft) -> GarbageRules {
    GarbageRules {
        travel_frames: g.travel_frames.value->Some_0,
        garbage_cap: g.garbage_cap.value->Some_0,
        opener_phase_pieces: g.opener_phase_pieces.value->Some_0,
        combo_blocking: g.combo_blocking.value->Some_0,
        messiness: GarbageMessinessRules {
            change_numerator: 1,
            change_denominator: 1,
            inner_numerator: 0,
            inner_denominator: 1,
            no_same: false,
            center: false,
        },
        multiplier: g.multiplier.value->Some_0,
    }
}

/// A complete timing draft whose three gravities have nonzero denominators
/// activates this profile.
pub open spec fn timing_profile_of(t: TimingProfileDraft, p: ActiveTimingProfile) -> bool {
    &&& p.tick_rate_hz == t.tick_rate_hz.value->Some_0
    &&& p.are_frames == t.are_frames.value->Some_0
    &&& p.line_clear_are_frames == t.line_clear_are_frames.value->Some_0
    &&& p.initial_gravity.num() == t.gravity_numerator.value->Some_0
    &&& p.initial_gravity.den() == t.gravity_denominator.value->Some_0
    &&& p.gravity_increase_per_second.num() == t.gravity_increase_numerator_per_second.value->Some_0
    &&& p.gravity_increase_per_second.den() == t.gravity_increase_denominator_per_second.value->Some_0
    &&& p.gravity_margin_frames == t.gravity_margin_frames.value->Some_0
    &&& p.gravity_cap.num() == t.gravity_cap_numerator.value->Some_0
    &&& p.gravity_cap.den() == t.gravity_cap_denominator.value->Some_0
    &&& p.lock_delay_frames == t.lock_delay_frames.value->Some_0
    &&& p.max_lock_resets == t.max_lock_resets.value->Some_0
    &&& p.reset_on_lateral_move == t.reset_on_lateral_move.value->Some_0
    &&& p.reset_on_rotation == t.reset_on_rotation.value->Some_0
    &&& p.wf()
}

pub open spec fn zero_gravity_denominator(t: TimingProfileDraft) -> bool {
    t.gravity_denominator.value->Some_0 == 0 || t.gravity_increase_denominator_per_second.value->Some_0 == 0
        || t.gravity_cap_denominator.value->Some_0 == 0
}

/// The timing schedule of a complete timing draft with nonzero gravity
/// denominators (its profile is unique).
pub open spec fn draft_schedule(t: TimingProfileDraft) -> Result<TimingSchedule, ProfileActivationError> {
    (choose|p: ActiveTimingProfile| timing_profile_of(t, p)).schedule_spec()
}

/// Timing fields complete and every gravity denominator nonzero.
pub open spec fn timing_ready(t: TimingProfileDraft) -> bool {
    missing_names(timing_fields(t)).len() == 0 && !zero_gravity_denominator(t)
}

impl TetrioRulesDraft {
    pub fn tetra_league_beta_1_7_8_season_2() -> (r: Self)
        ensures
            observed_tetra_league(r),
            observed_tetra_league_sources(r),
    {
        let mechanics_observed = Evidence::new(
            WIKI_MECHANICS,
            Confidence::Observed,
            None,
            "Community-maintained description; reference replay fixtures are still required.",
        );
        let client_options = Evidence::new(
            CURRENT_CLIENT_ASSET,
            Confidence::Observed,
            Some(CLIENT_OPTIONS_FIXTURE),
            "Reproducibly extracted TL options; all 31 fields matched the 2026-05-04 asset snapshot.",
        );
        let reset_behavior = Evidence::new(
            WIKI_MECHANICS,
            Confidence::Observed,
            Some(CLIENT_OPTIONS_FIXTURE),
            "Wiki documents move/rotation resets; client options independently expose a 15-reset cap.",
        );
        let client_firepower = Evidence::new(
            CURRENT_CLIENT_ASSET,
            Confidence::Observed,
            Some(CLIENT_FIREPOWER_FIXTURE),
            "Current client tables and 53 generated clear/combo/B2B/All-Clear cases; snapshot SHA-256 b92d2446e42752a8ba86d873696a83cee0d99223d4bdafc1355a22cabbb3206b.",
        );
        let client_garbage = Evidence::new(
            CURRENT_CLIENT_ASSET,
            Confidence::Observed,
            Some(CLIENT_GARBAGE_FIXTURE),
            "Current TL preset plus FightLines/TakeAllDamage control flow; bundle SHA-256 aab6d586aaaef57f84553cbd60237604832be420fa2b27773b6e697f66b84d66.",
        );
        let r = TetrioRulesDraft {
            profile_id: TARGET_PROFILE_ID,
            upstream_version: "BETA 1.7.8",
            mode: "TETRA LEAGUE Season 2",
            version_evidence: Evidence::new(
                OFFICIAL_PATCH_NOTES,
                Confidence::Confirmed,
                None,
                "Official patch history identifies the pinned upstream version.",
            ),
            board_width: Sourced::new(Some(10), "cells", mechanics_observed),
            board_height: Sourced::new(Some(40), "cells", mechanics_observed),
            rotation_system: Sourced::new(Some(RotationSystem::SrsPlus), "enum", client_options),
            spin_system: Sourced::new(
                Some(SpinSystem::AllMiniPlus),
                "enum",
                Evidence::new(
                    OFFICIAL_PATCH_NOTES,
                    Confidence::Confirmed,
                    Some(CLIENT_OPTIONS_FIXTURE),
                    "BETA 1.5.0 changed multiplayer defaults; current client snapshot still selects All-Mini+.",
                ),
            ),
            timing: TimingProfileDraft {
                tick_rate_hz: Sourced::new(Some(60), "frames/second", client_options),
                are_frames: Sourced::new(Some(0), "frames", client_options),
                line_clear_are_frames: Sourced::new(Some(0), "frames", client_options),
                gravity_numerator: Sourced::new(Some(1), "cells/frame numerator", client_options),
                gravity_denominator: Sourced::new(Some(50), "cells/frame denominator", client_options),
                gravity_increase_numerator_per_second: Sourced::new(Some(7), "G/second numerator", client_options),
                gravity_increase_denominator_per_second: Sourced::new(Some(2000), "G/second denominator", client_options),
                gravity_margin_frames: Sourced::new(Some(7200), "frames", client_options),
                gravity_cap_numerator: Sourced::new(Some(20), "cells/frame numerator", client_options),
                gravity_cap_denominator: Sourced::new(Some(1), "cells/frame denominator", client_options),
                lock_delay_frames: Sourced::new(Some(30), "frames", client_options),
                max_lock_resets: Sourced::new(Some(15), "resets", client_options),
                reset_on_lateral_move: Sourced::new(Some(true), "boolean", reset_behavior),
                reset_on_rotation: Sourced::new(Some(true), "boolean", reset_behavior),
            },
            attack: AttackProfileDraft {
                normal_clear: Sourced::new(Some([0, 0, 1, 2, 4]), "garbage lines", client_firepower),
                mini_spin: Sourced::new(Some([0, 0, 1, 2, 4]), "garbage lines", client_firepower),
                full_spin: Sourced::new(Some([0, 2, 4, 6, 10]), "garbage lines", client_firepower),
                combo: Sourced::new(
                    Some(
                        ComboRule::Multiplier {
                            increment_numerator: 1,
                            increment_denominator: 4,
                            zero_base_min_combo_index: multiplier_zero_base_thresholds(),
                        },
                    ),
                    "integer transition rule",
                    client_firepower,
                ),
                back_to_back_bonus: Sourced::new(Some(1), "garbage lines", client_firepower),
                back_to_back_charging: Sourced::new(Some(true), "boolean", client_firepower),
                back_to_back_charge_at: Sourced::new(Some(4), "B2B count", client_firepower),
                back_to_back_charge_base: Sourced::new(Some(0), "garbage lines", client_firepower),
                perfect_clear_attack: Sourced::new(Some(5), "garbage lines", client_firepower),
                perfect_clear_back_to_back: Sourced::new(Some(1), "B2B count", client_firepower),
                perfect_clear_back_to_back_sends: Sourced::new(Some(false), "boolean", client_firepower),
                perfect_clear_back_to_back_dupes: Sourced::new(Some(true), "boolean", client_firepower),
                perfect_clear_charges: Sourced::new(Some(false), "boolean", client_firepower),
                garbage_clear_special_bonus: Sourced::new(Some(1), "garbage lines", client_firepower),
            },
            garbage: GarbageProfileDraft {
                travel_frames: Sourced::new(Some(20), "frames", client_garbage),
                garbage_cap: Sourced::new(Some(8), "lines per tank", client_garbage),
                opener_phase_pieces: Sourced::new(Some(14), "placed pieces", client_garbage),
                combo_blocking: Sourced::new(Some(true), "boolean", client_garbage),
                multiplier: Sourced::new(
                    Some(GarbageMultiplierSchedule::tetra_league_observed()),
                    "exact frame schedule",
                    client_garbage,
                ),
            },
            room_handling: RoomHandlingProfileDraft {
                enforced: Sourced::new(Some(false), "boolean", client_options),
                inactive_arr_frames: Sourced::new(Some(2), "frames", client_options),
                inactive_das_frames: Sourced::new(Some(10), "frames", client_options),
                inactive_sdf_value: Sourced::new(Some(6), "setting value", client_options),
            },
        };
        proof {
            assert(r.attack.normal_clear.value->Some_0@ =~= seq![0u16, 0, 1, 2, 4]);
            assert(r.attack.mini_spin.value->Some_0@ =~= seq![0u16, 0, 1, 2, 4]);
            assert(r.attack.full_spin.value->Some_0@ =~= seq![0u16, 2, 4, 6, 10]);
        }
        r
    }

    pub fn missing_required_timing_fields(self) -> (r: Vec<&'static str>)
        ensures
            r@ == missing_names(timing_fields(self.timing)),
    {
        let fields = required_timing_fields(self.timing);
        missing_of(vstd::array::array_as_slice(&fields))
    }

    pub fn timing_conformance_blockers(self) -> (r: Vec<&'static str>)
        ensures
            r@ == blocker_names(timing_fields(self.timing)),
    {
        let fields = required_timing_fields(self.timing);
        blockers_of(vstd::array::array_as_slice(&fields))
    }

    pub fn missing_required_attack_fields(self) -> (r: Vec<&'static str>)
        ensures
            r@ == missing_names(attack_fields(self.attack)),
    {
        let fields = required_attack_fields(self.attack);
        missing_of(vstd::array::array_as_slice(&fields))
    }

    pub fn attack_conformance_blockers(self) -> (r: Vec<&'static str>)
        ensures
            r@ == blocker_names(attack_fields(self.attack)),
    {
        let fields = required_attack_fields(self.attack);
        blockers_of(vstd::array::array_as_slice(&fields))
    }

    pub fn missing_required_garbage_fields(self) -> (r: Vec<&'static str>)
        ensures
            r@ == missing_names(garbage_fields(self.garbage)),
    {
        let fields = required_garbage_fields(self.garbage);
        missing_of(vstd::array::array_as_slice(&fields))
    }

    pub fn garbage_conformance_blockers(self) -> (r: Vec<&'static str>)
        ensures
            r@ == blocker_names(garbage_fields(self.garbage)),
    {
        let fields = required_garbage_fields(self.garbage);
        blockers_of(vstd::array::array_as_slice(&fields))
    }

    pub fn try_timing_profile(self) -> (r: Result<ActiveTimingProfile, ProfileActivationError>)
        ensures
            missing_names(timing_fields(self.timing)).len() > 0 ==> (r matches Err(
                ProfileActivationError::MissingRequiredFields(v),
            ) && v@ == missing_names(timing_fields(self.timing))),
            missing_names(timing_fields(self.timing)).len() == 0 && zero_gravity_denominator(self.timing) ==> r
                == Err::<ActiveTimingProfile, ProfileActivationError>(
                ProfileActivationError::InvalidTimingConfiguration(TimingConfigError::ZeroGravityDenominator),
            ),
            missing_names(timing_fields(self.timing)).len() == 0 && !zero_gravity_denominator(self.timing) ==> (r matches Ok(
                p,
            ) && timing_profile_of(self.timing, p)),
    {
        let missing = self.missing_required_timing_fields();
        if missing.len() > 0 {
            return Err(ProfileActivationError::MissingRequiredFields(missing));
        }
        proof {
            lemma_missing_empty(timing_fields(self.timing));
            assert(timing_fields(self.timing)[0].1);
            assert(timing_fields(self.timing)[1].1);
            assert(timing_fields(self.timing)[2].1);
            assert(timing_fields(self.timing)[3].1);
            assert(timing_fields(self.timing)[4].1);
            assert(timing_fields(self.timing)[5].1);
            assert(timing_fields(self.timing)[6].1);
            assert(timing_fields(self.timing)[7].1);
            assert(timing_fields(self.timing)[8].1);
            assert(timing_fields(self.timing)[9].1);
            assert(timing_fields(self.timing)[10].1);
            assert(timing_fields(self.timing)[11].1);
            assert(timing_fields(self.timing)[12].1);
            assert(timing_fields(self.timing)[13].1);
        }
        let t = self.timing;
        let initial_gravity = match Gravity::new(required(t.gravity_numerator.value)?, required(t.gravity_denominator.value)?) {
            Ok(g) => g,
            Err(e) => {
                return Err(ProfileActivationError::InvalidTimingConfiguration(e));
            },
        };
        let gravity_increase_per_second = match Gravity::new(
            required(t.gravity_increase_numerator_per_second.value)?,
            required(t.gravity_increase_denominator_per_second.value)?,
        ) {
            Ok(g) => g,
            Err(e) => {
                return Err(ProfileActivationError::InvalidTimingConfiguration(e));
            },
        };
        let gravity_cap = match Gravity::new(required(t.gravity_cap_numerator.value)?, required(t.gravity_cap_denominator.value)?) {
            Ok(g) => g,
            Err(e) => {
                return Err(ProfileActivationError::InvalidTimingConfiguration(e));
            },
        };
        Ok(ActiveTimingProfile {
            tick_rate_hz: required(t.tick_rate_hz.value)?,
            are_frames: required(t.are_frames.value)?,
            line_clear_are_frames: required(t.line_clear_are_frames.value)?,
            initial_gravity,
            gravity_increase_per_second,
            gravity_margin_frames: required(t.gravity_margin_frames.value)?,
            gravity_cap,
            lock_delay_frames: required(t.lock_delay_frames.value)?,
            max_lock_resets: required(t.max_lock_resets.value)?,
            reset_on_lateral_move: required(t.reset_on_lateral_move.value)?,
            reset_on_rotation: required(t.reset_on_rotation.value)?,
        })
    }

    pub fn try_timing_rules(self) -> (r: Result<TimingRules, ProfileActivationError>)
        ensures
            missing_names(timing_fields(self.timing)).len() > 0 ==> (r matches Err(
                ProfileActivationError::MissingRequiredFields(v),
            ) && v@ == missing_names(timing_fields(self.timing))),
            missing_names(timing_fields(self.timing)).len() == 0 && zero_gravity_denominator(self.timing) ==> r
                == Err::<TimingRules, ProfileActivationError>(
                ProfileActivationError::InvalidTimingConfiguration(TimingConfigError::ZeroGravityDenominator),
            ),
            missing_names(timing_fields(self.timing)).len() == 0 && !zero_gravity_denominator(self.timing) ==> forall|
                p: ActiveTimingProfile,
            | #[trigger] timing_profile_of(self.timing, p) ==> r == p.rules_at_spec(0),
    {
        let profile = match self.try_timing_profile() {
            Ok(p) => p,
            Err(e) => {
                return Err(e);
            },
        };
        proof {
            assert forall|p: ActiveTimingProfile| #[trigger] timing_profile_of(self.timing, p) implies p == profile by {
                Gravity::lemma_eq(p.initial_gravity, profile.initial_gravity);
                Gravity::lemma_eq(p.gravity_increase_per_second, profile.gravity_increase_per_second);
                Gravity::lemma_eq(p.gravity_cap, profile.gravity_cap);
            }
        }
        profile.core_rules_at_frame(0)
    }

    pub fn try_attack_rules(self) -> (r: Result<AttackRules, ProfileActivationError>)
        ensures
            missing_names(attack_fields(self.attack)).len() > 0 ==> (r matches Err(
                ProfileActivationError::MissingRequiredFields(v),
            ) && v@ == missing_names(attack_fields(self.attack))),
            missing_names(attack_fields(self.attack)).len() == 0 ==> match attack_rules_of(self.attack).config_error() {
                Some(e) => r == Err::<AttackRules, ProfileActivationError>(
                    ProfileActivationError::InvalidAttackConfiguration(e),
                ),
                None => r == Ok::<AttackRules, ProfileActivationError>(attack_rules_of(self.attack)),
            },
    {
        let missing = self.missing_required_attack_fields();
        if missing.len() > 0 {
            return Err(ProfileActivationError::MissingRequiredFields(missing));
        }
        proof {
            lemma_missing_empty(attack_fields(self.attack));
            assert(attack_fields(self.attack)[0].1);
            assert(attack_fields(self.attack)[1].1);
            assert(attack_fields(self.attack)[2].1);
            assert(attack_fields(self.attack)[3].1);
            assert(attack_fields(self.attack)[4].1);
            assert(attack_fields(self.attack)[5].1);
            assert(attack_fields(self.attack)[6].1);
            assert(attack_fields(self.attack)[7].1);
            assert(attack_fields(self.attack)[8].1);
            assert(attack_fields(self.attack)[9].1);
            assert(attack_fields(self.attack)[10].1);
            assert(attack_fields(self.attack)[11].1);
            assert(attack_fields(self.attack)[12].1);
            assert(attack_fields(self.attack)[13].1);
        }
        let a = self.attack;
        let rules = AttackRules {
            normal_clear: required(a.normal_clear.value)?,
            mini_spin: required(a.mini_spin.value)?,
            full_spin: required(a.full_spin.value)?,
            combo: required(a.combo.value)?,
            back_to_back_bonus: required(a.back_to_back_bonus.value)?,
            back_to_back_charging: required(a.back_to_back_charging.value)?,
            back_to_back_charge_at: required(a.back_to_back_charge_at.value)?,
            back_to_back_charge_base: required(a.back_to_back_charge_base.value)?,
            perfect_clear_attack: required(a.perfect_clear_attack.value)?,
            perfect_clear_back_to_back: required(a.perfect_clear_back_to_back.value)?,
            perfect_clear_back_to_back_sends: required(a.perfect_clear_back_to_back_sends.value)?,
            perfect_clear_back_to_back_dupes: required(a.perfect_clear_back_to_back_dupes.value)?,
            perfect_clear_charges: required(a.perfect_clear_charges.value)?,
            garbage_clear_special_bonus: required(a.garbage_clear_special_bonus.value)?,
        };
        match rules.validate() {
            Ok(()) => Ok(rules),
            Err(e) => Err(ProfileActivationError::InvalidAttackConfiguration(e)),
        }
    }

    pub fn try_garbage_rules(self) -> (r: Result<GarbageRules, ProfileActivationError>)
        ensures
            missing_names(garbage_fields(self.garbage)).len() > 0 ==> (r matches Err(
                ProfileActivationError::MissingRequiredFields(v),
            ) && v@ == missing_names(garbage_fields(self.garbage))),
            missing_names(garbage_fields(self.garbage)).len() == 0 ==> match garbage_rules_of(self.garbage).config_error() {
                Some(e) => r == Err::<GarbageRules, ProfileActivationError>(
                    ProfileActivationError::InvalidGarbageConfiguration(e),
                ),
                None => r == Ok::<GarbageRules, ProfileActivationError>(garbage_rules_of(self.garbage)),
            },
    {
        let missing = self.missing_required_garbage_fields();
        if missing.len() > 0 {
            return Err(ProfileActivationError::MissingRequiredFields(missing));
        }
        proof {
            lemma_missing_empty(garbage_fields(self.garbage));
            assert(garbage_fields(self.garbage)[0].1);
            assert(garbage_fields(self.garbage)[1].1);
            assert(garbage_fields(self.garbage)[2].1);
            assert(garbage_fields(self.garbage)[3].1);
            assert(garbage_fields(self.garbage)[4].1);
        }
        let g = self.garbage;
        let rules = GarbageRules {
            travel_frames: required(g.travel_frames.value)?,
            garbage_cap: required(g.garbage_cap.value)?,
            opener_phase_pieces: required(g.opener_phase_pieces.value)?,
            combo_blocking: required(g.combo_blocking.value)?,
            messiness: GarbageMessinessRules::tetra_league_observed(),
            multiplier: required(g.multiplier.value)?,
        };
        match rules.validate() {
            Ok(()) => Ok(rules),
            Err(e) => Err(ProfileActivationError::InvalidGarbageConfiguration(e)),
        }
    }

    /// Activates the complete score-free local 1v1 rules. TL does not enforce
    /// room handling, so callers must pass both participants' effective
    /// serialized profiles explicitly.
    pub fn try_battle_rules(self, player_handling: [PlayerHandlingProfile; 2]) -> (r: Result<
        BattleRules,
        ProfileActivationError,
    >)
        ensures
            r matches Ok(b) ==> {
                &&& is_default_config(b.game)
                &&& b.handling@ == seq![player_handling[0].core_rules_spec(), player_handling[1].core_rules_spec()]
                &&& missing_names(timing_fields(self.timing)).len() == 0
                &&& !zero_gravity_denominator(self.timing)
                &&& forall|p: ActiveTimingProfile| #[trigger] timing_profile_of(self.timing, p) ==> p.schedule_spec()
                    == Ok::<TimingSchedule, ProfileActivationError>(b.timing)
                &&& missing_names(attack_fields(self.attack)).len() == 0
                &&& b.attack == attack_rules_of(self.attack)
                &&& attack_rules_of(self.attack).config_error() is None
                &&& missing_names(garbage_fields(self.garbage)).len() == 0
                &&& b.garbage == garbage_rules_of(self.garbage)
                &&& garbage_rules_of(self.garbage).config_error() is None
            },
            missing_names(timing_fields(self.timing)).len() > 0 ==> (r matches Err(
                ProfileActivationError::MissingRequiredFields(v),
            ) && v@ == missing_names(timing_fields(self.timing))),
            missing_names(timing_fields(self.timing)).len() == 0 && zero_gravity_denominator(self.timing) ==> r
                == Err::<BattleRules, ProfileActivationError>(
                ProfileActivationError::InvalidTimingConfiguration(TimingConfigError::ZeroGravityDenominator),
            ),
            timing_ready(self.timing) && draft_schedule(self.timing) is Err ==> r == Err::<
                BattleRules,
                ProfileActivationError,
            >(draft_schedule(self.timing)->Err_0),
            timing_ready(self.timing) && draft_schedule(self.timing) is Ok && missing_names(attack_fields(self.attack)).len()
                > 0 ==> (r matches Err(ProfileActivationError::MissingRequiredFields(v)) && v@ == missing_names(
                attack_fields(self.attack),
            )),
            timing_ready(self.timing) && draft_schedule(self.timing) is Ok && missing_names(attack_fields(self.attack)).len()
                == 0 && attack_rules_of(self.attack).config_error() is Some ==> r == Err::<
                BattleRules,
                ProfileActivationError,
            >(ProfileActivationError::InvalidAttackConfiguration(attack_rules_of(self.attack).config_error()->Some_0)),
            timing_ready(self.timing) && draft_schedule(self.timing) is Ok && missing_names(attack_fields(self.attack)).len()
                == 0 && attack_rules_of(self.attack).config_error() is None && missing_names(
                garbage_fields(self.garbage),
            ).len() > 0 ==> (r matches Err(ProfileActivationError::MissingRequiredFields(v)) && v@ == missing_names(
                garbage_fields(self.garbage),
            )),
            timing_ready(self.timing) && draft_schedule(self.timing) is Ok && missing_names(attack_fields(self.attack)).len()
                == 0 && attack_rules_of(self.attack).config_error() is None && missing_names(
                garbage_fields(self.garbage),
            ).len() == 0 && garbage_rules_of(self.garbage).config_error() is Some ==> r == Err::<
                BattleRules,
                ProfileActivationError,
            >(ProfileActivationError::InvalidGarbageConfiguration(garbage_rules_of(self.garbage).config_error()->Some_0)),
            timing_ready(self.timing) && draft_schedule(self.timing) is Ok && missing_names(attack_fields(self.attack)).len()
                == 0 && attack_rules_of(self.attack).config_error() is None && missing_names(
                garbage_fields(self.garbage),
            ).len() == 0 && garbage_rules_of(self.garbage).config_error() is None ==> (r matches Ok(b) && b.timing
                == draft_schedule(self.timing)->Ok_0),
    {
        let game = GameConfig::default();
        let profile = match self.try_timing_profile() {
            Ok(p) => p,
            Err(e) => {
                return Err(e);
            },
        };
        let timing = match profile.core_schedule() {
            Ok(s) => s,
            Err(e) => {
                return Err(e);
            },
        };
        proof {
            assert forall|p: ActiveTimingProfile| #[trigger] timing_profile_of(self.timing, p) implies p == profile by {
                Gravity::lemma_eq(p.initial_gravity, profile.initial_gravity);
                Gravity::lemma_eq(p.gravity_increase_per_second, profile.gravity_increase_per_second);
                Gravity::lemma_eq(p.gravity_cap, profile.gravity_cap);
            }
            assert(timing_profile_of(self.timing, profile));
            assert(draft_schedule(self.timing) == profile.schedule_spec());
        }
        let handling = [player_handling[0].core_rules(), player_handling[1].core_rules()];
        let attack = match self.try_attack_rules() {
            Ok(a) => a,
            Err(e) => {
                return Err(e);
            },
        };
        let garbage = match self.try_garbage_rules() {
            Ok(g) => g,
            Err(e) => {
                return Err(e);
            },
        };
        assert(handling@ =~= seq![player_handling[0].core_rules_spec(), player_handling[1].core_rules_spec()]);
        Ok(BattleRules { game, timing, handling, attack, garbage })
    }
}

} // verus!
