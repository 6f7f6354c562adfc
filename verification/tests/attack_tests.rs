//! Attack resolution with the garbage multiplier in doubles, as the
//! command-line program computes it, over the library's integer attack terms
//! and packet assembly.

use engine_core::{
    AttackConfigError, AttackContext, AttackError, AttackMultiplier, AttackOutcome, AttackPacket, AttackPacketKind,
    AttackRules, AttackState, ClearEvent, ComboRule, GarbageMultiplierSchedule, PieceKind, RotationDirection,
    SpinClassification, SpinOutcome, TetrioRulesDraft, assemble_attack, attack_terms, zero_base_combo_attack,
};

const ZERO_BASE_THRESHOLDS: &[u32] = &[
    2,
    6,
    16,
    43,
    118,
    322,
    877,
    2_384,
    6_482,
    17_621,
    47_899,
    130_204,
    353_930,
    962_083,
    2_615_214,
    7_108_888,
    19_323_962,
    52_527_975,
    142_785_840,
    388_132_156,
    1_055_052_587,
    2_867_930_277,
];

fn multiplier_value(multiplier: AttackMultiplier) -> f64 {
    f64::from_bits(multiplier.ieee_bits())
}

fn multiplier_from_ratio(numerator: u64, denominator: u64) -> Result<AttackMultiplier, AttackConfigError> {
    if denominator == 0 {
        return Err(AttackConfigError::ZeroGarbageMultiplierDenominator);
    }
    let value = numerator as f64 / denominator as f64;
    if !value.is_finite() {
        return Err(AttackConfigError::NonFiniteGarbageMultiplier);
    }
    AttackMultiplier::from_ieee_bits(value.to_bits())
}

fn floor_attack(value: f64) -> Result<u32, AttackError> {
    if !value.is_finite() || value < 0.0 {
        return Err(AttackError::CounterOverflow);
    }
    let floored = value.floor();
    if floored > f64::from(u32::MAX) {
        return Err(AttackError::CounterOverflow);
    }
    Ok(floored as u32)
}

fn scale_floor(multiplier: AttackMultiplier, value: u32) -> Result<u32, AttackError> {
    floor_attack(f64::from(value) * multiplier_value(multiplier))
}

fn combo_floor(attack: u32, combo: u32, rule: ComboRule, multiplier: AttackMultiplier) -> Result<u32, AttackError> {
    if combo <= 1 {
        return scale_floor(multiplier, attack);
    }
    match rule {
        ComboRule::NoCombo => scale_floor(multiplier, attack),
        ComboRule::Multiplier { increment_numerator, increment_denominator, zero_base_min_combo_index } => {
            let combo_index = combo - 1;
            if attack == 0 {
                if multiplier == AttackMultiplier::one() {
                    return zero_base_combo_attack(zero_base_min_combo_index, combo_index);
                }
                return floor_attack((1.25_f64 * f64::from(combo_index)).ln_1p() * multiplier_value(multiplier));
            }
            let factor =
                1.0 + (f64::from(increment_numerator) / f64::from(increment_denominator)) * f64::from(combo_index);
            floor_attack(f64::from(attack) * factor * multiplier_value(multiplier))
        }
    }
}

fn resolve_attack(
    previous: AttackState,
    clear: ClearEvent,
    context: AttackContext,
    rules: AttackRules,
) -> Result<AttackOutcome, AttackError> {
    let terms = attack_terms(previous, clear, context.cleared_garbage, rules)?;
    let surge = scale_floor(context.multiplier, terms.raw_surge_attack)?;
    let combo = combo_floor(terms.attack_before_combo, terms.state.combo, rules.combo, context.multiplier)?;
    let perfect = if clear.perfect_clear { scale_floor(context.multiplier, u32::from(rules.perfect_clear_attack))? } else { 0 };
    assemble_attack(terms, surge, combo, perfect)
}

fn rules() -> AttackRules {
    AttackRules {
        normal_clear: [0, 0, 1, 2, 4],
        mini_spin: [0, 0, 1, 2, 4],
        full_spin: [0, 2, 4, 6, 10],
        combo: ComboRule::Multiplier {
            increment_numerator: 1,
            increment_denominator: 4,
            zero_base_min_combo_index: ZERO_BASE_THRESHOLDS,
        },
        back_to_back_bonus: 1,
        back_to_back_charging: true,
        back_to_back_charge_at: 4,
        back_to_back_charge_base: 0,
        perfect_clear_attack: 5,
        perfect_clear_back_to_back: 1,
        perfect_clear_back_to_back_sends: false,
        perfect_clear_back_to_back_dupes: true,
        perfect_clear_charges: false,
        garbage_clear_special_bonus: 1,
    }
}

fn clear(lines: u8) -> ClearEvent {
    ClearEvent::new(PieceKind::I, lines, None, false)
}

fn spin(lines: u8, classification: SpinClassification) -> ClearEvent {
    ClearEvent::new(
        PieceKind::T,
        lines,
        Some(SpinOutcome {
            piece: PieceKind::T,
            classification,
            direction: RotationDirection::Clockwise,
            kick_index: 0,
        }),
        false,
    )
}

#[test]
fn clear_table_matches_observed_tl_base_attacks() {
    let cases = [(1, 0), (2, 1), (3, 2), (4, 4)];
    for (lines, expected) in cases {
        let outcome =
            resolve_attack(AttackState::default(), clear(lines), AttackContext::default(), rules()).expect("valid attack");
        assert_eq!(outcome.base_attack, expected);
    }

    let mini = resolve_attack(AttackState::default(), spin(2, SpinClassification::Mini), AttackContext::default(), rules())
        .expect("mini attack");
    let full = resolve_attack(AttackState::default(), spin(2, SpinClassification::Full), AttackContext::default(), rules())
        .expect("full attack");
    assert_eq!((mini.base_attack, full.base_attack), (1, 4));
}

#[test]
fn fourteen_double_combo_matches_generated_snapshot() {
    let mut state = AttackState::default();
    let mut total = 0;
    let mut attacks = Vec::new();
    for _ in 0..14 {
        let outcome = resolve_attack(state, clear(2), AttackContext::default(), rules()).expect("combo attack");
        state = outcome.state;
        total += outcome.total_attack();
        attacks.push(outcome.total_attack());
    }

    assert_eq!(attacks, [1, 1, 1, 1, 2, 2, 2, 2, 3, 3, 3, 3, 4, 4]);
    assert_eq!(total, 32);
    assert_eq!(state.combo, 14);
}

#[test]
fn flat_b2b_t_spin_double_sequence_matches_generated_snapshot() {
    let mut state = AttackState::default();
    let mut attacks = Vec::new();
    for _ in 0..5 {
        let outcome = resolve_attack(state, spin(2, SpinClassification::Full), AttackContext::default(), rules())
            .expect("b2b attack");
        state = outcome.state;
        attacks.push(outcome.total_attack());
    }

    assert_eq!(attacks, [4, 6, 7, 8, 10]);
    assert_eq!(state.back_to_back, 5);
}

#[test]
fn b2b_break_releases_surge_before_current_clear_packet() {
    let outcome =
        resolve_attack(AttackState { combo: 5, back_to_back: 5 }, clear(1), AttackContext::default(), rules())
            .expect("surge release");

    assert_eq!(outcome.surge_attack, 1);
    assert_eq!(outcome.clear_attack, 1);
    assert_eq!(outcome.total_attack(), 2);
    assert_eq!(
        outcome.packets.as_slice(),
        [
            AttackPacket { kind: AttackPacketKind::Surge, lines: 1 },
            AttackPacket { kind: AttackPacketKind::Clear, lines: 1 },
        ]
    );
    assert_eq!(outcome.state.back_to_back, 0);
}

#[test]
fn surge_uses_three_js_rounded_packets_and_omits_zero_packets() {
    let outcome =
        resolve_attack(AttackState { combo: 0, back_to_back: 9 }, clear(1), AttackContext::default(), rules())
            .expect("five-line surge");

    assert_eq!(outcome.surge_attack, 5);
    assert_eq!(
        outcome.packets.as_slice(),
        [
            AttackPacket { kind: AttackPacketKind::Surge, lines: 2 },
            AttackPacket { kind: AttackPacketKind::Surge, lines: 2 },
            AttackPacket { kind: AttackPacketKind::Surge, lines: 1 },
        ]
    );
}

#[test]
fn no_line_resets_combo_but_preserves_b2b() {
    let outcome =
        resolve_attack(AttackState { combo: 4, back_to_back: 3 }, clear(0), AttackContext::default(), rules())
            .expect("no clear");

    assert_eq!(outcome.state.combo, 0);
    assert_eq!(outcome.state.back_to_back, 3);
    assert!(outcome.packets.is_empty());
}

#[test]
fn perfect_clear_is_a_separate_packet_and_advances_b2b() {
    let mut event = spin(2, SpinClassification::Full);
    event.perfect_clear = true;
    let outcome =
        resolve_attack(AttackState::default(), event, AttackContext::default(), rules()).expect("perfect clear");

    assert_eq!(outcome.state.back_to_back, 2);
    assert_eq!(outcome.total_attack(), 10);
    assert_eq!(
        outcome.packets.as_slice(),
        [
            AttackPacket { kind: AttackPacketKind::Clear, lines: 5 },
            AttackPacket { kind: AttackPacketKind::PerfectClear, lines: 5 },
        ]
    );
}

#[test]
fn difficult_garbage_clear_gets_post_rounding_special_bonus() {
    let outcome = resolve_attack(
        AttackState::default(),
        clear(4),
        AttackContext { cleared_garbage: true, ..AttackContext::default() },
        rules(),
    )
    .expect("garbage clear bonus");

    assert_eq!(outcome.base_attack, 4);
    assert_eq!(outcome.special_bonus, 1);
    assert_eq!(outcome.clear_attack, 5);
}

#[test]
fn margin_multiplier_scales_each_client_packet_before_special_bonus() {
    let multiplier = multiplier_from_ratio(3, 2).expect("valid multiplier");
    let context = AttackContext { cleared_garbage: true, multiplier };

    let difficult =
        resolve_attack(AttackState::default(), clear(4), context, rules()).expect("scaled difficult clear");
    assert_eq!(difficult.base_attack, 4);
    assert_eq!(difficult.special_bonus, 1);
    assert_eq!(difficult.clear_attack, 7);

    let mut all_clear = clear(4);
    all_clear.perfect_clear = true;
    let perfect = resolve_attack(AttackState::default(), all_clear, context, rules()).expect("scaled perfect clear");
    assert_eq!(perfect.clear_attack, 8);
    assert_eq!(perfect.perfect_clear_attack, 7);
}

#[test]
fn margin_attack_floor_matches_bun_ieee_fixture() {
    let multiplier = AttackMultiplier::from_ieee_bits(0x3fff_ffff_ffff_fe10).expect("finite payload");

    let nonzero = resolve_attack(
        AttackState { combo: 9, back_to_back: 0 },
        clear(2),
        AttackContext { cleared_garbage: false, multiplier },
        rules(),
    )
    .expect("margin combo");
    assert_eq!(nonzero.clear_attack, 6);

    let zero_base = resolve_attack(
        AttackState { combo: 100, back_to_back: 0 },
        clear(1),
        AttackContext { cleared_garbage: false, multiplier },
        rules(),
    )
    .expect("margin zero-base combo");
    assert_eq!(zero_base.clear_attack, 9);
}

#[test]
fn late_zero_base_combo_keeps_fraction_until_final_floor() {
    let outcome = resolve_attack(
        AttackState { combo: 3, back_to_back: 0 },
        clear(1),
        AttackContext { cleared_garbage: false, multiplier: multiplier_from_ratio(3, 2).expect("valid multiplier") },
        rules(),
    )
    .expect("late combo");

    assert_eq!(outcome.state.combo, 4);
    assert_eq!(outcome.clear_attack, 2);
}

#[test]
fn observed_schedule_validates() {
    assert!(GarbageMultiplierSchedule::tetra_league_observed().validate().is_ok());
}

#[test]
fn observed_attack_profile_activates_and_carries_current_fixture() {
    let profile = TetrioRulesDraft::tetra_league_beta_1_7_8_season_2();
    let rules = profile.try_attack_rules().expect("attack profile activates");
    let outcome = resolve_attack(
        AttackState::default(),
        ClearEvent::new(PieceKind::I, 4, None, true),
        AttackContext::default(),
        rules,
    )
    .expect("quad perfect clear attack");

    assert!(profile.missing_required_attack_fields().is_empty());
    assert_eq!(profile.attack.normal_clear.value, Some([0, 0, 1, 2, 4]));
    assert_eq!(profile.attack.combo.evidence.fixture_id, Some("client-firepower-hv-63ab5c7c7-20260824"));
    assert_eq!(outcome.total_attack(), 10);
    assert_eq!(outcome.packets.as_slice()[0].kind, AttackPacketKind::Clear);
    assert_eq!(outcome.packets.as_slice()[1].kind, AttackPacketKind::PerfectClear);
    assert!(!profile.attack_conformance_blockers().is_empty());
}
