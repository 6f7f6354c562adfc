use engine_core::{
    Confidence, PLAYER_HANDLING_SCHEMA_VERSION, PlayerHandlingProfile, ProfileActivationError, SoftDropMode, SpinMode,
    TARGET_PROFILE_ID, TetrioRulesDraft,
};

#[test]
fn observed_target_has_no_missing_timing_literals_and_activates() {
    let profile = TetrioRulesDraft::tetra_league_beta_1_7_8_season_2();
    let timing = profile.try_timing_rules().expect("observed profile activates");

    assert_eq!(profile.profile_id, TARGET_PROFILE_ID);
    assert!(profile.missing_required_timing_fields().is_empty());
    assert_eq!(timing.gravity.numerator(), 2400);
    assert_eq!(timing.gravity.denominator(), 120_000);
    assert_eq!(timing.lock_delay_frames, 30);
    assert_eq!(timing.max_lock_resets, 15);
    assert!(timing.reset_on_lateral_move);
    assert!(timing.reset_on_rotation);
}

#[test]
fn gravity_schedule_uses_exact_rationals_and_caps_at_twenty_g() {
    let timing = TetrioRulesDraft::tetra_league_beta_1_7_8_season_2()
        .try_timing_profile()
        .expect("observed profile activates");

    let initial = timing.gravity_at_frame(0).unwrap();
    let at_margin = timing.gravity_at_frame(7200).unwrap();
    assert_eq!(initial.numerator(), 2400);
    assert_eq!(initial.denominator(), 120_000);
    assert_eq!(at_margin, initial);
    let first_increased_fall_frame = timing.gravity_at_frame(7202).unwrap();
    assert_eq!(first_increased_fall_frame.numerator(), 2407);
    let after_one_second = timing.gravity_at_frame(7261).unwrap();
    assert_eq!(after_one_second.numerator(), 2820);
    assert_eq!(after_one_second.denominator(), initial.denominator());
    let capped = timing.gravity_at_frame(10_000_000).unwrap();
    assert_eq!(capped.numerator(), 2_400_000);
    assert_eq!(capped.denominator(), initial.denominator());
}

#[test]
fn executable_observation_is_not_conformance_certification() {
    let profile = TetrioRulesDraft::tetra_league_beta_1_7_8_season_2();
    let blockers = profile.timing_conformance_blockers();

    assert!(!blockers.is_empty());
    assert!(blockers.contains(&"timing.gravity_numerator"));
    assert!(blockers.contains(&"timing.lock_delay_frames"));
}

#[test]
fn client_observations_carry_snapshot_identity() {
    let profile = TetrioRulesDraft::tetra_league_beta_1_7_8_season_2();
    let evidence = profile.timing.lock_delay_frames.evidence;

    assert_eq!(evidence.confidence, Confidence::Observed);
    assert_eq!(evidence.fixture_id, Some("client-options-hv-63ab5c7c7-20260824"));
    assert!(evidence.source_url.contains("20260810T191705"));
}

#[test]
fn tetra_league_requires_player_specific_handling() {
    let profile = TetrioRulesDraft::tetra_league_beta_1_7_8_season_2();

    assert!(profile.room_handling.requires_player_handling());
    assert_eq!(profile.room_handling.inactive_arr_frames.value, Some(2));
    assert_eq!(profile.room_handling.inactive_das_frames.value, Some(10));
    assert_eq!(profile.room_handling.inactive_sdf_value.value, Some(6));
}

#[test]
fn normalized_player_handling_maps_without_unit_guessing() {
    let profile = PlayerHandlingProfile::normalized(8, 0, 1, SoftDropMode::Sonic);
    let rules = profile.core_rules();

    assert_eq!(profile.schema_version, PLAYER_HANDLING_SCHEMA_VERSION);
    assert_eq!(rules.das_frames, 8);
    assert_eq!(rules.arr_frames, 0);
    assert_eq!(rules.dcd_frames, 1);
    assert_eq!(rules.soft_drop, SoftDropMode::Sonic);
}

#[test]
fn observed_spin_profile_maps_to_all_mini_plus_core_rules() {
    let profile = TetrioRulesDraft::tetra_league_beta_1_7_8_season_2();
    let spin = profile.spin_system.value.expect("spin system is present").core_rules();

    assert_eq!(spin.mode, SpinMode::AllMiniPlus);
    assert_eq!(spin.t_full_kick_upgrade_mask, 1 << 3);
}

#[test]
fn observed_profile_builds_frame_dynamic_two_player_rules() {
    let profile = TetrioRulesDraft::tetra_league_beta_1_7_8_season_2();
    let rules = profile
        .try_battle_rules([
            PlayerHandlingProfile::normalized(8, 0, 1, SoftDropMode::Sonic),
            PlayerHandlingProfile::normalized(10, 2, 2, SoftDropMode::CellsPerFrame(6)),
        ])
        .expect("battle profile activates");

    assert_eq!(rules.handling[0].das_frames, 8);
    assert_eq!(rules.handling[1].das_frames, 10);
    assert_eq!(rules.timing.rules_at_frame(7_261).unwrap().gravity.numerator(), 2_820);
    assert_eq!(rules.garbage.travel_frames, 20);
}

#[test]
fn observed_garbage_profile_activates_with_current_tl_values() {
    let profile = TetrioRulesDraft::tetra_league_beta_1_7_8_season_2();
    let rules = profile.try_garbage_rules().expect("garbage profile activates");

    assert!(profile.missing_required_garbage_fields().is_empty());
    assert_eq!(rules.travel_frames, 20);
    assert_eq!(rules.garbage_cap, 8);
    assert_eq!(rules.opener_phase_pieces, 14);
    assert!(rules.combo_blocking);
    assert_eq!(profile.garbage.travel_frames.evidence.fixture_id, Some("client-garbage-hv-63ab5c7c7-20260824"));
    assert!(!profile.garbage_conformance_blockers().is_empty());
}

#[test]
fn observed_attack_profile_reports_current_values_and_blockers() {
    let profile = TetrioRulesDraft::tetra_league_beta_1_7_8_season_2();
    let rules = profile.try_attack_rules().expect("attack profile activates");

    assert!(profile.missing_required_attack_fields().is_empty());
    assert_eq!(profile.attack.normal_clear.value, Some([0, 0, 1, 2, 4]));
    assert_eq!(profile.attack.combo.evidence.fixture_id, Some("client-firepower-hv-63ab5c7c7-20260824"));
    assert_eq!(rules.normal_clear, [0, 0, 1, 2, 4]);
    assert!(!profile.attack_conformance_blockers().is_empty());
}

#[test]
fn profile_without_gravity_reports_missing_field() {
    let mut profile = TetrioRulesDraft::tetra_league_beta_1_7_8_season_2();
    profile.timing.gravity_numerator.value = None;

    assert_eq!(profile.missing_required_timing_fields(), vec!["timing.gravity_numerator"]);
    assert!(matches!(profile.try_timing_rules(), Err(ProfileActivationError::MissingRequiredFields(_))));
}
