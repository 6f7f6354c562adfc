use engine_core::{ClearEvent, LockVisibility, Orientation, PieceKind, PieceState, TopOutReason, TopOutRules};
use std::collections::BTreeSet;

#[test]
fn event_is_score_free_and_reports_only_transition_facts() {
    let event = ClearEvent::new(PieceKind::I, 4, None, true);

    assert_eq!(event.lines, 4);
    assert!(event.cleared_any());
    assert!(event.perfect_clear);
}

#[test]
fn every_orientation_has_four_unique_cells() {
    for kind in PieceKind::ALL {
        for orientation in Orientation::ALL {
            let cells = BTreeSet::from(kind.cells(orientation));
            assert_eq!(cells.len(), 4, "{kind:?} {orientation:?}");
            assert!(cells.iter().all(|&(x, y)| (0..4).contains(&x) && (0..4).contains(&y)));
        }
    }
}

#[test]
fn four_clockwise_rotations_return_to_spawn() {
    let mut orientation = Orientation::Spawn;
    for _ in 0..4 {
        orientation = orientation.clockwise();
    }
    assert_eq!(orientation, Orientation::Spawn);
}

#[test]
fn global_cells_include_piece_origin() {
    let piece = PieceState::new(PieceKind::T, Orientation::Spawn, 3, 10);
    assert_eq!(piece.cells(), [(3, 11), (4, 11), (5, 11), (4, 12)]);
}

#[test]
fn half_turn_is_two_quarter_turns_and_its_own_inverse() {
    for orientation in Orientation::ALL {
        assert_eq!(orientation.half(), orientation.clockwise().clockwise());
        assert_eq!(orientation.half().half(), orientation);
        assert_eq!(orientation.clockwise().counterclockwise(), orientation);
    }
}

#[test]
fn block_out_only_does_not_guess_lock_out_variants() {
    let rules = TopOutRules::block_out_only();
    assert_eq!(rules.lock_reason(LockVisibility::FullyHidden), None);
    assert_eq!(rules.lock_reason(LockVisibility::PartiallyHidden), None);
}

#[test]
fn lock_out_variants_are_independently_configurable() {
    let rules = TopOutRules::with_lock_out(true, true);
    assert_eq!(rules.lock_reason(LockVisibility::FullyHidden), Some(TopOutReason::LockOut));
    assert_eq!(rules.lock_reason(LockVisibility::PartiallyHidden), Some(TopOutReason::PartialLockOut));
    assert_eq!(rules.lock_reason(LockVisibility::Visible), None);
}
