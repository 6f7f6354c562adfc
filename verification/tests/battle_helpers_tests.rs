use engine_core::{
    AttackPacket, AttackPacketKind, AttackPackets, BattleError, BattleResult, GarbageError, GarbageMessinessRules,
    GarbageMultiplierSchedule, GarbageRules, IncomingGarbageQueue, PlayerId, cross_cancel_simultaneous,
    discard_attack_prefix, enqueue_generated_packets, result_from_terminals,
};

fn garbage_rules() -> GarbageRules {
    GarbageRules {
        travel_frames: 20,
        garbage_cap: 8,
        opener_phase_pieces: 14,
        combo_blocking: true,
        messiness: GarbageMessinessRules::tetra_league_observed(),
        multiplier: GarbageMultiplierSchedule::tetra_league_observed(),
    }
}

fn packets(values: &[(AttackPacketKind, u32)]) -> AttackPackets {
    let mut packets = AttackPackets::empty();
    for (kind, lines) in values {
        packets.push(*kind, *lines).expect("test packet capacity");
    }
    packets
}

#[test]
fn discarding_a_prefix_keeps_order_and_drops_emptied_packets() {
    let sent = packets(&[(AttackPacketKind::Surge, 2), (AttackPacketKind::Surge, 2), (AttackPacketKind::Clear, 4)]);
    let left = discard_attack_prefix(sent, 3).unwrap();
    assert_eq!(
        left.as_slice(),
        &[AttackPacket { kind: AttackPacketKind::Surge, lines: 1 }, AttackPacket { kind: AttackPacketKind::Clear, lines: 4 }]
    );
    assert_eq!(discard_attack_prefix(sent, 0).unwrap(), sent);
    assert!(discard_attack_prefix(sent, 100).unwrap().is_empty());
}

#[test]
fn simultaneous_attacks_cancel_symmetrically() {
    let one = packets(&[(AttackPacketKind::Clear, 4), (AttackPacketKind::PerfectClear, 10)]);
    let two = packets(&[(AttackPacketKind::Surge, 3), (AttackPacketKind::Clear, 2)]);
    let (one_left, two_left) = cross_cancel_simultaneous(one, two).unwrap();
    assert_eq!(one_left.total(), 14 - 5);
    assert_eq!(two_left.total(), 0);
    assert_eq!(one_left.as_slice(), &[AttackPacket { kind: AttackPacketKind::PerfectClear, lines: 9 }]);

    let (a, b) = cross_cancel_simultaneous(AttackPackets::empty(), two).unwrap();
    assert!(a.is_empty());
    assert_eq!(b, two);
}

#[test]
fn transmitted_packets_enter_the_queue_after_travel() {
    let mut queue = IncomingGarbageQueue::new(7);
    let sent = packets(&[(AttackPacketKind::Clear, 2), (AttackPacketKind::PerfectClear, 10)]);
    enqueue_generated_packets(PlayerId::Two, &mut queue, sent, 100, garbage_rules()).unwrap();
    assert_eq!(queue.len(), 2);
    assert_eq!(queue.pending_lines(), 12);
    let (front, back) = queue.as_slices();
    let all: Vec<_> = front.iter().chain(back.iter()).copied().collect();
    assert_eq!(all[0].lines, 2);
    assert_eq!(all[0].ready_at_frame, 120);
    assert_eq!(all[0].hole_column, None);
    assert_eq!(all[1].lines, 10);

    let mut queue = IncomingGarbageQueue::new(7);
    assert_eq!(
        enqueue_generated_packets(PlayerId::One, &mut queue, sent, u64::MAX - 5, garbage_rules()),
        Err(BattleError::Garbage { player: PlayerId::One, source: GarbageError::CounterOverflow })
    );
    assert!(queue.is_empty());
}

#[test]
fn terminal_flags_decide_the_round() {
    assert_eq!(result_from_terminals(false, false), BattleResult::Ongoing);
    assert_eq!(result_from_terminals(false, true), BattleResult::PlayerOneWin);
    assert_eq!(result_from_terminals(true, false), BattleResult::PlayerTwoWin);
    assert_eq!(result_from_terminals(true, true), BattleResult::Draw);
}
