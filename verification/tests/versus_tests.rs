use engine_core::{
    AttackError, AttackMultiplier, AttackPacket, AttackPacketKind, AttackPackets, Board, GarbageMessinessRules,
    GarbageMultiplierSchedule, GarbageRules, IncomingGarbagePacket, IncomingGarbageQueue, cancel_attack_packets,
    insert_ready_garbage,
};

fn garbage_rules() -> GarbageRules {
    GarbageRules {
        travel_frames: 20,
        garbage_cap: 8,
        opener_phase_pieces: 14,
        combo_blocking: true,
        messiness: GarbageMessinessRules::tetra_league_observed(),
        multiplier: GarbageMultiplierSchedule::tetra_league_observed(),
    }
}

fn packets(values: &[(AttackPacketKind, u32)]) -> AttackPackets {
    let mut packets = AttackPackets::empty();
    for (kind, lines) in values {
        packets.push(*kind, *lines).expect("test packet capacity");
    }
    packets
}

fn incoming(lines: u32, hole_column: u8, sent_at_frame: u64) -> IncomingGarbagePacket {
    IncomingGarbagePacket::after_travel(lines, hole_column, sent_at_frame, false, garbage_rules())
        .expect("valid incoming packet")
}

#[test]
fn trace_interchange_preserves_finite_multiplier_payload() {
    let bits = 0x3fff_ffff_ffff_fe10;
    let multiplier = AttackMultiplier::from_ieee_bits(bits).expect("finite payload");
    assert_eq!(multiplier.ieee_bits(), bits);
    assert!(AttackMultiplier::from_ieee_bits(f64::NAN.to_bits()).is_err());
}

#[test]
fn trace_packet_constructor_preserves_order_and_capacity() {
    let source = [
        AttackPacket { kind: AttackPacketKind::Surge, lines: 2 },
        AttackPacket { kind: AttackPacketKind::Clear, lines: 3 },
    ];
    assert_eq!(AttackPackets::try_from_slice(&source).expect("valid packets").as_slice(), source);

    let too_many = [AttackPacket { kind: AttackPacketKind::Clear, lines: 1 }; 6];
    assert_eq!(AttackPackets::try_from_slice(&too_many), Err(AttackError::PacketCapacityExceeded));
}

#[test]
fn opener_cancellation_is_applied_per_ordered_attack_packet() {
    let mut queue = IncomingGarbageQueue::new(0);
    queue.enqueue(incoming(10, 3, 0)).expect("valid queue");
    let attack = packets(&[(AttackPacketKind::Surge, 4), (AttackPacketKind::Clear, 4)]);

    let outcome = cancel_attack_packets(&mut queue, attack, 14, 0, garbage_rules()).expect("valid cancellation");

    assert_eq!(outcome.attack_cancelled, 6);
    assert_eq!(outcome.opener_bonus_cancelled, 4);
    assert_eq!(outcome.sent_lines_after, 2);
    assert_eq!(outcome.outgoing.as_slice(), [AttackPacket { kind: AttackPacketKind::Clear, lines: 2 }]);
    assert!(queue.is_empty());
}

#[test]
fn opener_condition_uses_round_sent_total_and_piece_boundary() {
    let mut active = IncomingGarbageQueue::new(0);
    active.enqueue(incoming(4, 2, 0)).expect("valid queue");
    let attack = packets(&[(AttackPacketKind::Clear, 2)]);

    let at_boundary =
        cancel_attack_packets(&mut active, attack, 14, 4, garbage_rules()).expect("opener boundary cancellation");
    assert_eq!(at_boundary.attack_cancelled, 2);
    assert_eq!(at_boundary.opener_bonus_cancelled, 2);
    assert_eq!(at_boundary.sent_lines_after, 4);

    let mut expired = IncomingGarbageQueue::new(0);
    expired.enqueue(incoming(4, 2, 0)).expect("valid queue");
    let after_boundary =
        cancel_attack_packets(&mut expired, attack, 15, 4, garbage_rules()).expect("post-opener cancellation");
    assert_eq!(after_boundary.attack_cancelled, 2);
    assert_eq!(after_boundary.opener_bonus_cancelled, 0);
    assert_eq!(expired.pending_lines(), 2);
}

#[test]
fn cancellation_conserves_attack_pending_and_sent_lines() {
    for pieces_placed in [14, 15] {
        for pending in 1..=12 {
            for first in 1..=5 {
                for second in 1..=5 {
                    for sent_before in [0, 3, 9] {
                        let mut queue = IncomingGarbageQueue::new(0);
                        queue.enqueue(incoming(pending, 4, 0)).expect("valid queue");
                        let attack =
                            packets(&[(AttackPacketKind::Surge, first), (AttackPacketKind::Clear, second)]);
                        let pending_before = queue.pending_lines();
                        let raw_attack = attack.total();

                        let outcome =
                            cancel_attack_packets(&mut queue, attack, pieces_placed, sent_before, garbage_rules())
                                .expect("valid conservation case");

                        assert_eq!(raw_attack, u64::from(outcome.attack_cancelled) + outcome.outgoing.total());
                        assert_eq!(
                            pending_before - queue.pending_lines(),
                            u64::from(outcome.attack_cancelled + outcome.opener_bonus_cancelled)
                        );
                        assert_eq!(outcome.sent_lines_after - sent_before, outcome.outgoing.total());
                    }
                }
            }
        }
    }
}

#[test]
fn zero_passthrough_cancels_packets_before_travel_finishes() {
    let mut queue = IncomingGarbageQueue::new(0);
    queue.enqueue(incoming(3, 1, 100)).expect("in-transit packet");

    let outcome = cancel_attack_packets(&mut queue, packets(&[(AttackPacketKind::Clear, 2)]), 20, 0, garbage_rules())
        .expect("in-transit cancellation");

    assert_eq!(outcome.attack_cancelled, 2);
    assert_eq!(queue.pending_lines(), 1);
    assert_eq!(queue.ready_lines(119), 0);
}

#[test]
fn hardened_packets_are_skipped_without_blocking_later_cancellation() {
    let mut queue = IncomingGarbageQueue::new(0);
    queue.enqueue(IncomingGarbagePacket { hardened: true, ..incoming(3, 0, 0) }).expect("hardened packet");
    queue.enqueue(incoming(3, 9, 0)).expect("normal packet");

    let outcome = cancel_attack_packets(&mut queue, packets(&[(AttackPacketKind::Clear, 2)]), 20, 0, garbage_rules())
        .expect("skip hardened packet");

    assert_eq!(outcome.attack_cancelled, 2);
    assert_eq!(queue.pending_lines(), 4);
    let (front, back) = queue.as_slices();
    let queued: Vec<_> = front.iter().chain(back).copied().collect();
    assert_eq!(queued[0].lines, 3);
    assert!(queued[0].hardened);
    assert_eq!(queued[1].lines, 1);
}

#[test]
fn travel_combo_blocking_and_cap_gate_board_insertion() {
    let mut queue = IncomingGarbageQueue::new(0);
    queue.enqueue(incoming(10, 3, 0)).expect("valid queue");
    let mut board = Board::empty();

    let before_arrival =
        insert_ready_garbage(&mut queue, &mut board, 19, 0, garbage_rules()).expect("pre-arrival insertion");
    assert_eq!(before_arrival.inserted, 0);

    let blocked = insert_ready_garbage(&mut queue, &mut board, 20, 1, garbage_rules()).expect("combo-blocked insertion");
    assert!(blocked.blocked_by_clear);
    assert_eq!(queue.pending_lines(), 10);

    let inserted = insert_ready_garbage(&mut queue, &mut board, 20, 0, garbage_rules()).expect("capped insertion");
    assert_eq!(inserted.inserted, 8);
    assert!(!inserted.overflowed_buffer);
    assert_eq!(queue.pending_lines(), 2);
    let expected = ((1_u16 << 10) - 1) & !(1 << 3);
    for row in 0..8 {
        assert_eq!(board.row(row), Some(expected));
        assert_eq!(board.garbage_rows()[row], expected);
    }
}

#[test]
fn ready_packets_insert_in_queue_order() {
    let mut queue = IncomingGarbageQueue::new(0);
    queue.enqueue(incoming(1, 1, 0)).expect("first packet");
    queue.enqueue(incoming(1, 8, 0)).expect("second packet");
    let mut board = Board::empty();

    let outcome = insert_ready_garbage(&mut queue, &mut board, 20, 0, garbage_rules()).expect("ordered insertion");

    let full = (1_u16 << 10) - 1;
    assert_eq!(outcome.inserted, 2);
    assert_eq!(board.row(0), Some(full & !(1 << 8)));
    assert_eq!(board.row(1), Some(full & !(1 << 1)));
    assert!(queue.is_empty());
}

#[test]
fn generated_packet_matches_client_hole_and_rng_consumption() {
    let mut queue = IncomingGarbageQueue::new(0);
    queue
        .enqueue(IncomingGarbagePacket::after_travel_generated(3, 0, false, garbage_rules()).expect("generated packet"))
        .expect("valid queue");
    let mut board = Board::empty();

    let outcome = insert_ready_garbage(&mut queue, &mut board, 20, 0, garbage_rules()).expect("generated insertion");

    assert_eq!(outcome.inserted, 3);
    let hole_nine = ((1_u16 << 10) - 1) & !(1 << 9);
    assert_eq!(&board.rows()[..3], &[hole_nine; 3]);
    assert_eq!(queue.hole_generator().rng_state(), 1_003_374_717);
    assert_eq!(queue.hole_generator().last_column(), Some(4));
    assert!(queue.hole_generator().has_changed_column());
}

#[test]
fn complete_cancellation_consumes_packet_boundary_rng() {
    let mut queue = IncomingGarbageQueue::new(0);
    queue
        .enqueue(IncomingGarbagePacket::after_travel_generated(3, 0, false, garbage_rules()).expect("generated packet"))
        .expect("valid queue");

    let outcome = cancel_attack_packets(&mut queue, packets(&[(AttackPacketKind::Clear, 3)]), 15, 0, garbage_rules())
        .expect("full cancellation");

    assert_eq!(outcome.attack_cancelled, 3);
    assert!(queue.is_empty());
    assert_eq!(queue.hole_generator().rng_state(), 1_865_008_398);
    assert_eq!(queue.hole_generator().last_column(), Some(8));
    assert!(queue.hole_generator().has_changed_column());
}

#[test]
fn invalid_packets_and_rules_are_rejected() {
    assert_eq!(
        IncomingGarbagePacket::after_travel(0, 3, 0, false, garbage_rules()),
        Err(engine_core::GarbageError::ZeroLinePacket)
    );
    assert_eq!(
        IncomingGarbagePacket::after_travel(1, 10, 0, false, garbage_rules()),
        Err(engine_core::GarbageError::HoleOutOfBounds(10))
    );
    assert_eq!(
        IncomingGarbagePacket::after_travel(1, 3, u64::MAX, false, garbage_rules()),
        Err(engine_core::GarbageError::CounterOverflow)
    );
    let mut rules = garbage_rules();
    rules.garbage_cap = 0;
    assert_eq!(
        IncomingGarbagePacket::after_travel(1, 3, 0, false, rules),
        Err(engine_core::GarbageError::InvalidConfiguration(engine_core::GarbageConfigError::ZeroGarbageCap))
    );
    let mut queue = IncomingGarbageQueue::new(0);
    assert_eq!(
        queue.enqueue(IncomingGarbagePacket { lines: 0, hole_column: None, ready_at_frame: 0, hardened: false }),
        Err(engine_core::GarbageError::ZeroLinePacket)
    );
}
