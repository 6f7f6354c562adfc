//! Shared-frame 1v1 snapshots and their first-difference comparison.
use vstd::prelude::*;
use crate::battle::{BattleFrameOutcome, BattlePlayerFrameOutcome, BattlePlayerState, BattleSession};
use crate::versus::PlayerId;
use crate::replay::{FrameSnapshot, SnapshotDifference, compare_snapshot, min_len, reports_difference, same_snapshot};
use crate::versus::{
    AttackMultiplier, AttackOutcome, AttackPackets, AttackState, BattleResult, GarbageCancellationOutcome,
    GarbageInsertionOutcome, IncomingGarbagePacket,
};

verus! {

/// Battle-visible attack and garbage events of one player in one frame. Lock
/// and spawn effects already show in the post-frame game snapshot.
#[derive(Clone, Copy, Debug, PartialEq, Eq)]
pub struct BattlePlayerEventsSnapshot {
    pub attack: Option<AttackOutcome>,
    pub cancellation: Option<GarbageCancellationOutcome>,
    pub insertion: Option<GarbageInsertionOutcome>,
    pub transmitted: AttackPackets,
}

#[derive(Clone, Copy, Debug, PartialEq, Eq)]
pub struct BattleEventsSnapshot {
    pub frame: u64,
    pub player_one: BattlePlayerEventsSnapshot,
    pub player_two: BattlePlayerEventsSnapshot,
    pub result: BattleResult,
}

/// Observable 1v1 state of one player at a shared battle frame.
#[derive(Clone, Debug, PartialEq, Eq)]
pub struct BattlePlayerSnapshot {
    pub game: FrameSnapshot,
    pub attack: AttackState,
    pub incoming: Vec<IncomingGarbagePacket>,
    pub sent_lines: u64,
}

/// Canonical shared-frame snapshot of a score-free 1v1 round.
#[derive(Clone, Debug, PartialEq, Eq)]
pub struct BattleSnapshot {
    pub frame: u64,
    pub player_one: BattlePlayerSnapshot,
    pub player_two: BattlePlayerSnapshot,
    pub garbage_multiplier: AttackMultiplier,
    pub result: BattleResult,
    /// Events emitted while advancing the immediately preceding shared frame.
    pub events: Option<BattleEventsSnapshot>,
}

/// The events of one player in a frame outcome.
pub fn player_events_of(outcome: &BattlePlayerFrameOutcome) -> (r: BattlePlayerEventsSnapshot)
    ensures
        r == (BattlePlayerEventsSnapshot {
            attack: outcome.attack,
            cancellation: outcome.cancellation,
            insertion: outcome.insertion,
            transmitted: outcome.transmitted,
        }),
{
    BattlePlayerEventsSnapshot {
        attack: outcome.attack,
        cancellation: outcome.cancellation,
        insertion: outcome.insertion,
        transmitted: outcome.transmitted,
    }
}

/// The events of a frame outcome.
pub fn events_of(outcome: &BattleFrameOutcome) -> (r: BattleEventsSnapshot)
    ensures
        r.frame == outcome.frame,
        r.player_one == player_events_spec(outcome.player_one),
        r.player_two == player_events_spec(outcome.player_two),
        r.result == outcome.result,
{
    BattleEventsSnapshot {
        frame: outcome.frame,
        player_one: player_events_of(&outcome.player_one),
        player_two: player_events_of(&outcome.player_two),
        result: outcome.result,
    }
}

pub open spec fn player_events_spec(o: BattlePlayerFrameOutcome) -> BattlePlayerEventsSnapshot {
    BattlePlayerEventsSnapshot {
        attack: o.attack,
        cancellation: o.cancellation,
        insertion: o.insertion,
        transmitted: o.transmitted,
    }
}

/// The snapshot shows one player's game at `frame`, counters, queue and sent lines.
pub open spec fn player_snapshot_fits(s: BattlePlayerSnapshot, p: crate::battle::PlayerModel, frame: u64) -> bool {
    &&& s.game.frame == frame
    &&& s.game.board_rows@ == p.game.board.0
    &&& s.game.garbage_rows@ == p.game.board.1
    &&& s.game.active == p.game.active
    &&& s.game.hold == p.game.hold
    &&& s.game.preview@ == p.game.queue
    &&& s.game.top_out == p.game.top_out
    &&& s.game.timing is None
    &&& s.attack == p.attack
    &&& s.incoming@ == p.queue.0
    &&& s.sent_lines == p.sent_lines
}

impl BattlePlayerSnapshot {
    pub fn from_player(player: &BattlePlayerState, frame: u64) -> (r: Self)
        requires
            player.wf(),
        ensures
            player_snapshot_fits(r, player@, frame),
    {
        let (head, tail) = player.incoming().as_slices();
        let mut incoming: Vec<IncomingGarbagePacket> = Vec::new();
        let mut i: usize = 0;
        while i < head.len()
            invariant
                i <= head@.len(),
                incoming@ == head@.take(i as int),
            decreases head@.len() - i,
        {
            incoming.push(head[i]);
            i += 1;
            assert(incoming@ =~= head@.take(i as int));
        }
        let mut j: usize = 0;
        while j < tail.len()
            invariant
                j <= tail@.len(),
                incoming@ == head@ + tail@.take(j as int),
            decreases tail@.len() - j,
        {
            incoming.push(tail[j]);
            j += 1;
            assert(incoming@ =~= head@ + tail@.take(j as int));
        }
        assert(tail@.take(tail@.len() as int) =~= tail@);
        BattlePlayerSnapshot {
            game: FrameSnapshot::from_game(frame, player.game()),
            attack: player.attack_state(),
            incoming,
            sent_lines: player.sent_lines(),
        }
    }
}

impl BattleSnapshot {
    /// The session's state at its current frame, without events.
    pub fn from_battle(battle: &BattleSession) -> (r: Self)
        requires
            battle.wf(),
        ensures
            r.frame == battle@.frame,
            player_snapshot_fits(r.player_one, battle@.one, battle@.frame),
            player_snapshot_fits(r.player_two, battle@.two, battle@.frame),
            r.garbage_multiplier == battle@.multiplier,
            r.result == battle@.result,
            r.events is None,
    {
        let frame = battle.frame();
        BattleSnapshot {
            frame,
            player_one: BattlePlayerSnapshot::from_player(battle.player(PlayerId::One), frame),
            player_two: BattlePlayerSnapshot::from_player(battle.player(PlayerId::Two), frame),
            garbage_multiplier: battle.garbage_multiplier(),
            result: battle.result(),
            events: None,
        }
    }

    /// The session's state after a frame, with the frame's events.
    pub fn after_step(battle: &BattleSession, outcome: &BattleFrameOutcome) -> (r: Self)
        requires
            battle.wf(),
        ensures
            r.frame == battle@.frame,
            player_snapshot_fits(r.player_one, battle@.one, battle@.frame),
            player_snapshot_fits(r.player_two, battle@.two, battle@.frame),
            r.garbage_multiplier == battle@.multiplier,
            r.result == battle@.result,
            r.events matches Some(e) && e.frame == outcome.frame && e.player_one == player_events_spec(outcome.player_one)
                && e.player_two == player_events_spec(outcome.player_two) && e.result == outcome.result,
    {
        let mut snapshot = Self::from_battle(battle);
        snapshot.events = Some(events_of(outcome));
        snapshot
    }
}

#[derive(Clone, Debug, PartialEq, Eq)]
pub enum BattleSnapshotDifference {
    FrameNumber { expected: u64, actual: u64 },
    PlayerOneGame(SnapshotDifference),
    PlayerTwoGame(SnapshotDifference),
    PlayerOneAttack { expected: AttackState, actual: AttackState },
    PlayerTwoAttack { expected: AttackState, actual: AttackState },
    PlayerOneIncoming { expected: Vec<IncomingGarbagePacket>, actual: Vec<IncomingGarbagePacket> },
    PlayerTwoIncoming { expected: Vec<IncomingGarbagePacket>, actual: Vec<IncomingGarbagePacket> },
    PlayerOneSentLines { expected: u64, actual: u64 },
    PlayerTwoSentLines { expected: u64, actual: u64 },
    GarbageMultiplier { expected: AttackMultiplier, actual: AttackMultiplier },
    Result { expected: BattleResult, actual: BattleResult },
    Events { expected: Option<Box<BattleEventsSnapshot>>, actual: Option<Box<BattleEventsSnapshot>> },
}

#[derive(Clone, Debug, PartialEq, Eq)]
pub struct BattleFrameMismatch {
    pub index: usize,
    pub expected_frame: u64,
    pub actual_frame: u64,
    pub difference: BattleSnapshotDifference,
}

#[derive(Clone, Debug, PartialEq, Eq)]
pub enum BattleConformanceMismatch {
    Frame(Box<BattleFrameMismatch>),
    TraceLength { matched_frames: usize, expected: usize, actual: usize },
}

pub open spec fn outcomes_agree(a: AttackOutcome, b: AttackOutcome) -> bool {
    &&& a.state == b.state
    &&& a.packets.identical(b.packets)
    &&& a.base_attack == b.base_attack
    &&& a.clear_attack == b.clear_attack
    &&& a.back_to_back_bonus == b.back_to_back_bonus
    &&& a.special_bonus == b.special_bonus
    &&& a.surge_attack == b.surge_attack
    &&& a.perfect_clear_attack == b.perfect_clear_attack
    &&& a.difficult == b.difficult
    &&& a.back_to_back == b.back_to_back
}

pub open spec fn cancellations_agree(a: GarbageCancellationOutcome, b: GarbageCancellationOutcome) -> bool {
    &&& a.outgoing.identical(b.outgoing)
    &&& a.attack_cancelled == b.attack_cancelled
    &&& a.opener_bonus_cancelled == b.opener_bonus_cancelled
    &&& a.sent_lines_after == b.sent_lines_after
}

pub open spec fn player_events_agree(a: BattlePlayerEventsSnapshot, b: BattlePlayerEventsSnapshot) -> bool {
    &&& match (a.attack, b.attack) {
        (None, None) => true,
        (Some(x), Some(y)) => outcomes_agree(x, y),
        _ => false,
    }
    &&& match (a.cancellation, b.cancellation) {
        (None, None) => true,
        (Some(x), Some(y)) => cancellations_agree(x, y),
        _ => false,
    }
    &&& a.insertion == b.insertion
    &&& a.transmitted.identical(b.transmitted)
}

pub open spec fn events_agree(a: BattleEventsSnapshot, b: BattleEventsSnapshot) -> bool {
    &&& a.frame == b.frame
    &&& player_events_agree(a.player_one, b.player_one)
    &&& player_events_agree(a.player_two, b.player_two)
    &&& a.result == b.result
}

pub open spec fn optional_events_agree(a: Option<BattleEventsSnapshot>, b: Option<BattleEventsSnapshot>) -> bool {
    match (a, b) {
        (None, None) => true,
        (Some(x), Some(y)) => events_agree(x, y),
        _ => false,
    }
}

/// Whether the `i`-th battle check passes; the checks run in the order frame,
/// the two games, the two attack states, the two incoming queues, the two
/// sent-line counters, the multiplier, the result and the events.
pub open spec fn battle_check(e: BattleSnapshot, a: BattleSnapshot, i: int) -> bool {
    if i == 0 {
        e.frame == a.frame
    } else if i == 1 {
        same_snapshot(e.player_one.game, a.player_one.game)
    } else if i == 2 {
        same_snapshot(e.player_two.game, a.player_two.game)
    } else if i == 3 {
        e.player_one.attack == a.player_one.attack
    } else if i == 4 {
        e.player_two.attack == a.player_two.attack
    } else if i == 5 {
        e.player_one.incoming@ == a.player_one.incoming@
    } else if i == 6 {
        e.player_two.incoming@ == a.player_two.incoming@
    } else if i == 7 {
        e.player_one.sent_lines == a.player_one.sent_lines
    } else if i == 8 {
        e.player_two.sent_lines == a.player_two.sent_lines
    } else if i == 9 {
        e.garbage_multiplier == a.garbage_multiplier
    } else if i == 10 {
        e.result == a.result
    } else {
        optional_events_agree(e.events, a.events)
    }
}

pub open spec fn battle_checks_pass(e: BattleSnapshot, a: BattleSnapshot, k: int) -> bool {
    forall|i: int| 0 <= i < k ==> #[trigger] battle_check(e, a, i)
}

pub open spec fn same_battle_snapshot(e: BattleSnapshot, a: BattleSnapshot) -> bool {
    battle_checks_pass(e, a, 12)
}

pub open spec fn boxed_events(b: Option<Box<BattleEventsSnapshot>>, s: Option<BattleEventsSnapshot>) -> bool {
    match b {
        None => s is None,
        Some(x) => s == Some(*x),
    }
}

/// `d` reports the first failing battle check with both sides' values.
pub open spec fn reports_battle_difference(e: BattleSnapshot, a: BattleSnapshot, d: BattleSnapshotDifference) -> bool {
    match d {
        BattleSnapshotDifference::FrameNumber { expected, actual } => {
            &&& !battle_check(e, a, 0)
            &&& expected == e.frame
            &&& actual == a.frame
        },
        BattleSnapshotDifference::PlayerOneGame(sd) => {
            &&& battle_checks_pass(e, a, 1)
            &&& reports_difference(e.player_one.game, a.player_one.game, sd)
        },
        BattleSnapshotDifference::PlayerTwoGame(sd) => {
            &&& battle_checks_pass(e, a, 2)
            &&& reports_difference(e.player_two.game, a.player_two.game, sd)
        },
        BattleSnapshotDifference::PlayerOneAttack { expected, actual } => {
            &&& battle_checks_pass(e, a, 3)
            &&& !battle_check(e, a, 3)
            &&& expected == e.player_one.attack
            &&& actual == a.player_one.attack
        },
        BattleSnapshotDifference::PlayerTwoAttack { expected, actual } => {
            &&& battle_checks_pass(e, a, 4)
            &&& !battle_check(e, a, 4)
            &&& expected == e.player_two.attack
            &&& actual == a.player_two.attack
        },
        BattleSnapshotDifference::PlayerOneIncoming { expected, actual } => {
            &&& battle_checks_pass(e, a, 5)
            &&& !battle_check(e, a, 5)
            &&& expected@ == e.player_one.incoming@
            &&& actual@ == a.player_one.incoming@
        },
        BattleSnapshotDifference::PlayerTwoIncoming { expected, actual } => {
            &&& battle_checks_pass(e, a, 6)
            &&& !battle_check(e, a, 6)
            &&& expected@ == e.player_two.incoming@
            &&& actual@ == a.player_two.incoming@
        },
        BattleSnapshotDifference::PlayerOneSentLines { expected, actual } => {
            &&& battle_checks_pass(e, a, 7)
            &&& !battle_check(e, a, 7)
            &&& expected == e.player_one.sent_lines
            &&& actual == a.player_one.sent_lines
        },
        BattleSnapshotDifference::PlayerTwoSentLines { expected, actual } => {
            &&& battle_checks_pass(e, a, 8)
            &&& !battle_check(e, a, 8)
            &&& expected == e.player_two.sent_lines
            &&& actual == a.player_two.sent_lines
        },
        BattleSnapshotDifference::GarbageMultiplier { expected, actual } => {
            &&& battle_checks_pass(e, a, 9)
            &&& !battle_check(e, a, 9)
            &&& expected == e.garbage_multiplier
            &&& actual == a.garbage_multiplier
        },
        BattleSnapshotDifference::Result { expected, actual } => {
            &&& battle_checks_pass(e, a, 10)
            &&& !battle_check(e, a, 10)
            &&& expected == e.result
            &&& actual == a.result
        },
        BattleSnapshotDifference::Events { expected, actual } => {
            &&& battle_checks_pass(e, a, 11)
            &&& !battle_check(e, a, 11)
            &&& boxed_events(expected, e.events)
            &&& boxed_events(actual, a.events)
        },
    }
}

pub open spec fn battle_snapshot_comparison(
    e: BattleSnapshot,
    a: BattleSnapshot,
    r: Option<BattleSnapshotDifference>,
) -> bool {
    match r {
        None => same_battle_snapshot(e, a),
        Some(d) => reports_battle_difference(e, a, d),
    }
}

fn packets_equal(e: &Vec<IncomingGarbagePacket>, a: &Vec<IncomingGarbagePacket>) -> (r: bool)
    ensures
        r == (e@ == a@),
{
    if e.len() != a.len() {
        return false;
    }
    let mut i: usize = 0;
    while i < e.len()
        invariant
            e@.len() == a@.len(),
            i <= e@.len(),
            forall|j: int| 0 <= j < i ==> e@[j] == a@[j],
        decreases e@.len() - i,
    {
        if e[i] != a[i] {
            return false;
        }
        i += 1;
    }
    assert(e@ =~= a@);
    true
}

fn clone_packets(v: &Vec<IncomingGarbagePacket>) -> (r: Vec<IncomingGarbagePacket>)
    ensures
        r@ == v@,
{
    let mut out: Vec<IncomingGarbagePacket> = Vec::new();
    let mut i: usize = 0;
    while i < v.len()
        invariant
            i <= v@.len(),
            out@ == v@.take(i as int),
        decreases v@.len() - i,
    {
        out.push(v[i]);
        proof {
            assert(v@.take(i + 1) =~= v@.take(i as int).push(v@[i as int]));
        }
        i += 1;
    }
    assert(v@.take(v@.len() as int) =~= v@);
    out
}

fn outcome_agrees(a: &AttackOutcome, b: &AttackOutcome) -> (r: bool)
    ensures
        r == outcomes_agree(*a, *b),
{
    a.state == b.state && a.packets.is_identical(&b.packets) && a.base_attack == b.base_attack && a.clear_attack
        == b.clear_attack && a.back_to_back_bonus == b.back_to_back_bonus && a.special_bonus == b.special_bonus
        && a.surge_attack == b.surge_attack && a.perfect_clear_attack == b.perfect_clear_attack && a.difficult
        == b.difficult && a.back_to_back == b.back_to_back
}

fn cancellation_agrees(a: &GarbageCancellationOutcome, b: &GarbageCancellationOutcome) -> (r: bool)
    ensures
        r == cancellations_agree(*a, *b),
{
    a.outgoing.is_identical(&b.outgoing) && a.attack_cancelled == b.attack_cancelled && a.opener_bonus_cancelled
        == b.opener_bonus_cancelled && a.sent_lines_after == b.sent_lines_after
}

fn player_events_agree_exec(a: &BattlePlayerEventsSnapshot, b: &BattlePlayerEventsSnapshot) -> (r: bool)
    ensures
        r == player_events_agree(*a, *b),
{
    let attack = match (&a.attack, &b.attack) {
        (None, None) => true,
        (Some(x), Some(y)) => outcome_agrees(x, y),
        _ => false,
    };
    let cancellation = match (&a.cancellation, &b.cancellation) {
        (None, None) => true,
        (Some(x), Some(y)) => cancellation_agrees(x, y),
        _ => false,
    };
    let insertion = match (a.insertion, b.insertion) {
        (None, None) => true,
        (Some(x), Some(y)) => x == y,
        _ => false,
    };
    attack && cancellation && insertion && a.transmitted.is_identical(&b.transmitted)
}

fn events_agree_exec(a: &Option<BattleEventsSnapshot>, b: &Option<BattleEventsSnapshot>) -> (r: bool)
    ensures
        r == optional_events_agree(*a, *b),
{
    match (a, b) {
        (None, None) => true,
        (Some(x), Some(y)) => x.frame == y.frame && player_events_agree_exec(&x.player_one, &y.player_one)
            && player_events_agree_exec(&x.player_two, &y.player_two) && x.result == y.result,
        _ => false,
    }
}

fn boxed(events: &Option<BattleEventsSnapshot>) -> (r: Option<Box<BattleEventsSnapshot>>)
    ensures
        boxed_events(r, *events),
{
    match events {
        None => None,
        Some(e) => Some(Box::new(*e)),
    }
}

/// The first failing battle check of two snapshots, if any.
pub(crate) fn compare_battle_snapshot(expected: &BattleSnapshot, actual: &BattleSnapshot) -> (r: Option<
    BattleSnapshotDifference,
>)
    ensures
        battle_snapshot_comparison(*expected, *actual, r),
{
    let ghost e = *expected;
    let ghost a = *actual;
    if expected.frame != actual.frame {
        return Some(BattleSnapshotDifference::FrameNumber { expected: expected.frame, actual: actual.frame });
    }
    assert(battle_checks_pass(e, a, 1));
    if let Some(difference) = compare_snapshot(&expected.player_one.game, &actual.player_one.game) {
        return Some(BattleSnapshotDifference::PlayerOneGame(difference));
    }
    assert(battle_checks_pass(e, a, 2));
    if let Some(difference) = compare_snapshot(&expected.player_two.game, &actual.player_two.game) {
        return Some(BattleSnapshotDifference::PlayerTwoGame(difference));
    }
    assert(battle_checks_pass(e, a, 3));
    if expected.player_one.attack != actual.player_one.attack {
        return Some(
            BattleSnapshotDifference::PlayerOneAttack {
                expected: expected.player_one.attack,
                actual: actual.player_one.attack,
            },
        );
    }
    assert(battle_checks_pass(e, a, 4));
    if expected.player_two.attack != actual.player_two.attack {
        return Some(
            BattleSnapshotDifference::PlayerTwoAttack {
                expected: expected.player_two.attack,
                actual: actual.player_two.attack,
            },
        );
    }
    assert(battle_checks_pass(e, a, 5));
    if !packets_equal(&expected.player_one.incoming, &actual.player_one.incoming) {
        return Some(
            BattleSnapshotDifference::PlayerOneIncoming {
                expected: clone_packets(&expected.player_one.incoming),
                actual: clone_packets(&actual.player_one.incoming),
            },
        );
    }
    assert(battle_checks_pass(e, a, 6));
    if !packets_equal(&expected.player_two.incoming, &actual.player_two.incoming) {
        return Some(
            BattleSnapshotDifference::PlayerTwoIncoming {
                expected: clone_packets(&expected.player_two.incoming),
                actual: clone_packets(&actual.player_two.incoming),
            },
        );
    }
    assert(battle_checks_pass(e, a, 7));
    if expected.player_one.sent_lines != actual.player_one.sent_lines {
        return Some(
            BattleSnapshotDifference::PlayerOneSentLines {
                expected: expected.player_one.sent_lines,
                actual: actual.player_one.sent_lines,
            },
        );
    }
    assert(battle_checks_pass(e, a, 8));
    if expected.player_two.sent_lines != actual.player_two.sent_lines {
        return Some(
            BattleSnapshotDifference::PlayerTwoSentLines {
                expected: expected.player_two.sent_lines,
                actual: actual.player_two.sent_lines,
            },
        );
    }
    assert(battle_checks_pass(e, a, 9));
    if expected.garbage_multiplier != actual.garbage_multiplier {
        return Some(
            BattleSnapshotDifference::GarbageMultiplier {
                expected: expected.garbage_multiplier,
                actual: actual.garbage_multiplier,
            },
        );
    }
    assert(battle_checks_pass(e, a, 10));
    if expected.result != actual.result {
        return Some(BattleSnapshotDifference::Result { expected: expected.result, actual: actual.result });
    }
    assert(battle_checks_pass(e, a, 11));
    if !events_agree_exec(&expected.events, &actual.events) {
        return Some(BattleSnapshotDifference::Events { expected: boxed(&expected.events), actual: boxed(&actual.events) });
    }
    assert(battle_checks_pass(e, a, 12));
    None
}

pub open spec fn battle_prefix_agrees(e: Seq<BattleSnapshot>, a: Seq<BattleSnapshot>, n: int) -> bool {
    forall|j: int| 0 <= j < n ==> same_battle_snapshot(#[trigger] e[j], a[j])
}

pub open spec fn battle_trace_comparison(
    e: Seq<BattleSnapshot>,
    a: Seq<BattleSnapshot>,
    r: Result<(), BattleConformanceMismatch>,
) -> bool {
    match r {
        Ok(()) => e.len() == a.len() && battle_prefix_agrees(e, a, e.len() as int),
        Err(BattleConformanceMismatch::Frame(m)) => {
            &&& m.index < min_len(e.len(), a.len())
            &&& battle_prefix_agrees(e, a, m.index as int)
            &&& m.expected_frame == e[m.index as int].frame
            &&& m.actual_frame == a[m.index as int].frame
            &&& reports_battle_difference(e[m.index as int], a[m.index as int], m.difference)
        },
        Err(BattleConformanceMismatch::TraceLength { matched_frames, expected, actual }) => {
            &&& e.len() != a.len()
            &&& battle_prefix_agrees(e, a, min_len(e.len(), a.len()) as int)
            &&& matched_frames == min_len(e.len(), a.len())
            &&& expected == e.len()
            &&& actual == a.len()
        },
    }
}

/// Returns the first deterministic 1v1 mismatch, including attack and
/// garbage state.
pub fn compare_battle_traces(expected: &[BattleSnapshot], actual: &[BattleSnapshot]) -> (r: Result<
    (),
    BattleConformanceMismatch,
>)
    ensures
        battle_trace_comparison(expected@, actual@, r),
{
    let n = if expected.len() <= actual.len() {
        expected.len()
    } else {
        actual.len()
    };
    let mut index: usize = 0;
    while index < n
        invariant
            n == min_len(expected@.len(), actual@.len()),
            index <= n,
            battle_prefix_agrees(expected@, actual@, index as int),
        decreases n - index,
    {
        match compare_battle_snapshot(&expected[index], &actual[index]) {
            Some(difference) => {
                return Err(
                    BattleConformanceMismatch::Frame(
                        Box::new(
                            BattleFrameMismatch {
                                index,
                                expected_frame: expected[index].frame,
                                actual_frame: actual[index].frame,
                                difference,
                            },
                        ),
                    ),
                );
            },
            None => {},
        }
        index += 1;
    }
    if expected.len() != actual.len() {
        return Err(
            BattleConformanceMismatch::TraceLength {
                matched_frames: n,
                expected: expected.len(),
                actual: actual.len(),
            },
        );
    }
    Ok(())
}

} // verus!
