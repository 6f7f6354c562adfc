//! The deterministic two-player session at placement level: each step locks
//! one reachable afterstate per player, resolves both attacks, cancels them
//! against incoming garbage, passes the same-frame remainders through each
//! other, sends what is left, raises ready garbage at the lock boundary and
//! spawns the next pieces.
//!
//! The garbage multiplier is a double, so a step has two halves: the first
//! locks and computes the integer attack terms; the caller scales them by the
//! multiplier and hands the three amounts back to the second half, with the
//! multiplier that holds once the step's frames have elapsed.
use vstd::prelude::*;
use crate::board::{Board, no_full_rows};
use crate::game::{GameError, GameModel, GameState, LockedPlacement, PlacementOutcome, fresh_game};
use crate::piece::PieceState;
use crate::rng::is_permutation_of_all;
use crate::session::SessionStepError;
use crate::timing::LastAction;
use crate::versus::{
    AttackMultiplier, AttackOutcome, AttackPacket, AttackPackets, AttackState, AttackTerms, BattleError,
    BattleResult, BattleRules, CancelState, GarbageCancellationOutcome, GarbageError, GarbageInsertionOutcome,
    GarbageRules, HoleModel, IncomingGarbagePacket, IncomingGarbageQueue, PlayerId, assemble_attack,
    attack_packet_order, attack_terms, attack_terms_spec, cancel_attack_packets, cancel_overflows,
    cancel_packets_from, cancel_start, common_lines, cross_cancel_simultaneous, discard_prefix,
    enqueue_generated_packets, generated_packet, lemma_take_line, lines_total, queue_lines, result_from_terminals,
    take_line_spec,
};
use crate::rng::minstd_seed;

verus! {

/// Abstract state of an incoming-garbage queue: its packets and hole state.
pub type QueueModel = (Seq<IncomingGarbagePacket>, HoleModel);

/// One player's move for a placement step.
#[derive(Clone, Copy, Debug, PartialEq, Eq)]
pub struct PlacementAction {
    pub used_hold: bool,
    pub placement: PieceState,
    pub last_action: LastAction,
}

/// The three amounts the garbage multiplier produced from one player's attack
/// terms: the scaled surge, the combo-scaled clear attack and the scaled
/// perfect-clear attack.
#[derive(Clone, Copy, Debug, PartialEq, Eq, Structural)]
pub struct ScaledAttack {
    pub surge_attack: u32,
    pub combo_attack: u32,
    pub perfect_clear_attack: u32,
}

/// What the first half of a step decided for one player.
#[derive(Clone, Copy, Debug, PartialEq, Eq)]
pub struct PendingPlayer {
    pub locked: LockedPlacement,
    pub hold_applied: bool,
    pub terms: AttackTerms,
}

/// A frame whose attacks await the multiplier: each player that locked on
/// it, with what its first half decided.
#[derive(Clone, Copy, Debug, PartialEq, Eq)]
pub struct PendingFrame {
    pub frame: u64,
    pub player_one: Option<PendingPlayer>,
    pub player_two: Option<PendingPlayer>,
}

#[derive(Clone, Copy, Debug, PartialEq, Eq)]
pub struct BattlePlayerFrameOutcome {
    pub locked: Option<LockedPlacement>,
    pub hold_applied: bool,
    pub attack: Option<AttackOutcome>,
    pub cancellation: Option<GarbageCancellationOutcome>,
    pub insertion: Option<GarbageInsertionOutcome>,
    pub spawn: Option<PlacementOutcome>,
    /// Packet sequence that remains after same-frame zero passthrough.
    pub transmitted: AttackPackets,
}

#[derive(Clone, Copy, Debug, PartialEq, Eq)]
pub struct BattleFrameOutcome {
    pub frame: u64,
    pub player_one: BattlePlayerFrameOutcome,
    pub player_two: BattlePlayerFrameOutcome,
    pub result: BattleResult,
}

/// A placement step whose attacks await the multiplier.
#[derive(Clone, Copy, Debug, PartialEq, Eq)]
pub struct PendingPlacement {
    pub frame: u64,
    pub frames_per_placement: u32,
    pub player_one: PendingPlayer,
    pub player_two: PendingPlayer,
}

#[derive(Clone, Copy, Debug, PartialEq, Eq)]
pub struct BattlePlacementPlayerOutcome {
    pub locked: LockedPlacement,
    pub hold_applied: bool,
    pub attack: AttackOutcome,
    pub cancellation: GarbageCancellationOutcome,
    pub insertion: GarbageInsertionOutcome,
    pub spawn: Option<PlacementOutcome>,
    /// Packet sequence that remains after same-frame zero passthrough.
    pub transmitted: AttackPackets,
}

#[derive(Clone, Copy, Debug, PartialEq, Eq)]
pub struct BattlePlacementOutcome {
    pub frame: u64,
    pub frames_per_placement: u32,
    pub player_one: BattlePlacementPlayerOutcome,
    pub player_two: BattlePlacementPlayerOutcome,
    pub result: BattleResult,
}

/// Abstract state of one player.
pub struct PlayerModel {
    pub game: GameModel,
    pub attack: AttackState,
    pub queue: QueueModel,
    pub sent_lines: u64,
}

#[derive(Clone, Debug, PartialEq, Eq)]
pub struct BattlePlayerState {
    game: GameState,
    attack: AttackState,
    incoming: IncomingGarbageQueue,
    sent_lines: u64,
}

impl View for BattlePlayerState {
    type V = PlayerModel;

    closed spec fn view(&self) -> PlayerModel {
        PlayerModel { game: self.game@, attack: self.attack, queue: self.incoming@, sent_lines: self.sent_lines }
    }
}

impl BattlePlayerState {
    /// The game is well formed, the queue is well formed, and a board on which
    /// nothing has locked yet has no full row.
    pub closed spec fn wf(&self) -> bool {
        &&& self.game.wf()
        &&& self.incoming.wf()
        &&& (self.game@.pieces_placed == 0 ==> no_full_rows(self.game@.board.0))
    }

    /// Every lock from a well-formed player's game clears at most four rows.
    pub proof fn lemma_locks_fit(&self)
        requires
            self.wf(),
        ensures
            self@.game.all_locks_fit(),
            self@.game.pieces_placed == 0 ==> no_full_rows(self@.game.board.0),
    {
        self.game.lemma_wf_facts();
        self.game.lemma_settled_locks_fit();
    }

    pub fn game(&self) -> (r: &GameState)
        requires
            self.wf(),
        ensures
            r@ == self@.game,
            r.wf(),
    {
        &self.game
    }

    pub fn attack_state(&self) -> (r: AttackState)
        ensures
            r == self@.attack,
    {
        self.attack
    }

    pub fn incoming(&self) -> (r: &IncomingGarbageQueue)
        requires
            self.wf(),
        ensures
            r@ == self@.queue,
            r.wf(),
    {
        &self.incoming
    }

    pub fn sent_lines(&self) -> (r: u64)
        ensures
            r == self@.sent_lines,
    {
        self.sent_lines
    }
}

/// The round result from which players have topped out.
pub open spec fn round_result(one_over: bool, two_over: bool) -> BattleResult {
    if one_over && two_over {
        BattleResult::Draw
    } else if one_over {
        BattleResult::PlayerTwoWin
    } else if two_over {
        BattleResult::PlayerOneWin
    } else {
        BattleResult::Ongoing
    }
}

/// Abstract state of a session.
pub struct BattleModel {
    pub one: PlayerModel,
    pub two: PlayerModel,
    pub rules: BattleRules,
    pub multiplier: AttackMultiplier,
    pub frame: u64,
    pub result: BattleResult,
    pub pending: Option<PendingPlacement>,
    pub pending_frame: Option<PendingFrame>,
}

/// The locked placement that a lock of `placement` reports on `g`.
pub open spec fn locked_spec(g: GameModel, placement: PieceState, last: LastAction) -> LockedPlacement {
    choose|l: LockedPlacement| g.locked_facts(placement, last, l)
}

/// The game after an optional hold.
pub open spec fn after_hold(g: GameModel, used_hold: bool) -> Result<GameModel, GameError> {
    if used_hold {
        match g.hold_step() {
            Ok((m, _)) => Ok(m),
            Err(e) => Err(e),
        }
    } else {
        Ok(g)
    }
}

/// An optional hold and then a deferred lock of the chosen placement.
pub open spec fn place_spec(g: GameModel, a: PlacementAction) -> Result<(GameModel, LockedPlacement), GameError> {
    match after_hold(g, a.used_hold) {
        Err(e) => Err(e),
        Ok(m) => match m.lock_error(a.placement) {
            Some(e) => Err(e),
            None => {
                let l = locked_spec(m, a.placement, a.last_action);
                Ok((m.after_lock(a.placement, l), l))
            },
        },
    }
}

impl BattleModel {
    /// The first half of a placement step: what it leaves, or its error.
    pub open spec fn begin_spec(self, a1: PlacementAction, a2: PlacementAction, cadence: u32) -> Result<
        (BattleModel, PendingPlacement),
        BattleError,
    > {
        if cadence == 0 {
            Err(BattleError::ZeroPlacementCadence)
        } else if self.result != BattleResult::Ongoing {
            Err(BattleError::RoundOver(self.result))
        } else if self.pending is Some || self.pending_frame is Some {
            Err(BattleError::PlacementPending)
        } else if self.frame + cadence > u64::MAX {
            Err(BattleError::FrameOverflow)
        } else {
            match place_spec(self.one.game, a1) {
                Err(e) => Err(BattleError::Session { player: PlayerId::One, source: SessionStepError::Game(e) }),
                Ok((g1, l1)) => match place_spec(self.two.game, a2) {
                    Err(e) => Err(BattleError::Session { player: PlayerId::Two, source: SessionStepError::Game(e) }),
                    Ok((g2, l2)) => match attack_terms_spec(self.one.attack, l1.clear, l1.cleared_garbage, self.rules.attack) {
                        Err(e) => Err(BattleError::Attack { player: PlayerId::One, source: e }),
                        Ok(t1) => match attack_terms_spec(
                            self.two.attack,
                            l2.clear,
                            l2.cleared_garbage,
                            self.rules.attack,
                        ) {
                            Err(e) => Err(BattleError::Attack { player: PlayerId::Two, source: e }),
                            Ok(t2) => {
                                let p = PendingPlacement {
                                    frame: self.frame,
                                    frames_per_placement: cadence,
                                    player_one: PendingPlayer { locked: l1, hold_applied: a1.used_hold, terms: t1 },
                                    player_two: PendingPlayer { locked: l2, hold_applied: a2.used_hold, terms: t2 },
                                };
                                Ok(
                                    (
                                        BattleModel {
                                            one: PlayerModel { game: g1, ..self.one },
                                            two: PlayerModel { game: g2, ..self.two },
                                            pending: Some(p),
                                            ..self
                                        },
                                        p,
                                    ),
                                )
                            },
                        },
                    },
                },
            }
        }
    }
}

/// The scaled amounts fit the packet counters.
pub open spec fn scaled_fits(t: AttackTerms, s: ScaledAttack) -> bool {
    s.surge_attack < u32::MAX && s.combo_attack + t.special_bonus <= u32::MAX
}

/// The attack packets of one lock, in sending order.
pub open spec fn scaled_packets(t: AttackTerms, s: ScaledAttack) -> Seq<AttackPacket> {
    attack_packet_order(s.surge_attack, (s.combo_attack + t.special_bonus) as u32, s.perfect_clear_attack)
}

/// Cancellation of one player's packets against its own incoming queue.
pub open spec fn cancel_spec(p: PlayerModel, pending: PendingPlayer, s: ScaledAttack, rules: GarbageRules) -> CancelState {
    cancel_packets_from(
        scaled_packets(pending.terms, s),
        0,
        cancel_start(p.queue, p.sent_lines),
        pending.locked.pieces_placed,
        rules,
    )
}

/// Sending `ps` into `q` would overflow the queue's line total or the frame
/// at which the packets become ready.
pub open spec fn delivery_overflows(q: QueueModel, ps: Seq<AttackPacket>, frame: u64, rules: GarbageRules) -> bool {
    ps.len() > 0 && (queue_lines(q.0) + lines_total(ps) > u64::MAX || frame + rules.travel_frames > u64::MAX)
}

/// The queue after `ps` arrive at `frame`.
pub open spec fn delivered(q: QueueModel, ps: Seq<AttackPacket>, frame: u64, rules: GarbageRules) -> QueueModel {
    (q.0 + ps.map_values(|p: AttackPacket| generated_packet(p, frame, rules)), q.1)
}

/// Up to `left` ready lines rise, one at a time, until the queue has none
/// ready or the game tops out: the queue, the game, how many rose and
/// whether a row was pushed out of the buffer.
pub open spec fn raise_from(
    q: QueueModel,
    g: GameModel,
    frame: u64,
    left: nat,
    inserted: nat,
    overflowed: bool,
    rules: GarbageRules,
) -> (QueueModel, GameModel, nat, bool)
    decreases left,
{
    if left == 0 || g.top_out is Some {
        (q, g, inserted, overflowed)
    } else {
        let (q1, h) = take_line_spec(q, frame, rules.messiness);
        match h {
            None => (q, g, inserted, overflowed),
            Some(c) => {
                let (g1, pushed) = g.garbage_step(c as usize)->Ok_0;
                raise_from(q1, g1, frame, (left - 1) as nat, inserted + 1, overflowed || pushed.overflowed_buffer, rules)
            },
        }
    }
}

/// Garbage raised at a lock boundary: none after a clear under combo
/// blocking, else up to the rule cap.
pub open spec fn raise_spec(q: QueueModel, g: GameModel, locked: LockedPlacement, frame: u64, rules: GarbageRules) -> (
    QueueModel,
    GameModel,
    GarbageInsertionOutcome,
) {
    if rules.combo_blocking && locked.cleared@.len() > 0 {
        (q, g, GarbageInsertionOutcome { inserted: 0, overflowed_buffer: false, blocked_by_clear: true })
    } else {
        let f = raise_from(q, g, frame, rules.garbage_cap as nat, 0, false, rules);
        (f.0, f.1, GarbageInsertionOutcome { inserted: f.2 as u8, overflowed_buffer: f.3, blocked_by_clear: false })
    }
}

/// The next spawn, unless the game already topped out.
pub open spec fn spawn_spec(g: GameModel) -> (GameModel, Option<PlacementOutcome>) {
    if g.top_out is Some {
        (g, None)
    } else {
        let (m, o) = g.finish_step()->Ok_0;
        (m, Some(o))
    }
}

/// The second half of a step: its error, if any, in the order in which the
/// stages run.
pub open spec fn finish_error(m: BattleModel, s1: ScaledAttack, s2: ScaledAttack) -> Option<BattleError> {
    match m.pending {
        None => Some(BattleError::NoPendingPlacement),
        Some(p) => {
            let g = m.rules.garbage;
            let c1 = cancel_spec(m.one, p.player_one, s1, g);
            let c2 = cancel_spec(m.two, p.player_two, s2, g);
            let common = common_lines(c1.outgoing, c2.outgoing);
            let t1 = discard_prefix(c1.outgoing, common);
            let t2 = discard_prefix(c2.outgoing, common);
            if !scaled_fits(p.player_one.terms, s1) {
                Some(BattleError::Attack { player: PlayerId::One, source: crate::versus::AttackError::CounterOverflow })
            } else if !scaled_fits(p.player_two.terms, s2) {
                Some(BattleError::Attack { player: PlayerId::Two, source: crate::versus::AttackError::CounterOverflow })
            } else if cancel_overflows(c1) {
                Some(BattleError::Garbage { player: PlayerId::One, source: GarbageError::CounterOverflow })
            } else if cancel_overflows(c2) {
                Some(BattleError::Garbage { player: PlayerId::Two, source: GarbageError::CounterOverflow })
            } else if delivery_overflows(c2.queue, t1, p.frame, g) {
                Some(BattleError::Garbage { player: PlayerId::Two, source: GarbageError::CounterOverflow })
            } else if delivery_overflows(c1.queue, t2, p.frame, g) {
                Some(BattleError::Garbage { player: PlayerId::One, source: GarbageError::CounterOverflow })
            } else {
                None
            }
        },
    }
}

/// One player's state after the second half of a step, given what the
/// opponent transmitted to it.
pub open spec fn finish_player(
    p: PlayerModel,
    pending: PendingPlayer,
    s: ScaledAttack,
    incoming: Seq<AttackPacket>,
    frame: u64,
    rules: GarbageRules,
) -> (PlayerModel, GarbageInsertionOutcome, Option<PlacementOutcome>) {
    let c = cancel_spec(p, pending, s, rules);
    let q = delivered(c.queue, incoming, frame, rules);
    let (q1, g1, ins) = raise_spec(q, p.game, pending.locked, frame, rules);
    let (g2, spawn) = spawn_spec(g1);
    (PlayerModel { game: g2, attack: pending.terms.state, queue: q1, sent_lines: c.sent as u64 }, ins, spawn)
}

/// The session after a successful second half.
pub open spec fn finish_model(m: BattleModel, s1: ScaledAttack, s2: ScaledAttack, next: AttackMultiplier) -> BattleModel {
    let p = m.pending->Some_0;
    let g = m.rules.garbage;
    let c1 = cancel_spec(m.one, p.player_one, s1, g);
    let c2 = cancel_spec(m.two, p.player_two, s2, g);
    let common = common_lines(c1.outgoing, c2.outgoing);
    let t1 = discard_prefix(c1.outgoing, common);
    let t2 = discard_prefix(c2.outgoing, common);
    let one = finish_player(m.one, p.player_one, s1, t2, p.frame, g).0;
    let two = finish_player(m.two, p.player_two, s2, t1, p.frame, g).0;
    BattleModel {
        one,
        two,
        multiplier: next,
        frame: (p.frame + p.frames_per_placement) as u64,
        result: round_result(one.game.top_out is Some, two.game.top_out is Some),
        pending: None,
        ..m
    }
}

/// What the second half reports for one player.
pub open spec fn player_outcome_ok(
    o: BattlePlacementPlayerOutcome,
    p: PlayerModel,
    pending: PendingPlayer,
    s: ScaledAttack,
    incoming: Seq<AttackPacket>,
    transmitted: Seq<AttackPacket>,
    frame: u64,
    rules: GarbageRules,
) -> bool {
    let c = cancel_spec(p, pending, s, rules);
    let f = finish_player(p, pending, s, incoming, frame, rules);
    &&& o.locked == pending.locked
    &&& o.hold_applied == pending.hold_applied
    &&& o.attack.state == pending.terms.state
    &&& o.attack.packets.wf()
    &&& o.attack.packets@ == scaled_packets(pending.terms, s)
    &&& o.cancellation.outgoing.wf()
    &&& o.cancellation.outgoing@ == c.outgoing
    &&& o.cancellation.attack_cancelled == c.attack_cancelled
    &&& o.cancellation.opener_bonus_cancelled == c.opener_cancelled
    &&& o.cancellation.sent_lines_after == c.sent
    &&& o.insertion == f.1
    &&& o.spawn == f.2
    &&& o.transmitted.wf()
    &&& o.transmitted@ == transmitted
}

/// Everything the second half reports.
pub open spec fn finish_outcome_ok(m: BattleModel, s1: ScaledAttack, s2: ScaledAttack, o: BattlePlacementOutcome, result: BattleResult) -> bool {
    let p = m.pending->Some_0;
    let g = m.rules.garbage;
    let c1 = cancel_spec(m.one, p.player_one, s1, g);
    let c2 = cancel_spec(m.two, p.player_two, s2, g);
    let common = common_lines(c1.outgoing, c2.outgoing);
    let t1 = discard_prefix(c1.outgoing, common);
    let t2 = discard_prefix(c2.outgoing, common);
    &&& o.frame == p.frame
    &&& o.frames_per_placement == p.frames_per_placement
    &&& o.result == result
    &&& player_outcome_ok(o.player_one, m.one, p.player_one, s1, t2, t1, p.frame, g)
    &&& player_outcome_ok(o.player_two, m.two, p.player_two, s2, t1, t2, p.frame, g)
}

#[derive(Clone, Debug, PartialEq, Eq)]
pub struct BattleSession {
    one: BattlePlayerState,
    two: BattlePlayerState,
    rules: BattleRules,
    multiplier: AttackMultiplier,
    frame: u64,
    result: BattleResult,
    pending: Option<PendingPlacement>,
    pending_frame: Option<PendingFrame>,
}

impl View for BattleSession {
    type V = BattleModel;

    closed spec fn view(&self) -> BattleModel {
        BattleModel {
            one: self.one@,
            two: self.two@,
            rules: self.rules,
            multiplier: self.multiplier,
            frame: self.frame,
            result: self.result,
            pending: self.pending,
            pending_frame: self.pending_frame,
        }
    }
}

/// A pending step matches the games: both locked, neither over, and the
/// step's frames fit the clock.
pub open spec fn pending_matches(m: BattleModel, p: PendingPlacement) -> bool {
    &&& p.frame == m.frame
    &&& p.frames_per_placement > 0
    &&& m.frame + p.frames_per_placement <= u64::MAX
    &&& m.one.game.pending_lock == Some(p.player_one.locked)
    &&& m.two.game.pending_lock == Some(p.player_two.locked)
    &&& m.one.game.top_out is None
    &&& m.two.game.top_out is None
}

/// A pending frame matches the games: neither over, and a player has a
/// deferred lock exactly when it locked on the frame.
pub open spec fn frame_pending_matches(m: BattleModel, p: PendingFrame) -> bool {
    &&& p.frame == m.frame
    &&& m.one.game.top_out is None
    &&& m.two.game.top_out is None
    &&& match p.player_one {
        Some(pp) => m.one.game.pending_lock == Some(pp.locked),
        None => m.one.game.pending_lock is None,
    }
    &&& match p.player_two {
        Some(pp) => m.two.game.pending_lock == Some(pp.locked),
        None => m.two.game.pending_lock is None,
    }
}

/// A new session: both players on the same piece seed and the same initial
/// garbage-hole seed.
pub open spec fn fresh_battle(
    seed: u64,
    rules: BattleRules,
    boards: ((Seq<u16>, Seq<u16>), (Seq<u16>, Seq<u16>)),
    multiplier: AttackMultiplier,
) -> BattleModel {
    let g1 = fresh_game(seed, rules.game, boards.0);
    let g2 = fresh_game(seed, rules.game, boards.1);
    let q = (Seq::<IncomingGarbagePacket>::empty(), (minstd_seed(seed), None::<u8>, false));
    BattleModel {
        one: PlayerModel { game: g1, attack: AttackState { combo: 0, back_to_back: 0 }, queue: q, sent_lines: 0 },
        two: PlayerModel { game: g2, attack: AttackState { combo: 0, back_to_back: 0 }, queue: q, sent_lines: 0 },
        rules,
        multiplier,
        frame: 0,
        result: round_result(g1.top_out is Some, g2.top_out is Some),
        pending: None,
        pending_frame: None,
    }
}

impl BattleSession {
    pub closed spec fn wf(&self) -> bool {
        &&& self.one.wf()
        &&& self.two.wf()
        &&& self.rules.config_error() is None
        &&& self.result == round_result(self.one@.game.top_out is Some, self.two@.game.top_out is Some)
        &&& match self.pending {
            None => match self.pending_frame {
                None => (self.one@.game.pending_lock is None || self.one@.game.top_out is Some) && (
                self.two@.game.pending_lock is None || self.two@.game.top_out is Some),
                Some(p) => frame_pending_matches(self@, p),
            },
            Some(p) => self.pending_frame is None && pending_matches(self@, p),
        }
    }

    /// A well-formed session's rules are valid, and with no step pending
    /// neither game awaits a spawn unless it is over.
    pub proof fn lemma_wf(&self)
        requires
            self.wf(),
        ensures
            self@.rules.config_error() is None,
            self@.pending is None && self@.pending_frame is None ==> (self@.one.game.pending_lock is None || self@.one.game.top_out is Some) && (
            self@.two.game.pending_lock is None || self@.two.game.top_out is Some),
    {
    }

    /// Creates both players on empty boards.
    pub fn new(seed: u64, rules: BattleRules, multiplier: AttackMultiplier) -> (r: Result<Self, BattleError>)
        requires
            rules.timing.wf(),
            rules.game.spawn.origins_ok(),
        ensures
            rules.config_error() matches Some(e) ==> r == Err::<Self, BattleError>(e),
            rules.config_error() is None && !is_permutation_of_all(rules.game.bag_order@) ==> r matches Err(
                BattleError::Session { player: PlayerId::One, source: SessionStepError::Game(GameError::BagOrder(_)) },
            ),
            rules.config_error() is None && is_permutation_of_all(rules.game.bag_order@) ==> (r matches Ok(b) && b.wf()
                && b@ == fresh_battle(
                seed,
                rules,
                (
                    (Seq::new(crate::board::HEIGHT as nat, |i: int| 0u16), Seq::new(crate::board::HEIGHT as nat, |i: int| 0u16)),
                    (Seq::new(crate::board::HEIGHT as nat, |i: int| 0u16), Seq::new(crate::board::HEIGHT as nat, |i: int| 0u16)),
                ),
                multiplier,
            )),
    {
        let board = Board::empty();
        proof {
            assert(no_full_rows(board@.0));
        }
        Self::with_boards(seed, rules, [board, board], multiplier)
    }

    /// Creates both players on the given boards. A board holds no full row,
    /// as no settled position does.
    pub fn with_boards(seed: u64, rules: BattleRules, boards: [Board; 2], multiplier: AttackMultiplier) -> (r: Result<
        Self,
        BattleError,
    >)
        requires
            rules.timing.wf(),
            rules.game.spawn.origins_ok(),
            boards@[0].wf(),
            boards@[1].wf(),
            no_full_rows(boards@[0]@.0),
            no_full_rows(boards@[1]@.0),
        ensures
            rules.config_error() matches Some(e) ==> r == Err::<Self, BattleError>(e),
            rules.config_error() is None && !is_permutation_of_all(rules.game.bag_order@) ==> r matches Err(
                BattleError::Session { player: PlayerId::One, source: SessionStepError::Game(GameError::BagOrder(_)) },
            ),
            rules.config_error() is None && is_permutation_of_all(rules.game.bag_order@) ==> (r matches Ok(b) && b.wf()
                && b@ == fresh_battle(seed, rules, (boards@[0]@, boards@[1]@), multiplier)),
    {
        match rules.validate() {
            Ok(()) => {},
            Err(e) => {
                return Err(e);
            },
        }
        let config = rules.game;
        let one = match GameState::with_board(seed, config, boards[0]) {
            Ok(g) => g,
            Err(e) => {
                proof {
                    assert(GameState::order_error(e, config.bag_order@));
                }
                return Err(BattleError::Session { player: PlayerId::One, source: SessionStepError::Game(e) });
            },
        };
        let two = match GameState::with_board(seed, config, boards[1]) {
            Ok(g) => g,
            Err(e) => {
                return Err(BattleError::Session { player: PlayerId::Two, source: SessionStepError::Game(e) });
            },
        };
        let result = result_from_terminals(one.is_top_out(), two.is_top_out());
        let r = BattleSession {
            one: BattlePlayerState {
                game: one,
                attack: AttackState { combo: 0, back_to_back: 0 },
                incoming: IncomingGarbageQueue::new(seed),
                sent_lines: 0,
            },
            two: BattlePlayerState {
                game: two,
                attack: AttackState { combo: 0, back_to_back: 0 },
                incoming: IncomingGarbageQueue::new(seed),
                sent_lines: 0,
            },
            rules,
            multiplier,
            frame: 0,
            result,
            pending: None,
            pending_frame: None,
        };
        Ok(r)
    }

    pub fn frame(&self) -> (r: u64)
        ensures
            r == self@.frame,
    {
        self.frame
    }

    pub fn result(&self) -> (r: BattleResult)
        ensures
            r == self@.result,
    {
        self.result
    }

    pub fn rules(&self) -> (r: &BattleRules)
        ensures
            *r == self@.rules,
    {
        &self.rules
    }

    pub fn garbage_multiplier(&self) -> (r: AttackMultiplier)
        ensures
            r == self@.multiplier,
    {
        self.multiplier
    }

    pub fn pending_frame(&self) -> (r: Option<PendingFrame>)
        ensures
            r == self@.pending_frame,
    {
        self.pending_frame
    }

    pub fn pending(&self) -> (r: Option<PendingPlacement>)
        ensures
            r == self@.pending,
    {
        self.pending
    }

    pub fn player(&self, player: PlayerId) -> (r: &BattlePlayerState)
        requires
            self.wf(),
        ensures
            r.wf(),
            r@ == (match player {
                PlayerId::One => self@.one,
                PlayerId::Two => self@.two,
            }),
    {
        match player {
            PlayerId::One => &self.one,
            PlayerId::Two => &self.two,
        }
    }
}

/// An optional hold and then a deferred lock, on a copy of the game.
fn place_action(game: &GameState, a: PlacementAction) -> (r: Result<(GameState, LockedPlacement), GameError>)
    requires
        game.wf(),
        game@.pieces_placed < u64::MAX,
        game@.pieces_placed == 0 ==> no_full_rows(game@.board.0),
    ensures
        match place_spec(game@, a) {
            Err(e) => r == Err::<(GameState, LockedPlacement), GameError>(e),
            Ok((m, l)) => r matches Ok((g, l2)) && g.wf() && g@ == m && l2 == l,
        },
{
    let mut g = game.duplicate();
    if a.used_hold {
        match g.hold_active() {
            Ok(_) => {},
            Err(e) => {
                return Err(e);
            },
        }
    }
    proof {
        g.lemma_wf_facts();
        g.lemma_settled_locks_fit();
    }
    let ghost m = g@;
    match g.lock_placement_deferred(a.placement, a.last_action) {
        Ok(l) => {
            proof {
                let c = locked_spec(m, a.placement, a.last_action);
                assert(m.locked_facts(a.placement, a.last_action, c));
                m.lemma_locked_facts_unique(a.placement, a.last_action, l, c);
            }
            Ok((g, l))
        },
        Err(e) => Err(e),
    }
}

/// Sends packets into a queue, refusing a send that would overflow it.
fn deliver(receiver: PlayerId, incoming: &mut IncomingGarbageQueue, packets: AttackPackets, frame: u64, rules: GarbageRules) -> (r:
    Result<(), BattleError>)
    requires
        old(incoming).wf(),
        packets.wf(),
        rules.config_error() is None,
    ensures
        final(incoming).wf(),
        delivery_overflows(old(incoming)@, packets@, frame, rules) ==> r == Err::<(), BattleError>(
            BattleError::Garbage { player: receiver, source: GarbageError::CounterOverflow },
        ),
        !delivery_overflows(old(incoming)@, packets@, frame, rules) ==> r is Ok && final(incoming)@ == delivered(
            old(incoming)@,
            packets@,
            frame,
            rules,
        ),
{
    proof {
        incoming.lemma_wf();
        crate::versus::lemma_lines_total_bound(packets@);
        packets.lemma_wf();
    }
    if packets.len() > 0 {
        let pending = incoming.pending_lines();
        let total = packets.total();
        if pending > u64::MAX - total {
            return Err(BattleError::Garbage { player: receiver, source: GarbageError::CounterOverflow });
        }
    } else {
        assert(lines_total(packets@) == 0);
    }
    enqueue_generated_packets(receiver, incoming, packets, frame, rules)
}

/// Raises ready garbage under a locked piece before the next spawn.
fn raise_garbage(
    game: &mut GameState,
    incoming: &mut IncomingGarbageQueue,
    locked: LockedPlacement,
    frame: u64,
    rules: GarbageRules,
) -> (r: GarbageInsertionOutcome)
    requires
        old(game).wf(),
        old(incoming).wf(),
        rules.config_error() is None,
        old(game)@.pending_lock is Some,
        locked.cleared.wf(),
    ensures
        final(game).wf(),
        final(incoming).wf(),
        (final(incoming)@, final(game)@, r) == raise_spec(old(incoming)@, old(game)@, locked, frame, rules),
        final(game)@.pending_lock == old(game)@.pending_lock,
        final(game)@.pieces_placed == old(game)@.pieces_placed,
{
    if rules.combo_blocking && locked.cleared.count() > 0 {
        return GarbageInsertionOutcome { inserted: 0, overflowed_buffer: false, blocked_by_clear: true };
    }
    let ghost target = raise_from(incoming@, game@, frame, rules.garbage_cap as nat, 0, false, rules);
    let ghost g0 = game@;
    let mut inserted: u8 = 0;
    let mut overflowed = false;
    let mut done = false;
    while inserted < rules.garbage_cap && !done
        invariant
            game.wf(),
            incoming.wf(),
            rules.config_error() is None,
            game@.pending_lock == g0.pending_lock,
            game@.pending_lock is Some,
            game@.pieces_placed == g0.pieces_placed,
            inserted <= rules.garbage_cap,
            target == (if done {
                (incoming@, game@, inserted as nat, overflowed)
            } else {
                raise_from(incoming@, game@, frame, (rules.garbage_cap - inserted) as nat, inserted as nat, overflowed, rules)
            }),
        decreases rules.garbage_cap - inserted, (if done { 0int } else { 1int }),
    {
        if game.is_top_out() {
            done = true;
        } else {
            proof {
                incoming.lemma_wf();
                lemma_take_line(incoming@, frame, rules.messiness);
            }
            let taken = incoming.take_ready_line(frame, rules);
            match taken {
                Ok(Some(c)) => {
                    let ghost gm = game@;
                    match game.push_garbage_before_spawn(c as usize) {
                        Ok(pushed) => {
                            overflowed = overflowed || pushed.overflowed_buffer;
                            inserted = inserted + 1;
                        },
                        Err(_) => {
                            proof {
                                assert(false);
                            }
                            done = true;
                        },
                    }
                },
                _ => {
                    done = true;
                },
            }
        }
    }
    GarbageInsertionOutcome { inserted, overflowed_buffer: overflowed, blocked_by_clear: false }
}

/// Spawns the next piece unless the game already topped out.
fn spawn_next(game: &mut GameState) -> (r: Option<PlacementOutcome>)
    requires
        old(game).wf(),
        old(game)@.pending_lock is Some,
    ensures
        final(game).wf(),
        (final(game)@, r) == spawn_spec(old(game)@),
{
    if game.is_top_out() {
        None
    } else {
        match game.finish_lock() {
            Ok(o) => Some(o),
            Err(_) => {
                proof {
                    assert(false);
                }
                None
            },
        }
    }
}

impl BattleSession {
    /// Queues garbage for a player directly, outside any step.
    pub fn enqueue_incoming(&mut self, player: PlayerId, packet: IncomingGarbagePacket) -> (r: Result<(), BattleError>)
        requires
            old(self).wf(),
        ensures
            final(self).wf(),
            ({
                let q = match player {
                    PlayerId::One => old(self)@.one.queue,
                    PlayerId::Two => old(self)@.two.queue,
                };
                let q1 = match player {
                    PlayerId::One => final(self)@.one.queue,
                    PlayerId::Two => final(self)@.two.queue,
                };
                &&& packet.lines == 0 ==> r == Err::<(), BattleError>(
                    BattleError::Garbage { player, source: GarbageError::ZeroLinePacket },
                ) && final(self)@ == old(self)@
                &&& packet.lines > 0 && queue_lines(q.0) + packet.lines > u64::MAX ==> r == Err::<(), BattleError>(
                    BattleError::Garbage { player, source: GarbageError::CounterOverflow },
                ) && final(self)@ == old(self)@
                &&& packet.lines > 0 && queue_lines(q.0) + packet.lines <= u64::MAX && (packet.hole_column matches Some(
                    c,
                ) && c >= 10) ==> r == Err::<(), BattleError>(
                    BattleError::Garbage { player, source: GarbageError::HoleOutOfBounds(packet.hole_column->Some_0) },
                ) && final(self)@ == old(self)@
                &&& packet.lines > 0 && queue_lines(q.0) + packet.lines <= u64::MAX && !(packet.hole_column matches Some(
                    c,
                ) && c >= 10) ==> r is Ok && q1 == (q.0.push(packet), q.1) && final(self)@ == (match player {
                    PlayerId::One => BattleModel { one: PlayerModel { queue: q1, ..old(self)@.one }, ..old(self)@ },
                    PlayerId::Two => BattleModel { two: PlayerModel { queue: q1, ..old(self)@.two }, ..old(self)@ },
                })
            }),
    {
        let target = match player {
            PlayerId::One => &mut self.one.incoming,
            PlayerId::Two => &mut self.two.incoming,
        };
        proof {
            target.lemma_wf();
        }
        if packet.lines == 0 {
            return Err(BattleError::Garbage { player, source: GarbageError::ZeroLinePacket });
        }
        let pending = target.pending_lines();
        if pending > u64::MAX - packet.lines as u64 {
            return Err(BattleError::Garbage { player, source: GarbageError::CounterOverflow });
        }
        match target.enqueue(packet) {
            Ok(()) => Ok(()),
            Err(source) => Err(BattleError::Garbage { player, source }),
        }
    }

    /// The first half of a placement step: both players hold if asked and
    /// lock their chosen afterstates without spawning, and both attacks'
    /// integer terms are computed. Nothing changes on an error.
    pub fn begin_placements(&mut self, actions: [PlacementAction; 2], frames_per_placement: u32) -> (r: Result<
        PendingPlacement,
        BattleError,
    >)
        requires
            old(self).wf(),
            old(self)@.one.game.pieces_placed < u64::MAX,
            old(self)@.two.game.pieces_placed < u64::MAX,
        ensures
            final(self).wf(),
            match old(self)@.begin_spec(actions@[0], actions@[1], frames_per_placement) {
                Err(e) => r == Err::<PendingPlacement, BattleError>(e) && *final(self) == *old(self),
                Ok((m, p)) => r == Ok::<PendingPlacement, BattleError>(p) && final(self)@ == m,
            },
    {
        if frames_per_placement == 0 {
            return Err(BattleError::ZeroPlacementCadence);
        }
        if self.result != BattleResult::Ongoing {
            return Err(BattleError::RoundOver(self.result));
        }
        if self.pending.is_some() || self.pending_frame.is_some() {
            return Err(BattleError::PlacementPending);
        }
        if self.frame > u64::MAX - frames_per_placement as u64 {
            return Err(BattleError::FrameOverflow);
        }
        let (g1, l1) = match place_action(&self.one.game, actions[0]) {
            Ok(v) => v,
            Err(e) => {
                return Err(BattleError::Session { player: PlayerId::One, source: SessionStepError::Game(e) });
            },
        };
        let (g2, l2) = match place_action(&self.two.game, actions[1]) {
            Ok(v) => v,
            Err(e) => {
                return Err(BattleError::Session { player: PlayerId::Two, source: SessionStepError::Game(e) });
            },
        };
        let t1 = match attack_terms(self.one.attack, l1.clear, l1.cleared_garbage, self.rules.attack) {
            Ok(t) => t,
            Err(e) => {
                return Err(BattleError::Attack { player: PlayerId::One, source: e });
            },
        };
        let t2 = match attack_terms(self.two.attack, l2.clear, l2.cleared_garbage, self.rules.attack) {
            Ok(t) => t,
            Err(e) => {
                return Err(BattleError::Attack { player: PlayerId::Two, source: e });
            },
        };
        let p = PendingPlacement {
            frame: self.frame,
            frames_per_placement,
            player_one: PendingPlayer { locked: l1, hold_applied: actions[0].used_hold, terms: t1 },
            player_two: PendingPlayer { locked: l2, hold_applied: actions[1].used_hold, terms: t2 },
        };
        self.one.game = g1;
        self.two.game = g2;
        self.pending = Some(p);
        Ok(p)
    }
}

impl BattleSession {
    /// The second half of a placement step, with the amounts the garbage
    /// multiplier produced from each player's attack terms and the
    /// multiplier that holds once the step's frames have elapsed. Both
    /// attacks are assembled and cancelled against each player's own incoming
    /// garbage; the same-frame remainders pass through each other; what is
    /// left travels to the opponent; ready garbage rises at each lock
    /// boundary; then the next pieces spawn and the round result is decided.
    /// Nothing changes on an error.
    #[verifier::rlimit(60)]
    pub fn finish_placements(&mut self, scaled: [ScaledAttack; 2], next_multiplier: AttackMultiplier) -> (r: Result<
        BattlePlacementOutcome,
        BattleError,
    >)
        requires
            old(self).wf(),
        ensures
            final(self).wf(),
            match finish_error(old(self)@, scaled@[0], scaled@[1]) {
                Some(e) => r == Err::<BattlePlacementOutcome, BattleError>(e) && *final(self) == *old(self),
                None => r matches Ok(o) && final(self)@ == finish_model(old(self)@, scaled@[0], scaled@[1], next_multiplier)
                    && finish_outcome_ok(old(self)@, scaled@[0], scaled@[1], o, final(self)@.result),
            },
    {
        let p = match self.pending {
            Some(p) => p,
            None => {
                return Err(BattleError::NoPendingPlacement);
            },
        };
        let rules = self.rules.garbage;
        let s1 = scaled[0];
        let s2 = scaled[1];
        let a1 = match assemble_attack(p.player_one.terms, s1.surge_attack, s1.combo_attack, s1.perfect_clear_attack) {
            Ok(a) => a,
            Err(e) => {
                return Err(BattleError::Attack { player: PlayerId::One, source: e });
            },
        };
        let a2 = match assemble_attack(p.player_two.terms, s2.surge_attack, s2.combo_attack, s2.perfect_clear_attack) {
            Ok(a) => a,
            Err(e) => {
                return Err(BattleError::Attack { player: PlayerId::Two, source: e });
            },
        };
        let mut q1 = self.one.incoming.duplicate();
        let c1 = match cancel_attack_packets(&mut q1, a1.packets, p.player_one.locked.pieces_placed, self.one.sent_lines, rules) {
            Ok(c) => c,
            Err(e) => {
                return Err(BattleError::Garbage { player: PlayerId::One, source: e });
            },
        };
        let mut q2 = self.two.incoming.duplicate();
        let c2 = match cancel_attack_packets(&mut q2, a2.packets, p.player_two.locked.pieces_placed, self.two.sent_lines, rules) {
            Ok(c) => c,
            Err(e) => {
                return Err(BattleError::Garbage { player: PlayerId::Two, source: e });
            },
        };
        let (t1, t2) = match cross_cancel_simultaneous(c1.outgoing, c2.outgoing) {
            Ok(v) => v,
            Err(e) => {
                return Err(e);
            },
        };
        match deliver(PlayerId::Two, &mut q2, t1, p.frame, rules) {
            Ok(()) => {},
            Err(e) => {
                return Err(e);
            },
        }
        match deliver(PlayerId::One, &mut q1, t2, p.frame, rules) {
            Ok(()) => {},
            Err(e) => {
                return Err(e);
            },
        }
        let mut g1 = self.one.game.duplicate();
        let mut g2 = self.two.game.duplicate();
        proof {
            g1.lemma_wf_facts();
            g2.lemma_wf_facts();
        }
        let ins1 = raise_garbage(&mut g1, &mut q1, p.player_one.locked, p.frame, rules);
        let ins2 = raise_garbage(&mut g2, &mut q2, p.player_two.locked, p.frame, rules);
        let sp1 = spawn_next(&mut g1);
        let sp2 = spawn_next(&mut g2);
        let result = result_from_terminals(g1.is_top_out(), g2.is_top_out());
        self.one = BattlePlayerState { game: g1, attack: a1.state, incoming: q1, sent_lines: c1.sent_lines_after };
        self.two = BattlePlayerState { game: g2, attack: a2.state, incoming: q2, sent_lines: c2.sent_lines_after };
        self.multiplier = next_multiplier;
        self.frame = p.frame + p.frames_per_placement as u64;
        self.result = result;
        self.pending = None;
        Ok(BattlePlacementOutcome {
            frame: p.frame,
            frames_per_placement: p.frames_per_placement,
            player_one: BattlePlacementPlayerOutcome {
                locked: p.player_one.locked,
                hold_applied: p.player_one.hold_applied,
                attack: a1,
                cancellation: c1,
                insertion: ins1,
                spawn: sp1,
                transmitted: t1,
            },
            player_two: BattlePlacementPlayerOutcome {
                locked: p.player_two.locked,
                hold_applied: p.player_two.hold_applied,
                attack: a2,
                cancellation: c2,
                insertion: ins2,
                spawn: sp2,
                transmitted: t2,
            },
            result,
        })
    }
}

/// An optional placement: the game and its deferred lock, or no lock.
pub open spec fn place_opt(g: GameModel, a: Option<PlacementAction>) -> Result<(GameModel, Option<LockedPlacement>), GameError> {
    match a {
        None => Ok((g, None)),
        Some(a) => match place_spec(g, a) {
            Err(e) => Err(e),
            Ok((m, l)) => Ok((m, Some(l))),
        },
    }
}

/// The attack terms of an optional lock.
pub open spec fn terms_opt(previous: AttackState, l: Option<LockedPlacement>, rules: crate::versus::AttackRules) -> Result<
    Option<AttackTerms>,
    crate::versus::AttackError,
> {
    match l {
        None => Ok(None),
        Some(l) => match attack_terms_spec(previous, l.clear, l.cleared_garbage, rules) {
            Err(e) => Err(e),
            Ok(t) => Ok(Some(t)),
        },
    }
}

/// What the first half of a frame keeps for a player.
pub open spec fn pending_of(a: Option<PlacementAction>, l: Option<LockedPlacement>, t: Option<AttackTerms>) -> Option<
    PendingPlayer,
> {
    match (a, l, t) {
        (Some(a), Some(l), Some(t)) => Some(PendingPlayer { locked: l, hold_applied: a.used_hold, terms: t }),
        _ => None,
    }
}

impl BattleModel {
    /// The first half of a frame: what it leaves, or its error.
    pub open spec fn begin_frame_spec(self, a1: Option<PlacementAction>, a2: Option<PlacementAction>) -> Result<
        (BattleModel, PendingFrame),
        BattleError,
    > {
        if self.result != BattleResult::Ongoing {
            Err(BattleError::RoundOver(self.result))
        } else if self.pending is Some || self.pending_frame is Some {
            Err(BattleError::PlacementPending)
        } else {
            match place_opt(self.one.game, a1) {
                Err(e) => Err(BattleError::Session { player: PlayerId::One, source: SessionStepError::Game(e) }),
                Ok((g1, l1)) => match place_opt(self.two.game, a2) {
                    Err(e) => Err(BattleError::Session { player: PlayerId::Two, source: SessionStepError::Game(e) }),
                    Ok((g2, l2)) => match terms_opt(self.one.attack, l1, self.rules.attack) {
                        Err(e) => Err(BattleError::Attack { player: PlayerId::One, source: e }),
                        Ok(t1) => match terms_opt(self.two.attack, l2, self.rules.attack) {
                            Err(e) => Err(BattleError::Attack { player: PlayerId::Two, source: e }),
                            Ok(t2) => {
                                let p = PendingFrame {
                                    frame: self.frame,
                                    player_one: pending_of(a1, l1, t1),
                                    player_two: pending_of(a2, l2, t2),
                                };
                                Ok(
                                    (
                                        BattleModel {
                                            one: PlayerModel { game: g1, ..self.one },
                                            two: PlayerModel { game: g2, ..self.two },
                                            pending_frame: Some(p),
                                            ..self
                                        },
                                        p,
                                    ),
                                )
                            },
                        },
                    },
                },
            }
        }
    }
}

/// Cancellation of a player's attack, if it locked.
pub open spec fn cancel_opt(p: PlayerModel, pending: Option<PendingPlayer>, s: ScaledAttack, rules: GarbageRules) -> Option<
    CancelState,
> {
    match pending {
        Some(pp) => Some(cancel_spec(p, pp, s, rules)),
        None => None,
    }
}

pub open spec fn outgoing_opt(c: Option<CancelState>) -> Seq<AttackPacket> {
    match c {
        Some(c) => c.outgoing,
        None => Seq::empty(),
    }
}

pub open spec fn queue_after_cancel(p: PlayerModel, c: Option<CancelState>) -> QueueModel {
    match c {
        Some(c) => c.queue,
        None => p.queue,
    }
}

/// The scaled amounts of a player that locked fit the packet counters.
pub open spec fn scaled_fits_opt(pending: Option<PendingPlayer>, s: ScaledAttack) -> bool {
    match pending {
        Some(pp) => scaled_fits(pp.terms, s),
        None => true,
    }
}

pub open spec fn cancel_overflows_opt(c: Option<CancelState>) -> bool {
    match c {
        Some(c) => cancel_overflows(c),
        None => false,
    }
}

/// The second half of a frame: its error, if any, in the order in which the
/// stages run. The scaled amounts of a player that did not lock are unused.
pub open spec fn finish_frame_error(m: BattleModel, s1: ScaledAttack, s2: ScaledAttack) -> Option<BattleError> {
    match m.pending_frame {
        None => Some(BattleError::NoPendingPlacement),
        Some(p) => {
            let g = m.rules.garbage;
            let c1 = cancel_opt(m.one, p.player_one, s1, g);
            let c2 = cancel_opt(m.two, p.player_two, s2, g);
            let common = common_lines(outgoing_opt(c1), outgoing_opt(c2));
            let t1 = discard_prefix(outgoing_opt(c1), common);
            let t2 = discard_prefix(outgoing_opt(c2), common);
            if !scaled_fits_opt(p.player_one, s1) {
                Some(BattleError::Attack { player: PlayerId::One, source: crate::versus::AttackError::CounterOverflow })
            } else if !scaled_fits_opt(p.player_two, s2) {
                Some(BattleError::Attack { player: PlayerId::Two, source: crate::versus::AttackError::CounterOverflow })
            } else if cancel_overflows_opt(c1) {
                Some(BattleError::Garbage { player: PlayerId::One, source: GarbageError::CounterOverflow })
            } else if cancel_overflows_opt(c2) {
                Some(BattleError::Garbage { player: PlayerId::Two, source: GarbageError::CounterOverflow })
            } else if delivery_overflows(queue_after_cancel(m.two, c2), t1, p.frame, g) {
                Some(BattleError::Garbage { player: PlayerId::Two, source: GarbageError::CounterOverflow })
            } else if delivery_overflows(queue_after_cancel(m.one, c1), t2, p.frame, g) {
                Some(BattleError::Garbage { player: PlayerId::One, source: GarbageError::CounterOverflow })
            } else {
                None
            }
        },
    }
}

/// One player's state after a frame, given what the opponent transmitted:
/// a player that did not lock only receives; one that locked finishes as
/// after a placement step.
pub open spec fn finish_player_frame(
    p: PlayerModel,
    pending: Option<PendingPlayer>,
    s: ScaledAttack,
    incoming: Seq<AttackPacket>,
    frame: u64,
    rules: GarbageRules,
) -> (PlayerModel, Option<GarbageInsertionOutcome>, Option<PlacementOutcome>) {
    match pending {
        None => (PlayerModel { queue: delivered(p.queue, incoming, frame, rules), ..p }, None, None),
        Some(pp) => {
            let f = finish_player(p, pp, s, incoming, frame, rules);
            (f.0, Some(f.1), f.2)
        },
    }
}

/// The session after a successful second half of a frame: the clock moves
/// one frame on, saturating at its end.
pub open spec fn finish_frame_model(m: BattleModel, s1: ScaledAttack, s2: ScaledAttack, next: AttackMultiplier) -> BattleModel {
    let p = m.pending_frame->Some_0;
    let g = m.rules.garbage;
    let c1 = cancel_opt(m.one, p.player_one, s1, g);
    let c2 = cancel_opt(m.two, p.player_two, s2, g);
    let common = common_lines(outgoing_opt(c1), outgoing_opt(c2));
    let t1 = discard_prefix(outgoing_opt(c1), common);
    let t2 = discard_prefix(outgoing_opt(c2), common);
    let one = finish_player_frame(m.one, p.player_one, s1, t2, p.frame, g).0;
    let two = finish_player_frame(m.two, p.player_two, s2, t1, p.frame, g).0;
    BattleModel {
        one,
        two,
        multiplier: next,
        frame: if p.frame == u64::MAX { p.frame } else { (p.frame + 1) as u64 },
        result: round_result(one.game.top_out is Some, two.game.top_out is Some),
        pending_frame: None,
        ..m
    }
}

/// What the second half of a frame reports for one player.
pub open spec fn frame_player_outcome_ok(
    o: BattlePlayerFrameOutcome,
    p: PlayerModel,
    pending: Option<PendingPlayer>,
    s: ScaledAttack,
    incoming: Seq<AttackPacket>,
    transmitted: Seq<AttackPacket>,
    frame: u64,
    rules: GarbageRules,
) -> bool {
    &&& o.transmitted.wf()
    &&& o.transmitted@ == transmitted
    &&& match pending {
        None => o.locked is None && !o.hold_applied && o.attack is None && o.cancellation is None && o.insertion is None
            && o.spawn is None,
        Some(pp) => {
            let c = cancel_spec(p, pp, s, rules);
            let f = finish_player(p, pp, s, incoming, frame, rules);
            &&& o.locked == Some(pp.locked)
            &&& o.hold_applied == pp.hold_applied
            &&& o.attack matches Some(a) && a.state == pp.terms.state && a.packets.wf() && a.packets@ == scaled_packets(
                pp.terms,
                s,
            )
            &&& o.cancellation matches Some(cn) && cn.outgoing.wf() && cn.outgoing@ == c.outgoing && cn.attack_cancelled
                == c.attack_cancelled && cn.opener_bonus_cancelled == c.opener_cancelled && cn.sent_lines_after == c.sent
            &&& o.insertion == Some(f.1)
            &&& o.spawn == f.2
        },
    }
}

/// Everything the second half of a frame reports.
pub open spec fn frame_outcome_ok(m: BattleModel, s1: ScaledAttack, s2: ScaledAttack, o: BattleFrameOutcome, result: BattleResult) -> bool {
    let p = m.pending_frame->Some_0;
    let g = m.rules.garbage;
    let c1 = cancel_opt(m.one, p.player_one, s1, g);
    let c2 = cancel_opt(m.two, p.player_two, s2, g);
    let common = common_lines(outgoing_opt(c1), outgoing_opt(c2));
    let t1 = discard_prefix(outgoing_opt(c1), common);
    let t2 = discard_prefix(outgoing_opt(c2), common);
    &&& o.frame == p.frame
    &&& o.result == result
    &&& frame_player_outcome_ok(o.player_one, m.one, p.player_one, s1, t2, t1, p.frame, g)
    &&& frame_player_outcome_ok(o.player_two, m.two, p.player_two, s2, t1, t2, p.frame, g)
}

/// An optional placement on a copy of the game.
fn place_opt_action(game: &GameState, a: Option<PlacementAction>) -> (r: Result<(GameState, Option<LockedPlacement>), GameError>)
    requires
        game.wf(),
        game@.pieces_placed < u64::MAX,
        game@.pieces_placed == 0 ==> no_full_rows(game@.board.0),
    ensures
        match place_opt(game@, a) {
            Err(e) => r == Err::<(GameState, Option<LockedPlacement>), GameError>(e),
            Ok((m, l)) => r matches Ok((g, l2)) && g.wf() && g@ == m && l2 == l,
        },
{
    match a {
        None => Ok((game.duplicate(), None)),
        Some(act) => match place_action(game, act) {
            Ok((g, l)) => Ok((g, Some(l))),
            Err(e) => Err(e),
        },
    }
}

/// The attack terms of an optional lock.
fn terms_of(previous: AttackState, l: Option<LockedPlacement>, rules: crate::versus::AttackRules) -> (r: Result<
    Option<AttackTerms>,
    crate::versus::AttackError,
>)
    ensures
        r == terms_opt(previous, l, rules),
{
    match l {
        None => Ok(None),
        Some(l) => match attack_terms(previous, l.clear, l.cleared_garbage, rules) {
            Ok(t) => Ok(Some(t)),
            Err(e) => Err(e),
        },
    }
}

impl BattleSession {
    /// The first half of one shared frame: each player that locks on it
    /// holds if asked and locks its afterstate without spawning, and its
    /// attack terms are computed; a player given no placement does not lock.
    /// Nothing changes on an error.
    pub fn begin_frame(&mut self, actions: [Option<PlacementAction>; 2]) -> (r: Result<PendingFrame, BattleError>)
        requires
            old(self).wf(),
            old(self)@.one.game.pieces_placed < u64::MAX,
            old(self)@.two.game.pieces_placed < u64::MAX,
        ensures
            final(self).wf(),
            match old(self)@.begin_frame_spec(actions@[0], actions@[1]) {
                Err(e) => r == Err::<PendingFrame, BattleError>(e) && *final(self) == *old(self),
                Ok((m, p)) => r == Ok::<PendingFrame, BattleError>(p) && final(self)@ == m,
            },
    {
        if self.result != BattleResult::Ongoing {
            return Err(BattleError::RoundOver(self.result));
        }
        if self.pending.is_some() || self.pending_frame.is_some() {
            return Err(BattleError::PlacementPending);
        }
        let (g1, l1) = match place_opt_action(&self.one.game, actions[0]) {
            Ok(v) => v,
            Err(e) => {
                return Err(BattleError::Session { player: PlayerId::One, source: SessionStepError::Game(e) });
            },
        };
        let (g2, l2) = match place_opt_action(&self.two.game, actions[1]) {
            Ok(v) => v,
            Err(e) => {
                return Err(BattleError::Session { player: PlayerId::Two, source: SessionStepError::Game(e) });
            },
        };
        let t1 = match terms_of(self.one.attack, l1, self.rules.attack) {
            Ok(t) => t,
            Err(e) => {
                return Err(BattleError::Attack { player: PlayerId::One, source: e });
            },
        };
        let t2 = match terms_of(self.two.attack, l2, self.rules.attack) {
            Ok(t) => t,
            Err(e) => {
                return Err(BattleError::Attack { player: PlayerId::Two, source: e });
            },
        };
        let one = match (actions[0], l1, t1) {
            (Some(a), Some(l), Some(t)) => Some(PendingPlayer { locked: l, hold_applied: a.used_hold, terms: t }),
            _ => None,
        };
        let two = match (actions[1], l2, t2) {
            (Some(a), Some(l), Some(t)) => Some(PendingPlayer { locked: l, hold_applied: a.used_hold, terms: t }),
            _ => None,
        };
        let p = PendingFrame { frame: self.frame, player_one: one, player_two: two };
        self.one.game = g1;
        self.two.game = g2;
        self.pending_frame = Some(p);
        Ok(p)
    }
}

/// Assembles the attack of a player that locked.
fn assemble_opt(player: PlayerId, pending: Option<PendingPlayer>, s: ScaledAttack) -> (r: Result<Option<AttackOutcome>, BattleError>)
    ensures
        pending is None ==> r == Ok::<Option<AttackOutcome>, BattleError>(None),
        pending matches Some(pp) && !scaled_fits(pp.terms, s) ==> r == Err::<Option<AttackOutcome>, BattleError>(
            BattleError::Attack { player, source: crate::versus::AttackError::CounterOverflow },
        ),
        pending is Some && scaled_fits(pending->Some_0.terms, s) ==> (r matches Ok(Some(a)) && a.state
            == pending->Some_0.terms.state && a.packets.wf() && a.packets@ == scaled_packets(pending->Some_0.terms, s)),
{
    match pending {
        None => Ok(None),
        Some(pp) => match assemble_attack(pp.terms, s.surge_attack, s.combo_attack, s.perfect_clear_attack) {
            Ok(a) => Ok(Some(a)),
            Err(e) => Err(BattleError::Attack { player, source: e }),
        },
    }
}

/// Cancels the attack of a player that locked against a copy of its queue.
fn cancel_opt_exec(
    player: PlayerId,
    state: &BattlePlayerState,
    pending: Option<PendingPlayer>,
    attack: Option<AttackOutcome>,
    s: ScaledAttack,
    rules: GarbageRules,
) -> (r: Result<(IncomingGarbageQueue, Option<GarbageCancellationOutcome>), BattleError>)
    requires
        state.wf(),
        rules.config_error() is None,
        pending is Some ==> (attack matches Some(a) && a.packets.wf() && a.packets@ == scaled_packets(
            pending->Some_0.terms,
            s,
        )),
    ensures
        cancel_overflows_opt(cancel_opt(state@, pending, s, rules)) ==> r == Err::<
            (IncomingGarbageQueue, Option<GarbageCancellationOutcome>),
            BattleError,
        >(BattleError::Garbage { player, source: GarbageError::CounterOverflow }),
        !cancel_overflows_opt(cancel_opt(state@, pending, s, rules)) ==> (r matches Ok((q, c)) && q.wf() && q@
            == queue_after_cancel(state@, cancel_opt(state@, pending, s, rules)) && match pending {
            None => c is None,
            Some(pp) => c matches Some(cn) && cn.outgoing.wf() && cn.outgoing@ == cancel_spec(state@, pp, s, rules).outgoing
                && cn.attack_cancelled == cancel_spec(state@, pp, s, rules).attack_cancelled && cn.opener_bonus_cancelled
                == cancel_spec(state@, pp, s, rules).opener_cancelled && cn.sent_lines_after == cancel_spec(
                state@,
                pp,
                s,
                rules,
            ).sent,
        }),
{
    let mut q = state.incoming().duplicate();
    match (pending, attack) {
        (Some(pp), Some(a)) => {
            match cancel_attack_packets(&mut q, a.packets, pp.locked.pieces_placed, state.sent_lines(), rules) {
                Ok(c) => Ok((q, Some(c))),
                Err(e) => Err(BattleError::Garbage { player, source: e }),
            }
        },
        _ => Ok((q, None)),
    }
}

impl BattleSession {
    /// The second half of one shared frame, with the amounts the garbage
    /// multiplier produced from each locking player's attack terms (unused
    /// for a player that did not lock) and the multiplier after the frame's
    /// end. Attacks are cancelled against each player's own incoming garbage,
    /// the same-frame remainders pass through each other, what is left
    /// travels to the opponent, ready garbage rises only under a player that
    /// locked, that player's next piece spawns, and the round result is
    /// decided. Nothing changes on an error.
    #[verifier::rlimit(100)]
    pub fn finish_frame(&mut self, scaled: [ScaledAttack; 2], next_multiplier: AttackMultiplier) -> (r: Result<
        BattleFrameOutcome,
        BattleError,
    >)
        requires
            old(self).wf(),
        ensures
            final(self).wf(),
            match finish_frame_error(old(self)@, scaled@[0], scaled@[1]) {
                Some(e) => r == Err::<BattleFrameOutcome, BattleError>(e) && *final(self) == *old(self),
                None => r matches Ok(o) && final(self)@ == finish_frame_model(old(self)@, scaled@[0], scaled@[1], next_multiplier)
                    && frame_outcome_ok(old(self)@, scaled@[0], scaled@[1], o, final(self)@.result),
            },
    {
        let p = match self.pending_frame {
            Some(p) => p,
            None => {
                return Err(BattleError::NoPendingPlacement);
            },
        };
        proof {
            self.lemma_wf();
        }
        let rules = self.rules.garbage;
        let s1 = scaled[0];
        let s2 = scaled[1];
        let a1 = match assemble_opt(PlayerId::One, p.player_one, s1) {
            Ok(a) => a,
            Err(e) => {
                return Err(e);
            },
        };
        let a2 = match assemble_opt(PlayerId::Two, p.player_two, s2) {
            Ok(a) => a,
            Err(e) => {
                return Err(e);
            },
        };
        let (mut q1, c1) = match cancel_opt_exec(PlayerId::One, &self.one, p.player_one, a1, s1, rules) {
            Ok(v) => v,
            Err(e) => {
                return Err(e);
            },
        };
        let (mut q2, c2) = match cancel_opt_exec(PlayerId::Two, &self.two, p.player_two, a2, s2, rules) {
            Ok(v) => v,
            Err(e) => {
                return Err(e);
            },
        };
        let o1 = match c1 {
            Some(c) => c.outgoing,
            None => AttackPackets::empty(),
        };
        let o2 = match c2 {
            Some(c) => c.outgoing,
            None => AttackPackets::empty(),
        };
        let (t1, t2) = match cross_cancel_simultaneous(o1, o2) {
            Ok(v) => v,
            Err(e) => {
                return Err(e);
            },
        };
        match deliver(PlayerId::Two, &mut q2, t1, p.frame, rules) {
            Ok(()) => {},
            Err(e) => {
                return Err(e);
            },
        }
        match deliver(PlayerId::One, &mut q1, t2, p.frame, rules) {
            Ok(()) => {},
            Err(e) => {
                return Err(e);
            },
        }
        let mut g1 = self.one.game.duplicate();
        let mut g2 = self.two.game.duplicate();
        proof {
            g1.lemma_wf_facts();
            g2.lemma_wf_facts();
        }
        let (ins1, sp1) = match p.player_one {
            Some(pp) => {
                let ins = raise_garbage(&mut g1, &mut q1, pp.locked, p.frame, rules);
                let sp = spawn_next(&mut g1);
                (Some(ins), sp)
            },
            None => (None, None),
        };
        let (ins2, sp2) = match p.player_two {
            Some(pp) => {
                let ins = raise_garbage(&mut g2, &mut q2, pp.locked, p.frame, rules);
                let sp = spawn_next(&mut g2);
                (Some(ins), sp)
            },
            None => (None, None),
        };
        let result = result_from_terminals(g1.is_top_out(), g2.is_top_out());
        let attack1 = match a1 {
            Some(a) => a.state,
            None => self.one.attack,
        };
        let attack2 = match a2 {
            Some(a) => a.state,
            None => self.two.attack,
        };
        let sent1 = match c1 {
            Some(c) => c.sent_lines_after,
            None => self.one.sent_lines,
        };
        let sent2 = match c2 {
            Some(c) => c.sent_lines_after,
            None => self.two.sent_lines,
        };
        let hold1 = match p.player_one {
            Some(pp) => pp.hold_applied,
            None => false,
        };
        let hold2 = match p.player_two {
            Some(pp) => pp.hold_applied,
            None => false,
        };
        let locked1 = match p.player_one {
            Some(pp) => Some(pp.locked),
            None => None,
        };
        let locked2 = match p.player_two {
            Some(pp) => Some(pp.locked),
            None => None,
        };
        self.one = BattlePlayerState { game: g1, attack: attack1, incoming: q1, sent_lines: sent1 };
        self.two = BattlePlayerState { game: g2, attack: attack2, incoming: q2, sent_lines: sent2 };
        self.multiplier = next_multiplier;
        self.frame = self.frame.saturating_add(1);
        self.result = result;
        self.pending_frame = None;
        Ok(BattleFrameOutcome {
            frame: p.frame,
            player_one: BattlePlayerFrameOutcome {
                locked: locked1,
                hold_applied: hold1,
                attack: a1,
                cancellation: c1,
                insertion: ins1,
                spawn: sp1,
                transmitted: t1,
            },
            player_two: BattlePlayerFrameOutcome {
                locked: locked2,
                hold_applied: hold2,
                attack: a2,
                cancellation: c2,
                insertion: ins2,
                spawn: sp2,
                transmitted: t2,
            },
            result,
        })
    }
}

/// Garbage rises only at a lock boundary: over a frame on which a player
/// does not lock, its game stays as it was and only its queue receives.
pub proof fn lemma_no_lock_no_rise(m: BattleModel, s1: ScaledAttack, s2: ScaledAttack, next: AttackMultiplier)
    requires
        m.pending_frame is Some,
    ensures
        m.pending_frame->Some_0.player_one is None ==> finish_frame_model(m, s1, s2, next).one.game == m.one.game
            && finish_frame_model(m, s1, s2, next).one.attack == m.one.attack,
        m.pending_frame->Some_0.player_two is None ==> finish_frame_model(m, s1, s2, next).two.game == m.two.game
            && finish_frame_model(m, s1, s2, next).two.attack == m.two.attack,
{
}

/// The round result follows the players' top-outs in every state of a
/// session: both over is a draw, one over awards the other, neither over is
/// ongoing.
pub proof fn lemma_round_follows_top_outs(b: &BattleSession)
    requires
        b.wf(),
    ensures
        b@.result == round_result(b@.one.game.top_out is Some, b@.two.game.top_out is Some),
        b@.result == BattleResult::Draw <==> b@.one.game.top_out is Some && b@.two.game.top_out is Some,
{
}

} // verus!
