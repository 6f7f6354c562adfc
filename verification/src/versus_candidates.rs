//! Candidate afterstates of one player in a two-player session, with the
//! features a versus policy reads: the solo afterstate features, the
//! player's and the opponent's garbage and counters, the afterstate column
//! heights and holes, whether hold was used, and the pieces in play.
//!
//! A candidate's attack depends on the garbage multiplier, which is a double:
//! enumeration leaves the two attack features and diagnostics at zero and
//! returns the integer attack terms; the caller scales them and completes the
//! candidate with the three amounts.
use vstd::prelude::*;
use crate::battle::{
    BattlePlayerState, BattleSession, PlacementAction, PlayerModel, ScaledAttack, cancel_spec, PendingPlayer,
    scaled_fits, scaled_packets,
};
use crate::board::WIDTH;
use crate::features::{
    FEATURE_COUNT, analyze_afterstate, board_summary, column_height, column_holes, features_defined, features_spec,
    heights_max, holes_total,
};
use crate::game::{GameModel, GameState, LockedPlacement};
use crate::piece::{PieceKind, PieceState, kind_index};
use crate::reachability::{grid_of, lock_target};
use crate::session::SessionStepError;
use crate::spin::SpinClassification;
use crate::versus::{
    AttackError, AttackTerms, BattleError, GarbageError, PlayerId, assemble_attack, attack_terms,
    attack_terms_spec, cancel_attack_packets, cancel_overflows, lines_total, queue_lines, ready_total,
};

verus! {

pub const VERSUS_CANDIDATE_FEATURE_COUNT: usize = 76;

pub const VERSUS_CANDIDATE_DIAGNOSTIC_COUNT: usize = 5;

/// One candidate afterstate of a player and what a policy reads of it.
#[derive(Clone, Copy, Debug, PartialEq, Eq)]
pub struct PlayerCandidate {
    pub features: [i32; VERSUS_CANDIDATE_FEATURE_COUNT],
    pub diagnostics: [i32; VERSUS_CANDIDATE_DIAGNOSTIC_COUNT],
    pub action: PlacementAction,
    pub locked: LockedPlacement,
    pub terms: AttackTerms,
}

/// A count as a feature: saturated at `i32::MAX`.
pub open spec fn clamp_count(v: int) -> int {
    if v <= i32::MAX {
        v
    } else {
        i32::MAX as int
    }
}

fn clamp_u64(v: u64) -> (r: i32)
    ensures
        r == clamp_count(v as int),
{
    if v <= i32::MAX as u64 {
        v as i32
    } else {
        i32::MAX
    }
}

/// Feature `i` of the pieces in play: one-hot active piece, one-hot hold,
/// and one-hot for each of the first three preview pieces.
pub open spec fn piece_context_spec(g: GameModel, i: int) -> int {
    if 0 <= i < 7 {
        if kind_index(g.active.kind) == i {
            1
        } else {
            0
        }
    } else if 7 <= i < 14 {
        if g.hold matches Some(k) && kind_index(k) == i - 7 {
            1
        } else {
            0
        }
    } else if 14 <= i < 35 {
        let slot = (i - 14) / 7;
        if slot < g.queue.len() && kind_index(g.queue[slot]) == (i - 14) % 7 {
            1
        } else {
            0
        }
    } else {
        0
    }
}

/// The T-spin code of a clear: 1 for a mini, 2 for a full T-spin, else 0.
pub open spec fn t_spin_code(c: crate::clear::ClearEvent) -> int {
    match c.spin {
        Some(s) => if s.piece == PieceKind::T {
            match s.classification {
                SpinClassification::Mini => 1,
                SpinClassification::Full => 2,
            }
        } else {
            0
        },
        None => 0,
    }
}

/// `c` is the candidate of locking its placement from `source`, before its
/// attack is scaled.
pub open spec fn candidate_fits(
    own: PlayerModel,
    opponent: PlayerModel,
    frame: u64,
    attack_rules: crate::versus::AttackRules,
    source: GameModel,
    used_hold: bool,
    c: PlayerCandidate,
) -> bool {
    let p = c.action.placement;
    let after = source.board_after(p);
    let f = c.features@;
    &&& c.action.used_hold == used_hold
    &&& lock_target(source.board.0, source.active, p)
    &&& exists|path: Seq<crate::reachability::Movement>|
        #[trigger] crate::reachability::replay(source.board.0, source.active, path) == Some(p)
            && c.action.last_action == crate::reachability::path_last_action(source.board.0, source.active, path)
    &&& source.locked_facts(p, c.action.last_action, c.locked)
    &&& attack_terms_spec(own.attack, c.locked.clear, c.locked.cleared_garbage, attack_rules) == Ok::<
        AttackTerms,
        AttackError,
    >(c.terms)
    &&& forall|i: int| 0 <= i < FEATURE_COUNT ==> #[trigger] f[i] == features_spec(after.0, p, c.locked.cleared@)[i]
    &&& f[10] == 0
    &&& f[11] == 0
    &&& f[12] == clamp_count(queue_lines(own.queue.0))
    &&& f[13] == clamp_count(ready_total(own.queue.0, frame))
    &&& f[14] == clamp_count(own.attack.combo as int)
    &&& f[15] == clamp_count(own.attack.back_to_back as int)
    &&& f[16] == clamp_count(queue_lines(opponent.queue.0))
    &&& f[17] == clamp_count(ready_total(opponent.queue.0, frame))
    &&& f[18] == heights_max(opponent.game.board.0, WIDTH as nat)
    &&& f[19] == holes_total(opponent.game.board.0, WIDTH as nat)
    &&& forall|x: int| 0 <= x < WIDTH ==> #[trigger] f[20 + x] == column_height(after.0, x)
    &&& forall|x: int| 0 <= x < WIDTH ==> #[trigger] f[30 + x] == column_holes(after.0, x)
    &&& f[40] == (if used_hold { 1int } else { 0int })
    &&& forall|j: int| 0 <= j < 35 ==> #[trigger] f[41 + j] == piece_context_spec(source, j)
    &&& c.diagnostics@[0] == c.locked.clear.lines
    &&& c.diagnostics@[1] == t_spin_code(c.locked.clear)
    &&& c.diagnostics@[2] == (if c.locked.clear.perfect_clear { 1int } else { 0int })
    &&& c.diagnostics@[3] == 0
    &&& c.diagnostics@[4] == 0
}

/// The candidates of one source: every lock target once, in grid order.
pub open spec fn source_block_fits(
    own: PlayerModel,
    opponent: PlayerModel,
    frame: u64,
    attack_rules: crate::versus::AttackRules,
    source: GameModel,
    used_hold: bool,
    b: Seq<PlayerCandidate>,
) -> bool {
    &&& forall|k: int|
        0 <= k < b.len() ==> candidate_fits(own, opponent, frame, attack_rules, source, used_hold, #[trigger] b[k])
    &&& forall|i: int, j: int| 0 <= i < j < b.len() ==> grid_of(b[i].action.placement) < grid_of(b[j].action.placement)
    &&& source.playable_error() is Some ==> b.len() == 0
    &&& source.playable_error() is None ==> forall|p: PieceState|
        lock_target(source.board.0, source.active, p) ==> exists|k: int|
            0 <= k < b.len() && #[trigger] b[k].action.placement == p
}

/// Writes a one-hot piece at `start`.
fn write_one_hot(features: &mut [i32; VERSUS_CANDIDATE_FEATURE_COUNT], start: usize, kind: PieceKind)
    requires
        start + 7 <= VERSUS_CANDIDATE_FEATURE_COUNT,
        forall|i: int| start <= i < start + 7 ==> old(features)@[i] == 0,
    ensures
        forall|i: int|
            0 <= i < VERSUS_CANDIDATE_FEATURE_COUNT ==> #[trigger] final(features)@[i] == if start <= i < start + 7 {
                if i - start == kind_index(kind) {
                    1int
                } else {
                    0int
                }
            } else {
                old(features)@[i] as int
            },
{
    let i = kind.index();
    features[start + i] = 1;
}

/// Lays out a candidate's features from their parts.
fn fill_features(
    solo: [i32; FEATURE_COUNT],
    heights: [i32; WIDTH],
    holes: [i32; WIDTH],
    context: &[i32; VERSUS_CANDIDATE_FEATURE_COUNT],
    counts: [i32; 8],
    used_hold: bool,
) -> (f: [i32; VERSUS_CANDIDATE_FEATURE_COUNT])
    requires
        forall|j: int| 0 <= j < 41 ==> #[trigger] context@[j] == 0,
    ensures
        forall|j: int| 0 <= j < FEATURE_COUNT ==> #[trigger] f@[j] == solo@[j],
        f@[10] == 0,
        f@[11] == 0,
        forall|j: int| 12 <= j < 20 ==> #[trigger] f@[j] == counts@[j - 12],
        forall|j: int| 0 <= j < WIDTH ==> #[trigger] f@[20 + j] == heights@[j],
        forall|j: int| 0 <= j < WIDTH ==> #[trigger] f@[30 + j] == holes@[j],
        f@[40] == (if used_hold { 1int } else { 0int }),
        forall|j: int| 0 <= j < 35 ==> #[trigger] f@[41 + j] == context@[41 + j],
{
    let mut features = *context;
    let mut i: usize = 0;
    while i < FEATURE_COUNT
        invariant
            i <= FEATURE_COUNT,
            forall|j: int| 0 <= j < i ==> #[trigger] features@[j] == solo@[j],
            forall|j: int| i <= j < 41 ==> #[trigger] features@[j] == 0,
            forall|j: int| 0 <= j < 35 ==> #[trigger] features@[41 + j] == context@[41 + j],
        decreases FEATURE_COUNT - i,
    {
        features[i] = solo[i];
        i += 1;
    }
    let mut c: usize = 0;
    while c < 8
        invariant
            c <= 8,
            forall|j: int| 0 <= j < FEATURE_COUNT ==> #[trigger] features@[j] == solo@[j],
            forall|j: int| 10 <= j < 12 ==> #[trigger] features@[j] == 0,
            forall|j: int| 12 <= j < 12 + c ==> #[trigger] features@[j] == counts@[j - 12],
            forall|j: int| 12 + c <= j < 41 ==> #[trigger] features@[j] == 0,
            forall|j: int| 0 <= j < 35 ==> #[trigger] features@[41 + j] == context@[41 + j],
        decreases 8 - c,
    {
        features[12 + c] = counts[c];
        c += 1;
    }
    let mut x: usize = 0;
    while x < WIDTH
        invariant
            x <= WIDTH,
            forall|j: int| 0 <= j < FEATURE_COUNT ==> #[trigger] features@[j] == solo@[j],
            features@[10] == 0,
            features@[11] == 0,
            forall|j: int| 12 <= j < 20 ==> #[trigger] features@[j] == counts@[j - 12],
            forall|j: int| 0 <= j < x ==> #[trigger] features@[20 + j] == heights@[j],
            forall|j: int| 0 <= j < x ==> #[trigger] features@[30 + j] == holes@[j],
            forall|j: int| x <= j < WIDTH ==> #[trigger] features@[20 + j] == 0,
            forall|j: int| x <= j < WIDTH ==> #[trigger] features@[30 + j] == 0,
            features@[40] == 0,
            forall|j: int| 0 <= j < 35 ==> #[trigger] features@[41 + j] == context@[41 + j],
        decreases WIDTH - x,
    {
        features[20 + x] = heights[x];
        features[30 + x] = holes[x];
        x += 1;
    }
    if used_hold {
        features[40] = 1;
    }
    features
}

/// The candidate of one reachable placement of `source`.
#[verifier::rlimit(100)]
#[verifier::spinoff_prover]
fn build_candidate(
    player: PlayerId,
    own: &BattlePlayerState,
    opponent: &BattlePlayerState,
    frame: u64,
    attack_rules: crate::versus::AttackRules,
    source: &GameState,
    used_hold: bool,
    placement: &crate::reachability::GeometricPlacement,
    context: &[i32; VERSUS_CANDIDATE_FEATURE_COUNT],
    counts: [i32; 8],
) -> (r: Result<PlayerCandidate, BattleError>)
    requires
        own.wf(),
        opponent.wf(),
        source.wf(),
        source@.all_locks_fit(),
        source@.pieces_placed < u64::MAX,
        source@.playable_error() is None,
        lock_target(source@.board.0, source@.active, placement.state),
        crate::reachability::replay(source@.board.0, source@.active, placement.path@) == Some(placement.state),
        placement.last_action == crate::reachability::path_last_action(source@.board.0, source@.active, placement.path@),
        forall|j: int| 0 <= j < 35 ==> #[trigger] context@[41 + j] == piece_context_spec(source@, j),
        forall|j: int| 0 <= j < 41 ==> #[trigger] context@[j] == 0,
        counts@[0] == clamp_count(queue_lines(own@.queue.0)),
        counts@[1] == clamp_count(ready_total(own@.queue.0, frame)),
        counts@[2] == clamp_count(own@.attack.combo as int),
        counts@[3] == clamp_count(own@.attack.back_to_back as int),
        counts@[4] == clamp_count(queue_lines(opponent@.queue.0)),
        counts@[5] == clamp_count(ready_total(opponent@.queue.0, frame)),
        counts@[6] == heights_max(opponent@.game.board.0, WIDTH as nat),
        counts@[7] == holes_total(opponent@.game.board.0, WIDTH as nat),
    ensures
        r matches Ok(c) ==> candidate_fits(own@, opponent@, frame, attack_rules, source@, used_hold, c)
            && c.action.placement == placement.state,
        r matches Err(e) ==> exists|p: PieceState, last: crate::timing::LastAction, l: LockedPlacement|
            #![trigger source@.locked_facts(p, last, l)]
            lock_target(source@.board.0, source@.active, p) && source@.locked_facts(p, last, l) && attack_terms_spec(
                own@.attack,
                l.clear,
                l.cleared_garbage,
                attack_rules,
            ) is Err && e == (BattleError::Attack {
                player,
                source: attack_terms_spec(own@.attack, l.clear, l.cleared_garbage, attack_rules)->Err_0,
            }),
{
    let ghost g = source@;
    let state = placement.state;
    proof {
        crate::reachability::lemma_lock_target_fits(g.board.0, g.active, state);
        crate::board::lemma_fits_bounds(g.board.0, state);
        crate::piece::lemma_local_cells_distinct_in_box(state.kind, state.orientation);
    }
    let preview = match source.preview_reachable_placement(placement) {
        Ok(pv) => pv,
        Err(_) => {
            return vstd::pervasive::unreached();
        },
    };
    assert(features_defined(state));
    let locked = preview.locked;
    proof {
        g.lemma_locked_facts_unique(state, placement.last_action, locked, locked);
    }
    let analysis = analyze_afterstate(&preview.board, state, locked.cleared);
    let terms = match attack_terms(own.attack_state(), locked.clear, locked.cleared_garbage, attack_rules) {
        Ok(t) => t,
        Err(e) => {
            proof {
                assert(g.locked_facts(state, placement.last_action, locked));
            }
            return Err(BattleError::Attack { player, source: e });
        },
    };
    let features = fill_features(analysis.features, analysis.heights, analysis.holes, context, counts, used_hold);
    let t_spin: i32 = match locked.clear.spin {
        Some(spin) => if spin.piece == PieceKind::T {
            match spin.classification {
                SpinClassification::Mini => 1,
                SpinClassification::Full => 2,
            }
        } else {
            0
        },
        None => 0,
    };
    let diagnostics = [locked.clear.lines as i32, t_spin, if locked.clear.perfect_clear { 1 } else { 0 }, 0, 0];
    let candidate = PlayerCandidate {
        features,
        diagnostics,
        action: PlacementAction { used_hold, placement: state, last_action: placement.last_action },
        locked,
        terms,
    };
    proof {
        assert(crate::reachability::replay(g.board.0, g.active, placement.path@) == Some(state));
        let f = candidate.features@;
        let after = g.board_after(state);
        assert(preview.board@ == after);
        assert forall|i: int| 0 <= i < FEATURE_COUNT implies #[trigger] f[i] == features_spec(after.0, state, locked.cleared@)[i] by {}
        assert forall|j: int| 0 <= j < WIDTH implies #[trigger] f[20 + j] == column_height(after.0, j) by {}
        assert forall|j: int| 0 <= j < WIDTH implies #[trigger] f[30 + j] == column_holes(after.0, j) by {}
        assert forall|j: int| 0 <= j < 35 implies #[trigger] f[41 + j] == piece_context_spec(g, j) by {}
        assert(f[12] == counts@[0]);
        assert(f[13] == counts@[1]);
        assert(f[14] == counts@[2]);
        assert(f[15] == counts@[3]);
        assert(f[16] == counts@[4]);
        assert(f[17] == counts@[5]);
        assert(f[18] == counts@[6]);
        assert(f[19] == counts@[7]);
    }
    Ok(candidate)
}

/// The candidates of one source game, appended to `out`.
#[verifier::rlimit(80)]
#[verifier::spinoff_prover]
fn source_player_candidates(
    player: PlayerId,
    own: &BattlePlayerState,
    opponent: &BattlePlayerState,
    frame: u64,
    attack_rules: crate::versus::AttackRules,
    source: &GameState,
    used_hold: bool,
    out: &mut Vec<PlayerCandidate>,
) -> (r: Result<(), BattleError>)
    requires
        own.wf(),
        opponent.wf(),
        source.wf(),
        source@.all_locks_fit(),
        source@.pieces_placed < u64::MAX,
    ensures
        r is Ok ==> exists|b: Seq<PlayerCandidate>|
            final(out)@ == old(out)@ + b && #[trigger] source_block_fits(
                own@,
                opponent@,
                frame,
                attack_rules,
                source@,
                used_hold,
                b,
            ),
        r matches Err(e) ==> exists|p: PieceState, last: crate::timing::LastAction, l: LockedPlacement|
            #![trigger source@.locked_facts(p, last, l)]
            lock_target(source@.board.0, source@.active, p) && source@.locked_facts(p, last, l) && attack_terms_spec(
                own@.attack,
                l.clear,
                l.cleared_garbage,
                attack_rules,
            ) is Err && e == (BattleError::Attack {
                player,
                source: attack_terms_spec(own@.attack, l.clear, l.cleared_garbage, attack_rules)->Err_0,
            }),
{
    let ghost start = old(out)@;
    let ghost g = source@;
    let placements = source.reachable_placements();
    let queue = source.preview();
    let own_pending = clamp_u64(own.incoming().pending_lines());
    let own_ready = clamp_u64(own.incoming().ready_lines(frame));
    let opponent_pending = clamp_u64(opponent.incoming().pending_lines());
    let opponent_ready = clamp_u64(opponent.incoming().ready_lines(frame));
    let summary = board_summary(opponent.game().board());
    let combo = clamp_u64(own.attack_state().combo as u64);
    let back_to_back = clamp_u64(own.attack_state().back_to_back as u64);
    let mut context = [0i32; VERSUS_CANDIDATE_FEATURE_COUNT];
    write_one_hot(&mut context, 41, source.active().kind);
    match source.hold() {
        Some(k) => write_one_hot(&mut context, 48, k),
        None => {},
    }
    let mut slot: usize = 0;
    while slot < 3 && slot < queue.len()
        invariant
            slot <= 3,
            queue@ == g.queue,
            forall|j: int| 0 <= j < 14 ==> #[trigger] context@[41 + j] == piece_context_spec(g, j),
            forall|j: int| 14 <= j < 14 + 7 * slot ==> #[trigger] context@[41 + j] == piece_context_spec(g, j),
            forall|j: int| 14 + 7 * slot <= j < 35 ==> #[trigger] context@[41 + j] == 0,
            forall|i: int| 0 <= i < 41 ==> #[trigger] context@[i] == 0,
        decreases 3 - slot,
    {
        let ghost before = context@;
        assert forall|i: int| 55 + 7 * slot <= i < 55 + 7 * slot + 7 implies context@[i] == 0 by {
            assert(context@[41 + (i - 41)] == 0);
        }
        write_one_hot(&mut context, 55 + 7 * slot, queue[slot]);
        proof {
            assert forall|j: int| 14 <= j < 14 + 7 * (slot + 1) implies #[trigger] context@[41 + j] == piece_context_spec(g, j) by {
                if j >= 14 + 7 * slot {
                    assert((j - 14) / 7 == slot as int) by (nonlinear_arith)
                        requires 14 + 7 * slot <= j < 14 + 7 * (slot + 1);
                    assert((j - 14) % 7 == j - 14 - 7 * slot) by (nonlinear_arith)
                        requires 14 + 7 * slot <= j < 14 + 7 * (slot + 1);
                } else {
                    assert(context@[41 + j] == before[41 + j]);
                }
            }
        }
        slot += 1;
    }
    proof {
        assert forall|j: int| 0 <= j < 35 implies #[trigger] context@[41 + j] == piece_context_spec(g, j) by {
            if j >= 14 + 7 * slot {
                let s = (j - 14) / 7;
                assert(s >= slot) by (nonlinear_arith)
                    requires 14 + 7 * slot <= j, s == (j - 14) / 7;
                assert(s < 3) by (nonlinear_arith)
                    requires j < 35, j >= 14, s == (j - 14) / 7;
                assert(s >= g.queue.len());
            }
        }
    }
    let mut k: usize = 0;
    while k < placements.len()
        invariant
            source.wf(),
            g == source@,
            own.wf(),
            opponent.wf(),
            source@.all_locks_fit(),
            source@.pieces_placed < u64::MAX,
            k <= placements@.len(),
            out@.len() == start.len() + k,
            out@.take(start.len() as int) == start,
            own_pending == clamp_count(queue_lines(own@.queue.0)),
            own_ready == clamp_count(ready_total(own@.queue.0, frame)),
            opponent_pending == clamp_count(queue_lines(opponent@.queue.0)),
            opponent_ready == clamp_count(ready_total(opponent@.queue.0, frame)),
            summary[1] == heights_max(opponent@.game.board.0, WIDTH as nat),
            summary[2] == holes_total(opponent@.game.board.0, WIDTH as nat),
            combo == clamp_count(own@.attack.combo as int),
            back_to_back == clamp_count(own@.attack.back_to_back as int),
            forall|j: int| 0 <= j < 35 ==> #[trigger] context@[41 + j] == piece_context_spec(g, j),
            forall|j: int| 0 <= j < 41 ==> #[trigger] context@[j] == 0,
            g.playable_error() is Some ==> placements@.len() == 0,
            g.playable_error() is None ==> forall|i: int| 0 <= i < placements@.len() ==> {
                &&& lock_target(g.board.0, g.active, #[trigger] placements@[i].state)
                &&& crate::reachability::replay(g.board.0, g.active, placements@[i].path@) == Some(placements@[i].state)
                &&& placements@[i].last_action == crate::reachability::path_last_action(
                    g.board.0,
                    g.active,
                    placements@[i].path@,
                )
            },
            g.playable_error() is None ==> forall|p: PieceState|
                lock_target(g.board.0, g.active, p) ==> exists|i: int|
                    0 <= i < placements@.len() && #[trigger] placements@[i].state == p,
            forall|a: int, b: int| 0 <= a < b < placements@.len() ==> grid_of(placements@[a].state) < grid_of(
                placements@[b].state,
            ),
            forall|i: int| 0 <= i < k ==> #[trigger] out@[start.len() + i].action.placement == placements@[i].state,
            forall|i: int|
                0 <= i < k ==> candidate_fits(own@, opponent@, frame, attack_rules, g, used_hold, #[trigger] out@[start.len() + i]),
        decreases placements@.len() - k,
    {
        let placement = &placements[k];
        let candidate = match build_candidate(
            player,
            own,
            opponent,
            frame,
            attack_rules,
            source,
            used_hold,
            placement,
            &context,
            [own_pending, own_ready, combo, back_to_back, opponent_pending, opponent_ready, summary[1], summary[2]],
        ) {
            Ok(c) => c,
            Err(e) => {
                return Err(e);
            },
        };
        out.push(candidate);
        proof {
            assert forall|i: int| 0 <= i < k + 1 implies #[trigger] out@[start.len() + i].action.placement
                == placements@[i].state by {}
            assert(out@.take(start.len() as int) =~= start);
        }
        k += 1;
    }
    proof {
        let b = out@.skip(start.len() as int);
        assert(out@ =~= start + b);
        assert forall|kk: int| 0 <= kk < b.len() implies candidate_fits(own@, opponent@, frame, attack_rules, g, used_hold, #[trigger] b[kk]) by {
            assert(b[kk] == out@[start.len() + kk]);
        }
        assert forall|a: int, c: int| 0 <= a < c < b.len() implies grid_of(b[a].action.placement) < grid_of(b[c].action.placement) by {
            assert(b[a] == out@[start.len() + a]);
            assert(b[c] == out@[start.len() + c]);
        }
        if g.playable_error() is None {
            assert forall|p: PieceState| lock_target(g.board.0, g.active, p) implies exists|kk: int|
                0 <= kk < b.len() && #[trigger] b[kk].action.placement == p by {
                let i = choose|i: int| 0 <= i < placements@.len() && #[trigger] placements@[i].state == p;
                assert(b[i] == out@[start.len() + i]);
            }
        }
        assert(source_block_fits(own@, opponent@, frame, attack_rules, g, used_hold, b));
    }
    Ok(())
}

/// The game after holding, when holding is available and does not top out.
pub open spec fn held_source(g: GameModel) -> Option<GameModel> {
    if g.hold_available && (g.hold_step() is Ok) && !g.hold_step()->Ok_0.1.top_out {
        Some(g.hold_step()->Ok_0.0)
    } else {
        None
    }
}

pub open spec fn own_model(b: crate::battle::BattleModel, player: PlayerId) -> PlayerModel {
    match player {
        PlayerId::One => b.one,
        PlayerId::Two => b.two,
    }
}

pub open spec fn opponent_model(b: crate::battle::BattleModel, player: PlayerId) -> PlayerModel {
    match player {
        PlayerId::One => b.two,
        PlayerId::Two => b.one,
    }
}

/// The candidates of the player's active piece, followed by those of the
/// held-in piece when holding is available and does not top out.
pub open spec fn candidates_fit(b: crate::battle::BattleModel, player: PlayerId, v: Seq<PlayerCandidate>) -> bool {
    let own = own_model(b, player);
    let opponent = opponent_model(b, player);
    exists|k: int|
        0 <= k <= v.len() && #[trigger] source_block_fits(own, opponent, b.frame, b.rules.attack, own.game, false, v.subrange(0, k))
            && match held_source(own.game) {
            Some(h) => source_block_fits(own, opponent, b.frame, b.rules.attack, h, true, v.subrange(k, v.len() as int)),
            None => k == v.len(),
        }
}

/// Enumerates the player's candidate afterstates between placement steps.
/// Holding first: a hold that is available but refused is the error. Then
/// an attack-term error of some candidate is the only other error.
pub fn enumerate_player_candidates(battle: &BattleSession, player: PlayerId) -> (r: Result<
    Vec<PlayerCandidate>,
    BattleError,
>)
    requires
        battle.wf(),
        own_model(battle@, player).game.pieces_placed < u64::MAX,
    ensures
        ({
            let own = own_model(battle@, player);
            let g = own.game;
            &&& r matches Ok(v) ==> candidates_fit(battle@, player, v@)
            &&& g.hold_available && g.hold_step() is Err ==> r == Err::<Vec<PlayerCandidate>, BattleError>(
                BattleError::Session { player, source: SessionStepError::Game(g.hold_step()->Err_0) },
            )
            &&& (r is Err && !(g.hold_available && g.hold_step() is Err)) ==> exists|
                src: GameModel,
                p: PieceState,
                last: crate::timing::LastAction,
                l: LockedPlacement,
            |
                #![trigger src.locked_facts(p, last, l)]
                (src == g || held_source(g) == Some(src)) && lock_target(src.board.0, src.active, p)
                    && src.locked_facts(p, last, l) && attack_terms_spec(own.attack, l.clear, l.cleared_garbage, battle@.rules.attack)
                    is Err && r->Err_0 == (BattleError::Attack {
                    player,
                    source: attack_terms_spec(own.attack, l.clear, l.cleared_garbage, battle@.rules.attack)->Err_0,
                })
        }),
{
    let other = match player {
        PlayerId::One => PlayerId::Two,
        PlayerId::Two => PlayerId::One,
    };
    let own = battle.player(player);
    let opponent = battle.player(other);
    let game = own.game();
    proof {
        own.lemma_locks_fit();
    }
    let attack_rules = battle.rules().attack;
    let mut held: Option<GameState> = None;
    if game.hold_available() {
        let mut h = game.duplicate();
        match h.hold_active() {
            Ok(outcome) => {
                if !outcome.top_out {
                    held = Some(h);
                }
            },
            Err(e) => {
                return Err(BattleError::Session { player, source: SessionStepError::Game(e) });
            },
        }
    }
    let mut out: Vec<PlayerCandidate> = Vec::new();
    match source_player_candidates(player, own, opponent, battle.frame(), attack_rules, game, false, &mut out) {
        Ok(()) => {},
        Err(e) => {
            return Err(e);
        },
    }
    let ghost first = out@;
    proof {
        assert(out@.len() == first.len());
    }
    match held {
        Some(h) => {
            proof {
                assert(h@.board == game@.board);
            }
            match source_player_candidates(player, own, opponent, battle.frame(), attack_rules, &h, true, &mut out) {
                Ok(()) => {},
                Err(e) => {
                    return Err(e);
                },
            }
            proof {
                let b1 = choose|b: Seq<PlayerCandidate>|
                    out@ == first + b && #[trigger] source_block_fits(own@, opponent@, battle@.frame, attack_rules, h@, true, b);
                let b0 = choose|b: Seq<PlayerCandidate>|
                    first == Seq::<PlayerCandidate>::empty() + b && #[trigger] source_block_fits(own@, opponent@, battle@.frame, attack_rules, game@, false, b);
                assert(b0 =~= first);
                assert(out@.subrange(0, first.len() as int) =~= first);
                assert(out@.subrange(first.len() as int, out@.len() as int) =~= b1);
                assert(candidates_fit(battle@, player, out@));
            }
        },
        None => {
            proof {
                let b0 = choose|b: Seq<PlayerCandidate>|
                    first == Seq::<PlayerCandidate>::empty() + b && #[trigger] source_block_fits(own@, opponent@, battle@.frame, attack_rules, game@, false, b);
                assert(b0 =~= first);
                assert(out@.subrange(0, out@.len() as int) =~= out@);
                assert(candidates_fit(battle@, player, out@));
            }
        },
    }
    Ok(out)
}

/// Completes a candidate with the amounts the garbage multiplier produced
/// from its attack terms: the total attack it sends before cancellation and
/// what is left to send after cancelling the player's incoming garbage.
pub fn complete_player_candidate(
    battle: &BattleSession,
    player: PlayerId,
    candidate: PlayerCandidate,
    scaled: ScaledAttack,
) -> (r: Result<PlayerCandidate, BattleError>)
    requires
        battle.wf(),
    ensures
        ({
            let own = own_model(battle@, player);
            let pending = PendingPlayer { locked: candidate.locked, hold_applied: candidate.action.used_hold, terms: candidate.terms };
            let cs = cancel_spec(own, pending, scaled, battle@.rules.garbage);
            let sent = clamp_count(lines_total(scaled_packets(candidate.terms, scaled)));
            let left = clamp_count(lines_total(cs.outgoing));
            &&& !scaled_fits(candidate.terms, scaled) ==> r == Err::<PlayerCandidate, BattleError>(
                BattleError::Attack { player, source: AttackError::CounterOverflow },
            )
            &&& scaled_fits(candidate.terms, scaled) && cancel_overflows(cs) ==> r == Err::<PlayerCandidate, BattleError>(
                BattleError::Garbage { player, source: GarbageError::CounterOverflow },
            )
            &&& scaled_fits(candidate.terms, scaled) && !cancel_overflows(cs) ==> (r matches Ok(c) && c.features@
                == candidate.features@.update(10, sent as i32).update(11, left as i32) && c.diagnostics@
                == candidate.diagnostics@.update(3, sent as i32).update(4, left as i32) && c.action == candidate.action
                && c.locked == candidate.locked && c.terms == candidate.terms)
        }),
{
    let own = battle.player(player);
    proof {
        battle.lemma_wf();
    }
    let attack = match assemble_attack(
        candidate.terms,
        scaled.surge_attack,
        scaled.combo_attack,
        scaled.perfect_clear_attack,
    ) {
        Ok(a) => a,
        Err(e) => {
            return Err(BattleError::Attack { player, source: e });
        },
    };
    let mut queue = own.incoming().duplicate();
    let cancellation = match cancel_attack_packets(
        &mut queue,
        attack.packets,
        candidate.locked.pieces_placed,
        own.sent_lines(),
        battle.rules().garbage,
    ) {
        Ok(c) => c,
        Err(e) => {
            return Err(BattleError::Garbage { player, source: e });
        },
    };
    let sent = clamp_u64(attack.packets.total());
    let left = clamp_u64(cancellation.outgoing.total());
    let mut features = candidate.features;
    features[10] = sent;
    features[11] = left;
    let mut diagnostics = candidate.diagnostics;
    diagnostics[3] = sent;
    diagnostics[4] = left;
    Ok(PlayerCandidate { features, diagnostics, ..candidate })
}

} // verus!
