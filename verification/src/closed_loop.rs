//! A batch of solo games advanced one chosen afterstate at a time, for
//! closed-loop policy evaluation.
use vstd::prelude::*;
use vstd::string::*;
use crate::board::{HEIGHT, VISIBLE_HEIGHT};
use crate::features::FEATURE_COUNT;
use crate::game::{GameConfig, GameError, GameModel, GameState, PlacementOutcome, is_default_config, locked_of};
use crate::piece::PieceState;
use crate::playground::{lemma_empty_locks_fit, lemma_tetrio_order_is_permutation, piece_letter};
use crate::solo::{
    CandidateChoice, GenerationError, ObservationRecord, block_fits, candidate_fits, enumerate_candidates,
    enumeration_fits, held_block_fits, lemma_dellacherie_never_overflows, observation_fits, observation_record,
    rank_candidates, ranking_fits,
};
use crate::game::fresh_game;
use crate::teacher::{DELLACHERIE_SCALED_WEIGHTS, LinearTeacher};
use crate::timing::LastAction;
use crate::reachability::lock_target;
use crate::text::{append_decimal, decimal};

verus! {

#[derive(Clone, Debug, PartialEq, Eq)]
pub struct CandidateBatch {
    pub features: Vec<[i32; FEATURE_COUNT]>,
    pub teacher_scores: Vec<i64>,
    pub offsets: Vec<usize>,
    pub done: Vec<bool>,
}

/// What a policy needs to choose and apply one candidate.
#[derive(Clone, Copy, Debug, PartialEq, Eq)]
pub struct InferenceChoice {
    pub features: [i32; FEATURE_COUNT],
    pub placement: PieceState,
    pub used_hold: bool,
    pub last_action: LastAction,
}

#[derive(Clone, Debug, PartialEq, Eq)]
pub struct SoloSnapshot {
    pub board_rows: Vec<u16>,
    pub garbage_rows: Vec<u16>,
    pub active: String,
    pub hold: Option<String>,
    pub preview: Vec<String>,
    pub pieces_placed: u64,
    pub top_out: bool,
}

#[derive(Debug)]
pub enum ClosedLoopError {
    EmptySeeds,
    SelectionCount { expected: usize, actual: usize },
    CandidatesNotRequested(usize),
    MissingSelection(usize),
    SelectionForDoneGame(usize),
    SelectionOutOfRange { game: usize, selected: usize, candidates: usize },
    GameOutOfRange { selected: usize, games: usize },
    Generation(GenerationError),
}

impl ClosedLoopError {
    /// The message as text.
    pub open spec fn text(&self) -> Seq<char> {
        match self {
            ClosedLoopError::EmptySeeds => "at least one seed is required"@,
            ClosedLoopError::SelectionCount { expected, actual } => "expected "@ + decimal(*expected as nat)
                + " selections, got "@ + decimal(*actual as nat),
            ClosedLoopError::CandidatesNotRequested(g) => "candidates were not requested for game "@ + decimal(*g as nat),
            ClosedLoopError::MissingSelection(g) => "game "@ + decimal(*g as nat) + " needs a selection"@,
            ClosedLoopError::SelectionForDoneGame(g) => "done game "@ + decimal(*g as nat) + " must not receive a selection"@,
            ClosedLoopError::SelectionOutOfRange { game, selected, candidates } => "selection "@ + decimal(
                *selected as nat,
            ) + " is outside "@ + decimal(*candidates as nat) + " candidates for game "@ + decimal(*game as nat),
            ClosedLoopError::GameOutOfRange { selected, games } => "game "@ + decimal(*selected as nat) + " is outside "@
                + decimal(*games as nat) + " games"@,
            ClosedLoopError::Generation(e) => "arena transition failed: "@ + e.text(),
        }
    }

    /// The error as a sentence, naming the games and counts involved.
    pub fn message(&self) -> (r: String)
        ensures
            r@ == self.text(),
    {
        match self {
            ClosedLoopError::EmptySeeds => String::from_str("at least one seed is required"),
            ClosedLoopError::SelectionCount { expected, actual } => {
                let mut s = String::from_str("expected ");
                append_decimal(&mut s, *expected as u64);
                s.append(" selections, got ");
                append_decimal(&mut s, *actual as u64);
                s
            },
            ClosedLoopError::CandidatesNotRequested(game) => {
                let mut s = String::from_str("candidates were not requested for game ");
                append_decimal(&mut s, *game as u64);
                s
            },
            ClosedLoopError::MissingSelection(game) => {
                let mut s = String::from_str("game ");
                append_decimal(&mut s, *game as u64);
                s.append(" needs a selection");
                s
            },
            ClosedLoopError::SelectionForDoneGame(game) => {
                let mut s = String::from_str("done game ");
                append_decimal(&mut s, *game as u64);
                s.append(" must not receive a selection");
                s
            },
            ClosedLoopError::SelectionOutOfRange { game, selected, candidates } => {
                let mut s = String::from_str("selection ");
                append_decimal(&mut s, *selected as u64);
                s.append(" is outside ");
                append_decimal(&mut s, *candidates as u64);
                s.append(" candidates for game ");
                append_decimal(&mut s, *game as u64);
                s
            },
            ClosedLoopError::GameOutOfRange { selected, games } => {
                let mut s = String::from_str("game ");
                append_decimal(&mut s, *selected as u64);
                s.append(" is outside ");
                append_decimal(&mut s, *games as u64);
                s.append(" games");
                s
            },
            ClosedLoopError::Generation(e) => {
                let mut s = String::from_str("arena transition failed: ");
                let inner = e.message();
                s.append(inner.as_str());
                s
            },
        }
    }
}

pub open spec fn inference_of(c: CandidateChoice) -> InferenceChoice {
    InferenceChoice {
        features: c.record.features,
        placement: c.placement,
        used_hold: c.record.action.hold,
        last_action: c.last_action,
    }
}

/// `v` lists the game's candidates, without scores, in enumeration order.
#[verifier::opaque]
pub open spec fn inference_fits(g: GameModel, v: Seq<InferenceChoice>) -> bool {
    exists|c: Seq<CandidateChoice>|
        #[trigger] enumeration_fits(g, g.config, DELLACHERIE_SCALED_WEIGHTS@, c) && v == c.map_values(
            |x: CandidateChoice| inference_of(x),
        )
}

/// The game after applying a candidate: hold when the candidate used it, then
/// the lock with the candidate's last movement.
pub open spec fn applied(g: GameModel, choice: InferenceChoice, g2: GameModel) -> bool {
    let g1 = if choice.used_hold {
        g.hold_step()->Ok_0.0
    } else {
        g
    };
    &&& choice.used_hold ==> g.hold_step() is Ok
    &&& g1.lock_error(choice.placement) is None
    &&& exists|o: PlacementOutcome|
        #![trigger locked_of(o)]
        g1.locked_facts(choice.placement, choice.last_action, locked_of(o)) && g1.after_lock(
            choice.placement,
            locked_of(o),
        ).finish_step() == Ok::<(GameModel, PlacementOutcome), GameError>((g2, o))
}

fn to_inference(choices: &Vec<CandidateChoice>) -> (r: Vec<InferenceChoice>)
    ensures
        r@ == choices@.map_values(|x: CandidateChoice| inference_of(x)),
{
    let mut out: Vec<InferenceChoice> = Vec::new();
    let mut i: usize = 0;
    while i < choices.len()
        invariant
            i <= choices@.len(),
            out@ == choices@.take(i as int).map_values(|x: CandidateChoice| inference_of(x)),
        decreases choices@.len() - i,
    {
        let c = &choices[i];
        out.push(
            InferenceChoice {
                features: c.record.features,
                placement: c.placement,
                used_hold: c.record.action.hold,
                last_action: c.last_action,
            },
        );
        proof {
            assert(choices@.take(i + 1).map_values(|x: CandidateChoice| inference_of(x)) =~= choices@.take(
                i as int,
            ).map_values(|x: CandidateChoice| inference_of(x)).push(inference_of(choices@[i as int])));
        }
        i += 1;
    }
    assert(choices@.take(choices@.len() as int) =~= choices@);
    out
}

/// The Dellacherie candidates of a playable game, or the path-length error.
fn labeled_for(game: &GameState, config: GameConfig) -> (r: Result<Vec<CandidateChoice>, GenerationError>)
    requires
        game.wf(),
        game@.all_locks_fit(),
        game@.config == config,
        is_default_config(config),
    ensures
        r matches Ok(v) ==> enumeration_fits(game@, game@.config, DELLACHERIE_SCALED_WEIGHTS@, v@),
        game@.top_out is None && game@.pending_lock is None ==> r is Ok,
{
    let teacher = LinearTeacher::dellacherie_v1();
    let r = enumerate_candidates(game, config, teacher);
    proof {
        assert forall|f: Seq<i32>| f.len() == FEATURE_COUNT implies #[trigger] crate::teacher::score_fold(
            teacher.weight_seq(),
            f,
            FEATURE_COUNT as nat,
        ) is Some by {
            lemma_dellacherie_never_overflows(f);
        }
    }
    r
}

/// Flattened features of the first `n` candidate lists.
pub open spec fn flat_features(lists: Seq<Seq<InferenceChoice>>, n: nat) -> Seq<[i32; FEATURE_COUNT]>
    decreases n,
{
    if n == 0 {
        Seq::empty()
    } else {
        flat_features(lists, (n - 1) as nat) + lists[n - 1].map_values(|c: InferenceChoice| c.features)
    }
}

/// `b` exposes the lists: flat features, each list's start offset and the
/// total, and which lists are empty.
pub open spec fn batch_fits(lists: Seq<Seq<InferenceChoice>>, b: CandidateBatch) -> bool {
    &&& b.features@ == flat_features(lists, lists.len())
    &&& b.offsets@.len() == lists.len() + 1
    &&& forall|i: int| 0 <= i <= lists.len() ==> #[trigger] b.offsets@[i] == flat_features(lists, i as nat).len()
    &&& b.done@.len() == lists.len()
    &&& forall|i: int| 0 <= i < lists.len() ==> #[trigger] b.done@[i] == (lists[i].len() == 0)
}

pub open spec fn opt_view(o: Option<Vec<InferenceChoice>>) -> Option<Seq<InferenceChoice>> {
    match o {
        Some(v) => Some(v@),
        None => None,
    }
}

pub struct SoloBatch {
    games: Vec<GameState>,
    choices: Vec<Option<Vec<InferenceChoice>>>,
    game_config: GameConfig,
}

impl SoloBatch {
    pub closed spec fn games_model(&self) -> Seq<GameModel> {
        Seq::new(self.games@.len(), |k: int| self.games@[k]@)
    }

    /// The cached candidates of each game, if requested since its last move.
    pub closed spec fn cache_model(&self) -> Seq<Option<Seq<InferenceChoice>>> {
        Seq::new(self.choices@.len(), |k: int| opt_view(self.choices@[k]))
    }

    pub closed spec fn wf(&self) -> bool {
        &&& self.choices@.len() == self.games@.len()
        &&& forall|i: int|
            0 <= i < self.games@.len() ==> {
                &&& (#[trigger] self.games@[i]).wf()
                &&& self.games@[i]@.all_locks_fit()
                &&& self.games@[i]@.pending_lock is None
                &&& self.games@[i]@.config == self.game_config
            }
        &&& is_default_config(self.game_config)
        &&& forall|i: int|
            0 <= i < self.games@.len() ==> match #[trigger] self.choices@[i] {
                Some(v) => if self.games@[i]@.top_out is Some {
                    v@.len() == 0
                } else {
                    inference_fits(self.games@[i]@, v@)
                },
                None => true,
            }
    }

    pub fn new(seeds: &[u64]) -> (r: Result<Self, ClosedLoopError>)
        ensures
            seeds@.len() == 0 ==> r matches Err(ClosedLoopError::EmptySeeds),
            seeds@.len() > 0 ==> r is Ok,
            r matches Ok(b) ==> {
                &&& b.wf()
                &&& b.games_model().len() == seeds@.len()
                &&& forall|i: int| 0 <= i < seeds@.len() ==> is_default_config(#[trigger] b.games_model()[i].config)
                &&& forall|i: int|
                    0 <= i < seeds@.len() ==> #[trigger] b.games_model()[i] == crate::game::fresh_game(
                        seeds@[i],
                        b.games_model()[i].config,
                        (Seq::new(HEIGHT as nat, |k: int| 0u16), Seq::new(HEIGHT as nat, |k: int| 0u16)),
                    )
                &&& forall|i: int| 0 <= i < seeds@.len() ==> #[trigger] b.cache_model()[i] is None
            },
    {
        if seeds.len() == 0 {
            return Err(ClosedLoopError::EmptySeeds);
        }
        let game_config = GameConfig::default();
        proof {
            lemma_tetrio_order_is_permutation();
        }
        let mut games: Vec<GameState> = Vec::new();
        let mut choices: Vec<Option<Vec<InferenceChoice>>> = Vec::new();
        let mut i: usize = 0;
        while i < seeds.len()
            invariant
                is_default_config(game_config),
                crate::rng::is_permutation_of_all(game_config.bag_order@),
                i <= seeds@.len(),
                games@.len() == i,
                choices@.len() == i,
                forall|k: int|
                    0 <= k < i ==> {
                        &&& (#[trigger] games@[k]).wf()
                        &&& games@[k]@.all_locks_fit()
                        &&& games@[k]@.pending_lock is None
                        &&& games@[k]@.config == game_config
                        &&& games@[k]@ == crate::game::fresh_game(
                            seeds@[k],
                            game_config,
                            (Seq::new(HEIGHT as nat, |j: int| 0u16), Seq::new(HEIGHT as nat, |j: int| 0u16)),
                        )
                    },
                forall|k: int| 0 <= k < i ==> #[trigger] choices@[k] is None,
            decreases seeds@.len() - i,
        {
            let game = match GameState::new(seeds[i], game_config) {
                Ok(g) => g,
                Err(_) => vstd::pervasive::unreached(),
            };
            proof {
                lemma_empty_locks_fit(game@);
            }
            games.push(game);
            choices.push(None);
            i += 1;
        }
        let batch = SoloBatch { games, choices, game_config };
        proof {
            assert forall|k: int| 0 <= k < seeds@.len() implies #[trigger] batch.games_model()[k]
                == crate::game::fresh_game(
                seeds@[k],
                batch.games_model()[k].config,
                (Seq::new(HEIGHT as nat, |j: int| 0u16), Seq::new(HEIGHT as nat, |j: int| 0u16)),
            ) by {
                assert(batch.games_model()[k] == batch.games@[k]@);
            }
            assert forall|k: int| 0 <= k < seeds@.len() implies #[trigger] batch.cache_model()[k] is None by {
                assert(batch.choices@[k] is None);
            }
        }
        Ok(batch)
    }

    pub fn game_count(&self) -> (r: usize)
        ensures
            r == self.games_model().len(),
    {
        self.games.len()
    }

    pub fn pieces_placed(&self) -> (r: Vec<u64>)
        ensures
            r@.len() == self.games_model().len(),
            forall|i: int| 0 <= i < r@.len() ==> #[trigger] r@[i] == self.games_model()[i].pieces_placed,
    {
        let mut out: Vec<u64> = Vec::new();
        let mut i: usize = 0;
        while i < self.games.len()
            invariant
                i <= self.games@.len(),
                out@.len() == i,
                forall|k: int| 0 <= k < i ==> #[trigger] out@[k] == self.games@[k]@.pieces_placed,
            decreases self.games@.len() - i,
        {
            out.push(self.games[i].pieces_placed());
            i += 1;
        }
        proof {
            assert forall|k: int| 0 <= k < out@.len() implies #[trigger] out@[k] == self.games_model()[k].pieces_placed by {
                assert(self.games_model()[k] == self.games@[k]@);
            }
        }
        out
    }
}

pub open spec fn lists_of(c: Seq<Option<Seq<InferenceChoice>>>) -> Seq<Seq<InferenceChoice>> {
    c.map_values(|o: Option<Seq<InferenceChoice>>| o->Some_0)
}

fn batch_of(choices: &Vec<Option<Vec<InferenceChoice>>>) -> (r: CandidateBatch)
    requires
        forall|i: int| 0 <= i < choices@.len() ==> (#[trigger] choices@[i]) is Some,
    ensures
        batch_fits(choices@.map_values(|o: Option<Vec<InferenceChoice>>| o->Some_0@), r),
        r.teacher_scores@.len() == 0,
{
    let ghost lists = choices@.map_values(|o: Option<Vec<InferenceChoice>>| o->Some_0@);
    let mut features: Vec<[i32; FEATURE_COUNT]> = Vec::new();
    let mut offsets: Vec<usize> = Vec::new();
    let mut done: Vec<bool> = Vec::new();
    offsets.push(0);
    let mut i: usize = 0;
    while i < choices.len()
        invariant
            lists == choices@.map_values(|o: Option<Vec<InferenceChoice>>| o->Some_0@),
            forall|k: int| 0 <= k < choices@.len() ==> (#[trigger] choices@[k]) is Some,
            i <= choices@.len(),
            features@ == flat_features(lists, i as nat),
            offsets@.len() == i + 1,
            forall|k: int| 0 <= k <= i ==> #[trigger] offsets@[k] == flat_features(lists, k as nat).len(),
            done@.len() == i,
            forall|k: int| 0 <= k < i ==> #[trigger] done@[k] == (lists[k].len() == 0),
        decreases choices@.len() - i,
    {
        let list = match &choices[i] {
            Some(v) => v,
            None => {
                return vstd::pervasive::unreached();
            },
        };
        let mut j: usize = 0;
        let ghost before = features@;
        while j < list.len()
            invariant
                j <= list@.len(),
                list@ == lists[i as int],
                features@ == before + list@.take(j as int).map_values(|c: InferenceChoice| c.features),
            decreases list@.len() - j,
        {
            features.push(list[j].features);
            proof {
                assert(list@.take(j + 1).map_values(|c: InferenceChoice| c.features) =~= list@.take(
                    j as int,
                ).map_values(|c: InferenceChoice| c.features).push(list@[j as int].features));
            }
            j += 1;
        }
        proof {
            assert(list@.take(list@.len() as int) =~= list@);
        }
        offsets.push(features.len());
        done.push(list.len() == 0);
        i += 1;
    }
    CandidateBatch { features, teacher_scores: Vec::new(), offsets, done }
}

proof fn lemma_flat_features_monotone(lists: Seq<Seq<InferenceChoice>>, m: nat, n: nat)
    requires
        m <= n,
    ensures
        flat_features(lists, m).len() <= flat_features(lists, n).len(),
    decreases n,
{
    if m < n {
        lemma_flat_features_monotone(lists, m, (n - 1) as nat);
    }
}

impl SoloBatch {
    /// Requests each game's candidates: a top-out game has none, a cached
    /// list is reused, any other game is enumerated and cached.
    pub fn candidates(&mut self) -> (r: Result<CandidateBatch, ClosedLoopError>)
        requires
            old(self).wf(),
        ensures
            final(self).wf(),
            final(self).games_model() == old(self).games_model(),
            r is Ok,
            r matches Ok(b) ==> {
                let n = old(self).games_model().len();
                let c = final(self).cache_model();
                &&& c.len() == n
                &&& forall|i: int|
                    0 <= i < n ==> {
                        let g = old(self).games_model()[i];
                        &&& (#[trigger] c[i]) is Some
                        &&& g.top_out is Some ==> c[i] == Some(Seq::<InferenceChoice>::empty())
                        &&& g.top_out is None && old(self).cache_model()[i] is Some ==> c[i] == old(self).cache_model()[i]
                        &&& g.top_out is None ==> inference_fits(g, c[i]->Some_0)
                    }
                &&& batch_fits(lists_of(c), b)
                &&& b.teacher_scores@.len() == 0
            },
    {
        let n = self.games.len();
        let ghost old_cache = self.cache_model();
        let ghost games = self.games_model();
        let mut i: usize = 0;
        while i < n
            invariant
                self.wf(),
                n == self.games@.len(),
                self.games_model() == games,
                games == old(self).games_model(),
                old_cache == old(self).cache_model(),
                old_cache.len() == n,
                i <= n,
                self.cache_model().len() == n,
                forall|k: int| i <= k < n ==> #[trigger] self.cache_model()[k] == old_cache[k],
                forall|k: int|
                    0 <= k < i ==> {
                        &&& (#[trigger] self.cache_model()[k]) is Some
                        &&& games[k].top_out is Some ==> self.cache_model()[k] == Some(Seq::<InferenceChoice>::empty())
                        &&& games[k].top_out is None && old_cache[k] is Some ==> self.cache_model()[k] == old_cache[k]
                    },
            decreases n - i,
        {
            proof {
                assert(self.games_model()[i as int] == self.games@[i as int]@);
                assert(old_cache[i as int] == self.cache_model()[i as int]);
            }
            let ghost before = self.choices@;
            let ghost cache_before = self.cache_model();
            if self.games[i].is_top_out() {
                self.choices.set(i, Some(Vec::new()));
                proof {
                    assert forall|k: int| 0 <= k < n && k != i implies self.choices@[k] == before[k] by {}
                    assert(self.cache_model()[i as int] == Some(Seq::<InferenceChoice>::empty()));
                }
            } else if self.choices[i].is_none() {
                match labeled_for(&self.games[i], self.game_config) {
                    Ok(labeled) => {
                        let inference = to_inference(&labeled);
                        proof {
                            assert(inference_fits(self.games@[i as int]@, inference@)) by {
                                reveal(inference_fits);
                            }
                        }
                        self.choices.set(i, Some(inference));
                        proof {
                            assert forall|k: int| 0 <= k < n && k != i implies self.choices@[k] == before[k] by {}
                        }
                    },
                    Err(e) => {
                        proof {
                            assert(self.games@[i as int]@.pending_lock is None);
                        }
                        return Err(ClosedLoopError::Generation(e));
                    },
                }
            }
            proof {
                assert forall|k: int| 0 <= k < n && k != i implies #[trigger] self.cache_model()[k] == cache_before[k] by {
                    assert(self.choices@[k] == before[k]);
                }
            }
            i += 1;
        }
        proof {
            assert forall|k: int| 0 <= k < n implies (#[trigger] self.choices@[k]) is Some by {
                assert(self.cache_model()[k] is Some);
            }
            assert(self.choices@.map_values(|o: Option<Vec<InferenceChoice>>| o->Some_0@) =~= lists_of(
                self.cache_model(),
            ));
        }
        Ok(batch_of(&self.choices))
    }

    /// Recomputes every playable game's candidates with their teacher scores
    /// and caches them; a top-out game has none.
    pub fn labeled_candidates(&mut self) -> (r: Result<CandidateBatch, ClosedLoopError>)
        requires
            old(self).wf(),
        ensures
            final(self).wf(),
            final(self).games_model() == old(self).games_model(),
            r is Ok,
            r matches Ok(b) ==> {
                let n = old(self).games_model().len();
                let c = final(self).cache_model();
                &&& c.len() == n
                &&& batch_fits(lists_of(c), b)
                &&& exists|ls: Seq<Seq<CandidateChoice>>| #[trigger] labeled_fits(old(self).games_model(), ls, c, b.teacher_scores@)
            },
    {
        let n = self.games.len();
        let ghost games = self.games_model();
        let mut scores: Vec<i64> = Vec::new();
        let ghost mut ls: Seq<Seq<CandidateChoice>> = Seq::empty();
        let mut i: usize = 0;
        while i < n
            invariant
                self.wf(),
                n == self.games@.len(),
                self.games_model() == games,
                games == old(self).games_model(),
                i <= n,
                self.cache_model().len() == n,
                ls.len() == i,
                forall|k: int|
                    0 <= k < i ==> {
                        &&& (#[trigger] self.cache_model()[k]) == Some(ls[k].map_values(|x: CandidateChoice| inference_of(x)))
                        &&& if games[k].top_out is Some {
                            ls[k].len() == 0
                        } else {
                            enumeration_fits(games[k], games[k].config, DELLACHERIE_SCALED_WEIGHTS@, ls[k])
                        }
                    },
                scores@ == flat_scores(ls, i as nat),
            decreases n - i,
        {
            proof {
                assert(self.games_model()[i as int] == self.games@[i as int]@);
            }
            let ghost before = self.choices@;
            let ghost cache_before = self.cache_model();
            if self.games[i].is_top_out() {
                self.choices.set(i, Some(Vec::new()));
                proof {
                    let ghost old_ls = ls;
                    ls = ls.push(Seq::empty());
                    assert(Seq::<CandidateChoice>::empty().map_values(|x: CandidateChoice| inference_of(x)) =~= Seq::<
                        InferenceChoice,
                    >::empty());
                    lemma_flat_scores_prefix(ls, old_ls, i as nat);
                    assert(scores@ =~= flat_scores(ls, (i + 1) as nat));
                }
            } else {
                match labeled_for(&self.games[i], self.game_config) {
                    Ok(labeled) => {
                        let mut j: usize = 0;
                        let ghost start = scores@;
                        while j < labeled.len()
                            invariant
                                j <= labeled@.len(),
                                start == flat_scores(ls, i as nat),
                                scores@ == start + labeled@.take(j as int).map_values(
                                    |c: CandidateChoice| c.record.teacher_score,
                                ),
                            decreases labeled@.len() - j,
                        {
                            scores.push(labeled[j].record.teacher_score);
                            proof {
                                assert(labeled@.take(j + 1).map_values(|c: CandidateChoice| c.record.teacher_score)
                                    =~= labeled@.take(j as int).map_values(
                                    |c: CandidateChoice| c.record.teacher_score,
                                ).push(labeled@[j as int].record.teacher_score));
                            }
                            j += 1;
                        }
                        let inference = to_inference(&labeled);
                        proof {
                            assert(inference_fits(self.games@[i as int]@, inference@)) by {
                                reveal(inference_fits);
                            }
                        }
                        self.choices.set(i, Some(inference));
                        proof {
                            assert(labeled@.take(labeled@.len() as int) =~= labeled@);
                            let ghost old_ls = ls;
                            ls = ls.push(labeled@);
                            lemma_flat_scores_prefix(ls, old_ls, i as nat);
                            assert(scores@ =~= flat_scores(ls, (i + 1) as nat));
                        }
                    },
                    Err(e) => {
                        proof {
                            assert(self.games@[i as int]@.pending_lock is None);
                        }
                        return Err(ClosedLoopError::Generation(e));
                    },
                }
            }
            proof {
                assert forall|k: int| 0 <= k < n && k != i implies #[trigger] self.cache_model()[k] == cache_before[k] by {
                    assert(self.choices@[k] == before[k]);
                }
            }
            i += 1;
        }
        proof {
            assert forall|k: int| 0 <= k < n implies (#[trigger] self.choices@[k]) is Some by {
                assert(self.cache_model()[k] is Some);
            }
            assert(self.choices@.map_values(|o: Option<Vec<InferenceChoice>>| o->Some_0@) =~= lists_of(
                self.cache_model(),
            ));
        }
        let mut batch = batch_of(&self.choices);
        batch.teacher_scores = scores;
        proof {
            assert(labeled_fits(games, ls, self.cache_model(), batch.teacher_scores@));
        }
        Ok(batch)
    }
}

/// Teacher scores of the first `n` candidate lists, flattened.
pub open spec fn flat_scores(ls: Seq<Seq<CandidateChoice>>, n: nat) -> Seq<i64>
    decreases n,
{
    if n == 0 {
        Seq::empty()
    } else {
        flat_scores(ls, (n - 1) as nat) + ls[n - 1].map_values(|c: CandidateChoice| c.record.teacher_score)
    }
}

proof fn lemma_flat_scores_prefix(a: Seq<Seq<CandidateChoice>>, b: Seq<Seq<CandidateChoice>>, n: nat)
    requires
        n <= a.len(),
        n <= b.len(),
        forall|k: int| 0 <= k < n ==> a[k] == b[k],
    ensures
        flat_scores(a, n) == flat_scores(b, n),
    decreases n,
{
    if n > 0 {
        lemma_flat_scores_prefix(a, b, (n - 1) as nat);
    }
}

/// `ls` holds each game's scored candidates (none for a top-out game), the
/// cache their unscored forms, and `scores` their scores in order.
pub open spec fn labeled_fits(
    games: Seq<GameModel>,
    ls: Seq<Seq<CandidateChoice>>,
    cache: Seq<Option<Seq<InferenceChoice>>>,
    scores: Seq<i64>,
) -> bool {
    &&& ls.len() == games.len()
    &&& cache.len() == games.len()
    &&& forall|k: int|
        0 <= k < games.len() ==> {
            &&& (#[trigger] cache[k]) == Some(ls[k].map_values(|x: CandidateChoice| inference_of(x)))
            &&& if games[k].top_out is Some {
                ls[k].len() == 0
            } else {
                enumeration_fits(games[k], games[k].config, DELLACHERIE_SCALED_WEIGHTS@, ls[k])
            }
        }
    &&& scores == flat_scores(ls, games.len())
}

/// The error, if any, that game `i`'s selection meets before it is applied.
pub open spec fn selection_error(cache: Option<Seq<InferenceChoice>>, sel: Option<usize>, i: int) -> Option<ClosedLoopError> {
    match cache {
        None => Some(ClosedLoopError::CandidatesNotRequested(i as usize)),
        Some(v) => if v.len() == 0 {
            if sel is Some {
                Some(ClosedLoopError::SelectionForDoneGame(i as usize))
            } else {
                None
            }
        } else {
            match sel {
                None => Some(ClosedLoopError::MissingSelection(i as usize)),
                Some(s) => if s >= v.len() {
                    Some(
                        ClosedLoopError::SelectionOutOfRange {
                            game: i as usize,
                            selected: s,
                            candidates: v.len() as usize,
                        },
                    )
                } else {
                    None
                },
            }
        },
    }
}

/// The first game among the first `n` whose selection is in error, or `n`.
pub open spec fn first_selection_error(
    cache: Seq<Option<Seq<InferenceChoice>>>,
    sels: Seq<Option<usize>>,
    n: nat,
) -> nat
    decreases n,
{
    if n == 0 {
        0
    } else {
        let k = first_selection_error(cache, sels, (n - 1) as nat);
        if k < n - 1 {
            k
        } else if selection_error(cache[n - 1], sels[n - 1], n - 1) is Some {
            (n - 1) as nat
        } else {
            n
        }
    }
}

proof fn lemma_first_selection_error(cache: Seq<Option<Seq<InferenceChoice>>>, sels: Seq<Option<usize>>, n: nat)
    ensures
        first_selection_error(cache, sels, n) <= n,
        forall|i: int| 0 <= i < first_selection_error(cache, sels, n) ==> #[trigger] selection_error(cache[i], sels[i], i) is None,
        first_selection_error(cache, sels, n) < n ==> selection_error(
            cache[first_selection_error(cache, sels, n) as int],
            sels[first_selection_error(cache, sels, n) as int],
            first_selection_error(cache, sels, n) as int,
        ) is Some,
    decreases n,
{
    if n > 0 {
        lemma_first_selection_error(cache, sels, (n - 1) as nat);
    }
}

/// Checks game `i`'s selection against its cached candidates: the error it
/// meets, no selection for a game without candidates, or the selected index.
fn check_selection(choice: &Option<Vec<InferenceChoice>>, sel: Option<usize>, i: usize) -> (r: Result<
    Option<usize>,
    ClosedLoopError,
>)
    ensures
        match r {
            Err(e) => selection_error(opt_view(*choice), sel, i as int) == Some(e),
            Ok(None) => selection_error(opt_view(*choice), sel, i as int) is None && opt_view(*choice) is Some
                && opt_view(*choice)->Some_0.len() == 0,
            Ok(Some(s)) => selection_error(opt_view(*choice), sel, i as int) is None && opt_view(*choice) is Some
                && sel == Some(s) && s < opt_view(*choice)->Some_0.len(),
        },
{
    let count = match choice {
        Some(v) => v.len(),
        None => {
            return Err(ClosedLoopError::CandidatesNotRequested(i));
        },
    };
    if count == 0 {
        if sel.is_some() {
            return Err(ClosedLoopError::SelectionForDoneGame(i));
        }
        return Ok(None);
    }
    match sel {
        Some(s) => if s >= count {
            Err(ClosedLoopError::SelectionOutOfRange { game: i, selected: s, candidates: count })
        } else {
            Ok(Some(s))
        },
        None => Err(ClosedLoopError::MissingSelection(i)),
    }
}

/// What one step does to the games and their caches, and what it returns:
/// the games before the first selection in error take their selections (a game
/// without candidates stays as it was), the rest are unchanged.
pub open spec fn step_fits(
    games0: Seq<GameModel>,
    cache0: Seq<Option<Seq<InferenceChoice>>>,
    sels: Seq<Option<usize>>,
    games1: Seq<GameModel>,
    cache1: Seq<Option<Seq<InferenceChoice>>>,
    r: Result<(), ClosedLoopError>,
) -> bool {
    let n = games0.len();
    let k = first_selection_error(cache0, sels, n) as int;
    &&& k < n ==> r == Err::<(), ClosedLoopError>(selection_error(cache0[k], sels[k], k)->Some_0)
    &&& k == n ==> r is Ok
    &&& forall|i: int| k <= i < n ==> #[trigger] games1[i] == games0[i] && cache1[i] == cache0[i]
    &&& forall|i: int|
        0 <= i < k ==> if cache0[i]->Some_0.len() == 0 {
            #[trigger] games1[i] == games0[i] && cache1[i] == cache0[i]
        } else {
            applied(games0[i], cache0[i]->Some_0[sels[i]->Some_0 as int], games1[i]) && cache1[i] is None
        }
}

/// A game at or before the first error whose selection is in order lies before it.
proof fn lemma_passes(cache: Seq<Option<Seq<InferenceChoice>>>, sels: Seq<Option<usize>>, n: nat, i: int)
    requires
        0 <= i < n,
        i <= first_selection_error(cache, sels, n),
        selection_error(cache[i], sels[i], i) is None,
    ensures
        i < first_selection_error(cache, sels, n),
{
    lemma_first_selection_error(cache, sels, n);
}

/// A game at or before the first error whose selection is in error is that first error.
proof fn lemma_stops_at(cache: Seq<Option<Seq<InferenceChoice>>>, sels: Seq<Option<usize>>, n: nat, i: int)
    requires
        0 <= i < n,
        i <= first_selection_error(cache, sels, n),
        selection_error(cache[i], sels[i], i) is Some,
    ensures
        first_selection_error(cache, sels, n) == i,
{
    lemma_first_selection_error(cache, sels, n);
}

/// A cached candidate of a playable game applies: holding succeeds when it is
/// used, and the placement is a lock target of the resulting game.
#[verifier::rlimit(30)]
proof fn lemma_cached_choice_applies(g: GameModel, v: Seq<InferenceChoice>, j: int)
    requires
        inference_fits(g, v),
        0 <= j < v.len(),
        g.top_out is None,
        g.pending_lock is None,
        g.all_locks_fit(),
    ensures
        v[j].used_hold ==> g.hold_available && (g.hold_step() is Ok) && !g.hold_step()->Ok_0.1.top_out,
        ({
            let g1 = if v[j].used_hold {
                g.hold_step()->Ok_0.0
            } else {
                g
            };
            &&& lock_target(g1.board.0, g1.active, v[j].placement)
            &&& g1.lock_error(v[j].placement) is None
            &&& g1.lock_fits(v[j].placement)
            &&& g1.top_out is None
            &&& g1.pending_lock is None
            &&& g1.board == g.board
            &&& g1.pieces_placed == g.pieces_placed
        }),
{
    reveal(inference_fits);
    let c = choose|c: Seq<CandidateChoice>|
        #[trigger] enumeration_fits(g, g.config, DELLACHERIE_SCALED_WEIGHTS@, c) && v == c.map_values(
            |x: CandidateChoice| inference_of(x),
        );
    let w = DELLACHERIE_SCALED_WEIGHTS@;
    let k = choose|k: int|
        0 <= k <= c.len() && #[trigger] crate::solo::block_fits(g, false, g.config, w, c.subrange(0, k))
            && crate::solo::held_block_fits(g, g.config, w, c.subrange(k, c.len() as int));
    assert(v[j] == inference_of(c[j]));
    if j < k {
        assert(c.subrange(0, k)[j] == c[j]);
    } else {
        assert(c.subrange(k, c.len() as int)[j - k] == c[j]);
    }
    let g1 = if v[j].used_hold {
        g.hold_step()->Ok_0.0
    } else {
        g
    };
    crate::reachability::lemma_lock_target_fits(g1.board.0, g1.active, v[j].placement);
    assert(g1.board == g.board);
    assert(g1.lock_fits(v[j].placement));
}

impl SoloBatch {
    /// Applies one selected candidate to every game that has any; a game
    /// without candidates takes no selection. Stops at the first game whose
    /// selection is in error.
    #[verifier::rlimit(100)]
    #[verifier::spinoff_prover]
    pub fn step(&mut self, selections: &[Option<usize>]) -> (r: Result<(), ClosedLoopError>)
        requires
            old(self).wf(),
            forall|i: int| 0 <= i < old(self).games_model().len() ==> (#[trigger] old(self).games_model()[i]).pieces_placed < u64::MAX,
        ensures
            final(self).wf(),
            final(self).games_model().len() == old(self).games_model().len(),
            selections@.len() != old(self).games_model().len() ==> (r matches Err(
                ClosedLoopError::SelectionCount { expected, actual },
            ) && expected == old(self).games_model().len() && actual == selections@.len()) && final(self).games_model()
                == old(self).games_model() && final(self).cache_model() == old(self).cache_model(),
            selections@.len() == old(self).games_model().len() ==> step_fits(
                old(self).games_model(),
                old(self).cache_model(),
                selections@,
                final(self).games_model(),
                final(self).cache_model(),
                r,
            ),
    {
        let n = self.games.len();
        if selections.len() != n {
            return Err(ClosedLoopError::SelectionCount { expected: n, actual: selections.len() });
        }
        let ghost games0 = self.games_model();
        let ghost cache0 = self.cache_model();
        proof {
            lemma_first_selection_error(cache0, selections@, n as nat);
        }
        let ghost k = first_selection_error(cache0, selections@, n as nat) as int;
        let mut i: usize = 0;
        while i < n
            invariant
                self.wf(),
                n == self.games@.len(),
                games0 == old(self).games_model(),
                cache0 == old(self).cache_model(),
                games0.len() == n,
                cache0.len() == n,
                selections@.len() == n,
                k == first_selection_error(cache0, selections@, n as nat),
                k <= n,
                forall|j: int| 0 <= j < k ==> #[trigger] selection_error(cache0[j], selections@[j], j) is None,
                k < n ==> selection_error(cache0[k], selections@[k], k) is Some,
                i <= k,
                forall|j: int| 0 <= j < n ==> (#[trigger] games0[j]).pieces_placed < u64::MAX,
                self.games_model().len() == n,
                self.cache_model().len() == n,
                forall|j: int|
                    i <= j < n ==> #[trigger] self.games_model()[j] == games0[j] && self.cache_model()[j] == cache0[j],
                forall|j: int|
                    0 <= j < i ==> if cache0[j]->Some_0.len() == 0 {
                        #[trigger] self.games_model()[j] == games0[j] && self.cache_model()[j] == cache0[j]
                    } else {
                        applied(games0[j], cache0[j]->Some_0[selections@[j]->Some_0 as int], self.games_model()[j])
                            && self.cache_model()[j] is None
                    },
            decreases n - i,
        {
            proof {
                assert(self.cache_model()[i as int] == opt_view(self.choices@[i as int]));
                assert(self.games_model()[i as int] == self.games@[i as int]@);
            }
            let selected = match check_selection(&self.choices[i], selections[i], i) {
                Err(e) => {
                    proof {
                        lemma_stops_at(cache0, selections@, n as nat, i as int);
                        assert(e == selection_error(cache0[k], selections@[k], k)->Some_0);
                        assert(step_fits(games0, cache0, selections@, self.games_model(), self.cache_model(), Err(e)));
                    }
                    return Err(e);
                },
                Ok(None) => {
                    proof {
                        lemma_passes(cache0, selections@, n as nat, i as int);
                        assert forall|j: int| i < j < n implies #[trigger] self.games_model()[j] == games0[j]
                            && self.cache_model()[j] == cache0[j] by {}
                    }
                    i += 1;
                    continue;
                },
                Ok(Some(s)) => {
                    proof {
                        lemma_passes(cache0, selections@, n as nat, i as int);
                    }
                    s
                },
            };
            proof {
                assert(i < k);
            }
            let ghost pre_games = self.games_model();
            let ghost pre_cache = self.cache_model();
            self.apply_at(i, selected);
            proof {
                assert forall|j: int| i < j < n implies #[trigger] self.games_model()[j] == games0[j]
                    && self.cache_model()[j] == cache0[j] by {
                    assert(pre_games[j] == games0[j]);
                }
                assert forall|j: int| 0 <= j < i implies #[trigger] self.games_model()[j] == pre_games[j]
                    && self.cache_model()[j] == pre_cache[j] by {}
            }
            i += 1;
        }
        Ok(())
    }

    /// Applies cached candidate `selected` to game `i` and clears its cache.
    #[verifier::rlimit(50)]
    fn apply_at(&mut self, i: usize, selected: usize)
        requires
            old(self).wf(),
            i < old(self).games_model().len(),
            old(self).games_model()[i as int].pieces_placed < u64::MAX,
            old(self).cache_model()[i as int] is Some,
            selected < old(self).cache_model()[i as int]->Some_0.len(),
        ensures
            final(self).wf(),
            final(self).games_model().len() == old(self).games_model().len(),
            final(self).cache_model().len() == old(self).cache_model().len(),
            applied(
                old(self).games_model()[i as int],
                old(self).cache_model()[i as int]->Some_0[selected as int],
                final(self).games_model()[i as int],
            ),
            final(self).games_model() == old(self).games_model().update(i as int, final(self).games_model()[i as int]),
            final(self).cache_model() == old(self).cache_model().update(i as int, None),
    {
        proof {
            assert(self.cache_model()[i as int] == opt_view(self.choices@[i as int]));
            assert(self.games_model()[i as int] == self.games@[i as int]@);
        }
        let choice = match &self.choices[i] {
            Some(v) => v[selected],
            None => {
                vstd::pervasive::unreached()
            },
        };
        proof {
            let g = old(self).games_model()[i as int];
            if g.top_out is Some {
                assert(old(self).cache_model()[i as int]->Some_0.len() == 0);
            }
            lemma_cached_choice_applies(g, old(self).cache_model()[i as int]->Some_0, selected as int);
        }
        let ghost games_before = self.games@;
        let ghost choices_before = self.choices@;
        let ghost model_before = self.games_model();
        let ghost cache_before = self.cache_model();
        let mut game = self.games.remove(i);
        if choice.used_hold {
            match game.hold_active() {
                Ok(_) => {},
                Err(_) => {
                    vstd::pervasive::unreached()
                },
            }
        }
        proof {
            game.lemma_wf_facts();
        }
        let ghost g1 = game@;
        let outcome = match game.lock_placement_with_action(choice.placement, choice.last_action) {
            Ok(o) => o,
            Err(_) => {
                vstd::pervasive::unreached()
            },
        };
        proof {
            game.lemma_wf_facts();
            game.lemma_settled_locks_fit();
        }
        self.games.insert(i, game);
        self.choices.set(i, None);
        proof {
            assert(self.games@ =~= games_before.update(i as int, game));
            assert(self.choices@ =~= choices_before.update(i as int, None));
            assert(self.games_model() =~= model_before.update(i as int, game@));
            assert(self.cache_model() =~= cache_before.update(i as int, None));
            assert(g1.after_lock(choice.placement, locked_of(outcome)).finish_step() == Ok::<
                (GameModel, PlacementOutcome),
                GameError,
            >((self.games_model()[i as int], outcome)));
            let g = model_before[i as int];
            let ch = cache_before[i as int]->Some_0[selected as int];
            assert(ch == choice);
            assert(ch.used_hold ==> g.hold_step() is Ok);
            assert(g1 == (if ch.used_hold { g.hold_step()->Ok_0.0 } else { g }));
            assert(g1.lock_error(ch.placement) is None);
            assert(g1.locked_facts(ch.placement, ch.last_action, locked_of(outcome)));
            let gh = if ch.used_hold {
                g.hold_step()->Ok_0.0
            } else {
                g
            };
            assert(gh.locked_facts(ch.placement, ch.last_action, locked_of(outcome)) && gh.after_lock(
                ch.placement,
                locked_of(outcome),
            ).finish_step() == Ok::<(GameModel, PlacementOutcome), GameError>((self.games_model()[i as int], outcome)));
            assert(applied(g, ch, self.games_model()[i as int]));
            assert(g == old(self).games_model()[i as int]);
            assert(ch == old(self).cache_model()[i as int]->Some_0[selected as int]);
        }
    }

    /// The visible part of game `index`: rows, pieces and counters.
    pub fn snapshot(&self, index: usize) -> (r: Result<SoloSnapshot, ClosedLoopError>)
        requires
            self.wf(),
        ensures
            index >= self.games_model().len() ==> (r matches Err(ClosedLoopError::GameOutOfRange { selected, games })
                && selected == index && games == self.games_model().len()),
            index < self.games_model().len() ==> (r matches Ok(snap) && snapshot_fits(
                self.games_model()[index as int],
                snap,
            )),
    {
        if index >= self.games.len() {
            return Err(ClosedLoopError::GameOutOfRange { selected: index, games: self.games.len() });
        }
        let game = &self.games[index];
        proof {
            assert(self.games_model()[index as int] == game@);
        }
        let board = game.board();
        let queue = game.preview();
        let mut preview: Vec<String> = Vec::new();
        let mut i: usize = 0;
        while i < queue.len()
            invariant
                i <= queue@.len(),
                preview@.len() == i,
                forall|j: int| 0 <= j < i ==> (#[trigger] preview@[j])@ == piece_letter(queue@[j]),
            decreases queue@.len() - i,
        {
            preview.push(String::from_str(piece_text(queue[i])));
            i += 1;
        }
        let hold = match game.hold() {
            Some(k) => Some(String::from_str(piece_text(k))),
            None => None,
        };
        Ok(
            SoloSnapshot {
                board_rows: visible_rows(board.rows()),
                garbage_rows: visible_rows(board.garbage_rows()),
                active: String::from_str(piece_text(game.active().kind)),
                hold,
                preview,
                pieces_placed: game.pieces_placed(),
                top_out: game.is_top_out(),
            },
        )
    }
}

/// The visible rows, hold, active piece and preview of a game, with its
/// placed-piece count and top-out flag.
pub open spec fn snapshot_fits(g: GameModel, s: SoloSnapshot) -> bool {
    &&& s.board_rows@ == g.board.0.take(VISIBLE_HEIGHT as int)
    &&& s.garbage_rows@ == g.board.1.take(VISIBLE_HEIGHT as int)
    &&& s.active@ == piece_letter(g.active.kind)
    &&& match (s.hold, g.hold) {
        (None, None) => true,
        (Some(h), Some(k)) => h@ == piece_letter(k),
        _ => false,
    }
    &&& s.preview@.len() == g.queue.len()
    &&& forall|i: int| 0 <= i < g.queue.len() ==> (#[trigger] s.preview@[i])@ == piece_letter(g.queue[i])
    &&& s.pieces_placed == g.pieces_placed
    &&& s.top_out == (g.top_out is Some)
}

fn piece_text(kind: crate::piece::PieceKind) -> (r: &'static str)
    ensures
        r@ == piece_letter(kind),
{
    match kind {
        crate::piece::PieceKind::I => "I",
        crate::piece::PieceKind::O => "O",
        crate::piece::PieceKind::T => "T",
        crate::piece::PieceKind::S => "S",
        crate::piece::PieceKind::Z => "Z",
        crate::piece::PieceKind::J => "J",
        crate::piece::PieceKind::L => "L",
    }
}

fn visible_rows(rows: &[u16; HEIGHT]) -> (r: Vec<u16>)
    ensures
        r@ == rows@.take(VISIBLE_HEIGHT as int),
{
    let mut out: Vec<u16> = Vec::new();
    let mut i: usize = 0;
    while i < VISIBLE_HEIGHT
        invariant
            i <= VISIBLE_HEIGHT,
            out@ == rows@.take(i as int),
        decreases VISIBLE_HEIGHT - i,
    {
        out.push(rows[i]);
        proof {
            assert(rows@.take(i + 1) =~= rows@.take(i as int).push(rows@[i as int]));
        }
        i += 1;
    }
    out
}

/// One decision of a solo rollout: the observation, the ranked candidates,
/// the chosen one and its lead over the runner-up.
#[derive(Clone, Debug)]
pub struct SoloDecision {
    pub ply: u32,
    pub observation: ObservationRecord,
    pub candidates: Vec<CandidateChoice>,
    pub chosen_index: u16,
    pub top_two_margin: i64,
}

/// The game after a dataset decision: hold when the candidate used it, then
/// the plain lock of the candidate's placement and the next spawn.
pub open spec fn decision_applied(g: GameModel, c: CandidateChoice, g2: GameModel) -> bool {
    let g1 = if c.record.action.hold {
        g.hold_step()->Ok_0.0
    } else {
        g
    };
    &&& c.record.action.hold ==> g.hold_step() is Ok
    &&& g1.lock_error(c.placement) is None
    &&& exists|o: PlacementOutcome|
        #![trigger locked_of(o)]
        g1.locked_facts(c.placement, LastAction::NoAction, locked_of(o)) && g1.after_lock(c.placement, locked_of(o)).finish_step()
            == Ok::<(GameModel, PlacementOutcome), GameError>((g2, o))
}

/// Decision `d` at ply `ply` was taken on `g` and led to `g2`: the game was
/// live, the observation shows it, the candidates are its Dellacherie
/// enumeration ranked, and the chosen candidate was applied.
pub open spec fn decision_fits(g: GameModel, d: SoloDecision, ply: int, g2: GameModel) -> bool {
    &&& d.ply == ply
    &&& g.top_out is None
    &&& observation_fits(g, d.observation)
    &&& exists|pre: Seq<CandidateChoice>|
        #[trigger] enumeration_fits(g, g.config, DELLACHERIE_SCALED_WEIGHTS@, pre) && ranking_fits(
            pre,
            d.candidates@,
            d.chosen_index,
            d.top_two_margin,
        )
    &&& d.chosen_index < d.candidates@.len()
    &&& decision_applied(g, d.candidates@[d.chosen_index as int], g2)
}

/// `gs` are the games a rollout from `seed` passed through, one more than
/// the decisions `v` taken on them.
pub open spec fn rollout_prefix_fits(seed: u64, gs: Seq<GameModel>, v: Seq<SoloDecision>) -> bool {
    &&& gs.len() == v.len() + 1
    &&& is_default_config(gs[0].config)
    &&& gs[0] == fresh_game(
        seed,
        gs[0].config,
        (Seq::new(HEIGHT as nat, |i: int| 0u16), Seq::new(HEIGHT as nat, |i: int| 0u16)),
    )
    &&& forall|i: int| 0 <= i < v.len() ==> #[trigger] decision_fits(gs[i], v[i], i, gs[i + 1])
}

/// A complete rollout: at most `decisions` decisions, and fewer only when the
/// last game topped out or has no candidate.
pub open spec fn rollout_fits(seed: u64, decisions: u32, gs: Seq<GameModel>, v: Seq<SoloDecision>) -> bool {
    &&& rollout_prefix_fits(seed, gs, v)
    &&& v.len() <= decisions
    &&& v.len() < decisions ==> gs.last().top_out is Some || exists|c: Seq<CandidateChoice>|
        #[trigger] enumeration_fits(gs.last(), gs.last().config, DELLACHERIE_SCALED_WEIGHTS@, c) && c.len() == 0
}

/// Every candidate of a Dellacherie enumeration scores within a bound whose
/// double fits an `i64`.
#[verifier::rlimit(40)]
#[verifier::spinoff_prover]
proof fn lemma_enumerated_scores(g: GameModel, v: Seq<CandidateChoice>)
    requires
        enumeration_fits(g, g.config, DELLACHERIE_SCALED_WEIGHTS@, v),
    ensures
        forall|i: int|
            0 <= i < v.len() ==> -214_749_364_800_000 <= #[trigger] v[i].record.teacher_score <= 214_749_364_800_000,
{
    let w = DELLACHERIE_SCALED_WEIGHTS@;
    let k = choose|k: int|
        0 <= k <= v.len() && #[trigger] block_fits(g, false, g.config, w, v.subrange(0, k)) && held_block_fits(
            g,
            g.config,
            w,
            v.subrange(k, v.len() as int),
        );
    assert forall|i: int| 0 <= i < v.len() implies -214_749_364_800_000 <= #[trigger] v[i].record.teacher_score
        <= 214_749_364_800_000 by {
        let c = v[i];
        if i < k {
            assert(v.subrange(0, k)[i] == c);
            assert(candidate_fits(g, false, g.config, w, c));
        } else {
            assert(v.subrange(k, v.len() as int)[i - k] == c);
            let h = g.hold_step()->Ok_0.0;
            assert(candidate_fits(h, true, g.config, w, c));
        }
        lemma_dellacherie_never_overflows(c.record.features@);
    }
}

/// One decision on a live game: observe, enumerate, rank, then hold if the
/// chosen candidate holds and lock it. `None` when the game has no candidate.
#[verifier::rlimit(60)]
#[verifier::spinoff_prover]
fn decide_once(game: &mut GameState, ply: u32, config: GameConfig) -> (r: Result<Option<SoloDecision>, GenerationError>)
    requires
        old(game).wf(),
        is_default_config(config),
        old(game)@.config == config,
        old(game)@.pending_lock is None,
        old(game)@.top_out is None,
        old(game)@.all_locks_fit(),
        old(game)@.pieces_placed < u64::MAX,
    ensures
        final(game).wf(),
        final(game)@.config == old(game)@.config,
        match r {
            Ok(Some(d)) => decision_fits(old(game)@, d, ply as int, final(game)@) && final(game)@.pending_lock is None
                && final(game)@.all_locks_fit() && final(game)@.pieces_placed == old(game)@.pieces_placed + 1,
            Ok(None) => final(game)@ == old(game)@ && exists|c: Seq<CandidateChoice>|
                #[trigger] enumeration_fits(old(game)@, old(game)@.config, DELLACHERIE_SCALED_WEIGHTS@, c) && c.len()
                    == 0,
            Err(e) => e == GenerationError::CandidateCountOverflow(65536) && exists|c: Seq<CandidateChoice>|
                #[trigger] enumeration_fits(old(game)@, old(game)@.config, DELLACHERIE_SCALED_WEIGHTS@, c) && c.len()
                    > 65536,
        },
{
    let observation = observation_record(game);
    let mut choices = match labeled_for(game, config) {
        Ok(v) => v,
        Err(_) => {
            proof {
                assert(false);
            }
            return Err(GenerationError::NoCandidates);
        },
    };
    if choices.len() == 0 {
        return Ok(None);
    }
    let ghost pre = choices@;
    if choices.len() > 65536 {
        return Err(GenerationError::CandidateCountOverflow(65536));
    }
    proof {
        lemma_enumerated_scores(game@, pre);
    }
    let (chosen_index, margin) = match rank_candidates(&mut choices) {
        Ok(v) => v,
        Err(_) => {
            proof {
                assert(false);
            }
            return Err(GenerationError::NoCandidates);
        },
    };
    let chosen = choices[chosen_index as usize].placement;
    let hold = choices[chosen_index as usize].record.action.hold;
    let ghost g0 = game@;
    proof {
        reveal(inference_fits);
        let inf = pre.map_values(|x: CandidateChoice| inference_of(x));
        assert(inference_fits(g0, inf));
        lemma_cached_choice_applies(g0, inf, chosen_index as int);
        assert(inf[chosen_index as int] == inference_of(pre[chosen_index as int]));
        assert(choices@[chosen_index as int].placement == pre[chosen_index as int].placement);
        assert(choices@[chosen_index as int].record.action == pre[chosen_index as int].record.action);
    }
    if hold {
        match game.hold_active() {
            Ok(_) => {},
            Err(_) => {
                proof {
                    assert(false);
                }
                return Err(GenerationError::NoCandidates);
            },
        }
    }
    match game.lock_placement(chosen) {
        Ok(_) => {},
        Err(_) => {
            proof {
                assert(false);
            }
            return Err(GenerationError::NoCandidates);
        },
    }
    proof {
        game.lemma_wf_facts();
        game.lemma_settled_locks_fit();
    }
    Ok(Some(SoloDecision { ply, observation, candidates: choices, chosen_index, top_two_margin: margin }))
}

/// Plays one deterministic solo match from `seed` with the Dellacherie
/// teacher: before each decision it observes the game, enumerates and ranks
/// the candidates, then holds if the chosen candidate holds and locks it. It
/// stops after `decisions` decisions, at a top-out, or when no candidate is
/// left.
pub fn solo_match_decisions(seed: u64, decisions: u32) -> (r: Result<Vec<SoloDecision>, GenerationError>)
    ensures
        match r {
            Ok(v) => exists|gs: Seq<GameModel>| #[trigger] rollout_fits(seed, decisions, gs, v@),
            Err(e) => e == GenerationError::CandidateCountOverflow(65536) && exists|
                gs: Seq<GameModel>,
                v: Seq<SoloDecision>,
                c: Seq<CandidateChoice>,
            |
                #![trigger rollout_prefix_fits(seed, gs, v), enumeration_fits(gs.last(), gs.last().config, DELLACHERIE_SCALED_WEIGHTS@, c)]
                rollout_prefix_fits(seed, gs, v) && v.len() < decisions && gs.last().top_out is None
                    && enumeration_fits(gs.last(), gs.last().config, DELLACHERIE_SCALED_WEIGHTS@, c) && c.len()
                    > 65536,
        },
{
    let config = GameConfig::default();
    proof {
        lemma_tetrio_order_is_permutation();
    }
    let mut game = match GameState::new(seed, config) {
        Ok(g) => g,
        Err(_) => {
            proof {
                assert(false);
            }
            return Err(GenerationError::NoCandidates);
        },
    };
    proof {
        lemma_empty_locks_fit(game@);
    }
    let mut out: Vec<SoloDecision> = Vec::new();
    let ghost mut gs: Seq<GameModel> = seq![game@];
    let mut ply: u32 = 0;
    let mut stop = false;
    while ply < decisions && !stop
        invariant
            game.wf(),
            is_default_config(config),
            game@.config == config,
            game@.pending_lock is None,
            game@.all_locks_fit(),
            game@.pieces_placed == ply,
            ply <= decisions,
            out@.len() == ply,
            gs.len() == out@.len() + 1,
            gs.last() == game@,
            rollout_prefix_fits(seed, gs, out@),
            stop ==> ply < decisions && (game@.top_out is Some || exists|c: Seq<CandidateChoice>|
                #[trigger] enumeration_fits(game@, game@.config, DELLACHERIE_SCALED_WEIGHTS@, c) && c.len() == 0),
        decreases decisions - ply, (if stop { 0int } else { 1int }),
    {
        if game.is_top_out() {
            stop = true;
        } else {
            let ghost g0 = game@;
            match decide_once(&mut game, ply, config) {
                Ok(Some(d)) => {
                    proof {
                        let gs2 = gs.push(game@);
                        let out2 = out@.push(d);
                        assert forall|i: int| 0 <= i < out2.len() implies #[trigger] decision_fits(
                            gs2[i],
                            out2[i],
                            i,
                            gs2[i + 1],
                        ) by {
                            if i < out@.len() {
                                assert(decision_fits(gs[i], out@[i], i, gs[i + 1]));
                            }
                        }
                        assert(gs2[0] == gs[0]);
                        gs = gs2;
                    }
                    out.push(d);
                    ply = ply + 1;
                },
                Ok(None) => {
                    stop = true;
                },
                Err(e) => {
                    proof {
                        let c = choose|c: Seq<CandidateChoice>|
                            #[trigger] enumeration_fits(g0, g0.config, DELLACHERIE_SCALED_WEIGHTS@, c) && c.len() > 65536;
                        assert(rollout_prefix_fits(seed, gs, out@));
                        assert(enumeration_fits(gs.last(), gs.last().config, DELLACHERIE_SCALED_WEIGHTS@, c));
                    }
                    return Err(e);
                },
            }
        }
    }
    let r: Result<Vec<SoloDecision>, GenerationError> = Ok(out);
    proof {
        assert(rollout_fits(seed, decisions, gs, out@));
        assert(r matches Ok(v) && v@ == out@);
        assert(exists|gs2: Seq<GameModel>| #[trigger] rollout_fits(seed, decisions, gs2, out@));
    }
    r
}

/// The dataset record of one rollout decision.
pub fn decision_record(
    rules_hash: String,
    engine_revision: String,
    match_id: String,
    seed: u64,
    observation_hash: String,
    teacher: crate::solo::TeacherRecord,
    decision: SoloDecision,
) -> (r: crate::solo::DecisionRecord)
    ensures
        r.schema_version@ == crate::solo::DATASET_SCHEMA_VERSION@,
        r.rules_hash == rules_hash,
        r.engine_revision == engine_revision,
        r.mechanics_status@ == crate::solo::MECHANICS_STATUS@,
        r.action_space@ == crate::solo::ACTION_SPACE_ID@,
        r.match_id == match_id,
        r.seed == seed,
        r.ply == decision.ply,
        r.observation_hash == observation_hash,
        r.observation == decision.observation,
        r.teacher == teacher,
        r.candidates@ == decision.candidates@.map_values(|c: CandidateChoice| c.record),
        r.chosen_index == decision.chosen_index,
        r.top_two_margin == decision.top_two_margin,
        r.terminal_outcome is None,
{
    let ghost all = decision.candidates@;
    let mut rest = decision.candidates;
    let mut records: Vec<crate::solo::CandidateRecord> = Vec::new();
    while rest.len() > 0
        invariant
            records@.len() + rest@.len() == all.len(),
            rest@ == all.skip(records@.len() as int),
            records@ == all.take(records@.len() as int).map_values(|c: CandidateChoice| c.record),
        decreases rest@.len(),
    {
        let ghost n = records@.len();
        let c = rest.remove(0);
        records.push(c.record);
        proof {
            assert(rest@ =~= all.skip((n + 1) as int));
            assert(records@ =~= all.take((n + 1) as int).map_values(|c: CandidateChoice| c.record));
        }
    }
    proof {
        assert(all.take(all.len() as int) =~= all);
    }
    crate::solo::DecisionRecord {
        schema_version: String::from_str(crate::solo::DATASET_SCHEMA_VERSION),
        rules_hash,
        engine_revision,
        mechanics_status: String::from_str(crate::solo::MECHANICS_STATUS),
        action_space: String::from_str(crate::solo::ACTION_SPACE_ID),
        match_id,
        seed,
        ply: decision.ply,
        observation_hash,
        observation: decision.observation,
        teacher,
        candidates: records,
        chosen_index: decision.chosen_index,
        top_two_margin: decision.top_two_margin,
        terminal_outcome: None,
    }
}

/// The dataset manifest: the records' digest names the dataset, and the
/// candidate counts are zero when no decision was written.
pub fn dataset_manifest(
    records_sha256: String,
    records_file: String,
    rules_hash: String,
    engine_revision: String,
    teacher: crate::solo::TeacherRecord,
    schedule: (u64, u64, u32, u32),
    decisions: u64,
    candidate_range: (u16, u16),
) -> (r: crate::solo::DatasetManifest)
    ensures
        r.schema_version@ == crate::solo::DATASET_SCHEMA_VERSION@,
        r.dataset_id == records_sha256,
        r.records_sha256 == records_sha256,
        r.records_file == records_file,
        r.rules_id@ == crate::solo::RULES_ID@,
        r.rules_hash == rules_hash,
        r.engine_revision == engine_revision,
        r.mechanics_status@ == crate::solo::MECHANICS_STATUS@,
        r.action_space@ == crate::solo::ACTION_SPACE_ID@,
        r.feature_names@.len() == FEATURE_COUNT,
        forall|i: int| 0 <= i < FEATURE_COUNT ==> (#[trigger] r.feature_names@[i])@ == crate::features::FEATURE_NAMES@[i]@,
        r.teacher == teacher,
        r.base_seed == schedule.0,
        r.seed_stride == schedule.1,
        r.requested_matches == schedule.2,
        r.completed_matches == schedule.2,
        r.requested_decisions_per_match == schedule.3,
        r.decisions == decisions,
        r.min_candidates == (if decisions == 0 { 0 } else { candidate_range.0 }),
        r.max_candidates == candidate_range.1,
{
    let mut feature_names: Vec<String> = Vec::new();
    let mut i: usize = 0;
    while i < FEATURE_COUNT
        invariant
            i <= FEATURE_COUNT,
            feature_names@.len() == i,
            forall|j: int| 0 <= j < i ==> (#[trigger] feature_names@[j])@ == crate::features::FEATURE_NAMES@[j]@,
        decreases FEATURE_COUNT - i,
    {
        feature_names.push(String::from_str(crate::features::FEATURE_NAMES[i]));
        i += 1;
    }
    let dataset_id = records_sha256.clone();
    crate::solo::DatasetManifest {
        schema_version: String::from_str(crate::solo::DATASET_SCHEMA_VERSION),
        dataset_id,
        records_sha256,
        records_file,
        rules_id: String::from_str(crate::solo::RULES_ID),
        rules_hash,
        engine_revision,
        mechanics_status: String::from_str(crate::solo::MECHANICS_STATUS),
        action_space: String::from_str(crate::solo::ACTION_SPACE_ID),
        feature_names,
        teacher,
        base_seed: schedule.0,
        seed_stride: schedule.1,
        requested_matches: schedule.2,
        completed_matches: schedule.2,
        requested_decisions_per_match: schedule.3,
        decisions,
        min_candidates: if decisions == 0 { 0 } else { candidate_range.0 },
        max_candidates: candidate_range.1,
    }
}

} // verus!
