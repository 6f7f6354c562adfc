use vstd::prelude::*;
use vstd::string::*;
use vstd::std_specs::convert::FromSpecImpl;
use crate::board::{Board, hits};
use crate::game::{
    GameConfig, GameError, GameModel, GameState, InitialActionOutcome, LockedPlacement, PlacementOutcome, fresh_game,
    locked_of,
};
use crate::handling::{
    HandlingRules, HandlingState, InitialActions, InputEdge, NormalizedFrame, initial_actions_on_spawn, normalize_frame,
    normalize_spec, on_spawn_spec,
};
use crate::rng::is_permutation_of_all;
use crate::timing::{
    FrameInput, FrameOutcome, LastAction, TimingRules, TimingState, TimingStepError, frame_spec, new_state_spec, step_frame,
};

verus! {

#[derive(Clone, Debug, PartialEq, Eq)]
pub struct SessionFrameOutcome {
    pub frame: u64,
    pub normalized: NormalizedFrame,
    pub timing: Option<FrameOutcome>,
    pub placement: Option<PlacementOutcome>,
    pub hold_applied: bool,
    pub spawned_initial: Option<InitialActionOutcome>,
    pub terminal: bool,
}

/// One frame that stops at a lock: the lock is reported and the next spawn
/// waits for the caller.
#[derive(Clone, Debug, PartialEq, Eq)]
pub struct SessionLockFrameOutcome {
    pub frame: u64,
    pub normalized: NormalizedFrame,
    pub timing: Option<FrameOutcome>,
    pub locked: Option<LockedPlacement>,
    pub hold_applied: bool,
    pub terminal: bool,
}

/// The spawn that completes a deferred lock, and the initial actions held
/// at it.
#[derive(Clone, Copy, Debug, PartialEq, Eq)]
pub struct SessionSpawnOutcome {
    pub placement: PlacementOutcome,
    pub initial: Option<InitialActionOutcome>,
}

#[derive(Clone, Copy, Debug, PartialEq, Eq, Structural)]
pub enum SessionStepError {
    Game(GameError),
    Timing(TimingStepError),
}

impl SessionStepError {
    /// The message as text.
    pub open spec fn text(&self) -> Seq<char> {
        match self {
            SessionStepError::Game(e) => e.text(),
            SessionStepError::Timing(TimingStepError::AlreadyLocked) => "timing step failed: AlreadyLocked"@,
            SessionStepError::Timing(TimingStepError::CollidingPiece) => "timing step failed: CollidingPiece"@,
            SessionStepError::Timing(TimingStepError::FallArithmeticOverflow) => "timing step failed: FallArithmeticOverflow"@,
            SessionStepError::Timing(TimingStepError::InvalidFallFraction) => "timing step failed: InvalidFallFraction"@,
        }
    }

    pub fn message(&self) -> (r: String)
        ensures
            r@ == self.text(),
    {
        match self {
            SessionStepError::Game(e) => e.message(),
            SessionStepError::Timing(TimingStepError::AlreadyLocked) => String::from_str(
                "timing step failed: AlreadyLocked",
            ),
            SessionStepError::Timing(TimingStepError::CollidingPiece) => String::from_str(
                "timing step failed: CollidingPiece",
            ),
            SessionStepError::Timing(TimingStepError::FallArithmeticOverflow) => String::from_str(
                "timing step failed: FallArithmeticOverflow",
            ),
            SessionStepError::Timing(TimingStepError::InvalidFallFraction) => String::from_str(
                "timing step failed: InvalidFallFraction",
            ),
        }
    }
}

impl From<GameError> for SessionStepError {
    fn from(error: GameError) -> (r: Self) {
        SessionStepError::Game(error)
    }
}

impl FromSpecImpl<GameError> for SessionStepError {
    open spec fn obeys_from_spec() -> bool {
        true
    }

    open spec fn from_spec(error: GameError) -> SessionStepError {
        SessionStepError::Game(error)
    }
}

impl From<TimingStepError> for SessionStepError {
    fn from(error: TimingStepError) -> (r: Self) {
        SessionStepError::Timing(error)
    }
}

impl FromSpecImpl<TimingStepError> for SessionStepError {
    open spec fn obeys_from_spec() -> bool {
        true
    }

    open spec fn from_spec(error: TimingStepError) -> SessionStepError {
        SessionStepError::Timing(error)
    }
}

/// Abstract state of a session.
pub struct SessionModel {
    pub game: GameModel,
    pub timing: Option<TimingState>,
    pub handling: HandlingState,
    pub frame: u64,
}

pub open spec fn next_frame(f: u64) -> u64 {
    if f == u64::MAX {
        f
    } else {
        (f + 1) as u64
    }
}

/// A normalized frame carries the normalized actions and hold request.
pub open spec fn normalized_is(n: NormalizedFrame, v: (HandlingState, Seq<FrameInput>, bool, Option<usize>)) -> bool {
    n.actions@ == v.1 && n.hold_requested == v.2 && n.hold_action_index == v.3
}

/// The action recorded for a freshly spawned piece: its initial rotation, if any.
pub open spec fn spawn_action(io: InitialActionOutcome) -> LastAction {
    match io.rotation {
        Some(res) => LastAction::Rotation { direction: res.direction, kick_index: res.kick_index },
        None => LastAction::NoAction,
    }
}

/// The timing state a piece enters play with.
pub open spec fn entry_timing(g: GameModel, piece_action: LastAction) -> Option<TimingState> {
    if g.top_out is Some {
        None
    } else {
        Some(new_state_spec(g.board.0, g.active, piece_action, 0)->Ok_0)
    }
}

impl SessionModel {
    /// The state and result of one session frame.
    pub open spec fn step_post(
        self,
        timing_rules: TimingRules,
        handling_rules: HandlingRules,
        edges: Seq<InputEdge>,
        new: SessionModel,
        r: Result<SessionFrameOutcome, SessionStepError>,
    ) -> bool {
        let nv = normalize_spec(self.handling, handling_rules, edges);
        let h1 = nv.0;
        let hold_applied = nv.2 && self.game.hold_available;
        let g1 = if hold_applied {
            self.game.hold_step()->Ok_0.0
        } else {
            self.game
        };
        let t1 = if hold_applied {
            entry_timing(g1, LastAction::NoAction)
        } else {
            self.timing
        };
        if self.timing is None {
            r == Err::<SessionFrameOutcome, SessionStepError>(SessionStepError::Game(GameError::GameOver)) && new == self
        } else if t1 is None {
            &&& new == SessionModel { game: g1, timing: None, handling: h1, frame: next_frame(self.frame) }
            &&& r matches Ok(out)
            &&& normalized_is(out.normalized, nv)
            &&& out.frame == self.frame
            &&& out.timing is None
            &&& out.placement is None
            &&& out.hold_applied
            &&& out.spawned_initial is None
            &&& out.terminal
        } else {
            match frame_spec(g1.board.0, t1->Some_0, timing_rules, nv.1) {
                Err(e) => r == Err::<SessionFrameOutcome, SessionStepError>(SessionStepError::Timing(e)) && new
                    == SessionModel { game: g1, timing: t1, handling: h1, frame: self.frame },
                Ok((ts, to)) => if !to.locked {
                    &&& new == SessionModel { game: g1, timing: Some(ts), handling: h1, frame: next_frame(self.frame) }
                    &&& r matches Ok(out)
                    &&& normalized_is(out.normalized, nv)
                    &&& out.frame == self.frame
                    &&& out.timing == Some(to)
                    &&& out.placement is None
                    &&& out.hold_applied == hold_applied
                    &&& out.spawned_initial is None
                    &&& !out.terminal
                } else {
                    match g1.lock_error(to.piece) {
                        Some(e) => r == Err::<SessionFrameOutcome, SessionStepError>(SessionStepError::Game(e)) && new
                            == SessionModel { game: g1, timing: Some(ts), handling: h1, frame: self.frame },
                        None => {
                            &&& r matches Ok(out)
                            &&& normalized_is(out.normalized, nv)
                            &&& out.frame == self.frame
                            &&& out.timing == Some(to)
                            &&& out.hold_applied == hold_applied
                            &&& out.placement matches Some(o)
                            &&& g1.locked_facts(to.piece, to.last_action, locked_of(o))
                            &&& g1.after_lock(to.piece, locked_of(o)).finish_step() matches Ok((g2, o2))
                            &&& o2 == o
                            &&& if o.top_out {
                                &&& new == SessionModel { game: g2, timing: None, handling: h1, frame: next_frame(self.frame) }
                                &&& out.spawned_initial is None
                                &&& out.terminal
                            } else {
                                let h2 = on_spawn_spec(h1, handling_rules);
                                let init = InitialActions {
                                    hold_requested: h1.held_spec().3,
                                    rotation: h1.held_spec().4,
                                };
                                &&& g2.initial_step(init, false) matches Ok((g3, io))
                                &&& out.spawned_initial == Some(io)
                                &&& new == SessionModel {
                                    game: g3,
                                    timing: entry_timing(g3, spawn_action(io)),
                                    handling: h2,
                                    frame: next_frame(self.frame),
                                }
                                &&& out.terminal == io.top_out
                            }
                        },
                    }
                },
            }
        }
    }
}

/// Continuous generic game session joining input handling, frame timing, lock,
/// queue/hold, and next-piece spawn transitions.
///
/// The session is deterministic but not itself a TETR.IO conformance claim.
/// A versioned adapter still determines exact same-frame command ordering and
/// supplies the effective rules for each frame.
#[derive(Clone, Debug, PartialEq, Eq)]
pub struct FrameSession {
    game: GameState,
    timing: Option<TimingState>,
    handling: HandlingState,
    frame: u64,
}

impl View for FrameSession {
    type V = SessionModel;

    closed spec fn view(&self) -> SessionModel {
        SessionModel { game: self.game@, timing: self.timing, handling: self.handling, frame: self.frame }
    }
}

impl FrameSession {
    /// A well-formed session's falling piece fits its board and has
    /// representable cells.
    pub proof fn lemma_wf_timing(&self)
        requires
            self.wf(),
        ensures
            self@.timing matches Some(t) ==> t.fits(self@.game.board.0) && t.piece.cells_fit(),
            self@.timing is Some <==> self@.game.top_out is None,
    {
    }

    pub closed spec fn wf(&self) -> bool {
        &&& self.game.wf()
        &&& self.game@.pending_lock is None
        &&& (self.timing is Some <==> self.game@.top_out is None)
        &&& (self.timing matches Some(t) ==> t.fits(self.game@.board.0))
    }

    pub fn new(seed: u64, config: GameConfig) -> (r: Result<Self, SessionStepError>)
        requires
            config.spawn.origins_ok(),
        ensures
            r is Ok <==> is_permutation_of_all(config.bag_order@),
            r matches Ok(s) ==> s.wf() && s@.game == fresh_game(seed, config, s@.game.board) && s@.game.board == (
                Seq::new(crate::board::HEIGHT as nat, |i: int| 0u16),
                Seq::new(crate::board::HEIGHT as nat, |i: int| 0u16),
            ) && s@.timing == entry_timing(s@.game, LastAction::NoAction) && s@.handling
                == HandlingState::new_spec() && s@.frame == 0,
            r matches Err(e) ==> e matches SessionStepError::Game(ge) && GameState::order_error(ge, config.bag_order@),
    {
        Self::with_board(seed, config, Board::empty())
    }

    pub fn with_board(seed: u64, config: GameConfig, board: Board) -> (r: Result<Self, SessionStepError>)
        requires
            board.wf(),
            config.spawn.origins_ok(),
        ensures
            r is Ok <==> is_permutation_of_all(config.bag_order@),
            r matches Ok(s) ==> s.wf() && s@.game == fresh_game(seed, config, board@) && s@.timing == entry_timing(
                s@.game,
                LastAction::NoAction,
            ) && s@.handling == HandlingState::new_spec() && s@.frame == 0,
            r matches Err(e) ==> e matches SessionStepError::Game(ge) && GameState::order_error(ge, config.bag_order@),
    {
        let game = match GameState::with_board(seed, config, board) {
            Ok(g) => g,
            Err(e) => {
                return Err(SessionStepError::Game(e));
            },
        };
        proof {
            game.lemma_wf_facts();
        }
        let timing = if game.is_top_out() {
            None
        } else {
            match TimingState::new(game.board(), game.active()) {
                Ok(t) => Some(t),
                Err(e) => {
                    return Err(SessionStepError::Timing(e));
                },
            }
        };
        Ok(FrameSession { game, timing, handling: HandlingState::new(), frame: 0 })
    }

    pub fn game(&self) -> (r: &GameState)
        requires
            self.wf(),
        ensures
            r@ == self@.game,
            r.wf(),
    {
        &self.game
    }

    pub fn timing(&self) -> (r: Option<&TimingState>)
        ensures
            match r {
                Some(t) => self@.timing == Some(*t),
                None => self@.timing is None,
            },
    {
        match &self.timing {
            Some(t) => Some(t),
            None => None,
        }
    }

    pub fn handling(&self) -> (r: &HandlingState)
        ensures
            *r == self@.handling,
    {
        &self.handling
    }

    pub fn frame(&self) -> (r: u64)
        ensures
            r == self@.frame,
    {
        self.frame
    }

    pub fn is_terminal(&self) -> (r: bool)
        ensures
            r == (self@.timing is None),
    {
        self.timing.is_none()
    }

    /// Normalizes the frame's edges and applies an immediate hold request.
    fn hold_stage(&mut self, handling_rules: HandlingRules, edges: &[InputEdge]) -> (r: (NormalizedFrame, bool))
        requires
            old(self).wf(),
            old(self).timing is Some,
        ensures
            final(self).wf(),
            normalized_is(r.0, normalize_spec(old(self)@.handling, handling_rules, edges@)),
            r.1 == (normalize_spec(old(self)@.handling, handling_rules, edges@).2 && old(self)@.game.hold_available),
            final(self)@.game == (if r.1 {
                old(self)@.game.hold_step()->Ok_0.0
            } else {
                old(self)@.game
            }),
            final(self)@.timing == (if r.1 {
                entry_timing(final(self)@.game, LastAction::NoAction)
            } else {
                old(self)@.timing
            }),
            final(self)@.handling == normalize_spec(old(self)@.handling, handling_rules, edges@).0,
            final(self)@.frame == old(self)@.frame,
            final(self)@.game.board == old(self)@.game.board,
            final(self)@.game.pieces_placed == old(self)@.game.pieces_placed,
    {
        let normalized = normalize_frame(&mut self.handling, handling_rules, edges);
        let mut hold_applied = false;
        proof {
            self.game.lemma_wf_facts();
        }
        if normalized.hold_requested && self.game.hold_available() {
            let hold = match self.game.hold_active() {
                Ok(h) => h,
                Err(e) => {
                    proof {
                        assert(false);
                    }
                    return (normalized, false);
                },
            };
            hold_applied = true;
            proof {
                self.game.lemma_wf_facts();
            }
            self.timing = if hold.top_out {
                None
            } else {
                match TimingState::new(self.game.board(), hold.active) {
                    Ok(t) => Some(t),
                    Err(e) => {
                        proof {
                            assert(false);
                        }
                        None
                    },
                }
            };
        }
        (normalized, hold_applied)
    }

    /// Locks the piece the timing kernel locked, spawns the next piece and
    /// applies the initial actions held at the spawn.
    fn lock_stage(&mut self, handling_rules: HandlingRules, to: FrameOutcome) -> (r: Result<
        (PlacementOutcome, Option<InitialActionOutcome>),
        SessionStepError,
    >)
        requires
            old(self).game.wf(),
            old(self)@.game.pending_lock is None,
            old(self)@.game.top_out is None,
            old(self).timing is Some,
            old(self).timing->Some_0.fits(old(self)@.game.board.0),
            old(self)@.game.all_locks_fit(),
            old(self)@.game.pieces_placed < u64::MAX,
        ensures
            final(self).wf(),
            final(self)@.game.all_locks_fit(),
            final(self)@.game.pieces_placed <= old(self)@.game.pieces_placed + 1,
            final(self)@.frame == old(self)@.frame,
            match old(self)@.game.lock_error(to.piece) {
                Some(e) => r == Err::<(PlacementOutcome, Option<InitialActionOutcome>), SessionStepError>(
                    SessionStepError::Game(e),
                ) && final(self)@ == old(self)@,
                None => {
                    &&& r matches Ok((o, si))
                    &&& old(self)@.game.locked_facts(to.piece, to.last_action, locked_of(o))
                    &&& old(self)@.game.after_lock(to.piece, locked_of(o)).finish_step() matches Ok((g2, o2))
                    &&& o2 == o
                    &&& if o.top_out {
                        &&& final(self)@ == SessionModel {
                            game: g2,
                            timing: None,
                            handling: old(self)@.handling,
                            frame: old(self)@.frame,
                        }
                        &&& si is None
                    } else {
                        let h2 = on_spawn_spec(old(self)@.handling, handling_rules);
                        let init = InitialActions {
                            hold_requested: old(self)@.handling.held_spec().3,
                            rotation: old(self)@.handling.held_spec().4,
                        };
                        &&& g2.initial_step(init, false) matches Ok((g3, io))
                        &&& si == Some(io)
                        &&& final(self)@ == SessionModel {
                            game: g3,
                            timing: entry_timing(g3, spawn_action(io)),
                            handling: h2,
                            frame: old(self)@.frame,
                        }
                    }
                },
            },
    {
        proof {
            self.game.lemma_wf_facts();
        }
        let locked = match self.game.lock_placement_with_action(to.piece, to.last_action) {
            Ok(l) => l,
            Err(e) => {
                return Err(SessionStepError::Game(e));
            },
        };
        self.timing = None;
        proof {
            self.game.lemma_wf_facts();
            self.game.lemma_settled_locks_fit();
        }
        if locked.top_out {
            return Ok((locked, None));
        }
        let initial = initial_actions_on_spawn(&mut self.handling, handling_rules);
        let initial_outcome = match self.game.apply_initial_actions(initial) {
            Ok(o) => o,
            Err(e) => {
                proof {
                    assert(false);
                }
                return Err(SessionStepError::Game(e));
            },
        };
        proof {
            self.game.lemma_wf_facts();
            self.game.lemma_settled_locks_fit();
        }
        if !initial_outcome.top_out {
            let last_action = match initial_outcome.rotation {
                Some(rotation) => LastAction::Rotation { direction: rotation.direction, kick_index: rotation.kick_index },
                None => LastAction::NoAction,
            };
            self.timing = match TimingState::with_last_action(self.game.board(), initial_outcome.active, last_action) {
                Ok(t) => Some(t),
                Err(e) => {
                    proof {
                        assert(false);
                    }
                    None
                },
            };
        }
        Ok((locked, Some(initial_outcome)))
    }

    /// One frame: input normalization, immediate hold, timing, and on lock the
    /// next spawn with its initial actions.
    #[verifier::spinoff_prover]
    #[verifier::rlimit(50)]
    pub fn step(&mut self, timing_rules: TimingRules, handling_rules: HandlingRules, edges: &[InputEdge]) -> (r: Result<
        SessionFrameOutcome,
        SessionStepError,
    >)
        requires
            old(self).wf(),
            timing_rules.wf(),
            old(self)@.game.all_locks_fit(),
            old(self)@.game.pieces_placed < u64::MAX,
        ensures
            final(self).wf(),
            final(self)@.game.all_locks_fit(),
            final(self)@.game.pieces_placed <= old(self)@.game.pieces_placed + 1,
            old(self)@.step_post(timing_rules, handling_rules, edges@, final(self)@, r),
    {
        if self.is_terminal() {
            return Err(SessionStepError::Game(GameError::GameOver));
        }
        let frame = self.frame;
        let (normalized, hold_applied) = self.hold_stage(handling_rules, edges);
        if self.is_terminal() {
            self.frame = self.frame.saturating_add(1);
            return Ok(SessionFrameOutcome {
                frame,
                normalized,
                timing: None,
                placement: None,
                hold_applied,
                spawned_initial: None,
                terminal: true,
            });
        }
        let mut timing = match self.timing {
            Some(t) => t,
            None => {
                return Err(SessionStepError::Game(GameError::GameOver));
            },
        };
        proof {
            self.game.lemma_wf_facts();
        }
        let stepped = step_frame(self.game.board(), &mut timing, timing_rules, &normalized.actions);
        self.timing = Some(timing);
        let timing_outcome = match stepped {
            Ok(o) => o,
            Err(e) => {
                return Err(SessionStepError::Timing(e));
            },
        };
        let mut placement: Option<PlacementOutcome> = None;
        let mut spawned_initial: Option<InitialActionOutcome> = None;
        if timing_outcome.locked {
            let (locked, initial) = match self.lock_stage(handling_rules, timing_outcome) {
                Ok(v) => v,
                Err(e) => {
                    return Err(e);
                },
            };
            placement = Some(locked);
            spawned_initial = initial;
        }
        self.frame = self.frame.saturating_add(1);
        Ok(SessionFrameOutcome {
            frame,
            normalized,
            timing: Some(timing_outcome),
            placement,
            hold_applied,
            spawned_initial,
            terminal: self.is_terminal(),
        })
    }
}

impl SessionModel {
    /// The state and result of one frame that stops at a lock. It is one
    /// session frame, except that a lock leaves the piece locked and the next
    /// spawn pending.
    pub open spec fn lock_frame_post(
        self,
        timing_rules: TimingRules,
        handling_rules: HandlingRules,
        edges: Seq<InputEdge>,
        new: SessionModel,
        r: Result<SessionLockFrameOutcome, SessionStepError>,
    ) -> bool {
        let nv = normalize_spec(self.handling, handling_rules, edges);
        let h1 = nv.0;
        let hold_applied = nv.2 && self.game.hold_available;
        let g1 = if hold_applied {
            self.game.hold_step()->Ok_0.0
        } else {
            self.game
        };
        let t1 = if hold_applied {
            entry_timing(g1, LastAction::NoAction)
        } else {
            self.timing
        };
        if self.timing is None {
            r == Err::<SessionLockFrameOutcome, SessionStepError>(SessionStepError::Game(GameError::GameOver)) && new
                == self
        } else if t1 is None {
            &&& new == SessionModel { game: g1, timing: None, handling: h1, frame: next_frame(self.frame) }
            &&& r matches Ok(out)
            &&& normalized_is(out.normalized, nv)
            &&& out.frame == self.frame
            &&& out.timing is None
            &&& out.locked is None
            &&& out.hold_applied
            &&& out.terminal
        } else {
            match frame_spec(g1.board.0, t1->Some_0, timing_rules, nv.1) {
                Err(e) => r == Err::<SessionLockFrameOutcome, SessionStepError>(SessionStepError::Timing(e)) && new
                    == SessionModel { game: g1, timing: t1, handling: h1, frame: self.frame },
                Ok((ts, to)) => if !to.locked {
                    &&& new == SessionModel { game: g1, timing: Some(ts), handling: h1, frame: next_frame(self.frame) }
                    &&& r matches Ok(out)
                    &&& normalized_is(out.normalized, nv)
                    &&& out.frame == self.frame
                    &&& out.timing == Some(to)
                    &&& out.locked is None
                    &&& out.hold_applied == hold_applied
                    &&& !out.terminal
                } else {
                    match g1.lock_error(to.piece) {
                        Some(e) => r == Err::<SessionLockFrameOutcome, SessionStepError>(SessionStepError::Game(e))
                            && new == SessionModel { game: g1, timing: Some(ts), handling: h1, frame: self.frame },
                        None => {
                            &&& r matches Ok(out)
                            &&& normalized_is(out.normalized, nv)
                            &&& out.frame == self.frame
                            &&& out.timing == Some(to)
                            &&& out.hold_applied == hold_applied
                            &&& out.locked matches Some(l)
                            &&& g1.locked_facts(to.piece, to.last_action, l)
                            &&& new == SessionModel {
                                game: g1.after_lock(to.piece, l),
                                timing: None,
                                handling: h1,
                                frame: next_frame(self.frame),
                            }
                            &&& !out.terminal
                        },
                    }
                },
            }
        }
    }

    /// The spawn that completes a deferred lock: the next piece with Clutch
    /// Clear and top-out rules, then the initial actions held at the spawn.
    pub open spec fn spawn_post(
        self,
        handling_rules: HandlingRules,
        new: SessionModel,
        r: Result<SessionSpawnOutcome, SessionStepError>,
    ) -> bool {
        match self.game.finish_step() {
            Err(e) => r == Err::<SessionSpawnOutcome, SessionStepError>(SessionStepError::Game(e)) && new == self,
            Ok((g2, o)) => {
                &&& r matches Ok(so)
                &&& so.placement == o
                &&& if o.top_out {
                    &&& new == SessionModel { game: g2, timing: None, handling: self.handling, frame: self.frame }
                    &&& so.initial is None
                } else {
                    let h2 = on_spawn_spec(self.handling, handling_rules);
                    let init = InitialActions { hold_requested: self.handling.held_spec().3, rotation: self.handling.held_spec().4 };
                    &&& g2.initial_step(init, false) matches Ok((g3, io))
                    &&& so.initial == Some(io)
                    &&& new == SessionModel {
                        game: g3,
                        timing: entry_timing(g3, spawn_action(io)),
                        handling: h2,
                        frame: self.frame,
                    }
                }
            },
        }
    }
}

impl FrameSession {
    /// A session whose piece has locked and whose next spawn is pending: no
    /// piece is falling, and the board is settled.
    pub closed spec fn awaiting_spawn(&self) -> bool {
        &&& self.game.wf()
        &&& self.timing is None
        &&& self.game@.pending_lock is Some
        &&& self.game@.all_locks_fit()
    }

    /// One frame that stops at a lock: like [`Self::step`], but a lock
    /// leaves the next spawn pending, so that versus code can raise garbage
    /// before it. The session then awaits [`Self::finish_pending_spawn`].
    #[verifier::spinoff_prover]
    #[verifier::rlimit(50)]
    pub fn step_until_lock(&mut self, timing_rules: TimingRules, handling_rules: HandlingRules, edges: &[InputEdge]) -> (r:
        Result<SessionLockFrameOutcome, SessionStepError>)
        requires
            old(self).wf(),
            timing_rules.wf(),
            old(self)@.game.all_locks_fit(),
            old(self)@.game.pieces_placed < u64::MAX,
        ensures
            r matches Ok(out) && out.locked is Some ==> final(self).awaiting_spawn(),
            !(r matches Ok(out) && out.locked is Some) ==> final(self).wf() && final(self)@.game.all_locks_fit(),
            old(self)@.lock_frame_post(timing_rules, handling_rules, edges@, final(self)@, r),
    {
        if self.is_terminal() {
            return Err(SessionStepError::Game(GameError::GameOver));
        }
        let frame = self.frame;
        let (normalized, hold_applied) = self.hold_stage(handling_rules, edges);
        if self.is_terminal() {
            self.frame = self.frame.saturating_add(1);
            return Ok(SessionLockFrameOutcome {
                frame,
                normalized,
                timing: None,
                locked: None,
                hold_applied,
                terminal: true,
            });
        }
        let mut timing = match self.timing {
            Some(t) => t,
            None => {
                return Err(SessionStepError::Game(GameError::GameOver));
            },
        };
        proof {
            self.game.lemma_wf_facts();
        }
        let stepped = step_frame(self.game.board(), &mut timing, timing_rules, &normalized.actions);
        self.timing = Some(timing);
        let timing_outcome = match stepped {
            Ok(o) => o,
            Err(e) => {
                return Err(SessionStepError::Timing(e));
            },
        };
        if !timing_outcome.locked {
            self.frame = self.frame.saturating_add(1);
            return Ok(SessionLockFrameOutcome {
                frame,
                normalized,
                timing: Some(timing_outcome),
                locked: None,
                hold_applied,
                terminal: false,
            });
        }
        proof {
            self.game.lemma_wf_facts();
        }
        let locked = match self.game.lock_placement_deferred(timing_outcome.piece, timing_outcome.last_action) {
            Ok(l) => l,
            Err(e) => {
                return Err(SessionStepError::Game(e));
            },
        };
        self.timing = None;
        proof {
            self.game.lemma_wf_facts();
            self.game.lemma_settled_locks_fit();
        }
        self.frame = self.frame.saturating_add(1);
        Ok(SessionLockFrameOutcome {
            frame,
            normalized,
            timing: Some(timing_outcome),
            locked: Some(locked),
            hold_applied,
            terminal: false,
        })
    }

    /// Raises one garbage row under a locked piece before its next spawn.
    pub fn push_garbage_before_spawn(&mut self, hole_column: usize) -> (r: Result<crate::board::GarbagePushResult, SessionStepError>)
        requires
            old(self).awaiting_spawn(),
        ensures
            final(self).awaiting_spawn(),
            final(self)@.handling == old(self)@.handling,
            final(self)@.frame == old(self)@.frame,
            match old(self)@.game.garbage_step(hole_column) {
                Ok((m, o)) => r == Ok::<crate::board::GarbagePushResult, SessionStepError>(o) && final(self)@.game == m,
                Err(e) => r == Err::<crate::board::GarbagePushResult, SessionStepError>(SessionStepError::Game(e))
                    && final(self)@ == old(self)@,
            },
    {
        proof {
            self.game.lemma_wf_facts();
        }
        let r = match self.game.push_garbage_before_spawn(hole_column) {
            Ok(o) => Ok(o),
            Err(e) => Err(SessionStepError::Game(e)),
        };
        proof {
            self.game.lemma_wf_facts();
            self.game.lemma_settled_locks_fit();
        }
        r
    }

    /// Spawns the next piece after a deferred lock and applies the initial
    /// actions held at the spawn. A session whose game topped out while the
    /// spawn waited reports the game over and stays as it is.
    pub fn finish_pending_spawn(&mut self, handling_rules: HandlingRules) -> (r: Result<SessionSpawnOutcome, SessionStepError>)
        requires
            old(self).awaiting_spawn(),
        ensures
            r is Ok ==> final(self).wf() && final(self)@.game.all_locks_fit(),
            r is Err ==> final(self).awaiting_spawn(),
            old(self)@.spawn_post(handling_rules, final(self)@, r),
    {
        proof {
            self.game.lemma_wf_facts();
        }
        let placement = match self.game.finish_lock() {
            Ok(o) => o,
            Err(e) => {
                return Err(SessionStepError::Game(e));
            },
        };
        proof {
            self.game.lemma_wf_facts();
            self.game.lemma_settled_locks_fit();
        }
        if placement.top_out {
            return Ok(SessionSpawnOutcome { placement, initial: None });
        }
        let initial = initial_actions_on_spawn(&mut self.handling, handling_rules);
        let initial_outcome = match self.game.apply_initial_actions(initial) {
            Ok(o) => o,
            Err(e) => {
                proof {
                    assert(false);
                }
                return Err(SessionStepError::Game(e));
            },
        };
        proof {
            self.game.lemma_wf_facts();
            self.game.lemma_settled_locks_fit();
        }
        if !initial_outcome.top_out {
            let last_action = match initial_outcome.rotation {
                Some(rotation) => LastAction::Rotation { direction: rotation.direction, kick_index: rotation.kick_index },
                None => LastAction::NoAction,
            };
            self.timing = match TimingState::with_last_action(self.game.board(), initial_outcome.active, last_action) {
                Ok(t) => Some(t),
                Err(e) => {
                    proof {
                        assert(false);
                    }
                    None
                },
            };
        }
        Ok(SessionSpawnOutcome { placement, initial: Some(initial_outcome) })
    }
}

} // verus!
