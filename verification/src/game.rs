use vstd::prelude::*;
use vstd::std_specs::convert::FromSpecImpl;
use crate::board::{
    Board, BoardError, ClearedLines, GarbagePushResult, LockVisibility, FULL_ROW, HEIGHT, VISIBLE_HEIGHT, WIDTH,
    hits, placed, full_rows, no_full_rows, lock_post, lemma_lock_clears_at_most_four, rows_wf, any_garbage,
    all_empty, visibility_of, lemma_compact_has_no_full_rows, lemma_fits_bounds, garbage_row, survivors, compact,
};
use crate::clear::ClearEvent;
use crate::handling::InitialActions;
use crate::piece::{Orientation, PieceKind, PieceState, kind_index};
use crate::reachability::{
    GeometricPlacement, reachable_locks, lock_target, lemma_lock_target_fits, replay, path_last_action, grid_of,
};
use crate::rng::{
    BagOrderError, SevenBag, BagModel, draw_model, draws_model, minstd_seed, is_permutation_of_all,
    lemma_draws_snoc,
};
use crate::rotation::{RotationDirection, RotationResult, try_rotate, rotation_outcome};
use crate::spin::{SpinMode, SpinRules, classify_spin, spin_spec};
use crate::timing::LastAction;
use crate::topout::{TopOutReason, TopOutRules, lock_reason_spec};
use std::collections::VecDeque;

verus! {

/// Observed current-client pre-shuffle order (`z,l,o,s,i,j,t`).
pub const TETRIO_7_BAG_ORDER: [PieceKind; 7] = [
    PieceKind::Z,
    PieceKind::L,
    PieceKind::O,
    PieceKind::S,
    PieceKind::I,
    PieceKind::J,
    PieceKind::T,
];

/// Current client spawn y is `board_buffer - 2.04`; the integer board view
/// therefore starts with a 0.96-cell downward phase.
pub const TETRIO_SPAWN_FALL_FRACTION_MICROS: u32 = 960_000;

/// Profile-supplied spawn origins and orientations.
#[derive(Clone, Copy, Debug, PartialEq, Eq)]
pub struct SpawnRules {
    origins: [(i16, i16); 7],
    orientations: [Orientation; 7],
}

impl SpawnRules {
    pub closed spec fn origin_spec(self, kind: PieceKind) -> (i16, i16) {
        self.origins@[kind_index(kind)]
    }

    pub closed spec fn orientation_spec(self, kind: PieceKind) -> Orientation {
        self.orientations@[kind_index(kind)]
    }

    /// The state a piece of `kind` spawns in.
    pub open spec fn spawn_state(self, kind: PieceKind) -> PieceState {
        PieceState {
            kind,
            orientation: self.orientation_spec(kind),
            x: self.origin_spec(kind).0,
            y: self.origin_spec(kind).1,
        }
    }

    /// Every origin leaves room for kicks and the twenty-row rescue lift.
    pub open spec fn origins_ok(self) -> bool {
        forall|kind: PieceKind|
            -31000 <= (#[trigger] self.origin_spec(kind)).0 <= 31000 && -31000 <= self.origin_spec(kind).1
                <= 31000
    }

    pub fn new(origins: [(i16, i16); 7], orientations: [Orientation; 7]) -> (r: Self)
        ensures
            forall|kind: PieceKind| #[trigger] r.origin_spec(kind) == origins@[kind_index(kind)],
            forall|kind: PieceKind| #[trigger] r.orientation_spec(kind) == orientations@[kind_index(kind)],
    {
        SpawnRules { origins, orientations }
    }

    /// Observed modern spawn candidate. A current TETR.IO fixture must confirm
    /// this before a target conformance profile may mark it `CONFIRMED`.
    pub fn modern_observed() -> (r: Self)
        ensures
            forall|kind: PieceKind|
                #[trigger] r.spawn_state(kind) == (PieceState { kind, orientation: Orientation::Spawn, x: 3, y: 18 }),
            r.origins_ok(),
    {
        let r = Self::new([(3, 18); 7], [Orientation::Spawn; 7]);
        assert forall|kind: PieceKind| #[trigger]
            r.spawn_state(kind) == (PieceState { kind, orientation: Orientation::Spawn, x: 3, y: 18 }) by {
            assert(0 <= kind_index(kind) < 7);
        }
        assert forall|kind: PieceKind|
            -31000 <= (#[trigger] r.origin_spec(kind)).0 <= 31000 && -31000 <= r.origin_spec(kind).1 <= 31000 by {
            assert(0 <= kind_index(kind) < 7);
        }
        r
    }

    pub fn piece(self, kind: PieceKind) -> (r: PieceState)
        ensures
            r == self.spawn_state(kind),
    {
        let (x, y) = self.origins[kind.index()];
        PieceState::new(kind, self.orientations[kind.index()], x, y)
    }
}

#[derive(Clone, Copy, Debug, PartialEq, Eq)]
pub struct GameConfig {
    pub preview: usize,
    pub spawn: SpawnRules,
    pub bag_order: [PieceKind; 7],
    pub spin: SpinRules,
    pub top_out: TopOutRules,
    pub clutch_clear: bool,
    pub spawn_fall_fraction_micros: u32,
}

/// The default configuration: five previews, the observed spawn, bag order,
/// spin and top-out rules, Clutch Clear and the observed spawn phase.
pub open spec fn is_default_config(r: GameConfig) -> bool {
    &&& r.preview == 5
    &&& forall|kind: PieceKind|
        #[trigger] r.spawn.spawn_state(kind) == (PieceState { kind, orientation: Orientation::Spawn, x: 3, y: 18 })
    &&& r.spawn.origins_ok()
    &&& r.bag_order@ == TETRIO_7_BAG_ORDER@
    &&& r.spin == (SpinRules { mode: SpinMode::AllMiniPlus, t_full_kick_upgrade_mask: 8 })
    &&& r.top_out == (TopOutRules { lock_out: false, partial_lock_out: false })
    &&& r.clutch_clear
    &&& r.spawn_fall_fraction_micros == TETRIO_SPAWN_FALL_FRACTION_MICROS
}

impl Default for GameConfig {
    fn default() -> (r: Self)
        ensures
            is_default_config(r),
    {
        GameConfig {
            preview: 5,
            spawn: SpawnRules::modern_observed(),
            bag_order: TETRIO_7_BAG_ORDER,
            spin: SpinRules::all_mini_plus_observed(),
            top_out: TopOutRules::block_out_only(),
            clutch_clear: true,
            spawn_fall_fraction_micros: TETRIO_SPAWN_FALL_FRACTION_MICROS,
        }
    }
}

#[derive(Clone, Copy, Debug, PartialEq, Eq)]
pub struct LockedPlacement {
    pub cleared: ClearedLines,
    pub clear: ClearEvent,
    pub cleared_garbage: bool,
    pub lock_visibility: LockVisibility,
    pub pieces_placed: u64,
}

#[derive(Clone, Copy, Debug, PartialEq, Eq)]
pub struct PlacementPreview {
    pub board: Board,
    pub locked: LockedPlacement,
}

#[derive(Clone, Copy, Debug, PartialEq, Eq, Structural)]
pub struct HoldOutcome {
    pub held: PieceKind,
    pub active: PieceState,
    pub top_out: bool,
    pub top_out_reason: Option<TopOutReason>,
}

#[derive(Clone, Copy, Debug, PartialEq, Eq, Structural)]
pub struct InitialActionOutcome {
    pub active: PieceState,
    pub hold_applied: bool,
    pub rotation: Option<RotationResult>,
    pub clutch: bool,
    pub top_out: bool,
    pub top_out_reason: Option<TopOutReason>,
}

#[derive(Clone, Copy, Debug, PartialEq, Eq)]
pub struct PlacementOutcome {
    pub cleared: ClearedLines,
    pub clear: ClearEvent,
    pub cleared_garbage: bool,
    pub lock_visibility: LockVisibility,
    pub top_out: bool,
    pub top_out_reason: Option<TopOutReason>,
    pub next_active: PieceState,
    pub pieces_placed: u64,
    pub clutch: bool,
}

#[derive(Clone, Copy, Debug, PartialEq, Eq, Structural)]
pub enum GameError {
    BagOrder(BagOrderError),
    Board(BoardError),
    GameOver,
    AwaitingSpawn,
    NoPendingLock,
    HoldAlreadyUsed,
    WrongPiece { active: PieceKind, attempted: PieceKind },
    UnreachablePlacement(PieceState),
}

impl From<BagOrderError> for GameError {
    fn from(error: BagOrderError) -> (r: Self) {
        GameError::BagOrder(error)
    }
}

impl FromSpecImpl<BagOrderError> for GameError {
    open spec fn obeys_from_spec() -> bool {
        true
    }

    open spec fn from_spec(error: BagOrderError) -> GameError {
        GameError::BagOrder(error)
    }
}

impl From<BoardError> for GameError {
    fn from(error: BoardError) -> (r: Self) {
        GameError::Board(error)
    }
}

impl FromSpecImpl<BoardError> for GameError {
    open spec fn obeys_from_spec() -> bool {
        true
    }

    open spec fn from_spec(error: BoardError) -> GameError {
        GameError::Board(error)
    }
}

impl GameError {
    /// The message as text.
    pub open spec fn text(&self) -> Seq<char> {
        match self {
            GameError::BagOrder(e) => e.text(),
            GameError::Board(e) => e.text(),
            GameError::GameOver => "the game is already top-out terminal"@,
            GameError::AwaitingSpawn => "the locked piece is awaiting next spawn"@,
            GameError::NoPendingLock => "there is no deferred lock to finish"@,
            GameError::HoldAlreadyUsed => "hold was already used for the active piece"@,
            GameError::WrongPiece { active, attempted } => "active piece is "@ + crate::piece::kind_text(*active)
                + ", not "@ + crate::piece::kind_text(*attempted),
            GameError::UnreachablePlacement(p) => "placement is not reachable: "@ + crate::piece::piece_state_text(*p),
        }
    }

    /// Human-readable description of the error.
    pub fn message(&self) -> (r: String)
        ensures
            r@ == self.text(),
    {
        match self {
            GameError::BagOrder(e) => e.message(),
            GameError::Board(e) => e.message(),
            GameError::GameOver => String::from_str("the game is already top-out terminal"),
            GameError::AwaitingSpawn => String::from_str("the locked piece is awaiting next spawn"),
            GameError::NoPendingLock => String::from_str("there is no deferred lock to finish"),
            GameError::HoldAlreadyUsed => String::from_str("hold was already used for the active piece"),
            GameError::WrongPiece { active, attempted } => {
                let mut s = String::from_str("active piece is ");
                s.append(crate::piece::kind_label(*active));
                s.append(", not ");
                s.append(crate::piece::kind_label(*attempted));
                s
            },
            GameError::UnreachablePlacement(p) => {
                let mut s = String::from_str("placement is not reachable: ");
                crate::piece::append_piece_state(&mut s, *p);
                s
            },
        }
    }
}

/// The bag state a game starts from.
pub open spec fn initial_bag(seed: u64, order: Seq<PieceKind>) -> BagModel {
    (minstd_seed(seed), order, order, 7)
}

/// Taking the next piece: the queue front (a fresh draw when there is no
/// preview), with one draw appended so the preview keeps its length.
pub open spec fn take_spec(q: Seq<PieceKind>, m: BagModel) -> (Seq<PieceKind>, BagModel, PieceKind) {
    let (m1, k) = draw_model(m);
    if q.len() > 0 {
        (q.drop_first().push(k), m1, q[0])
    } else {
        (q, m1, k)
    }
}

pub open spec fn lifted(p: PieceState, k: int) -> PieceState {
    PieceState { y: (p.y + k) as i16, ..p }
}

/// Lifts a colliding piece one row at a time, at most `steps` rows, stopping
/// as soon as it fits.
pub open spec fn rise(r: Seq<u16>, p: PieceState, steps: nat) -> PieceState
    decreases steps,
{
    if steps == 0 || !hits(r, p) {
        p
    } else {
        rise(r, lifted(p, 1), (steps - 1) as nat)
    }
}

/// A fresh game: one draw spawns the active piece, `preview` more fill the queue.
pub open spec fn fresh_game(seed: u64, config: GameConfig, board: (Seq<u16>, Seq<u16>)) -> GameModel {
    let m0 = initial_bag(seed, config.bag_order@);
    let (m1, first) = draw_model(m0);
    let (m2, queue) = draws_model(m1, config.preview as nat);
    let active = config.spawn.spawn_state(first);
    GameModel {
        board,
        bag: m2,
        queue,
        active,
        hold: None,
        hold_available: true,
        pieces_placed: 0,
        top_out: if hits(board.0, active) {
            Some(TopOutReason::BlockOut)
        } else {
            None
        },
        pending_lock: None,
        config,
    }
}

/// Every lock on these rows clears at most four of them.
pub open spec fn locks_fit_on(r: Seq<u16>) -> bool {
    forall|p: PieceState| hits(r, p) || #[trigger] full_rows(placed(r, p), HEIGHT as nat).len() <= 4
}

/// Abstract state of a game.
pub struct GameModel {
    pub board: (Seq<u16>, Seq<u16>),
    pub bag: BagModel,
    pub queue: Seq<PieceKind>,
    pub active: PieceState,
    pub hold: Option<PieceKind>,
    pub hold_available: bool,
    pub pieces_placed: u64,
    pub top_out: Option<TopOutReason>,
    pub pending_lock: Option<LockedPlacement>,
    pub config: GameConfig,
}

impl GameModel {
    pub open spec fn hits(self, p: PieceState) -> bool {
        hits(self.board.0, p)
    }

    pub open spec fn spawn(self, kind: PieceKind) -> PieceState {
        self.config.spawn.spawn_state(kind)
    }

    /// Block-out verdict for a piece on this board.
    pub open spec fn block_out(self, p: PieceState) -> Option<TopOutReason> {
        if self.hits(p) {
            Some(TopOutReason::BlockOut)
        } else {
            None
        }
    }

    /// The error a transition that needs a playable piece reports, if any.
    pub open spec fn playable_error(self) -> Option<GameError> {
        if self.top_out is Some {
            Some(GameError::GameOver)
        } else if self.pending_lock is Some {
            Some(GameError::AwaitingSpawn)
        } else {
            None
        }
    }

    /// No row of the board is full; every lock then clears at most four rows.
    pub open spec fn settled(self) -> bool {
        no_full_rows(self.board.0)
    }

    /// Locking `p` on this board clears at most four rows.
    pub open spec fn lock_fits(self, p: PieceState) -> bool {
        self.hits(p) || full_rows(placed(self.board.0, p), HEIGHT as nat).len() <= 4
    }

    pub open spec fn all_locks_fit(self) -> bool {
        locks_fit_on(self.board.0)
    }

    pub open spec fn take(self) -> (GameModel, PieceKind) {
        let (q, m, k) = take_spec(self.queue, self.bag);
        (GameModel { queue: q, bag: m, ..self }, k)
    }

    /// Swap the active piece with the hold slot (or the next queue piece).
    pub open spec fn hold_step(self) -> Result<(GameModel, HoldOutcome), GameError> {
        match self.playable_error() {
            Some(e) => Err(e),
            None => if !self.hold_available {
                Err(GameError::HoldAlreadyUsed)
            } else {
                let (s1, incoming) = match self.hold {
                    Some(k) => (self, k),
                    None => self.take(),
                };
                let active = self.spawn(incoming);
                let top = self.block_out(active);
                let s2 = GameModel {
                    hold: Some(self.active.kind),
                    active,
                    hold_available: false,
                    top_out: top,
                    ..s1
                };
                Ok((s2, HoldOutcome { held: self.active.kind, active, top_out: top is Some, top_out_reason: top }))
            },
        }
    }

    /// Initial hold, then Clutch Clear rescue, then initial rotation.
    pub open spec fn initial_step(self, actions: InitialActions, clutch_available: bool) -> Result<
        (GameModel, InitialActionOutcome),
        GameError,
    > {
        match self.playable_error() {
            Some(e) => Err(e),
            None => {
                let clutch_ok = self.config.clutch_clear && clutch_available;
                let hold_applied = actions.hold_requested && self.hold_available;
                let s1 = if hold_applied {
                    self.hold_step()->Ok_0.0
                } else {
                    self
                };
                let rescue = hold_applied && s1.top_out == Some(TopOutReason::BlockOut) && clutch_ok;
                let s2 = if rescue {
                    GameModel { top_out: None, active: rise(s1.board.0, s1.active, 20), ..s1 }
                } else {
                    s1
                };
                let clutch = rescue && !s2.hits(s2.active);
                let s3 = if hold_applied && s2.hits(s2.active) {
                    GameModel { top_out: Some(TopOutReason::BlockOut), ..s2 }
                } else {
                    s2
                };
                if s3.top_out is Some {
                    Ok(
                        (
                            s3,
                            InitialActionOutcome {
                                active: s3.active,
                                hold_applied,
                                rotation: None,
                                clutch,
                                top_out: true,
                                top_out_reason: s3.top_out,
                            },
                        ),
                    )
                } else {
                    let rotation = match actions.rotation {
                        Some(d) => rotation_outcome(s3.board.0, s3.active, d),
                        None => None,
                    };
                    let active = match rotation {
                        Some(res) => res.state,
                        None => s3.active,
                    };
                    let top = s3.block_out(active);
                    Ok(
                        (
                            GameModel { active, top_out: top, ..s3 },
                            InitialActionOutcome {
                                active,
                                hold_applied,
                                rotation,
                                clutch,
                                top_out: top is Some,
                                top_out_reason: top,
                            },
                        ),
                    )
                }
            },
        }
    }

    /// Why locking `placement` is refused, if it is.
    pub open spec fn lock_error(self, placement: PieceState) -> Option<GameError> {
        match self.playable_error() {
            Some(e) => Some(e),
            None => if placement.kind != self.active.kind {
                Some(GameError::WrongPiece { active: self.active.kind, attempted: placement.kind })
            } else if !lock_target(self.board.0, self.active, placement) {
                Some(GameError::UnreachablePlacement(placement))
            } else {
                None
            },
        }
    }

    /// Board after locking `placement`: its cells written and full rows removed.
    pub open spec fn board_after(self, placement: PieceState) -> (Seq<u16>, Seq<u16>) {
        let pl = placed(self.board.0, placement);
        let keep = survivors(pl, HEIGHT as nat);
        (compact(pl, keep), compact(self.board.1, keep))
    }

    /// The facts reported for locking `placement` after `last` as the final action.
    pub open spec fn locked_facts(self, placement: PieceState, last: LastAction, locked: LockedPlacement) -> bool {
        let full = full_rows(placed(self.board.0, placement), HEIGHT as nat);
        &&& locked.cleared@ == full
        &&& locked.cleared.wf()
        &&& locked.clear == (ClearEvent {
            piece: placement.kind,
            lines: full.len() as u8,
            spin: spin_spec(self.board.0, placement, last, self.config.spin),
            perfect_clear: all_empty(self.board_after(placement).0),
        })
        &&& locked.cleared_garbage == any_garbage(self.board.1, full)
        &&& locked.lock_visibility == visibility_of(placement)
        &&& locked.pieces_placed == self.pieces_placed + 1
    }

    /// Hold is limited to once per piece: after a hold a second one is
    /// refused until a piece locks, and locking makes it available again.
    pub proof fn lemma_hold_once_per_piece(self, placement: PieceState, locked: LockedPlacement)
        requires
            self.hold_step() is Ok,
        ensures
            self.hold_step()->Ok_0.0.hold_step() is Err,
            self.hold_step()->Ok_0.0.top_out is None ==> self.hold_step()->Ok_0.0.hold_step() == Err::<
                (GameModel, HoldOutcome),
                GameError,
            >(GameError::HoldAlreadyUsed),
            self.hold_step()->Ok_0.0.after_lock(placement, locked).hold_available,
    {
    }

    /// A placement's lock facts determine the reported lock: previewing a
    /// reachable placement gives the same locked placement, and the same
    /// afterstate board, as locking it with a deferred spawn.
    pub proof fn lemma_preview_matches_deferred_lock(
        self,
        placement: PieceState,
        last: LastAction,
        preview: PlacementPreview,
        locked: LockedPlacement,
    )
        requires
            self.locked_facts(placement, last, preview.locked),
            preview.board@ == self.board_after(placement),
            self.locked_facts(placement, last, locked),
        ensures
            preview.locked == locked,
            preview.board@ == self.after_lock(placement, locked).board,
    {
        self.lemma_locked_facts_unique(placement, last, preview.locked, locked);
    }

    /// The lock facts of a placement determine the locked placement.
    pub proof fn lemma_locked_facts_unique(
        self,
        placement: PieceState,
        last: LastAction,
        a: LockedPlacement,
        b: LockedPlacement,
    )
        requires
            self.locked_facts(placement, last, a),
            self.locked_facts(placement, last, b),
        ensures
            a == b,
    {
        ClearedLines::lemma_view_determines(a.cleared, b.cleared);
    }

    /// The state after a deferred lock reporting `locked`.
    pub open spec fn after_lock(self, placement: PieceState, locked: LockedPlacement) -> GameModel {
        GameModel {
            board: self.board_after(placement),
            pieces_placed: (self.pieces_placed + 1) as u64,
            hold_available: true,
            pending_lock: Some(locked),
            ..self
        }
    }

    /// Why previewing `placement` is refused, if it is.
    pub open spec fn preview_error(self, placement: PieceState) -> Option<GameError> {
        match self.playable_error() {
            Some(e) => Some(e),
            None => if placement.kind != self.active.kind {
                Some(GameError::WrongPiece { active: self.active.kind, attempted: placement.kind })
            } else if self.hits(placement) {
                Some(GameError::Board(BoardError::PieceCollision(placement)))
            } else {
                None
            },
        }
    }

    pub open spec fn finish_error(self) -> Option<GameError> {
        if self.top_out is Some {
            Some(GameError::GameOver)
        } else if self.pending_lock is None {
            Some(GameError::NoPendingLock)
        } else {
            None
        }
    }

    /// Completes a deferred lock: spawn the next piece, with Clutch Clear
    /// rescue after a clear, and decide lock-out and block-out.
    pub open spec fn finish_step(self) -> Result<(GameModel, PlacementOutcome), GameError> {
        match self.finish_error() {
            Some(e) => Err(e),
            None => {
                let locked = self.pending_lock->Some_0;
                let (s1, next) = GameModel { pending_lock: None, ..self }.take();
                let spawned = self.spawn(next);
                let clutch_ok = self.config.clutch_clear && locked.cleared@.len() > 0;
                let lock_out = if clutch_ok {
                    None
                } else {
                    lock_reason_spec(self.config.top_out, locked.lock_visibility)
                };
                let rescue = lock_out is None && self.hits(spawned) && clutch_ok;
                let active = if rescue {
                    rise(self.board.0, spawned, 20)
                } else {
                    spawned
                };
                let clutch = rescue && !self.hits(active);
                let top = if lock_out is Some {
                    lock_out
                } else {
                    self.block_out(active)
                };
                Ok(
                    (
                        GameModel { active, top_out: top, ..s1 },
                        PlacementOutcome {
                            cleared: locked.cleared,
                            clear: locked.clear,
                            cleared_garbage: locked.cleared_garbage,
                            lock_visibility: locked.lock_visibility,
                            top_out: top is Some,
                            top_out_reason: top,
                            next_active: active,
                            pieces_placed: self.pieces_placed,
                            clutch,
                        },
                    ),
                )
            },
        }
    }

    /// One garbage row pushed while a lock awaits its spawn.
    pub open spec fn garbage_step(self, hole_column: usize) -> Result<(GameModel, GarbagePushResult), GameError> {
        if self.pending_lock is None {
            Err(GameError::NoPendingLock)
        } else if self.board.0[HEIGHT - 1] == FULL_ROW {
            Ok((GameModel { top_out: Some(TopOutReason::GarbageOut), ..self }, GarbagePushResult { overflowed_buffer: true }))
        } else if hole_column >= WIDTH {
            Err(GameError::Board(BoardError::GarbageHoleOutOfBounds(hole_column)))
        } else {
            Ok(
                (
                    GameModel {
                        board: (
                            seq![garbage_row(hole_column)] + self.board.0.take(HEIGHT - 1),
                            seq![garbage_row(hole_column)] + self.board.1.take(HEIGHT - 1),
                        ),
                        ..self
                    },
                    GarbagePushResult { overflowed_buffer: self.board.0[HEIGHT - 1] != 0 },
                ),
            )
        }
    }
}

/// The lock facts a placement outcome carries.
pub open spec fn locked_of(o: PlacementOutcome) -> LockedPlacement {
    LockedPlacement {
        cleared: o.cleared,
        clear: o.clear,
        cleared_garbage: o.cleared_garbage,
        lock_visibility: o.lock_visibility,
        pieces_placed: o.pieces_placed,
    }
}

/// Minimal deterministic single-player state used to validate queue, hold and
/// placement transitions before timing and versus layers are added.
#[derive(Clone, Debug, PartialEq, Eq)]
pub struct GameState {
    board: Board,
    bag: SevenBag,
    queue: VecDeque<PieceKind>,
    active: PieceState,
    hold: Option<PieceKind>,
    hold_available: bool,
    pieces_placed: u64,
    top_out: Option<TopOutReason>,
    pending_lock: Option<LockedPlacement>,
    config: GameConfig,
}

impl View for GameState {
    type V = GameModel;

    closed spec fn view(&self) -> GameModel {
        GameModel {
            board: self.board@,
            bag: self.bag.model(),
            queue: self.queue@,
            active: self.active,
            hold: self.hold,
            hold_available: self.hold_available,
            pieces_placed: self.pieces_placed,
            top_out: self.top_out,
            pending_lock: self.pending_lock,
            config: self.config,
        }
    }
}

impl GameState {
    pub closed spec fn wf(&self) -> bool {
        &&& self.board.wf()
        &&& self.bag.wf()
        &&& self.queue@.len() == self.config.preview
        &&& self.config.spawn.origins_ok()
        &&& self.active.ok()
        &&& (self.top_out is None && self.pending_lock is None ==> !self.board.hits(self.active))
        &&& (self.pending_lock matches Some(l) ==> l.cleared.wf() && self.pieces_placed > 0)
        &&& (self.pieces_placed > 0 ==> no_full_rows(self.board@.0))
    }

    pub proof fn lemma_wf_facts(&self)
        requires
            self.wf(),
        ensures
            rows_wf(self@.board.0, self@.board.1),
            self@.active.ok(),
            self@.queue.len() == self@.config.preview,
            self@.config.spawn.origins_ok(),
            self@.playable_error() is None ==> !self@.hits(self@.active),
            self@.pending_lock matches Some(l) ==> l.cleared.wf() && self@.pieces_placed > 0,
            self@.pieces_placed > 0 ==> self@.settled(),
    {
    }

    /// Once a piece has locked the board is settled, and on a settled board
    /// every lock fits.
    pub proof fn lemma_settled_locks_fit(&self)
        requires
            self.wf(),
            self@.settled(),
        ensures
            self@.all_locks_fit(),
    {
        assert forall|p: PieceState| hits(self@.board.0, p) || #[trigger] full_rows(placed(self@.board.0, p), HEIGHT as nat).len() <= 4 by {
            if !self@.hits(p) {
                lemma_lock_clears_at_most_four(self.board@.0, self.board@.1, p);
            }
        }
    }

    /// How a bag order is reported invalid.
    pub open spec fn order_error(e: GameError, order: Seq<PieceKind>) -> bool {
        match e {
            GameError::BagOrder(BagOrderError::Duplicate(k)) => exists|i: int, j: int|
                0 <= i < j < 7 && order[i] == k && order[j] == k,
            GameError::BagOrder(BagOrderError::MissingPiece) => !is_permutation_of_all(order),
            _ => false,
        }
    }

    /// A fresh game that satisfies its invariant.
    pub open spec fn new_game_post(&self, seed: u64, config: GameConfig, board: (Seq<u16>, Seq<u16>)) -> bool {
        self.wf() && self@ == fresh_game(seed, config, board)
    }

    pub fn new(seed: u64, config: GameConfig) -> (r: Result<Self, GameError>)
        requires
            config.spawn.origins_ok(),
        ensures
            r is Ok <==> is_permutation_of_all(config.bag_order@),
            r matches Ok(g) ==> g.new_game_post(
                seed,
                config,
                (Seq::new(HEIGHT as nat, |i: int| 0u16), Seq::new(HEIGHT as nat, |i: int| 0u16)),
            ),
            r matches Err(e) ==> Self::order_error(e, config.bag_order@),
    {
        Self::with_board(seed, config, Board::empty())
    }

    pub fn with_board(seed: u64, config: GameConfig, board: Board) -> (r: Result<Self, GameError>)
        requires
            board.wf(),
            config.spawn.origins_ok(),
        ensures
            r is Ok <==> is_permutation_of_all(config.bag_order@),
            r matches Ok(g) ==> g.new_game_post(seed, config, board@),
            r matches Err(e) ==> Self::order_error(e, config.bag_order@),
    {
        let mut bag = match SevenBag::with_order(seed, config.bag_order) {
            Ok(b) => b,
            Err(e) => {
                return Err(GameError::BagOrder(e));
            },
        };
        proof {
            bag.lemma_model();
            assert(bag.model() == initial_bag(seed, config.bag_order@));
        }
        let ghost m1 = draw_model(bag.model()).0;
        let first = bag.next_piece();
        let active = config.spawn.piece(first);
        proof {
            assert(0 <= kind_index(first) < 7);
            assert(active.ok());
            lemma_draws_snoc(m1, 0);
            assert(draws_model(m1, 0).1 =~= Seq::<PieceKind>::empty());
        }
        let mut queue: VecDeque<PieceKind> = VecDeque::new();
        while queue.len() < config.preview
            invariant
                bag.wf(),
                queue@.len() <= config.preview,
                (bag.model(), queue@) == draws_model(m1, queue@.len() as nat),
            decreases config.preview - queue@.len(),
        {
            proof {
                lemma_draws_snoc(m1, queue@.len() as nat);
            }
            let k = bag.next_piece();
            queue.push_back(k);
        }
        let top_out = if board.collides(active) {
            Some(TopOutReason::BlockOut)
        } else {
            None
        };
        Ok(GameState {
            board,
            bag,
            queue,
            active,
            hold: None,
            hold_available: true,
            pieces_placed: 0,
            top_out,
            pending_lock: None,
            config,
        })
    }

    pub fn board(&self) -> (r: &Board)
        requires
            self.wf(),
        ensures
            r@ == self@.board,
            r.wf(),
    {
        &self.board
    }

    pub fn spawn_fall_fraction_micros(&self) -> (r: u32)
        ensures
            r == self@.config.spawn_fall_fraction_micros,
    {
        self.config.spawn_fall_fraction_micros
    }

    pub fn active(&self) -> (r: PieceState)
        ensures
            r == self@.active,
    {
        self.active
    }

    pub fn hold(&self) -> (r: Option<PieceKind>)
        ensures
            r == self@.hold,
    {
        self.hold
    }

    pub fn hold_available(&self) -> (r: bool)
        ensures
            r == self@.hold_available,
    {
        self.hold_available
    }

    pub fn pieces_placed(&self) -> (r: u64)
        ensures
            r == self@.pieces_placed,
    {
        self.pieces_placed
    }

    pub fn is_top_out(&self) -> (r: bool)
        ensures
            r == (self@.top_out is Some),
    {
        self.top_out.is_some()
    }

    pub fn top_out_reason(&self) -> (r: Option<TopOutReason>)
        ensures
            r == self@.top_out,
    {
        self.top_out
    }

    pub fn pending_lock(&self) -> (r: Option<LockedPlacement>)
        ensures
            r == self@.pending_lock,
    {
        self.pending_lock
    }

    /// The preview queue, front first.
    /// An independent copy of the game in the same state.
    pub fn duplicate(&self) -> (r: Self)
        ensures
            r@ == self@,
            self.wf() ==> r.wf(),
    {
        let mut queue: VecDeque<PieceKind> = VecDeque::new();
        let mut i: usize = 0;
        while i < self.queue.len()
            invariant
                i <= self.queue@.len(),
                queue@ == self.queue@.take(i as int),
            decreases self.queue@.len() - i,
        {
            queue.push_back(self.queue[i]);
            i += 1;
            assert(queue@ =~= self.queue@.take(i as int));
        }
        assert(queue@ =~= self.queue@);
        GameState {
            board: self.board,
            bag: self.bag,
            queue,
            active: self.active,
            hold: self.hold,
            hold_available: self.hold_available,
            pieces_placed: self.pieces_placed,
            top_out: self.top_out,
            pending_lock: self.pending_lock,
            config: self.config,
        }
    }

    pub fn preview(&self) -> (r: Vec<PieceKind>)
        ensures
            r@ == self@.queue,
    {
        let mut out: Vec<PieceKind> = Vec::new();
        let mut i: usize = 0;
        while i < self.queue.len()
            invariant
                i <= self.queue@.len(),
                out@ == self.queue@.take(i as int),
            decreases self.queue@.len() - i,
        {
            out.push(self.queue[i]);
            i += 1;
            assert(out@ =~= self.queue@.take(i as int));
        }
        assert(out@ =~= self.queue@);
        out
    }

    fn take_next_piece(&mut self) -> (r: PieceKind)
        requires
            old(self).bag.wf(),
            old(self).queue@.len() == old(self).config.preview,
        ensures
            final(self).bag.wf(),
            (final(self)@, r) == old(self)@.take(),
            final(self).queue@.len() == old(self).queue@.len(),
            final(self).board == old(self).board,
    {
        let piece = match self.queue.pop_front() {
            Some(front) => {
                let k = self.bag.next_piece();
                self.queue.push_back(k);
                front
            },
            None => self.bag.next_piece(),
        };
        piece
    }

    fn ensure_playable(&self) -> (r: Result<(), GameError>)
        ensures
            r is Err <==> self@.playable_error() is Some,
            r matches Err(e) ==> self@.playable_error() == Some(e),
    {
        if self.top_out.is_some() {
            Err(GameError::GameOver)
        } else if self.pending_lock.is_some() {
            Err(GameError::AwaitingSpawn)
        } else {
            Ok(())
        }
    }

    pub fn hold_active(&mut self) -> (r: Result<HoldOutcome, GameError>)
        requires
            old(self).wf(),
        ensures
            final(self).wf(),
            match old(self)@.hold_step() {
                Ok((m, o)) => r == Ok::<HoldOutcome, GameError>(o) && final(self)@ == m,
                Err(e) => r == Err::<HoldOutcome, GameError>(e) && *final(self) == *old(self),
            },
    {
        self.ensure_playable()?;
        if !self.hold_available {
            return Err(GameError::HoldAlreadyUsed);
        }
        let outgoing = self.active.kind;
        let incoming = match self.hold {
            Some(k) => k,
            None => self.take_next_piece(),
        };
        self.hold = Some(outgoing);
        self.active = self.config.spawn.piece(incoming);
        proof {
            assert(0 <= kind_index(incoming) < 7);
        }
        self.hold_available = false;
        self.top_out = if self.board.collides(self.active) {
            Some(TopOutReason::BlockOut)
        } else {
            None
        };
        Ok(HoldOutcome { held: outgoing, active: self.active, top_out: self.top_out.is_some(), top_out_reason: self.top_out })
    }

    /// Lifts the active piece until it fits, by at most the visible height;
    /// reports whether it then fits inside the board.
    fn raise_spawn_until_legal(&mut self) -> (r: bool)
        requires
            old(self).board.wf(),
            -31000 <= old(self).active.x <= 31000,
            -31000 <= old(self).active.y <= 31000,
        ensures
            final(self)@ == (GameModel { active: rise(old(self)@.board.0, old(self)@.active, 20), ..old(self)@ }),
            r == !hits(old(self)@.board.0, final(self).active),
            final(self).active.ok(),
            final(self).bag == old(self).bag,
            final(self).board == old(self).board,
            final(self).queue == old(self).queue,
    {
        let initial_y = self.active.y;
        let max_y = initial_y + VISIBLE_HEIGHT as i16;
        let ghost start = self.active;
        while self.board.collides(self.active) && self.active.y < max_y
            invariant
                self.board.wf(),
                self.board == old(self).board,
                self.bag == old(self).bag,
                self.queue == old(self).queue,
                self@ == (GameModel { active: self.active, ..old(self)@ }),
                initial_y == start.y,
                max_y == start.y + 20,
                start == old(self).active,
                -31000 <= start.x <= 31000,
                -31000 <= start.y <= 31000,
                start.y <= self.active.y <= max_y,
                self.active == lifted(start, self.active.y - start.y),
                rise(self.board@.0, start, 20) == rise(self.board@.0, self.active, (20 - (self.active.y - start.y)) as nat),
            decreases max_y - self.active.y,
        {
            let ghost before = self.active;
            self.active.y = self.active.y + 1;
            proof {
                assert(self.active == lifted(before, 1));
                assert(rise(self.board@.0, before, (20 - (before.y - start.y)) as nat) == rise(
                    self.board@.0,
                    lifted(before, 1),
                    (20 - (before.y - start.y) - 1) as nat,
                ));
            }
        }
        !self.board.collides(self.active)
    }

    /// Applies the generic spawn contract in IHS-then-IRS order.
    ///
    /// Exact TETR.IO same-frame sampling order is intentionally left to the
    /// versioned replay-conformance layer.
    pub fn apply_initial_actions(&mut self, actions: InitialActions) -> (r: Result<InitialActionOutcome, GameError>)
        requires
            old(self).wf(),
        ensures
            final(self).wf(),
            match old(self)@.initial_step(actions, false) {
                Ok((m, o)) => r == Ok::<InitialActionOutcome, GameError>(o) && final(self)@ == m,
                Err(e) => r == Err::<InitialActionOutcome, GameError>(e) && *final(self) == *old(self),
            },
    {
        self.apply_initial_actions_with_clutch(actions, false)
    }

    /// Applies initial hold/rotation after a lock. `clutch_available` lets an
    /// IHS replacement receive the same post-clear Clutch Clear rescue as the
    /// normally spawned queue piece.
    pub fn apply_initial_actions_with_clutch(&mut self, actions: InitialActions, clutch_available: bool) -> (r: Result<
        InitialActionOutcome,
        GameError,
    >)
        requires
            old(self).wf(),
        ensures
            final(self).wf(),
            match old(self)@.initial_step(actions, clutch_available) {
                Ok((m, o)) => r == Ok::<InitialActionOutcome, GameError>(o) && final(self)@ == m,
                Err(e) => r == Err::<InitialActionOutcome, GameError>(e) && *final(self) == *old(self),
            },
    {
        self.ensure_playable()?;
        let clutch_available = self.config.clutch_clear && clutch_available;
        let ghost s0 = self@;
        let hold_applied = if actions.hold_requested && self.hold_available {
            match self.hold_active() {
                Ok(_) => {},
                Err(e) => {
                    proof {
                        assert(false);
                    }
                    return Err(e);
                },
            }
            true
        } else {
            false
        };
        let ghost s1 = self@;
        assert(s1 == (if hold_applied { s0.hold_step()->Ok_0.0 } else { s0 }));
        let mut clutch = false;
        if hold_applied && self.top_out == Some(TopOutReason::BlockOut) && clutch_available {
            self.top_out = None;
            proof {
                assert(0 <= kind_index(self.active.kind) < 7);
            }
            clutch = self.raise_spawn_until_legal();
        }
        if hold_applied && self.board.collides(self.active) {
            self.top_out = Some(TopOutReason::BlockOut);
        }
        if self.top_out.is_some() {
            return Ok(InitialActionOutcome {
                active: self.active,
                hold_applied,
                rotation: None,
                clutch,
                top_out: true,
                top_out_reason: self.top_out,
            });
        }
        let rotation = match actions.rotation {
            Some(direction) => try_rotate(&self.board, self.active, direction),
            None => None,
        };
        if let Some(result) = rotation {
            self.active = result.state;
        }
        self.top_out = if self.board.collides(self.active) {
            Some(TopOutReason::BlockOut)
        } else {
            None
        };
        Ok(InitialActionOutcome {
            active: self.active,
            hold_applied,
            rotation,
            clutch,
            top_out: self.top_out.is_some(),
            top_out_reason: self.top_out,
        })
    }

    pub fn reachable_placements(&self) -> (r: Vec<GeometricPlacement>)
        requires
            self.wf(),
        ensures
            self@.playable_error() is Some ==> r@.len() == 0,
            self@.playable_error() is None ==> {
                &&& forall|k: int| 0 <= k < r@.len() ==> {
                    &&& lock_target(self@.board.0, self@.active, #[trigger] r@[k].state)
                    &&& replay(self@.board.0, self@.active, r@[k].path@) == Some(r@[k].state)
                    &&& r@[k].last_action == path_last_action(self@.board.0, self@.active, r@[k].path@)
                    &&& r@[k].path@.len() <= crate::reachability::GRID
                }
                &&& forall|a: int, b: int| 0 <= a < b < r@.len() ==> grid_of(r@[a].state) < grid_of(r@[b].state)
                &&& forall|p: PieceState|
                    lock_target(self@.board.0, self@.active, p) ==> exists|k: int|
                        0 <= k < r@.len() && #[trigger] r@[k].state == p
            },
    {
        if self.top_out.is_some() || self.pending_lock.is_some() {
            Vec::new()
        } else {
            reachable_locks(&self.board, self.active)
        }
    }

    /// Computes the authoritative lock facts and compacted afterstate for a
    /// placement returned by [`Self::reachable_placements`] without running a
    /// second reachability search. The game itself is not mutated.
    pub fn preview_reachable_placement(&self, placement: &GeometricPlacement) -> (r: Result<PlacementPreview, GameError>)
        requires
            self.wf(),
            self@.playable_error() is None && placement.state.kind == self@.active.kind ==> placement.state.ok()
                && self@.lock_fits(placement.state) && self@.pieces_placed < u64::MAX,
        ensures
            match self@.preview_error(placement.state) {
                Some(e) => r == Err::<PlacementPreview, GameError>(e),
                None => r matches Ok(pv) && pv.board.wf() && pv.board@ == self@.board_after(placement.state)
                    && self@.locked_facts(placement.state, placement.last_action, pv.locked),
            },
    {
        self.ensure_playable()?;
        if placement.state.kind != self.active.kind {
            return Err(GameError::WrongPiece { active: self.active.kind, attempted: placement.state.kind });
        }
        let spin = classify_spin(&self.board, placement.state, placement.last_action, self.config.spin);
        let mut board = self.board;
        let lock = match board.lock(placement.state) {
            Ok(l) => l,
            Err(e) => {
                return Err(GameError::Board(e));
            },
        };
        let locked = LockedPlacement {
            cleared: lock.cleared,
            clear: ClearEvent::from_lock(placement.state.kind, lock.cleared, spin, lock.perfect_clear),
            cleared_garbage: lock.cleared_garbage,
            lock_visibility: lock.visibility,
            pieces_placed: self.pieces_placed + 1,
        };
        Ok(PlacementPreview { board, locked })
    }

    pub fn lock_placement(&mut self, placement: PieceState) -> (r: Result<PlacementOutcome, GameError>)
        requires
            old(self).wf(),
            old(self)@.lock_error(placement) is None ==> old(self)@.lock_fits(placement) && old(self)@.pieces_placed
                < u64::MAX,
        ensures
            final(self).wf(),
            match old(self)@.lock_error(placement) {
                Some(e) => r == Err::<PlacementOutcome, GameError>(e) && *final(self) == *old(self),
                None => r matches Ok(o) && old(self)@.locked_facts(placement, LastAction::NoAction, locked_of(o))
                    && old(self)@.after_lock(placement, locked_of(o)).finish_step() == Ok::<
                    (GameModel, PlacementOutcome),
                    GameError,
                >((final(self)@, o)),
            },
    {
        self.lock_placement_with_action(placement, LastAction::NoAction)
    }

    pub fn lock_placement_with_action(&mut self, placement: PieceState, last_action: LastAction) -> (r: Result<
        PlacementOutcome,
        GameError,
    >)
        requires
            old(self).wf(),
            old(self)@.lock_error(placement) is None ==> old(self)@.lock_fits(placement) && old(self)@.pieces_placed
                < u64::MAX,
        ensures
            final(self).wf(),
            match old(self)@.lock_error(placement) {
                Some(e) => r == Err::<PlacementOutcome, GameError>(e) && *final(self) == *old(self),
                None => r matches Ok(o) && old(self)@.locked_facts(placement, last_action, locked_of(o))
                    && old(self)@.after_lock(placement, locked_of(o)).finish_step() == Ok::<
                    (GameModel, PlacementOutcome),
                    GameError,
                >((final(self)@, o)),
            },
    {
        let locked = self.lock_placement_deferred(placement, last_action)?;
        let ghost mid = self@;
        let r = self.finish_lock();
        proof {
            if let Ok(o) = r {
                assert(locked_of(o) == locked);
            }
        }
        r
    }

    /// Locks and clears the active piece without consuming the next bag item.
    /// Versus code uses this boundary to resolve attack/cancel/garbage before
    /// the next spawn and its Clutch Clear block-out check.
    pub fn lock_placement_deferred(&mut self, placement: PieceState, last_action: LastAction) -> (r: Result<
        LockedPlacement,
        GameError,
    >)
        requires
            old(self).wf(),
            old(self)@.lock_error(placement) is None ==> old(self)@.lock_fits(placement) && old(self)@.pieces_placed
                < u64::MAX,
        ensures
            final(self).wf(),
            match old(self)@.lock_error(placement) {
                Some(e) => r == Err::<LockedPlacement, GameError>(e) && *final(self) == *old(self),
                None => r matches Ok(l) && old(self)@.locked_facts(placement, last_action, l) && final(self)@
                    == old(self)@.after_lock(placement, l),
            },
    {
        self.ensure_playable()?;
        if placement.kind != self.active.kind {
            return Err(GameError::WrongPiece { active: self.active.kind, attempted: placement.kind });
        }
        let candidates = reachable_locks(&self.board, self.active);
        let mut reachable = false;
        let mut i: usize = 0;
        while i < candidates.len()
            invariant
                i <= candidates@.len(),
                reachable <==> exists|k: int| 0 <= k < i && #[trigger] candidates@[k].state == placement,
            decreases candidates@.len() - i,
        {
            if candidates[i].state == placement {
                reachable = true;
            }
            i += 1;
        }
        if !reachable {
            return Err(GameError::UnreachablePlacement(placement));
        }
        proof {
            lemma_lock_target_fits(self.board@.0, self.active, placement);
            lemma_fits_bounds(self.board@.0, placement);
        }
        let spin = classify_spin(&self.board, placement, last_action, self.config.spin);
        let lock = match self.board.lock(placement) {
            Ok(l) => l,
            Err(e) => {
                return Err(GameError::Board(e));
            },
        };
        proof {
            lemma_compact_has_no_full_rows(placed(old(self).board@.0, placement));
        }
        self.pieces_placed = self.pieces_placed + 1;
        self.hold_available = true;
        let locked = LockedPlacement {
            cleared: lock.cleared,
            clear: ClearEvent::from_lock(placement.kind, lock.cleared, spin, lock.perfect_clear),
            cleared_garbage: lock.cleared_garbage,
            lock_visibility: lock.visibility,
            pieces_placed: self.pieces_placed,
        };
        self.pending_lock = Some(locked);
        Ok(locked)
    }

    /// Completes a deferred lock after versus garbage processing.
    pub fn finish_lock(&mut self) -> (r: Result<PlacementOutcome, GameError>)
        requires
            old(self).wf(),
        ensures
            final(self).wf(),
            match old(self)@.finish_step() {
                Ok((m, o)) => r == Ok::<PlacementOutcome, GameError>(o) && final(self)@ == m,
                Err(e) => r == Err::<PlacementOutcome, GameError>(e) && *final(self) == *old(self),
            },
    {
        if self.top_out.is_some() {
            return Err(GameError::GameOver);
        }
        let locked = match self.pending_lock {
            Some(l) => l,
            None => {
                return Err(GameError::NoPendingLock);
            },
        };
        self.pending_lock = None;
        let next = self.take_next_piece();
        self.active = self.config.spawn.piece(next);
        proof {
            assert(0 <= kind_index(next) < 7);
        }
        let clutch_available = self.config.clutch_clear && locked.cleared.count() > 0;
        let lock_out = if clutch_available {
            None
        } else {
            self.config.top_out.lock_reason(locked.lock_visibility)
        };
        let mut clutch = false;
        if lock_out.is_none() && self.board.collides(self.active) && clutch_available {
            clutch = self.raise_spawn_until_legal();
        }
        let block_out = if self.board.collides(self.active) {
            Some(TopOutReason::BlockOut)
        } else {
            None
        };
        self.top_out = if lock_out.is_some() {
            lock_out
        } else {
            block_out
        };
        Ok(PlacementOutcome {
            cleared: locked.cleared,
            clear: locked.clear,
            cleared_garbage: locked.cleared_garbage,
            lock_visibility: locked.lock_visibility,
            top_out: self.top_out.is_some(),
            top_out_reason: self.top_out,
            next_active: self.active,
            pieces_placed: self.pieces_placed,
            clutch,
        })
    }

    /// Inserts one instant garbage row at the lock/spawn boundary. A completely
    /// filled buffer ceiling is terminal before the push, matching
    /// `AreWeToppedYet`; a partially occupied ceiling may be discarded.
    pub fn push_garbage_before_spawn(&mut self, hole_column: usize) -> (r: Result<GarbagePushResult, GameError>)
        requires
            old(self).wf(),
        ensures
            final(self).wf(),
            match old(self)@.garbage_step(hole_column) {
                Ok((m, o)) => r == Ok::<GarbagePushResult, GameError>(o) && final(self)@ == m,
                Err(e) => r == Err::<GarbagePushResult, GameError>(e) && *final(self) == *old(self),
            },
    {
        if self.pending_lock.is_none() {
            return Err(GameError::NoPendingLock);
        }
        if self.board.buffer_ceiling_full() {
            self.top_out = Some(TopOutReason::GarbageOut);
            return Ok(GarbagePushResult { overflowed_buffer: true });
        }
        let ghost r0 = self.board@.0;
        match self.board.push_garbage_line(hole_column) {
            Ok(res) => {
                proof {
                    crate::bits::lemma_garbage_row(hole_column as u16, 0);
                    assert forall|y: int| 0 <= y < self.board@.0.len() implies #[trigger] self.board@.0[y] != FULL_ROW by {
                        if y > 0 {
                            assert(self.board@.0[y] == r0[y - 1]);
                        }
                    }
                }
                Ok(res)
            },
            Err(e) => Err(GameError::Board(e)),
        }
    }
}

} // verus!
