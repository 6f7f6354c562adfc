//! A single-player frame session driven by wire-level input edges, with the
//! observable view a manual test client renders.
use vstd::prelude::*;
use vstd::string::*;
use crate::board::{HEIGHT, VISIBLE_HEIGHT};
use crate::clear::ClearEvent;
use crate::game::{GameConfig, PlacementOutcome, fresh_game, is_default_config, TETRIO_7_BAG_ORDER};
use crate::handling::{HandlingRules, HandlingState, InputButton, InputEdge, InputEdgeKind, SoftDropMode};
use crate::piece::PieceKind;
use crate::rng::is_permutation_of_all;
use crate::rotation::RotationDirection;
use crate::rules_tetrio::{
    ActiveTimingProfile, PlayerHandlingProfile, ProfileActivationError, TetrioRulesDraft, lemma_observed_profile_activates,
};
use crate::session::{FrameSession, SessionFrameOutcome, SessionModel, SessionStepError, entry_timing};
use crate::spin::SpinClassification;
use crate::timing::{LastAction, TimingRules, TimingState};
use crate::topout::TopOutReason;
use crate::text::{append_decimal, decimal};

verus! {

const DEFAULT_SEED: u64 = 1;

#[derive(Clone, Debug)]
pub struct StepRequest {
    pub edges: Vec<WireInputEdge>,
}

#[derive(Clone, Debug)]
pub struct ResetRequest {
    pub seed: u64,
}

#[derive(Clone, Debug)]
pub struct WireInputEdge {
    pub button: String,
    pub kind: String,
}

#[derive(Clone, Debug)]
pub struct PlaygroundView {
    pub frame: u64,
    pub board_rows: Vec<u16>,
    pub garbage_rows: Vec<u16>,
    pub active: Option<ActivePieceView>,
    pub hold: Option<&'static str>,
    pub preview: Vec<&'static str>,
    pub pieces_placed: u64,
    pub top_out: Option<&'static str>,
    pub timing: Option<TimingView>,
    pub last_event: String,
}

#[derive(Clone, Debug)]
pub struct ActivePieceView {
    pub kind: &'static str,
    pub cells: [[i16; 2]; 4],
}

#[derive(Clone, Debug)]
pub struct TimingView {
    pub fall_fraction_micros: u32,
    pub lock_elapsed_frames: u16,
    pub lock_resets_used: u16,
    pub locked: bool,
    pub last_action: String,
}

#[derive(Debug)]
pub enum PlaygroundError {
    Profile(String),
    Engine(String),
    Input(String),
}

impl PlaygroundError {
    pub open spec fn text(&self) -> Seq<char> {
        match self {
            PlaygroundError::Profile(m) => "profile error: "@ + m@,
            PlaygroundError::Engine(m) => "engine error: "@ + m@,
            PlaygroundError::Input(m) => "input error: "@ + m@,
        }
    }

    pub fn message(&self) -> (r: String)
        ensures
            r@ == self.text(),
    {
        match self {
            PlaygroundError::Profile(m) => {
                let mut s = String::from_str("profile error: ");
                s.append(m.as_str());
                s
            },
            PlaygroundError::Engine(m) => {
                let mut s = String::from_str("engine error: ");
                s.append(m.as_str());
                s
            },
            PlaygroundError::Input(m) => {
                let mut s = String::from_str("input error: ");
                s.append(m.as_str());
                s
            },
        }
    }
}

pub open spec fn piece_letter(k: PieceKind) -> Seq<char> {
    match k {
        PieceKind::I => "I"@,
        PieceKind::J => "J"@,
        PieceKind::L => "L"@,
        PieceKind::O => "O"@,
        PieceKind::S => "S"@,
        PieceKind::T => "T"@,
        PieceKind::Z => "Z"@,
    }
}

pub open spec fn rotation_text(d: RotationDirection) -> Seq<char> {
    match d {
        RotationDirection::Clockwise => "cw"@,
        RotationDirection::Counterclockwise => "ccw"@,
        RotationDirection::Half => "180"@,
    }
}

pub open spec fn top_out_text(r: TopOutReason) -> Seq<char> {
    match r {
        TopOutReason::BlockOut => "block_out"@,
        TopOutReason::LockOut => "lock_out"@,
        TopOutReason::PartialLockOut => "partial_lock_out"@,
        TopOutReason::GarbageOut => "garbage_out"@,
    }
}

pub open spec fn last_action_text(a: LastAction) -> Seq<char> {
    match a {
        LastAction::NoAction => "none"@,
        LastAction::Translation => "translation"@,
        LastAction::SoftDrop => "soft_drop"@,
        LastAction::HardDrop => "hard_drop"@,
        LastAction::Rotation { direction, kick_index } => "rotation:"@ + rotation_text(direction) + ":kick"@
            + decimal(kick_index as nat),
    }
}

pub open spec fn separator() -> Seq<char> {
    " · "@
}

pub open spec fn lines_part(clear: ClearEvent) -> Seq<char> {
    if clear.lines > 0 {
        separator() + decimal(clear.lines as nat) + "줄 제거"@
    } else {
        Seq::empty()
    }
}

pub open spec fn spin_part(clear: ClearEvent) -> Seq<char> {
    match clear.spin {
        Some(spin) => separator() + (match spin.classification {
            SpinClassification::Mini => "MINI"@,
            SpinClassification::Full => "FULL"@,
        }) + " SPIN"@,
        None => Seq::empty(),
    }
}

pub open spec fn flag_part(flag: bool, text: Seq<char>) -> Seq<char> {
    if flag {
        separator() + text
    } else {
        Seq::empty()
    }
}

pub open spec fn top_out_part(reason: Option<TopOutReason>) -> Seq<char> {
    match reason {
        Some(r) => separator() + "TOP OUT: "@ + top_out_text(r),
        None => Seq::empty(),
    }
}

/// The event line of a placement: its parts joined by the separator.
pub open spec fn placement_text(p: PlacementOutcome) -> Seq<char> {
    piece_letter(p.clear.piece) + " 고정"@ + lines_part(p.clear) + spin_part(p.clear) + flag_part(
        p.clear.perfect_clear,
        "PERFECT CLEAR"@,
    ) + flag_part(p.clutch, "CLUTCH"@) + top_out_part(p.top_out_reason)
}

/// The event a frame reports, if any: a placement, else an applied hold.
pub open spec fn event_text(outcome: SessionFrameOutcome) -> Option<Seq<char>> {
    match outcome.placement {
        Some(p) => Some(placement_text(p)),
        None => if outcome.hold_applied {
            Some("HOLD"@)
        } else {
            None
        },
    }
}

pub open spec fn button_named(name: Seq<char>) -> Option<InputButton> {
    if name == "left"@ {
        Some(InputButton::Left)
    } else if name == "right"@ {
        Some(InputButton::Right)
    } else if name == "soft_drop"@ {
        Some(InputButton::SoftDrop)
    } else if name == "hard_drop"@ {
        Some(InputButton::HardDrop)
    } else if name == "rotate_clockwise"@ {
        Some(InputButton::RotateClockwise)
    } else if name == "rotate_counterclockwise"@ {
        Some(InputButton::RotateCounterclockwise)
    } else if name == "rotate_half"@ {
        Some(InputButton::RotateHalf)
    } else if name == "hold"@ {
        Some(InputButton::Hold)
    } else {
        None
    }
}

pub open spec fn edge_kind_named(name: Seq<char>) -> Option<InputEdgeKind> {
    if name == "press"@ {
        Some(InputEdgeKind::Press)
    } else if name == "release"@ {
        Some(InputEdgeKind::Release)
    } else {
        None
    }
}

/// The engine edge a wire edge names, or the text of the input error.
pub open spec fn wire_edge(button: Seq<char>, kind: Seq<char>) -> Result<InputEdge, Seq<char>> {
    match button_named(button) {
        None => Err("unknown button"@),
        Some(b) => match edge_kind_named(kind) {
            None => Err("unknown edge kind"@),
            Some(k) => Ok(InputEdge { button: b, kind: k }),
        },
    }
}

/// Converts the first `n` wire edges, stopping at the first that is invalid.
pub open spec fn wire_edges(edges: Seq<WireInputEdge>, n: nat) -> Result<Seq<InputEdge>, Seq<char>>
    decreases n,
{
    if n == 0 {
        Ok(Seq::empty())
    } else {
        match wire_edges(edges, (n - 1) as nat) {
            Err(m) => Err(m),
            Ok(s) => match wire_edge(edges[n - 1].button@, edges[n - 1].kind@) {
                Err(m) => Err(m),
                Ok(e) => Ok(s.push(e)),
            },
        }
    }
}

/// The handling a manual tester plays with; the mode supplies mechanics and
/// the player supplies effective handling.
pub open spec fn playground_handling() -> HandlingRules {
    HandlingRules { das_frames: 10, arr_frames: 2, dcd_frames: 2, soft_drop: SoftDropMode::CellsPerFrame(41) }
}

/// `v` shows the session: the visible rows, the falling piece, hold,
/// preview, counters, top-out and timing, and the last event line.
pub open spec fn view_fits(s: SessionModel, event: Seq<char>, v: PlaygroundView) -> bool {
    let g = s.game;
    &&& v.frame == s.frame
    &&& v.board_rows@ == g.board.0.take(VISIBLE_HEIGHT as int)
    &&& v.garbage_rows@ == g.board.1.take(VISIBLE_HEIGHT as int)
    &&& match (v.active, s.timing) {
        (None, None) => true,
        (Some(a), Some(t)) => {
            &&& a.kind@ == piece_letter(t.piece.kind)
            &&& forall|i: int| 0 <= i < 4 ==> (#[trigger] a.cells[i])[0] == t.piece.cell(i).0 && a.cells[i][1] == t.piece.cell(i).1
        },
        _ => false,
    }
    &&& match (v.hold, g.hold) {
        (None, None) => true,
        (Some(h), Some(k)) => h@ == piece_letter(k),
        _ => false,
    }
    &&& v.preview@.len() == g.queue.len()
    &&& forall|i: int| 0 <= i < g.queue.len() ==> (#[trigger] v.preview@[i])@ == piece_letter(g.queue[i])
    &&& v.pieces_placed == g.pieces_placed
    &&& match (v.top_out, g.top_out) {
        (None, None) => true,
        (Some(t), Some(r)) => t@ == top_out_text(r),
        _ => false,
    }
    &&& match (v.timing, s.timing) {
        (None, None) => true,
        (Some(tv), Some(t)) => {
            &&& tv.fall_fraction_micros == t.fall_fraction_micros
            &&& tv.lock_elapsed_frames == t.lock_elapsed_frames
            &&& tv.lock_resets_used == t.lock_resets_used
            &&& tv.locked == t.locked
            &&& tv.last_action@ == last_action_text(t.last_action)
        },
        _ => false,
    }
    &&& v.last_event@ == event
}

pub struct PlaygroundState {
    session: FrameSession,
    timing: ActiveTimingProfile,
    handling: HandlingRules,
    last_event: String,
}

fn piece_name(piece: PieceKind) -> (r: &'static str)
    ensures
        r@ == piece_letter(piece),
{
    match piece {
        PieceKind::I => "I",
        PieceKind::J => "J",
        PieceKind::L => "L",
        PieceKind::O => "O",
        PieceKind::S => "S",
        PieceKind::T => "T",
        PieceKind::Z => "Z",
    }
}

fn rotation_name(direction: RotationDirection) -> (r: &'static str)
    ensures
        r@ == rotation_text(direction),
{
    match direction {
        RotationDirection::Clockwise => "cw",
        RotationDirection::Counterclockwise => "ccw",
        RotationDirection::Half => "180",
    }
}

fn top_out_name(reason: TopOutReason) -> (r: &'static str)
    ensures
        r@ == top_out_text(reason),
{
    match reason {
        TopOutReason::BlockOut => "block_out",
        TopOutReason::LockOut => "lock_out",
        TopOutReason::PartialLockOut => "partial_lock_out",
        TopOutReason::GarbageOut => "garbage_out",
    }
}

fn last_action_name(action: LastAction) -> (r: String)
    ensures
        r@ == last_action_text(action),
{
    match action {
        LastAction::NoAction => String::from_str("none"),
        LastAction::Translation => String::from_str("translation"),
        LastAction::SoftDrop => String::from_str("soft_drop"),
        LastAction::HardDrop => String::from_str("hard_drop"),
        LastAction::Rotation { direction, kick_index } => {
            let mut s = String::from_str("rotation:");
            s.append(rotation_name(direction));
            s.append(":kick");
            append_decimal(&mut s, kick_index as u64);
            s
        },
    }
}

fn timing_view(timing: &TimingState) -> (r: TimingView)
    ensures
        r.fall_fraction_micros == timing.fall_fraction_micros,
        r.lock_elapsed_frames == timing.lock_elapsed_frames,
        r.lock_resets_used == timing.lock_resets_used,
        r.locked == timing.locked,
        r.last_action@ == last_action_text(timing.last_action),
{
    TimingView {
        fall_fraction_micros: timing.fall_fraction_micros,
        lock_elapsed_frames: timing.lock_elapsed_frames,
        lock_resets_used: timing.lock_resets_used,
        locked: timing.locked,
        last_action: last_action_name(timing.last_action),
    }
}

fn append_lines(s: &mut String, clear: ClearEvent)
    ensures
        final(s)@ == old(s)@ + lines_part(clear),
{
    if clear.lines > 0 {
        s.append(" · ");
        append_decimal(s, clear.lines as u64);
        s.append("줄 제거");
        assert(final(s)@ =~= old(s)@ + lines_part(clear));
    } else {
        assert(s@ =~= old(s)@ + lines_part(clear));
    }
}

fn append_spin(s: &mut String, clear: ClearEvent)
    ensures
        final(s)@ == old(s)@ + spin_part(clear),
{
    match clear.spin {
        Some(spin) => {
            s.append(" · ");
            match spin.classification {
                SpinClassification::Mini => s.append("MINI"),
                SpinClassification::Full => s.append("FULL"),
            }
            s.append(" SPIN");
            assert(final(s)@ =~= old(s)@ + spin_part(clear));
        },
        None => {
            assert(s@ =~= old(s)@ + spin_part(clear));
        },
    }
}

fn append_flag(s: &mut String, flag: bool, text: &str)
    ensures
        final(s)@ == old(s)@ + flag_part(flag, text@),
{
    if flag {
        s.append(" · ");
        s.append(text);
        assert(final(s)@ =~= old(s)@ + flag_part(flag, text@));
    } else {
        assert(s@ =~= old(s)@ + flag_part(flag, text@));
    }
}

fn append_top_out(s: &mut String, reason: Option<TopOutReason>)
    ensures
        final(s)@ == old(s)@ + top_out_part(reason),
{
    match reason {
        Some(r) => {
            s.append(" · ");
            s.append("TOP OUT: ");
            s.append(top_out_name(r));
            assert(final(s)@ =~= old(s)@ + top_out_part(reason));
        },
        None => {
            assert(s@ =~= old(s)@ + top_out_part(reason));
        },
    }
}

fn describe_outcome(outcome: &SessionFrameOutcome) -> (r: Option<String>)
    ensures
        match event_text(*outcome) {
            None => r is None,
            Some(t) => r matches Some(s) && s@ == t,
        },
{
    let placement = match outcome.placement {
        Some(p) => p,
        None => {
            if outcome.hold_applied {
                return Some(String::from_str("HOLD"));
            }
            return None;
        },
    };
    let clear = placement.clear;
    let mut s = String::from_str(piece_name(clear.piece));
    s.append(" 고정");
    append_lines(&mut s, clear);
    append_spin(&mut s, clear);
    append_flag(&mut s, clear.perfect_clear, "PERFECT CLEAR");
    append_flag(&mut s, placement.clutch, "CLUTCH");
    append_top_out(&mut s, placement.top_out_reason);
    Some(s)
}

pub(crate) fn string_named(s: &String, name: &str) -> (r: bool)
    ensures
        r == (s@ == name@),
{
    *s == String::from_str(name)
}

fn convert_edge(edge: &WireInputEdge) -> (r: Result<InputEdge, PlaygroundError>)
    ensures
        match wire_edge(edge.button@, edge.kind@) {
            Ok(e) => r == Ok::<InputEdge, PlaygroundError>(e),
            Err(m) => r matches Err(PlaygroundError::Input(t)) && t@ == m,
        },
{
    let b = &edge.button;
    let button = if string_named(b, "left") {
        InputButton::Left
    } else if string_named(b, "right") {
        InputButton::Right
    } else if string_named(b, "soft_drop") {
        InputButton::SoftDrop
    } else if string_named(b, "hard_drop") {
        InputButton::HardDrop
    } else if string_named(b, "rotate_clockwise") {
        InputButton::RotateClockwise
    } else if string_named(b, "rotate_counterclockwise") {
        InputButton::RotateCounterclockwise
    } else if string_named(b, "rotate_half") {
        InputButton::RotateHalf
    } else if string_named(b, "hold") {
        InputButton::Hold
    } else {
        return Err(PlaygroundError::Input(String::from_str("unknown button")));
    };
    if string_named(&edge.kind, "press") {
        Ok(InputEdge::press(button))
    } else if string_named(&edge.kind, "release") {
        Ok(InputEdge::release(button))
    } else {
        Err(PlaygroundError::Input(String::from_str("unknown edge kind")))
    }
}

fn convert_edges(edges: &Vec<WireInputEdge>) -> (r: Result<Vec<InputEdge>, PlaygroundError>)
    ensures
        match wire_edges(edges@, edges@.len()) {
            Ok(s) => r matches Ok(v) && v@ == s,
            Err(m) => r matches Err(PlaygroundError::Input(t)) && t@ == m,
        },
{
    let mut out: Vec<InputEdge> = Vec::new();
    let mut i: usize = 0;
    while i < edges.len()
        invariant
            i <= edges@.len(),
            wire_edges(edges@, i as nat) == Ok::<Seq<InputEdge>, Seq<char>>(out@),
        decreases edges@.len() - i,
    {
        match convert_edge(&edges[i]) {
            Ok(e) => {
                out.push(e);
            },
            Err(error) => {
                proof {
                    lemma_wire_edges_stay_err(edges@, (i + 1) as nat, edges@.len());
                }
                return Err(error);
            },
        }
        i += 1;
    }
    Ok(out)
}

proof fn lemma_wire_edges_stay_err(edges: Seq<WireInputEdge>, m: nat, n: nat)
    requires
        m <= n,
        wire_edges(edges, m) is Err,
    ensures
        wire_edges(edges, n) == wire_edges(edges, m),
    decreases n,
{
    if m < n {
        lemma_wire_edges_stay_err(edges, m, (n - 1) as nat);
    }
}

pub(crate) proof fn lemma_tetrio_order_is_permutation()
    ensures
        is_permutation_of_all(TETRIO_7_BAG_ORDER@),
{
    let o = TETRIO_7_BAG_ORDER@;
    assert(o[0] == PieceKind::Z && o[1] == PieceKind::L && o[2] == PieceKind::O && o[3] == PieceKind::S && o[4]
        == PieceKind::I && o[5] == PieceKind::J && o[6] == PieceKind::T);
    assert forall|k: PieceKind| #[trigger] o.contains(k) by {
        match k {
            PieceKind::Z => assert(o[0] == k),
            PieceKind::L => assert(o[1] == k),
            PieceKind::O => assert(o[2] == k),
            PieceKind::S => assert(o[3] == k),
            PieceKind::I => assert(o[4] == k),
            PieceKind::J => assert(o[5] == k),
            PieceKind::T => assert(o[6] == k),
        }
    }
}

/// All locks fit on an empty board: it has no full rows.
pub(crate) proof fn lemma_empty_locks_fit(g: crate::game::GameModel)
    requires
        g.board == (Seq::new(HEIGHT as nat, |i: int| 0u16), Seq::new(HEIGHT as nat, |i: int| 0u16)),
    ensures
        g.all_locks_fit(),
{
    let r = g.board.0;
    assert(crate::board::rows_wf(r, g.board.1)) by {
        assert forall|y: int| 0 <= y < HEIGHT implies (#[trigger] g.board.1[y] & !r[y]) == 0 by {
            assert(g.board.1[y] == 0u16);
            assert((0u16 & !0u16) == 0u16) by (bit_vector);
        }
    }
    assert(crate::board::no_full_rows(r));
    assert forall|p: crate::piece::PieceState| crate::board::hits(r, p) || #[trigger] crate::board::full_rows(
        crate::board::placed(r, p),
        HEIGHT as nat,
    ).len() <= 4 by {
        if !crate::board::hits(r, p) {
            crate::board::lemma_lock_clears_at_most_four(r, g.board.1, p);
        }
    }
}

fn copy_visible(rows: &[u16; HEIGHT]) -> (r: Vec<u16>)
    ensures
        r@ == rows@.take(VISIBLE_HEIGHT as int),
{
    let mut out: Vec<u16> = Vec::new();
    let mut i: usize = 0;
    while i < VISIBLE_HEIGHT
        invariant
            i <= VISIBLE_HEIGHT,
            out@ == rows@.take(i as int),
        decreases VISIBLE_HEIGHT - i,
    {
        out.push(rows[i]);
        proof {
            assert(rows@.take(i + 1) =~= rows@.take(i as int).push(rows@[i as int]));
        }
        i += 1;
    }
    out
}

/// The timing profile of the observed TETRA LEAGUE draft, which activates.
fn observed_timing_profile() -> (r: ActiveTimingProfile)
    ensures
        r.wf(),
        exists|d: TetrioRulesDraft|
            crate::rules_tetrio::observed_tetra_league(d) && #[trigger] crate::rules_tetrio::timing_profile_of(
                d.timing,
                r,
            ),
{
    let draft = TetrioRulesDraft::tetra_league_beta_1_7_8_season_2();
    proof {
        lemma_observed_profile_activates(draft);
    }
    match draft.try_timing_profile() {
        Ok(t) => t,
        Err(_) => vstd::pervasive::unreached(),
    }
}

/// A new session under the default configuration on an empty board.
fn fresh_session(seed: u64) -> (r: FrameSession)
    ensures
        r.wf(),
        r@.game.all_locks_fit(),
        is_default_config(r@.game.config),
        r@.game == fresh_game(
            seed,
            r@.game.config,
            (Seq::new(HEIGHT as nat, |i: int| 0u16), Seq::new(HEIGHT as nat, |i: int| 0u16)),
        ),
        r@.timing == entry_timing(r@.game, LastAction::NoAction),
        r@.handling == HandlingState::new_spec(),
        r@.frame == 0,
{
    let config = GameConfig::default();
    proof {
        lemma_tetrio_order_is_permutation();
    }
    match FrameSession::new(seed, config) {
        Ok(session) => {
            proof {
                lemma_empty_locks_fit(session@.game);
            }
            session
        },
        Err(_) => vstd::pervasive::unreached(),
    }
}

impl PlaygroundState {
    pub closed spec fn session_model(&self) -> SessionModel {
        self.session@
    }

    pub closed spec fn profile(&self) -> ActiveTimingProfile {
        self.timing
    }

    pub closed spec fn handling_rules(&self) -> HandlingRules {
        self.handling
    }

    pub closed spec fn event(&self) -> Seq<char> {
        self.last_event@
    }

    pub closed spec fn wf(&self) -> bool {
        &&& self.session.wf()
        &&& self.session@.game.all_locks_fit()
        &&& self.timing.wf()
    }

    /// A fresh session of `seed` under the default game configuration, timed
    /// by the observed TETRA LEAGUE profile and the manual-test handling.
    pub open spec fn fresh(&self, seed: u64) -> bool {
        let s = self.session_model();
        &&& is_default_config(s.game.config)
        &&& s.game == fresh_game(
            seed,
            s.game.config,
            (Seq::new(HEIGHT as nat, |i: int| 0u16), Seq::new(HEIGHT as nat, |i: int| 0u16)),
        )
        &&& s.timing == entry_timing(s.game, LastAction::NoAction)
        &&& s.handling == HandlingState::new_spec()
        &&& s.frame == 0
        &&& exists|d: TetrioRulesDraft|
            crate::rules_tetrio::observed_tetra_league(d) && #[trigger] crate::rules_tetrio::timing_profile_of(
                d.timing,
                self.profile(),
            )
        &&& self.handling_rules() == playground_handling()
        &&& self.event() == "준비 완료"@
    }

    pub fn new(seed: u64) -> (r: Result<Self, PlaygroundError>)
        ensures
            r matches Ok(state) && state.wf() && state.fresh(seed),
    {
        let timing = observed_timing_profile();
        let handling = PlayerHandlingProfile::normalized(10, 2, 2, SoftDropMode::CellsPerFrame(41)).core_rules();
        let session = fresh_session(seed);
        let state = PlaygroundState { session, timing, handling, last_event: String::from_str("준비 완료") };
        proof {
            let d = choose|d: TetrioRulesDraft|
                crate::rules_tetrio::observed_tetra_league(d) && #[trigger] crate::rules_tetrio::timing_profile_of(
                    d.timing,
                    timing,
                );
            assert(crate::rules_tetrio::timing_profile_of(d.timing, state.profile()));
        }
        Ok(state)
    }

    pub fn reset(&mut self, seed: u64) -> (r: Result<PlaygroundView, PlaygroundError>)
        ensures
            final(self).wf(),
            final(self).fresh(seed),
            r matches Ok(v) && view_fits(final(self).session_model(), final(self).event(), v),
    {
        match Self::new(seed) {
            Ok(state) => {
                *self = state;
            },
            Err(e) => {
                return Err(e);
            },
        }
        Ok(self.view())
    }

    /// One frame of the session from wire input. A terminal session only
    /// reports its view; invalid input, an unavailable timing profile and an
    /// engine error each come back as errors.
    #[verifier::rlimit(40)]
    pub fn step(&mut self, request: StepRequest) -> (r: Result<PlaygroundView, PlaygroundError>)
        requires
            old(self).wf(),
            old(self).session_model().game.pieces_placed < u64::MAX,
        ensures
            final(self).wf(),
            final(self).profile() == old(self).profile(),
            final(self).handling_rules() == old(self).handling_rules(),
            ({
                let s0 = old(self).session_model();
                if s0.timing is None {
                    &&& *final(self) == *old(self)
                    &&& r matches Ok(v) && view_fits(s0, old(self).event(), v)
                } else {
                    match wire_edges(request.edges@, request.edges@.len()) {
                        Err(m) => {
                            &&& *final(self) == *old(self)
                            &&& r matches Err(PlaygroundError::Input(t)) && t@ == m
                        },
                        Ok(edges) => match old(self).profile().rules_at_spec(s0.frame) {
                            Err(e) => {
                                &&& *final(self) == *old(self)
                                &&& r matches Err(PlaygroundError::Profile(t)) && t@ == e.text()
                            },
                            Ok(rules) => {
                                let s1 = final(self).session_model();
                                &&& exists|out: Result<SessionFrameOutcome, SessionStepError>|
                                    #[trigger] s0.step_post(rules, old(self).handling_rules(), edges, s1, out) && match out {
                                        Err(e) => {
                                            &&& final(self).event() == old(self).event()
                                            &&& r matches Err(PlaygroundError::Engine(t)) && t@ == e.text()
                                        },
                                        Ok(o) => {
                                            &&& final(self).event() == match event_text(o) {
                                                Some(t) => t,
                                                None => old(self).event(),
                                            }
                                            &&& r matches Ok(v) && view_fits(s1, final(self).event(), v)
                                        },
                                    }
                            },
                        },
                    }
                }
            }),
    {
        if self.session.is_terminal() {
            return Ok(self.view());
        }
        let edges = match convert_edges(&request.edges) {
            Ok(e) => e,
            Err(error) => {
                return Err(error);
            },
        };
        let rules = match self.timing.core_rules_at_frame(self.session.frame()) {
            Ok(rules) => rules,
            Err(e) => {
                return Err(PlaygroundError::Profile(e.message()));
            },
        };
        let ghost s0 = self.session@;
        let outcome = self.session.step(rules, self.handling, edges.as_slice());
        match outcome {
            Ok(o) => {
                if let Some(event) = describe_outcome(&o) {
                    self.last_event = event;
                }
                Ok(self.view())
            },
            Err(e) => Err(PlaygroundError::Engine(e.message())),
        }
    }

    pub fn view(&self) -> (r: PlaygroundView)
        requires
            self.wf(),
        ensures
            view_fits(self.session_model(), self.event(), r),
    {
        let game = self.session.game();
        let board = game.board();
        let active = match self.session.timing() {
            Some(timing) => {
                proof {
                    self.session.lemma_wf_timing();
                }
                let cells = timing.piece.cells();
                Some(
                    ActivePieceView {
                        kind: piece_name(timing.piece.kind),
                        cells: [
                            [cells[0].0, cells[0].1],
                            [cells[1].0, cells[1].1],
                            [cells[2].0, cells[2].1],
                            [cells[3].0, cells[3].1],
                        ],
                    },
                )
            },
            None => None,
        };
        let hold = match game.hold() {
            Some(k) => Some(piece_name(k)),
            None => None,
        };
        let queue = game.preview();
        let mut preview: Vec<&'static str> = Vec::new();
        let mut i: usize = 0;
        while i < queue.len()
            invariant
                i <= queue@.len(),
                preview@.len() == i,
                forall|j: int| 0 <= j < i ==> (#[trigger] preview@[j])@ == piece_letter(queue@[j]),
            decreases queue@.len() - i,
        {
            preview.push(piece_name(queue[i]));
            i += 1;
        }
        let top_out = match game.top_out_reason() {
            Some(reason) => Some(top_out_name(reason)),
            None => None,
        };
        let timing = match self.session.timing() {
            Some(t) => Some(timing_view(t)),
            None => None,
        };
        PlaygroundView {
            frame: self.session.frame(),
            board_rows: copy_visible(board.rows()),
            garbage_rows: copy_visible(board.garbage_rows()),
            active,
            hold,
            preview,
            pieces_placed: game.pieces_placed(),
            top_out,
            timing,
            last_event: self.last_event.clone(),
        }
    }
}

impl Default for PlaygroundState {
    fn default() -> (r: Self)
        ensures
            r.wf(),
            r.fresh(1),
    {
        match Self::new(DEFAULT_SEED) {
            Ok(state) => state,
            Err(_) => vstd::pervasive::unreached(),
        }
    }
}

} // verus!
