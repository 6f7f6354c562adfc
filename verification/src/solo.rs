//! Solo afterstate candidates for placement-level imitation data: every
//! reachable lock with and without hold, its features, its teacher score and
//! its rank.
use vstd::prelude::*;
use vstd::string::*;
use vstd::utf8::encode_utf8;
use sha2::{Digest, Sha256};
use crate::board::{HEIGHT, all_empty, any_garbage, compact, fnv_board, full_rows, hits, placed, survivors};
use crate::conformance::blank;
use crate::features::{FEATURE_COUNT, FEATURE_NAMES, extract_afterstate_features, features_defined, features_spec, landing_x2};
use crate::game::{GameConfig, GameError, GameModel, GameState};
use crate::piece::{Orientation, PieceKind, PieceState};
use crate::playground::piece_letter;
use crate::reachability::{GeometricPlacement, grid_of, lemma_lock_target_fits, lock_target, path_last_action, replay};
use crate::teacher::{DELLACHERIE_SCALED_WEIGHTS, LinearTeacher, TeacherError, score_fold};
use crate::text::{decimal, hex_bytes, hex_text, hex_words, hex_word_text};
use crate::timing::LastAction;

verus! {

pub const DATASET_SCHEMA_VERSION: &'static str = "solo-afterstate-imitation-v1";

pub const ACTION_SPACE_ID: &'static str = "geometric-locked-afterstate-v1";

pub const MECHANICS_STATUS: &'static str = "OBSERVED_NOT_FUNCTIONALLY_VERIFIED";

pub const RULES_ID: &'static str = "tetrio-beta-1.7.8-solo-bootstrap-observed-v1";

/// Canonical text hashed into every manifest. Any transition-relevant default
/// change must come with a new rules id and canonical text.
pub const RULES_CANONICAL: &'static str = "rules_id=tetrio-beta-1.7.8-solo-bootstrap-observed-v1\ngame_config=engine_core_default\naction_space=geometric_locked_afterstate_v1\ntiming=placement_level_no_frame_budget\nscoring=none\n";

pub const TEACHER_ID: &'static str = "dellacherie-linear-v1";

pub const TEACHER_STYLE: &'static str = "solo-stack-survival";

/// The SHA-256 digest of a byte sequence.
pub uninterp spec fn sha256_digest(bytes: Seq<u8>) -> Seq<u8>;

/// Calls `sha2::Sha256::digest`; the result is the SHA-256 digest of the
/// bytes, which depends on the bytes alone.
#[verifier::external_body]
fn sha256(bytes: &[u8]) -> (r: [u8; 32])
    ensures
        r@ == sha256_digest(bytes@),
{
    Sha256::digest(bytes).into()
}

/// Lowercase hexadecimal SHA-256 of the bytes.
pub fn sha256_hex(bytes: &[u8]) -> (r: String)
    ensures
        r@ == hex_bytes(sha256_digest(bytes@)),
{
    let digest = sha256(bytes);
    hex_text(digest.as_slice())
}

#[derive(Clone, Debug, PartialEq, Eq)]
pub struct ActionToken {
    pub hold: bool,
    pub piece: String,
    pub orientation: String,
    pub x: i16,
    pub y: i16,
}

#[derive(Clone, Debug, PartialEq, Eq)]
pub struct ObservationRecord {
    pub board_hex: String,
    pub garbage_hex: String,
    pub active: String,
    pub hold: Option<String>,
    pub hold_available: bool,
    pub preview: Vec<String>,
}

#[derive(Clone, Debug, PartialEq, Eq, Structural)]
pub struct ImmediateEvents {
    pub lines_cleared: u8,
    pub perfect_clear: bool,
    pub cleared_garbage: bool,
}

#[derive(Clone, Debug, PartialEq, Eq)]
pub struct CandidateRecord {
    pub action: ActionToken,
    pub afterstate_checksum: u64,
    pub path_length: u16,
    pub features: [i32; FEATURE_COUNT],
    pub teacher_score: i64,
    pub rank: u16,
    pub immediate: ImmediateEvents,
}

#[derive(Clone, Debug, PartialEq, Eq)]
pub struct TeacherRecord {
    pub id: String,
    pub config_hash: String,
    pub style: String,
    pub node_budget: u32,
}

#[derive(Clone, Debug, PartialEq, Eq)]
pub struct DecisionRecord {
    pub schema_version: String,
    pub rules_hash: String,
    pub engine_revision: String,
    pub mechanics_status: String,
    pub action_space: String,
    pub match_id: String,
    pub seed: u64,
    pub ply: u32,
    pub observation_hash: String,
    pub observation: ObservationRecord,
    pub teacher: TeacherRecord,
    pub candidates: Vec<CandidateRecord>,
    pub chosen_index: u16,
    pub top_two_margin: i64,
    pub terminal_outcome: Option<i8>,
}

#[derive(Clone, Debug, PartialEq, Eq)]
pub struct DatasetManifest {
    pub schema_version: String,
    pub dataset_id: String,
    pub records_sha256: String,
    pub records_file: String,
    pub rules_id: String,
    pub rules_hash: String,
    pub engine_revision: String,
    pub mechanics_status: String,
    pub action_space: String,
    pub feature_names: Vec<String>,
    pub teacher: TeacherRecord,
    pub base_seed: u64,
    pub seed_stride: u64,
    pub requested_matches: u32,
    pub completed_matches: u32,
    pub requested_decisions_per_match: u32,
    pub decisions: u64,
    pub min_candidates: u16,
    pub max_candidates: u16,
}

#[derive(Clone, Debug, PartialEq, Eq)]
pub struct SoloGenerationSummary {
    pub manifest: DatasetManifest,
}

#[derive(Clone, Copy, Debug, PartialEq, Eq)]
pub enum GenerationError {
    Game(GameError),
    Teacher(TeacherError),
    InvalidConfig(&'static str),
    NoCandidates,
    CandidateCountOverflow(usize),
    PathLengthOverflow(usize),
}

impl GenerationError {
    /// The message as text.
    pub open spec fn text(&self) -> Seq<char> {
        match self {
            GenerationError::Game(e) => "engine transition failed: "@ + e.text(),
            GenerationError::Teacher(_) => "teacher evaluation failed: linear teacher score overflowed i64"@,
            GenerationError::InvalidConfig(m) => "invalid generation config: "@ + m@,
            GenerationError::NoCandidates => "playable state produced no candidates"@,
            GenerationError::CandidateCountOverflow(n) => "candidate count does not fit u16: "@ + decimal(*n as nat),
            GenerationError::PathLengthOverflow(n) => "diagnostic path length does not fit u16: "@ + decimal(*n as nat),
        }
    }

    pub fn message(&self) -> (r: String)
        ensures
            r@ == self.text(),
    {
        match self {
            GenerationError::Game(e) => {
                let mut s = String::from_str("engine transition failed: ");
                let inner = e.message();
                s.append(inner.as_str());
                s
            },
            GenerationError::Teacher(_) => String::from_str(
                "teacher evaluation failed: linear teacher score overflowed i64",
            ),
            GenerationError::InvalidConfig(m) => {
                let mut s = String::from_str("invalid generation config: ");
                s.append(m);
                s
            },
            GenerationError::NoCandidates => String::from_str("playable state produced no candidates"),
            GenerationError::CandidateCountOverflow(n) => {
                let mut s = String::from_str("candidate count does not fit u16: ");
                crate::text::append_decimal(&mut s, *n as u64);
                s
            },
            GenerationError::PathLengthOverflow(n) => {
                let mut s = String::from_str("diagnostic path length does not fit u16: ");
                crate::text::append_decimal(&mut s, *n as u64);
                s
            },
        }
    }
}

/// A candidate afterstate together with the placement and the last movement
/// of its path.
#[derive(Clone, Debug)]
pub struct CandidateChoice {
    pub record: CandidateRecord,
    pub placement: PieceState,
    pub last_action: LastAction,
}

pub open spec fn orientation_text(o: Orientation) -> Seq<char> {
    match o {
        Orientation::Spawn => "spawn"@,
        Orientation::Right => "right"@,
        Orientation::Reverse => "reverse"@,
        Orientation::Left => "left"@,
    }
}

fn piece_name(kind: PieceKind) -> (r: &'static str)
    ensures
        r@ == piece_letter(kind),
{
    match kind {
        PieceKind::I => "I",
        PieceKind::J => "J",
        PieceKind::L => "L",
        PieceKind::O => "O",
        PieceKind::S => "S",
        PieceKind::T => "T",
        PieceKind::Z => "Z",
    }
}

fn orientation_name(orientation: Orientation) -> (r: &'static str)
    ensures
        r@ == orientation_text(orientation),
{
    match orientation {
        Orientation::Spawn => "spawn",
        Orientation::Right => "right",
        Orientation::Reverse => "reverse",
        Orientation::Left => "left",
    }
}

pub open spec fn action_fits(a: ActionToken, hold: bool, p: PieceState) -> bool {
    &&& a.hold == hold
    &&& a.piece@ == piece_letter(p.kind)
    &&& a.orientation@ == orientation_text(p.orientation)
    &&& a.x == p.x
    &&& a.y == p.y
}

pub fn action_token(hold: bool, placement: PieceState) -> (r: ActionToken)
    ensures
        action_fits(r, hold, placement),
{
    ActionToken {
        hold,
        piece: String::from_str(piece_name(placement.kind)),
        orientation: String::from_str(orientation_name(placement.orientation)),
        x: placement.x,
        y: placement.y,
    }
}

/// `o` records the game: both board layers as hex words, the active piece,
/// hold and its availability, and the preview.
pub open spec fn observation_fits(g: GameModel, o: ObservationRecord) -> bool {
    &&& o.board_hex@ == hex_words(g.board.0)
    &&& o.garbage_hex@ == hex_words(g.board.1)
    &&& o.active@ == piece_letter(g.active.kind)
    &&& match (o.hold, g.hold) {
        (None, None) => true,
        (Some(h), Some(k)) => h@ == piece_letter(k),
        _ => false,
    }
    &&& o.hold_available == g.hold_available
    &&& o.preview@.len() == g.queue.len()
    &&& forall|i: int| 0 <= i < g.queue.len() ==> (#[trigger] o.preview@[i])@ == piece_letter(g.queue[i])
}

pub fn observation_record(game: &GameState) -> (r: ObservationRecord)
    requires
        game.wf(),
    ensures
        observation_fits(game@, r),
{
    let board = game.board();
    let queue = game.preview();
    let mut preview: Vec<String> = Vec::new();
    let mut i: usize = 0;
    while i < queue.len()
        invariant
            i <= queue@.len(),
            preview@.len() == i,
            forall|j: int| 0 <= j < i ==> (#[trigger] preview@[j])@ == piece_letter(queue@[j]),
        decreases queue@.len() - i,
    {
        preview.push(String::from_str(piece_name(queue[i])));
        i += 1;
    }
    let hold = match game.hold() {
        Some(k) => Some(String::from_str(piece_name(k))),
        None => None,
    };
    ObservationRecord {
        board_hex: hex_word_text(board.rows().as_slice()),
        garbage_hex: hex_word_text(board.garbage_rows().as_slice()),
        active: String::from_str(piece_name(game.active().kind)),
        hold,
        hold_available: game.hold_available(),
        preview,
    }
}

/// The canonical teacher description: a header, then `name=weight` per feature.
pub open spec fn teacher_canonical(w: Seq<i64>) -> Seq<char> {
    "teacher=dellacherie-linear-v1\nscale=milli\n"@ + weight_lines(w, FEATURE_COUNT as nat)
}

pub open spec fn weight_lines(w: Seq<i64>, n: nat) -> Seq<char>
    decreases n,
{
    if n == 0 {
        Seq::empty()
    } else {
        weight_lines(w, (n - 1) as nat) + FEATURE_NAMES@[n - 1]@ + "="@ + crate::text::signed_decimal(
            w[n - 1] as int,
        ) + "\n"@
    }
}

pub open spec fn teacher_record_fits(w: Seq<i64>, t: TeacherRecord) -> bool {
    &&& t.id@ == TEACHER_ID@
    &&& t.config_hash@ == hex_bytes(sha256_digest(encode_utf8(teacher_canonical(w))))
    &&& t.style@ == TEACHER_STYLE@
    &&& t.node_budget == 0
}

pub fn teacher_record(teacher: LinearTeacher) -> (r: TeacherRecord)
    ensures
        teacher_record_fits(teacher.weight_seq(), r),
{
    let weights = teacher.weights();
    let mut canonical = String::from_str("teacher=dellacherie-linear-v1\nscale=milli\n");
    let ghost header = canonical@;
    let mut i: usize = 0;
    while i < FEATURE_COUNT
        invariant
            i <= FEATURE_COUNT,
            weights@ == teacher.weight_seq(),
            canonical@ == header + weight_lines(weights@, i as nat),
        decreases FEATURE_COUNT - i,
    {
        canonical.append(FEATURE_NAMES[i]);
        canonical.append("=");
        crate::text::append_signed_decimal(&mut canonical, weights[i]);
        canonical.append("\n");
        proof {
            assert(canonical@ =~= header + weight_lines(weights@, (i + 1) as nat));
        }
        i += 1;
    }
    let bytes = canonical.as_str().as_bytes();
    TeacherRecord {
        id: String::from_str(TEACHER_ID),
        config_hash: sha256_hex(bytes),
        style: String::from_str(TEACHER_STYLE),
        node_budget: 0,
    }
}

/// Board layers after locking `p` and compacting full rows.
pub open spec fn after_lock(b: (Seq<u16>, Seq<u16>), p: PieceState) -> (Seq<u16>, Seq<u16>) {
    let pl = placed(b.0, p);
    let keep = survivors(pl, HEIGHT as nat);
    (compact(pl, keep), compact(b.1, keep))
}

pub open spec fn cleared_by(b: (Seq<u16>, Seq<u16>), p: PieceState) -> Seq<int> {
    full_rows(placed(b.0, p), HEIGHT as nat)
}

/// The spawn of the next queued piece collides after the lock, and no clutch
/// clear rescues it.
pub open spec fn spawn_blocked(source: GameModel, config: GameConfig, after: Seq<u16>, lines: nat) -> bool {
    &&& source.queue.len() > 0
    &&& hits(after, config.spawn.spawn_state(source.queue[0]))
    &&& !(config.clutch_clear && lines > 0)
}

/// A blocked spawn costs a billion milli-units, saturating at the minimum.
pub open spec fn adjusted_score(score: int, blocked: bool) -> int {
    if !blocked {
        score
    } else if score - 1_000_000_000 < i64::MIN {
        i64::MIN as int
    } else {
        score - 1_000_000_000
    }
}

/// `c` is the candidate for locking its placement from `source`.
pub open spec fn candidate_fits(source: GameModel, used_hold: bool, config: GameConfig, w: Seq<i64>, c: CandidateChoice) -> bool {
    let p = c.placement;
    let after = after_lock(source.board, p);
    let full = cleared_by(source.board, p);
    &&& lock_target(source.board.0, source.active, p)
    &&& forall|i: int| 0 <= i < FEATURE_COUNT ==> #[trigger] c.record.features[i] == features_spec(after.0, p, full)[i]
    &&& score_fold(w, c.record.features@, FEATURE_COUNT as nat) matches Some(s) && c.record.teacher_score
        == adjusted_score(s, spawn_blocked(source, config, after.0, full.len()))
    &&& c.record.afterstate_checksum == fnv_board(after.0, after.1, HEIGHT as nat)
    &&& c.record.immediate == (ImmediateEvents {
        lines_cleared: full.len() as u8,
        perfect_clear: all_empty(after.0),
        cleared_garbage: any_garbage(source.board.1, full),
    })
    &&& action_fits(c.record.action, used_hold, p)
    &&& c.record.rank == 0
    &&& exists|path: Seq<crate::reachability::Movement>|
        #[trigger] replay(source.board.0, source.active, path) == Some(p) && path.len() == c.record.path_length
            && c.last_action == path_last_action(source.board.0, source.active, path)
}

/// The candidates of one source: every lock target once, in grid order.
pub open spec fn block_fits(
    source: GameModel,
    used_hold: bool,
    config: GameConfig,
    w: Seq<i64>,
    b: Seq<CandidateChoice>,
) -> bool {
    &&& forall|k: int| 0 <= k < b.len() ==> candidate_fits(source, used_hold, config, w, #[trigger] b[k])
    &&& forall|i: int, j: int| 0 <= i < j < b.len() ==> grid_of(b[i].placement) < grid_of(b[j].placement)
    &&& source.playable_error() is Some ==> b.len() == 0
    &&& source.playable_error() is None ==> forall|p: PieceState|
        lock_target(source.board.0, source.active, p) ==> exists|k: int| 0 <= k < b.len() && #[trigger] b[k].placement == p
}

/// The held source's block when holding is available and does not top out;
/// otherwise nothing.
pub open spec fn held_block_fits(g: GameModel, config: GameConfig, w: Seq<i64>, b: Seq<CandidateChoice>) -> bool {
    if g.hold_available && (g.hold_step() is Ok) && !g.hold_step()->Ok_0.1.top_out {
        block_fits(g.hold_step()->Ok_0.0, true, config, w, b)
    } else {
        b.len() == 0
    }
}

/// The candidates of the active piece, followed by those of the held-in
/// piece when holding is available and does not top out.
pub open spec fn enumeration_fits(g: GameModel, config: GameConfig, w: Seq<i64>, v: Seq<CandidateChoice>) -> bool {
    exists|k: int|
        0 <= k <= v.len() && #[trigger] block_fits(g, false, config, w, v.subrange(0, k)) && held_block_fits(
            g,
            config,
            w,
            v.subrange(k, v.len() as int),
        )
}

fn source_candidates(
    source: &GameState,
    used_hold: bool,
    game_config: GameConfig,
    teacher: LinearTeacher,
    out: &mut Vec<CandidateChoice>,
) -> (r: Result<(), GenerationError>)
    requires
        source.wf(),
        source@.all_locks_fit(),
        game_config.spawn.origins_ok(),
    ensures
        r is Ok ==> exists|b: Seq<CandidateChoice>|
            final(out)@ == old(out)@ + b && #[trigger] block_fits(source@, used_hold, game_config, teacher.weight_seq(), b),
        r matches Err(e) ==> e is Teacher,
        r matches Err(GenerationError::Teacher(_)) ==> exists|f: Seq<i32>|
            f.len() == FEATURE_COUNT && #[trigger] score_fold(teacher.weight_seq(), f, FEATURE_COUNT as nat) is None,
{
    let ghost start = old(out)@;
    let ghost g = source@;
    let placements = source.reachable_placements();
    let queue = source.preview();
    let next_piece = if queue.len() > 0 {
        Some(queue[0])
    } else {
        None
    };
    let mut k: usize = 0;
    while k < placements.len()
        invariant
            source.wf(),
            g == source@,
            source@.all_locks_fit(),
            game_config.spawn.origins_ok(),
            queue@ == g.queue,
            next_piece == (if g.queue.len() > 0 {
                Some(g.queue[0])
            } else {
                None::<PieceKind>
            }),
            k <= placements@.len(),
            out@.len() == start.len() + k,
            out@.take(start.len() as int) == start,
            g.playable_error() is Some ==> placements@.len() == 0,
            g.playable_error() is None ==> forall|i: int| 0 <= i < placements@.len() ==> {
                &&& lock_target(g.board.0, g.active, #[trigger] placements@[i].state)
                &&& replay(g.board.0, g.active, placements@[i].path@) == Some(placements@[i].state)
                &&& placements@[i].last_action == path_last_action(g.board.0, g.active, placements@[i].path@)
                &&& placements@[i].path@.len() <= crate::reachability::GRID
            },
            forall|a: int, b: int| 0 <= a < b < placements@.len() ==> grid_of(placements@[a].state) < grid_of(
                placements@[b].state,
            ),
            forall|i: int| 0 <= i < k ==> #[trigger] out@[start.len() + i].placement == placements@[i].state,
            forall|i: int|
                0 <= i < k ==> candidate_fits(g, used_hold, game_config, teacher.weight_seq(), #[trigger] out@[start.len() + i]),
        decreases placements@.len() - k,
    {
        let placement = &placements[k];
        let state = placement.state;
        proof {
            lemma_lock_target_fits(g.board.0, g.active, state);
            crate::board::lemma_fits_bounds(g.board.0, state);
            crate::piece::lemma_local_cells_distinct_in_box(state.kind, state.orientation);
        }
        let mut board = *source.board();
        let lock = match board.lock(state) {
            Ok(l) => l,
            Err(_) => {
                return vstd::pervasive::unreached();
            },
        };
        assert(features_defined(state));
        let features = extract_afterstate_features(&board, state, lock.cleared);
        let score = match teacher.score(features) {
            Ok(v) => v,
            Err(e) => {
                proof {
                    assert(features@.len() == FEATURE_COUNT);
                    assert(score_fold(teacher.weight_seq(), features@, FEATURE_COUNT as nat) is None);
                }
                return Err(GenerationError::Teacher(e));
            },
        };
        let collides = match next_piece {
            Some(kind) => {
                let spawn = game_config.spawn.piece(kind);
                board.collides(spawn)
            },
            None => false,
        };
        let blocked = collides && !(game_config.clutch_clear && lock.cleared.count() > 0);
        let teacher_score = if !blocked {
            score
        } else if score < i64::MIN + 1_000_000_000 {
            i64::MIN
        } else {
            score - 1_000_000_000
        };
        let path_len = placement.path.len();
        if path_len > 65535 {
            return Err(GenerationError::PathLengthOverflow(path_len));
        }
        let checksum = board.checksum();
        let lines = lock.cleared.count();
        let choice = CandidateChoice {
            record: CandidateRecord {
                action: action_token(used_hold, state),
                afterstate_checksum: checksum,
                path_length: path_len as u16,
                features,
                teacher_score,
                rank: 0,
                immediate: ImmediateEvents {
                    lines_cleared: lines,
                    perfect_clear: lock.perfect_clear,
                    cleared_garbage: lock.cleared_garbage,
                },
            },
            placement: state,
            last_action: placement.last_action,
        };
        proof {
            assert(replay(g.board.0, g.active, placement.path@) == Some(state));
        }
        out.push(choice);
        k += 1;
    }
    proof {
        let b = out@.skip(start.len() as int);
        assert(out@ =~= start + b);
        assert forall|i: int| 0 <= i < b.len() implies candidate_fits(
            g,
            used_hold,
            game_config,
            teacher.weight_seq(),
            #[trigger] b[i],
        ) by {
            assert(b[i] == out@[start.len() + i]);
        }
        assert forall|i: int, j: int| 0 <= i < j < b.len() implies grid_of(b[i].placement) < grid_of(b[j].placement) by {
            assert(b[i] == out@[start.len() + i]);
            assert(b[j] == out@[start.len() + j]);
        }
        if g.playable_error() is None {
            assert forall|p: PieceState| lock_target(g.board.0, g.active, p) implies exists|i: int|
                0 <= i < b.len() && #[trigger] b[i].placement == p by {
                let i = choose|i: int| 0 <= i < placements@.len() && #[trigger] placements@[i].state == p;
                assert(b[i] == out@[start.len() + i]);
            }
        }
        assert(block_fits(g, used_hold, game_config, teacher.weight_seq(), b));
    }
    Ok(())
}

/// Whether the game's board has no full row, which every settled game meets;
/// when it holds, every lock on the board clears at most four rows, as
/// candidate enumeration needs.
pub fn locks_fit(game: &GameState) -> (r: bool)
    requires
        game.wf(),
    ensures
        r == game@.settled(),
        r ==> game@.all_locks_fit(),
{
    let rows = game.board().rows();
    let mut y: usize = 0;
    while y < HEIGHT
        invariant
            y <= HEIGHT,
            rows@ == game@.board.0,
            game@.board.0.len() == HEIGHT,
            forall|j: int| 0 <= j < y ==> #[trigger] game@.board.0[j] != crate::board::FULL_ROW,
        decreases HEIGHT - y,
    {
        if rows[y] == crate::board::FULL_ROW {
            return false;
        }
        y += 1;
    }
    proof {
        game.lemma_settled_locks_fit();
    }
    true
}

/// Every reachable afterstate of the active piece, then, when holding is
/// available and does not top out, of the held-in piece.
#[verifier::spinoff_prover]
pub fn enumerate_candidates(game: &GameState, game_config: GameConfig, teacher: LinearTeacher) -> (r: Result<
    Vec<CandidateChoice>,
    GenerationError,
>)
    requires
        game.wf(),
        game@.all_locks_fit(),
        game_config.spawn.origins_ok(),
    ensures
        game@.hold_available && (game@.hold_step() is Err) ==> r == Err::<Vec<CandidateChoice>, GenerationError>(
            GenerationError::Game(game@.hold_step()->Err_0),
        ),
        r matches Ok(v) ==> enumeration_fits(game@, game_config, teacher.weight_seq(), v@),
        r matches Err(e) ==> (e matches GenerationError::Game(ge) && game@.hold_available && game@.hold_step()
            == Err::<(GameModel, crate::game::HoldOutcome), GameError>(ge)) || e is Teacher,
        r matches Err(GenerationError::Teacher(_)) ==> exists|f: Seq<i32>|
            f.len() == FEATURE_COUNT && #[trigger] score_fold(teacher.weight_seq(), f, FEATURE_COUNT as nat) is None,
        !(game@.hold_available && (game@.hold_step() is Err)) && (forall|f: Seq<i32>|
            f.len() == FEATURE_COUNT ==> #[trigger] score_fold(teacher.weight_seq(), f, FEATURE_COUNT as nat) is Some)
            ==> r is Ok,
{
    let mut held_source: Option<GameState> = None;
    if game.hold_available() {
        let mut held = game.duplicate();
        match held.hold_active() {
            Ok(outcome) => {
                if !outcome.top_out {
                    held_source = Some(held);
                }
                assert(game@.hold_step()->Ok_0.1 == outcome);
            },
            Err(e) => {
                return Err(GenerationError::Game(e));
            },
        }
    }
    assert(match held_source {
        Some(h) => game@.hold_available && (game@.hold_step() is Ok) && !game@.hold_step()->Ok_0.1.top_out && h@
            == game@.hold_step()->Ok_0.0 && h.wf(),
        None => !(game@.hold_available && (game@.hold_step() is Ok) && !game@.hold_step()->Ok_0.1.top_out),
    });
    let mut choices: Vec<CandidateChoice> = Vec::new();
    match source_candidates(game, false, game_config, teacher, &mut choices) {
        Ok(()) => {},
        Err(e) => {
            return Err(e);
        },
    }
    let ghost first = choices@;
    let ghost w = teacher.weight_seq();
    proof {
        let b0 = choose|b: Seq<CandidateChoice>|
            first == Seq::<CandidateChoice>::empty() + b && #[trigger] block_fits(game@, false, game_config, w, b);
        assert(first =~= b0);
    }
    match held_source {
        Some(held) => {
            proof {
                held.lemma_wf_facts();
            }
            match source_candidates(&held, true, game_config, teacher, &mut choices) {
                Ok(()) => {},
                Err(e) => {
                    return Err(e);
                },
            }
            proof {
                let b = choose|b: Seq<CandidateChoice>|
                    choices@ == first + b && #[trigger] block_fits(held@, true, game_config, w, b);
                assert(choices@.take(first.len() as int) =~= first);
                assert(choices@.skip(first.len() as int) =~= b);
                assert(held_block_fits(game@, game_config, w, choices@.skip(first.len() as int)));
            }
        },
        None => {
            proof {
                assert(choices@.take(first.len() as int) =~= first);
                assert(choices@.skip(first.len() as int) =~= Seq::<CandidateChoice>::empty());
                assert(held_block_fits(game@, game_config, w, choices@.skip(first.len() as int)));
            }
        },
    }
    let result = choices;
    proof {
        let k = first.len() as int;
        assert(0 <= k <= result@.len());
        assert(block_fits(game@, false, game_config, teacher.weight_seq(), result@.take(k)) && held_block_fits(
            game@,
            game_config,
            teacher.weight_seq(),
            result@.skip(k),
        ));
        assert(result@.take(k) == result@.subrange(0, k));
        assert(result@.skip(k) == result@.subrange(k, result@.len() as int));
        assert(enumeration_fits(game@, game_config, teacher.weight_seq(), result@));
    }
    Ok(result)
}

/// Every checked Dellacherie score succeeds: each product stays far inside
/// `i64`, and so does any sum of ten of them.
pub proof fn lemma_dellacherie_never_overflows(f: Seq<i32>)
    requires
        f.len() == FEATURE_COUNT,
    ensures
        score_fold(DELLACHERIE_SCALED_WEIGHTS@, f, FEATURE_COUNT as nat) is Some,
        score_fold(DELLACHERIE_SCALED_WEIGHTS@, f, FEATURE_COUNT as nat) matches Some(s) && -214_748_364_800_000
            <= s <= 214_748_364_800_000,
{
    lemma_small_weights_fold(DELLACHERIE_SCALED_WEIGHTS@, f, FEATURE_COUNT as nat);
}

proof fn lemma_small_weights_fold(w: Seq<i64>, f: Seq<i32>, n: nat)
    requires
        n <= 10,
        n <= w.len(),
        n <= f.len(),
        forall|i: int| 0 <= i < n ==> -10_000 <= #[trigger] w[i] <= 10_000,
    ensures
        score_fold(w, f, n) matches Some(s) && -(n * 21_474_836_480_000) <= s <= n * 21_474_836_480_000,
    decreases n,
{
    if n > 0 {
        lemma_small_weights_fold(w, f, (n - 1) as nat);
        let wi = w[n - 1] as int;
        let fi = f[n - 1] as int;
        assert(-21_474_836_480_000 <= wi * fi <= 21_474_836_480_000) by (nonlinear_arith)
            requires
                -10_000 <= wi <= 10_000,
                -2_147_483_648 <= fi <= 2_147_483_647,
        ;
    }
}

/// Lexicographic order of byte strings, a proper prefix first.
pub open spec fn bytes_less(a: Seq<u8>, b: Seq<u8>) -> bool
    decreases a.len(),
{
    if a.len() == 0 {
        b.len() > 0
    } else if b.len() == 0 {
        false
    } else if a[0] != b[0] {
        a[0] < b[0]
    } else {
        bytes_less(a.drop_first(), b.drop_first())
    }
}

proof fn lemma_bytes_less_order(a: Seq<u8>, b: Seq<u8>, c: Seq<u8>)
    ensures
        bytes_less(a, b) ==> !bytes_less(b, a),
        bytes_less(a, b) && bytes_less(b, c) ==> bytes_less(a, c),
        a != b ==> bytes_less(a, b) || bytes_less(b, a),
    decreases a.len(),
{
    if a.len() > 0 && b.len() > 0 {
        let c1 = if c.len() > 0 {
            c.drop_first()
        } else {
            c
        };
        lemma_bytes_less_order(a.drop_first(), b.drop_first(), c1);
        if a[0] == b[0] && a.drop_first() == b.drop_first() {
            assert forall|i: int| 0 <= i < a.len() implies a[i] == b[i] by {
                if i > 0 {
                    assert(a[i] == a.drop_first()[i - 1]);
                    assert(b[i] == b.drop_first()[i - 1]);
                }
            }
            assert(a =~= b);
        }
    }
    if a.len() == 0 && b.len() == 0 {
        assert(a =~= b);
    }
}

/// The action order: no hold first, then piece name, orientation name
/// (both as bytes), column and row.
pub open spec fn action_less(a: ActionToken, b: ActionToken) -> bool {
    let pa = encode_utf8(a.piece@);
    let pb = encode_utf8(b.piece@);
    let oa = encode_utf8(a.orientation@);
    let ob = encode_utf8(b.orientation@);
    if a.hold != b.hold {
        !a.hold
    } else if pa != pb {
        bytes_less(pa, pb)
    } else if oa != ob {
        bytes_less(oa, ob)
    } else if a.x != b.x {
        a.x < b.x
    } else {
        a.y < b.y
    }
}

pub open spec fn action_same(a: ActionToken, b: ActionToken) -> bool {
    &&& a.hold == b.hold
    &&& encode_utf8(a.piece@) == encode_utf8(b.piece@)
    &&& encode_utf8(a.orientation@) == encode_utf8(b.orientation@)
    &&& a.x == b.x
    &&& a.y == b.y
}

/// Candidate `ia` ranks before candidate `ib`: higher teacher score first,
/// then shorter path, then the action order, then the earlier candidate.
pub open spec fn ranks_before(a: CandidateRecord, ia: int, b: CandidateRecord, ib: int) -> bool {
    if a.teacher_score != b.teacher_score {
        a.teacher_score > b.teacher_score
    } else if a.path_length != b.path_length {
        a.path_length < b.path_length
    } else if !action_same(a.action, b.action) {
        action_less(a.action, b.action)
    } else {
        ia < ib
    }
}

proof fn lemma_ranks_order(a: CandidateRecord, ia: int, b: CandidateRecord, ib: int, c: CandidateRecord, ic: int)
    ensures
        ranks_before(a, ia, b, ib) ==> !ranks_before(b, ib, a, ia),
        ranks_before(a, ia, b, ib) && ranks_before(b, ib, c, ic) ==> ranks_before(a, ia, c, ic),
        ia != ib ==> ranks_before(a, ia, b, ib) || ranks_before(b, ib, a, ia),
{
    let (pa, pb, pc) = (encode_utf8(a.action.piece@), encode_utf8(b.action.piece@), encode_utf8(c.action.piece@));
    let (oa, ob, oc) = (
        encode_utf8(a.action.orientation@),
        encode_utf8(b.action.orientation@),
        encode_utf8(c.action.orientation@),
    );
    lemma_bytes_less_order(pa, pb, pc);
    lemma_bytes_less_order(pb, pa, pc);
    lemma_bytes_less_order(pa, pc, pb);
    lemma_bytes_less_order(oa, ob, oc);
    lemma_bytes_less_order(ob, oa, oc);
    lemma_bytes_less_order(oa, oc, ob);
}

/// How many candidates rank before candidate `i`.
pub open spec fn rank_count(v: Seq<CandidateRecord>, i: int, n: nat) -> nat
    decreases n,
{
    if n == 0 {
        0
    } else {
        rank_count(v, i, (n - 1) as nat) + if ranks_before(v[n - 1], n - 1, v[i], i) {
            1nat
        } else {
            0nat
        }
    }
}

proof fn lemma_rank_count_strict(v: Seq<CandidateRecord>, i: int, j: int, m: nat)
    requires
        0 <= i < v.len(),
        0 <= j < v.len(),
        m <= v.len(),
        ranks_before(v[i], i, v[j], j),
    ensures
        rank_count(v, i, m) <= rank_count(v, j, m),
        i < m ==> rank_count(v, i, m) < rank_count(v, j, m),
    decreases m,
{
    if m > 0 {
        let k = m - 1;
        lemma_rank_count_strict(v, i, j, (m - 1) as nat);
        lemma_ranks_order(v[k], k, v[i], i, v[j], j);
    }
}

proof fn lemma_rank_count_zero(v: Seq<CandidateRecord>, c: int, m: nat)
    requires
        0 <= c < v.len(),
        m <= v.len(),
        forall|j: int| 0 <= j < v.len() && j != c ==> ranks_before(v[c], c, #[trigger] v[j], j),
    ensures
        rank_count(v, c, m) == 0,
    decreases m,
{
    if m > 0 {
        let k = m - 1;
        lemma_rank_count_zero(v, c, (m - 1) as nat);
        if k != c {
            lemma_ranks_order(v[c], c, v[k], k, v[c], c);
        }
    }
}

/// Ranking numbers the candidates: every rank is below the candidate count,
/// no two candidates share a rank, and a candidate that ranks before every
/// other one has rank zero.
pub proof fn lemma_ranks_number_the_candidates(v: Seq<CandidateRecord>)
    ensures
        forall|i: int| 0 <= i < v.len() ==> #[trigger] rank_count(v, i, v.len()) < v.len(),
        forall|i: int, j: int|
            0 <= i < v.len() && 0 <= j < v.len() && i != j ==> #[trigger] rank_count(v, i, v.len())
                != #[trigger] rank_count(v, j, v.len()),
        forall|c: int|
            0 <= c < v.len() && (forall|j: int| 0 <= j < v.len() && j != c ==> ranks_before(v[c], c, #[trigger] v[j], j))
                ==> #[trigger] rank_count(v, c, v.len()) == 0,
{
    assert forall|i: int| 0 <= i < v.len() implies #[trigger] rank_count(v, i, v.len()) < v.len() by {
        lemma_rank_count_bound(v, i, v.len());
    }
    assert forall|i: int, j: int| 0 <= i < v.len() && 0 <= j < v.len() && i != j implies #[trigger] rank_count(
        v,
        i,
        v.len(),
    ) != #[trigger] rank_count(v, j, v.len()) by {
        lemma_ranks_order(v[i], i, v[j], j, v[j], j);
        if ranks_before(v[i], i, v[j], j) {
            lemma_rank_count_strict(v, i, j, v.len());
        } else {
            lemma_rank_count_strict(v, j, i, v.len());
        }
    }
    assert forall|c: int|
        0 <= c < v.len() && (forall|j: int| 0 <= j < v.len() && j != c ==> ranks_before(v[c], c, #[trigger] v[j], j))
            implies #[trigger] rank_count(v, c, v.len()) == 0 by {
        lemma_rank_count_zero(v, c, v.len());
    }
}

pub open spec fn records_of(v: Seq<CandidateChoice>) -> Seq<CandidateRecord> {
    v.map_values(|c: CandidateChoice| c.record)
}

fn bytes_less_exec(a: &[u8], b: &[u8]) -> (r: bool)
    ensures
        r == bytes_less(a@, b@),
{
    let mut i: usize = 0;
    assert(a@.skip(0) =~= a@);
    assert(b@.skip(0) =~= b@);
    while i < a.len() && i < b.len()
        invariant
            i <= a@.len(),
            i <= b@.len(),
            bytes_less(a@, b@) == bytes_less(a@.skip(i as int), b@.skip(i as int)),
        decreases a@.len() - i,
    {
        if a[i] != b[i] {
            proof {
                assert(a@.skip(i as int)[0] == a@[i as int]);
                assert(b@.skip(i as int)[0] == b@[i as int]);
            }
            return a[i] < b[i];
        }
        proof {
            assert(a@.skip(i as int).drop_first() =~= a@.skip(i + 1));
            assert(b@.skip(i as int).drop_first() =~= b@.skip(i + 1));
        }
        i += 1;
    }
    proof {
        if i == a@.len() {
            assert(a@.skip(i as int).len() == 0);
        } else {
            assert(b@.skip(i as int).len() == 0);
        }
    }
    i == a.len() && i < b.len()
}

fn bytes_equal(a: &[u8], b: &[u8]) -> (r: bool)
    ensures
        r == (a@ == b@),
{
    if a.len() != b.len() {
        return false;
    }
    let mut i: usize = 0;
    while i < a.len()
        invariant
            a@.len() == b@.len(),
            i <= a@.len(),
            forall|j: int| 0 <= j < i ==> a@[j] == b@[j],
        decreases a@.len() - i,
    {
        if a[i] != b[i] {
            return false;
        }
        i += 1;
    }
    assert(a@ =~= b@);
    true
}

fn ranks_before_exec(a: &CandidateRecord, ia: usize, b: &CandidateRecord, ib: usize) -> (r: bool)
    ensures
        r == ranks_before(*a, ia as int, *b, ib as int),
{
    if a.teacher_score != b.teacher_score {
        return a.teacher_score > b.teacher_score;
    }
    if a.path_length != b.path_length {
        return a.path_length < b.path_length;
    }
    let pa = a.action.piece.as_str().as_bytes();
    let pb = b.action.piece.as_str().as_bytes();
    let oa = a.action.orientation.as_str().as_bytes();
    let ob = b.action.orientation.as_str().as_bytes();
    if a.action.hold != b.action.hold {
        return !a.action.hold;
    }
    if !bytes_equal(pa, pb) {
        return bytes_less_exec(pa, pb);
    }
    if !bytes_equal(oa, ob) {
        return bytes_less_exec(oa, ob);
    }
    if a.action.x != b.action.x {
        return a.action.x < b.action.x;
    }
    if a.action.y != b.action.y {
        return a.action.y < b.action.y;
    }
    ia < ib
}

/// The candidate that ranks before all others, scanning from the front.
fn first_ranked(choices: &Vec<CandidateChoice>, skip: Option<usize>) -> (r: usize)
    requires
        choices@.len() > 0,
        skip matches Some(s) ==> s < choices@.len() && choices@.len() > 1,
    ensures
        r < choices@.len(),
        skip matches Some(s) ==> r != s,
        forall|j: int|
            0 <= j < choices@.len() && j != r && (skip matches Some(s) ==> j != s) ==> ranks_before(
                choices@[r as int].record,
                r as int,
                #[trigger] choices@[j].record,
                j,
            ),
{
    let mut best: usize = if skip == Some(0usize) {
        1
    } else {
        0
    };
    let mut j: usize = best + 1;
    while j < choices.len()
        invariant
            choices@.len() > 0,
            skip matches Some(s) ==> s < choices@.len() && choices@.len() > 1,
            best < choices@.len(),
            best < j <= choices@.len(),
            skip matches Some(s) ==> best != s,
            forall|k: int|
                0 <= k < j && k != best && (skip matches Some(s) ==> k != s) ==> ranks_before(
                    choices@[best as int].record,
                    best as int,
                    #[trigger] choices@[k].record,
                    k,
                ),
        decreases choices@.len() - j,
    {
        if skip != Some(j) {
            let beats = ranks_before_exec(&choices[j].record, j, &choices[best].record, best);
            if beats {
                proof {
                    assert forall|k: int|
                        0 <= k < j + 1 && k != j && (skip matches Some(s) ==> k != s) implies ranks_before(
                        choices@[j as int].record,
                        j as int,
                        #[trigger] choices@[k].record,
                        k,
                    ) by {
                        if k != best {
                            lemma_ranks_order(
                                choices@[j as int].record,
                                j as int,
                                choices@[best as int].record,
                                best as int,
                                choices@[k].record,
                                k,
                            );
                        }
                    }
                }
                best = j;
            } else {
                proof {
                    lemma_ranks_order(
                        choices@[j as int].record,
                        j as int,
                        choices@[best as int].record,
                        best as int,
                        choices@[j as int].record,
                        j as int,
                    );
                }
            }
        }
        j += 1;
    }
    best
}

proof fn lemma_rank_count_le(v: Seq<CandidateRecord>, i: int, n: nat)
    ensures
        rank_count(v, i, n) <= n,
    decreases n,
{
    if n > 0 {
        lemma_rank_count_le(v, i, (n - 1) as nat);
    }
}

/// No candidate ranks before itself, so at most `n - 1` rank before one of
/// the first `n`.
proof fn lemma_rank_count_bound(v: Seq<CandidateRecord>, i: int, n: nat)
    requires
        0 <= i < n,
    ensures
        rank_count(v, i, n) < n,
    decreases n,
{
    if n - 1 > i {
        lemma_rank_count_bound(v, i, (n - 1) as nat);
    } else {
        lemma_rank_count_le(v, i, (n - 1) as nat);
        lemma_ranks_order(v[i], i, v[i], i, v[i], i);
    }
}

fn copy_action(a: &ActionToken) -> (r: ActionToken)
    ensures
        r == *a,
{
    ActionToken { hold: a.hold, piece: a.piece.clone(), orientation: a.orientation.clone(), x: a.x, y: a.y }
}

/// The same candidate with its rank replaced.
fn with_rank(c: &CandidateChoice, rank: u16) -> (r: CandidateChoice)
    ensures
        r.record == (CandidateRecord { rank, ..c.record }),
        r.placement == c.placement,
        r.last_action == c.last_action,
{
    CandidateChoice {
        record: CandidateRecord {
            action: copy_action(&c.record.action),
            afterstate_checksum: c.record.afterstate_checksum,
            path_length: c.record.path_length,
            features: c.record.features,
            teacher_score: c.record.teacher_score,
            rank,
            immediate: ImmediateEvents {
                lines_cleared: c.record.immediate.lines_cleared,
                perfect_clear: c.record.immediate.perfect_clear,
                cleared_garbage: c.record.immediate.cleared_garbage,
            },
        },
        placement: c.placement,
        last_action: c.last_action,
    }
}

/// `new` carries each candidate's rank, `chosen` ranks before all others
/// and `margin` is its score lead over the candidate ranked second.
pub open spec fn ranking_fits(old: Seq<CandidateChoice>, new: Seq<CandidateChoice>, chosen: u16, margin: i64) -> bool {
    let v = records_of(old);
    &&& forall|i: int|
        0 <= i < v.len() ==> (#[trigger] new[i]).record == (CandidateRecord {
            rank: rank_count(v, i, v.len()) as u16,
            ..v[i]
        })
    &&& chosen < v.len()
    &&& forall|j: int| 0 <= j < v.len() && j != chosen ==> ranks_before(v[chosen as int], chosen as int, #[trigger] v[j], j)
    &&& v.len() == 1 ==> margin == 0
    &&& v.len() > 1 ==> exists|second: int|
        0 <= second < v.len() && second != chosen && margin == v[chosen as int].teacher_score - v[second].teacher_score
            && forall|j: int|
            0 <= j < v.len() && j != chosen && j != second ==> ranks_before(v[second], second, #[trigger] v[j], j)
}

/// Ranks every candidate (zero is best) and returns the best candidate's
/// index and its score lead over the runner-up (zero without one).
pub fn rank_candidates(choices: &mut Vec<CandidateChoice>) -> (r: Result<(u16, i64), GenerationError>)
    requires
        forall|i: int, j: int|
            0 <= i < old(choices)@.len() && 0 <= j < old(choices)@.len() ==> i64::MIN <= #[trigger] old(
                choices,
            )@[i].record.teacher_score - #[trigger] old(choices)@[j].record.teacher_score <= i64::MAX,
    ensures
        final(choices)@.len() == old(choices)@.len(),
        old(choices)@.len() == 0 ==> r == Err::<(u16, i64), GenerationError>(GenerationError::NoCandidates),
        old(choices)@.len() > 65536 ==> r == Err::<(u16, i64), GenerationError>(
            GenerationError::CandidateCountOverflow(65536),
        ),
        forall|i: int|
            0 <= i < old(choices)@.len() ==> (#[trigger] final(choices)@[i]).placement == old(choices)@[i].placement
                && final(choices)@[i].last_action == old(choices)@[i].last_action,
        0 < old(choices)@.len() <= 65536 ==> (r matches Ok((chosen, margin)) && ranking_fits(
            old(choices)@,
            final(choices)@,
            chosen,
            margin,
        )),
{
    let n = choices.len();
    if n == 0 {
        return Err(GenerationError::NoCandidates);
    }
    if n > 65536 {
        return Err(GenerationError::CandidateCountOverflow(65536));
    }
    let ghost v = records_of(old(choices)@);
    let ghost start = old(choices)@;
    let mut ranks: Vec<u16> = Vec::new();
    let mut i: usize = 0;
    while i < n
        invariant
            n == choices@.len(),
            choices@ == start,
            v == records_of(start),
            0 < n <= 65536,
            i <= n,
            ranks@.len() == i,
            forall|k: int| 0 <= k < i ==> #[trigger] ranks@[k] == rank_count(v, k, n as nat),
        decreases n - i,
    {
        let mut count: usize = 0;
        let mut j: usize = 0;
        while j < n
            invariant
                n == choices@.len(),
                choices@ == start,
                v == records_of(start),
                0 < n <= 65536,
                i < n,
                j <= n,
                count == rank_count(v, i as int, j as nat),
                count <= j,
            decreases n - j,
        {
            if ranks_before_exec(&choices[j].record, j, &choices[i].record, i) {
                count += 1;
            }
            j += 1;
        }
        proof {
            lemma_rank_count_bound(v, i as int, n as nat);
        }
        ranks.push(count as u16);
        i += 1;
    }
    let mut k: usize = 0;
    while k < n
        invariant
            n == choices@.len(),
            n == start.len(),
            v == records_of(start),
            0 < n <= 65536,
            k <= n,
            ranks@.len() == n,
            forall|m: int| 0 <= m < n ==> #[trigger] ranks@[m] == rank_count(v, m, n as nat),
            forall|m: int| k <= m < n ==> #[trigger] choices@[m] == start[m],
            forall|m: int|
                0 <= m < k ==> (#[trigger] choices@[m]).placement == start[m].placement && choices@[m].last_action
                    == start[m].last_action && choices@[m].record == (CandidateRecord {
                    rank: rank_count(v, m, n as nat) as u16,
                    ..v[m]
                }),
        decreases n - k,
    {
        let choice = with_rank(&choices[k], ranks[k]);
        choices.set(k, choice);
        k += 1;
    }
    let chosen = first_ranked(choices, None);
    let mut margin: i64 = 0;
    let ghost mut second: int = 0;
    if n > 1 {
        let s = first_ranked(choices, Some(chosen));
        proof {
            second = s as int;
        }
        margin = choices[chosen].record.teacher_score - choices[s].record.teacher_score;
    }
    proof {
        assert(v[chosen as int].teacher_score == choices@[chosen as int].record.teacher_score
            && v[chosen as int].path_length == choices@[chosen as int].record.path_length && v[chosen as int].action
            == choices@[chosen as int].record.action);
        if n > 1 {
            assert(v[second].teacher_score == choices@[second].record.teacher_score && v[second].path_length
                == choices@[second].record.path_length && v[second].action == choices@[second].record.action);
        }
        assert forall|j: int| 0 <= j < v.len() && j != chosen implies ranks_before(
            v[chosen as int],
            chosen as int,
            #[trigger] v[j],
            j,
        ) by {
            assert(v[j].teacher_score == choices@[j].record.teacher_score && v[j].path_length == choices@[j].record.path_length && v[j].action == choices@[j].record.action);
        }
        if n > 1 {
            assert forall|j: int| 0 <= j < v.len() && j != chosen && j != second implies ranks_before(
                v[second],
                second,
                #[trigger] v[j],
                j,
            ) by {
                assert(v[j].teacher_score == choices@[j].record.teacher_score && v[j].path_length == choices@[j].record.path_length && v[j].action == choices@[j].record.action);
            }
        }
    }
    proof {
        assert forall|i: int| 0 <= i < v.len() implies (#[trigger] choices@[i]).record == (CandidateRecord {
            rank: rank_count(v, i, v.len()) as u16,
            ..v[i]
        }) by {}
        assert(ranking_fits(start, choices@, chosen as u16, margin));
    }
    Ok((chosen as u16, margin))
}

/// Seed of match `index`: the base plus `index` strides, when that fits.
pub open spec fn seed_of(base: u64, stride: u64, index: u32) -> Option<u64> {
    let v = base + index * stride;
    if v <= u64::MAX {
        Some(v as u64)
    } else {
        None
    }
}

pub fn match_seed(base_seed: u64, seed_stride: u64, index: u32) -> (r: Option<u64>)
    ensures
        r == seed_of(base_seed, seed_stride, index),
{
    match (index as u64).checked_mul(seed_stride) {
        Some(offset) => base_seed.checked_add(offset),
        None => {
            proof {
                assert(index * seed_stride >= 0) by (nonlinear_arith)
                    requires
                        index >= 0,
                        seed_stride >= 0,
                ;
            }
            None
        },
    }
}

/// The schedule checks of a generation run, in order: positive match and
/// decision counts, a positive stride, a last seed that fits, and a
/// non-blank engine revision.
pub open spec fn schedule_error(base: u64, stride: u64, matches: u32, decisions: u32, revision: Seq<char>) -> Option<
    &'static str,
> {
    if matches == 0 {
        Some("matches must be positive")
    } else if decisions == 0 {
        Some("decisions_per_match must be positive")
    } else if stride == 0 {
        Some("seed_stride must be positive")
    } else if seed_of(base, stride, (matches - 1) as u32) is None {
        Some("seed schedule must not overflow u64")
    } else if blank(revision) {
        Some("engine_revision must not be empty")
    } else {
        None
    }
}

pub fn validate_schedule(
    base_seed: u64,
    seed_stride: u64,
    matches: u32,
    decisions_per_match: u32,
    engine_revision: &String,
) -> (r: Result<(), GenerationError>)
    ensures
        match schedule_error(base_seed, seed_stride, matches, decisions_per_match, engine_revision@) {
            None => r is Ok,
            Some(m) => r == Err::<(), GenerationError>(GenerationError::InvalidConfig(m)),
        },
{
    if matches == 0 {
        return Err(GenerationError::InvalidConfig("matches must be positive"));
    }
    if decisions_per_match == 0 {
        return Err(GenerationError::InvalidConfig("decisions_per_match must be positive"));
    }
    if seed_stride == 0 {
        return Err(GenerationError::InvalidConfig("seed_stride must be positive"));
    }
    if match_seed(base_seed, seed_stride, matches - 1).is_none() {
        return Err(GenerationError::InvalidConfig("seed schedule must not overflow u64"));
    }
    if crate::conformance::text_is_blank(engine_revision) {
        return Err(GenerationError::InvalidConfig("engine_revision must not be empty"));
    }
    Ok(())
}

/// `solo-` and the seed as sixteen lowercase hexadecimal digits.
pub open spec fn match_id_text(seed: u64) -> Seq<char> {
    "solo-"@ + hex_words(
        seq![
            (seed / 0x1_0000_0000_0000) as u16,
            ((seed / 0x1_0000_0000) % 0x1_0000) as u16,
            ((seed / 0x1_0000) % 0x1_0000) as u16,
            (seed % 0x1_0000) as u16,
        ],
    )
}

pub fn match_id(seed: u64) -> (r: String)
    ensures
        r@ == match_id_text(seed),
{
    let words: [u16; 4] = [
        (seed / 0x1_0000_0000_0000) as u16,
        ((seed / 0x1_0000_0000) % 0x1_0000) as u16,
        ((seed / 0x1_0000) % 0x1_0000) as u16,
        (seed % 0x1_0000) as u16,
    ];
    let digits = hex_word_text(words.as_slice());
    let mut s = String::from_str("solo-");
    s.append(digits.as_str());
    proof {
        assert(words@ =~= seq![
            (seed / 0x1_0000_0000_0000) as u16,
            ((seed / 0x1_0000_0000) % 0x1_0000) as u16,
            ((seed / 0x1_0000) % 0x1_0000) as u16,
            (seed % 0x1_0000) as u16,
        ]);
    }
    s
}

} // verus!
