//! Engine-neutral frame snapshots and the first-difference comparison of a
//! reference trace with a local one.
use vstd::prelude::*;
use vstd::std_specs::convert::FromSpecImpl;
use crate::board::HEIGHT;
use crate::game::GameState;
use crate::piece::{PieceKind, PieceState};
use crate::session::FrameSession;
use crate::timing::{LastAction, TimingState};
use crate::topout::TopOutReason;

verus! {

#[derive(Clone, Copy, Debug, PartialEq, Eq, Structural)]
pub struct TimingSnapshot {
    pub fall_fraction_micros: u32,
    pub lock_elapsed_frames: u16,
    pub lock_resets_used: u16,
    pub locked: bool,
    pub last_action: LastAction,
}

pub open spec fn timing_snapshot_of(state: TimingState) -> TimingSnapshot {
    TimingSnapshot {
        fall_fraction_micros: state.fall_fraction_micros,
        lock_elapsed_frames: state.lock_elapsed_frames,
        lock_resets_used: state.lock_resets_used,
        locked: state.locked,
        last_action: state.last_action,
    }
}

impl From<&TimingState> for TimingSnapshot {
    fn from(state: &TimingState) -> (r: Self) {
        TimingSnapshot {
            fall_fraction_micros: state.fall_fraction_micros,
            lock_elapsed_frames: state.lock_elapsed_frames,
            lock_resets_used: state.lock_resets_used,
            locked: state.locked,
            last_action: state.last_action,
        }
    }
}

impl FromSpecImpl<&TimingState> for TimingSnapshot {
    open spec fn obeys_from_spec() -> bool {
        true
    }

    open spec fn from_spec(state: &TimingState) -> TimingSnapshot {
        timing_snapshot_of(*state)
    }
}

/// Observable state of one player at one frame.
#[derive(Clone, Debug, PartialEq, Eq)]
pub struct FrameSnapshot {
    pub frame: u64,
    pub board_rows: [u16; HEIGHT],
    pub garbage_rows: [u16; HEIGHT],
    pub active: PieceState,
    pub hold: Option<PieceKind>,
    pub preview: Vec<PieceKind>,
    pub top_out: Option<TopOutReason>,
    pub timing: Option<TimingSnapshot>,
}

impl FrameSnapshot {
    pub fn from_game(frame: u64, game: &GameState) -> (r: Self)
        requires
            game.wf(),
        ensures
            r.frame == frame,
            r.board_rows@ == game@.board.0,
            r.garbage_rows@ == game@.board.1,
            r.active == game@.active,
            r.hold == game@.hold,
            r.preview@ == game@.queue,
            r.top_out == game@.top_out,
            r.timing is None,
    {
        let board = game.board();
        FrameSnapshot {
            frame,
            board_rows: *board.rows(),
            garbage_rows: *board.garbage_rows(),
            active: game.active(),
            hold: game.hold(),
            preview: game.preview(),
            top_out: game.top_out_reason(),
            timing: None,
        }
    }

    pub fn from_timed_game(frame: u64, game: &GameState, timing: &TimingState) -> (r: Self)
        requires
            game.wf(),
        ensures
            r.frame == frame,
            r.board_rows@ == game@.board.0,
            r.garbage_rows@ == game@.board.1,
            r.active == timing.piece,
            r.hold == game@.hold,
            r.preview@ == game@.queue,
            r.top_out == game@.top_out,
            r.timing == Some(timing_snapshot_of(*timing)),
    {
        let board = game.board();
        FrameSnapshot {
            frame,
            board_rows: *board.rows(),
            garbage_rows: *board.garbage_rows(),
            active: timing.piece,
            hold: game.hold(),
            preview: game.preview(),
            top_out: game.top_out_reason(),
            timing: Some(TimingSnapshot::from(timing)),
        }
    }

    /// The session's game at its current frame, with the falling piece's
    /// timing state when one is in flight.
    pub fn from_session(session: &FrameSession) -> (r: Self)
        requires
            session.wf(),
        ensures
            r.frame == session@.frame,
            r.board_rows@ == session@.game.board.0,
            r.garbage_rows@ == session@.game.board.1,
            r.hold == session@.game.hold,
            r.preview@ == session@.game.queue,
            r.top_out == session@.game.top_out,
            match session@.timing {
                Some(t) => r.active == t.piece && r.timing == Some(timing_snapshot_of(t)),
                None => r.active == session@.game.active && r.timing is None,
            },
    {
        match session.timing() {
            Some(timing) => Self::from_timed_game(session.frame(), session.game(), timing),
            None => Self::from_game(session.frame(), session.game()),
        }
    }
}

#[derive(Clone, Copy, Debug, PartialEq, Eq, Structural)]
pub struct RowDifference {
    pub row: usize,
    pub expected: u16,
    pub actual: u16,
}

#[derive(Clone, Debug, PartialEq, Eq)]
pub enum SnapshotDifference {
    FrameNumber { expected: u64, actual: u64 },
    BoardRows(Vec<RowDifference>),
    GarbageRows(Vec<RowDifference>),
    ActivePiece { expected: PieceState, actual: PieceState },
    Hold { expected: Option<PieceKind>, actual: Option<PieceKind> },
    Preview { expected: Vec<PieceKind>, actual: Vec<PieceKind> },
    TopOut { expected: Option<TopOutReason>, actual: Option<TopOutReason> },
    Timing { expected: Option<TimingSnapshot>, actual: Option<TimingSnapshot> },
}

#[derive(Clone, Debug, PartialEq, Eq)]
pub struct FrameMismatch {
    pub index: usize,
    pub expected_frame: u64,
    pub actual_frame: u64,
    pub difference: SnapshotDifference,
}

#[derive(Clone, Debug, PartialEq, Eq)]
pub enum ConformanceMismatch {
    Frame(FrameMismatch),
    TraceLength { matched_frames: usize, expected: usize, actual: usize },
}

/// The rows (among the first `n`) at which two row sequences differ, in
/// ascending order, with both values.
pub open spec fn row_differences(e: Seq<u16>, a: Seq<u16>, n: nat) -> Seq<RowDifference>
    decreases n,
{
    if n == 0 {
        Seq::empty()
    } else if e[n - 1] != a[n - 1] {
        row_differences(e, a, (n - 1) as nat).push(
            RowDifference { row: (n - 1) as usize, expected: e[n - 1], actual: a[n - 1] },
        )
    } else {
        row_differences(e, a, (n - 1) as nat)
    }
}

/// Two snapshots agree on every observable field.
pub open spec fn same_snapshot(e: FrameSnapshot, a: FrameSnapshot) -> bool {
    &&& e.frame == a.frame
    &&& e.board_rows@ == a.board_rows@
    &&& e.garbage_rows@ == a.garbage_rows@
    &&& e.active == a.active
    &&& e.hold == a.hold
    &&& e.preview@ == a.preview@
    &&& e.top_out == a.top_out
    &&& e.timing == a.timing
}

/// `d` reports the first differing field of the two snapshots, in the order
/// frame, board, garbage layer, active piece, hold, preview, top-out, timing.
pub open spec fn reports_difference(e: FrameSnapshot, a: FrameSnapshot, d: SnapshotDifference) -> bool {
    match d {
        SnapshotDifference::FrameNumber { expected, actual } => {
            &&& e.frame != a.frame
            &&& expected == e.frame
            &&& actual == a.frame
        },
        SnapshotDifference::BoardRows(rows) => {
            &&& e.frame == a.frame
            &&& e.board_rows@ != a.board_rows@
            &&& rows@ == row_differences(e.board_rows@, a.board_rows@, HEIGHT as nat)
        },
        SnapshotDifference::GarbageRows(rows) => {
            &&& e.frame == a.frame
            &&& e.board_rows@ == a.board_rows@
            &&& e.garbage_rows@ != a.garbage_rows@
            &&& rows@ == row_differences(e.garbage_rows@, a.garbage_rows@, HEIGHT as nat)
        },
        SnapshotDifference::ActivePiece { expected, actual } => {
            &&& e.frame == a.frame
            &&& e.board_rows@ == a.board_rows@
            &&& e.garbage_rows@ == a.garbage_rows@
            &&& e.active != a.active
            &&& expected == e.active
            &&& actual == a.active
        },
        SnapshotDifference::Hold { expected, actual } => {
            &&& e.frame == a.frame
            &&& e.board_rows@ == a.board_rows@
            &&& e.garbage_rows@ == a.garbage_rows@
            &&& e.active == a.active
            &&& e.hold != a.hold
            &&& expected == e.hold
            &&& actual == a.hold
        },
        SnapshotDifference::Preview { expected, actual } => {
            &&& e.frame == a.frame
            &&& e.board_rows@ == a.board_rows@
            &&& e.garbage_rows@ == a.garbage_rows@
            &&& e.active == a.active
            &&& e.hold == a.hold
            &&& e.preview@ != a.preview@
            &&& expected@ == e.preview@
            &&& actual@ == a.preview@
        },
        SnapshotDifference::TopOut { expected, actual } => {
            &&& e.frame == a.frame
            &&& e.board_rows@ == a.board_rows@
            &&& e.garbage_rows@ == a.garbage_rows@
            &&& e.active == a.active
            &&& e.hold == a.hold
            &&& e.preview@ == a.preview@
            &&& e.top_out != a.top_out
            &&& expected == e.top_out
            &&& actual == a.top_out
        },
        SnapshotDifference::Timing { expected, actual } => {
            &&& e.frame == a.frame
            &&& e.board_rows@ == a.board_rows@
            &&& e.garbage_rows@ == a.garbage_rows@
            &&& e.active == a.active
            &&& e.hold == a.hold
            &&& e.preview@ == a.preview@
            &&& e.top_out == a.top_out
            &&& e.timing != a.timing
            &&& expected == e.timing
            &&& actual == a.timing
        },
    }
}

/// The result of comparing two snapshots: nothing when they agree, else the
/// first differing field.
pub open spec fn snapshot_comparison(e: FrameSnapshot, a: FrameSnapshot, r: Option<SnapshotDifference>) -> bool {
    match r {
        None => same_snapshot(e, a),
        Some(d) => reports_difference(e, a, d),
    }
}

fn rows_equal(e: &[u16; HEIGHT], a: &[u16; HEIGHT]) -> (r: bool)
    ensures
        r == (e@ == a@),
{
    let mut i: usize = 0;
    while i < HEIGHT
        invariant
            i <= HEIGHT,
            forall|j: int| 0 <= j < i ==> e@[j] == a@[j],
        decreases HEIGHT - i,
    {
        if e[i] != a[i] {
            return false;
        }
        i += 1;
    }
    assert(e@ =~= a@);
    true
}

fn row_difference_list(e: &[u16; HEIGHT], a: &[u16; HEIGHT]) -> (r: Vec<RowDifference>)
    ensures
        r@ == row_differences(e@, a@, HEIGHT as nat),
{
    let mut out: Vec<RowDifference> = Vec::new();
    let mut i: usize = 0;
    while i < HEIGHT
        invariant
            i <= HEIGHT,
            out@ == row_differences(e@, a@, i as nat),
        decreases HEIGHT - i,
    {
        if e[i] != a[i] {
            out.push(RowDifference { row: i, expected: e[i], actual: a[i] });
        }
        i += 1;
    }
    out
}

pub(crate) fn kinds_equal(e: &Vec<PieceKind>, a: &Vec<PieceKind>) -> (r: bool)
    ensures
        r == (e@ == a@),
{
    if e.len() != a.len() {
        return false;
    }
    let mut i: usize = 0;
    while i < e.len()
        invariant
            e@.len() == a@.len(),
            i <= e@.len(),
            forall|j: int| 0 <= j < i ==> e@[j] == a@[j],
        decreases e@.len() - i,
    {
        if e[i] != a[i] {
            return false;
        }
        i += 1;
    }
    assert(e@ =~= a@);
    true
}

fn holds_equal(e: Option<PieceKind>, a: Option<PieceKind>) -> (r: bool)
    ensures
        r == (e == a),
{
    match (e, a) {
        (None, None) => true,
        (Some(x), Some(y)) => x == y,
        _ => false,
    }
}

fn top_outs_equal(e: Option<TopOutReason>, a: Option<TopOutReason>) -> (r: bool)
    ensures
        r == (e == a),
{
    match (e, a) {
        (None, None) => true,
        (Some(x), Some(y)) => x == y,
        _ => false,
    }
}

fn timings_equal(e: Option<TimingSnapshot>, a: Option<TimingSnapshot>) -> (r: bool)
    ensures
        r == (e == a),
{
    match (e, a) {
        (None, None) => true,
        (Some(x), Some(y)) => x == y,
        _ => false,
    }
}

fn clone_kinds(v: &Vec<PieceKind>) -> (r: Vec<PieceKind>)
    ensures
        r@ == v@,
{
    let mut out: Vec<PieceKind> = Vec::new();
    let mut i: usize = 0;
    while i < v.len()
        invariant
            i <= v@.len(),
            out@ == v@.take(i as int),
        decreases v@.len() - i,
    {
        out.push(v[i]);
        proof {
            assert(v@.take(i + 1) =~= v@.take(i as int).push(v@[i as int]));
        }
        i += 1;
    }
    assert(v@.take(v@.len() as int) =~= v@);
    out
}

/// The first observable difference between two snapshots, if any.
pub fn compare_snapshot(expected: &FrameSnapshot, actual: &FrameSnapshot) -> (r: Option<SnapshotDifference>)
    ensures
        snapshot_comparison(*expected, *actual, r),
{
    if expected.frame != actual.frame {
        return Some(SnapshotDifference::FrameNumber { expected: expected.frame, actual: actual.frame });
    }
    if !rows_equal(&expected.board_rows, &actual.board_rows) {
        return Some(SnapshotDifference::BoardRows(row_difference_list(&expected.board_rows, &actual.board_rows)));
    }
    if !rows_equal(&expected.garbage_rows, &actual.garbage_rows) {
        return Some(
            SnapshotDifference::GarbageRows(row_difference_list(&expected.garbage_rows, &actual.garbage_rows)),
        );
    }
    if expected.active != actual.active {
        return Some(SnapshotDifference::ActivePiece { expected: expected.active, actual: actual.active });
    }
    if !holds_equal(expected.hold, actual.hold) {
        return Some(SnapshotDifference::Hold { expected: expected.hold, actual: actual.hold });
    }
    if !kinds_equal(&expected.preview, &actual.preview) {
        return Some(
            SnapshotDifference::Preview {
                expected: clone_kinds(&expected.preview),
                actual: clone_kinds(&actual.preview),
            },
        );
    }
    if !top_outs_equal(expected.top_out, actual.top_out) {
        return Some(SnapshotDifference::TopOut { expected: expected.top_out, actual: actual.top_out });
    }
    if !timings_equal(expected.timing, actual.timing) {
        return Some(SnapshotDifference::Timing { expected: expected.timing, actual: actual.timing });
    }
    None
}

pub open spec fn min_len(a: nat, b: nat) -> nat {
    if a <= b {
        a
    } else {
        b
    }
}

/// The snapshots agree pairwise over the first `n` frames.
pub open spec fn prefix_agrees(e: Seq<FrameSnapshot>, a: Seq<FrameSnapshot>, n: int) -> bool {
    forall|j: int| 0 <= j < n ==> same_snapshot(#[trigger] e[j], a[j])
}

/// The result of comparing two traces: agreement, the first frame pair that
/// differs, or, when every paired frame agrees, the difference in length.
pub open spec fn trace_comparison(
    e: Seq<FrameSnapshot>,
    a: Seq<FrameSnapshot>,
    r: Result<(), ConformanceMismatch>,
) -> bool {
    match r {
        Ok(()) => e.len() == a.len() && prefix_agrees(e, a, e.len() as int),
        Err(ConformanceMismatch::Frame(m)) => {
            &&& m.index < min_len(e.len(), a.len())
            &&& prefix_agrees(e, a, m.index as int)
            &&& m.expected_frame == e[m.index as int].frame
            &&& m.actual_frame == a[m.index as int].frame
            &&& reports_difference(e[m.index as int], a[m.index as int], m.difference)
        },
        Err(ConformanceMismatch::TraceLength { matched_frames, expected, actual }) => {
            &&& e.len() != a.len()
            &&& prefix_agrees(e, a, min_len(e.len(), a.len()) as int)
            &&& matched_frames == min_len(e.len(), a.len())
            &&& expected == e.len()
            &&& actual == a.len()
        },
    }
}

/// Returns the first deterministic mismatch between a reference and a local
/// trace.
pub fn compare_traces(expected: &[FrameSnapshot], actual: &[FrameSnapshot]) -> (r: Result<(), ConformanceMismatch>)
    ensures
        trace_comparison(expected@, actual@, r),
{
    let n = if expected.len() <= actual.len() {
        expected.len()
    } else {
        actual.len()
    };
    let mut index: usize = 0;
    while index < n
        invariant
            n == min_len(expected@.len(), actual@.len()),
            index <= n,
            prefix_agrees(expected@, actual@, index as int),
        decreases n - index,
    {
        match compare_snapshot(&expected[index], &actual[index]) {
            Some(difference) => {
                return Err(
                    ConformanceMismatch::Frame(
                        FrameMismatch {
                            index,
                            expected_frame: expected[index].frame,
                            actual_frame: actual[index].frame,
                            difference,
                        },
                    ),
                );
            },
            None => {},
        }
        index += 1;
    }
    if expected.len() != actual.len() {
        return Err(
            ConformanceMismatch::TraceLength { matched_frames: n, expected: expected.len(), actual: actual.len() },
        );
    }
    Ok(())
}

} // verus!
