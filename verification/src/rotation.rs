use vstd::prelude::*;
use crate::board::{Board, hits, lemma_fits_bounds};
use crate::piece::{Orientation, PieceKind, PieceState, spec_clockwise, spec_counterclockwise, spec_half};

verus! {

/// Rotation inputs supported by the modern core.
#[derive(Clone, Copy, Debug, PartialEq, Eq, Structural, Hash, PartialOrd, Ord)]
pub enum RotationDirection {
    Clockwise,
    Counterclockwise,
    Half,
}

#[derive(Clone, Copy, Debug, PartialEq, Eq, Structural)]
pub struct RotationResult {
    pub state: PieceState,
    /// Position of the successful test in the ordered kick table.
    pub kick_index: u8,
    pub direction: RotationDirection,
    /// True when a fallback test (any test after the direct one) succeeded.
    pub used_kick: bool,
}

impl RotationResult {
    /// The client's kick index: fallback tests are numbered from zero after
    /// the direct test, and a direct rotation reports zero.
    pub open spec fn client_kick_index_spec(self) -> u8 {
        if self.kick_index == 0 { 0u8 } else { (self.kick_index - 1) as u8 }
    }

    pub fn client_kick_index(self) -> (r: u8)
        ensures
            r == self.client_kick_index_spec(),
    {
        if self.kick_index == 0 {
            0
        } else {
            self.kick_index - 1
        }
    }
}

pub open spec fn rotated_orientation(o: Orientation, d: RotationDirection) -> Orientation {
    match d {
        RotationDirection::Clockwise => spec_clockwise(o),
        RotationDirection::Counterclockwise => spec_counterclockwise(o),
        RotationDirection::Half => spec_half(o),
    }
}

pub open spec fn jlstz_quarter(from: Orientation, d: RotationDirection) -> Seq<(i16, i16)> {
    match (from, d) {
        (Orientation::Spawn, RotationDirection::Clockwise) => seq![(0i16, 0i16), (-1i16, 0i16), (-1i16, 1i16), (0i16, -2i16), (-1i16, -2i16)],
        (Orientation::Right, RotationDirection::Counterclockwise) => seq![(0i16, 0i16), (1i16, 0i16), (1i16, -1i16), (0i16, 2i16), (1i16, 2i16)],
        (Orientation::Right, RotationDirection::Clockwise) => seq![(0i16, 0i16), (1i16, 0i16), (1i16, -1i16), (0i16, 2i16), (1i16, 2i16)],
        (Orientation::Reverse, RotationDirection::Counterclockwise) => seq![(0i16, 0i16), (-1i16, 0i16), (-1i16, 1i16), (0i16, -2i16), (-1i16, -2i16)],
        (Orientation::Reverse, RotationDirection::Clockwise) => seq![(0i16, 0i16), (1i16, 0i16), (1i16, 1i16), (0i16, -2i16), (1i16, -2i16)],
        (Orientation::Left, RotationDirection::Counterclockwise) => seq![(0i16, 0i16), (-1i16, 0i16), (-1i16, -1i16), (0i16, 2i16), (-1i16, 2i16)],
        (Orientation::Left, RotationDirection::Clockwise) => seq![(0i16, 0i16), (-1i16, 0i16), (-1i16, -1i16), (0i16, 2i16), (-1i16, 2i16)],
        (Orientation::Spawn, RotationDirection::Counterclockwise) => seq![(0i16, 0i16), (1i16, 0i16), (1i16, 1i16), (0i16, -2i16), (1i16, -2i16)],
        (_, RotationDirection::Half) => seq![(0i16, 0i16)],
    }
}

pub open spec fn i_quarter(from: Orientation, d: RotationDirection) -> Seq<(i16, i16)> {
    match (from, d) {
        (Orientation::Spawn, RotationDirection::Clockwise) => seq![(0i16, 0i16), (1i16, 0i16), (-2i16, 0i16), (-2i16, -1i16), (1i16, 2i16)],
        (Orientation::Right, RotationDirection::Counterclockwise) => seq![(0i16, 0i16), (-1i16, 0i16), (2i16, 0i16), (-1i16, -2i16), (2i16, 1i16)],
        (Orientation::Right, RotationDirection::Clockwise) => seq![(0i16, 0i16), (-1i16, 0i16), (2i16, 0i16), (-1i16, 2i16), (2i16, -1i16)],
        (Orientation::Reverse, RotationDirection::Counterclockwise) => seq![(0i16, 0i16), (-2i16, 0i16), (1i16, 0i16), (-2i16, 1i16), (1i16, -2i16)],
        (Orientation::Reverse, RotationDirection::Clockwise) => seq![(0i16, 0i16), (2i16, 0i16), (-1i16, 0i16), (2i16, 1i16), (-1i16, -2i16)],
        (Orientation::Left, RotationDirection::Counterclockwise) => seq![(0i16, 0i16), (1i16, 0i16), (-2i16, 0i16), (1i16, 2i16), (-2i16, -1i16)],
        (Orientation::Left, RotationDirection::Clockwise) => seq![(0i16, 0i16), (1i16, 0i16), (-2i16, 0i16), (1i16, -2i16), (-2i16, 1i16)],
        (Orientation::Spawn, RotationDirection::Counterclockwise) => seq![(0i16, 0i16), (-1i16, 0i16), (2i16, 0i16), (2i16, -1i16), (-1i16, 2i16)],
        (_, RotationDirection::Half) => seq![(0i16, 0i16)],
    }
}

pub open spec fn half_table(kind: PieceKind, from: Orientation) -> Seq<(i16, i16)> {
    if kind == PieceKind::I {
        match from {
            Orientation::Spawn => seq![(0i16, 0i16), (0i16, 1i16)],
            Orientation::Right => seq![(0i16, 0i16), (1i16, 0i16)],
            Orientation::Reverse => seq![(0i16, 0i16), (0i16, -1i16)],
            Orientation::Left => seq![(0i16, 0i16), (-1i16, 0i16)],
        }
    } else {
        match from {
            Orientation::Spawn => seq![(0i16, 0i16), (0i16, 1i16), (1i16, 1i16), (-1i16, 1i16), (1i16, 0i16), (-1i16, 0i16)],
            Orientation::Right => seq![(0i16, 0i16), (1i16, 0i16), (1i16, 2i16), (1i16, 1i16), (0i16, 2i16), (0i16, 1i16)],
            Orientation::Reverse => seq![(0i16, 0i16), (0i16, -1i16), (-1i16, -1i16), (1i16, -1i16), (-1i16, 0i16), (1i16, 0i16)],
            Orientation::Left => seq![(0i16, 0i16), (-1i16, 0i16), (-1i16, 2i16), (-1i16, 1i16), (0i16, 2i16), (0i16, 1i16)],
        }
    }
}

/// Ordered SRS+ candidate offsets using positive y upward.
pub open spec fn kick_table(kind: PieceKind, from: Orientation, d: RotationDirection) -> Seq<(i16, i16)> {
    if kind == PieceKind::O {
        seq![(0i16, 0i16)]
    } else if d == RotationDirection::Half {
        half_table(kind, from)
    } else if kind == PieceKind::I {
        i_quarter(from, d)
    } else {
        jlstz_quarter(from, d)
    }
}

pub proof fn lemma_kick_table_shape(kind: PieceKind, from: Orientation, d: RotationDirection)
    ensures
        1 <= kick_table(kind, from, d).len() <= 6,
        kick_table(kind, from, d)[0] == (0i16, 0i16),
        forall|i: int|
            0 <= i < kick_table(kind, from, d).len() ==> -2 <= (#[trigger] kick_table(kind, from, d)[i]).0
                <= 2 && -2 <= kick_table(kind, from, d)[i].1 <= 2,
{
}

pub open spec fn opposite_turn(d: RotationDirection) -> RotationDirection {
    match d {
        RotationDirection::Clockwise => RotationDirection::Counterclockwise,
        RotationDirection::Counterclockwise => RotationDirection::Clockwise,
        RotationDirection::Half => RotationDirection::Half,
    }
}

/// The orientation seen in a left-right mirror.
pub open spec fn mirrored(o: Orientation) -> Orientation {
    match o {
        Orientation::Spawn => Orientation::Spawn,
        Orientation::Right => Orientation::Left,
        Orientation::Reverse => Orientation::Reverse,
        Orientation::Left => Orientation::Right,
    }
}

pub open spec fn is_jlstz(kind: PieceKind) -> bool {
    kind == PieceKind::J || kind == PieceKind::L || kind == PieceKind::S || kind == PieceKind::T || kind == PieceKind::Z
}

/// The quarter-turn kick tables have the SRS symmetries.
///
/// Undoing a turn tries the same offsets negated: for J, L, S, T and Z the
/// table of turning back from the reached orientation is the table of the
/// turn with every offset negated (Left to Spawn undoes Spawn to Left).
///
/// A left-right mirror turns a clockwise turn into a counterclockwise one
/// from the mirrored orientation and negates every horizontal offset, for
/// the I piece as for the others.
///
/// The table a J, L, S, T or Z piece tries turning clockwise from spawn is
/// SRS's: (0,0), (-1,0), (-1,1), (0,-2), (-1,-2); the I piece's is SRS+'s
/// (0,0), (1,0), (-2,0), (-2,-1), (1,2). With the symmetries these fix every
/// quarter-turn table.
pub proof fn lemma_quarter_kicks_are_srs(kind: PieceKind, from: Orientation, d: RotationDirection)
    requires
        d != RotationDirection::Half,
    ensures
        is_jlstz(kind) ==> {
            let t = kick_table(kind, from, d);
            let back = kick_table(kind, rotated_orientation(from, d), opposite_turn(d));
            &&& back.len() == t.len()
            &&& forall|i: int| 0 <= i < t.len() ==> #[trigger] back[i].0 == -t[i].0 && back[i].1 == -t[i].1
        },
        kind != PieceKind::O ==> {
            let t = kick_table(kind, from, d);
            let m = kick_table(kind, mirrored(from), opposite_turn(d));
            &&& m.len() == t.len()
            &&& forall|i: int| 0 <= i < t.len() ==> #[trigger] m[i].0 == -t[i].0 && m[i].1 == t[i].1
        },
        is_jlstz(kind) ==> kick_table(kind, Orientation::Spawn, RotationDirection::Clockwise) == seq![
            (0i16, 0i16),
            (-1i16, 0i16),
            (-1i16, 1i16),
            (0i16, -2i16),
            (-1i16, -2i16),
        ],
        kick_table(PieceKind::I, Orientation::Spawn, RotationDirection::Clockwise) == seq![
            (0i16, 0i16),
            (1i16, 0i16),
            (-2i16, 0i16),
            (-2i16, -1i16),
            (1i16, 2i16),
        ],
{
}

/// The candidate state for test `i` of a rotation.
pub open spec fn kick_candidate(state: PieceState, d: RotationDirection, i: int) -> PieceState {
    let k = kick_table(state.kind, state.orientation, d)[i];
    PieceState {
        kind: state.kind,
        orientation: rotated_orientation(state.orientation, d),
        x: (state.x + k.0) as i16,
        y: (state.y + k.1) as i16,
    }
}

/// Index of the first kick test at or after `i` whose candidate fits.
pub open spec fn first_fit(r: Seq<u16>, state: PieceState, d: RotationDirection, i: int) -> Option<int>
    decreases kick_table(state.kind, state.orientation, d).len() - i,
{
    if i < 0 || i >= kick_table(state.kind, state.orientation, d).len() {
        None
    } else if !hits(r, kick_candidate(state, d, i)) {
        Some(i)
    } else {
        first_fit(r, state, d, i + 1)
    }
}

/// The outcome of a rotation: the first candidate that fits, or none.
pub open spec fn rotation_outcome(r: Seq<u16>, state: PieceState, d: RotationDirection) -> Option<RotationResult> {
    match first_fit(r, state, d, 0) {
        Some(i) => Some(
            RotationResult { state: kick_candidate(state, d, i), kick_index: i as u8, direction: d, used_kick: i > 0 },
        ),
        None => None,
    }
}

pub proof fn lemma_first_fit(r: Seq<u16>, state: PieceState, d: RotationDirection, i: int)
    requires
        0 <= i,
    ensures
        first_fit(r, state, d, i) matches Some(j) ==> i <= j < kick_table(state.kind, state.orientation, d).len()
            && !hits(r, kick_candidate(state, d, j)),
    decreases kick_table(state.kind, state.orientation, d).len() - i,
{
    if i < kick_table(state.kind, state.orientation, d).len() && hits(r, kick_candidate(state, d, i)) {
        lemma_first_fit(r, state, d, i + 1);
    }
}

pub fn kick_tests(kind: PieceKind, from: Orientation, direction: RotationDirection) -> (r: Vec<(i16, i16)>)
    ensures
        r@ == kick_table(kind, from, direction),
{
    if kind == PieceKind::O {
        return vec![(0, 0)];
    }
    if direction == RotationDirection::Half {
        return half_kicks(kind, from);
    }
    if kind == PieceKind::I {
        return i_quarter_kicks(from, direction);
    }
    jlstz_quarter_kicks(from, direction)
}

fn jlstz_quarter_kicks(from: Orientation, direction: RotationDirection) -> (r: Vec<(i16, i16)>)
    ensures
        r@ == jlstz_quarter(from, direction),
{
    match (from, direction) {
        (Orientation::Spawn, RotationDirection::Clockwise) => vec![(0, 0), (-1, 0), (-1, 1), (0, -2), (-1, -2)],
        (Orientation::Right, RotationDirection::Counterclockwise) => vec![(0, 0), (1, 0), (1, -1), (0, 2), (1, 2)],
        (Orientation::Right, RotationDirection::Clockwise) => vec![(0, 0), (1, 0), (1, -1), (0, 2), (1, 2)],
        (Orientation::Reverse, RotationDirection::Counterclockwise) => vec![(0, 0), (-1, 0), (-1, 1), (0, -2), (-1, -2)],
        (Orientation::Reverse, RotationDirection::Clockwise) => vec![(0, 0), (1, 0), (1, 1), (0, -2), (1, -2)],
        (Orientation::Left, RotationDirection::Counterclockwise) => vec![(0, 0), (-1, 0), (-1, -1), (0, 2), (-1, 2)],
        (Orientation::Left, RotationDirection::Clockwise) => vec![(0, 0), (-1, 0), (-1, -1), (0, 2), (-1, 2)],
        (Orientation::Spawn, RotationDirection::Counterclockwise) => vec![(0, 0), (1, 0), (1, 1), (0, -2), (1, -2)],
        (_, RotationDirection::Half) => vec![(0, 0)],
    }
}

fn i_quarter_kicks(from: Orientation, direction: RotationDirection) -> (r: Vec<(i16, i16)>)
    ensures
        r@ == i_quarter(from, direction),
{
    match (from, direction) {
        (Orientation::Spawn, RotationDirection::Clockwise) => vec![(0, 0), (1, 0), (-2, 0), (-2, -1), (1, 2)],
        (Orientation::Right, RotationDirection::Counterclockwise) => vec![(0, 0), (-1, 0), (2, 0), (-1, -2), (2, 1)],
        (Orientation::Right, RotationDirection::Clockwise) => vec![(0, 0), (-1, 0), (2, 0), (-1, 2), (2, -1)],
        (Orientation::Reverse, RotationDirection::Counterclockwise) => vec![(0, 0), (-2, 0), (1, 0), (-2, 1), (1, -2)],
        (Orientation::Reverse, RotationDirection::Clockwise) => vec![(0, 0), (2, 0), (-1, 0), (2, 1), (-1, -2)],
        (Orientation::Left, RotationDirection::Counterclockwise) => vec![(0, 0), (1, 0), (-2, 0), (1, 2), (-2, -1)],
        (Orientation::Left, RotationDirection::Clockwise) => vec![(0, 0), (1, 0), (-2, 0), (1, -2), (-2, 1)],
        (Orientation::Spawn, RotationDirection::Counterclockwise) => vec![(0, 0), (-1, 0), (2, 0), (2, -1), (-1, 2)],
        (_, RotationDirection::Half) => vec![(0, 0)],
    }
}

fn half_kicks(kind: PieceKind, from: Orientation) -> (r: Vec<(i16, i16)>)
    ensures
        r@ == half_table(kind, from),
{
    if kind == PieceKind::I {
        return match from {
            Orientation::Spawn => vec![(0, 0), (0, 1)],
            Orientation::Right => vec![(0, 0), (1, 0)],
            Orientation::Reverse => vec![(0, 0), (0, -1)],
            Orientation::Left => vec![(0, 0), (-1, 0)],
        };
    }
    match from {
        Orientation::Spawn => vec![(0, 0), (0, 1), (1, 1), (-1, 1), (1, 0), (-1, 0)],
        Orientation::Right => vec![(0, 0), (1, 0), (1, 2), (1, 1), (0, 2), (0, 1)],
        Orientation::Reverse => vec![(0, 0), (0, -1), (-1, -1), (1, -1), (-1, 0), (1, 0)],
        Orientation::Left => vec![(0, 0), (-1, 0), (-1, 2), (-1, 1), (0, 2), (0, 1)],
    }
}

/// Tries the ordered kick tests and returns the first one that fits.
pub fn try_rotate(board: &Board, state: PieceState, direction: RotationDirection) -> (r: Option<RotationResult>)
    requires
        board.wf(),
        state.ok(),
    ensures
        r == rotation_outcome(board@.0, state, direction),
        r matches Some(res) ==> !hits(board@.0, res.state) && res.state.ok() && res.state.kind == state.kind
            && res.direction == direction && res.used_kick == (res.kick_index > 0),
{
    let orientation = match direction {
        RotationDirection::Clockwise => state.orientation.clockwise(),
        RotationDirection::Counterclockwise => state.orientation.counterclockwise(),
        RotationDirection::Half => state.orientation.half(),
    };
    let rotated = state.with_orientation(orientation);
    let kicks = kick_tests(state.kind, state.orientation, direction);
    proof {
        lemma_kick_table_shape(state.kind, state.orientation, direction);
    }
    let mut index: usize = 0;
    while index < kicks.len()
        invariant
            board.wf(),
            state.ok(),
            rotated == (PieceState { orientation: rotated_orientation(state.orientation, direction), ..state }),
            kicks@ == kick_table(state.kind, state.orientation, direction),
            1 <= kicks@.len() <= 6,
            forall|i: int| 0 <= i < kicks@.len() ==> -2 <= (#[trigger] kicks@[i]).0 <= 2 && -2 <= kicks@[i].1 <= 2,
            index <= kicks@.len(),
            first_fit(board@.0, state, direction, index as int) == first_fit(board@.0, state, direction, 0),
        decreases kicks.len() - index,
    {
        let (dx, dy) = kicks[index];
        let candidate = rotated.translated(dx, dy);
        assert(candidate == kick_candidate(state, direction, index as int));
        if !board.collides(candidate) {
            proof {
                lemma_fits_bounds(board@.0, candidate);
            }
            return Some(RotationResult { state: candidate, kick_index: index as u8, direction, used_kick: index > 0 });
        }
        index += 1;
    }
    None
}

} // verus!
