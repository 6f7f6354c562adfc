use vstd::prelude::*;
use vstd::string::*;
use crate::text::{append_signed_decimal, signed_decimal};

verus! {

/// The seven tetromino kinds.
#[derive(Clone, Copy, Debug, PartialEq, Eq, Structural, Hash, PartialOrd, Ord)]
pub enum PieceKind {
    I,
    J,
    L,
    O,
    S,
    T,
    Z,
}

/// SRS orientation names.
#[derive(Clone, Copy, Debug, PartialEq, Eq, Structural, Hash, PartialOrd, Ord)]
pub enum Orientation {
    Spawn,
    Right,
    Reverse,
    Left,
}

pub open spec fn kind_index(kind: PieceKind) -> int {
    match kind {
        PieceKind::I => 0,
        PieceKind::J => 1,
        PieceKind::L => 2,
        PieceKind::O => 3,
        PieceKind::S => 4,
        PieceKind::T => 5,
        PieceKind::Z => 6,
    }
}

pub open spec fn orientation_index(o: Orientation) -> int {
    match o {
        Orientation::Spawn => 0,
        Orientation::Right => 1,
        Orientation::Reverse => 2,
        Orientation::Left => 3,
    }
}

/// Occupied cells of each kind and orientation in an SRS 4x4 local box,
/// positive y upward.
pub open spec fn local_cells(kind: PieceKind, o: Orientation) -> [(i16, i16); 4] {
    match kind {
        PieceKind::I => match o {
            Orientation::Spawn => [(0, 2), (1, 2), (2, 2), (3, 2)],
            Orientation::Right => [(2, 0), (2, 1), (2, 2), (2, 3)],
            Orientation::Reverse => [(0, 1), (1, 1), (2, 1), (3, 1)],
            Orientation::Left => [(1, 0), (1, 1), (1, 2), (1, 3)],
        },
        PieceKind::J => match o {
            Orientation::Spawn => [(0, 2), (0, 1), (1, 1), (2, 1)],
            Orientation::Right => [(1, 2), (2, 2), (1, 1), (1, 0)],
            Orientation::Reverse => [(0, 1), (1, 1), (2, 1), (2, 0)],
            Orientation::Left => [(1, 2), (1, 1), (0, 0), (1, 0)],
        },
        PieceKind::L => match o {
            Orientation::Spawn => [(2, 2), (0, 1), (1, 1), (2, 1)],
            Orientation::Right => [(1, 2), (1, 1), (1, 0), (2, 0)],
            Orientation::Reverse => [(0, 1), (1, 1), (2, 1), (0, 0)],
            Orientation::Left => [(0, 2), (1, 2), (1, 1), (1, 0)],
        },
        PieceKind::O => [(1, 2), (2, 2), (1, 1), (2, 1)],
        PieceKind::S => match o {
            Orientation::Spawn => [(1, 2), (2, 2), (0, 1), (1, 1)],
            Orientation::Right => [(1, 2), (1, 1), (2, 1), (2, 0)],
            Orientation::Reverse => [(0, 1), (1, 1), (1, 0), (2, 0)],
            Orientation::Left => [(0, 2), (0, 1), (1, 1), (1, 0)],
        },
        PieceKind::T => match o {
            Orientation::Spawn => [(0, 1), (1, 1), (2, 1), (1, 2)],
            Orientation::Right => [(1, 0), (1, 1), (1, 2), (2, 1)],
            Orientation::Reverse => [(0, 1), (1, 1), (2, 1), (1, 0)],
            Orientation::Left => [(1, 0), (1, 1), (1, 2), (0, 1)],
        },
        PieceKind::Z => match o {
            Orientation::Spawn => [(0, 2), (1, 2), (1, 1), (2, 1)],
            Orientation::Right => [(2, 2), (1, 1), (2, 1), (1, 0)],
            Orientation::Reverse => [(0, 0), (1, 0), (1, 1), (2, 1)],
            Orientation::Left => [(1, 2), (0, 1), (1, 1), (0, 0)],
        },
    }
}

pub open spec fn spec_clockwise(o: Orientation) -> Orientation {
    match o {
        Orientation::Spawn => Orientation::Right,
        Orientation::Right => Orientation::Reverse,
        Orientation::Reverse => Orientation::Left,
        Orientation::Left => Orientation::Spawn,
    }
}

pub open spec fn spec_counterclockwise(o: Orientation) -> Orientation {
    match o {
        Orientation::Spawn => Orientation::Left,
        Orientation::Right => Orientation::Spawn,
        Orientation::Reverse => Orientation::Right,
        Orientation::Left => Orientation::Reverse,
    }
}

pub open spec fn spec_half(o: Orientation) -> Orientation {
    match o {
        Orientation::Spawn => Orientation::Reverse,
        Orientation::Right => Orientation::Left,
        Orientation::Reverse => Orientation::Spawn,
        Orientation::Left => Orientation::Right,
    }
}

impl PieceKind {
    /// Canonical engine order.
    pub const ALL: [PieceKind; 7] = [
        PieceKind::I,
        PieceKind::J,
        PieceKind::L,
        PieceKind::O,
        PieceKind::S,
        PieceKind::T,
        PieceKind::Z,
    ];

    pub open spec fn all_spec() -> Seq<PieceKind> {
        seq![PieceKind::I, PieceKind::J, PieceKind::L, PieceKind::O, PieceKind::S, PieceKind::T, PieceKind::Z]
    }

    pub proof fn lemma_all_is_permutation()
        ensures
            Self::all_spec().len() == 7,
            forall|k: PieceKind| #[trigger] Self::all_spec().contains(k),
            forall|i: int| 0 <= i < 7 ==> kind_index(#[trigger] Self::all_spec()[i]) == i,
    {
        assert forall|k: PieceKind| #[trigger] Self::all_spec().contains(k) by {
            assert(Self::all_spec()[kind_index(k)] == k);
        }
    }

    /// Canonical engine order.
    pub fn all() -> (r: [PieceKind; 7])
        ensures
            forall|i: int| 0 <= i < 7 ==> kind_index(#[trigger] r[i]) == i,
            r@ == Self::all_spec(),
    {
        let r = [PieceKind::I, PieceKind::J, PieceKind::L, PieceKind::O, PieceKind::S, PieceKind::T, PieceKind::Z];
        assert(r@ =~= Self::all_spec());
        r
    }

    pub fn index(self) -> (r: usize)
        ensures
            r == kind_index(self),
            r < 7,
    {
        match self {
            PieceKind::I => 0,
            PieceKind::J => 1,
            PieceKind::L => 2,
            PieceKind::O => 3,
            PieceKind::S => 4,
            PieceKind::T => 5,
            PieceKind::Z => 6,
        }
    }

    /// Occupied cells in an SRS-compatible 4x4 local coordinate box.
    pub fn cells(self, orientation: Orientation) -> (r: [(i16, i16); 4])
        ensures
            r == local_cells(self, orientation),
    {
        match self {
            PieceKind::I => match orientation {
                Orientation::Spawn => [(0, 2), (1, 2), (2, 2), (3, 2)],
                Orientation::Right => [(2, 0), (2, 1), (2, 2), (2, 3)],
                Orientation::Reverse => [(0, 1), (1, 1), (2, 1), (3, 1)],
                Orientation::Left => [(1, 0), (1, 1), (1, 2), (1, 3)],
            },
            PieceKind::J => match orientation {
                Orientation::Spawn => [(0, 2), (0, 1), (1, 1), (2, 1)],
                Orientation::Right => [(1, 2), (2, 2), (1, 1), (1, 0)],
                Orientation::Reverse => [(0, 1), (1, 1), (2, 1), (2, 0)],
                Orientation::Left => [(1, 2), (1, 1), (0, 0), (1, 0)],
            },
            PieceKind::L => match orientation {
                Orientation::Spawn => [(2, 2), (0, 1), (1, 1), (2, 1)],
                Orientation::Right => [(1, 2), (1, 1), (1, 0), (2, 0)],
                Orientation::Reverse => [(0, 1), (1, 1), (2, 1), (0, 0)],
                Orientation::Left => [(0, 2), (1, 2), (1, 1), (1, 0)],
            },
            PieceKind::O => [(1, 2), (2, 2), (1, 1), (2, 1)],
            PieceKind::S => match orientation {
                Orientation::Spawn => [(1, 2), (2, 2), (0, 1), (1, 1)],
                Orientation::Right => [(1, 2), (1, 1), (2, 1), (2, 0)],
                Orientation::Reverse => [(0, 1), (1, 1), (1, 0), (2, 0)],
                Orientation::Left => [(0, 2), (0, 1), (1, 1), (1, 0)],
            },
            PieceKind::T => match orientation {
                Orientation::Spawn => [(0, 1), (1, 1), (2, 1), (1, 2)],
                Orientation::Right => [(1, 0), (1, 1), (1, 2), (2, 1)],
                Orientation::Reverse => [(0, 1), (1, 1), (2, 1), (1, 0)],
                Orientation::Left => [(1, 0), (1, 1), (1, 2), (0, 1)],
            },
            PieceKind::Z => match orientation {
                Orientation::Spawn => [(0, 2), (1, 2), (1, 1), (2, 1)],
                Orientation::Right => [(2, 2), (1, 1), (2, 1), (1, 0)],
                Orientation::Reverse => [(0, 0), (1, 0), (1, 1), (2, 1)],
                Orientation::Left => [(1, 2), (0, 1), (1, 1), (0, 0)],
            },
        }
    }
}

impl Orientation {
    pub const ALL: [Orientation; 4] = [Orientation::Spawn, Orientation::Right, Orientation::Reverse, Orientation::Left];

    pub fn all() -> (r: [Orientation; 4])
        ensures
            forall|i: int| 0 <= i < 4 ==> orientation_index(#[trigger] r[i]) == i,
    {
        [Orientation::Spawn, Orientation::Right, Orientation::Reverse, Orientation::Left]
    }

    pub fn clockwise(self) -> (r: Self)
        ensures
            r == spec_clockwise(self),
    {
        match self {
            Orientation::Spawn => Orientation::Right,
            Orientation::Right => Orientation::Reverse,
            Orientation::Reverse => Orientation::Left,
            Orientation::Left => Orientation::Spawn,
        }
    }

    pub fn counterclockwise(self) -> (r: Self)
        ensures
            r == spec_counterclockwise(self),
    {
        match self {
            Orientation::Spawn => Orientation::Left,
            Orientation::Right => Orientation::Spawn,
            Orientation::Reverse => Orientation::Right,
            Orientation::Left => Orientation::Reverse,
        }
    }

    pub fn half(self) -> (r: Self)
        ensures
            r == spec_half(self),
    {
        match self {
            Orientation::Spawn => Orientation::Reverse,
            Orientation::Right => Orientation::Left,
            Orientation::Reverse => Orientation::Spawn,
            Orientation::Left => Orientation::Right,
        }
    }
}

/// Four clockwise quarter turns return to the starting orientation, a
/// counterclockwise turn undoes a clockwise one, and two half turns cancel.
pub proof fn lemma_rotation_cycles(o: Orientation)
    ensures
        spec_clockwise(spec_clockwise(spec_clockwise(spec_clockwise(o)))) == o,
        spec_counterclockwise(spec_clockwise(o)) == o,
        spec_clockwise(spec_counterclockwise(o)) == o,
        spec_half(spec_half(o)) == o,
        spec_half(o) == spec_clockwise(spec_clockwise(o)),
{
}

/// Every kind and orientation occupies four distinct cells inside its 4x4 box.
pub proof fn lemma_local_cells_distinct_in_box(kind: PieceKind, o: Orientation)
    ensures
        forall|i: int| 0 <= i < 4 ==> {
            let c = #[trigger] local_cells(kind, o)[i];
            0 <= c.0 < 4 && 0 <= c.1 < 4
        },
        forall|i: int, j: int| 0 <= i < j < 4 ==> local_cells(kind, o)[i] != local_cells(kind, o)[j],
{
}

/// A tetromino state. `x` and `y` locate the bottom-left of its 4x4 SRS box.
#[derive(Clone, Copy, Debug, PartialEq, Eq, Structural, Hash, PartialOrd, Ord)]
pub struct PieceState {
    pub kind: PieceKind,
    pub orientation: Orientation,
    pub x: i16,
    pub y: i16,
}

/// Origin coordinates for which every cell of the 4x4 box and each unit step
/// stay representable.
pub open spec fn coords_ok(x: int, y: int) -> bool {
    -32000 <= x <= 32000 && -32000 <= y <= 32000
}

impl PieceState {
    pub open spec fn ok(self) -> bool {
        coords_ok(self.x as int, self.y as int)
    }

    /// The four board cells of the piece are representable.
    pub open spec fn cells_fit(self) -> bool {
        self.x <= i16::MAX - 3 && self.y <= i16::MAX - 3
    }

    /// Board cell `i` of the piece.
    pub open spec fn cell(self, i: int) -> (int, int) {
        let c = local_cells(self.kind, self.orientation)[i];
        (self.x + c.0, self.y + c.1)
    }

    pub open spec fn covers(self, x: int, y: int) -> bool {
        exists|i: int| 0 <= i < 4 && self.cell(i) == (x, y)
    }

    pub fn new(kind: PieceKind, orientation: Orientation, x: i16, y: i16) -> (r: Self)
        ensures
            r == (PieceState { kind, orientation, x, y }),
    {
        PieceState { kind, orientation, x, y }
    }

    pub fn cells(self) -> (r: [(i16, i16); 4])
        requires
            self.x <= i16::MAX - 3,
            self.y <= i16::MAX - 3,
        ensures
            forall|i: int| 0 <= i < 4 ==> (#[trigger] r[i]).0 == self.cell(i).0 && r[i].1 == self.cell(i).1,
    {
        let local = PieceKind::cells(self.kind, self.orientation);
        proof {
            lemma_local_cells_distinct_in_box(self.kind, self.orientation);
        }
        [
            (self.x + local[0].0, self.y + local[0].1),
            (self.x + local[1].0, self.y + local[1].1),
            (self.x + local[2].0, self.y + local[2].1),
            (self.x + local[3].0, self.y + local[3].1),
        ]
    }

    pub fn translated(self, dx: i16, dy: i16) -> (r: Self)
        requires
            i16::MIN <= self.x + dx <= i16::MAX,
            i16::MIN <= self.y + dy <= i16::MAX,
        ensures
            r == (PieceState { x: (self.x + dx) as i16, y: (self.y + dy) as i16, ..self }),
    {
        PieceState { x: self.x + dx, y: self.y + dy, ..self }
    }

    pub fn with_orientation(self, orientation: Orientation) -> (r: Self)
        ensures
            r == (PieceState { orientation, ..self }),
    {
        PieceState { orientation, ..self }
    }
}

/// A piece kind's name: its letter.
pub open spec fn kind_text(k: PieceKind) -> Seq<char> {
    match k {
        PieceKind::I => "I"@,
        PieceKind::J => "J"@,
        PieceKind::L => "L"@,
        PieceKind::O => "O"@,
        PieceKind::S => "S"@,
        PieceKind::T => "T"@,
        PieceKind::Z => "Z"@,
    }
}

pub fn kind_label(k: PieceKind) -> (r: &'static str)
    ensures
        r@ == kind_text(k),
{
    match k {
        PieceKind::I => "I",
        PieceKind::J => "J",
        PieceKind::L => "L",
        PieceKind::O => "O",
        PieceKind::S => "S",
        PieceKind::T => "T",
        PieceKind::Z => "Z",
    }
}

/// An orientation's name.
pub open spec fn orientation_label_text(o: Orientation) -> Seq<char> {
    match o {
        Orientation::Spawn => "Spawn"@,
        Orientation::Right => "Right"@,
        Orientation::Reverse => "Reverse"@,
        Orientation::Left => "Left"@,
    }
}

/// A piece state written out field by field.
pub open spec fn piece_state_text(p: PieceState) -> Seq<char> {
    "PieceState { kind: "@ + kind_text(p.kind) + ", orientation: "@ + orientation_label_text(p.orientation) + ", x: "@
        + signed_decimal(p.x as int) + ", y: "@ + signed_decimal(p.y as int) + " }"@
}

pub fn append_piece_state(s: &mut String, p: PieceState)
    ensures
        final(s)@ == old(s)@ + piece_state_text(p),
{
    s.append("PieceState { kind: ");
    s.append(kind_label(p.kind));
    s.append(", orientation: ");
    s.append(
        match p.orientation {
            Orientation::Spawn => "Spawn",
            Orientation::Right => "Right",
            Orientation::Reverse => "Reverse",
            Orientation::Left => "Left",
        },
    );
    s.append(", x: ");
    append_signed_decimal(s, p.x as i64);
    s.append(", y: ");
    append_signed_decimal(s, p.y as i64);
    s.append(" }");
}

} // verus!
