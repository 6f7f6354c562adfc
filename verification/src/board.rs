use vstd::prelude::*;
use vstd::string::*;
use crate::text::{append_decimal, decimal, hex_word_text, hex_words};
use crate::bits::{bit, lemma_bit_set_clear, lemma_row_width, lemma_subset_edits, lemma_garbage_row};
use crate::piece::{PieceState, append_piece_state, lemma_local_cells_distinct_in_box, piece_state_text};

verus! {

pub const WIDTH: usize = 10;
pub const HEIGHT: usize = 40;
pub const VISIBLE_HEIGHT: usize = 20;
pub const FULL_ROW: u16 = 0x3ff;

// ---------------------------------------------------------------------------
// Mathematical model of a board: two sequences of forty row words.
// ---------------------------------------------------------------------------

/// Rows fit the ten columns and the garbage layer lies inside occupancy.
pub open spec fn rows_wf(r: Seq<u16>, g: Seq<u16>) -> bool {
    &&& r.len() == HEIGHT
    &&& g.len() == HEIGHT
    &&& forall|y: int| 0 <= y < HEIGHT ==> #[trigger] r[y] < 1024
    &&& forall|y: int| 0 <= y < HEIGHT ==> (#[trigger] g[y] & !r[y]) == 0
}

pub open spec fn in_bounds(x: int, y: int) -> bool {
    0 <= x < WIDTH && 0 <= y < HEIGHT
}

pub open spec fn occupied_at(r: Seq<u16>, x: int, y: int) -> bool {
    in_bounds(x, y) && bit(r[y], x)
}

/// A cell a piece cannot use: outside the board or already occupied.
pub open spec fn blocked(r: Seq<u16>, c: (int, int)) -> bool {
    !in_bounds(c.0, c.1) || bit(r[c.1], c.0)
}

pub open spec fn hits(r: Seq<u16>, p: PieceState) -> bool {
    blocked(r, p.cell(0)) || blocked(r, p.cell(1)) || blocked(r, p.cell(2)) || blocked(r, p.cell(3))
}

pub open spec fn set_bit(r: Seq<u16>, c: (int, int)) -> Seq<u16> {
    r.update(c.1, r[c.1] | (1u16 << (c.0 as u16)))
}

/// Occupancy after writing the four cells of a piece.
pub open spec fn placed(r: Seq<u16>, p: PieceState) -> Seq<u16> {
    set_bit(set_bit(set_bit(set_bit(r, p.cell(0)), p.cell(1)), p.cell(2)), p.cell(3))
}

/// Indices below `n` of rows that are not full, in order.
pub open spec fn survivors(r: Seq<u16>, n: nat) -> Seq<int>
    decreases n,
{
    if n == 0 {
        Seq::empty()
    } else if r[n - 1] == FULL_ROW {
        survivors(r, (n - 1) as nat)
    } else {
        survivors(r, (n - 1) as nat).push(n - 1)
    }
}

/// Indices below `n` of full rows, in order.
pub open spec fn full_rows(r: Seq<u16>, n: nat) -> Seq<int>
    decreases n,
{
    if n == 0 {
        Seq::empty()
    } else if r[n - 1] == FULL_ROW {
        full_rows(r, (n - 1) as nat).push(n - 1)
    } else {
        full_rows(r, (n - 1) as nat)
    }
}

/// Rows listed by `keep`, moved down to the floor, with empty rows above.
pub open spec fn compact(s: Seq<u16>, keep: Seq<int>) -> Seq<u16> {
    Seq::new(HEIGHT as nat, |i: int| if i < keep.len() { s[keep[i]] } else { 0u16 })
}

pub open spec fn any_garbage(g: Seq<u16>, idx: Seq<int>) -> bool {
    exists|j: int| 0 <= j < idx.len() && g[idx[j]] != 0
}

pub open spec fn all_empty(r: Seq<u16>) -> bool {
    forall|y: int| 0 <= y < r.len() ==> #[trigger] r[y] == 0
}

pub open spec fn hidden_count(p: PieceState) -> int {
    (if p.cell(0).1 >= VISIBLE_HEIGHT { 1int } else { 0int }) + (if p.cell(1).1
        >= VISIBLE_HEIGHT { 1int } else { 0int }) + (if p.cell(2).1 >= VISIBLE_HEIGHT {
        1int
    } else {
        0int
    }) + (if p.cell(3).1 >= VISIBLE_HEIGHT { 1int } else { 0int })
}

pub open spec fn visibility_of(p: PieceState) -> LockVisibility {
    if hidden_count(p) == 0 {
        LockVisibility::Visible
    } else if hidden_count(p) == 4 {
        LockVisibility::FullyHidden
    } else {
        LockVisibility::PartiallyHidden
    }
}

pub open spec fn popcount_below(row: u16, k: nat) -> nat
    decreases k,
{
    if k == 0 {
        0
    } else {
        popcount_below(row, (k - 1) as nat) + if bit(row, k - 1) { 1nat } else { 0nat }
    }
}

pub open spec fn cell_total(r: Seq<u16>, n: nat) -> nat
    decreases n,
{
    if n == 0 {
        0
    } else {
        cell_total(r, (n - 1) as nat) + popcount_below(r[n - 1], 16)
    }
}

pub open spec fn fnv_step(h: u64, byte: u8) -> u64 {
    ((h ^ (byte as u64)) as u64).wrapping_mul(0x0000_0100_0000_01b3u64)
}

pub open spec fn fnv_word(h: u64, w: u16) -> u64 {
    fnv_step(fnv_step(h, (w & 0xffu16) as u8), (w >> 8u16) as u8)
}

/// FNV-1a over the little-endian bytes of each (row, garbage row) pair.
pub open spec fn fnv_board(r: Seq<u16>, g: Seq<u16>, n: nat) -> u64
    decreases n,
{
    if n == 0 {
        0xcbf2_9ce4_8422_2325u64
    } else {
        fnv_word(fnv_word(fnv_board(r, g, (n - 1) as nat), r[n - 1]), g[n - 1])
    }
}

pub open spec fn highest_nonempty(r: Seq<u16>, h: int) -> bool {
    &&& 0 <= h <= HEIGHT
    &&& (h == 0 || r[h - 1] != 0)
    &&& forall|y: int| h <= y < HEIGHT ==> #[trigger] r[y] == 0
}

// ---------------------------------------------------------------------------
// Lemmas about the model.
// ---------------------------------------------------------------------------

pub proof fn lemma_survivors_facts(r: Seq<u16>, n: nat)
    ensures
        survivors(r, n).len() <= n,
        full_rows(r, n).len() <= n,
        survivors(r, n).len() + full_rows(r, n).len() == n,
        forall|i: int| 0 <= i < survivors(r, n).len() ==> 0 <= #[trigger] survivors(r, n)[i] < n,
        forall|i: int| 0 <= i < full_rows(r, n).len() ==> 0 <= #[trigger] full_rows(r, n)[i] < n,
        forall|i: int|
            0 <= i < survivors(r, n).len() ==> r[#[trigger] survivors(r, n)[i]] != FULL_ROW,
        forall|i: int| 0 <= i < full_rows(r, n).len() ==> r[#[trigger] full_rows(r, n)[i]] == FULL_ROW,
    decreases n,
{
    if n > 0 {
        lemma_survivors_facts(r, (n - 1) as nat);
    }
}

pub proof fn lemma_full_rows_monotone(r: Seq<u16>, m: nat, n: nat)
    requires
        m <= n,
    ensures
        full_rows(r, m).len() <= full_rows(r, n).len(),
    decreases n,
{
    if m < n {
        lemma_full_rows_monotone(r, m, (n - 1) as nat);
    }
}

/// No row of the board is full.
pub open spec fn no_full_rows(r: Seq<u16>) -> bool {
    forall|y: int| 0 <= y < r.len() ==> #[trigger] r[y] != FULL_ROW
}

pub proof fn lemma_full_rows_increasing(r: Seq<u16>, n: nat)
    ensures
        forall|i: int, j: int|
            0 <= i < j < full_rows(r, n).len() ==> full_rows(r, n)[i] < full_rows(r, n)[j],
    decreases n,
{
    if n > 0 {
        lemma_full_rows_increasing(r, (n - 1) as nat);
        lemma_survivors_facts(r, (n - 1) as nat);
    }
}

/// On a board without full rows a lock completes only rows the piece touches,
/// so it clears at most four.
pub proof fn lemma_lock_clears_at_most_four(r: Seq<u16>, g: Seq<u16>, p: PieceState)
    requires
        rows_wf(r, g),
        no_full_rows(r),
        !hits(r, p),
    ensures
        full_rows(placed(r, p), HEIGHT as nat).len() <= 4,
{
    broadcast use vstd::set::group_set_axioms;
    let pl = placed(r, p);
    let fr = full_rows(pl, HEIGHT as nat);
    lemma_survivors_facts(pl, HEIGHT as nat);
    lemma_full_rows_increasing(pl, HEIGHT as nat);
    let ys = set![p.cell(0).1, p.cell(1).1, p.cell(2).1, p.cell(3).1];
    assert forall|x: int| fr.to_set().contains(x) implies ys.contains(x) by {
        let i = choose|i: int| 0 <= i < fr.len() && fr[i] == x;
        assert(pl[x] == FULL_ROW);
        if !ys.contains(x) {
            assert(pl[x] == r[x]);
        }
    }
    assert(fr.no_duplicates()) by {
        assert forall|i: int, j: int| 0 <= i < fr.len() && 0 <= j < fr.len() && i != j implies fr[i] != fr[j] by {
            if i < j {
                assert(fr[i] < fr[j]);
            } else {
                assert(fr[j] < fr[i]);
            }
        }
    }
    fr.unique_seq_to_set();
    vstd::set_lib::lemma_len_subset(fr.to_set(), ys);
}

/// After a lock with its clears compacted, no full row is left.
pub proof fn lemma_compact_has_no_full_rows(r: Seq<u16>)
    requires
        r.len() == HEIGHT,
    ensures
        no_full_rows(compact(r, survivors(r, HEIGHT as nat))),
{
    lemma_survivors_facts(r, HEIGHT as nat);
    let c = compact(r, survivors(r, HEIGHT as nat));
    assert forall|y: int| 0 <= y < c.len() implies #[trigger] c[y] != FULL_ROW by {
        if y < survivors(r, HEIGHT as nat).len() {
            assert(r[survivors(r, HEIGHT as nat)[y]] != FULL_ROW);
        }
    }
}

/// Setting a column bit of a well-formed row keeps the board well formed.
proof fn lemma_set_bit_wf(r: Seq<u16>, g: Seq<u16>, c: (int, int))
    requires
        rows_wf(r, g),
        in_bounds(c.0, c.1),
    ensures
        rows_wf(set_bit(r, c), g),
{
    let s = set_bit(r, c);
    assert forall|y: int| 0 <= y < HEIGHT implies #[trigger] s[y] < 1024 && (g[y] & !s[y]) == 0 by {
        if y == c.1 {
            lemma_subset_edits(g[y], r[y], c.0 as u16);
        }
    }
}

/// Setting a column bit changes exactly that cell.
proof fn lemma_set_bit_point(r: Seq<u16>, c: (int, int), x: int, y: int)
    requires
        r.len() == HEIGHT,
        in_bounds(c.0, c.1),
    ensures
        occupied_at(set_bit(r, c), x, y) == ((x == c.0 && y == c.1) || occupied_at(r, x, y)),
{
    if in_bounds(x, y) && y == c.1 {
        lemma_bit_set_clear(r[y], c.0 as u16, x as u16);
    }
}

pub proof fn lemma_placed_wf(r: Seq<u16>, g: Seq<u16>, p: PieceState)
    requires
        rows_wf(r, g),
        !hits(r, p),
    ensures
        rows_wf(placed(r, p), g),
        forall|x: int, y: int|
            occupied_at(placed(r, p), x, y) == (p.covers(x, y) || occupied_at(r, x, y)),
{
    let r1 = set_bit(r, p.cell(0));
    let r2 = set_bit(r1, p.cell(1));
    let r3 = set_bit(r2, p.cell(2));
    lemma_set_bit_wf(r, g, p.cell(0));
    lemma_set_bit_wf(r1, g, p.cell(1));
    lemma_set_bit_wf(r2, g, p.cell(2));
    lemma_set_bit_wf(r3, g, p.cell(3));
    assert forall|x: int, y: int|
        occupied_at(placed(r, p), x, y) == (p.covers(x, y) || occupied_at(r, x, y)) by {
        lemma_set_bit_point(r, p.cell(0), x, y);
        lemma_set_bit_point(r1, p.cell(1), x, y);
        lemma_set_bit_point(r2, p.cell(2), x, y);
        lemma_set_bit_point(r3, p.cell(3), x, y);
        if p.covers(x, y) {
            let i = choose|i: int| 0 <= i < 4 && p.cell(i) == (x, y);
            assert(i == 0 || i == 1 || i == 2 || i == 3);
        }
        if (x, y) == p.cell(0) {
            assert(p.covers(x, y)) by { assert(0 <= 0int < 4 && p.cell(0) == (x, y)); }
        }
        if (x, y) == p.cell(1) {
            assert(p.covers(x, y)) by { assert(0 <= 1int < 4 && p.cell(1) == (x, y)); }
        }
        if (x, y) == p.cell(2) {
            assert(p.covers(x, y)) by { assert(0 <= 2int < 4 && p.cell(2) == (x, y)); }
        }
        if (x, y) == p.cell(3) {
            assert(p.covers(x, y)) by { assert(0 <= 3int < 4 && p.cell(3) == (x, y)); }
        }
    }
}

/// A piece that fits on the board has its origin within a few cells of it.
pub proof fn lemma_fits_bounds(r: Seq<u16>, p: PieceState)
    requires
        !hits(r, p),
    ensures
        -3 <= p.x <= 9,
        -3 <= p.y <= 39,
        p.ok(),
        p.cells_fit(),
{
    lemma_local_cells_distinct_in_box(p.kind, p.orientation);
}

proof fn lemma_compact_wf(r: Seq<u16>, g: Seq<u16>)
    requires
        rows_wf(r, g),
    ensures
        rows_wf(compact(r, survivors(r, HEIGHT as nat)), compact(g, survivors(r, HEIGHT as nat))),
{
    lemma_survivors_facts(r, HEIGHT as nat);
    let k = survivors(r, HEIGHT as nat);
    let cr = compact(r, k);
    let cg = compact(g, k);
    assert forall|y: int| 0 <= y < HEIGHT implies #[trigger] cr[y] < 1024 && (cg[y] & !cr[y]) == 0 by {
        if y < k.len() {
            assert(0 <= k[y] < HEIGHT);
            assert(r[k[y]] < 1024);
            assert((g[k[y]] & !r[k[y]]) == 0);
        } else {
            assert((0u16 & !0u16) == 0u16) by (bit_vector);
        }
    }
}

// ---------------------------------------------------------------------------
// Executable types.
// ---------------------------------------------------------------------------

/// A row-oriented 10x40 bitboard. Row zero is the floor and positive y is up.
#[derive(Clone, Copy, Debug, PartialEq, Eq)]
pub struct Board {
    rows: [u16; HEIGHT],
    garbage_rows: [u16; HEIGHT],
}

impl View for Board {
    type V = (Seq<u16>, Seq<u16>);

    closed spec fn view(&self) -> (Seq<u16>, Seq<u16>) {
        (self.rows@, self.garbage_rows@)
    }
}

#[derive(Clone, Copy, Debug, PartialEq, Eq)]
pub struct ClearedLines {
    count: u8,
    rows: [u8; 4],
}

impl View for ClearedLines {
    type V = Seq<int>;

    closed spec fn view(&self) -> Seq<int> {
        Seq::new(self.count as nat, |i: int| self.rows@[i] as int)
    }
}

#[derive(Clone, Copy, Debug, PartialEq, Eq, Structural)]
pub enum LockVisibility {
    Visible,
    PartiallyHidden,
    FullyHidden,
}

#[derive(Clone, Copy, Debug, PartialEq, Eq)]
pub struct LockResult {
    pub cleared: ClearedLines,
    pub cleared_garbage: bool,
    pub perfect_clear: bool,
    pub visibility: LockVisibility,
}

#[derive(Clone, Copy, Debug, PartialEq, Eq, Structural)]
pub struct GarbagePushResult {
    pub overflowed_buffer: bool,
}

#[derive(Clone, Copy, Debug, PartialEq, Eq, Structural)]
pub enum BoardError {
    InvalidRow { y: usize, row: u16 },
    GarbageOutsideOccupancy { y: usize, garbage: u16, occupied: u16 },
    CellOutOfBounds { x: usize, y: usize },
    GarbageHoleOutOfBounds(usize),
    PieceCollision(PieceState),
}

impl ClearedLines {
    pub closed spec fn wf(&self) -> bool {
        &&& self.count <= 4
        &&& forall|i: int| self.count <= i < 4 ==> self.rows@[i] == 0
    }

    /// Two well-formed values with the same cleared rows are the same value:
    /// the slots past the count always hold zero.
    pub proof fn lemma_view_determines(a: Self, b: Self)
        requires
            a.wf(),
            b.wf(),
            a@ == b@,
        ensures
            a == b,
    {
        assert(a.count == b.count) by {
            assert(a@.len() == a.count as nat);
            assert(b@.len() == b.count as nat);
        }
        assert forall|i: int| 0 <= i < 4 implies a.rows@[i] == b.rows@[i] by {
            if i < a.count {
                assert(a@[i] == a.rows@[i] as int);
                assert(b@[i] == b.rows@[i] as int);
            }
        }
        assert(a.rows =~= b.rows);
    }

    pub fn new() -> (r: Self)
        ensures
            r@ == Seq::<int>::empty(),
            r.wf(),
    {
        let r = ClearedLines { count: 0, rows: [0u8; 4] };
        assert(r@ =~= Seq::<int>::empty());
        r
    }

    pub fn count(self) -> (r: u8)
        requires
            self.wf(),
        ensures
            r as int == self@.len(),
            r <= 4,
    {
        self.count
    }

    pub fn rows(&self) -> (r: Vec<u8>)
        requires
            self.wf(),
        ensures
            r@.len() == self@.len(),
            forall|i: int| 0 <= i < r@.len() ==> r@[i] as int == #[trigger] self@[i],
    {
        let mut out: Vec<u8> = Vec::new();
        let mut i: usize = 0;
        while i < self.count as usize
            invariant
                self.wf(),
                i <= self.count,
                out@.len() == i,
                forall|j: int| 0 <= j < i ==> out@[j] as int == #[trigger] self@[j],
            decreases self.count - i,
        {
            out.push(self.rows[i]);
            i += 1;
        }
        out
    }

    fn push(&mut self, row: u8)
        requires
            old(self).wf(),
            old(self)@.len() < 4,
        ensures
            final(self).wf(),
            final(self)@ == old(self)@.push(row as int),
    {
        self.rows[self.count as usize] = row;
        self.count += 1;
        assert(self@ =~= old(self)@.push(row as int));
    }
}

impl Default for Board {
    fn default() -> (r: Self)
        ensures
            r.wf(),
            r@.0 == Seq::new(HEIGHT as nat, |i: int| 0u16),
            r@.1 == Seq::new(HEIGHT as nat, |i: int| 0u16),
    {
        Board::empty()
    }
}

impl Board {
    pub open spec fn wf(&self) -> bool {
        rows_wf(self@.0, self@.1)
    }

    /// Occupancy of cell (x, y) in the model.
    pub open spec fn cell(&self, x: int, y: int) -> bool {
        occupied_at(self@.0, x, y)
    }

    pub open spec fn garbage_cell(&self, x: int, y: int) -> bool {
        in_bounds(x, y) && bit(self@.1[y], x)
    }

    pub open spec fn hits(&self, p: PieceState) -> bool {
        hits(self@.0, p)
    }

    /// Number of full rows present after the piece's cells are written.
    pub open spec fn clears_after(&self, p: PieceState) -> nat {
        full_rows(placed(self@.0, p), HEIGHT as nat).len()
    }

    pub fn empty() -> (r: Self)
        ensures
            r.wf(),
            r@.0 == Seq::new(HEIGHT as nat, |i: int| 0u16),
            r@.1 == Seq::new(HEIGHT as nat, |i: int| 0u16),
    {
        let r = Board { rows: [0u16; HEIGHT], garbage_rows: [0u16; HEIGHT] };
        assert(r@.0 =~= Seq::new(HEIGHT as nat, |i: int| 0u16));
        assert(r@.1 =~= Seq::new(HEIGHT as nat, |i: int| 0u16));
        proof {
            assert((0u16 & !0u16) == 0u16) by (bit_vector);
        }
        r
    }

    pub fn from_rows(rows: [u16; HEIGHT]) -> (r: Result<Self, BoardError>)
        ensures
            match r {
                Ok(b) => b.wf() && b@.0 == rows@ && b@.1 == Seq::new(HEIGHT as nat, |i: int| 0u16),
                Err(e) => exists|y: int|
                    0 <= y < HEIGHT && rows@[y] >= 1024 && (forall|z: int| 0 <= z < y ==> rows@[z] < 1024)
                        && e == (BoardError::InvalidRow { y: y as usize, row: rows@[y] }),
            },
            r is Ok <==> (forall|y: int| 0 <= y < HEIGHT ==> rows@[y] < 1024),
    {
        let r = Self::from_layers(rows, [0u16; HEIGHT]);
        proof {
            assert forall|y: int| 0 <= y < HEIGHT implies (#[trigger] [0u16; HEIGHT]@[y] & !rows@[y]) == 0 by {
                let v = rows@[y];
                assert((0u16 & !v) == 0u16) by (bit_vector);
            }
            if r is Ok {
                assert(r->Ok_0@.1 =~= Seq::new(HEIGHT as nat, |i: int| 0u16));
            }
        }
        r
    }

    pub fn from_layers(rows: [u16; HEIGHT], garbage_rows: [u16; HEIGHT]) -> (r: Result<Self, BoardError>)
        ensures
            match r {
                Ok(b) => b.wf() && b@.0 == rows@ && b@.1 == garbage_rows@,
                Err(BoardError::InvalidRow { y, row }) => y < HEIGHT && row == rows@[y as int]
                    && row >= 1024 && (forall|z: int| 0 <= z < y ==> rows@[z] < 1024),
                Err(BoardError::GarbageOutsideOccupancy { y, garbage, occupied }) => y < HEIGHT
                    && garbage == garbage_rows@[y as int] && occupied == rows@[y as int]
                    && (garbage & !occupied) != 0
                    && (forall|z: int| 0 <= z < HEIGHT ==> rows@[z] < 1024)
                    && (forall|z: int| 0 <= z < y ==> (garbage_rows@[z] & !rows@[z]) == 0),
                Err(_) => false,
            },
            r is Ok <==> rows_wf(rows@, garbage_rows@),
    {
        let mut y: usize = 0;
        while y < HEIGHT
            invariant
                y <= HEIGHT,
                forall|z: int| 0 <= z < y ==> rows@[z] < 1024,
            decreases HEIGHT - y,
        {
            let row = rows[y];
            proof {
                lemma_row_width(row, 0);
            }
            if row & !FULL_ROW != 0 {
                return Err(BoardError::InvalidRow { y, row });
            }
            y += 1;
        }
        let mut y: usize = 0;
        while y < HEIGHT
            invariant
                y <= HEIGHT,
                forall|z: int| 0 <= z < HEIGHT ==> rows@[z] < 1024,
                forall|z: int| 0 <= z < y ==> (garbage_rows@[z] & !rows@[z]) == 0,
            decreases HEIGHT - y,
        {
            let garbage = garbage_rows[y];
            let occupied = rows[y];
            if garbage & !occupied != 0 {
                return Err(BoardError::GarbageOutsideOccupancy { y, garbage, occupied });
            }
            y += 1;
        }
        Ok(Board { rows, garbage_rows })
    }

    pub fn rows(&self) -> (r: &[u16; HEIGHT])
        ensures
            r@ == self@.0,
    {
        &self.rows
    }

    pub fn garbage_rows(&self) -> (r: &[u16; HEIGHT])
        ensures
            r@ == self@.1,
    {
        &self.garbage_rows
    }

    pub fn is_empty(&self) -> (r: bool)
        requires
            self.wf(),
        ensures
            r == all_empty(self@.0),
    {
        let mut y: usize = 0;
        while y < HEIGHT
            invariant
                self.wf(),
                y <= HEIGHT,
                forall|z: int| 0 <= z < y ==> self@.0[z] == 0,
            decreases HEIGHT - y,
        {
            if self.rows[y] != 0 {
                return false;
            }
            y += 1;
        }
        true
    }

    pub fn row(&self, y: usize) -> (r: Option<u16>)
        requires
            self.wf(),
        ensures
            r == (if y < HEIGHT { Some(self@.0[y as int]) } else { None::<u16> }),
    {
        if y < HEIGHT {
            Some(self.rows[y])
        } else {
            None
        }
    }

    pub fn is_occupied(&self, x: usize, y: usize) -> (r: Option<bool>)
        requires
            self.wf(),
        ensures
            r == (if y < HEIGHT && x < WIDTH { Some(self.cell(x as int, y as int)) } else { None::<bool> }),
    {
        if y < HEIGHT && x < WIDTH {
            proof {
                lemma_bit_set_clear(self@.0[y as int], x as u16, x as u16);
            }
            Some(self.rows[y] & (1u16 << x as u16) != 0)
        } else {
            None
        }
    }

    pub fn is_garbage(&self, x: usize, y: usize) -> (r: Option<bool>)
        requires
            self.wf(),
        ensures
            r == (if y < HEIGHT && x < WIDTH { Some(self.garbage_cell(x as int, y as int)) } else { None::<bool> }),
    {
        if y < HEIGHT && x < WIDTH {
            proof {
                lemma_bit_set_clear(self@.1[y as int], x as u16, x as u16);
            }
            Some(self.garbage_rows[y] & (1u16 << x as u16) != 0)
        } else {
            None
        }
    }

    pub fn set_cell(&mut self, x: usize, y: usize, occupied: bool) -> (r: Result<(), BoardError>)
        requires
            old(self).wf(),
        ensures
            final(self).wf(),
            x >= WIDTH || y >= HEIGHT ==> r == Err::<(), BoardError>(BoardError::CellOutOfBounds { x, y })
                && *final(self) == *old(self),
            x < WIDTH && y < HEIGHT ==> r is Ok
                && (forall|cx: int, cy: int| #[trigger] final(self).cell(cx, cy) == (if cx == x && cy == y {
                    occupied
                } else {
                    old(self).cell(cx, cy)
                }))
                && (forall|cx: int, cy: int| #[trigger] final(self).garbage_cell(cx, cy) == (if cx == x && cy == y
                    && !occupied {
                    false
                } else {
                    old(self).garbage_cell(cx, cy)
                })),
    {
        if x >= WIDTH || y >= HEIGHT {
            return Err(BoardError::CellOutOfBounds { x, y });
        }
        let ghost r0 = self@.0;
        let ghost g0 = self@.1;
        let mask = 1u16 << x as u16;
        if occupied {
            self.rows[y] = self.rows[y] | mask;
        } else {
            self.rows[y] = self.rows[y] & !mask;
            self.garbage_rows[y] = self.garbage_rows[y] & !mask;
        }
        proof {
            lemma_subset_edits(g0[y as int], r0[y as int], x as u16);
            assert(self@.0 == r0.update(y as int, self@.0[y as int]));
            assert(self@.1 == g0.update(y as int, self@.1[y as int]));
            assert forall|cx: int, cy: int| #[trigger] self.cell(cx, cy) == (if cx == x && cy == y {
                occupied
            } else {
                occupied_at(r0, cx, cy)
            }) by {
                if in_bounds(cx, cy) && cy == y {
                    lemma_bit_set_clear(r0[cy], x as u16, cx as u16);
                }
            }
            assert forall|cx: int, cy: int| #[trigger] self.garbage_cell(cx, cy) == (if cx == x && cy == y
                && !occupied {
                false
            } else {
                in_bounds(cx, cy) && bit(g0[cy], cx)
            }) by {
                if in_bounds(cx, cy) && cy == y {
                    lemma_bit_set_clear(g0[cy], x as u16, cx as u16);
                    if occupied && cx == x {
                        lemma_subset_edits(g0[cy], r0[cy], x as u16);
                    }
                }
            }
        }
        Ok(())
    }

    pub fn set_garbage_cell(&mut self, x: usize, y: usize, garbage: bool) -> (r: Result<(), BoardError>)
        requires
            old(self).wf(),
        ensures
            final(self).wf(),
            x >= WIDTH || y >= HEIGHT ==> r == Err::<(), BoardError>(BoardError::CellOutOfBounds { x, y })
                && *final(self) == *old(self),
            x < WIDTH && y < HEIGHT ==> r is Ok
                && (forall|cx: int, cy: int| #[trigger] final(self).cell(cx, cy) == (if cx == x && cy == y
                    && garbage {
                    true
                } else {
                    old(self).cell(cx, cy)
                }))
                && (forall|cx: int, cy: int| #[trigger] final(self).garbage_cell(cx, cy) == (if cx == x && cy == y {
                    garbage
                } else {
                    old(self).garbage_cell(cx, cy)
                })),
    {
        if x >= WIDTH || y >= HEIGHT {
            return Err(BoardError::CellOutOfBounds { x, y });
        }
        let ghost r0 = self@.0;
        let ghost g0 = self@.1;
        let mask = 1u16 << x as u16;
        if garbage {
            self.rows[y] = self.rows[y] | mask;
            self.garbage_rows[y] = self.garbage_rows[y] | mask;
        } else {
            self.garbage_rows[y] = self.garbage_rows[y] & !mask;
        }
        proof {
            lemma_subset_edits(g0[y as int], r0[y as int], x as u16);
            assert(self@.0 == r0.update(y as int, self@.0[y as int]));
            assert(self@.1 == g0.update(y as int, self@.1[y as int]));
            assert forall|cx: int, cy: int| #[trigger] self.cell(cx, cy) == (if cx == x && cy == y && garbage {
                true
            } else {
                occupied_at(r0, cx, cy)
            }) by {
                if in_bounds(cx, cy) && cy == y {
                    lemma_bit_set_clear(r0[cy], x as u16, cx as u16);
                }
            }
            assert forall|cx: int, cy: int| #[trigger] self.garbage_cell(cx, cy) == (if cx == x && cy == y {
                garbage
            } else {
                in_bounds(cx, cy) && bit(g0[cy], cx)
            }) by {
                if in_bounds(cx, cy) && cy == y {
                    lemma_bit_set_clear(g0[cy], x as u16, cx as u16);
                }
            }
        }
        Ok(())
    }

    /// Pushes one garbage row from the floor, shifting every existing row up.
    /// The result reports only loss beyond the 40-row storage buffer.
    pub fn push_garbage_line(&mut self, hole_column: usize) -> (r: Result<GarbagePushResult, BoardError>)
        requires
            old(self).wf(),
        ensures
            final(self).wf(),
            hole_column >= WIDTH ==> r == Err::<GarbagePushResult, BoardError>(
                BoardError::GarbageHoleOutOfBounds(hole_column),
            ) && *final(self) == *old(self),
            hole_column < WIDTH ==> r == Ok::<GarbagePushResult, BoardError>(
                GarbagePushResult { overflowed_buffer: old(self)@.0[HEIGHT - 1] != 0 },
            ) && final(self)@.0 == seq![garbage_row(hole_column)] + old(self)@.0.take(HEIGHT - 1)
                && final(self)@.1 == seq![garbage_row(hole_column)] + old(self)@.1.take(HEIGHT - 1),
    {
        if hole_column >= WIDTH {
            return Err(BoardError::GarbageHoleOutOfBounds(hole_column));
        }
        let ghost r0 = self@.0;
        let ghost g0 = self@.1;
        let overflowed_buffer = self.rows[HEIGHT - 1] != 0;
        let mut i: usize = HEIGHT - 1;
        while i > 0
            invariant
                0 <= i < HEIGHT,
                forall|z: int| 0 <= z <= i ==> self@.0[z] == r0[z] && self@.1[z] == g0[z],
                forall|z: int| i < z < HEIGHT ==> self@.0[z] == r0[z - 1] && self@.1[z] == g0[z - 1],
                self@.0.len() == HEIGHT,
                self@.1.len() == HEIGHT,
            decreases i,
        {
            self.rows[i] = self.rows[i - 1];
            self.garbage_rows[i] = self.garbage_rows[i - 1];
            i -= 1;
        }
        let garbage = FULL_ROW & !(1u16 << hole_column as u16);
        self.rows[0] = garbage;
        self.garbage_rows[0] = garbage;
        proof {
            lemma_garbage_row(hole_column as u16, 0);
            assert(garbage == garbage_row(hole_column));
            assert(self@.0 =~= seq![garbage_row(hole_column)] + r0.take(HEIGHT - 1));
            assert(self@.1 =~= seq![garbage_row(hole_column)] + g0.take(HEIGHT - 1));
            assert((garbage & !garbage) == 0u16) by (bit_vector);
        }
        Ok(GarbagePushResult { overflowed_buffer })
    }

    pub fn collides(&self, piece: PieceState) -> (r: bool)
        requires
            self.wf(),
            piece.cells_fit(),
        ensures
            r == self.hits(piece),
    {
        let cells = piece.cells();
        let mut i: usize = 0;
        while i < 4
            invariant
                self.wf(),
                piece.cells_fit(),
                i <= 4,
                forall|j: int| 0 <= j < 4 ==> (#[trigger] cells@[j]).0 == piece.cell(j).0 && cells@[j].1
                    == piece.cell(j).1,
                forall|j: int| 0 <= j < i ==> !blocked(self@.0, #[trigger] piece.cell(j)),
            decreases 4 - i,
        {
            let (x, y) = cells[i];
            if x < 0 || x >= WIDTH as i16 || y < 0 || y >= HEIGHT as i16 {
                assert(blocked(self@.0, piece.cell(i as int)));
                return true;
            }
            proof {
                lemma_bit_set_clear(self@.0[y as int], x as u16, x as u16);
            }
            if self.rows[y as usize] & (1u16 << x as u16) != 0 {
                assert(blocked(self@.0, piece.cell(i as int)));
                return true;
            }
            i += 1;
        }
        assert(!blocked(self@.0, piece.cell(0)));
        assert(!blocked(self@.0, piece.cell(1)));
        assert(!blocked(self@.0, piece.cell(2)));
        assert(!blocked(self@.0, piece.cell(3)));
        false
    }

    /// Writes the piece, clears full rows and reports the lock facts.
    pub fn lock(&mut self, piece: PieceState) -> (r: Result<LockResult, BoardError>)
        requires
            old(self).wf(),
            piece.cells_fit(),
            old(self).hits(piece) || old(self).clears_after(piece) <= 4,
        ensures
            final(self).wf(),
            old(self).hits(piece) ==> r == Err::<LockResult, BoardError>(BoardError::PieceCollision(piece))
                && *final(self) == *old(self),
            !old(self).hits(piece) ==> r is Ok && lock_post(old(self)@, piece, final(self)@, r->Ok_0),
    {
        if self.collides(piece) {
            return Err(BoardError::PieceCollision(piece));
        }
        let ghost r0 = self@.0;
        let ghost g0 = self@.1;
        let cells = piece.cells();
        let mut hidden: usize = 0;
        let mut rows = self.rows;
        let mut garbage_rows = self.garbage_rows;
        let mut i: usize = 0;
        while i < 4
            invariant
                rows_wf(r0, g0),
                !hits(r0, piece),
                i <= 4,
                hidden <= i,
                forall|j: int| 0 <= j < 4 ==> (#[trigger] cells@[j]).0 == piece.cell(j).0 && cells@[j].1
                    == piece.cell(j).1,
                rows@ == placed_prefix(r0, piece, i as int),
                garbage_rows@ == g0,
                hidden == hidden_prefix(piece, i as int),
            decreases 4 - i,
        {
            let (x, y) = cells[i];
            if y >= VISIBLE_HEIGHT as i16 {
                hidden += 1;
            }
            assert(!blocked(r0, piece.cell(i as int)));
            rows[y as usize] = rows[y as usize] | (1u16 << x as u16);
            i += 1;
        }
        let visibility = if hidden == 0 {
            LockVisibility::Visible
        } else if hidden == 4 {
            LockVisibility::FullyHidden
        } else {
            LockVisibility::PartiallyHidden
        };
        proof {
            lemma_placed_wf(r0, g0, piece);
            lemma_full_rows_monotone(placed(r0, piece), 0, HEIGHT as nat);
        }
        let (cleared, cleared_garbage) = clear_full_lines(&mut rows, &mut garbage_rows);
        *self = Board { rows, garbage_rows };
        proof {
            lemma_compact_wf(placed(r0, piece), g0);
        }
        let perfect_clear = self.is_empty();
        Ok(LockResult { cleared, cleared_garbage, perfect_clear, visibility })
    }

    pub fn stack_height(&self) -> (r: usize)
        requires
            self.wf(),
        ensures
            highest_nonempty(self@.0, r as int),
    {
        let mut h: usize = HEIGHT;
        while h > 0
            invariant
                self.wf(),
                h <= HEIGHT,
                forall|y: int| h <= y < HEIGHT ==> #[trigger] self@.0[y] == 0,
            decreases h,
        {
            if self.rows[h - 1] != 0 {
                return h;
            }
            h -= 1;
        }
        0
    }

    /// Whether the 40-row buffer's ceiling row is completely filled.
    pub fn buffer_ceiling_full(&self) -> (r: bool)
        requires
            self.wf(),
        ensures
            r == (self@.0[HEIGHT - 1] == FULL_ROW),
    {
        self.rows[HEIGHT - 1] == FULL_ROW
    }

    pub fn occupied_cells(&self) -> (r: u32)
        requires
            self.wf(),
        ensures
            r == cell_total(self@.0, HEIGHT as nat),
    {
        let mut total: u32 = 0;
        let mut y: usize = 0;
        while y < HEIGHT
            invariant
                self.wf(),
                y <= HEIGHT,
                total == cell_total(self@.0, y as nat),
                total <= 16 * y,
            decreases HEIGHT - y,
        {
            let c = count_bits(self.rows[y]);
            total = total + c;
            y += 1;
        }
        total
    }

    /// Stable FNV-1a checksum for replay checkpoints. Not a cryptographic hash.
    pub fn checksum(&self) -> (r: u64)
        requires
            self.wf(),
        ensures
            r == fnv_board(self@.0, self@.1, HEIGHT as nat),
    {
        let mut hash: u64 = 0xcbf2_9ce4_8422_2325u64;
        let mut y: usize = 0;
        while y < HEIGHT
            invariant
                self.wf(),
                y <= HEIGHT,
                hash == fnv_board(self@.0, self@.1, y as nat),
            decreases HEIGHT - y,
        {
            hash = fnv_word_exec(hash, self.rows[y]);
            hash = fnv_word_exec(hash, self.garbage_rows[y]);
            y += 1;
        }
        hash
    }
}

pub open spec fn garbage_row(hole: usize) -> u16 {
    FULL_ROW & !(1u16 << hole as u16)
}

pub open spec fn placed_prefix(r: Seq<u16>, p: PieceState, i: int) -> Seq<u16> {
    if i <= 0 {
        r
    } else if i == 1 {
        set_bit(r, p.cell(0))
    } else if i == 2 {
        set_bit(set_bit(r, p.cell(0)), p.cell(1))
    } else if i == 3 {
        set_bit(set_bit(set_bit(r, p.cell(0)), p.cell(1)), p.cell(2))
    } else {
        placed(r, p)
    }
}

pub open spec fn hidden_prefix(p: PieceState, i: int) -> int {
    (if i > 0 && p.cell(0).1 >= VISIBLE_HEIGHT { 1int } else { 0int }) + (if i > 1 && p.cell(1).1
        >= VISIBLE_HEIGHT { 1int } else { 0int }) + (if i > 2 && p.cell(2).1 >= VISIBLE_HEIGHT {
        1int
    } else {
        0int
    }) + (if i > 3 && p.cell(3).1 >= VISIBLE_HEIGHT { 1int } else { 0int })
}

/// Board and lock facts after locking `p` onto a board with view `before`.
pub open spec fn lock_post(
    before: (Seq<u16>, Seq<u16>),
    p: PieceState,
    after: (Seq<u16>, Seq<u16>),
    res: LockResult,
) -> bool {
    let pl = placed(before.0, p);
    let keep = survivors(pl, HEIGHT as nat);
    let full = full_rows(pl, HEIGHT as nat);
    &&& after.0 == compact(pl, keep)
    &&& after.1 == compact(before.1, keep)
    &&& res.cleared@ == full
    &&& res.cleared.wf()
    &&& res.cleared_garbage == any_garbage(before.1, full)
    &&& res.perfect_clear == all_empty(after.0)
    &&& res.visibility == visibility_of(p)
}

fn fnv_word_exec(h: u64, w: u16) -> (r: u64)
    ensures
        r == fnv_word(h, w),
{
    let lo = (w & 0xffu16) as u8;
    let hi = (w >> 8u16) as u8;
    let h1 = (h ^ (lo as u64)).wrapping_mul(0x0000_0100_0000_01b3u64);
    (h1 ^ (hi as u64)).wrapping_mul(0x0000_0100_0000_01b3u64)
}

fn count_bits(row: u16) -> (r: u32)
    ensures
        r == popcount_below(row, 16),
        r <= 16,
{
    let mut c: u32 = 0;
    let mut k: u16 = 0;
    while k < 16
        invariant
            k <= 16,
            c == popcount_below(row, k as nat),
            c <= k,
        decreases 16 - k,
    {
        if (row >> k) & 1u16 == 1u16 {
            c += 1;
        }
        k += 1;
    }
    c
}

/// Removes full rows, moving the rest down in order; reports which rows were
/// removed and whether any of them carried garbage.
fn clear_full_lines(rows: &mut [u16; HEIGHT], garbage: &mut [u16; HEIGHT]) -> (r: (ClearedLines, bool))
    requires
        full_rows(old(rows)@, HEIGHT as nat).len() <= 4,
    ensures
        final(rows)@ == compact(old(rows)@, survivors(old(rows)@, HEIGHT as nat)),
        final(garbage)@ == compact(old(garbage)@, survivors(old(rows)@, HEIGHT as nat)),
        r.0@ == full_rows(old(rows)@, HEIGHT as nat),
        r.0.wf(),
        r.1 == any_garbage(old(garbage)@, full_rows(old(rows)@, HEIGHT as nat)),
{
    let ghost r0 = rows@;
    let ghost g0 = garbage@;
    let mut cleared = ClearedLines::new();
    let mut cleared_garbage = false;
    let mut write_y: usize = 0;
    let mut read_y: usize = 0;
    while read_y < HEIGHT
        invariant
            read_y <= HEIGHT,
            full_rows(r0, HEIGHT as nat).len() <= 4,
            r0.len() == HEIGHT,
            g0.len() == HEIGHT,
            rows@.len() == HEIGHT,
            garbage@.len() == HEIGHT,
            write_y == survivors(r0, read_y as nat).len(),
            write_y <= read_y,
            forall|i: int| 0 <= i < write_y ==> rows@[i] == r0[survivors(r0, read_y as nat)[i]],
            forall|i: int| 0 <= i < write_y ==> garbage@[i] == g0[survivors(r0, read_y as nat)[i]],
            forall|i: int| read_y <= i < HEIGHT ==> rows@[i] == r0[i] && garbage@[i] == g0[i],
            cleared.wf(),
            cleared@ == full_rows(r0, read_y as nat),
            cleared_garbage == any_garbage(g0, full_rows(r0, read_y as nat)),
        decreases HEIGHT - read_y,
    {
        proof {
            lemma_survivors_facts(r0, read_y as nat);
            lemma_survivors_facts(r0, (read_y + 1) as nat);
            lemma_full_rows_monotone(r0, (read_y + 1) as nat, HEIGHT as nat);
        }
        let row = rows[read_y];
        if row == FULL_ROW {
            cleared.push(read_y as u8);
            proof {
                let f0 = full_rows(r0, read_y as nat);
                let f1 = full_rows(r0, (read_y + 1) as nat);
                assert(f1 == f0.push(read_y as int));
                if garbage@[read_y as int] != 0 {
                    assert(g0[f1[f0.len() as int]] != 0);
                }
                if any_garbage(g0, f0) {
                    let j = choose|j: int| 0 <= j < f0.len() && g0[f0[j]] != 0;
                    assert(f1[j] == f0[j]);
                }
                if any_garbage(g0, f1) {
                    let j = choose|j: int| 0 <= j < f1.len() && g0[f1[j]] != 0;
                    if j < f0.len() {
                        assert(f1[j] == f0[j]);
                    }
                }
            }
            cleared_garbage = cleared_garbage || garbage[read_y] != 0;
        } else {
            rows[write_y] = rows[read_y];
            garbage[write_y] = garbage[read_y];
            write_y += 1;
        }
        read_y += 1;
    }
    let ghost keep = survivors(r0, HEIGHT as nat);
    let mut i: usize = write_y;
    while i < HEIGHT
        invariant
            write_y <= i <= HEIGHT,
            write_y == keep.len(),
            rows@.len() == HEIGHT,
            garbage@.len() == HEIGHT,
            forall|k: int| 0 <= k < write_y ==> rows@[k] == r0[keep[k]],
            forall|k: int| 0 <= k < write_y ==> garbage@[k] == g0[keep[k]],
            forall|k: int| write_y <= k < i ==> rows@[k] == 0 && garbage@[k] == 0,
        decreases HEIGHT - i,
    {
        rows[i] = 0;
        garbage[i] = 0;
        i += 1;
    }
    assert(rows@ =~= compact(r0, keep));
    assert(garbage@ =~= compact(g0, keep));
    (cleared, cleared_garbage)
}

/// A row word as `0x` and four lowercase hexadecimal digits.
pub open spec fn row_word_text(v: u16) -> Seq<char> {
    "0x"@ + hex_words(seq![v])
}

fn append_row_word(s: &mut String, v: u16)
    ensures
        final(s)@ == old(s)@ + row_word_text(v),
{
    s.append("0x");
    let words: [u16; 1] = [v];
    let digits = hex_word_text(words.as_slice());
    proof {
        assert(words@ =~= seq![v]);
    }
    s.append(digits.as_str());
}

impl BoardError {
    /// The message as text.
    pub open spec fn text(&self) -> Seq<char> {
        match self {
            BoardError::InvalidRow { y, row } => "row "@ + decimal(*y as nat) + " has out-of-width bits: "@
                + row_word_text(*row),
            BoardError::GarbageOutsideOccupancy { y, garbage, occupied } => "garbage row "@ + decimal(*y as nat) + " ("@
                + row_word_text(*garbage) + ") is not a subset of occupancy ("@ + row_word_text(*occupied) + ")"@,
            BoardError::CellOutOfBounds { x, y } => "cell ("@ + decimal(*x as nat) + ", "@ + decimal(*y as nat)
                + ") is outside the board"@,
            BoardError::GarbageHoleOutOfBounds(c) => "garbage hole column "@ + decimal(*c as nat)
                + " is outside the board"@,
            BoardError::PieceCollision(p) => "piece collides at "@ + piece_state_text(*p),
        }
    }

    /// Human-readable description of the error.
    pub fn message(&self) -> (r: String)
        ensures
            r@ == self.text(),
    {
        match self {
            BoardError::InvalidRow { y, row } => {
                let mut s = String::from_str("row ");
                append_decimal(&mut s, *y as u64);
                s.append(" has out-of-width bits: ");
                append_row_word(&mut s, *row);
                s
            },
            BoardError::GarbageOutsideOccupancy { y, garbage, occupied } => {
                let mut s = String::from_str("garbage row ");
                append_decimal(&mut s, *y as u64);
                s.append(" (");
                append_row_word(&mut s, *garbage);
                s.append(") is not a subset of occupancy (");
                append_row_word(&mut s, *occupied);
                s.append(")");
                s
            },
            BoardError::CellOutOfBounds { x, y } => {
                let mut s = String::from_str("cell (");
                append_decimal(&mut s, *x as u64);
                s.append(", ");
                append_decimal(&mut s, *y as u64);
                s.append(") is outside the board");
                s
            },
            BoardError::GarbageHoleOutOfBounds(c) => {
                let mut s = String::from_str("garbage hole column ");
                append_decimal(&mut s, *c as u64);
                s.append(" is outside the board");
                s
            },
            BoardError::PieceCollision(p) => {
                let mut s = String::from_str("piece collides at ");
                append_piece_state(&mut s, *p);
                s
            },
        }
    }
}

} // verus!
