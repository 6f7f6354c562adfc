//! Integer afterstate features of a locked board, stated as cell scans.
use vstd::prelude::*;
use crate::board::{Board, ClearedLines, HEIGHT, WIDTH, in_bounds, occupied_at};
use crate::piece::PieceState;

verus! {

pub const FEATURE_COUNT: usize = 10;

pub const FEATURE_NAMES: [&'static str; FEATURE_COUNT] = [
    "landing_height_x2",
    "eroded_piece_cells",
    "row_transitions",
    "column_transitions",
    "buried_holes",
    "cumulative_wells",
    "aggregate_height",
    "bumpiness",
    "max_height",
    "lines_cleared",
];

/// Filled for transition and well scans: occupied, or beyond the board edge.
pub open spec fn solid(r: Seq<u16>, x: int, y: int) -> bool {
    !in_bounds(x, y) || occupied_at(r, x, y)
}

/// Changes between horizontally adjacent cells of row `y` among the first `n`
/// boundaries, counting the walls on both sides as filled.
pub open spec fn row_changes(r: Seq<u16>, y: int, n: nat) -> nat
    decreases n,
{
    if n == 0 {
        0
    } else {
        row_changes(r, y, (n - 1) as nat) + if solid(r, n - 2, y) != solid(r, n - 1, y) {
            1nat
        } else {
            0nat
        }
    }
}

pub open spec fn rows_changes(r: Seq<u16>, n: nat) -> nat
    decreases n,
{
    if n == 0 {
        0
    } else {
        rows_changes(r, (n - 1) as nat) + row_changes(r, n - 1, (WIDTH + 1) as nat)
    }
}

/// Changes between vertically adjacent cells of column `x` among the first
/// `n` boundaries, counting floor and ceiling as filled.
pub open spec fn column_changes(r: Seq<u16>, x: int, n: nat) -> nat
    decreases n,
{
    if n == 0 {
        0
    } else {
        column_changes(r, x, (n - 1) as nat) + if solid(r, x, n - 2) != solid(r, x, n - 1) {
            1nat
        } else {
            0nat
        }
    }
}

pub open spec fn columns_changes(r: Seq<u16>, n: nat) -> nat
    decreases n,
{
    if n == 0 {
        0
    } else {
        columns_changes(r, (n - 1) as nat) + column_changes(r, n - 1, (HEIGHT + 1) as nat)
    }
}

/// One more than the highest occupied row of column `x` below `n`, or zero.
pub open spec fn height_below(r: Seq<u16>, x: int, n: nat) -> nat
    decreases n,
{
    if n == 0 {
        0
    } else if occupied_at(r, x, n - 1) {
        n
    } else {
        height_below(r, x, (n - 1) as nat)
    }
}

pub open spec fn column_height(r: Seq<u16>, x: int) -> nat {
    height_below(r, x, HEIGHT as nat)
}

/// Empty cells of column `x` below row `n`.
pub open spec fn empty_below(r: Seq<u16>, x: int, n: nat) -> nat
    decreases n,
{
    if n == 0 {
        0
    } else {
        empty_below(r, x, (n - 1) as nat) + if occupied_at(r, x, n - 1) {
            0nat
        } else {
            1nat
        }
    }
}

/// Empty cells of a column below its highest occupied cell.
pub open spec fn column_holes(r: Seq<u16>, x: int) -> nat {
    empty_below(r, x, column_height(r, x))
}

pub open spec fn holes_total(r: Seq<u16>, n: nat) -> nat
    decreases n,
{
    if n == 0 {
        0
    } else {
        holes_total(r, (n - 1) as nat) + column_holes(r, n - 1)
    }
}

pub open spec fn heights_total(r: Seq<u16>, n: nat) -> nat
    decreases n,
{
    if n == 0 {
        0
    } else {
        heights_total(r, (n - 1) as nat) + column_height(r, n - 1)
    }
}

pub open spec fn heights_max(r: Seq<u16>, n: nat) -> nat
    decreases n,
{
    if n == 0 {
        0
    } else {
        let m = heights_max(r, (n - 1) as nat);
        let h = column_height(r, n - 1);
        if h > m {
            h
        } else {
            m
        }
    }
}

pub open spec fn abs_diff(a: int, b: int) -> nat {
    if a >= b {
        (a - b) as nat
    } else {
        (b - a) as nat
    }
}

/// Sum of height differences between neighbouring columns among the first `n`.
pub open spec fn bumpiness_below(r: Seq<u16>, n: nat) -> nat
    decreases n,
{
    if n <= 1 {
        0
    } else {
        bumpiness_below(r, (n - 1) as nat) + abs_diff(
            column_height(r, n - 2) as int,
            column_height(r, n - 1) as int,
        )
    }
}

/// An empty cell whose left and right neighbours are filled.
pub open spec fn well_cell(r: Seq<u16>, x: int, y: int) -> bool {
    !occupied_at(r, x, y) && solid(r, x - 1, y) && solid(r, x + 1, y)
}

/// Depth of the well run of column `x` ending just below row `n`.
pub open spec fn well_depth(r: Seq<u16>, x: int, n: nat) -> nat
    decreases n,
{
    if n == 0 {
        0
    } else if well_cell(r, x, n - 1) {
        well_depth(r, x, (n - 1) as nat) + 1
    } else {
        0
    }
}

/// Each well cell adds its depth within its run.
pub open spec fn column_wells(r: Seq<u16>, x: int, n: nat) -> nat
    decreases n,
{
    if n == 0 {
        0
    } else {
        column_wells(r, x, (n - 1) as nat) + well_depth(r, x, n)
    }
}

pub open spec fn wells_total(r: Seq<u16>, n: nat) -> nat
    decreases n,
{
    if n == 0 {
        0
    } else {
        wells_total(r, (n - 1) as nat) + column_wells(r, n - 1, HEIGHT as nat)
    }
}

pub open spec fn min4(a: int, b: int, c: int, d: int) -> int {
    let ab = if a <= b { a } else { b };
    let cd = if c <= d { c } else { d };
    if ab <= cd { ab } else { cd }
}

pub open spec fn max4(a: int, b: int, c: int, d: int) -> int {
    let ab = if a >= b { a } else { b };
    let cd = if c >= d { c } else { d };
    if ab >= cd { ab } else { cd }
}

/// Lowest plus highest row of the piece's cells, plus two: twice the landing
/// height measured at cell centres.
pub open spec fn landing_x2(p: PieceState) -> int {
    min4(p.cell(0).1, p.cell(1).1, p.cell(2).1, p.cell(3).1) + max4(
        p.cell(0).1,
        p.cell(1).1,
        p.cell(2).1,
        p.cell(3).1,
    ) + 2
}

/// Whether cell `i` of the piece lies on a cleared row (rows fit in a byte).
pub open spec fn cell_cleared(p: PieceState, cleared: Seq<int>, i: int) -> bool {
    0 <= p.cell(i).1 <= 255 && cleared.contains(p.cell(i).1)
}

pub open spec fn cleared_cells_below(p: PieceState, cleared: Seq<int>, n: nat) -> nat
    decreases n,
{
    if n == 0 {
        0
    } else {
        cleared_cells_below(p, cleared, (n - 1) as nat) + if cell_cleared(p, cleared, n - 1) {
            1nat
        } else {
            0nat
        }
    }
}

/// Cleared lines times the piece cells that lay on them.
pub open spec fn eroded_cells(p: PieceState, cleared: Seq<int>) -> int {
    (cleared.len() * cleared_cells_below(p, cleared, 4)) as int
}

/// The ten features, in the order of `FEATURE_NAMES`.
pub open spec fn features_spec(r: Seq<u16>, p: PieceState, cleared: Seq<int>) -> Seq<int> {
    seq![
        landing_x2(p),
        eroded_cells(p, cleared),
        rows_changes(r, HEIGHT as nat) as int,
        columns_changes(r, WIDTH as nat) as int,
        holes_total(r, WIDTH as nat) as int,
        wells_total(r, WIDTH as nat) as int,
        heights_total(r, WIDTH as nat) as int,
        bumpiness_below(r, WIDTH as nat) as int,
        heights_max(r, WIDTH as nat) as int,
        cleared.len() as int,
    ]
}

/// Placements whose landing-height sum fits the signed 16-bit cell arithmetic.
pub open spec fn features_defined(p: PieceState) -> bool {
    &&& p.cells_fit()
    &&& i16::MIN <= landing_x2(p) - 2
    &&& landing_x2(p) <= i16::MAX
}

proof fn lemma_row_changes_bound(r: Seq<u16>, y: int, n: nat)
    ensures
        row_changes(r, y, n) <= n,
    decreases n,
{
    if n > 0 {
        lemma_row_changes_bound(r, y, (n - 1) as nat);
    }
}

proof fn lemma_column_changes_bound(r: Seq<u16>, x: int, n: nat)
    ensures
        column_changes(r, x, n) <= n,
    decreases n,
{
    if n > 0 {
        lemma_column_changes_bound(r, x, (n - 1) as nat);
    }
}

proof fn lemma_well_bounds(r: Seq<u16>, x: int, n: nat)
    ensures
        well_depth(r, x, n) <= n,
        column_wells(r, x, n) <= n * n,
    decreases n,
{
    if n > 0 {
        lemma_well_bounds(r, x, (n - 1) as nat);
        assert((n - 1) * (n - 1) + n <= n * n) by (nonlinear_arith)
            requires
                n >= 1,
        ;
    }
}

proof fn lemma_height_bounds(r: Seq<u16>, x: int, n: nat)
    ensures
        height_below(r, x, n) <= n,
        empty_below(r, x, n) <= n,
    decreases n,
{
    if n > 0 {
        lemma_height_bounds(r, x, (n - 1) as nat);
    }
}

proof fn lemma_empty_monotone(r: Seq<u16>, x: int, m: nat, n: nat)
    requires
        m <= n,
    ensures
        empty_below(r, x, m) <= empty_below(r, x, n),
    decreases n,
{
    if m < n {
        lemma_empty_monotone(r, x, m, (n - 1) as nat);
    }
}

proof fn lemma_column_bounds(r: Seq<u16>, x: int)
    ensures
        column_height(r, x) <= HEIGHT,
        column_holes(r, x) <= HEIGHT,
{
    lemma_height_bounds(r, x, HEIGHT as nat);
    lemma_height_bounds(r, x, column_height(r, x));
}

fn occupied(board: &Board, x: usize, y: usize) -> (r: bool)
    requires
        board.wf(),
        x < WIDTH,
        y < HEIGHT,
    ensures
        r == occupied_at(board@.0, x as int, y as int),
{
    match board.is_occupied(x, y) {
        Some(v) => v,
        None => false,
    }
}

/// Filled test with the board edges counted as filled; coordinates are
/// shifted by one so that the left wall and the floor sit at index zero.
fn solid_shifted(board: &Board, x1: usize, y1: usize) -> (r: bool)
    requires
        board.wf(),
        x1 <= WIDTH + 1,
        y1 <= HEIGHT + 1,
    ensures
        r == solid(board@.0, x1 - 1, y1 - 1),
{
    if x1 == 0 || y1 == 0 || x1 > WIDTH || y1 > HEIGHT {
        true
    } else {
        occupied(board, x1 - 1, y1 - 1)
    }
}

fn row_transitions(board: &Board) -> (r: i32)
    requires
        board.wf(),
    ensures
        r == rows_changes(board@.0, HEIGHT as nat),
{
    let ghost r = board@.0;
    let mut total: i32 = 0;
    let mut y: usize = 0;
    while y < HEIGHT
        invariant
            board.wf(),
            r == board@.0,
            y <= HEIGHT,
            total == rows_changes(r, y as nat),
            total <= 11 * y,
        decreases HEIGHT - y,
    {
        let mut count: i32 = 0;
        let mut x: usize = 0;
        while x <= WIDTH
            invariant
                board.wf(),
                r == board@.0,
                y < HEIGHT,
                x <= WIDTH + 1,
                count == row_changes(r, y as int, x as nat),
                count <= x,
                total == rows_changes(r, y as nat),
                total <= 11 * y,
            decreases WIDTH + 1 - x,
        {
            if solid_shifted(board, x, y + 1) != solid_shifted(board, x + 1, y + 1) {
                count += 1;
            }
            x += 1;
        }
        total += count;
        y += 1;
    }
    total
}

fn column_transitions(board: &Board) -> (r: i32)
    requires
        board.wf(),
    ensures
        r == columns_changes(board@.0, WIDTH as nat),
{
    let ghost r = board@.0;
    let mut total: i32 = 0;
    let mut x: usize = 0;
    while x < WIDTH
        invariant
            board.wf(),
            r == board@.0,
            x <= WIDTH,
            total == columns_changes(r, x as nat),
            total <= 41 * x,
        decreases WIDTH - x,
    {
        let mut count: i32 = 0;
        let mut y: usize = 0;
        while y <= HEIGHT
            invariant
                board.wf(),
                r == board@.0,
                x < WIDTH,
                y <= HEIGHT + 1,
                count == column_changes(r, x as int, y as nat),
                count <= y,
                total == columns_changes(r, x as nat),
                total <= 41 * x,
            decreases HEIGHT + 1 - y,
        {
            if solid_shifted(board, x + 1, y) != solid_shifted(board, x + 1, y + 1) {
                count += 1;
            }
            y += 1;
        }
        total += count;
        x += 1;
    }
    total
}

/// Height and buried holes of every column.
pub(crate) fn column_heights_and_holes(board: &Board) -> (r: ([i32; WIDTH], [i32; WIDTH]))
    requires
        board.wf(),
    ensures
        forall|x: int| 0 <= x < WIDTH ==> #[trigger] r.0[x] == column_height(board@.0, x),
        forall|x: int| 0 <= x < WIDTH ==> #[trigger] r.1[x] == column_holes(board@.0, x),
{
    let ghost r = board@.0;
    let mut heights = [0i32; WIDTH];
    let mut holes = [0i32; WIDTH];
    let mut x: usize = 0;
    while x < WIDTH
        invariant
            board.wf(),
            r == board@.0,
            x <= WIDTH,
            forall|i: int| 0 <= i < x ==> #[trigger] heights[i] == column_height(r, i),
            forall|i: int| 0 <= i < x ==> #[trigger] holes[i] == column_holes(r, i),
        decreases WIDTH - x,
    {
        let mut height: i32 = 0;
        let mut empties: i32 = 0;
        let mut buried: i32 = 0;
        let mut y: usize = 0;
        while y < HEIGHT
            invariant
                board.wf(),
                r == board@.0,
                x < WIDTH,
                y <= HEIGHT,
                height == height_below(r, x as int, y as nat),
                empties == empty_below(r, x as int, y as nat),
                buried == empty_below(r, x as int, height as nat),
                height <= y,
                empties <= y,
            decreases HEIGHT - y,
        {
            if occupied(board, x, y) {
                height = (y + 1) as i32;
                buried = empties;
            } else {
                empties += 1;
            }
            y += 1;
        }
        heights[x] = height;
        holes[x] = buried;
        x += 1;
    }
    (heights, holes)
}

fn cumulative_wells(board: &Board) -> (r: i32)
    requires
        board.wf(),
    ensures
        r == wells_total(board@.0, WIDTH as nat),
{
    let ghost r = board@.0;
    let mut total: i32 = 0;
    let mut x: usize = 0;
    while x < WIDTH
        invariant
            board.wf(),
            r == board@.0,
            x <= WIDTH,
            total == wells_total(r, x as nat),
            total <= 1600 * x,
        decreases WIDTH - x,
    {
        let mut depth: i32 = 0;
        let mut sum: i32 = 0;
        let mut y: usize = 0;
        while y < HEIGHT
            invariant
                board.wf(),
                r == board@.0,
                x < WIDTH,
                y <= HEIGHT,
                depth == well_depth(r, x as int, y as nat),
                sum == column_wells(r, x as int, y as nat),
                total == wells_total(r, x as nat),
                total <= 1600 * x,
            decreases HEIGHT - y,
        {
            proof {
                lemma_well_bounds(r, x as int, (y + 1) as nat);
                assert((y + 1) * (y + 1) <= HEIGHT * HEIGHT) by (nonlinear_arith)
                    requires
                        y < HEIGHT,
                ;
            }
            let well = !occupied(board, x, y) && solid_shifted(board, x, y + 1) && solid_shifted(
                board,
                x + 2,
                y + 1,
            );
            if well {
                depth += 1;
            } else {
                depth = 0;
            }
            sum += depth;
            y += 1;
        }
        proof {
            lemma_well_bounds(r, x as int, HEIGHT as nat);
        }
        total += sum;
        x += 1;
    }
    total
}

fn landing_height_x2(placement: PieceState) -> (r: i32)
    requires
        features_defined(placement),
    ensures
        r == landing_x2(placement),
{
    let cells = placement.cells();
    let mut min_y = cells[0].1;
    let mut max_y = cells[0].1;
    if cells[1].1 < min_y {
        min_y = cells[1].1;
    }
    if cells[1].1 > max_y {
        max_y = cells[1].1;
    }
    let low_cd = if cells[2].1 <= cells[3].1 { cells[2].1 } else { cells[3].1 };
    let high_cd = if cells[2].1 >= cells[3].1 { cells[2].1 } else { cells[3].1 };
    if low_cd < min_y {
        min_y = low_cd;
    }
    if high_cd > max_y {
        max_y = high_cd;
    }
    (min_y + max_y + 2) as i32
}

fn eroded_piece_cells(placement: PieceState, cleared: ClearedLines) -> (r: i32)
    requires
        cleared.wf(),
        placement.cells_fit(),
    ensures
        r == eroded_cells(placement, cleared@),
{
    let rows = cleared.rows();
    let cells = placement.cells();
    let mut count: i32 = 0;
    let mut i: usize = 0;
    while i < 4
        invariant
            cleared.wf(),
            rows@.len() == cleared@.len(),
            forall|j: int| 0 <= j < rows@.len() ==> rows@[j] as int == #[trigger] cleared@[j],
            forall|j: int| 0 <= j < 4 ==> (#[trigger] cells[j]).1 == placement.cell(j).1,
            i <= 4,
            count == cleared_cells_below(placement, cleared@, i as nat),
            count <= i,
        decreases 4 - i,
    {
        let y = cells[i].1;
        if 0 <= y && y <= 255 {
            let row = y as u8;
            let mut found = false;
            let mut k: usize = 0;
            while k < rows.len()
                invariant
                    k <= rows@.len(),
                    found == (exists|j: int| 0 <= j < k && rows@[j] == row),
                decreases rows@.len() - k,
            {
                if rows[k] == row {
                    found = true;
                }
                k += 1;
            }
            proof {
                if found {
                    let j = choose|j: int| 0 <= j < rows@.len() && rows@[j] == row;
                    assert(cleared@[j] == y);
                } else {
                    assert forall|j: int| 0 <= j < cleared@.len() implies cleared@[j] != y as int by {
                        assert(rows@[j] != row);
                    }
                }
            }
            if found {
                count += 1;
            }
        }
        i += 1;
    }
    let lines = cleared.count() as i32;
    proof {
        assert(lines * count <= 16) by (nonlinear_arith)
            requires
                0 <= lines <= 4,
                0 <= count <= 4,
        ;
    }
    lines * count
}

/// Features together with the column heights and holes they were built from.
#[derive(Clone, Copy, Debug, PartialEq, Eq)]
pub(crate) struct AfterstateAnalysis {
    pub(crate) features: [i32; FEATURE_COUNT],
    pub(crate) heights: [i32; WIDTH],
    pub(crate) holes: [i32; WIDTH],
}

fn height_summary(heights: &[i32; WIDTH], holes: &[i32; WIDTH], Ghost(r): Ghost<Seq<u16>>) -> (out: (
    i32,
    i32,
    i32,
    i32,
))
    requires
        forall|x: int| 0 <= x < WIDTH ==> #[trigger] heights[x] == column_height(r, x),
        forall|x: int| 0 <= x < WIDTH ==> #[trigger] holes[x] == column_holes(r, x),
    ensures
        out.0 == heights_total(r, WIDTH as nat),
        out.1 == heights_max(r, WIDTH as nat),
        out.2 == holes_total(r, WIDTH as nat),
        out.3 == bumpiness_below(r, WIDTH as nat),
{
    let mut aggregate: i32 = 0;
    let mut max_height: i32 = 0;
    let mut hole_sum: i32 = 0;
    let mut bumpiness: i32 = 0;
    let mut x: usize = 0;
    while x < WIDTH
        invariant
            forall|i: int| 0 <= i < WIDTH ==> #[trigger] heights[i] == column_height(r, i),
            forall|i: int| 0 <= i < WIDTH ==> #[trigger] holes[i] == column_holes(r, i),
            x <= WIDTH,
            aggregate == heights_total(r, x as nat),
            max_height == heights_max(r, x as nat),
            hole_sum == holes_total(r, x as nat),
            bumpiness == bumpiness_below(r, x as nat),
            aggregate <= x * HEIGHT,
            hole_sum <= x * HEIGHT,
            bumpiness <= x * HEIGHT,
        decreases WIDTH - x,
    {
        proof {
            lemma_column_bounds(r, x as int);
            if x > 0 {
                lemma_column_bounds(r, x - 1);
            }
        }
        aggregate += heights[x];
        hole_sum += holes[x];
        if heights[x] > max_height {
            max_height = heights[x];
        }
        if x > 0 {
            let a = heights[x - 1];
            let b = heights[x];
            bumpiness += if a >= b { a - b } else { b - a };
        }
        x += 1;
    }
    (aggregate, max_height, hole_sum, bumpiness)
}

pub(crate) fn analyze_afterstate(board: &Board, placement: PieceState, cleared: ClearedLines) -> (r:
    AfterstateAnalysis)
    requires
        board.wf(),
        cleared.wf(),
        features_defined(placement),
    ensures
        forall|i: int| 0 <= i < FEATURE_COUNT ==> #[trigger] r.features[i] == features_spec(
            board@.0,
            placement,
            cleared@,
        )[i],
        forall|x: int| 0 <= x < WIDTH ==> #[trigger] r.heights[x] == column_height(board@.0, x),
        forall|x: int| 0 <= x < WIDTH ==> #[trigger] r.holes[x] == column_holes(board@.0, x),
{
    let (heights, holes) = column_heights_and_holes(board);
    let (aggregate, max_height, hole_sum, bumpiness) = height_summary(&heights, &holes, Ghost(board@.0));
    let features = [
        landing_height_x2(placement),
        eroded_piece_cells(placement, cleared),
        row_transitions(board),
        column_transitions(board),
        hole_sum,
        cumulative_wells(board),
        aggregate,
        bumpiness,
        max_height,
        cleared.count() as i32,
    ];
    AfterstateAnalysis { features, heights, holes }
}

/// The integer features of a locked afterstate. The board must already hold
/// the placement and have completed line compaction.
pub fn extract_afterstate_features(board: &Board, placement: PieceState, cleared: ClearedLines) -> (r: [i32;
    FEATURE_COUNT])
    requires
        board.wf(),
        cleared.wf(),
        features_defined(placement),
    ensures
        forall|i: int| 0 <= i < FEATURE_COUNT ==> #[trigger] r[i] == features_spec(board@.0, placement, cleared@)[i],
{
    analyze_afterstate(board, placement, cleared).features
}

/// Aggregate height, maximum height, buried holes and bumpiness of a board.
pub fn board_summary(board: &Board) -> (r: [i32; 4])
    requires
        board.wf(),
    ensures
        r[0] == heights_total(board@.0, WIDTH as nat),
        r[1] == heights_max(board@.0, WIDTH as nat),
        r[2] == holes_total(board@.0, WIDTH as nat),
        r[3] == bumpiness_below(board@.0, WIDTH as nat),
{
    let (heights, holes) = column_heights_and_holes(board);
    let (aggregate, max_height, hole_sum, bumpiness) = height_summary(&heights, &holes, Ghost(board@.0));
    [aggregate, max_height, hole_sum, bumpiness]
}

} // verus!
