use vstd::prelude::*;
use crate::board::{Board, hits, lemma_fits_bounds};
use crate::piece::orientation_index;
use crate::piece::PieceState;
use crate::rotation::{RotationDirection, rotation_outcome, try_rotate};
use crate::spin::shifted;
use crate::timing::LastAction;

verus! {

/// Geometry-level inputs. Timing-aware reachability is layered above this core.
#[derive(Clone, Copy, Debug, PartialEq, Eq, Structural, Hash, PartialOrd, Ord)]
pub enum Movement {
    Down,
    Left,
    Right,
    RotateClockwise,
    RotateCounterclockwise,
    RotateHalf,
}

impl Movement {
    pub const ALL: [Movement; 6] = [
        Movement::Down,
        Movement::Left,
        Movement::Right,
        Movement::RotateClockwise,
        Movement::RotateCounterclockwise,
        Movement::RotateHalf,
    ];
}

pub open spec fn movement_index(m: Movement) -> int {
    match m {
        Movement::Down => 0,
        Movement::Left => 1,
        Movement::Right => 2,
        Movement::RotateClockwise => 3,
        Movement::RotateCounterclockwise => 4,
        Movement::RotateHalf => 5,
    }
}

pub open spec fn movement_of_index(i: int) -> Movement {
    if i == 0 {
        Movement::Down
    } else if i == 1 {
        Movement::Left
    } else if i == 2 {
        Movement::Right
    } else if i == 3 {
        Movement::RotateClockwise
    } else if i == 4 {
        Movement::RotateCounterclockwise
    } else {
        Movement::RotateHalf
    }
}

pub open spec fn translation_spec(r: Seq<u16>, p: PieceState, dx: int, dy: int) -> Option<PieceState> {
    if hits(r, shifted(p, dx, dy)) {
        None
    } else {
        Some(shifted(p, dx, dy))
    }
}

pub open spec fn rotation_direction_of(m: Movement) -> RotationDirection {
    match m {
        Movement::RotateClockwise => RotationDirection::Clockwise,
        Movement::RotateCounterclockwise => RotationDirection::Counterclockwise,
        _ => RotationDirection::Half,
    }
}

/// Result of one movement together with the action it records.
pub open spec fn movement_spec(r: Seq<u16>, p: PieceState, m: Movement) -> Option<(PieceState, LastAction)> {
    match m {
        Movement::Down => match translation_spec(r, p, 0, -1) {
            Some(q) => Some((q, LastAction::Translation)),
            None => None,
        },
        Movement::Left => match translation_spec(r, p, -1, 0) {
            Some(q) => Some((q, LastAction::Translation)),
            None => None,
        },
        Movement::Right => match translation_spec(r, p, 1, 0) {
            Some(q) => Some((q, LastAction::Translation)),
            None => None,
        },
        _ => match rotation_outcome(r, p, rotation_direction_of(m)) {
            Some(res) => Some(
                (
                    res.state,
                    LastAction::Rotation {
                        direction: rotation_direction_of(m),
                        kick_index: res.client_kick_index_spec(),
                    },
                ),
            ),
            None => None,
        },
    }
}

pub open spec fn grounded(r: Seq<u16>, p: PieceState) -> bool {
    hits(r, shifted(p, 0, -1))
}

/// Lowest position reached by repeated single-row drops, `fuel` at most.
pub open spec fn drop_from(r: Seq<u16>, p: PieceState, fuel: nat) -> PieceState
    decreases fuel,
{
    if fuel == 0 || grounded(r, p) {
        p
    } else {
        drop_from(r, shifted(p, 0, -1), (fuel - 1) as nat)
    }
}

/// Where a non-colliding piece lands when hard-dropped.
pub open spec fn landing(r: Seq<u16>, p: PieceState) -> PieceState {
    drop_from(r, p, (p.y + 4) as nat)
}

pub fn try_translation(board: &Board, state: PieceState, dx: i16, dy: i16) -> (r: Option<PieceState>)
    requires
        board.wf(),
        state.ok(),
        -1 <= dx <= 1,
        -1 <= dy <= 1,
    ensures
        r == translation_spec(board@.0, state, dx as int, dy as int),
        r matches Some(q) ==> q.ok() && !hits(board@.0, q),
{
    let candidate = state.translated(dx, dy);
    if board.collides(candidate) {
        None
    } else {
        proof {
            lemma_fits_bounds(board@.0, candidate);
        }
        Some(candidate)
    }
}

fn rotation_with_action(board: &Board, state: PieceState, direction: RotationDirection) -> (r: Option<(PieceState, LastAction)>)
    requires
        board.wf(),
        state.ok(),
    ensures
        r == (match rotation_outcome(board@.0, state, direction) {
            Some(res) => Some(
                (res.state, LastAction::Rotation { direction, kick_index: res.client_kick_index_spec() }),
            ),
            None => None::<(PieceState, LastAction)>,
        }),
        r matches Some(q) ==> q.0.ok() && !hits(board@.0, q.0),
{
    match try_rotate(board, state, direction) {
        Some(rotation) => {
            let k = rotation.client_kick_index();
            Some((rotation.state, LastAction::Rotation { direction, kick_index: k }))
        },
        None => None,
    }
}

pub fn try_movement_with_action(board: &Board, state: PieceState, movement: Movement) -> (r: Option<(PieceState, LastAction)>)
    requires
        board.wf(),
        state.ok(),
    ensures
        r == movement_spec(board@.0, state, movement),
        r matches Some(q) ==> q.0.ok() && !hits(board@.0, q.0) && q.0.kind == state.kind,
{
    match movement {
        Movement::Down => match try_translation(board, state, 0, -1) {
            Some(q) => Some((q, LastAction::Translation)),
            None => None,
        },
        Movement::Left => match try_translation(board, state, -1, 0) {
            Some(q) => Some((q, LastAction::Translation)),
            None => None,
        },
        Movement::Right => match try_translation(board, state, 1, 0) {
            Some(q) => Some((q, LastAction::Translation)),
            None => None,
        },
        Movement::RotateClockwise => rotation_with_action(board, state, RotationDirection::Clockwise),
        Movement::RotateCounterclockwise => rotation_with_action(board, state, RotationDirection::Counterclockwise),
        Movement::RotateHalf => rotation_with_action(board, state, RotationDirection::Half),
    }
}

pub fn try_movement(board: &Board, state: PieceState, movement: Movement) -> (r: Option<PieceState>)
    requires
        board.wf(),
        state.ok(),
    ensures
        r == (match movement_spec(board@.0, state, movement) {
            Some(q) => Some(q.0),
            None => None::<PieceState>,
        }),
        r matches Some(q) ==> q.ok() && !hits(board@.0, q) && q.kind == state.kind,
{
    match try_movement_with_action(board, state, movement) {
        Some(q) => Some(q.0),
        None => None,
    }
}

/// Drops a non-colliding piece to where it first rests on the stack or floor.
pub fn hard_drop(board: &Board, state: PieceState) -> (r: Option<PieceState>)
    requires
        board.wf(),
        state.ok(),
    ensures
        hits(board@.0, state) ==> r is None,
        !hits(board@.0, state) ==> r == Some(landing(board@.0, state)),
        r matches Some(q) ==> q.ok() && !hits(board@.0, q) && grounded(board@.0, q) && q.kind == state.kind
            && q.orientation == state.orientation && q.x == state.x && q.y <= state.y,
{
    if board.collides(state) {
        return None;
    }
    proof {
        lemma_fits_bounds(board@.0, state);
    }
    let mut dropped = state;
    let ghost fuel: nat = (state.y + 4) as nat;
    loop
        invariant
            board.wf(),
            dropped.ok(),
            !hits(board@.0, state),
            !hits(board@.0, dropped),
            fuel == dropped.y + 4,
            drop_from(board@.0, dropped, fuel) == landing(board@.0, state),
            dropped.kind == state.kind && dropped.orientation == state.orientation && dropped.x == state.x
                && dropped.y <= state.y,
        decreases dropped.y + 4,
    {
        proof {
            lemma_fits_bounds(board@.0, dropped);
        }
        match try_translation(board, dropped, 0, -1) {
            Some(next) => {
                proof {
                    lemma_fits_bounds(board@.0, next);
                    fuel = (fuel - 1) as nat;
                }
                dropped = next;
            },
            None => {
                return Some(dropped);
            },
        }
    }
}

// ---------------------------------------------------------------------------
// Reachable lock enumeration.
// ---------------------------------------------------------------------------

#[derive(Clone, Debug, PartialEq, Eq)]
pub struct GeometricPlacement {
    pub state: PieceState,
    pub path: Vec<Movement>,
    pub last_action: LastAction,
}

/// Replays movements from `start`; `None` once a movement fails.
pub open spec fn replay(r: Seq<u16>, start: PieceState, path: Seq<Movement>) -> Option<PieceState>
    decreases path.len(),
{
    if path.len() == 0 {
        Some(start)
    } else {
        match replay(r, start, path.drop_last()) {
            Some(q) => match movement_spec(r, q, path.last()) {
                Some(t) => Some(t.0),
                None => None,
            },
            None => None,
        }
    }
}

/// The action recorded by the final step of a replayed path.
pub open spec fn path_last_action(r: Seq<u16>, start: PieceState, path: Seq<Movement>) -> LastAction {
    if path.len() == 0 {
        LastAction::NoAction
    } else {
        match replay(r, start, path.drop_last()) {
            Some(q) => match movement_spec(r, q, path.last()) {
                Some(t) => t.1,
                None => LastAction::NoAction,
            },
            None => LastAction::NoAction,
        }
    }
}

pub open spec fn reachable(r: Seq<u16>, start: PieceState, p: PieceState) -> bool {
    exists|path: Seq<Movement>| #[trigger] replay(r, start, path) == Some(p)
}

/// A state the piece can be moved to from `spawn` and that rests on the stack.
pub open spec fn lock_target(r: Seq<u16>, spawn: PieceState, p: PieceState) -> bool {
    !hits(r, spawn) && reachable(r, spawn, p) && grounded(r, p)
}

pub const GRID_X: usize = 13;
pub const GRID_Y: usize = 43;
pub const GRID: usize = 2236;

pub open spec fn in_box(p: PieceState) -> bool {
    -3 <= p.x <= 9 && -3 <= p.y <= 39
}

/// Dense index of an in-box state: orientation, then x, then y.
pub open spec fn grid_of(p: PieceState) -> int {
    (orientation_index(p.orientation) * 13 + (p.x + 3)) * 43 + (p.y + 3)
}

proof fn lemma_grid(p: PieceState, q: PieceState)
    requires
        in_box(p),
        in_box(q),
    ensures
        0 <= grid_of(p) < GRID,
        grid_of(p) == grid_of(q) && p.kind == q.kind ==> p == q,
        grid_of(p) < grid_of(q) ==> orientation_index(p.orientation) < orientation_index(q.orientation) || (
        p.orientation == q.orientation && (p.x < q.x || (p.x == q.x && p.y < q.y))),
{
    let op = orientation_index(p.orientation);
    let oq = orientation_index(q.orientation);
    assert(0 <= grid_of(p) < GRID) by (nonlinear_arith)
        requires
            grid_of(p) == (op * 13 + (p.x + 3)) * 43 + (p.y + 3),
            0 <= op < 4,
            -3 <= p.x <= 9,
            -3 <= p.y <= 39,
    ;
    if grid_of(p) == grid_of(q) {
        assert(op == oq && p.x == q.x && p.y == q.y) by (nonlinear_arith)
            requires
                (op * 13 + (p.x + 3)) * 43 + (p.y + 3) == (oq * 13 + (q.x + 3)) * 43 + (q.y + 3),
                0 <= op < 4,
                0 <= oq < 4,
                -3 <= p.x <= 9,
                -3 <= p.y <= 39,
                -3 <= q.x <= 9,
                -3 <= q.y <= 39,
        ;
    }
    if grid_of(p) < grid_of(q) {
        assert(op < oq || (op == oq && (p.x < q.x || (p.x == q.x && p.y < q.y)))) by (nonlinear_arith)
            requires
                (op * 13 + (p.x + 3)) * 43 + (p.y + 3) < (oq * 13 + (q.x + 3)) * 43 + (q.y + 3),
                0 <= op < 4,
                0 <= oq < 4,
                -3 <= p.x <= 9,
                -3 <= p.y <= 39,
                -3 <= q.x <= 9,
                -3 <= q.y <= 39,
        ;
    }
}

fn grid_index(p: PieceState) -> (r: usize)
    requires
        in_box(p),
    ensures
        r == grid_of(p),
        r < GRID,
{
    proof {
        lemma_grid(p, p);
    }
    let o: usize = match p.orientation {
        crate::piece::Orientation::Spawn => 0,
        crate::piece::Orientation::Right => 1,
        crate::piece::Orientation::Reverse => 2,
        crate::piece::Orientation::Left => 3,
    };
    ((o * 13 + ((p.x + 3) as usize)) * 43 + ((p.y + 3) as usize))
}

#[derive(Clone, Copy)]
struct SearchNode {
    state: PieceState,
    parent: usize,
    movement: Option<Movement>,
}

#[derive(Clone, Copy)]
struct PathEnd {
    node: usize,
    state: PieceState,
    final_movement: Option<Movement>,
    last_action: LastAction,
}

pub open spec fn action_for_movement(m: Option<Movement>) -> LastAction {
    match m {
        Some(Movement::Down) | Some(Movement::Left) | Some(Movement::Right) => LastAction::Translation,
        _ => LastAction::NoAction,
    }
}

fn last_action_for_movement(movement: Option<Movement>) -> (r: LastAction)
    ensures
        r == action_for_movement(movement),
{
    match movement {
        Some(Movement::Down) | Some(Movement::Left) | Some(Movement::Right) => LastAction::Translation,
        _ => LastAction::NoAction,
    }
}

fn movement_at(i: usize) -> (r: Movement)
    requires
        i < 6,
    ensures
        r == movement_of_index(i as int),
{
    if i == 0 {
        Movement::Down
    } else if i == 1 {
        Movement::Left
    } else if i == 2 {
        Movement::Right
    } else if i == 3 {
        Movement::RotateClockwise
    } else if i == 4 {
        Movement::RotateCounterclockwise
    } else {
        Movement::RotateHalf
    }
}

pub open spec fn count_marked(s: Seq<usize>, n: nat) -> nat
    decreases n,
{
    if n == 0 {
        0
    } else {
        count_marked(s, (n - 1) as nat) + if s[n - 1] != 0 { 1nat } else { 0nat }
    }
}

proof fn lemma_count_marked_bound(s: Seq<usize>, n: nat)
    ensures
        count_marked(s, n) <= n,
    decreases n,
{
    if n > 0 {
        lemma_count_marked_bound(s, (n - 1) as nat);
    }
}

proof fn lemma_count_marked_update(s: Seq<usize>, i: int, v: usize, n: nat)
    requires
        0 <= i < s.len(),
        n <= s.len(),
        s[i] == 0,
        v != 0,
    ensures
        count_marked(s.update(i, v), n) == count_marked(s, n) + if i < n { 1nat } else { 0nat },
    decreases n,
{
    if n > 0 {
        lemma_count_marked_update(s, i, v, (n - 1) as nat);
    }
}

/// Node `n` replays along its ghost path, sits in the grid slot recorded for
/// it, and links to an earlier parent by its final movement.
spec fn node_ok(
    r: Seq<u16>,
    spawn: PieceState,
    nodes: Seq<SearchNode>,
    paths: Seq<Seq<Movement>>,
    visited: Seq<usize>,
    n: int,
) -> bool {
    &&& replay(r, spawn, paths[n]) == Some(nodes[n].state)
    &&& paths[n].len() <= n
    &&& in_box(nodes[n].state)
    &&& !hits(r, nodes[n].state)
    &&& nodes[n].state.kind == spawn.kind
    &&& visited[grid_of(nodes[n].state)] == n + 1
    &&& (n > 0 ==> nodes[n].parent < n && nodes[n].movement == Some(paths[n].last()) && paths[n].len() > 0
        && paths[n].drop_last() == paths[nodes[n].parent as int])
    &&& (n == 0 ==> paths[n].len() == 0 && nodes[n].movement is None)
}

spec fn slot_back(nodes: Seq<SearchNode>, visited: Seq<usize>, i: int) -> bool {
    visited[i] != 0 ==> visited[i] - 1 < nodes.len() && grid_of(nodes[visited[i] - 1].state) == i
}

spec fn nodes_ok(
    r: Seq<u16>,
    spawn: PieceState,
    nodes: Seq<SearchNode>,
    paths: Seq<Seq<Movement>>,
    visited: Seq<usize>,
) -> bool {
    &&& nodes.len() >= 1
    &&& paths.len() == nodes.len()
    &&& visited.len() == GRID
    &&& nodes[0].state == spawn
    &&& forall|n: int| 0 <= n < nodes.len() ==> #[trigger] node_ok(r, spawn, nodes, paths, visited, n)
    &&& forall|i: int| 0 <= i < GRID ==> #[trigger] slot_back(nodes, visited, i)
}

spec fn succ_ok(r: Seq<u16>, nodes: Seq<SearchNode>, visited: Seq<usize>, n: int, k: int) -> bool {
    match movement_spec(r, nodes[n].state, movement_of_index(k)) {
        Some(t) => in_box(t.0) && visited[grid_of(t.0)] != 0,
        None => true,
    }
}

spec fn end_ok(r: Seq<u16>, spawn: PieceState, nodes: Seq<SearchNode>, e: PathEnd) -> bool {
    &&& e.node < nodes.len()
    &&& in_box(e.state)
    &&& grounded(r, e.state)
    &&& !hits(r, e.state)
    &&& e.state.kind == spawn.kind
    &&& match e.final_movement {
        None => e.state == nodes[e.node as int].state && e.last_action == action_for_movement(
            nodes[e.node as int].movement,
        ),
        Some(m) => movement_spec(r, nodes[e.node as int].state, m) == Some((e.state, e.last_action)),
    }
}

spec fn slot_ok(r: Seq<u16>, spawn: PieceState, nodes: Seq<SearchNode>, slot: Option<PathEnd>, i: int, rotation: bool) -> bool {
    match slot {
        Some(e) => end_ok(r, spawn, nodes, e) && (e.final_movement is Some) == rotation && grid_of(e.state) == i,
        None => true,
    }
}

spec fn is_rotation_movement(m: Option<Movement>) -> bool {
    m == Some(Movement::RotateClockwise) || m == Some(Movement::RotateCounterclockwise) || m == Some(
        Movement::RotateHalf,
    )
}

spec fn ground_ok(r: Seq<u16>, nodes: Seq<SearchNode>, placements: Seq<Option<PathEnd>>, n: int) -> bool {
    grounded(r, nodes[n].state) ==> placements[grid_of(nodes[n].state)] is Some
}

spec fn rot_ok(r: Seq<u16>, nodes: Seq<SearchNode>, finishes: Seq<Option<PathEnd>>, n: int) -> bool {
    is_rotation_movement(nodes[n].movement) && grounded(r, nodes[n].state) ==> finishes[grid_of(nodes[n].state)] is Some
}

/// The search state between iterations.
spec fn search_ok(
    r: Seq<u16>,
    spawn: PieceState,
    nodes: Seq<SearchNode>,
    paths: Seq<Seq<Movement>>,
    visited: Seq<usize>,
    placements: Seq<Option<PathEnd>>,
    finishes: Seq<Option<PathEnd>>,
) -> bool {
    &&& nodes_ok(r, spawn, nodes, paths, visited)
    &&& nodes.len() == count_marked(visited, GRID as nat)
    &&& placements.len() == GRID
    &&& finishes.len() == GRID
    &&& forall|i: int| 0 <= i < GRID ==> #[trigger] slot_ok(r, spawn, nodes, placements[i], i, false)
    &&& forall|i: int| 0 <= i < GRID ==> #[trigger] slot_ok(r, spawn, nodes, finishes[i], i, true)
    &&& forall|n: int| 0 <= n < nodes.len() ==> #[trigger] rot_ok(r, nodes, finishes, n)
}

#[verifier::rlimit(100)]
#[verifier::spinoff_prover]
/// Enumerates every grounded state reachable by successful unit
/// translations and ordered SRS+ rotations, with one replayable path each,
/// in grid order (orientation, then x, then y).
pub fn reachable_locks(board: &Board, spawn: PieceState) -> (r: Vec<GeometricPlacement>)
    requires
        board.wf(),
        spawn.ok(),
    ensures
        forall|k: int| 0 <= k < r@.len() ==> {
            &&& lock_target(board@.0, spawn, #[trigger] r@[k].state)
            &&& replay(board@.0, spawn, r@[k].path@) == Some(r@[k].state)
            &&& r@[k].last_action == path_last_action(board@.0, spawn, r@[k].path@)
            &&& in_box(r@[k].state)
            &&& r@[k].path@.len() <= GRID
        },
        forall|a: int, b: int| 0 <= a < b < r@.len() ==> grid_of(r@[a].state) < grid_of(r@[b].state),
        forall|p: PieceState| lock_target(board@.0, spawn, p) ==> exists|k: int| 0 <= k < r@.len() && #[trigger] r@[k].state == p,
{
    if board.collides(spawn) {
        return Vec::new();
    }
    proof {
        lemma_fits_bounds(board@.0, spawn);
    }
    let ghost rr = board@.0;
    let mut visited: Vec<usize> = Vec::new();
    let mut placements: Vec<Option<PathEnd>> = Vec::new();
    let mut finishes: Vec<Option<PathEnd>> = Vec::new();
    let mut g: usize = 0;
    while g < GRID
        invariant
            g <= GRID,
            visited@.len() == g,
            placements@.len() == g,
            finishes@.len() == g,
            forall|i: int| 0 <= i < g ==> #[trigger] visited@[i] == 0,
            forall|i: int| 0 <= i < g ==> #[trigger] placements@[i] is None,
            forall|i: int| 0 <= i < g ==> #[trigger] finishes@[i] is None,
        decreases GRID - g,
    {
        visited.push(0);
        placements.push(None);
        finishes.push(None);
        g += 1;
    }
    proof {
        lemma_count_zero(visited@, GRID as nat);
        lemma_count_marked_update(visited@, grid_of(spawn), 1, GRID as nat);
    }
    let spawn_index = grid_index(spawn);
    visited.set(spawn_index, 1);
    let mut nodes: Vec<SearchNode> = Vec::new();
    nodes.push(SearchNode { state: spawn, parent: usize::MAX, movement: None });
    let ghost mut paths: Seq<Seq<Movement>> = seq![Seq::<Movement>::empty()];
    proof {
        assert(node_ok(rr, spawn, nodes@, paths, visited@, 0));
        assert forall|i: int| 0 <= i < GRID implies #[trigger] slot_back(nodes@, visited@, i) by {
            if i != spawn_index {
                assert(visited@[i] == 0);
            }
        }
        assert forall|i: int| 0 <= i < GRID implies #[trigger] slot_ok(rr, spawn, nodes@, placements@[i], i, false) by {
            assert(placements@[i] is None);
        }
        assert forall|i: int| 0 <= i < GRID implies #[trigger] slot_ok(rr, spawn, nodes@, finishes@[i], i, true) by {
            assert(finishes@[i] is None);
        }
        assert(rot_ok(rr, nodes@, finishes@, 0));
    }
    let mut head: usize = 0;
    while head < nodes.len()
        invariant
            board.wf(),
            rr == board@.0,
            !hits(rr, spawn),
            in_box(spawn),
            search_ok(rr, spawn, nodes@, paths, visited@, placements@, finishes@),
            head <= nodes@.len(),
            forall|n: int, k: int| 0 <= n < head && 0 <= k < 6 ==> #[trigger] succ_ok(rr, nodes@, visited@, n, k),
            forall|n: int| 0 <= n < head ==> #[trigger] ground_ok(rr, nodes@, placements@, n),
        decreases GRID - head,
    {
        proof {
            lemma_count_marked_bound(visited@, GRID as nat);
            assert(node_ok(rr, spawn, nodes@, paths, visited@, head as int));
        }
        let node = nodes[head];
        let state = node.state;
        if try_movement(board, state, Movement::Down).is_none() {
            let gi = grid_index(state);
            if placements[gi].is_none() {
                let la = last_action_for_movement(node.movement);
                let ghost old_p = placements@;
                placements.set(gi, Some(PathEnd { node: head, state, final_movement: None, last_action: la }));
                proof {
                    assert forall|i: int| 0 <= i < GRID implies #[trigger] slot_ok(rr, spawn, nodes@, placements@[i], i, false) by {
                        if i != gi {
                            assert(slot_ok(rr, spawn, nodes@, old_p[i], i, false));
                        }
                    }
                    assert forall|n: int| 0 <= n < head implies #[trigger] ground_ok(rr, nodes@, placements@, n) by {
                        assert(ground_ok(rr, nodes@, old_p, n));
                        assert(node_ok(rr, spawn, nodes@, paths, visited@, n));
                        lemma_grid(nodes@[n].state, nodes@[n].state);
                    }
                }
            }
        }
        proof {
            assert(ground_ok(rr, nodes@, placements@, head as int));
        }
        let mut m: usize = 0;
        while m < 6
            invariant
                board.wf(),
                rr == board@.0,
                !hits(rr, spawn),
                search_ok(rr, spawn, nodes@, paths, visited@, placements@, finishes@),
                head < nodes@.len(),
                state == nodes@[head as int].state,
                m <= 6,
                forall|n: int, k: int| 0 <= n < head && 0 <= k < 6 ==> #[trigger] succ_ok(rr, nodes@, visited@, n, k),
                forall|k: int| 0 <= k < m ==> #[trigger] succ_ok(rr, nodes@, visited@, head as int, k),
                forall|n: int| 0 <= n <= head ==> #[trigger] ground_ok(rr, nodes@, placements@, n),
            decreases 6 - m,
        {
            let p2 = explore_move(board, spawn, head, m, &mut visited, &mut nodes, &mut placements, &mut finishes, Ghost(paths));
            proof {
                paths = p2@;
            }
            m += 1;
        }
        head += 1;
    }
    proof {
        assert forall|p: PieceState| lock_target(rr, spawn, p) implies in_box(p) && #[trigger] visited@[grid_of(p)] != 0
            && visited@[grid_of(p)] - 1 < nodes@.len() && nodes@[visited@[grid_of(p)] - 1].state == p by {
            let path = choose|path: Seq<Movement>| #[trigger] replay(rr, spawn, path) == Some(p);
            lemma_closed_reaches(rr, spawn, nodes@, paths, visited@, path);
        }
    }
    let mut result: Vec<GeometricPlacement> = Vec::new();
    let mut gi: usize = 0;
    while gi < GRID
        invariant
            board.wf(),
            rr == board@.0,
            !hits(rr, spawn),
            search_ok(rr, spawn, nodes@, paths, visited@, placements@, finishes@),
            gi <= GRID,
            forall|k: int| 0 <= k < result@.len() ==> {
                &&& lock_target(rr, spawn, #[trigger] result@[k].state)
                &&& replay(rr, spawn, result@[k].path@) == Some(result@[k].state)
                &&& result@[k].last_action == path_last_action(rr, spawn, result@[k].path@)
                &&& in_box(result@[k].state)
                &&& grid_of(result@[k].state) < gi
                &&& result@[k].path@.len() <= GRID
            },
            forall|a: int, b: int| 0 <= a < b < result@.len() ==> grid_of(result@[a].state) < grid_of(result@[b].state),
            forall|i: int| 0 <= i < gi && #[trigger] placements@[i] is Some ==> exists|k: int| 0 <= k < result@.len() && #[trigger] result@[k].state == placements@[i]->Some_0.state,
        decreases GRID - gi,
    {
        match placements[gi] {
            None => {},
            Some(placement) => {
                proof {
                    assert(slot_ok(rr, spawn, nodes@, placements@[gi as int], gi as int, false));
                    assert(slot_ok(rr, spawn, nodes@, finishes@[gi as int], gi as int, true));
                }
                let end = match finishes[gi] {
                    Some(rf) => rf,
                    None => placement,
                };
                proof {
                    lemma_grid(end.state, placement.state);
                    assert(node_ok(rr, spawn, nodes@, paths, visited@, end.node as int));
                    lemma_count_marked_bound(visited@, GRID as nat);
                    if finishes@[gi as int] is None {
                        assert(rot_ok(rr, nodes@, finishes@, end.node as int));
                        lemma_node_last_action(rr, spawn, nodes@, paths, visited@, end.node as int);
                    }
                }
                let path = node_path(&nodes, end.node, Ghost(paths), Ghost(rr), Ghost(spawn), Ghost(visited@));
                let mut full_path = path;
                match end.final_movement {
                    Some(mv) => {
                        full_path.push(mv);
                        proof {
                            lemma_replay_push(rr, spawn, paths[end.node as int], mv);
                            assert(full_path@ =~= paths[end.node as int].push(mv));
                        }
                    },
                    None => {},
                }
                proof {
                    assert(replay(rr, spawn, full_path@) == Some(end.state));
                    assert(reachable(rr, spawn, end.state));
                }
                let ghost old_result = result@;
                result.push(GeometricPlacement { state: end.state, path: full_path, last_action: end.last_action });
                proof {
                    assert forall|i: int| 0 <= i < gi + 1 && #[trigger] placements@[i] is Some implies exists|k: int| 0 <= k < result@.len() && #[trigger] result@[k].state == placements@[i]->Some_0.state by {
                        if i < gi {
                            let k = choose|k: int| 0 <= k < old_result.len() && #[trigger] old_result[k].state == placements@[i]->Some_0.state;
                            assert(result@[k] == old_result[k]);
                        } else {
                            assert(result@[old_result.len() as int].state == placements@[i]->Some_0.state);
                        }
                    }
                }
            },
        }
        gi += 1;
    }
    proof {
        assert forall|p: PieceState| lock_target(rr, spawn, p) implies exists|k: int| 0 <= k < result@.len() && #[trigger] result@[k].state == p by {
            let n = visited@[grid_of(p)] - 1;
            assert(nodes@[n].state == p);
            assert(ground_ok(rr, nodes@, placements@, n));
            let i = grid_of(p);
            assert(slot_ok(rr, spawn, nodes@, placements@[i], i, false));
            let e = placements@[i]->Some_0;
            lemma_grid(e.state, p);
        }
    }
    result
}

#[verifier::rlimit(100)]
#[verifier::spinoff_prover]
fn explore_move(
    board: &Board,
    spawn: PieceState,
    head: usize,
    m: usize,
    visited: &mut Vec<usize>,
    nodes: &mut Vec<SearchNode>,
    placements: &mut Vec<Option<PathEnd>>,
    finishes: &mut Vec<Option<PathEnd>>,
    Ghost(paths): Ghost<Seq<Seq<Movement>>>,
) -> (res: Ghost<Seq<Seq<Movement>>>)
    requires
        board.wf(),
        !hits(board@.0, spawn),
        search_ok(board@.0, spawn, old(nodes)@, paths, old(visited)@, old(placements)@, old(finishes)@),
        head < old(nodes)@.len(),
        m < 6,
        forall|n: int, k: int| 0 <= n < head && 0 <= k < 6 ==> #[trigger] succ_ok(board@.0, old(nodes)@, old(visited)@, n, k),
        forall|k: int| 0 <= k < m ==> #[trigger] succ_ok(board@.0, old(nodes)@, old(visited)@, head as int, k),
        forall|n: int| 0 <= n <= head ==> #[trigger] ground_ok(board@.0, old(nodes)@, old(placements)@, n),
    ensures
        search_ok(board@.0, spawn, final(nodes)@, res@, final(visited)@, final(placements)@, final(finishes)@),
        final(nodes)@.len() >= old(nodes)@.len(),
        forall|n: int| 0 <= n < old(nodes)@.len() ==> final(nodes)@[n] == old(nodes)@[n],
        final(placements)@ == old(placements)@,
        forall|n: int, k: int| 0 <= n < head && 0 <= k < 6 ==> #[trigger] succ_ok(board@.0, final(nodes)@, final(visited)@, n, k),
        forall|k: int| 0 <= k <= m ==> #[trigger] succ_ok(board@.0, final(nodes)@, final(visited)@, head as int, k),
        forall|n: int| 0 <= n <= head ==> #[trigger] ground_ok(board@.0, final(nodes)@, final(placements)@, n),
{
    let ghost rr = board@.0;
    let ghost mut paths = paths;
    proof {
        assert(node_ok(rr, spawn, nodes@, paths, visited@, head as int));
    }
    let state = nodes[head].state;
    let movement = movement_at(m);
    match try_movement_with_action(board, state, movement) {
        None => {},
        Some((next, la)) => {
            proof {
                lemma_fits_bounds(rr, next);
            }
            let gi = grid_index(next);
            let is_rotation = match la {
                LastAction::Rotation { .. } => true,
                _ => false,
            };
            proof {
                lemma_rotation_action(rr, state, movement);
            }
            if is_rotation && try_movement(board, next, Movement::Down).is_none() {
                if finishes[gi].is_none() {
                    let ghost old_f = finishes@;
                    finishes.set(gi, Some(PathEnd { node: head, state: next, final_movement: Some(movement), last_action: la }));
                    proof {
                        lemma_finish_added(rr, spawn, nodes@, paths, visited@, placements@, old_f, finishes@, gi as int);
                    }
                }
            }
            if visited[gi] == 0 {
                let ghost old_visited = visited@;
                let ghost old_nodes = nodes@;
                let ghost old_paths = paths;
                let new_index = nodes.len();
                proof {
                    lemma_count_marked_bound(visited@, GRID as nat);
                    lemma_count_marked_update(visited@, gi as int, (new_index + 1) as usize, GRID as nat);
                }
                visited.set(gi, new_index + 1);
                nodes.push(SearchNode { state: next, parent: head, movement: Some(movement) });
                proof {
                    assert(node_ok(rr, spawn, old_nodes, old_paths, old_visited, head as int));
                    let np = paths[head as int].push(movement);
                    lemma_replay_push(rr, spawn, paths[head as int], movement);
                    assert(np.drop_last() =~= paths[head as int]);
                    paths = paths.push(np);
                    lemma_search_extend(rr, spawn, old_nodes, nodes@, old_paths, paths, old_visited, visited@, placements@, finishes@, gi as int, head as int, (new_index + 1) as usize);
                    assert forall|n: int, k: int| 0 <= n < head && 0 <= k < 6 implies #[trigger] succ_ok(rr, nodes@, visited@, n, k) by {
                        assert(succ_ok(rr, old_nodes, old_visited, n, k));
                        lemma_succ_mono(rr, old_nodes, nodes@, old_visited, visited@, n, k);
                    }
                    assert forall|k: int| 0 <= k < m implies #[trigger] succ_ok(rr, nodes@, visited@, head as int, k) by {
                        assert(succ_ok(rr, old_nodes, old_visited, head as int, k));
                        lemma_succ_mono(rr, old_nodes, nodes@, old_visited, visited@, head as int, k);
                    }
                    assert forall|n: int| 0 <= n <= head implies #[trigger] ground_ok(rr, nodes@, placements@, n) by {
                        assert(ground_ok(rr, old_nodes, placements@, n));
                    }
                }
            }
        },
    }
    proof {
        assert(succ_ok(rr, nodes@, visited@, head as int, m as int));
    }
    Ghost(paths)
}

proof fn lemma_finish_added(
    r: Seq<u16>,
    spawn: PieceState,
    nodes: Seq<SearchNode>,
    paths: Seq<Seq<Movement>>,
    visited: Seq<usize>,
    placements: Seq<Option<PathEnd>>,
    old_f: Seq<Option<PathEnd>>,
    finishes: Seq<Option<PathEnd>>,
    gi: int,
)
    requires
        search_ok(r, spawn, nodes, paths, visited, placements, old_f),
        0 <= gi < GRID,
        finishes == old_f.update(gi, finishes[gi]),
        slot_ok(r, spawn, nodes, finishes[gi], gi, true),
        finishes[gi] is Some,
    ensures
        search_ok(r, spawn, nodes, paths, visited, placements, finishes),
{
    assert forall|i: int| 0 <= i < GRID implies #[trigger] slot_ok(r, spawn, nodes, finishes[i], i, true) by {
        if i != gi {
            assert(slot_ok(r, spawn, nodes, old_f[i], i, true));
        }
    }
    assert forall|n: int| 0 <= n < nodes.len() implies #[trigger] rot_ok(r, nodes, finishes, n) by {
        assert(rot_ok(r, nodes, old_f, n));
        assert(node_ok(r, spawn, nodes, paths, visited, n));
        lemma_grid(nodes[n].state, nodes[n].state);
        if grid_of(nodes[n].state) != gi {
            assert(finishes[grid_of(nodes[n].state)] == old_f[grid_of(nodes[n].state)]);
        }
    }
}

proof fn lemma_rotation_action(r: Seq<u16>, p: PieceState, m: Movement)
    ensures
        movement_spec(r, p, m) matches Some(t) ==> ((t.1 is Rotation) == is_rotation_movement(Some(m))),
{
}

proof fn lemma_succ_mono(
    r: Seq<u16>,
    old_nodes: Seq<SearchNode>,
    nodes: Seq<SearchNode>,
    old_visited: Seq<usize>,
    visited: Seq<usize>,
    n: int,
    k: int,
)
    requires
        0 <= n < old_nodes.len(),
        old_nodes.len() <= nodes.len(),
        nodes[n] == old_nodes[n],
        old_visited.len() == visited.len(),
        forall|i: int| 0 <= i < visited.len() && old_visited[i] != 0 ==> visited[i] != 0,
        succ_ok(r, old_nodes, old_visited, n, k),
        movement_spec(r, old_nodes[n].state, movement_of_index(k)) matches Some(t) ==> 0 <= grid_of(t.0) < visited.len(),
    ensures
        succ_ok(r, nodes, visited, n, k),
{
}

#[verifier::rlimit(50)]
proof fn lemma_search_extend(
    r: Seq<u16>,
    spawn: PieceState,
    old_nodes: Seq<SearchNode>,
    nodes: Seq<SearchNode>,
    old_paths: Seq<Seq<Movement>>,
    paths: Seq<Seq<Movement>>,
    old_visited: Seq<usize>,
    visited: Seq<usize>,
    placements: Seq<Option<PathEnd>>,
    finishes: Seq<Option<PathEnd>>,
    gi: int,
    head: int,
    new_len: usize,
)
    requires
        search_ok(r, spawn, old_nodes, old_paths, old_visited, placements, finishes),
        new_len == nodes.len(),
        count_marked(visited, GRID as nat) == count_marked(old_visited, GRID as nat) + 1,
        0 <= head < old_nodes.len(),
        nodes == old_nodes.push(nodes.last()),
        paths == old_paths.push(paths.last()),
        0 <= gi < GRID,
        old_visited[gi] == 0,
        visited == old_visited.update(gi, new_len),
        grid_of(nodes.last().state) == gi,
        in_box(nodes.last().state),
        !hits(r, nodes.last().state),
        nodes.last().state.kind == spawn.kind,
        nodes.last().parent == head,
        nodes.last().movement == Some(paths.last().last()),
        paths.last().len() > 0,
        paths.last().drop_last() == old_paths[head],
        replay(r, spawn, paths.last()) == Some(nodes.last().state),
        is_rotation_movement(nodes.last().movement) && grounded(r, nodes.last().state) ==> finishes[gi] is Some,
    ensures
        search_ok(r, spawn, nodes, paths, visited, placements, finishes),
        forall|i: int| 0 <= i < visited.len() && old_visited[i] != 0 ==> visited[i] != 0,
{
    let len = nodes.len() as int;
    assert forall|n: int| 0 <= n < len implies #[trigger] node_ok(r, spawn, nodes, paths, visited, n) by {
        if n < len - 1 {
            assert(node_ok(r, spawn, old_nodes, old_paths, old_visited, n));
            assert(nodes[n] == old_nodes[n]);
            assert(paths[n] == old_paths[n]);
            if n > 0 {
                assert(paths[nodes[n].parent as int] == old_paths[nodes[n].parent as int]);
            }
            lemma_grid(nodes[n].state, nodes.last().state);
            assert(grid_of(nodes[n].state) != gi);
            assert(visited[grid_of(nodes[n].state)] == old_visited[grid_of(nodes[n].state)]);
        } else {
            assert(nodes[n] == nodes.last());
            assert(paths[n] == paths.last());
            assert(paths[head] == old_paths[head]);
            assert(visited[gi] == n + 1);
            assert(node_ok(r, spawn, old_nodes, old_paths, old_visited, head));
            assert(paths.last().len() == paths.last().drop_last().len() + 1);
            assert(head < old_nodes.len());
        }
    }
    assert forall|i: int| 0 <= i < GRID implies #[trigger] slot_back(nodes, visited, i) by {
        if i != gi {
            assert(slot_back(old_nodes, old_visited, i));
            if visited[i] != 0 {
                assert(nodes[visited[i] - 1] == old_nodes[visited[i] - 1]);
            }
        } else {
            assert(visited[i] - 1 == len - 1);
        }
    }
    assert forall|i: int| 0 <= i < GRID implies #[trigger] slot_ok(r, spawn, nodes, placements[i], i, false) by {
        assert(slot_ok(r, spawn, old_nodes, placements[i], i, false));
    }
    assert forall|i: int| 0 <= i < GRID implies #[trigger] slot_ok(r, spawn, nodes, finishes[i], i, true) by {
        assert(slot_ok(r, spawn, old_nodes, finishes[i], i, true));
    }
    assert forall|n: int| 0 <= n < len implies #[trigger] rot_ok(r, nodes, finishes, n) by {
        if n < len - 1 {
            assert(rot_ok(r, old_nodes, finishes, n));
        }
    }
}

proof fn lemma_count_zero(s: Seq<usize>, n: nat)
    requires
        n <= s.len(),
        forall|i: int| 0 <= i < n ==> s[i] == 0,
    ensures
        count_marked(s, n) == 0,
    decreases n,
{
    if n > 0 {
        lemma_count_zero(s, (n - 1) as nat);
    }
}

proof fn lemma_replay_push(r: Seq<u16>, spawn: PieceState, path: Seq<Movement>, m: Movement)
    ensures
        replay(r, spawn, path.push(m)) == (match replay(r, spawn, path) {
            Some(q) => match movement_spec(r, q, m) {
                Some(t) => Some(t.0),
                None => None,
            },
            None => None,
        }),
        path_last_action(r, spawn, path.push(m)) == (match replay(r, spawn, path) {
            Some(q) => match movement_spec(r, q, m) {
                Some(t) => t.1,
                None => LastAction::NoAction,
            },
            None => LastAction::NoAction,
        }),
{
    assert(path.push(m).drop_last() =~= path);
}

proof fn lemma_node_last_action(
    r: Seq<u16>,
    spawn: PieceState,
    nodes: Seq<SearchNode>,
    paths: Seq<Seq<Movement>>,
    visited: Seq<usize>,
    n: int,
)
    requires
        nodes_ok(r, spawn, nodes, paths, visited),
        0 <= n < nodes.len(),
    ensures
        !is_rotation_movement(nodes[n].movement) ==> action_for_movement(nodes[n].movement) == path_last_action(
            r,
            spawn,
            paths[n],
        ),
{
    assert(node_ok(r, spawn, nodes, paths, visited, n));
    if n > 0 {
        let p = nodes[n].parent as int;
        let m = paths[n].last();
        assert(paths[n] =~= paths[p].push(m));
        lemma_replay_push(r, spawn, paths[p], m);
    }
}

/// Every state reachable from the spawn lies in a closed visited set.
proof fn lemma_closed_reaches(
    r: Seq<u16>,
    spawn: PieceState,
    nodes: Seq<SearchNode>,
    paths: Seq<Seq<Movement>>,
    visited: Seq<usize>,
    path: Seq<Movement>,
)
    requires
        nodes_ok(r, spawn, nodes, paths, visited),
        forall|n: int, k: int| 0 <= n < nodes.len() && 0 <= k < 6 ==> #[trigger] succ_ok(r, nodes, visited, n, k),
        replay(r, spawn, path) is Some,
    ensures
        ({
            let p = replay(r, spawn, path)->Some_0;
            in_box(p) && visited[grid_of(p)] != 0 && visited[grid_of(p)] - 1 < nodes.len() && nodes[visited[grid_of(
                p,
            )] - 1].state == p
        }),
    decreases path.len(),
{
    let p = replay(r, spawn, path)->Some_0;
    assert(node_ok(r, spawn, nodes, paths, visited, 0));
    if path.len() == 0 {
        assert(visited[grid_of(nodes[0].state)] == 1);
        assert(slot_back(nodes, visited, grid_of(p)));
    } else {
        let prefix = path.drop_last();
        lemma_closed_reaches(r, spawn, nodes, paths, visited, prefix);
        let q = replay(r, spawn, prefix)->Some_0;
        let n = visited[grid_of(q)] - 1;
        let m = movement_index(path.last());
        assert(movement_of_index(m) == path.last());
        assert(succ_ok(r, nodes, visited, n, m));
        let k = visited[grid_of(p)] - 1;
        assert(slot_back(nodes, visited, grid_of(p)));
        assert(node_ok(r, spawn, nodes, paths, visited, k));
        assert(node_ok(r, spawn, nodes, paths, visited, n));
        lemma_movement_keeps_kind(r, q, path.last());
        lemma_grid(nodes[k].state, p);
    }
}

/// Every state a path replays to from a fitting start fits and keeps its kind.
pub proof fn lemma_replay_fits(r: Seq<u16>, start: PieceState, path: Seq<Movement>)
    requires
        !hits(r, start),
    ensures
        replay(r, start, path) matches Some(p) ==> !hits(r, p) && p.kind == start.kind,
    decreases path.len(),
{
    if path.len() > 0 {
        lemma_replay_fits(r, start, path.drop_last());
        if let Some(q) = replay(r, start, path.drop_last()) {
            lemma_movement_keeps_kind(r, q, path.last());
            crate::rotation::lemma_first_fit(r, q, rotation_direction_of(path.last()), 0);
        }
    }
}

/// A lock target fits the board and is a state of the spawned kind.
pub proof fn lemma_lock_target_fits(r: Seq<u16>, spawn: PieceState, p: PieceState)
    requires
        lock_target(r, spawn, p),
    ensures
        !hits(r, p),
        p.kind == spawn.kind,
{
    let path = choose|path: Seq<Movement>| #[trigger] replay(r, spawn, path) == Some(p);
    lemma_replay_fits(r, spawn, path);
}

proof fn lemma_movement_keeps_kind(r: Seq<u16>, p: PieceState, m: Movement)
    ensures
        movement_spec(r, p, m) matches Some(t) ==> t.0.kind == p.kind,
{
    crate::rotation::lemma_first_fit(r, p, rotation_direction_of(m), 0);
}

/// The path of a node, rebuilt by following parent links.
fn node_path(
    nodes: &Vec<SearchNode>,
    node: usize,
    Ghost(paths): Ghost<Seq<Seq<Movement>>>,
    Ghost(r): Ghost<Seq<u16>>,
    Ghost(spawn): Ghost<PieceState>,
    Ghost(visited): Ghost<Seq<usize>>,
) -> (res: Vec<Movement>)
    requires
        nodes_ok(r, spawn, nodes@, paths, visited),
        node < nodes@.len(),
    ensures
        res@ == paths[node as int],
{
    let mut reversed: Vec<Movement> = Vec::new();
    let mut cursor = node;
    proof {
        assert(paths[node as int] =~= paths[cursor as int] + reversed@.reverse());
    }
    loop
        invariant_except_break
            cursor < nodes@.len(),
            paths[node as int] == paths[cursor as int] + reversed@.reverse(),
        invariant
            nodes_ok(r, spawn, nodes@, paths, visited),
        ensures
            paths[node as int] == reversed@.reverse(),
        decreases cursor,
    {
        let n = nodes[cursor];
        proof {
            assert(node_ok(r, spawn, nodes@, paths, visited, cursor as int));
        }
        match n.movement {
            Some(mv) => {
                proof {
                    if cursor == 0 {
                        assert(false);
                    }
                    let p = n.parent as int;
                    assert(paths[cursor as int] =~= paths[p].push(mv));
                    assert(reversed@.push(mv).reverse() =~= seq![mv] + reversed@.reverse());
                    assert(paths[node as int] =~= paths[p] + reversed@.push(mv).reverse());
                }
                reversed.push(mv);
                cursor = n.parent;
            },
            None => {
                proof {
                    if cursor > 0 {
                        assert(nodes@[cursor as int].movement is Some);
                    }
                    assert(paths[cursor as int].len() == 0);
                    assert(paths[node as int] =~= reversed@.reverse());
                }
                break;
            },
        }
    }
    let mut path: Vec<Movement> = Vec::new();
    let mut i = reversed.len();
    while i > 0
        invariant
            i <= reversed@.len(),
            path@ == reversed@.subrange(i as int, reversed@.len() as int).reverse(),
        decreases i,
    {
        i -= 1;
        path.push(reversed[i]);
        assert(path@ =~= reversed@.subrange(i as int, reversed@.len() as int).reverse());
    }
    assert(reversed@.subrange(0, reversed@.len() as int) =~= reversed@);
    assert(path@ =~= reversed@.reverse());
    path
}

} // verus!
