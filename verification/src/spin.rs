use vstd::prelude::*;
use crate::bits::lemma_bit_set_clear;
use crate::board::{Board, blocked, hits, in_bounds, HEIGHT, WIDTH};
use crate::piece::{Orientation, PieceKind, PieceState};
use crate::rotation::RotationDirection;
use crate::timing::LastAction;

verus! {

#[derive(Clone, Copy, Debug, PartialEq, Eq, Structural)]
pub enum SpinMode {
    Disabled,
    AllMiniPlus,
}

/// Spin-classification parameters supplied by a versioned profile. Bit `n`
/// of the mask upgrades a three-corner T Mini produced by kick index `n` to Full.
#[derive(Clone, Copy, Debug, PartialEq, Eq, Structural)]
pub struct SpinRules {
    pub mode: SpinMode,
    pub t_full_kick_upgrade_mask: u16,
}

#[derive(Clone, Copy, Debug, PartialEq, Eq, Structural)]
pub enum SpinClassification {
    Mini,
    Full,
}

#[derive(Clone, Copy, Debug, PartialEq, Eq, Structural)]
pub struct SpinOutcome {
    pub piece: PieceKind,
    pub classification: SpinClassification,
    pub direction: RotationDirection,
    pub kick_index: u8,
}

impl SpinRules {
    pub fn disabled() -> (r: Self)
        ensures
            r == (SpinRules { mode: SpinMode::Disabled, t_full_kick_upgrade_mask: 0 }),
    {
        SpinRules { mode: SpinMode::Disabled, t_full_kick_upgrade_mask: 0 }
    }

    /// All-Mini+ with the observed upgrade of a three-corner T Mini produced
    /// by kick index 3 to a full spin.
    pub fn all_mini_plus_observed() -> (r: Self)
        ensures
            r == (SpinRules { mode: SpinMode::AllMiniPlus, t_full_kick_upgrade_mask: 8 }),
    {
        SpinRules { mode: SpinMode::AllMiniPlus, t_full_kick_upgrade_mask: 8 }
    }
}

impl Default for SpinRules {
    fn default() -> (r: Self)
        ensures
            r == (SpinRules { mode: SpinMode::Disabled, t_full_kick_upgrade_mask: 0 }),
    {
        SpinRules::disabled()
    }
}

pub open spec fn shifted(p: PieceState, dx: int, dy: int) -> PieceState {
    PieceState { x: (p.x + dx) as i16, y: (p.y + dy) as i16, ..p }
}

/// No unit translation in any direction fits.
pub open spec fn immobile(r: Seq<u16>, p: PieceState) -> bool {
    hits(r, shifted(p, -1, 0)) && hits(r, shifted(p, 1, 0)) && hits(r, shifted(p, 0, -1)) && hits(
        r,
        shifted(p, 0, 1),
    )
}

/// The four diagonal corners around the T centre, in the order
/// top-left, top-right, bottom-left, bottom-right.
pub open spec fn corner(p: PieceState, i: int) -> (int, int) {
    let cx = p.x + 1;
    let cy = p.y + 1;
    if i == 0 {
        (cx - 1, cy + 1)
    } else if i == 1 {
        (cx + 1, cy + 1)
    } else if i == 2 {
        (cx - 1, cy - 1)
    } else {
        (cx + 1, cy - 1)
    }
}

pub open spec fn corner_count(r: Seq<u16>, p: PieceState) -> int {
    (if blocked(r, corner(p, 0)) { 1int } else { 0int }) + (if blocked(r, corner(p, 1)) { 1int } else { 0int })
        + (if blocked(r, corner(p, 2)) { 1int } else { 0int }) + (if blocked(r, corner(p, 3)) {
        1int
    } else {
        0int
    })
}

/// Both corners on the side the T points to.
pub open spec fn front_corners(r: Seq<u16>, p: PieceState) -> bool {
    match p.orientation {
        Orientation::Spawn => blocked(r, corner(p, 0)) && blocked(r, corner(p, 1)),
        Orientation::Right => blocked(r, corner(p, 1)) && blocked(r, corner(p, 3)),
        Orientation::Reverse => blocked(r, corner(p, 2)) && blocked(r, corner(p, 3)),
        Orientation::Left => blocked(r, corner(p, 0)) && blocked(r, corner(p, 2)),
    }
}

/// Whether board cell `c` is orthogonally next to cell `k` of the piece.
pub open spec fn touches_cell(p: PieceState, c: (int, int), k: int) -> bool {
    let l = crate::piece::local_cells(p.kind, p.orientation)[k];
    let x = p.x + l.0;
    let y = p.y + l.1;
    (c.0 == x && (c.1 == y + 1 || c.1 == y - 1)) || (c.1 == y && (c.0 == x + 1 || c.0 == x - 1))
}

/// How many cells of the piece are orthogonally next to board cell `c`.
pub open spec fn cells_touching(p: PieceState, c: (int, int)) -> int {
    (if touches_cell(p, c, 0) { 1int } else { 0int }) + (if touches_cell(p, c, 1) { 1int } else { 0int }) + (
    if touches_cell(p, c, 2) { 1int } else { 0int }) + (if touches_cell(p, c, 3) { 1int } else { 0int })
}

/// The front corners of a T are the two corners next to its nub: the
/// corners that touch two of the T's cells (the nub and a bar end), while a
/// back corner touches only a bar end. The front-corner test asks exactly
/// that both of these corners are blocked, and the four test corners are
/// the diagonal neighbours of the T's centre cell, which three of its cells
/// touch.
pub proof fn lemma_front_corners_are_beside_the_nub(r: Seq<u16>, p: PieceState)
    requires
        p.kind == PieceKind::T,
    ensures
        forall|i: int| 0 <= i < 4 ==> #[trigger] cells_touching(p, corner(p, i)) == 1 || cells_touching(p, corner(p, i)) == 2,
        front_corners(r, p) <==> forall|i: int|
            0 <= i < 4 && #[trigger] cells_touching(p, corner(p, i)) == 2 ==> blocked(r, corner(p, i)),
        cells_touching(p, (p.x + 1, p.y + 1)) == 3,
        forall|i: int|
            0 <= i < 4 ==> (#[trigger] corner(p, i).0 - (p.x + 1) == 1 || corner(p, i).0 - (p.x + 1) == -1) && (corner(
                p,
                i,
            ).1 - (p.y + 1) == 1 || corner(p, i).1 - (p.y + 1) == -1),
{
    assert(cells_touching(p, corner(p, 0)) + cells_touching(p, corner(p, 1)) + cells_touching(p, corner(p, 2)) + cells_touching(p, corner(p, 3)) == 6);
}

pub open spec fn upgrade_bit(kick_index: u8) -> u16 {
    if kick_index < 16 { (1u16 << (kick_index as u16)) } else { 0u16 }
}

pub open spec fn t_classification(r: Seq<u16>, p: PieceState, kick_index: u8, rules: SpinRules) -> Option<SpinClassification> {
    if corner_count(r, p) >= 3 {
        if front_corners(r, p) || (rules.t_full_kick_upgrade_mask & upgrade_bit(kick_index)) != 0 {
            Some(SpinClassification::Full)
        } else {
            Some(SpinClassification::Mini)
        }
    } else if immobile(r, p) {
        Some(SpinClassification::Mini)
    } else {
        None
    }
}

/// The T three-corner rule under All-Mini+: a T rotated into place with at
/// least three of its four centre corners blocked is a full spin when both
/// corners beside its nub are blocked and a mini otherwise (unless the kick
/// is upgraded); with fewer than three it is a mini only when it cannot move
/// one cell in any direction. A piece other than T that cannot move is a
/// mini, and one that can is no spin.
pub proof fn lemma_t_three_corner_rule(r: Seq<u16>, p: PieceState, direction: RotationDirection, kick_index: u8, rules: SpinRules)
    requires
        rules.mode != SpinMode::Disabled,
        rules.t_full_kick_upgrade_mask & upgrade_bit(kick_index) == 0,
    ensures
        ({
            let c = spin_spec(r, p, LastAction::Rotation { direction, kick_index }, rules);
            let blocked_corners = corner_count(r, p);
            let beside_nub = forall|i: int|
                0 <= i < 4 && #[trigger] cells_touching(p, corner(p, i)) == 2 ==> blocked(r, corner(p, i));
            &&& p.kind == PieceKind::T && blocked_corners >= 3 && beside_nub ==> c is Some
                && c->Some_0.classification == SpinClassification::Full
            &&& p.kind == PieceKind::T && blocked_corners >= 3 && !beside_nub ==> c is Some
                && c->Some_0.classification == SpinClassification::Mini
            &&& p.kind == PieceKind::T && blocked_corners < 3 ==> (c is Some <==> immobile(r, p))
            &&& p.kind != PieceKind::T ==> (c is Some <==> immobile(r, p))
            &&& p.kind != PieceKind::T && c is Some ==> c->Some_0.classification == SpinClassification::Mini
        }),
{
    if p.kind == PieceKind::T {
        lemma_front_corners_are_beside_the_nub(r, p);
    }
}

/// All-Mini+ spin classification of a locked piece.
pub open spec fn spin_spec(r: Seq<u16>, p: PieceState, last: LastAction, rules: SpinRules) -> Option<SpinOutcome> {
    if rules.mode == SpinMode::Disabled {
        None
    } else {
        match last {
            LastAction::Rotation { direction, kick_index } => {
                let c = if p.kind == PieceKind::T {
                    t_classification(r, p, kick_index, rules)
                } else if immobile(r, p) {
                    Some(SpinClassification::Mini)
                } else {
                    None
                };
                match c {
                    Some(classification) => Some(
                        SpinOutcome { piece: p.kind, classification, direction, kick_index },
                    ),
                    None => None,
                }
            },
            _ => None,
        }
    }
}

/// A spin needs a rotation as the last successful action and an enabled mode.
pub proof fn lemma_spin_requires_rotation(r: Seq<u16>, p: PieceState, last: LastAction, rules: SpinRules)
    ensures
        !(last is Rotation) ==> spin_spec(r, p, last, rules) is None,
        rules.mode == SpinMode::Disabled ==> spin_spec(r, p, last, rules) is None,
        spin_spec(r, p, last, rules) matches Some(o) ==> o.piece == p.kind && last == (LastAction::Rotation {
            direction: o.direction,
            kick_index: o.kick_index,
        }),
{
}

pub fn classify_spin(board: &Board, piece: PieceState, last_action: LastAction, rules: SpinRules) -> (r: Option<SpinOutcome>)
    requires
        board.wf(),
        piece.ok(),
    ensures
        r == spin_spec(board@.0, piece, last_action, rules),
{
    if rules.mode == SpinMode::Disabled {
        return None;
    }
    let (direction, kick_index) = match last_action {
        LastAction::Rotation { direction, kick_index } => (direction, kick_index),
        _ => {
            return None;
        },
    };
    let classification = if piece.kind == PieceKind::T {
        match classify_t_spin(board, piece, kick_index, rules) {
            Some(c) => c,
            None => {
                return None;
            },
        }
    } else if is_immobile(board, piece) {
        SpinClassification::Mini
    } else {
        return None;
    };
    Some(SpinOutcome { piece: piece.kind, classification, direction, kick_index })
}

fn classify_t_spin(board: &Board, piece: PieceState, kick_index: u8, rules: SpinRules) -> (r: Option<SpinClassification>)
    requires
        board.wf(),
        piece.ok(),
    ensures
        r == t_classification(board@.0, piece, kick_index, rules),
{
    let center_x = piece.x + 1;
    let center_y = piece.y + 1;
    let c0 = occupied_or_boundary(board, center_x - 1, center_y + 1);
    let c1 = occupied_or_boundary(board, center_x + 1, center_y + 1);
    let c2 = occupied_or_boundary(board, center_x - 1, center_y - 1);
    let c3 = occupied_or_boundary(board, center_x + 1, center_y - 1);
    let occupied_count = (c0 as u8) + (c1 as u8) + (c2 as u8) + (c3 as u8);
    assert(occupied_count == corner_count(board@.0, piece));
    if occupied_count >= 3 {
        let front = match piece.orientation {
            Orientation::Spawn => c0 && c1,
            Orientation::Right => c1 && c3,
            Orientation::Reverse => c2 && c3,
            Orientation::Left => c0 && c2,
        };
        let upgrade = if kick_index < 16 {
            1u16 << kick_index as u16
        } else {
            0u16
        };
        if front || rules.t_full_kick_upgrade_mask & upgrade != 0 {
            Some(SpinClassification::Full)
        } else {
            Some(SpinClassification::Mini)
        }
    } else if is_immobile(board, piece) {
        Some(SpinClassification::Mini)
    } else {
        None
    }
}

fn is_immobile(board: &Board, piece: PieceState) -> (r: bool)
    requires
        board.wf(),
        piece.ok(),
    ensures
        r == immobile(board@.0, piece),
{
    board.collides(piece.translated(-1, 0)) && board.collides(piece.translated(1, 0)) && board.collides(
        piece.translated(0, -1),
    ) && board.collides(piece.translated(0, 1))
}

fn occupied_or_boundary(board: &Board, x: i16, y: i16) -> (r: bool)
    requires
        board.wf(),
    ensures
        r == blocked(board@.0, (x as int, y as int)),
{
    if x < 0 || y < 0 {
        return true;
    }
    match board.is_occupied(x as usize, y as usize) {
        Some(v) => v,
        None => true,
    }
}

} // verus!
