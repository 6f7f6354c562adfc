use vstd::prelude::*;
use crate::board::ClearedLines;
use crate::piece::PieceKind;
use crate::spin::SpinOutcome;

verus! {

/// Score-free description of the mechanics produced by one locked piece.
#[derive(Clone, Copy, Debug, PartialEq, Eq, Structural)]
pub struct ClearEvent {
    pub piece: PieceKind,
    pub lines: u8,
    pub spin: Option<SpinOutcome>,
    pub perfect_clear: bool,
}

impl ClearEvent {
    pub fn new(piece: PieceKind, lines: u8, spin: Option<SpinOutcome>, perfect_clear: bool) -> (r: Self)
        ensures
            r == (ClearEvent { piece, lines, spin, perfect_clear }),
    {
        ClearEvent { piece, lines, spin, perfect_clear }
    }

    pub fn from_lock(piece: PieceKind, cleared: ClearedLines, spin: Option<SpinOutcome>, perfect_clear: bool) -> (r: Self)
        requires
            cleared.wf(),
        ensures
            r == (ClearEvent { piece, lines: cleared@.len() as u8, spin, perfect_clear }),
            r.lines <= 4,
    {
        Self::new(piece, cleared.count(), spin, perfect_clear)
    }

    pub fn cleared_any(self) -> (r: bool)
        ensures
            r == (self.lines > 0),
    {
        self.lines > 0
    }
}

} // verus!
