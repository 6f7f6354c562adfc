use vstd::prelude::*;

verus! {

/// Bit `z` of a row word (bit 0 is column 0).
pub open spec fn bit_u(row: u16, z: u16) -> bool {
    ((row >> z) & 1u16) == 1u16
}

pub open spec fn bit(row: u16, x: int) -> bool {
    0 <= x < 16 && bit_u(row, x as u16)
}

/// Setting, clearing and testing one bit of a row word.
pub proof fn lemma_bit_set_clear(row: u16, x: u16, z: u16)
    by (bit_vector)
    requires
        x < 16,
        z < 16,
    ensures
        (((row | (1u16 << x)) >> z) & 1u16 == 1u16) == (z == x || ((row >> z) & 1u16) == 1u16),
        (((row & !(1u16 << x)) >> z) & 1u16 == 1u16) == (z != x && ((row >> z) & 1u16) == 1u16),
        ((row & (1u16 << x)) != 0u16) == (((row >> x) & 1u16) == 1u16),
{
}

/// Facts about rows restricted to the ten board columns.
pub proof fn lemma_row_width(row: u16, z: u16)
    by (bit_vector)
    requires
        z < 16,
    ensures
        ((row & !0x3ffu16) == 0u16) == (row < 1024u16),
        row < 1024u16 && z >= 10u16 ==> ((row >> z) & 1u16) != 1u16,
        row == 0u16 ==> ((row >> z) & 1u16) != 1u16,
        row == 0x3ffu16 && z < 10u16 ==> ((row >> z) & 1u16) == 1u16,
{
}

/// Subset relation between the garbage layer and occupancy under edits.
pub proof fn lemma_subset_edits(g: u16, r: u16, x: u16)
    by (bit_vector)
    requires
        x < 16,
        (g & !r) == 0u16,
    ensures
        (g & !(r | (1u16 << x))) == 0u16,
        ((g & !(1u16 << x)) & !(r & !(1u16 << x))) == 0u16,
        ((g | (1u16 << x)) & !(r | (1u16 << x))) == 0u16,
        ((g & !(1u16 << x)) & !r) == 0u16,
        r < 1024u16 && x < 10u16 ==> (r | (1u16 << x)) < 1024u16,
        r < 1024u16 ==> (r & !(1u16 << x)) < 1024u16,
        ((g >> x) & 1u16 == 1u16) ==> ((r >> x) & 1u16 == 1u16),
{
}

/// The garbage row with one hole.
pub proof fn lemma_garbage_row(h: u16, z: u16)
    by (bit_vector)
    requires
        h < 10,
        z < 16,
    ensures
        (0x3ffu16 & !(1u16 << h)) < 1024u16,
        (0x3ffu16 & !(1u16 << h)) != 0x3ffu16,
        (((0x3ffu16 & !(1u16 << h)) >> z) & 1u16 == 1u16) == (z < 10 && z != h),
{
}

} // verus!
