use engine_core::{BagOrderError, MinStd, PieceKind, SevenBag, TETRIO_7_BAG_ORDER};
use std::collections::BTreeSet;

#[test]
fn minstd_is_reproducible_and_nonzero() {
    let mut first = MinStd::new(0);
    let mut second = MinStd::new(0);
    for _ in 0..100 {
        assert_eq!(first.next_u31(), second.next_u31());
        assert_ne!(first.state(), 0);
    }
}

#[test]
fn each_chunk_is_a_permutation() {
    let mut bag = SevenBag::new(42);
    for _ in 0..32 {
        let chunk = (0..7).map(|_| bag.next_piece()).collect::<BTreeSet<_>>();
        assert_eq!(chunk, BTreeSet::from(PieceKind::ALL));
    }
}

#[test]
fn same_seed_has_same_sequence() {
    let mut first = SevenBag::new(7);
    let mut second = SevenBag::new(7);
    let left = (0..100).map(|_| first.next_piece()).collect::<Vec<_>>();
    let right = (0..100).map(|_| second.next_piece()).collect::<Vec<_>>();
    assert_eq!(left, right);
}

#[test]
fn duplicate_order_is_rejected() {
    let invalid = [PieceKind::I; 7];
    assert_eq!(SevenBag::with_order(1, invalid), Err(BagOrderError::Duplicate(PieceKind::I)));
}

#[test]
fn replacing_a_piece_reports_the_duplicate() {
    let mut order = TETRIO_7_BAG_ORDER;
    order[6] = PieceKind::Z;
    assert_eq!(SevenBag::with_order(1, order), Err(BagOrderError::Duplicate(PieceKind::Z)));
}

#[test]
fn minstd_seed_and_first_draw_have_exact_values() {
    let mut rng = MinStd::new(0);
    assert_eq!(rng.state(), 2_147_483_646);
    assert_eq!(rng.next_u31(), 2_147_466_840);
    let mut wrapped = MinStd::new(2_147_483_647 + 1);
    assert_eq!(wrapped.state(), 1);
    assert_eq!(wrapped.next_u31(), 16_807);
    assert_eq!(MinStd::new(12_345).state(), 12_345);
    let mut index = MinStd::new(1);
    assert_eq!(index.index(7), (16_807u64 * 7 / 2_147_483_647) as usize);
}
