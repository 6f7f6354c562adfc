use vstd::prelude::*;
use vstd::string::*;
use vstd::arithmetic::div_mod::{lemma_mul_mod_noop_left, lemma_mul_mod_noop_right};
use crate::piece::{PieceKind, kind_index, kind_label, kind_text};

verus! {

pub const MINSTD_MODULUS: u64 = 2_147_483_647;
pub const MINSTD_MULTIPLIER: u64 = 16_807;

/// Client seed normalization: the seed modulo the prime, with a zero residue
/// replaced by the largest non-zero state.
pub open spec fn minstd_seed(seed: u64) -> u32 {
    let r = seed % 2_147_483_647u64;
    if r == 0 {
        2_147_483_646u32
    } else {
        r as u32
    }
}

pub open spec fn minstd_next(state: u32) -> u32 {
    ((state as int * MINSTD_MULTIPLIER) % (MINSTD_MODULUS as int)) as u32
}

/// Park-Miller MINSTD with explicit non-zero seed normalization.
#[derive(Clone, Copy, Debug, PartialEq, Eq, Structural)]
pub struct MinStd {
    state: u32,
}

/// The multiplier is invertible modulo the prime modulus, so a non-zero state
/// never steps to zero.
pub proof fn lemma_minstd_nonzero(s: int)
    requires
        1 <= s < MINSTD_MODULUS,
    ensures
        1 <= (s * MINSTD_MULTIPLIER) % (MINSTD_MODULUS as int) < MINSTD_MODULUS,
{
    let m = MINSTD_MODULUS as int;
    let a = MINSTD_MULTIPLIER as int;
    let inv = 1407677000int;
    assert((a * inv) % m == 1) by (nonlinear_arith)
        requires
            a == 16807,
            inv == 1407677000,
            m == 2147483647,
    ;
    if (s * a) % m == 0 {
        lemma_mul_mod_noop_left(s * a, inv, m);
        assert(((s * a) * inv) % m == 0);
        lemma_mul_mod_noop_right(s, a * inv, m);
        assert((s * (a * inv)) % m == (s * 1) % m);
        assert((s * a) * inv == s * (a * inv)) by (nonlinear_arith);
        assert(s % m == s);
    }
}

impl MinStd {
    pub closed spec fn state_spec(self) -> u32 {
        self.state
    }

    pub closed spec fn wf(self) -> bool {
        1 <= self.state < MINSTD_MODULUS
    }

    pub fn new(seed: u64) -> (r: Self)
        ensures
            r.state_spec() == minstd_seed(seed),
            r.wf(),
    {
        let residue = seed % MINSTD_MODULUS;
        let state = if residue == 0 {
            (MINSTD_MODULUS - 1) as u32
        } else {
            residue as u32
        };
        MinStd { state }
    }

    pub fn state(self) -> (r: u32)
        ensures
            r == self.state_spec(),
    {
        self.state
    }

    pub fn next_u31(&mut self) -> (r: u32)
        requires
            old(self).wf(),
        ensures
            final(self).wf(),
            r == final(self).state_spec(),
            r == minstd_next(old(self).state_spec()),
            1 <= r < MINSTD_MODULUS,
    {
        proof {
            lemma_minstd_nonzero(self.state as int);
        }
        self.state = ((self.state as u64) * MINSTD_MULTIPLIER % MINSTD_MODULUS) as u32;
        self.state
    }

    /// Uniform-style index below `upper_exclusive`, consuming one draw.
    pub fn index(&mut self, upper_exclusive: usize) -> (r: usize)
        requires
            old(self).wf(),
            0 < upper_exclusive <= 0xffff_ffff,
        ensures
            final(self).wf(),
            final(self).state_spec() == minstd_next(old(self).state_spec()),
            r as int == (final(self).state_spec() as int * upper_exclusive as int) / (MINSTD_MODULUS as int),
            r < upper_exclusive,
    {
        let next = self.next_u31();
        proof {
            assert((next as int) * (upper_exclusive as int) < 0x8000_0000int * 0x1_0000_0000int) by (nonlinear_arith)
                requires
                    next < 0x8000_0000int,
                    upper_exclusive <= 0xffff_ffffint,
            ;
        }
        let scaled = (next as u64) * (upper_exclusive as u64);
        proof {
            assert(scaled < MINSTD_MODULUS * upper_exclusive) by (nonlinear_arith)
                requires
                    scaled == next as int * upper_exclusive as int,
                    next < MINSTD_MODULUS,
                    upper_exclusive > 0,
            ;
        }
        (scaled / MINSTD_MODULUS) as usize
    }

    /// Bernoulli draw with probability `numerator / denominator`, consuming one
    /// draw whatever the outcome.
    pub fn chance(&mut self, numerator: u32, denominator: u32) -> (r: bool)
        requires
            old(self).wf(),
        ensures
            final(self).wf(),
            final(self).state_spec() == minstd_next(old(self).state_spec()),
            r == ((final(self).state_spec() as int) * (denominator as int) < (numerator as int)
                * MINSTD_MODULUS as int),
    {
        let next = self.next_u31();
        proof {
            assert((next as int) * (denominator as int) < 0x8000_0000int * 0x1_0000_0000int) by (nonlinear_arith)
                requires
                    next < 0x8000_0000int,
                    denominator <= 0xffff_ffffint,
            ;
            assert((numerator as int) * (MINSTD_MODULUS as int) < 0x8000_0000int * 0x1_0000_0000int) by (nonlinear_arith)
                requires
                    numerator <= 0xffff_ffffint,
            ;
        }
        (next as u64) * (denominator as u64) < (numerator as u64) * MINSTD_MODULUS
    }
}

/// The order contains each of the seven kinds exactly once.
pub open spec fn is_permutation_of_all(order: Seq<PieceKind>) -> bool {
    &&& order.len() == 7
    &&& forall|k: PieceKind| #[trigger] order.contains(k)
    &&& forall|i: int, j: int| 0 <= i < j < 7 ==> order[i] != order[j]
}

#[derive(Clone, Copy, Debug, PartialEq, Eq, Structural)]
pub enum BagOrderError {
    Duplicate(PieceKind),
    MissingPiece,
}

/// Deterministic 7-bag whose pre-shuffle order is supplied by a rules profile.
#[derive(Clone, Copy, Debug, PartialEq, Eq)]
pub struct SevenBag {
    rng: MinStd,
    base_order: [PieceKind; 7],
    bag: [PieceKind; 7],
    cursor: usize,
}

pub open spec fn swap_seq(s: Seq<PieceKind>, i: int, j: int) -> Seq<PieceKind> {
    s.update(i, s[j]).update(j, s[i])
}

/// Fisher-Yates over positions `index` down to 1, each swap partner drawn
/// from the generator: the final generator state and the shuffled bag.
pub open spec fn shuffle_from(state: u32, bag: Seq<PieceKind>, index: int) -> (u32, Seq<PieceKind>)
    decreases index,
{
    if index < 1 {
        (state, bag)
    } else {
        let next = minstd_next(state);
        let j = (next as int * (index + 1)) / (MINSTD_MODULUS as int);
        shuffle_from(next, swap_seq(bag, index, j), index - 1)
    }
}

/// Abstract bag state: generator state, base order, current bag, cursor.
pub type BagModel = (u32, Seq<PieceKind>, Seq<PieceKind>, int);

/// One draw: the bag state afterwards and the piece drawn.
pub open spec fn draw_model(m: BagModel) -> (BagModel, PieceKind) {
    if m.3 < 7 {
        ((m.0, m.1, m.2, m.3 + 1), m.2[m.3])
    } else {
        let (st, bag) = shuffle_from(m.0, m.1, 6);
        ((st, m.1, bag, 1), bag[0])
    }
}

/// `n` successive draws: the bag state afterwards and the pieces in order.
pub open spec fn draws_model(m: BagModel, n: nat) -> (BagModel, Seq<PieceKind>)
    decreases n,
{
    if n == 0 {
        (m, Seq::empty())
    } else {
        let (m1, k) = draw_model(m);
        let (m2, ks) = draws_model(m1, (n - 1) as nat);
        (m2, seq![k] + ks)
    }
}

/// Drawing `n + 1` pieces is drawing `n` and then one more.
pub proof fn lemma_draws_snoc(m: BagModel, n: nat)
    ensures
        draws_model(m, n + 1) == (
            draw_model(draws_model(m, n).0).0,
            draws_model(m, n).1.push(draw_model(draws_model(m, n).0).1),
        ),
        draws_model(m, n).1.len() == n,
    decreases n,
{
    if n > 0 {
        let (m1, k) = draw_model(m);
        lemma_draws_snoc(m1, (n - 1) as nat);
        assert(seq![k] + draws_model(m1, (n - 1) as nat).1.push(draw_model(draws_model(m1, (n - 1) as nat).0).1)
            =~= (seq![k] + draws_model(m1, (n - 1) as nat).1).push(draw_model(draws_model(m1, (n - 1) as nat).0).1));
    } else {
        let (m1, k) = draw_model(m);
        assert(draws_model(m1, 0).1 =~= Seq::<PieceKind>::empty());
        assert(seq![k] + Seq::<PieceKind>::empty() =~= Seq::<PieceKind>::empty().push(k));
    }
}

proof fn lemma_shuffle_keeps_all(state: u32, bag: Seq<PieceKind>, index: int)
    requires
        is_permutation_of_all(bag),
        index <= 6,
    ensures
        is_permutation_of_all(shuffle_from(state, bag, index).1),
    decreases index,
{
    if index >= 1 {
        let next = minstd_next(state);
        let m = MINSTD_MODULUS as int;
        let j = (next as int * (index + 1)) / m;
        assert(next < m);
        assert(0 <= j <= index) by (nonlinear_arith)
            requires
                0 <= next < m,
                1 <= index + 1 <= 7,
                m == 2_147_483_647,
                j == (next as int * (index + 1)) / m,
        ;
        lemma_swap_keeps_all(bag, index, j);
        lemma_shuffle_keeps_all(next, swap_seq(bag, index, j), index - 1);
    }
}

/// Later shuffle steps, which run over positions below six, leave position
/// six alone.
proof fn lemma_shuffle_keeps_last(state: u32, bag: Seq<PieceKind>, index: int)
    requires
        bag.len() == 7,
        index <= 5,
    ensures
        shuffle_from(state, bag, index).1[6] == bag[6],
        shuffle_from(state, bag, index).1.len() == 7,
    decreases index,
{
    if index >= 1 {
        let next = minstd_next(state);
        let m = MINSTD_MODULUS as int;
        let j = (next as int * (index + 1)) / m;
        assert(next < m);
        assert(0 <= j <= index) by (nonlinear_arith)
            requires
                0 <= next < m,
                1 <= index + 1 <= 6,
                m == 2_147_483_647,
                j == (next as int * (index + 1)) / m,
        ;
        lemma_shuffle_keeps_last(next, swap_seq(bag, index, j), index - 1);
    }
}

/// The generator state whose next output sends the first shuffle step's
/// partner to position `j`.
spec fn partner_state(j: int) -> u32 {
    if j == 0 {
        1407677000u32
    } else if j == 1 {
        1820147042u32
    } else if j == 2 {
        85133437u32
    } else if j == 3 {
        497603479u32
    } else if j == 4 {
        910073521u32
    } else if j == 5 {
        1322543563u32
    } else {
        1735013605u32
    }
}

spec fn partner_output(j: int) -> u32 {
    if j == 0 {
        1u32
    } else if j == 1 {
        306783379u32
    } else if j == 2 {
        613566757u32
    } else if j == 3 {
        920350135u32
    } else if j == 4 {
        1227133513u32
    } else if j == 5 {
        1533916891u32
    } else {
        1840700269u32
    }
}

/// Fisher-Yates reaches every order: the first shuffle step draws the last
/// slot's partner from all seven positions, the last slot itself included,
/// so for any base order and any position `j` some generator state puts the
/// piece at `j` in the last slot of the shuffled bag, and the bag is still a
/// permutation of the base order.
pub proof fn lemma_last_slot_takes_any_piece(bag: Seq<PieceKind>, j: int)
    requires
        bag.len() == 7,
        0 <= j < 7,
    ensures
        exists|state: u32|
            1 <= state < MINSTD_MODULUS && #[trigger] shuffle_from(state, bag, 6).1[6] == bag[j],
{
    let state = partner_state(j);
    let v = partner_output(j);
    assert(minstd_next(1407677000u32) == 1u32);
    assert(minstd_next(1820147042u32) == 306783379u32);
    assert(minstd_next(85133437u32) == 613566757u32);
    assert(minstd_next(497603479u32) == 920350135u32);
    assert(minstd_next(910073521u32) == 1227133513u32);
    assert(minstd_next(1322543563u32) == 1533916891u32);
    assert(minstd_next(1735013605u32) == 1840700269u32);
    assert(minstd_next(state) == v);
    assert((v as int * 7) / (MINSTD_MODULUS as int) == j) by {
        assert((1int * 7) / 2147483647 == 0);
        assert((306783379int * 7) / 2147483647 == 1);
        assert((613566757int * 7) / 2147483647 == 2);
        assert((920350135int * 7) / 2147483647 == 3);
        assert((1227133513int * 7) / 2147483647 == 4);
        assert((1533916891int * 7) / 2147483647 == 5);
        assert((1840700269int * 7) / 2147483647 == 6);
    }
    let swapped = swap_seq(bag, 6, j);
    assert(shuffle_from(state, bag, 6) == shuffle_from(v, swapped, 5));
    lemma_shuffle_keeps_last(v, swapped, 5);
    assert(swapped[6] == bag[j]);
    assert(1 <= state < MINSTD_MODULUS);
}

/// Drawing `a + b` pieces is drawing `a` and then `b` more.
proof fn lemma_draws_add(m: BagModel, a: nat, b: nat)
    ensures
        draws_model(m, a + b).0 == draws_model(draws_model(m, a).0, b).0,
        draws_model(m, a + b).1 == draws_model(m, a).1 + draws_model(draws_model(m, a).0, b).1,
        draws_model(m, a).1.len() == a,
    decreases a,
{
    if a == 0 {
        assert(draws_model(m, 0).1 + draws_model(m, b).1 =~= draws_model(m, b).1);
    } else {
        let (m1, k) = draw_model(m);
        lemma_draws_add(m1, (a - 1) as nat, b);
        assert((a - 1) as nat + b == (a + b - 1) as nat);
        assert(seq![k] + (draws_model(m1, (a - 1) as nat).1 + draws_model(draws_model(m1, (a - 1) as nat).0, b).1)
            =~= (seq![k] + draws_model(m1, (a - 1) as nat).1) + draws_model(draws_model(m1, (a - 1) as nat).0, b).1);
    }
}

/// From cursor `c`, the rest of the current bag is drawn in order.
proof fn lemma_draw_rest(m: BagModel, c: int)
    requires
        m.3 == c,
        0 <= c <= 7,
        m.2.len() == 7,
    ensures
        draws_model(m, (7 - c) as nat) == ((m.0, m.1, m.2, 7int), m.2.subrange(c, 7)),
    decreases 7 - c,
{
    if c < 7 {
        let m1 = (m.0, m.1, m.2, c + 1);
        lemma_draw_rest(m1, c + 1);
        assert(seq![m.2[c]] + m.2.subrange(c + 1, 7) =~= m.2.subrange(c, 7));
    } else {
        assert(m.2.subrange(7, 7) =~= Seq::<PieceKind>::empty());
    }
}

/// Seven draws from an exhausted bag are one fresh shuffle of the base order,
/// and leave the bag exhausted again.
proof fn lemma_one_bag(m: BagModel)
    requires
        m.3 == 7,
        is_permutation_of_all(m.1),
    ensures
        is_permutation_of_all(draws_model(m, 7).1),
        draws_model(m, 7).0.3 == 7,
        draws_model(m, 7).0.1 == m.1,
{
    let (st, bag) = shuffle_from(m.0, m.1, 6);
    lemma_shuffle_keeps_all(m.0, m.1, 6);
    let m1 = (st, m.1, bag, 1int);
    assert(draw_model(m) == (m1, bag[0]));
    lemma_draw_rest(m1, 1);
    assert(seq![bag[0]] + bag.subrange(1, 7) =~= bag);
}

proof fn lemma_whole_bags(m: BagModel, k: nat)
    requires
        m.3 == 7,
        is_permutation_of_all(m.1),
    ensures
        draws_model(m, 7 * k).0.3 == 7,
        draws_model(m, 7 * k).0.1 == m.1,
    decreases k,
{
    if k > 0 {
        lemma_whole_bags(m, (k - 1) as nat);
        lemma_draws_add(m, 7 * (k - 1) as nat, 7);
        assert(7 * (k - 1) as nat + 7 == 7 * k);
        lemma_one_bag(draws_model(m, 7 * (k - 1) as nat).0);
    }
}

/// The 7-bag law: starting from an exhausted bag (as every new bag is), the
/// pieces drawn at positions `7k` to `7k + 6` hold each of the seven kinds
/// exactly once, for every `k`.
pub proof fn lemma_each_seven_draws_are_one_bag(m: BagModel, k: nat)
    requires
        m.3 == 7,
        is_permutation_of_all(m.1),
    ensures
        draws_model(m, 7 * k + 7).1.len() == 7 * k + 7,
        is_permutation_of_all(draws_model(m, 7 * k + 7).1.subrange(7 * k as int, (7 * k + 7) as int)),
{
    lemma_whole_bags(m, k);
    lemma_draws_add(m, 7 * k, 7);
    let mk = draws_model(m, 7 * k).0;
    lemma_one_bag(mk);
    lemma_draws_add(mk, 7, 0);
    assert(draws_model(m, 7 * k + 7).1.subrange(7 * k as int, (7 * k + 7) as int) =~= draws_model(mk, 7).1);
}

proof fn lemma_swap_keeps_all(s: Seq<PieceKind>, i: int, j: int)
    requires
        is_permutation_of_all(s),
        0 <= i < 7,
        0 <= j < 7,
    ensures
        is_permutation_of_all(swap_seq(s, i, j)),
{
    let t = swap_seq(s, i, j);
    assert forall|k: PieceKind| #[trigger] t.contains(k) by {
        assert(s.contains(k));
        let p = choose|p: int| 0 <= p < s.len() && s[p] == k;
        if p == i {
            assert(t[j] == k);
        } else if p == j {
            if i == j {
                assert(t[j] == k);
            } else {
                assert(t[i] == k);
            }
        } else {
            assert(t[p] == k);
        }
    }
    assert forall|a: int, b: int| 0 <= a < b < 7 implies t[a] != t[b] by {
        let sa = if a == i { s[j] } else if a == j { s[i] } else { s[a] };
        let sb = if b == i { s[j] } else if b == j { s[i] } else { s[b] };
        assert(t[a] == sa);
        assert(t[b] == sb);
        if i == j {
            assert(t =~= s);
        }
    }
}

impl SevenBag {
    pub closed spec fn wf(&self) -> bool {
        &&& self.rng.wf()
        &&& self.cursor <= 7
        &&& is_permutation_of_all(self.base_order@)
        &&& is_permutation_of_all(self.bag@)
    }

    pub closed spec fn base_spec(&self) -> Seq<PieceKind> {
        self.base_order@
    }

    /// The current shuffled bag and the position of the next piece in it.
    pub closed spec fn bag_spec(&self) -> Seq<PieceKind> {
        self.bag@
    }

    pub closed spec fn cursor_spec(&self) -> int {
        self.cursor as int
    }

    pub closed spec fn rng_spec(&self) -> MinStd {
        self.rng
    }

    pub closed spec fn model(&self) -> BagModel {
        (self.rng.state, self.base_order@, self.bag@, self.cursor as int)
    }

    pub proof fn lemma_model(&self)
        ensures
            self.model() == (self.rng_spec().state_spec(), self.base_spec(), self.bag_spec(), self.cursor_spec()),
    {
    }

    /// Every well-formed bag holds each of the seven kinds exactly once.
    pub proof fn lemma_bag_is_permutation(&self)
        requires
            self.wf(),
        ensures
            is_permutation_of_all(self.bag_spec()),
            is_permutation_of_all(self.base_spec()),
            0 <= self.cursor_spec() <= 7,
    {
    }

    pub fn new(seed: u64) -> (r: Self)
        ensures
            r.wf(),
            r.base_spec() == PieceKind::all_spec(),
            r.rng_spec().state_spec() == minstd_seed(seed),
            r.cursor_spec() == 7,
    {
        let order = PieceKind::all();
        proof {
            PieceKind::lemma_all_is_permutation();
        }
        match Self::with_order(seed, order) {
            Ok(b) => b,
            Err(_) => {
                proof {
                    assert(false);
                }
                SevenBag { rng: MinStd::new(seed), base_order: order, bag: order, cursor: 7 }
            },
        }
    }

    pub fn with_order(seed: u64, order: [PieceKind; 7]) -> (r: Result<Self, BagOrderError>)
        ensures
            r is Ok <==> is_permutation_of_all(order@),
            match r {
                Ok(b) => b.wf() && b.base_spec() == order@ && b.bag_spec() == order@ && b.cursor_spec() == 7
                    && b.rng_spec().state_spec() == minstd_seed(seed),
                Err(BagOrderError::Duplicate(k)) => exists|i: int, j: int|
                    0 <= i < j < 7 && order@[i] == k && order@[j] == k,
                Err(BagOrderError::MissingPiece) => !is_permutation_of_all(order@),
            },
    {
        validate_order(order)?;
        Ok(SevenBag { rng: MinStd::new(seed), base_order: order, bag: order, cursor: 7 })
    }

    pub fn rng_state(&self) -> (r: u32)
        ensures
            r == self.rng_spec().state_spec(),
    {
        self.rng.state()
    }

    pub fn base_order(&self) -> (r: &[PieceKind; 7])
        ensures
            r@ == self.base_spec(),
    {
        &self.base_order
    }

    /// Next piece; refills (Fisher-Yates over the base order) when exhausted.
    pub fn next_piece(&mut self) -> (r: PieceKind)
        requires
            old(self).wf(),
        ensures
            final(self).wf(),
            final(self).base_spec() == old(self).base_spec(),
            old(self).cursor_spec() < 7 ==> r == old(self).bag_spec()[old(self).cursor_spec()]
                && final(self).bag_spec() == old(self).bag_spec() && final(self).cursor_spec()
                == old(self).cursor_spec() + 1 && final(self).rng_spec() == old(self).rng_spec(),
            old(self).cursor_spec() == 7 ==> r == final(self).bag_spec()[0] && final(self).cursor_spec() == 1,
            (final(self).model(), r) == draw_model(old(self).model()),
    {
        if self.cursor == 7 {
            self.refill();
        }
        let piece = self.bag[self.cursor];
        self.cursor += 1;
        piece
    }

    fn refill(&mut self)
        requires
            old(self).wf(),
        ensures
            final(self).wf(),
            final(self).base_order == old(self).base_order,
            final(self).cursor == 0,
            (final(self).rng.state, final(self).bag@) == shuffle_from(old(self).rng.state, old(self).base_order@, 6),
    {
        self.bag = self.base_order;
        let ghost target = shuffle_from(old(self).rng.state, old(self).base_order@, 6);
        let mut index: usize = 6;
        while index >= 1
            invariant
                self.rng.wf(),
                index <= 6,
                is_permutation_of_all(self.bag@),
                is_permutation_of_all(self.base_order@),
                self.base_order == old(self).base_order,
                self.cursor == old(self).cursor,
                shuffle_from(self.rng.state, self.bag@, index as int) == target,
            decreases index,
        {
            let swap_with = self.rng.index(index + 1);
            let a = self.bag[index];
            let b = self.bag[swap_with];
            proof {
                lemma_swap_keeps_all(self.bag@, index as int, swap_with as int);
            }
            self.bag[index] = b;
            self.bag[swap_with] = a;
            index -= 1;
        }
        self.cursor = 0;
    }
}

fn validate_order(order: [PieceKind; 7]) -> (r: Result<(), BagOrderError>)
    ensures
        r is Ok <==> is_permutation_of_all(order@),
        match r {
            Ok(_) => true,
            Err(BagOrderError::Duplicate(k)) => exists|i: int, j: int|
                0 <= i < j < 7 && order@[i] == k && order@[j] == k,
            Err(BagOrderError::MissingPiece) => !is_permutation_of_all(order@),
        },
{
    let mut seen: u8 = 0;
    let mut i: usize = 0;
    proof {
        assert forall|k: int| 0 <= k < 7 implies !seen_has(0u8, k) by {
            lemma_seen_full_bv(0u8, k as u8);
        }
    }
    while i < 7
        invariant
            i <= 7,
            seen < 128,
            forall|k: int| 0 <= k < 7 ==> (seen_has(seen, k) <==> exists|p: int| 0 <= p < i && kind_index(#[trigger] order@[p]) == k),
            forall|p: int, q: int| 0 <= p < q < i ==> order@[p] != order@[q],
        decreases 7 - i,
    {
        let piece = order[i];
        let idx = piece.index();
        proof {
            lemma_seen_bits(seen, idx as u8);
        }
        let bit = 1u8 << idx as u8;
        if seen & bit != 0 {
            proof {
                let p = choose|p: int| 0 <= p < i && kind_index(#[trigger] order@[p]) == idx as int;
                lemma_kind_index_injective(order@[p], piece);
                assert(order@[p] == piece);
            }
            return Err(BagOrderError::Duplicate(piece));
        }
        let ghost old_seen = seen;
        seen = seen | bit;
        proof {
            assert forall|k: int| 0 <= k < 7 implies (seen_has(seen, k) <==> exists|p: int|
                0 <= p < i + 1 && kind_index(#[trigger] order@[p]) == k) by {
                lemma_seen_bit_k(old_seen, idx as u8, k as u8);
                assert(seen == old_seen | (1u8 << (idx as u8)));
                if k == idx as int {
                    assert(kind_index(order@[i as int]) == k);
                } else if seen_has(old_seen, k) {
                    let p = choose|p: int| 0 <= p < i && kind_index(#[trigger] order@[p]) == k;
                    assert(0 <= p < i + 1 && kind_index(order@[p]) == k);
                }
                if exists|p: int| 0 <= p < i + 1 && kind_index(#[trigger] order@[p]) == k {
                    let p = choose|p: int| 0 <= p < i + 1 && kind_index(#[trigger] order@[p]) == k;
                    if p < i {
                        assert(seen_has(old_seen, k));
                    }
                }
            }
            assert forall|p: int, q: int| 0 <= p < q < i + 1 implies order@[p] != order@[q] by {
                if q == i && order@[p] == order@[q] {
                    assert(kind_index(order@[p]) == idx as int);
                }
            }
        }
        i += 1;
    }
    proof {
        lemma_seen_bits(seen, 0);
    }
    if seen != 0x7f {
        proof {
            if is_permutation_of_all(order@) {
                assert forall|k: int| 0 <= k < 7 implies seen_has(seen, k) by {
                    let kind = kind_of_index(k);
                    assert(order@.contains(kind));
                    let p = choose|p: int| 0 <= p < 7 && order@[p] == kind;
                    assert(kind_index(order@[p]) == k);
                }
                lemma_seen_full(seen);
            }
        }
        return Err(BagOrderError::MissingPiece);
    }
    proof {
        lemma_seen_full(seen);
        assert forall|kind: PieceKind| #[trigger] order@.contains(kind) by {
            assert(seen_has(seen, kind_index(kind)));
            let p = choose|p: int| 0 <= p < 7 && kind_index(#[trigger] order@[p]) == kind_index(kind);
            lemma_kind_index_injective(order@[p], kind);
        }
    }
    Ok(())
}

pub open spec fn seen_has(seen: u8, k: int) -> bool {
    0 <= k < 8 && ((seen >> (k as u8)) & 1u8) == 1u8
}

proof fn lemma_seen_bits(seen: u8, b: u8)
    requires
        b < 7,
        seen < 128,
    ensures
        (seen & (1u8 << b)) != 0 <==> seen_has(seen, b as int),
        (seen | (1u8 << b)) < 128,
        forall|k: int| 0 <= k < 7 ==> (seen_has(seen | (1u8 << b), k) <==> (seen_has(seen, k) || k == b)),
        seen_has(seen, 7) == false,
{
    lemma_seen_bits_bv(seen, b);
    assert forall|k: int| 0 <= k < 7 implies (seen_has(seen | (1u8 << b), k) <==> (seen_has(seen, k) || k
        == b)) by {
        lemma_seen_bit_k(seen, b, k as u8);
    }
}

proof fn lemma_seen_bits_bv(seen: u8, b: u8)
    by (bit_vector)
    requires
        b < 7,
        seen < 128,
    ensures
        ((seen & (1u8 << b)) != 0u8) == (((seen >> b) & 1u8) == 1u8),
        (seen | (1u8 << b)) < 128u8,
        ((seen >> 7u8) & 1u8) != 1u8,
{
}

proof fn lemma_seen_bit_k(seen: u8, b: u8, k: u8)
    by (bit_vector)
    requires
        b < 7,
        k < 7,
    ensures
        ((((seen | (1u8 << b)) >> k) & 1u8) == 1u8) == ((((seen >> k) & 1u8) == 1u8) || k == b),
{
}

proof fn lemma_seen_full(seen: u8)
    requires
        seen < 128,
    ensures
        seen == 0x7f <==> (forall|k: int| 0 <= k < 7 ==> seen_has(seen, k)),
{
    if seen == 0x7f {
        assert forall|k: int| 0 <= k < 7 implies seen_has(seen, k) by {
            lemma_seen_full_bv(seen, k as u8);
        }
    } else {
        lemma_seen_full_bv(seen, 0);
        if forall|k: int| 0 <= k < 7 ==> seen_has(seen, k) {
            assert(seen_has(seen, 0) && seen_has(seen, 1) && seen_has(seen, 2) && seen_has(seen, 3)
                && seen_has(seen, 4) && seen_has(seen, 5) && seen_has(seen, 6));
        }
    }
}

proof fn lemma_seen_full_bv(seen: u8, k: u8)
    by (bit_vector)
    requires
        seen < 128u8,
    ensures
        seen == 0x7fu8 && k < 7 ==> ((seen >> k) & 1u8) == 1u8,
        seen == 0u8 ==> ((seen >> k) & 1u8) != 1u8,
        ((seen >> 0u8) & 1u8) == 1u8 && ((seen >> 1u8) & 1u8) == 1u8 && ((seen >> 2u8) & 1u8) == 1u8
            && ((seen >> 3u8) & 1u8) == 1u8 && ((seen >> 4u8) & 1u8) == 1u8 && ((seen >> 5u8) & 1u8)
            == 1u8 && ((seen >> 6u8) & 1u8) == 1u8 ==> seen == 0x7fu8,
{
}

pub open spec fn kind_of_index(k: int) -> PieceKind {
    if k == 0 {
        PieceKind::I
    } else if k == 1 {
        PieceKind::J
    } else if k == 2 {
        PieceKind::L
    } else if k == 3 {
        PieceKind::O
    } else if k == 4 {
        PieceKind::S
    } else if k == 5 {
        PieceKind::T
    } else {
        PieceKind::Z
    }
}

pub proof fn lemma_kind_index_injective(a: PieceKind, b: PieceKind)
    ensures
        kind_index(a) == kind_index(b) ==> a == b,
        0 <= kind_index(a) < 7,
        kind_of_index(kind_index(a)) == a,
{
}

impl BagOrderError {
    /// The message as text.
    pub open spec fn text(&self) -> Seq<char> {
        match self {
            BagOrderError::Duplicate(k) => "bag order contains duplicate "@ + kind_text(*k),
            BagOrderError::MissingPiece => "bag order does not contain all seven pieces"@,
        }
    }

    /// Human-readable description of the error.
    pub fn message(&self) -> (r: String)
        ensures
            r@ == self.text(),
    {
        match self {
            BagOrderError::Duplicate(k) => {
                let mut s = String::from_str("bag order contains duplicate ");
                s.append(kind_label(*k));
                s
            },
            BagOrderError::MissingPiece => String::from_str("bag order does not contain all seven pieces"),
        }
    }
}

} // verus!
