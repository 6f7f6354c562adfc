//! A linear scorer over afterstate features with checked integer arithmetic.
use vstd::prelude::*;
use vstd::string::*;
use crate::features::FEATURE_COUNT;

verus! {

/// Dellacherie six-feature coefficients scaled to integer milli-units. The
/// landing-height coefficient is halved because the feature stores twice the
/// height.
pub const DELLACHERIE_SCALED_WEIGHTS: [i64; FEATURE_COUNT] = [
    -2_250,
    3_418,
    -3_218,
    -9_349,
    -7_899,
    -3_386,
    0,
    0,
    0,
    0,
];

/// Left-to-right checked accumulation of `w[i] * f[i]` over the first `n`
/// features; `None` once a product or a partial sum leaves `i64`.
pub open spec fn score_fold(w: Seq<i64>, f: Seq<i32>, n: nat) -> Option<int>
    decreases n,
{
    if n == 0 {
        Some(0)
    } else {
        match score_fold(w, f, (n - 1) as nat) {
            None => None,
            Some(s) => {
                let t = w[n - 1] * f[n - 1];
                if t < i64::MIN || t > i64::MAX {
                    None
                } else if s + t < i64::MIN || s + t > i64::MAX {
                    None
                } else {
                    Some(s + t)
                }
            },
        }
    }
}

/// The exact weighted sum of the first `n` features.
pub open spec fn weighted_sum(w: Seq<i64>, f: Seq<i32>, n: nat) -> int
    decreases n,
{
    if n == 0 {
        0
    } else {
        weighted_sum(w, f, (n - 1) as nat) + w[n - 1] * f[n - 1]
    }
}

#[derive(Clone, Copy, Debug, PartialEq, Eq, Structural)]
pub enum TeacherError {
    Overflow,
}

impl TeacherError {
    /// The message as text.
    pub open spec fn text(&self) -> Seq<char> {
        match self {
            TeacherError::Overflow => "linear teacher score overflowed i64"@,
        }
    }

    pub fn message(&self) -> (r: String)
        ensures
            r@ == self.text(),
    {
        String::from_str("linear teacher score overflowed i64")
    }
}

#[derive(Clone, Copy, Debug, PartialEq, Eq)]
pub struct LinearTeacher {
    weights: [i64; FEATURE_COUNT],
}

impl LinearTeacher {
    pub closed spec fn weight_seq(self) -> Seq<i64> {
        self.weights@
    }

    pub fn dellacherie_v1() -> (r: Self)
        ensures
            r.weight_seq() == DELLACHERIE_SCALED_WEIGHTS@,
    {
        LinearTeacher { weights: DELLACHERIE_SCALED_WEIGHTS }
    }

    pub fn weights(self) -> (r: [i64; FEATURE_COUNT])
        ensures
            r@ == self.weight_seq(),
    {
        self.weights
    }

    /// Weighted feature sum, or `Overflow` as soon as a product or a partial
    /// sum leaves `i64`.
    pub fn score(self, features: [i32; FEATURE_COUNT]) -> (r: Result<i64, TeacherError>)
        ensures
            match score_fold(self.weight_seq(), features@, FEATURE_COUNT as nat) {
                Some(v) => r == Ok::<i64, TeacherError>(v as i64),
                None => r == Err::<i64, TeacherError>(TeacherError::Overflow),
            },
    {
        let mut sum: i64 = 0;
        let mut i: usize = 0;
        while i < FEATURE_COUNT
            invariant
                i <= FEATURE_COUNT,
                self.weights@.len() == FEATURE_COUNT,
                features@.len() == FEATURE_COUNT,
                score_fold(self.weights@, features@, i as nat) == Some(sum as int),
            decreases FEATURE_COUNT - i,
        {
            let weight = self.weights[i];
            let value = features[i] as i64;
            let term = match weight.checked_mul(value) {
                Some(t) => t,
                None => {
                    proof {
                        lemma_fold_stays_none(self.weights@, features@, (i + 1) as nat, FEATURE_COUNT as nat);
                    }
                    return Err(TeacherError::Overflow);
                },
            };
            sum = match sum.checked_add(term) {
                Some(s) => s,
                None => {
                    proof {
                        lemma_fold_stays_none(self.weights@, features@, (i + 1) as nat, FEATURE_COUNT as nat);
                    }
                    return Err(TeacherError::Overflow);
                },
            };
            i += 1;
        }
        Ok(sum)
    }
}

proof fn lemma_fold_stays_none(w: Seq<i64>, f: Seq<i32>, m: nat, n: nat)
    requires
        m <= n,
        score_fold(w, f, m) is None,
    ensures
        score_fold(w, f, n) is None,
    decreases n,
{
    if m < n {
        lemma_fold_stays_none(w, f, m, (n - 1) as nat);
    }
}

/// A checked score that succeeds is the exact weighted sum.
pub proof fn lemma_fold_is_weighted_sum(w: Seq<i64>, f: Seq<i32>, n: nat)
    requires
        score_fold(w, f, n) is Some,
    ensures
        score_fold(w, f, n) == Some(weighted_sum(w, f, n)),
    decreases n,
{
    if n > 0 {
        lemma_fold_is_weighted_sum(w, f, (n - 1) as nat);
    }
}

proof fn lemma_weighted_sum_one_change(w: Seq<i64>, f: Seq<i32>, g: Seq<i32>, k: int, n: nat)
    requires
        0 <= k,
        forall|i: int| 0 <= i < n && i != k ==> f[i] == g[i],
    ensures
        weighted_sum(w, f, n) - weighted_sum(w, g, n) == if k < n {
            w[k] * f[k] - w[k] * g[k]
        } else {
            0
        },
    decreases n,
{
    if n > 0 {
        lemma_weighted_sum_one_change(w, f, g, k, (n - 1) as nat);
    }
}

/// Raising one feature whose weight is negative, with every other feature
/// unchanged, strictly lowers a score that succeeds both times: with the
/// Dellacherie weights, more buried holes never score higher.
pub proof fn lemma_negative_weight_prefers_lower(teacher: LinearTeacher, f: Seq<i32>, g: Seq<i32>, k: int)
    requires
        f.len() == FEATURE_COUNT,
        g.len() == FEATURE_COUNT,
        0 <= k < FEATURE_COUNT,
        teacher.weight_seq()[k] < 0,
        forall|i: int| 0 <= i < FEATURE_COUNT && i != k ==> f[i] == g[i],
        f[k] < g[k],
        score_fold(teacher.weight_seq(), f, FEATURE_COUNT as nat) is Some,
        score_fold(teacher.weight_seq(), g, FEATURE_COUNT as nat) is Some,
    ensures
        score_fold(teacher.weight_seq(), f, FEATURE_COUNT as nat)->0 > score_fold(
            teacher.weight_seq(),
            g,
            FEATURE_COUNT as nat,
        )->0,
{
    let w = teacher.weight_seq();
    lemma_fold_is_weighted_sum(w, f, FEATURE_COUNT as nat);
    lemma_fold_is_weighted_sum(w, g, FEATURE_COUNT as nat);
    lemma_weighted_sum_one_change(w, f, g, k, FEATURE_COUNT as nat);
    let wk = w[k] as int;
    let fk = f[k] as int;
    let gk = g[k] as int;
    assert(wk * fk - wk * gk > 0) by (nonlinear_arith)
        requires
            wk < 0,
            fk < gk,
    ;
}

} // verus!
