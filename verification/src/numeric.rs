//! Integer helpers shared by the schedulers.
use vstd::arithmetic::div_mod::{
    lemma_fundamental_div_mod, lemma_fundamental_div_mod_converse, lemma_mod_bound,
};
use vstd::prelude::*;

verus! {

/// The larger of two integers.
pub open spec fn larger(a: int, b: int) -> int {
    if a < b {
        b
    } else {
        a
    }
}

/// `n`, held down to the largest `usize`.
pub open spec fn clamped(n: int) -> int {
    if n > usize::MAX {
        usize::MAX as int
    } else {
        n
    }
}

/// The product of two counts, held down to the largest `usize`.
pub fn saturating_product(a: usize, b: usize) -> (r: usize)
    ensures
        r == clamped(a * b),
        a * b <= usize::MAX ==> r == a * b,
        a * b > usize::MAX ==> r == usize::MAX,
{
    match a.checked_mul(b) {
        Some(product) => product,
        None => usize::MAX,
    }
}

/// The larger of two integers is one of them and below neither.
pub proof fn lemma_larger(a: int, b: int)
    ensures
        larger(a, b) >= a,
        larger(a, b) >= b,
        larger(a, b) == a || larger(a, b) == b,
{
}

/// Holding down changes only what is too large, and gives the largest number that is not.
pub proof fn lemma_clamped(n: int, m: int)
    ensures
        clamped(n) <= usize::MAX,
        clamped(n) <= n,
        m <= n && m <= usize::MAX ==> m <= clamped(n),
{
}

/// Going from `m` to its successor, the remainder by `d` grows by one and the quotient stays, or
/// the remainder wraps to zero and the quotient grows by one.
pub proof fn lemma_successor_div_mod(m: int, d: int)
    requires
        d > 0,
    ensures
        0 <= m % d < d,
        m % d == d - 1 ==> (m + 1) % d == 0 && (m + 1) / d == m / d + 1,
        m % d != d - 1 ==> (m + 1) % d == m % d + 1 && (m + 1) / d == m / d,
{
    let q = m / d;
    let r = m % d;
    lemma_fundamental_div_mod(m, d);
    lemma_mod_bound(m, d);
    if r == d - 1 {
        assert(m + 1 == (q + 1) * d) by (nonlinear_arith)
            requires
                m == d * q + r,
                r == d - 1,
        ;
        lemma_fundamental_div_mod_converse(m + 1, d, q + 1, 0);
    } else {
        assert(m + 1 == q * d + (r + 1)) by (nonlinear_arith)
            requires
                m == d * q + r,
        ;
        lemma_fundamental_div_mod_converse(m + 1, d, q, r + 1);
    }
}

} // verus!
