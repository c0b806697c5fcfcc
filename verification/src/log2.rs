//! The integer logarithm to the base two.

use vstd::arithmetic::power2::{
    lemma2_to64, lemma_pow2_pos, lemma_pow2_strictly_increases, lemma_pow2_unfold, pow2,
};
use vstd::prelude::*;

verus! {

/// The exponent of the largest power of two that does not exceed `n`, for
/// `n > 0`; zero for `n == 0`.
pub open spec fn floor_log2(n: nat) -> nat
    decreases n,
{
    if n <= 1 {
        0
    } else {
        1 + floor_log2(n / 2)
    }
}

/// `floor_log2(n)` is the one exponent `e` with `2^e <= n < 2^(e+1)`.
pub proof fn lemma_floor_log2_bounds(n: nat)
    requires
        n > 0,
    ensures
        pow2(floor_log2(n)) <= n < pow2(floor_log2(n) + 1),
    decreases n,
{
    lemma2_to64();
    if n > 1 {
        lemma_floor_log2_bounds(n / 2);
        lemma_pow2_unfold(floor_log2(n / 2) + 1);
        lemma_pow2_unfold(floor_log2(n / 2) + 2);
    }
}

/// An exponent whose power of two brackets `n` is `floor_log2(n)`.
pub proof fn lemma_floor_log2_unique(n: nat, e: nat)
    requires
        pow2(e) <= n < pow2(e + 1),
    ensures
        floor_log2(n) == e,
{
    lemma_pow2_pos(e);
    lemma_floor_log2_bounds(n);
    let f = floor_log2(n);
    if f < e {
        if f + 1 < e {
            lemma_pow2_strictly_increases(f + 1, e);
        }
    } else if e < f {
        if e + 1 < f {
            lemma_pow2_strictly_increases(e + 1, f);
        }
    }
}

/// A power of two is at most `n` exactly when its exponent is at most
/// `floor_log2(n)`.
pub proof fn lemma_floor_log2_compare(n: nat, e: nat)
    requires
        n > 0,
    ensures
        pow2(e) <= n <==> e <= floor_log2(n),
{
    lemma_floor_log2_bounds(n);
    let f = floor_log2(n);
    if e < f {
        lemma_pow2_strictly_increases(e, f);
    } else if f + 1 < e {
        lemma_pow2_strictly_increases(f + 1, e);
    }
}

} // verus!
