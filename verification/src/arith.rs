//! Integer square root and small division facts.
//!
//! The gradient-magnitude kernels take the square root of a sum of squares,
//! and the threshold derivation takes the square root of a variance. Both
//! use the truncated integer square root defined here.

use vstd::prelude::*;

verus! {

/// The truncated integer square root: the largest `r` with `r * r <= n`.
pub open spec fn isqrt(n: nat) -> nat
    decreases n,
{
    if n == 0 {
        0
    } else {
        let r = isqrt((n - 1) as nat);
        if (r + 1) * (r + 1) <= n {
            r + 1
        } else {
            r
        }
    }
}

pub proof fn lemma_isqrt_bounds(n: nat)
    ensures
        isqrt(n) * isqrt(n) <= n,
        n < (isqrt(n) + 1) * (isqrt(n) + 1),
    decreases n,
{
    if n == 0 {
        assert(isqrt(0) == 0);
        assert(isqrt(n) * isqrt(n) <= n);
        assert((isqrt(n) + 1) * (isqrt(n) + 1) == 1) by (nonlinear_arith)
            requires
                isqrt(n) == 0,
        ;
    } else {
        lemma_isqrt_bounds((n - 1) as nat);
        let r = isqrt((n - 1) as nat);
        if (r + 1) * (r + 1) <= n {
            assert(isqrt(n) == r + 1);
            assert(n == (r + 1) * (r + 1));
            assert(n < (r + 2) * (r + 2)) by (nonlinear_arith)
                requires
                    n == (r + 1) * (r + 1),
            ;
        } else {
            assert(isqrt(n) == r);
        }
    }
}

pub proof fn lemma_isqrt_unique(n: nat, r: nat)
    requires
        r * r <= n,
        n < (r + 1) * (r + 1),
    ensures
        r == isqrt(n),
{
    lemma_isqrt_bounds(n);
    let s = isqrt(n);
    assert(r == s) by (nonlinear_arith)
        requires
            r * r <= n < (r + 1) * (r + 1),
            s * s <= n < (s + 1) * (s + 1),
    ;
}

/// The square root of a perfect square.
pub proof fn lemma_isqrt_square(r: nat)
    ensures
        isqrt(r * r) == r,
{
    assert(r * r < (r + 1) * (r + 1)) by (nonlinear_arith);
    lemma_isqrt_unique(r * r, r);
}

/// Monotonicity of the integer square root.
pub proof fn lemma_isqrt_ordered(m: nat, n: nat)
    requires
        m <= n,
    ensures
        isqrt(m) <= isqrt(n),
{
    lemma_isqrt_bounds(m);
    lemma_isqrt_bounds(n);
    assert(isqrt(m) <= isqrt(n)) by (nonlinear_arith)
        requires
            isqrt(m) * isqrt(m) <= m <= n,
            n < (isqrt(n) + 1) * (isqrt(n) + 1),
    ;
}

/// Executable integer square root, by binary search.
pub fn isqrt_u128(n: u128) -> (r: u64)
    requires
        n < 0x1_0000_0000_0000_0000_0000_0000_0000_00,  // 2^120
    ensures
        r == isqrt(n as nat),
{
    let mut lo: u64 = 0;
    let mut hi: u64 = 0x1000_0000_0000_0000;  // 2^60
    proof {
        assert((0x1000_0000_0000_0000 as int) * (0x1000_0000_0000_0000 as int)
            == 0x1_0000_0000_0000_0000_0000_0000_0000_00 as int) by (nonlinear_arith);
    }
    while lo + 1 < hi
        invariant
            lo < hi,
            hi <= 0x1000_0000_0000_0000,
            (lo as int) * (lo as int) <= n as int,
            (n as int) < (hi as int) * (hi as int),
        decreases hi - lo,
    {
        let mid = lo + (hi - lo) / 2;
        proof {
            assert((mid as int) * (mid as int) <= 0x1_0000_0000_0000_0000_0000_0000_0000_00)
                by (nonlinear_arith)
                requires
                    0 <= mid as int <= 0x1000_0000_0000_0000,
            ;
        }
        if (mid as u128) * (mid as u128) <= n {
            lo = mid;
        } else {
            hi = mid;
        }
    }
    proof {
        lemma_isqrt_unique(n as nat, lo as nat);
    }
    lo
}

/// A quotient of a bounded dividend is bounded: `0 <= x <= len * b` gives
/// `0 <= x / len <= b`.
pub proof fn lemma_div_bound(x: int, len: int, b: int)
    requires
        len > 0,
        0 <= x,
        x <= len * b,
    ensures
        0 <= x / len <= b,
{
    assert(0 <= x / len <= b) by (nonlinear_arith)
        requires
            len > 0,
            0 <= x,
            x <= len * b,
    ;
}

/// The row and column of a row-major index into a `w x h` grid.
pub proof fn lemma_grid_index(j: int, w: int, h: int)
    requires
        w >= 0,
        0 <= j < w * h,
    ensures
        w > 0,
        0 <= j / w < h,
        0 <= j % w < w,
{
    assert(w > 0 && h > 0) by (nonlinear_arith)
        requires
            0 <= j < w * h,
            w >= 0,
    ;
    vstd::arithmetic::div_mod::lemma_fundamental_div_mod(j, w);
    vstd::arithmetic::div_mod::lemma_remainder_lower(j, w);
    vstd::arithmetic::div_mod::lemma_remainder_upper(j, w);
    vstd::arithmetic::div_mod::lemma_div_pos_is_pos(j, w);
    assert(j / w < h) by (nonlinear_arith)
        requires
            j == w * (j / w) + (j % w),
            0 <= j % w < w,
            0 <= j / w,
            j < w * h,
    ;
}

/// Truncated division is superadditive, and loses at most one per addition.
pub proof fn lemma_div_sum_bounds(a: int, b: int, t: int)
    requires
        a >= 0,
        b >= 0,
        t > 0,
    ensures
        a / t + b / t <= (a + b) / t,
        (a + b) / t <= a / t + b / t + 1,
{
    vstd::arithmetic::div_mod::lemma_fundamental_div_mod(a, t);
    vstd::arithmetic::div_mod::lemma_fundamental_div_mod(b, t);
    vstd::arithmetic::div_mod::lemma_div_pos_is_pos(a, t);
    vstd::arithmetic::div_mod::lemma_div_pos_is_pos(b, t);
    vstd::arithmetic::div_mod::lemma_remainder_lower(a, t);
    vstd::arithmetic::div_mod::lemma_remainder_upper(a, t);
    vstd::arithmetic::div_mod::lemma_remainder_lower(b, t);
    vstd::arithmetic::div_mod::lemma_remainder_upper(b, t);
    let q = a / t + b / t;
    let r = a % t + b % t;
    assert(a + b == q * t + r) by (nonlinear_arith)
        requires
            a == t * (a / t) + a % t,
            b == t * (b / t) + b % t,
            q == a / t + b / t,
            r == a % t + b % t,
    ;
    if r < t {
        vstd::arithmetic::div_mod::lemma_fundamental_div_mod_converse(a + b, t, q, r);
    } else {
        assert(a + b == (q + 1) * t + (r - t)) by (nonlinear_arith)
            requires
                a + b == q * t + r,
    ;
        vstd::arithmetic::div_mod::lemma_fundamental_div_mod_converse(a + b, t, q + 1, r - t);
    }
}

/// The sum of a sequence of samples.
pub open spec fn sum_seq(s: Seq<i64>) -> int
    decreases s.len(),
{
    if s.len() == 0 {
        0
    } else {
        sum_seq(s.drop_last()) + s.last()
    }
}

/// The sum of squared deviations of a sequence of samples from `m`.
pub open spec fn sum_sq_dev(s: Seq<i64>, m: int) -> int
    decreases s.len(),
{
    if s.len() == 0 {
        0
    } else {
        sum_sq_dev(s.drop_last(), m) + (s.last() - m) * (s.last() - m)
    }
}

/// Elementwise bounds give bounds on the sum.
pub proof fn lemma_sum_seq_bounds(s: Seq<i64>, lo: int, hi: int)
    requires
        forall|i: int| 0 <= i < s.len() ==> lo <= #[trigger] s[i] <= hi,
    ensures
        s.len() * lo <= sum_seq(s) <= s.len() * hi,
    decreases s.len(),
{
    if s.len() == 0 {
    } else {
        lemma_sum_seq_bounds(s.drop_last(), lo, hi);
        let n = s.len() as int;
        assert((n - 1) * lo + lo == n * lo && (n - 1) * hi + hi == n * hi) by (nonlinear_arith);
    }
}

/// Every element of a nonnegative sequence is at most the sum.
pub proof fn lemma_sum_seq_elem(s: Seq<i64>, k: int)
    requires
        0 <= k < s.len(),
        forall|i: int| 0 <= i < s.len() ==> 0 <= #[trigger] s[i],
    ensures
        s[k] <= sum_seq(s),
    decreases s.len(),
{
    if k + 1 == s.len() {
        lemma_sum_seq_bounds(s.drop_last(), 0, i64::MAX as int);
        assert(s.drop_last().len() * 0 == 0) by (nonlinear_arith);
    } else {
        lemma_sum_seq_elem(s.drop_last(), k);
    }
}

/// The sum of a constant sequence.
pub proof fn lemma_sum_seq_const(s: Seq<i64>, v: int)
    requires
        forall|i: int| 0 <= i < s.len() ==> #[trigger] s[i] == v,
    ensures
        sum_seq(s) == s.len() * v,
    decreases s.len(),
{
    if s.len() == 0 {
    } else {
        lemma_sum_seq_const(s.drop_last(), v);
        let n = s.len() as int;
        assert((n - 1) * v + v == n * v) by (nonlinear_arith);
    }
}

/// The squared deviations of a constant sequence from its own value sum to 0.
pub proof fn lemma_sum_sq_dev_const(s: Seq<i64>, m: int)
    requires
        forall|i: int| 0 <= i < s.len() ==> #[trigger] s[i] == m,
    ensures
        sum_sq_dev(s, m) == 0,
    decreases s.len(),
{
    if s.len() == 0 {
    } else {
        lemma_sum_sq_dev_const(s.drop_last(), m);
        assert((s.last() - m) * (s.last() - m) == 0) by (nonlinear_arith)
            requires
                s.last() - m == 0,
        ;
    }
}


} // verus!
