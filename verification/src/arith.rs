//! Facts about division and remainder that the grid's index arithmetic needs.

use vstd::prelude::*;
use vstd::arithmetic::div_mod::{
    lemma_add_mod_noop, lemma_fundamental_div_mod, lemma_fundamental_div_mod_converse,
    lemma_mod_bound, lemma_mod_multiples_vanish, lemma_mod_twice, lemma_small_mod,
};

verus! {

/// A wrapped row and a wrapped column always name a slot inside a `w * h` buffer.
pub proof fn lemma_offset_in_bounds(w: int, h: int, x: int, y: int)
    requires
        w > 0,
        h > 0,
    ensures
        0 <= x % w < w,
        0 <= y % h < h,
        0 <= (y % h) * w <= (h - 1) * w,
        0 <= (y % h) * w + (x % w) < w * h,
{
    lemma_mod_bound(x, w);
    lemma_mod_bound(y, h);
    let r = y % h;
    assert(0 <= r * w <= (h - 1) * w && (h - 1) * w + w == w * h) by (nonlinear_arith)
        requires
            0 <= r < h,
            w > 0,
    ;
}

/// A linear offset below `w * h` splits into a column below `w` and a row below `h`,
/// and the split is exact.
pub proof fn lemma_offset_split(w: int, h: int, i: int)
    requires
        w > 0,
        h > 0,
        0 <= i < w * h,
    ensures
        0 <= i % w < w,
        0 <= i / w < h,
        (i / w) * w + i % w == i,
        (i % w) % w == i % w,
        (i / w) % h == i / w,
{
    lemma_mod_bound(i, w);
    lemma_fundamental_div_mod(i, w);
    let q = i / w;
    let r = i % w;
    assert(0 <= q < h && q * w + r == i) by (nonlinear_arith)
        requires
            w > 0,
            h > 0,
            0 <= i < w * h,
            0 <= r < w,
            i == w * q + r,
    ;
    lemma_small_mod(r as nat, w as nat);
    lemma_small_mod(q as nat, h as nat);
}

/// A column below `w` and a row below `h` join into a linear offset below
/// `w * h`, from which both can be read back.
pub proof fn lemma_offset_join(w: int, h: int, x: int, y: int)
    requires
        0 <= x < w,
        0 <= y < h,
    ensures
        0 <= y * w + x < w * h,
        (y * w + x) % w == x,
        (y * w + x) / w == y,
        x % w == x,
        y % h == y,
{
    assert(0 <= y * w + x < w * h && y * w == w * y) by (nonlinear_arith)
        requires
            0 <= x < w,
            0 <= y < h,
    ;
    lemma_fundamental_div_mod_converse(y * w + x, w, y, x);
    lemma_small_mod(x as nat, w as nat);
    lemma_small_mod(y as nat, h as nat);
}

/// Wrapping before or after adding an offset gives the same coordinate.
pub proof fn lemma_wrap_shift(x: int, d: int, m: int)
    requires
        m > 0,
    ensures
        (x + d) % m == ((x % m) + d) % m,
{
    lemma_add_mod_noop(x, d, m);
    lemma_add_mod_noop(x % m, d, m);
    lemma_mod_twice(x, m);
}

/// One step up from a wrapped coordinate: the last one wraps to zero.
pub proof fn lemma_wrap_succ(x: int, m: int)
    requires
        m > 0,
    ensures
        (x + 1) % m == if x % m == m - 1 { 0 } else { x % m + 1 },
{
    lemma_wrap_shift(x, 1, m);
    lemma_mod_bound(x, m);
    let t = x % m;
    if t == m - 1 {
        lemma_mod_multiples_vanish(1, 0, m);
        assert(m * 1 + 0 == t + 1);
        lemma_small_mod(0, m as nat);
    } else {
        lemma_small_mod((t + 1) as nat, m as nat);
    }
}

/// One step down from a wrapped coordinate: zero wraps to the last one.
pub proof fn lemma_wrap_pred(x: int, m: int)
    requires
        m > 0,
    ensures
        (x - 1) % m == if x % m == 0 { m - 1 } else { x % m - 1 },
{
    lemma_wrap_shift(x, -1, m);
    lemma_mod_bound(x, m);
    let t = x % m;
    if t == 0 {
        lemma_mod_multiples_vanish(-1, m - 1, m);
        assert(m * (-1) + (m - 1) == t + (-1));
        lemma_small_mod((m - 1) as nat, m as nat);
    } else {
        lemma_small_mod((t - 1) as nat, m as nat);
    }
}

/// Adding any whole number of periods does not move a wrapped coordinate.
pub proof fn lemma_wrap_period(x: int, k: int, m: int)
    requires
        m > 0,
    ensures
        (x + k * m) % m == x % m,
{
    lemma_mod_multiples_vanish(k, x, m);
    assert(m * k + x == x + k * m) by (nonlinear_arith);
}

} // verus!
