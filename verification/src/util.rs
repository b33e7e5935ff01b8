//! Small integer helpers shared by the grid and the map.

use vstd::prelude::*;

verus! {

/// The quotient of `a` by `b`, rounded up.
pub open spec fn div_ceil_spec(a: int, b: int) -> int {
    (a + b - 1) / b
}

/// Whether cell `(i, j)` lies in the half-open rectangle `[i1, i2) x [j1, j2)`.
pub open spec fn inside_rectangle(i1: int, i2: int, j1: int, j2: int, i: int, j: int) -> bool {
    i1 <= i < i2 && j1 <= j < j2
}

/// Rounding up never falls below the exact quotient and overshoots it by less than one.
pub proof fn lemma_div_ceil_bounds(a: int, b: int)
    requires
        0 <= a,
        0 < b,
    ensures
        0 <= div_ceil_spec(a, b),
        (div_ceil_spec(a, b) - 1) * b < a || a == 0,
        a <= div_ceil_spec(a, b) * b,
        a / b <= div_ceil_spec(a, b) <= a / b + 1,
        div_ceil_spec(a, b) == if a % b == 0 { a / b } else { a / b + 1 },
{
    let q = a / b;
    let r = a % b;
    vstd::arithmetic::div_mod::lemma_fundamental_div_mod(a, b);
    vstd::arithmetic::div_mod::lemma_mod_bound(a, b);
    vstd::arithmetic::div_mod::lemma_div_pos_is_pos(a, b);
    assert(a == b * q + r);
    if r == 0 {
        // a + b - 1 == b * q + (b - 1)
        vstd::arithmetic::div_mod::lemma_fundamental_div_mod_converse(a + b - 1, b, q, b - 1);
    } else {
        // a + b - 1 == b * (q + 1) + (r - 1)
        assert(b * (q + 1) == b * q + b) by (nonlinear_arith);
        vstd::arithmetic::div_mod::lemma_fundamental_div_mod_converse(a + b - 1, b, q + 1, r - 1);
    }
    let c = div_ceil_spec(a, b);
    assert(c * b == b * c) by (nonlinear_arith);
    assert((c - 1) * b == b * c - b) by (nonlinear_arith);
    assert(b * (q + 1) == b * q + b) by (nonlinear_arith);
}

/// Divides `a` by `b` and rounds up.
pub fn div_ceil(a: u32, b: u32) -> (q: u32)
    requires
        b > 0,
    ensures
        q == div_ceil_spec(a as int, b as int),
{
    proof {
        lemma_div_ceil_bounds(a as int, b as int);
        vstd::arithmetic::div_mod::lemma_fundamental_div_mod(a as int, b as int);
        assert((a as int) / (b as int) <= (b as int) * ((a as int) / (b as int))) by (nonlinear_arith)
            requires
                b >= 1,
                (a as int) / (b as int) >= 0,
        ;
    }
    if a % b == 0 {
        a / b
    } else {
        a / b + 1
    }
}

/// Tells whether cell `(i, j)` lies in the half-open rectangle `[i1, i2) x [j1, j2)`.
pub fn is_inside_rectangle(i1: u32, i2: u32, j1: u32, j2: u32, i: u32, j: u32) -> (b: bool)
    ensures
        b == inside_rectangle(i1 as int, i2 as int, j1 as int, j2 as int, i as int, j as int),
{
    i1 <= i && i < i2 && j1 <= j && j < j2
}

} // verus!
