//! Wrap-around coordinates: any integer is folded into a grid dimension.

use vstd::prelude::*;

verus! {

/// The mathematical modulus of `value` by `base`: the one `r` in
/// `[0, base)` that differs from `value` by a multiple of `base`.
pub open spec fn wrap(value: int, base: int) -> int
    recommends
        base > 0,
{
    value % base
}

/// Folds `value` into `[0, base)`, also when `value` is negative.
pub fn modulus(value: i32, base: i32) -> (r: i32)
    requires
        base > 0,
    ensures
        r == wrap(value as int, base as int),
        0 <= r < base,
{
    if value >= 0 {
        value % base
    } else {
        // value == -(k + 1) with k >= 0, so both operands of `%` are non-negative.
        let k: i32 = -(value + 1);
        let m: i32 = k % base;
        proof {
            let b = base as int;
            let q = (k as int) / b;
            vstd::arithmetic::div_mod::lemma_fundamental_div_mod(k as int, b);
            assert(value as int == (-q - 1) * b + (b - 1 - m)) by (nonlinear_arith)
                requires
                    k as int == b * q + (m as int),
                    value as int == -(k as int) - 1,
            ;
            vstd::arithmetic::div_mod::lemma_fundamental_div_mod_converse_mod(
                value as int,
                b,
                -q - 1,
                b - 1 - m,
            );
        }
        base - 1 - m
    }
}

} // verus!
