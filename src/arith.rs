//! Integer helpers shared by the geometry code.
use vstd::prelude::*;
use vstd::arithmetic::div_mod::lemma_fundamental_div_mod_converse;

verus! {

/// Division rounded towards negative infinity (what `/` means in specs).
pub fn floor_div(a: i128, b: i128) -> (r: i128)
    requires
        b > 0,
        a > i128::MIN + b,
    ensures
        r == a / b,
{
    if a >= 0 {
        a / b
    } else {
        let n: i128 = -a + b - 1;
        let q: i128 = n / b;
        proof {
            let rem = n % b;
            assert(n == q * b + rem) by (nonlinear_arith)
                requires
                    q == n / b,
                    rem == n % b,
                    b > 0,
            {
                vstd::arithmetic::div_mod::lemma_fundamental_div_mod(n as int, b as int);
            }
            assert(0 <= rem < b) by {
                vstd::arithmetic::div_mod::lemma_mod_bound(n as int, b as int);
            }
            assert(a == (-q) * b + (b - 1 - rem)) by (nonlinear_arith)
                requires
                    n == q * b + rem,
                    n == -a + b - 1,
            ;
            lemma_fundamental_div_mod_converse(a as int, b as int, -q, b - 1 - rem);
        }
        -q
    }
}

/// The remainder that goes with `floor_div`: always in `[0, m)`.
pub fn floor_mod(a: i64, m: i64) -> (r: i64)
    requires
        m > 0,
        a > i64::MIN,
    ensures
        r == a % m,
        0 <= r < m,
{
    if a >= 0 {
        proof {
            vstd::arithmetic::div_mod::lemma_mod_bound(a as int, m as int);
        }
        a % m
    } else {
        let n: i64 = -a;
        let t: i64 = n % m;
        proof {
            let q = n as int / m as int;
            vstd::arithmetic::div_mod::lemma_fundamental_div_mod(n as int, m as int);
            vstd::arithmetic::div_mod::lemma_mod_bound(n as int, m as int);
            assert(n == m * q + t);
            if t == 0 {
                assert(a == (-q) * m + 0) by (nonlinear_arith)
                    requires
                        n == m * q + t,
                        t == 0,
                        a == -n,
                ;
                lemma_fundamental_div_mod_converse(a as int, m as int, -q, 0);
            } else {
                assert(a == (-q - 1) * m + (m - t)) by (nonlinear_arith)
                    requires
                        n == m * q + t,
                        a == -n,
                ;
                lemma_fundamental_div_mod_converse(a as int, m as int, -q - 1, m - t);
            }
        }
        if t == 0 {
            0
        } else {
            m - t
        }
    }
}

/// Division of non-negative numbers rounded up.
pub open spec fn ceil_div(a: int, b: int) -> int {
    (a + b - 1) / b
}

/// A rounded-up quotient times the divisor overshoots by less than the divisor.
pub proof fn lemma_ceil_div_bound(a: int, b: int)
    requires
        a >= 0,
        b > 0,
    ensures
        0 <= ceil_div(a, b),
        a <= ceil_div(a, b) * b,
        ceil_div(a, b) * b < a + b,
{
    let n = a + b - 1;
    let q = n / b;
    let r = n % b;
    vstd::arithmetic::div_mod::lemma_fundamental_div_mod(n, b);
    vstd::arithmetic::div_mod::lemma_mod_bound(n, b);
    vstd::arithmetic::div_mod::lemma_div_pos_is_pos(n, b);
    assert(n == b * q + r);
    assert(q * b == b * q) by (nonlinear_arith);
}

} // verus!
