//! Numeric order on JSON numbers.
//!
//! A number is read as `sign * mag * 2^exp`; the order compares those exact
//! values, whatever the variant, so an integer and a scaled binary value
//! compare by magnitude, not by representation.

use crate::json::{num_wf, Number};
use vstd::arithmetic::power2::{
    lemma2_to64, lemma2_to64_rest, lemma_pow2_adds, lemma_pow2_strictly_increases, pow2,
};
use vstd::prelude::*;

verus! {

/// The sign of a number: -1, 0 or 1.
pub open spec fn num_sgn(n: Number) -> int {
    match n {
        Number::PosInt(m) => if m == 0 {
            0int
        } else {
            1int
        },
        Number::NegInt(i) => if i < 0 {
            -1int
        } else if i == 0 {
            0int
        } else {
            1int
        },
        Number::Binary(neg, m, _) => if m == 0 {
            0int
        } else if neg {
            -1int
        } else {
            1int
        },
    }
}

/// The magnitude's mantissa.
pub open spec fn num_mag(n: Number) -> nat {
    match n {
        Number::PosInt(m) => m as nat,
        Number::NegInt(i) => if i < 0 {
            (-(i as int)) as nat
        } else {
            i as nat
        },
        Number::Binary(_, m, _) => m as nat,
    }
}

/// The power-of-two scale.
pub open spec fn num_exp(n: Number) -> int {
    match n {
        Number::Binary(_, _, e) => e as int,
        _ => 0int,
    }
}

/// Whether the number is exactly zero.
pub open spec fn num_is_zero(n: Number) -> bool {
    num_sgn(n) == 0
}

/// Strict order on magnitudes `m1 * 2^e1 < m2 * 2^e2`, stated at the common
/// scale `min(e1, e2)`.
pub open spec fn mag_lt(m1: nat, e1: int, m2: nat, e2: int) -> bool {
    if e1 >= e2 {
        m1 * pow2((e1 - e2) as nat) < m2
    } else {
        m1 < m2 * pow2((e2 - e1) as nat)
    }
}

/// Strict numeric order on numbers.
pub open spec fn num_lt(a: Number, b: Number) -> bool {
    let sa = num_sgn(a);
    let sb = num_sgn(b);
    if sa != sb {
        sa < sb
    } else if sa == 0 {
        false
    } else if sa > 0 {
        mag_lt(num_mag(a), num_exp(a), num_mag(b), num_exp(b))
    } else {
        mag_lt(num_mag(b), num_exp(b), num_mag(a), num_exp(a))
    }
}

/// Non-strict numeric order on numbers.
pub open spec fn num_le(a: Number, b: Number) -> bool {
    !num_lt(b, a)
}

/// The number as an unsigned machine integer, the reading used by keywords
/// that count items, characters or properties.
pub open spec fn num_as_u64(n: Number) -> Option<u64> {
    match n {
        Number::PosInt(m) => Some(m),
        _ => None,
    }
}

impl Number {
    /// Whether the number is exactly zero, as a spec-level method.
    pub open spec fn spec_is_zero(&self) -> bool {
        num_is_zero(*self)
    }

    /// The number as an unsigned machine integer, as a spec-level method.
    pub open spec fn spec_as_u64(&self) -> Option<u64> {
        num_as_u64(*self)
    }

    /// Whether the number is exactly zero.
    #[verifier::when_used_as_spec(spec_is_zero)]
    pub fn is_zero(&self) -> (r: bool)
        ensures
            r == num_is_zero(*self),
    {
        match self {
            Number::PosInt(m) => *m == 0,
            Number::NegInt(i) => *i == 0,
            Number::Binary(_, m, _) => *m == 0,
        }
    }

    /// The number as an unsigned machine integer, if it is one.
    #[verifier::when_used_as_spec(spec_as_u64)]
    pub fn as_u64(&self) -> (r: Option<u64>)
        ensures
            r == num_as_u64(*self),
    {
        match self {
            Number::PosInt(m) => Some(*m),
            _ => None,
        }
    }
}

/// The canonical scaled-binary number for `(-1)^neg * mant * 2^exp`: the
/// mantissa is shifted down until it is odd, and zero collapses to the one
/// canonical zero.  The result is well-formed and stands for the same value:
/// its mantissa, scaled back down to `exp`, gives `mant` back.
pub fn normalized_binary(neg: bool, mant: u64, exp: i32) -> (r: Number)
    requires
        -1100 <= exp <= 1036,
    ensures
        num_wf(r),
        r is Binary,
        num_sgn(r) == (if mant == 0 {
            0int
        } else if neg {
            -1int
        } else {
            1int
        }),
        mant == 0 ==> r == Number::Binary(false, 0, 0),
        mant != 0 ==> num_exp(r) >= exp && num_mag(r) * pow2((num_exp(r) - exp) as nat)
            == mant as nat,
{
    if mant == 0 {
        return Number::Binary(false, 0, 0);
    }
    let mut m: u64 = mant;
    let mut e: i32 = exp;
    proof {
        lemma2_to64();
        assert(((e - exp) as nat) == 0);
        assert(m * pow2(0) == mant as nat) by (nonlinear_arith)
            requires
                m == mant,
                pow2(0) == 1,
        ;
    }
    while m % 2 == 0
        invariant
            -1100 <= exp <= 1036,
            1 <= m <= mant,
            mant != 0,
            exp <= e,
            e - exp < 64,
            m * pow2((e - exp) as nat) == mant as nat,
        decreases m,
    {
        proof {
            assert(pow2(((e + 1) - exp) as nat) == 2 * pow2((e - exp) as nat)) by {
                lemma_pow2_adds(1, (e - exp) as nat);
                lemma2_to64();
            }
            assert((m / 2) * pow2(((e + 1) - exp) as nat) == mant as nat) by (nonlinear_arith)
                requires
                    m % 2 == 0,
                    m * pow2((e - exp) as nat) == mant as nat,
                    pow2(((e + 1) - exp) as nat) == 2 * pow2((e - exp) as nat),
            ;
            assert((((e + 1) - exp) as nat) < 64) by {
                if (((e + 1) - exp) as nat) >= 64 {
                    lemma_pow2_strictly_increases(63, ((e + 1) - exp) as nat);
                    lemma2_to64_rest();
                    assert((m / 2) * pow2(((e + 1) - exp) as nat) >= pow2(
                        ((e + 1) - exp) as nat,
                    )) by (nonlinear_arith)
                        requires
                            m / 2 >= 1,
                            pow2(((e + 1) - exp) as nat) >= 0,
                    ;
                }
            }
        }
        m = m / 2;
        e = e + 1;
    }
    Number::Binary(neg, m, e)
}

/// `2^e` as a 128-bit integer.
fn pow2_u128(e: u64) -> (r: u128)
    requires
        e < 127,
    ensures
        r == pow2(e as nat),
{
    proof {
        lemma2_to64();
        lemma2_to64_rest();
        assert(pow2(126) == 0x40000000000000000000000000000000) by {
            lemma_pow2_adds(63, 63);
            assert(0x8000000000000000int * 0x8000000000000000int
                == 0x40000000000000000000000000000000int) by (nonlinear_arith);
        }
    }
    let mut r: u128 = 1;
    let mut k: u64 = 0;
    while k < e
        invariant
            0 <= k <= e < 127,
            r == pow2(k as nat),
            pow2(126) == 0x40000000000000000000000000000000,
        decreases e - k,
    {
        proof {
            assert(pow2((k + 1) as nat) == 2 * pow2(k as nat)) by {
                lemma_pow2_adds(1, k as nat);
                lemma2_to64();
            }
            if k + 1 < 126 {
                lemma_pow2_strictly_increases((k + 1) as nat, 126);
            }
            assert(2 * pow2(k as nat) <= pow2(126));
        }
        r = r * 2;
        k = k + 1;
    }
    r
}

/// Strict order on magnitudes, decided exactly with 128-bit arithmetic.
fn mag_lt_exec(m1: u64, e1: i64, m2: u64, e2: i64) -> (r: bool)
    requires
        -0x80000000 <= e1 <= 0x7fffffff,
        -0x80000000 <= e2 <= 0x7fffffff,
    ensures
        r == mag_lt(m1 as nat, e1 as int, m2 as nat, e2 as int),
{
    proof {
        lemma2_to64();
        lemma2_to64_rest();
    }
    if e1 >= e2 {
        let d = e1 - e2;
        if d >= 64 {
            proof {
                if m1 >= 1 {
                    if d > 64 {
                        lemma_pow2_strictly_increases(64, d as nat);
                    }
                    assert(m1 * pow2(d as nat) >= pow2(d as nat)) by (nonlinear_arith)
                        requires
                            m1 >= 1,
                            pow2(d as nat) >= 0,
                    ;
                } else {
                    assert(m1 * pow2(d as nat) == 0) by (nonlinear_arith)
                        requires
                            m1 == 0,
                    ;
                }
            }
            m1 == 0 && m2 > 0
        } else {
            let p = pow2_u128(d as u64);
            proof {
                assert(p == pow2(d as nat));
                assert(pow2(63) == 0x8000000000000000);
                assert(pow2(d as nat) <= pow2(63)) by {
                    if d < 63 {
                        lemma_pow2_strictly_increases(d as nat, 63);
                    }
                }
                assert((m1 as int) * (p as int) < 0x80000000000000000000000000000000) by (
                nonlinear_arith)
                    requires
                        (m1 as int) < 0x10000000000000000,
                        (p as int) <= 0x8000000000000000,
                ;
            }
            let lhs: u128 = (m1 as u128) * p;
            lhs < (m2 as u128)
        }
    } else {
        let d = e2 - e1;
        if d >= 64 {
            proof {
                if m2 >= 1 {
                    if d > 64 {
                        lemma_pow2_strictly_increases(64, d as nat);
                    }
                    assert(m2 * pow2(d as nat) >= pow2(d as nat)) by (nonlinear_arith)
                        requires
                            m2 >= 1,
                            pow2(d as nat) >= 0,
                    ;
                } else {
                    assert(m2 * pow2(d as nat) == 0) by (nonlinear_arith)
                        requires
                            m2 == 0,
                    ;
                }
            }
            m2 > 0
        } else {
            let p = pow2_u128(d as u64);
            proof {
                assert(p == pow2(d as nat));
                assert(pow2(63) == 0x8000000000000000);
                assert(pow2(d as nat) <= pow2(63)) by {
                    if d < 63 {
                        lemma_pow2_strictly_increases(d as nat, 63);
                    }
                }
                assert((m2 as int) * (p as int) < 0x80000000000000000000000000000000) by (
                nonlinear_arith)
                    requires
                        (m2 as int) < 0x10000000000000000,
                        (p as int) <= 0x8000000000000000,
                ;
            }
            let rhs: u128 = (m2 as u128) * p;
            (m1 as u128) < rhs
        }
    }
}

/// The magnitude and scale of a number.
fn num_mag_exec(n: &Number) -> (r: (u64, i64))
    ensures
        r.0 as nat == num_mag(*n),
        r.1 as int == num_exp(*n),
{
    match n {
        Number::PosInt(m) => (*m, 0),
        Number::NegInt(i) => {
            if *i < 0 {
                (((-(*i + 1)) as u64) + 1, 0)
            } else {
                (*i as u64, 0)
            }
        },
        Number::Binary(_, m, e) => (*m, *e as i64),
    }
}

/// The sign of a number as a machine integer.
pub fn num_sgn_exec(n: &Number) -> (r: i64)
    ensures
        r as int == num_sgn(*n),
{
    match n {
        Number::PosInt(m) => if *m == 0 {
            0
        } else {
            1
        },
        Number::NegInt(i) => if *i < 0 {
            -1
        } else if *i == 0 {
            0
        } else {
            1
        },
        Number::Binary(neg, m, _) => if *m == 0 {
            0
        } else if *neg {
            -1
        } else {
            1
        },
    }
}

/// Whether `a` is numerically smaller than `b`.
pub fn num_lt_exec(a: &Number, b: &Number) -> (r: bool)
    ensures
        r == num_lt(*a, *b),
{
    let sa = num_sgn_exec(a);
    let sb = num_sgn_exec(b);
    if sa != sb {
        sa < sb
    } else if sa == 0 {
        false
    } else {
        let (m1, e1) = num_mag_exec(a);
        let (m2, e2) = num_mag_exec(b);
        if sa > 0 {
            mag_lt_exec(m1, e1, m2, e2)
        } else {
            mag_lt_exec(m2, e2, m1, e1)
        }
    }
}

/// Whether `a` is numerically at most `b`.
pub fn num_le_exec(a: &Number, b: &Number) -> (r: bool)
    ensures
        r == num_le(*a, *b),
{
    !num_lt_exec(b, a)
}

} // verus!
