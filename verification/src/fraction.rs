//! Real numbers as quotients of integers, and rounding onto a protocol scale.

use vstd::prelude::*;

verus! {

/// The quotient `num / den`.
///
/// A zero denominator stands for a value without bound: above every number
/// where `num > 0`, below every number where `num < 0`, and no number at all
/// where `num == 0`.
#[derive(Clone, Copy, Debug)]
pub struct Fraction {
    pub num: i64,
    pub den: u64,
}

impl Fraction {
    /// The quotient is an ordinary number.
    pub open spec fn finite(&self) -> bool {
        self.den > 0
    }

    /// The ordinary number lies in the unit interval.
    pub open spec fn in_unit(&self) -> bool {
        self.den > 0 && 0 <= self.num <= self.den
    }

    /// `self <= other`, for ordinary numbers.
    pub open spec fn le(&self, other: Fraction) -> bool {
        self.num * other.den <= other.num * self.den
    }

    /// The value clamped into the unit interval, multiplied by `steps` and
    /// rounded to the nearest integer, halves upwards. No number gives 0.
    pub open spec fn steps_of(&self, steps: int) -> int {
        if self.den == 0 {
            if self.num > 0 {
                steps
            } else {
                0
            }
        } else if self.num <= 0 {
            0
        } else if self.num >= self.den {
            steps
        } else {
            (2 * steps * self.num + self.den) / (2 * self.den)
        }
    }

    /// Rounds the clamped value onto the scale `0..=steps`.
    pub fn to_steps(&self, steps: u16) -> (q: u16)
        ensures
            q == self.steps_of(steps as int),
            q <= steps,
    {
        if self.den == 0 {
            if self.num > 0 {
                steps
            } else {
                0
            }
        } else if self.num <= 0 {
            0
        } else if self.num as u64 >= self.den {
            steps
        } else {
            let n: u128 = self.num as u128;
            let d: u128 = self.den as u128;
            let s: u128 = steps as u128;
            proof {
                lemma_rounded_quotient_bound(n as int, d as int, s as int);
                assert(2 * s * n <= 2 * 65535 * 0x1_0000_0000_0000_0000) by (nonlinear_arith)
                    requires
                        0 <= s <= 65535,
                        0 <= n < 0x1_0000_0000_0000_0000,
                ;
            }
            let q: u128 = (2 * s * n + d) / (2 * d);
            q as u16
        }
    }
}

/// Rounding a number of the unit interval onto `0..=s` stays on the scale.
pub proof fn lemma_rounded_quotient_bound(n: int, d: int, s: int)
    by (nonlinear_arith)
    requires
        0 <= n < d,
        0 <= s,
    ensures
        0 <= (2 * s * n + d) / (2 * d) <= s,
{
    assert(2 * s * n + d < 2 * d * (s + 1)) by {
        assert(s * n <= s * d);
    }
}

/// Rounding onto a scale of `s` steps moves a number of the unit interval by
/// at most half a step: `|q / s - n / d| <= 1 / (2 s)`, stated without division.
pub proof fn lemma_round_trip(f: Fraction, s: int)
    requires
        f.in_unit(),
        0 < s,
    ensures
        -(f.den as int) <= 2 * (f.steps_of(s) * f.den - s * f.num) <= f.den,
{
    let n = f.num as int;
    let d = f.den as int;
    if n >= d {
        assert(n == d);
        assert(s * d - s * n == 0) by (nonlinear_arith)
            requires
                n == d,
        ;
    } else if n <= 0 {
        assert(0 * d - s * n == 0) by (nonlinear_arith)
            requires
                n == 0,
        ;
    } else {
        let a = 2 * s * n + d;
        let q = a / (2 * d);
        assert(q * (2 * d) <= a < (q + 1) * (2 * d)) by (nonlinear_arith)
            requires
                q == a / (2 * d),
                d > 0,
        ;
        assert(2 * (q * d - s * n) == q * (2 * d) - 2 * s * n) by (nonlinear_arith);
        assert((q + 1) * (2 * d) == q * (2 * d) + 2 * d) by (nonlinear_arith);
    }
}

/// Rounding onto a scale never reverses the order of two numbers.
pub proof fn lemma_steps_monotonic(a: Fraction, b: Fraction, s: int)
    requires
        a.finite(),
        b.finite(),
        a.le(b),
        0 <= s,
    ensures
        a.steps_of(s) <= b.steps_of(s),
{
    let na = a.num as int;
    let da = a.den as int;
    let nb = b.num as int;
    let db = b.den as int;
    if na <= 0 {
        if 0 < nb < db {
            lemma_rounded_quotient_bound(nb, db, s);
        }
    } else if nb >= db {
        if na < da {
            lemma_rounded_quotient_bound(na, da, s);
        }
    } else {
        // 0 < na, nb < db, and na * db <= nb * da
        assert(nb > 0 && na < da) by (nonlinear_arith)
            requires
                na > 0,
                da > 0,
                db > 0,
                nb < db,
                na * db <= nb * da,
        ;
        let qa = (2 * s * na + da) / (2 * da);
        let qb = (2 * s * nb + db) / (2 * db);
        assert(qa <= qb) by (nonlinear_arith)
            requires
                qa == (2 * s * na + da) / (2 * da),
                qb == (2 * s * nb + db) / (2 * db),
                da > 0,
                db > 0,
                s >= 0,
                na * db <= nb * da,
        {
            assert(qa * (2 * da) <= 2 * s * na + da);
            assert(2 * s * nb + db < (qb + 1) * (2 * db));
            if qa >= qb + 1 {
                assert((qb + 1) * (2 * da) <= qa * (2 * da));
                assert((qb + 1) * (2 * da) * db <= (2 * s * na + da) * db);
                assert((2 * s * nb + db) * da < (qb + 1) * (2 * db) * da);
                assert((qb + 1) * (2 * da) * db == (qb + 1) * (2 * db) * da);
                assert((2 * s * na + da) * db == 2 * s * (na * db) + da * db);
                assert((2 * s * nb + db) * da == 2 * s * (nb * da) + da * db);
                assert(s * (na * db) <= s * (nb * da));
            }
        }
    }
}

} // verus!
