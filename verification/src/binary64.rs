//! IEEE 754 binary64 numbers, held as their bit patterns.
use vstd::prelude::*;
use vstd::arithmetic::power2::{
    lemma2_to64, lemma2_to64_rest, lemma_pow2_adds, lemma_pow2_pos, lemma_pow2_strictly_increases,
    lemma_pow2_unfold, pow2,
};

verus! {

/// A binary64 number: one sign bit, eleven exponent bits and fifty-two
/// fraction bits, from the most significant bit down.
#[derive(Clone, Copy, Debug, PartialEq, Eq, Structural)]
pub struct Binary64 {
    pub bits: u64,
}

/// The weight of the exponent field: two to the power fifty-two.
pub const FRACTION_SPAN: u64 = 0x10_0000_0000_0000;

/// The weight of the sign bit: two to the power sixty-three.
pub const SIGN_WEIGHT: u64 = 0x8000_0000_0000_0000;

/// The exponent field of infinities and of not-a-number patterns.
pub const EXPONENT_SPECIAL: u64 = 2047;

/// The bit pattern of the number one.
pub const ONE_BITS: u64 = 0x3FF0_0000_0000_0000;

impl Binary64 {
    /// The eleven exponent bits.
    pub open spec fn exponent(self) -> nat {
        (self.bits as nat / FRACTION_SPAN as nat) % 2048
    }

    /// The fifty-two fraction bits.
    pub open spec fn fraction(self) -> nat {
        self.bits as nat % FRACTION_SPAN as nat
    }

    /// Whether the sign bit is set.
    pub open spec fn negative(self) -> bool {
        self.bits >= SIGN_WEIGHT
    }

    /// Whether the pattern is a number: neither an infinity nor not-a-number.
    pub open spec fn finite(self) -> bool {
        self.exponent() != EXPONENT_SPECIAL as nat
    }

    /// The integer that, scaled by `pow2(self.shift())`, gives the magnitude.
    pub open spec fn significand(self) -> nat {
        if self.exponent() == 0 {
            self.fraction()
        } else {
            FRACTION_SPAN as nat + self.fraction()
        }
    }

    /// The power of two by which the significand is scaled.
    pub open spec fn shift(self) -> nat {
        if self.exponent() == 0 {
            0
        } else {
            (self.exponent() - 1) as nat
        }
    }

    /// The absolute value of a finite number, in units of the smallest
    /// positive binary64 number.
    pub open spec fn magnitude(self) -> nat {
        self.significand() * pow2(self.shift())
    }

    /// The value of a finite number, in units of the smallest positive
    /// binary64 number.
    pub open spec fn scaled(self) -> int {
        if self.negative() {
            -(self.magnitude() as int)
        } else {
            self.magnitude() as int
        }
    }

    /// Whether the pattern is a number: neither an infinity nor not-a-number.
    pub fn is_finite(self) -> (result: bool)
        ensures
            result == self.finite(),
    {
        (self.bits / FRACTION_SPAN) % 2048 != EXPONENT_SPECIAL
    }

    /// The integer that, scaled by a power of two, gives the magnitude.
    fn scale_significand(self) -> (significand: u64)
        ensures
            significand == self.significand(),
            significand < 0x20_0000_0000_0000,
            self.shift() > 0 ==> significand >= 0x10_0000_0000_0000,
    {
        if (self.bits / FRACTION_SPAN) % 2048 == 0 {
            self.bits % FRACTION_SPAN
        } else {
            FRACTION_SPAN + self.bits % FRACTION_SPAN
        }
    }

    /// The power of two by which the significand is scaled.
    fn scale_shift(self) -> (shift: u64)
        ensures
            shift == self.shift(),
    {
        let exponent: u64 = (self.bits / FRACTION_SPAN) % 2048;
        if exponent == 0 {
            0
        } else {
            exponent - 1
        }
    }

    /// Whether the pattern is the number one.
    pub fn is_one(self) -> (result: bool)
        ensures
            result == (self.bits == ONE_BITS),
    {
        self.bits == ONE_BITS
    }
}

/// The magnitude of the number with the given bits.
pub open spec fn magnitude_of(bits: u64) -> nat {
    Binary64 { bits }.magnitude()
}

/// The distance between two finite numbers, in units of the smallest
/// positive binary64 number.
pub open spec fn gap(a: Binary64, b: Binary64) -> nat {
    if a.scaled() >= b.scaled() {
        (a.scaled() - b.scaled()) as nat
    } else {
        (b.scaled() - a.scaled()) as nat
    }
}

/// Products with powers of two compare as the factors do.
proof fn lemma_scale_compare(x: nat, y: nat, t: nat)
    ensures
        x * pow2(t) <= y * pow2(t) <==> x <= y,
        x * pow2(t) < y * pow2(t) <==> x < y,
{
    lemma_pow2_pos(t);
    let p = pow2(t);
    assert(x <= y ==> x * p <= y * p) by (nonlinear_arith);
    assert(x < y && p > 0 ==> x * p < y * p) by (nonlinear_arith);
    assert(y < x && p > 0 ==> y * p < x * p) by (nonlinear_arith);
    assert(y <= x ==> y * p <= x * p) by (nonlinear_arith);
}

/// Moves part of a power of two from the scale to the factor.
proof fn lemma_scale_split(x: nat, s: nat, t: nat)
    requires
        t <= s,
    ensures
        x * pow2(s) == (x * pow2((s - t) as nat)) * pow2(t),
{
    lemma_pow2_adds((s - t) as nat, t);
    let p = pow2((s - t) as nat);
    let q = pow2(t);
    assert(x * (p * q) == (x * p) * q) by (nonlinear_arith);
}

/// Two to the power `n`.
fn power_of_two(n: u64) -> (power: u128)
    requires
        n <= 64,
    ensures
        power == pow2(n as nat),
        power <= 0x1_0000_0000_0000_0000,
{
    let mut power: u128 = 1;
    let mut i: u64 = 0;
    proof {
        lemma2_to64();
        lemma2_to64_rest();
        if n < 64 {
            lemma_pow2_strictly_increases(n as nat, 64);
        }
    }
    while i < n
        invariant
            i <= n <= 64,
            power == pow2(i as nat),
            pow2(n as nat) <= 0x1_0000_0000_0000_0000,
        decreases n - i,
    {
        proof {
            lemma_pow2_unfold((i + 1) as nat);
            if i + 1 < n {
                lemma_pow2_strictly_increases((i + 1) as nat, n as nat);
            }
        }
        power = power * 2;
        i = i + 1;
    }
    power
}

/// Compares `d` times two to the power `s` with `k` times two to the power `t`.
fn scaled_at_most(d: u128, s: u64, k: u64, t: u64) -> (result: bool)
    requires
        d < 0x4_0000_0000_0000_0000_0000_0000_0000,
        0x20_0000_0000_0000 <= k < 0x40_0000_0000_0000,
    ensures
        result == (d * pow2(s as nat) <= k * pow2(t as nat)),
{
    proof {
        lemma2_to64();
        lemma2_to64_rest();
    }
    if s >= t {
        let up: u64 = s - t;
        proof {
            lemma_scale_split(d as nat, s as nat, t as nat);
            lemma_scale_compare(d as nat * pow2(up as nat), k as nat, t as nat);
        }
        if up > 54 {
            proof {
                lemma_pow2_strictly_increases(54, up as nat);
                let p = pow2(up as nat);
                assert(d >= 1 && p > k ==> d * p > k) by (nonlinear_arith);
            }
            d == 0
        } else {
            let p: u128 = power_of_two(up);
            let most: u128 = k as u128 / p;
            proof {
                lemma_pow2_pos(up as nat);
                assert(d * p <= k <==> d <= k as int / p as int) by (nonlinear_arith)
                    requires
                        p > 0,
                ;
            }
            d <= most
        }
    } else {
        let up: u64 = t - s;
        proof {
            lemma_scale_split(k as nat, t as nat, s as nat);
            lemma_scale_compare(d as nat, k as nat * pow2(up as nat), s as nat);
        }
        if up > 62 {
            proof {
                if up > 63 {
                    lemma_pow2_strictly_increases(63, up as nat);
                }
                let p = pow2(up as nat);
                assert(k * p >= 0x4_0000_0000_0000_0000_0000_0000_0000) by (nonlinear_arith)
                    requires
                        k >= 0x20_0000_0000_0000,
                        p >= 0x8000_0000_0000_0000,
                ;
            }
            true
        } else {
            let p: u128 = power_of_two(up);
            proof {
                assert(k * p < 0x40_0000_0000_0000 * 0x1_0000_0000_0000_0000) by (nonlinear_arith)
                    requires
                        k < 0x40_0000_0000_0000,
                        0 < p <= 0x1_0000_0000_0000_0000,
                ;
            }
            d <= k as u128 * p
        }
    }
}

/// Two distinct multiples, one of two to the power `s` and one of two to the
/// power `t`, lie further apart than anything that is tiny beside the first.
proof fn lemma_far_apart(m: nat, s: nat, low: nat, k: nat, t: nat)
    requires
        0x10_0000_0000_0000 <= m < 0x20_0000_0000_0000,
        k < 0x40_0000_0000_0000,
        s > 60,
        low < pow2((s - 8) as nat),
    ensures
        m * pow2(s) > k * pow2(t) ==> m * pow2(s) - low > k * pow2(t),
        m * pow2(s) < k * pow2(t) ==> m * pow2(s) + low < k * pow2(t),
        low < m * pow2(s),
{
    let big = pow2(s);
    lemma2_to64();
    lemma_pow2_pos(s);
    lemma_pow2_strictly_increases((s - 8) as nat, s);
    assert(m * big >= big) by (nonlinear_arith)
        requires
            m >= 1,
    ;
    if s <= t {
        lemma_scale_split(k, t, s);
        let j = k * pow2((t - s) as nat);
        lemma_scale_compare(m, j, s);
        assert(m > j ==> m * big >= j * big + big) by (nonlinear_arith);
        assert(m < j ==> m * big + big <= j * big) by (nonlinear_arith);
    } else if s - t <= 8 {
        lemma_scale_split(m, s, t);
        let j = m * pow2((s - t) as nat);
        let unit = pow2(t);
        lemma_scale_compare(k, j, t);
        if s - 8 < t {
            lemma_pow2_strictly_increases((s - 8) as nat, t);
        }
        assert(j > k ==> j * unit >= k * unit + unit) by (nonlinear_arith);
        assert(j < k ==> j * unit + unit <= k * unit) by (nonlinear_arith);
    } else {
        lemma_scale_split(m, s, t);
        let p = pow2((s - t) as nat);
        let unit = pow2(t);
        lemma_pow2_pos(t);
        lemma_pow2_adds((s - t) as nat, t);
        lemma_pow2_strictly_increases(8, (s - t) as nat);
        assert((m - 1) * p >= 0x40_0000_0000_0000) by (nonlinear_arith)
            requires
                m >= 0x10_0000_0000_0000,
                p >= 256,
        ;
        assert((m * p) * unit - p * unit >= 0x40_0000_0000_0000 * unit) by (nonlinear_arith)
            requires
                (m - 1) * p >= 0x40_0000_0000_0000,
        ;
        assert(k * unit <= 0x40_0000_0000_0000 * unit) by (nonlinear_arith)
            requires
                k < 0x40_0000_0000_0000,
        ;
        assert(k * unit <= (m * p) * unit - big);
    }
}

/// Whether the distance between `a` and `b` is at most `k` times two to the
/// power `t`.
pub fn gap_at_most(a: Binary64, b: Binary64, k: u64, t: u64) -> (result: bool)
    requires
        a.finite(),
        b.finite(),
        0x20_0000_0000_0000 <= k < 0x40_0000_0000_0000,
    ensures
        result == (gap(a, b) <= k * pow2(t as nat)),
{
    let (hi, lo) = if a.scale_shift() >= b.scale_shift() {
        (a, b)
    } else {
        (b, a)
    };
    assert(gap(a, b) == gap(hi, lo));
    let m: u64 = hi.scale_significand();
    let s: u64 = hi.scale_shift();
    let n: u64 = lo.scale_significand();
    let r: u64 = lo.scale_shift();
    let same: bool = (hi.bits >= SIGN_WEIGHT) == (lo.bits >= SIGN_WEIGHT);
    let ghost low = n * pow2(r as nat);
    if s - r <= 60 {
        let p: u128 = power_of_two(s - r);
        proof {
            lemma2_to64();
            lemma2_to64_rest();
            if s - r < 60 {
                lemma_pow2_strictly_increases((s - r) as nat, 60);
            }
            assert(m * p <= 0x20_0000_0000_0000 * 0x1000_0000_0000_0000) by (nonlinear_arith)
                requires
                    m < 0x20_0000_0000_0000,
                    p <= 0x1000_0000_0000_0000,
            ;
            lemma_scale_split(m as nat, s as nat, r as nat);
        }
        let lifted: u128 = m as u128 * p;
        let apart: u128 = if same {
            if lifted >= n as u128 {
                lifted - n as u128
            } else {
                n as u128 - lifted
            }
        } else {
            lifted + n as u128
        };
        proof {
            let unit = pow2(r as nat);
            assert((lifted - n) * unit == lifted * unit - n * unit) by (nonlinear_arith);
            assert((n - lifted) * unit == n * unit - lifted * unit) by (nonlinear_arith);
            assert((lifted + n) * unit == lifted * unit + n * unit) by (nonlinear_arith);
            lemma_scale_compare(lifted as nat, n as nat, r as nat);
            assert(gap(hi, lo) == apart * unit);
        }
        scaled_at_most(apart, r, k, t)
    } else {
        proof {
            lemma2_to64_rest();
            lemma_pow2_adds(53, r as nat);
            lemma_pow2_pos(r as nat);
            if 53 + r < s - 8 {
                lemma_pow2_strictly_increases((53 + r) as nat, (s - 8) as nat);
            }
            let unit = pow2(r as nat);
            assert(n * unit < 0x20_0000_0000_0000 * unit) by (nonlinear_arith)
                requires
                    n < 0x20_0000_0000_0000,
                    unit > 0,
            ;
            lemma_far_apart(m as nat, s as nat, low as nat, k as nat, t as nat);
            assert(n == 0 ==> low == 0) by (nonlinear_arith)
                requires
                    low == n * unit,
            ;
            assert(n > 0 ==> low > 0) by (nonlinear_arith)
                requires
                    low == n * unit,
                    unit > 0,
            ;
            lemma_pow2_unfold(s as nat);
            let half = pow2((s - 1) as nat);
            assert(m * (2 * half) == (2 * m) * half) by (nonlinear_arith);
        }
        let within: bool = scaled_at_most(m as u128, s, k, t);
        if same {
            within
        } else {
            within && (n == 0 || !scaled_at_most(k as u128, t, 2 * m, s - 1))
        }
    }
}

} // verus!
