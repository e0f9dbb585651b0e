//! The comparison of ellipsoids is that of rounded binary64 differences.
use vstd::prelude::*;
use vstd::arithmetic::power2::{lemma_pow2_pos, lemma_pow2_unfold, pow2};
use crate::binary64::{gap, magnitude_of, Binary64, FRACTION_SPAN};
use crate::ellipsoid::{differ_by_less, same_ellipsoid, Ellipsoid};

verus! {

/// The first bit pattern behind the finite positive numbers.
pub const INFINITY_BITS: u64 = 0x7FF0_0000_0000_0000;

/// How far a magnitude is from a number that is not negative.
pub open spec fn distance(x: nat, q: Binary64) -> nat {
    if q.magnitude() >= x {
        (q.magnitude() - x) as nat
    } else {
        (x - q.magnitude()) as nat
    }
}

/// Whether `r` is the finite number nearest to `x`; of two equally near ones, the
/// one whose last bit is clear.
pub open spec fn rounds_to(x: nat, r: Binary64) -> bool {
    &&& r.bits < INFINITY_BITS
    &&& forall|q: Binary64|
        q.bits < INFINITY_BITS ==> {
            ||| #[trigger] distance(x, q) > distance(x, r)
            ||| q == r
            ||| distance(x, q) == distance(x, r) && r.bits % 2 == 0
        }
}

/// The numbers that are finite and not negative are those with small bits.
pub proof fn lemma_small_bits(q: Binary64)
    ensures
        (q.bits < INFINITY_BITS) == (q.finite() && !q.negative()),
        q.bits < INFINITY_BITS ==> q.exponent() == q.bits as nat / FRACTION_SPAN as nat,
{
}

proof fn lemma_next_is_larger(i: u64)
    requires
        i + 1 < INFINITY_BITS,
    ensures
        magnitude_of(i) < magnitude_of((i + 1) as u64),
{
    let a = Binary64 { bits: i };
    let b = Binary64 { bits: (i + 1) as u64 };
    lemma_small_bits(a);
    lemma_small_bits(b);
    lemma_pow2_pos(a.shift());
    let unit = pow2(a.shift());
    if i as nat % FRACTION_SPAN as nat == FRACTION_SPAN - 1 {
        assert(b.exponent() == a.exponent() + 1);
        assert(b.fraction() == 0);
        if a.exponent() > 0 {
            assert(b.shift() == a.shift() + 1);
            lemma_pow2_unfold(b.shift());
            assert(b.significand() == FRACTION_SPAN);
            assert(a.significand() * unit < b.significand() * (2 * unit)) by (nonlinear_arith)
                requires
                    a.significand() < 2 * b.significand(),
                    unit > 0,
            ;
        } else {
            assert(a.significand() * unit < b.significand() * unit) by (nonlinear_arith)
                requires
                    a.significand() < b.significand(),
                    unit > 0,
            ;
        }
    } else {
        assert(b.exponent() == a.exponent());
        assert(b.fraction() == a.fraction() + 1);
        assert(a.significand() * unit < b.significand() * unit) by (nonlinear_arith)
            requires
                a.significand() < b.significand(),
                unit > 0,
        ;
    }
}

pub proof fn lemma_larger(i: u64, j: u64)
    requires
        i < j < INFINITY_BITS,
    ensures
        magnitude_of(i) < magnitude_of(j),
    decreases j - i,
{
    let k = (j - 1) as u64;
    lemma_next_is_larger(k);
    if i < k {
        lemma_larger(i, k);
    }
}

/// The last number up to `top` that is no larger than `x`.
pub proof fn lemma_floor(x: nat, top: u64) -> (n: u64)
    requires
        top < INFINITY_BITS,
    ensures
        n <= top,
        magnitude_of(n) <= x,
        n < top ==> x < magnitude_of((n + 1) as u64),
    decreases top,
{
    let q = Binary64 { bits: top };
    if q.magnitude() <= x {
        top
    } else {
        if top == 0 {
            assert(q.significand() == 0);
            assert(0 * pow2(q.shift()) == 0) by (nonlinear_arith);
        }
        lemma_floor(x, (top - 1) as u64)
    }
}

/// Of two neighbours that enclose `x`, the one that is nearer, or else the one
/// whose last bit is clear, is what `x` rounds to.
proof fn lemma_rounds_between(x: nat, n: u64) -> (r: Binary64)
    requires
        n + 1 < INFINITY_BITS,
        magnitude_of(n) <= x < magnitude_of((n + 1) as u64),
    ensures
        rounds_to(x, r),
        r.bits == n || r.bits == n + 1,
        2 * x < magnitude_of(n) + magnitude_of((n + 1) as u64)
            ==> r.bits == n,
        2 * x == magnitude_of(n) + magnitude_of((n + 1) as u64)
            && n % 2 == 0 ==> r.bits == n,
        2 * x > magnitude_of(n) + magnitude_of((n + 1) as u64)
            ==> r.bits == n + 1,
{
    let low = Binary64 { bits: n };
    let high = Binary64 { bits: (n + 1) as u64 };
    let middle = low.magnitude() + high.magnitude();
    let r = if 2 * x < middle || 2 * x == middle && n % 2 == 0 {
        low
    } else {
        high
    };
    assert forall|q: Binary64| q.bits < INFINITY_BITS implies {
        ||| #[trigger] distance(x, q) > distance(x, r)
        ||| q == r
        ||| distance(x, q) == distance(x, r) && r.bits % 2 == 0
    } by {
        if q.bits < n {
            lemma_larger(q.bits, n);
        } else if q.bits > n + 1 {
            lemma_larger((n + 1) as u64, q.bits);
        } else if q.bits == n {
            assert(q == low);
        } else {
            assert(q == high);
        }
    }
    r
}

/// Two finite numbers pass the comparison exactly if their difference, rounded to
/// the nearest binary64 number, is below the bound. The bound is a positive
/// finite number whose last bit is set.
pub proof fn law_comparison_is_of_rounded_differences(a: Binary64, b: Binary64, bound: u64)
    requires
        a.finite(),
        b.finite(),
        0 < bound < INFINITY_BITS,
        bound % 2 == 1,
    ensures
        differ_by_less(a, b, bound) <==> exists|r: Binary64| #[trigger]
            rounds_to(gap(a, b), r) && r.magnitude() < magnitude_of(bound),
{
    let x = gap(a, b);
    let upper = Binary64 { bits: bound };
    let lower = Binary64 { bits: (bound - 1) as u64 };
    lemma_next_is_larger(lower.bits);
    if differ_by_less(a, b, bound) {
        let n = lemma_floor(x, lower.bits);
        let r = lemma_rounds_between(x, n);
        if n < lower.bits {
            if r.bits < lower.bits {
                lemma_larger(r.bits, lower.bits);
            }
            assert(r.magnitude() <= lower.magnitude());
        }
        assert(rounds_to(x, r) && r.magnitude() < upper.magnitude());
    }
    if exists|r: Binary64| #[trigger] rounds_to(x, r) && r.magnitude() < upper.magnitude() {
        let r = choose|r: Binary64| #[trigger]
            rounds_to(x, r) && r.magnitude() < upper.magnitude();
        if r.bits > lower.bits {
            if r.bits > bound {
                lemma_larger(bound, r.bits);
            }
            assert(r.bits == bound);
            assert(r == upper);
        } else if r.bits < lower.bits {
            lemma_larger(r.bits, lower.bits);
        } else {
            assert(r == lower);
        }
        assert(r.magnitude() <= lower.magnitude());
        assert(distance(x, upper) >= distance(x, r));
    }
}

/// Being the same ellipsoid works both ways.
pub proof fn law_same_ellipsoid_is_symmetric(a: Ellipsoid, b: Ellipsoid)
    ensures
        same_ellipsoid(a, b) == same_ellipsoid(b, a),
{
}

/// Every ellipsoid of finite numbers is the same as itself.
pub proof fn law_same_ellipsoid_is_reflexive(a: Ellipsoid)
    requires
        a.semi_major_axis.finite(),
        a.flattening.finite(),
    ensures
        same_ellipsoid(a, a),
{
}

} // verus!
