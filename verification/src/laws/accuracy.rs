//! How far a coordinate drifts on its way into a pipeline and out again.
use vstd::prelude::*;
use vstd::arithmetic::div_mod::lemma_fundamental_div_mod;
use vstd::arithmetic::power2::{lemma2_to64, lemma_pow2_unfold, pow2};
use crate::binary64::{magnitude_of, Binary64, FRACTION_SPAN};
use crate::coord::{Coord, Coord3D};
use crate::crs::CrsDef;
use crate::laws::rounding::{lemma_floor, lemma_larger, lemma_small_bits, INFINITY_BITS};
use crate::numerics::{HaltView, Replies};
use crate::units::{denormalized, nearly, normalized, source_units, target_units};

verus! {

/// The absolute value of an integer.
pub open spec fn absolute(n: int) -> int {
    if n < 0 {
        -n
    } else {
        n
    }
}

/// Whether `y` is `x` times `p / q`, but for an error of at most two to the power
/// minus forty-two of the product.
pub open spec fn converts(x: Binary64, y: Binary64, p: nat, q: nat) -> bool {
    &&& x.finite()
    &&& y.finite()
    &&& 0x400_0000_0000 * absolute(y.scaled() * q - x.scaled() * p) <= absolute(x.scaled() * p)
}

/// A number that is converted by some factor and back by the same factor, with no
/// more than a small error each time, comes back nearly as it was.
pub proof fn law_accurate_conversions_nearly_undo(
    x: Binary64,
    y: Binary64,
    z: Binary64,
    p: nat,
    q: nat,
)
    requires
        p > 0,
        q > 0,
        converts(x, y, p, q),
        converts(y, z, q, p),
    ensures
        nearly(z, x),
{
    let (a, b) = (x.scaled(), z.scaled());
    let start = a * p;
    let end = b * p;
    let drift = absolute(b - a);
    assert(end == start || 1_000_000_000_000 * absolute(end - start) < absolute(start));
    assert(end - start == (b - a) * p) by (nonlinear_arith)
        requires
            start == a * p,
            end == b * p,
    ;
    assert(absolute((b - a) * p) == drift * p) by (nonlinear_arith)
        requires
            drift == absolute(b - a),
            p > 0,
    ;
    assert(absolute(a * p) == absolute(a) * p) by (nonlinear_arith)
        requires
            p > 0,
    ;
    assert(drift == 0 || drift * 1_000_000_000_000 < absolute(a)) by (nonlinear_arith)
        requires
            drift * p == 0 || (drift * p) * 1_000_000_000_000 < absolute(a) * p,
            p > 0,
    ;
}

/// Where the outside conversions of a system go by one factor, with no more than a
/// small error each time, a coordinate that its adapter took into the pipeline
/// leaves it through the adapter of the same system with nearly the x and y that
/// it came with, and with its height bit for bit.
pub proof fn law_accurate_adapters_nearly_undo_each_other(
    crs: CrsDef,
    outside: Coord3D,
    inside: Coord3D,
    out: Coord,
    replies: Replies,
    p: nat,
    q: nat,
)
    requires
        normalized(source_units(crs), outside, replies) == Ok::<Coord3D, HaltView>(inside),
        denormalized(target_units(crs), inside, replies) == Ok::<Coord, HaltView>(out),
        p > 0,
        q > 0,
        converts(outside.x, inside.x, p, q),
        converts(outside.y, inside.y, p, q),
        converts(inside.x, out.x, q, p),
        converts(inside.y, out.y, q, p),
    ensures
        nearly(out.x, outside.x),
        nearly(out.y, outside.y),
        inside.z == outside.z,
{
    law_accurate_conversions_nearly_undo(outside.x, inside.x, out.x, p, q);
    law_accurate_conversions_nearly_undo(outside.y, inside.y, out.y, p, q);
}

/// How far the magnitude of `y`, times `den`, is from `num`.
pub open spec fn miss(num: nat, den: nat, y: Binary64) -> int {
    absolute(y.magnitude() * den - num)
}

/// Whether the magnitude of `y` is `num / den` rounded: no finite number is nearer.
pub open spec fn rounded(num: nat, den: nat, y: Binary64) -> bool {
    &&& y.finite()
    &&& forall|r: Binary64|
        r.bits < INFINITY_BITS ==> miss(num, den, y) <= #[trigger] miss(num, den, r)
}

/// Whether `y` is `x` times `p / q`, rounded to the nearest finite number.
pub open spec fn rounded_product(x: Binary64, y: Binary64, p: nat, q: nat) -> bool {
    x.finite() && y.negative() == x.negative() && rounded(x.magnitude() * p, q, y)
}

/// Whether `x` times `p / q` is zero, or no smaller than the smallest normal number
/// and smaller than the largest finite one.
pub open spec fn product_in_range(x: Binary64, p: nat, q: nat) -> bool {
    let num = x.magnitude() * p;
    num == 0 || FRACTION_SPAN * q <= num < magnitude_of((INFINITY_BITS - 1) as u64) * q
}

/// Two normal neighbours lie close together.
proof fn lemma_normal_neighbours(n: u64)
    requires
        FRACTION_SPAN <= n,
        n + 1 < INFINITY_BITS,
    ensures
        magnitude_of(n) < magnitude_of((n + 1) as u64),
        FRACTION_SPAN * (magnitude_of((n + 1) as u64) - magnitude_of(n)) <= magnitude_of(n),
{
    let a = Binary64 { bits: n };
    let b = Binary64 { bits: (n + 1) as u64 };
    lemma_larger(n, (n + 1) as u64);
    lemma_small_bits(a);
    lemma_small_bits(b);
    let unit = pow2(a.shift());
    assert(a.exponent() > 0);
    if n as nat % FRACTION_SPAN as nat == FRACTION_SPAN - 1 {
        assert(b.exponent() == a.exponent() + 1);
        assert(b.fraction() == 0);
        lemma_pow2_unfold(b.shift());
        assert(b.significand() * (2 * unit) == (2 * b.significand()) * unit) by (nonlinear_arith);
        assert((2 * b.significand()) * unit - a.significand() * unit == unit) by (nonlinear_arith)
            requires
                2 * b.significand() == a.significand() + 1,
        ;
    } else {
        assert(b.exponent() == a.exponent());
        assert(b.fraction() == a.fraction() + 1);
        assert(b.significand() * unit - a.significand() * unit == unit) by (nonlinear_arith)
            requires
                b.significand() == a.significand() + 1,
        ;
    }
    assert(FRACTION_SPAN * unit <= a.significand() * unit) by (nonlinear_arith)
        requires
            FRACTION_SPAN <= a.significand(),
    ;
}

/// A quotient in the normal range has a number near it.
proof fn lemma_near_quotient(num: nat, den: nat) -> (r: Binary64)
    requires
        den > 0,
        FRACTION_SPAN * den <= num < magnitude_of((INFINITY_BITS - 1) as u64) * den,
    ensures
        r.bits < INFINITY_BITS,
        FRACTION_SPAN * miss(num, den, r) <= num,
{
    let whole = num / den;
    let top = (INFINITY_BITS - 1) as u64;
    lemma_fundamental_div_mod(num as int, den as int);
    assert(whole * den <= num < (whole + 1) * den) by (nonlinear_arith)
        requires
            num == den * whole + num % den,
            0 <= num % den < den,
    ;
    let n = lemma_floor(whole, top);
    let limit = magnitude_of(top);
    assert(whole < limit) by (nonlinear_arith)
        requires
            whole * den <= num < limit * den,
    ;
    let small = Binary64 { bits: FRACTION_SPAN };
    lemma2_to64();
    assert(small.exponent() == 1 && small.fraction() == 0);
    let unit = pow2(small.shift());
    assert(small.significand() * unit == small.significand()) by (nonlinear_arith)
        requires
            unit == 1,
    ;
    assert(magnitude_of(FRACTION_SPAN) == FRACTION_SPAN);
    assert(whole >= FRACTION_SPAN) by (nonlinear_arith)
        requires
            FRACTION_SPAN * den <= num < (whole + 1) * den,
    ;
    if n < FRACTION_SPAN && n + 1 < FRACTION_SPAN {
        lemma_larger((n + 1) as u64, FRACTION_SPAN);
    }
    lemma_normal_neighbours(n);
    let low = magnitude_of(n);
    let high = magnitude_of((n + 1) as u64);
    let r = Binary64 { bits: n };
    assert(low * den <= whole * den && (whole + 1) * den <= high * den) by (nonlinear_arith)
        requires
            low <= whole,
            whole + 1 <= high,
    ;
    assert(high * den - low * den == (high - low) * den) by (nonlinear_arith);
    assert(FRACTION_SPAN * ((high - low) * den) <= low * den) by (nonlinear_arith)
        requires
            FRACTION_SPAN * (high - low) <= low,
    ;
    r
}

/// A rounded product in the normal range is off by at most two to the power minus
/// fifty-two of the product.
pub proof fn law_rounded_product_is_accurate(x: Binary64, y: Binary64, p: nat, q: nat)
    requires
        q > 0,
        rounded_product(x, y, p, q),
        product_in_range(x, p, q),
    ensures
        FRACTION_SPAN * absolute(y.scaled() * q - x.scaled() * p) <= absolute(x.scaled() * p),
        converts(x, y, p, q),
{
    let num = x.magnitude() * p;
    if num == 0 {
        let zero = Binary64 { bits: 0 };
        assert(zero.significand() == 0);
        assert(0 * pow2(zero.shift()) == 0) by (nonlinear_arith);
        assert(0 * q == 0) by (nonlinear_arith);
        assert(miss(num, q, y) <= miss(num, q, zero));
    } else {
        let r = lemma_near_quotient(num, q);
        assert(miss(num, q, y) <= miss(num, q, r));
    }
    assert((-(x.magnitude() as int)) * p == -(x.magnitude() * p)) by (nonlinear_arith);
    assert((-(y.magnitude() as int)) * q == -(y.magnitude() * q)) by (nonlinear_arith);
    assert(x.magnitude() * p >= 0) by (nonlinear_arith);
}

/// A number that is multiplied by one factor and then by another that is nearly its
/// inverse, rounded to nearest each time, comes back nearly as it was. Products
/// outside the normal range are left out: rounding may lose all of a tiny one.
pub proof fn law_rounded_conversions_nearly_undo(
    x: Binary64,
    y: Binary64,
    z: Binary64,
    p: nat,
    q: nat,
    r: nat,
    s: nat,
)
    requires
        p > 0,
        q > 0,
        r > 0,
        s > 0,
        0x1000_0000_0000 * absolute(r * p - s * q) <= s * q,
        rounded_product(x, y, p, q),
        product_in_range(x, p, q),
        rounded_product(y, z, r, s),
        product_in_range(y, r, s),
    ensures
        nearly(z, x),
{
    law_rounded_product_is_accurate(x, y, p, q);
    law_rounded_product_is_accurate(y, z, r, s);
    let (b, c) = (y.scaled(), z.scaled());
    let rounding = (c * s - b * r) * p;
    let factors = b * (r * p - s * q);
    let base = absolute(b) * (s * q);
    assert(absolute(rounding) == absolute(c * s - b * r) * p) by (nonlinear_arith)
        requires
            rounding == (c * s - b * r) * p,
            p > 0,
    ;
    assert(absolute(factors) == absolute(b) * absolute(r * p - s * q)) by (nonlinear_arith)
        requires
            factors == b * (r * p - s * q),
    ;
    assert(absolute(b * r) == absolute(b) * r) by (nonlinear_arith)
        requires
            r > 0,
    ;
    assert(absolute(b * q) == absolute(b) * q) by (nonlinear_arith)
        requires
            q > 0,
    ;
    assert(0x1000_0000_0000 * absolute(factors) <= base) by (nonlinear_arith)
        requires
            absolute(factors) == absolute(b) * absolute(r * p - s * q),
            base == absolute(b) * (s * q),
            0x1000_0000_0000 * absolute(r * p - s * q) <= s * q,
            absolute(b) >= 0,
    ;
    let twice = (absolute(b) * r) * p;
    assert(FRACTION_SPAN * absolute(rounding) <= twice) by (nonlinear_arith)
        requires
            absolute(rounding) == absolute(c * s - b * r) * p,
            FRACTION_SPAN * absolute(c * s - b * r) <= absolute(b) * r,
            twice == (absolute(b) * r) * p,
            p > 0,
    ;
    assert(twice <= base + absolute(factors)) by (nonlinear_arith)
        requires
            twice == (absolute(b) * r) * p,
            base == absolute(b) * (s * q),
            absolute(factors) == absolute(b) * absolute(r * p - s * q),
            absolute(b) >= 0,
    ;
    let off = absolute(c * p - b * q);
    assert((c * p - b * q) * s == rounding + factors) by (nonlinear_arith)
        requires
            rounding == (c * s - b * r) * p,
            factors == b * (r * p - s * q),
    ;
    assert(absolute((c * p - b * q) * s) == off * s) by (nonlinear_arith)
        requires
            off == absolute(c * p - b * q),
            s > 0,
    ;
    assert(0x400_0000_0000 * (off * s) <= base);
    assert(0x400_0000_0000 * off <= absolute(b) * q) by (nonlinear_arith)
        requires
            0x400_0000_0000 * (off * s) <= base,
            base == absolute(b) * (s * q),
            s > 0,
    ;
    law_accurate_conversions_nearly_undo(x, y, z, p, q);
}

/// Where the outside conversions of a system are products rounded to nearest, by
/// two factors that are nearly inverse to each other, a coordinate that its adapter
/// took into the pipeline leaves it through the adapter of the same system with
/// nearly the x and y that it came with.
pub proof fn law_rounded_adapters_nearly_undo_each_other(
    crs: CrsDef,
    outside: Coord3D,
    inside: Coord3D,
    out: Coord,
    replies: Replies,
    p: nat,
    q: nat,
    r: nat,
    s: nat,
)
    requires
        normalized(source_units(crs), outside, replies) == Ok::<Coord3D, HaltView>(inside),
        denormalized(target_units(crs), inside, replies) == Ok::<Coord, HaltView>(out),
        p > 0,
        q > 0,
        r > 0,
        s > 0,
        0x1000_0000_0000 * absolute(r * p - s * q) <= s * q,
        rounded_product(outside.x, inside.x, p, q),
        rounded_product(outside.y, inside.y, p, q),
        rounded_product(inside.x, out.x, r, s),
        rounded_product(inside.y, out.y, r, s),
        product_in_range(outside.x, p, q),
        product_in_range(outside.y, p, q),
        product_in_range(inside.x, r, s),
        product_in_range(inside.y, r, s),
    ensures
        nearly(out.x, outside.x),
        nearly(out.y, outside.y),
        inside.z == outside.z,
{
    law_rounded_conversions_nearly_undo(outside.x, inside.x, out.x, p, q, r, s);
    law_rounded_conversions_nearly_undo(outside.y, inside.y, out.y, p, q, r, s);
}

} // verus!
