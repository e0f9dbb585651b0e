//! What the parts mean that pipelines are made of.
use vstd::prelude::*;
use vstd::arithmetic::power2::{lemma2_to64, lemma_pow2_unfold, pow2};
use crate::binary64::{gap, magnitude_of, Binary64};
use crate::coord::{Coord, Coord3D};
use crate::crs::CrsDef;
use crate::ellipsoid::{same_ellipsoid, Ellipsoid};
use crate::error::{Error, ErrorView, GridError, GridErrorView};
use crate::framing::{framing_cancels, lemma_sweep_keeps, lemma_sweep_len, settled, sweep};
use crate::height::{
    alters_height, balanced, balanced_from, depth_after, lemma_exposed_split, open_passthroughs,
    transforms_height,
};
use crate::laws::framing::{
    law_nothing_else_is_dropped, law_only_framing_pairs_are_dropped, law_settled_is_final,
};
use crate::laws::rounding::{law_comparison_is_of_rounded_differences, rounds_to};
use crate::operation::{
    CoordinateOperation, GridShiftDirection, OperationMethod, OperationStepDirection,
};
use crate::numerics::{outcome, reply_view, Halt, HaltView, NumericRequest};
use crate::parallel::wide_enough;
use crate::registry::{acyclic, entry, expands_within};
use crate::services::{
    halt_of, service_reply_view, CompileHalt, CompileHaltView, ServiceRequest,
};
use crate::step::{CompiledStep, Step};
use crate::text::decimal;
use crate::validate::{length_mismatch, not_finite};

verus! {

/// The finite numbers are the patterns before that of infinity, with either sign.
pub proof fn law_finite_patterns(number: Binary64)
    ensures
        number.finite() == (number.bits < 0x7FF0_0000_0000_0000u64 || 0x8000_0000_0000_0000u64
            <= number.bits < 0xFFF0_0000_0000_0000u64),
{
}

/// A coordinate is finite exactly if each of its ordinates is.
pub proof fn law_coordinates_are_finite_throughout(flat: Coord, coord: Coord3D)
    ensures
        flat.finite() == (flat.x.finite() && flat.y.finite()),
        coord.finite() == (coord.x.finite() && coord.y.finite() && coord.z.finite()),
        coord.planar().x == coord.x && coord.planar().y == coord.y,
{
}

/// The magnitudes of the numbers: the first patterns count up from zero, a step of
/// the exponent doubles, and the sign bit changes the sign alone.
pub proof fn law_magnitudes(bits: u64)
    requires
        bits < 0x7FF0_0000_0000_0000u64,
    ensures
        bits < 0x20_0000_0000_0000u64 ==> magnitude_of(bits) == bits,
        0x10_0000_0000_0000u64 <= bits < 0x7FE0_0000_0000_0000u64 ==> magnitude_of(
            (bits + 0x10_0000_0000_0000u64) as u64,
        ) == 2 * magnitude_of(bits),
        (Binary64 { bits }).scaled() == magnitude_of(bits),
        (Binary64 { bits: (bits + 0x8000_0000_0000_0000u64) as u64 }).scaled() == -magnitude_of(
            bits,
        ),
{
    let a = Binary64 { bits };
    lemma2_to64();
    let one = pow2(0);
    assert(a.significand() * one == a.significand()) by (nonlinear_arith)
        requires
            one == 1,
    ;
    if 0x10_0000_0000_0000u64 <= bits < 0x7FE0_0000_0000_0000u64 {
        let b = Binary64 { bits: (bits + 0x10_0000_0000_0000u64) as u64 };
        assert(b.exponent() == a.exponent() + 1);
        assert(b.fraction() == a.fraction());
        lemma_pow2_unfold(b.shift());
        let unit = pow2(a.shift());
        assert(a.significand() * (2 * unit) == 2 * (a.significand() * unit)) by (nonlinear_arith);
    }
    let c = Binary64 { bits: (bits + 0x8000_0000_0000_0000u64) as u64 };
    assert(c.exponent() == a.exponent());
    assert(c.fraction() == a.fraction());
}

/// The distance of two numbers is that of their values, whichever is larger.
pub proof fn law_distance_of_two_numbers(a: Binary64, b: Binary64)
    ensures
        gap(a, b) == a.scaled() - b.scaled() || gap(a, b) == b.scaled() - a.scaled(),
        gap(a, b) == gap(b, a),
{
}

/// Two ellipsoids are the same exactly if all their parameters are finite, the
/// difference of their semi-major axes, rounded to binary64, is below 1e-6, and that
/// of their flattenings below 1e-12.
pub proof fn law_same_ellipsoid_compares_both_parameters(a: Ellipsoid, b: Ellipsoid)
    ensures
        same_ellipsoid(a, b) <==> {
            &&& a.semi_major_axis.finite() && b.semi_major_axis.finite()
            &&& a.flattening.finite() && b.flattening.finite()
            &&& exists|r: Binary64| #[trigger]
                rounds_to(gap(a.semi_major_axis, b.semi_major_axis), r) && r.magnitude()
                    < magnitude_of(0x3EB0_C6F7_A0B5_ED8Du64)
            &&& exists|r: Binary64| #[trigger]
                rounds_to(gap(a.flattening, b.flattening), r) && r.magnitude() < magnitude_of(
                    0x3D71_9799_812D_EA11u64,
                )
        },
{
    if a.semi_major_axis.finite() && b.semi_major_axis.finite() {
        law_comparison_is_of_rounded_differences(
            a.semi_major_axis,
            b.semi_major_axis,
            0x3EB0_C6F7_A0B5_ED8Du64,
        );
    }
    if a.flattening.finite() && b.flattening.finite() {
        law_comparison_is_of_rounded_differences(
            a.flattening,
            b.flattening,
            0x3D71_9799_812D_EA11u64,
        );
    }
}

/// Two neighbours cancel exactly if one converts to geocentric coordinates, the other
/// from them, in either order, and their ellipsoids are the same.
pub proof fn law_only_opposite_conversions_cancel(a: Ellipsoid, b: Ellipsoid, left: Step, right: Step)
    ensures
        framing_cancels(
            Step::GeodeticToGeocentric { ellipsoid: a },
            Step::GeocentricToGeodetic { ellipsoid: b },
        ) == same_ellipsoid(a, b),
        framing_cancels(
            Step::GeocentricToGeodetic { ellipsoid: a },
            Step::GeodeticToGeocentric { ellipsoid: b },
        ) == same_ellipsoid(a, b),
        framing_cancels(left, right) ==> (left is GeodeticToGeocentric
            && right is GeocentricToGeodetic) || (left is GeocentricToGeodetic
            && right is GeodeticToGeocentric),
{
}

/// In what is left, no conversion is followed by its undoing on the same ellipsoid.
pub proof fn law_no_conversion_is_undone_at_once(steps: Seq<Step>, i: int, a: Ellipsoid, b: Ellipsoid)
    requires
        0 <= i < settled(steps).len() - 1,
        same_ellipsoid(a, b),
    ensures
        !(settled(steps)[i] == (Step::GeodeticToGeocentric { ellipsoid: a }) && settled(steps)[i
            + 1] == (Step::GeocentricToGeodetic { ellipsoid: b })),
        !(settled(steps)[i] == (Step::GeocentricToGeodetic { ellipsoid: a }) && settled(steps)[i
            + 1] == (Step::GeodeticToGeocentric { ellipsoid: b })),
{
    law_settled_is_final(steps);
    assert(!framing_cancels(settled(steps)[i], settled(steps)[i + 1]));
}

/// Steps of which none is followed by one that cancels it stay as they are.
pub proof fn law_steps_that_do_not_cancel_stay(steps: Seq<Step>)
    requires
        forall|i: int|
            0 <= i < steps.len() - 1 ==> !framing_cancels(#[trigger] steps[i], steps[i + 1]),
    ensures
        settled(steps) == steps,
        sweep(steps) == steps,
{
    law_nothing_else_is_dropped(steps);
    lemma_sweep_len(steps);
    if sweep(steps).len() == steps.len() {
        lemma_sweep_keeps(steps);
    } else {
        law_only_framing_pairs_are_dropped(sweep(steps));
    }
}

/// The leftmost neighbours that cancel go first, and the search goes on behind them;
/// when it has come to the end, it starts again.
pub proof fn law_leftmost_pair_goes_first(steps: Seq<Step>, i: int)
    requires
        0 <= i < steps.len() - 1,
        framing_cancels(steps[i], steps[i + 1]),
        forall|j: int| 0 <= j < i ==> !framing_cancels(#[trigger] steps[j], steps[j + 1]),
    ensures
        sweep(steps) == steps.take(i) + sweep(steps.skip(i + 2)),
        settled(steps) == settled(steps.take(i) + sweep(steps.skip(i + 2))),
    decreases steps.len(),
{
    lemma_sweep_len(steps.skip(i + 2));
    if i == 0 {
        assert(steps.take(0) + sweep(steps.skip(2)) =~= sweep(steps.skip(2)));
    } else {
        let rest = steps.skip(1);
        assert(!framing_cancels(steps[0], steps[1]));
        assert forall|j: int| 0 <= j < i - 1 implies !framing_cancels(
            #[trigger] rest[j],
            rest[j + 1],
        ) by {
            assert(!framing_cancels(steps[j + 1], steps[j + 2]));
        }
        law_leftmost_pair_goes_first(rest, i - 1);
        assert(rest.skip(i + 1) =~= steps.skip(i + 2));
        assert(seq![steps[0]] + (rest.take(i - 1) + sweep(steps.skip(i + 2))) =~= steps.take(i)
            + sweep(steps.skip(i + 2)));
    }
}

/// Of single steps, exactly the geocentric transformations and the conversions to and
/// from geocentric coordinates change height.
pub proof fn law_single_steps_and_height(step: Step)
    ensures
        transforms_height(seq![step]) == (step is Helmert || step is GeocentricAffine
            || step is GeodeticToGeocentric || step is GeocentricToGeodetic),
        !transforms_height(Seq::empty()),
{
    let steps = seq![step];
    assert(steps.take(0) =~= Seq::<Step>::empty());
    assert(open_passthroughs(0, steps.take(0)) == 0);
    assert(steps[0] == step);
}

proof fn lemma_depth_inside(depth: nat, body: Seq<Step>, i: int)
    requires
        balanced_from(depth, body),
        0 <= i <= body.len(),
    ensures
        open_passthroughs(depth + 1, body.take(i)) > 0,
    decreases body.len(),
{
    if i > 0 {
        let start = body.take(i);
        assert(start[0] == body[0]);
        assert(start.drop_first() =~= body.drop_first().take(i - 1));
        assert(depth_after(depth + 1, body[0]) == depth_after(depth, body[0]) + 1);
        lemma_depth_inside(depth_after(depth, body[0]), body.drop_first(), i - 1);
    }
}

/// Nothing inside a passthrough counts as changing height.
pub proof fn law_nothing_inside_a_passthrough_counts(body: Seq<Step>)
    requires
        balanced(body),
    ensures
        !transforms_height(seq![Step::PushHeight] + body + seq![Step::PopHeight]),
{
    let all = seq![Step::PushHeight] + body + seq![Step::PopHeight];
    assert forall|i: int|
        0 <= i < all.len() && alters_height(#[trigger] all[i]) implies open_passthroughs(
        0,
        all.take(i),
    ) != 0 by {
        if 0 < i <= body.len() {
            assert(all.take(i)[0] == Step::PushHeight);
            assert(all.take(i).drop_first() =~= body.take(i - 1));
            lemma_depth_inside(0, body, i - 1);
        }
    }
}

/// Nothing behind a saved height that is not restored counts as changing height.
pub proof fn law_nothing_behind_a_saved_height_counts(body: Seq<Step>)
    requires
        balanced(body),
    ensures
        !transforms_height(seq![Step::PushHeight] + body),
{
    let all = seq![Step::PushHeight] + body;
    assert forall|i: int| 0 <= i < all.len() && alters_height(#[trigger] all[i]) implies
        open_passthroughs(0, all.take(i)) != 0 by {
        if 0 < i {
            assert(all.take(i)[0] == Step::PushHeight);
            assert(all.take(i).drop_first() =~= body.take(i - 1));
            lemma_depth_inside(0, body, i - 1);
        }
    }
}

/// A restored height that was not saved opens and closes nothing.
pub proof fn law_unmatched_restoring_counts_for_nothing(steps: Seq<Step>)
    ensures
        transforms_height(seq![Step::PopHeight] + steps) == transforms_height(steps),
{
    let all = seq![Step::PopHeight] + steps;
    lemma_exposed_split(0, all);
    assert(all.drop_first() =~= steps);
}

/// The opposite of a direction is the other one.
pub proof fn law_opposite_directions(
    direction: OperationStepDirection,
    grid_direction: GridShiftDirection,
)
    ensures
        direction.opposite() != direction,
        grid_direction.opposite() != grid_direction,
        direction.opposite().opposite() == direction,
        grid_direction.opposite().opposite() == grid_direction,
{
}

/// The datum of a system is its own, whatever kind of system it is.
pub proof fn law_datum_of_a_system(crs: CrsDef)
    ensures
        crs matches CrsDef::Geographic(geographic) ==> crs.datum_spec() == geographic.datum,
        crs matches CrsDef::Projected(projected) ==> crs.datum_spec() == projected.datum,
        crs matches CrsDef::Geocentric(geocentric) ==> crs.datum_spec() == geocentric.datum,
{
}

/// A table gives the first entry with a number, and none if there is no such entry.
pub proof fn law_first_entry_counts<T>(entries: Seq<(u32, T)>, number: u32, i: int)
    ensures
        0 <= i < entries.len() && entries[i].0 == number && (forall|j: int|
            0 <= j < i ==> (#[trigger] entries[j]).0 != number) ==> entry(entries, number) == Some(
            entries[i].1,
        ),
        (forall|j: int| 0 <= j < entries.len() ==> (#[trigger] entries[j]).0 != number) ==> entry(
            entries,
            number,
        ) is None,
    decreases entries.len(),
{
    if entries.len() > 0 {
        let rest = entries.drop_first();
        law_first_entry_counts(rest, number, i - 1);
        assert forall|j: int| 0 <= j < rest.len() implies rest[j] == #[trigger] entries[j + 1] by {}
        if entries[0].0 != number {
            if 0 < i < entries.len() && entries[i].0 == number && (forall|j: int|
                0 <= j < i ==> (#[trigger] entries[j]).0 != number) {
                assert(rest[i - 1] == entries[i]);
                assert forall|j: int| 0 <= j < i - 1 implies (#[trigger] rest[j]).0 != number by {
                    assert(rest[j] == entries[j + 1]);
                }
            }
            if forall|j: int| 0 <= j < entries.len() ==> (#[trigger] entries[j]).0 != number {
                assert forall|j: int| 0 <= j < rest.len() implies (#[trigger] rest[j]).0 != number by {
                    assert(rest[j] == entries[j + 1]);
                }
            }
        } else {
            assert(entries[0].0 == number);
        }
    }
}

/// The number that decimal digits stand for.
pub open spec fn number_of(digits: Seq<char>) -> nat
    decreases digits.len(),
{
    if digits.len() == 0 {
        0
    } else {
        10 * number_of(digits.drop_last()) + (digits.last() as nat - '0' as nat) as nat
    }
}

/// The decimal digits of a number are digits, stand for the number, and do not start
/// with a zero unless that is all.
pub proof fn law_decimal_digits(n: nat)
    ensures
        number_of(decimal(n)) == n,
        decimal(n).len() > 0,
        decimal(n).len() > 1 ==> decimal(n)[0] != '0',
        forall|i: int| 0 <= i < decimal(n).len() ==> '0' <= #[trigger] decimal(n)[i] <= '9',
    decreases n,
{
    reveal_with_fuel(number_of, 2);
    if n < 10 {
        assert(decimal(n).drop_last() =~= Seq::<char>::empty());
    } else {
        law_decimal_digits(n / 10);
        assert(decimal(n).drop_last() =~= decimal(n / 10));
        if n / 10 < 10 {
            assert(decimal(n / 10)[0] != '0');
        }
    }
}

/// The words of the two checks.
pub proof fn law_words_of_the_checks(context: Seq<char>, input_len: nat, output_len: nat)
    ensures
        not_finite(context) == ErrorView::OutOfRange(context + " must be finite"@),
        length_mismatch(input_len, output_len) == ErrorView::OutOfRange(
            "output coordinate slice length "@ + decimal(output_len)
                + " does not match input length "@ + decimal(input_len),
        ),
{
}

/// A batch is spread exactly from 16384 items on and from 4096 for each thread on,
/// unless that many items cannot be counted; then from the most items on that can.
pub proof fn law_when_a_batch_is_spread(len: usize, threads: usize)
    ensures
        threads <= 4 ==> wide_enough(len, threads) == (len >= 16_384),
        threads > 4 && threads * 4_096 <= usize::MAX ==> wide_enough(len, threads) == (len
            >= threads * 4_096),
        threads * 4_096 > usize::MAX ==> wide_enough(len, threads) == (len == usize::MAX),
{
}

/// Errors show what they are: two that show the same have the same kind and text.
pub proof fn law_errors_are_told_apart(text: String, grid: GridError)
    ensures
        Error::OutOfRange(text)@ == ErrorView::OutOfRange(text@),
        Error::InvalidDefinition(text)@ == ErrorView::InvalidDefinition(text@),
        Error::UnknownCrs(text)@ == ErrorView::UnknownCrs(text@),
        Error::UnknownOperation(text)@ == ErrorView::UnknownOperation(text@),
        Error::UnsupportedProjection(text)@ == ErrorView::UnsupportedProjection(text@),
        Error::OperationSelection(text)@ == ErrorView::OperationSelection(text@),
        Error::Grid(grid)@ == ErrorView::Grid(grid@),
        GridError::NotFound(text)@ == GridErrorView::NotFound(text@),
        GridError::Unavailable(text)@ == GridErrorView::Unavailable(text@),
        GridError::OutsideCoverage(text)@ == GridErrorView::OutsideCoverage(text@),
        GridError::UnsupportedFormat(text)@ == GridErrorView::UnsupportedFormat(text@),
        GridError::Malformed(text)@ == GridErrorView::Malformed(text@),
        Error::OutOfRange(text)@.detail() == text@,
        Error::InvalidDefinition(text)@.detail() == text@,
        Error::UnknownCrs(text)@.detail() == text@,
        Error::UnknownOperation(text)@.detail() == text@,
        Error::UnsupportedProjection(text)@.detail() == text@,
        Error::OperationSelection(text)@.detail() == text@,
        Error::Grid(grid)@.detail() == grid@.detail(),
        GridError::NotFound(text)@.detail() == text@,
        GridError::Unavailable(text)@.detail() == text@,
        GridError::OutsideCoverage(text)@.detail() == text@,
        GridError::UnsupportedFormat(text)@.detail() == text@,
        GridError::Malformed(text)@.detail() == text@,
{
}

/// Steps show what they are: two that show the same are of one kind and hold the same.
pub proof fn law_steps_are_told_apart(a: CompiledStep, b: CompiledStep)
    requires
        a@ == b@,
    ensures
        match a {
            CompiledStep::GridShiftList { handles, allow_null, direction } => {
                &&& b is GridShiftList
                &&& b->GridShiftList_handles@ == handles@
                &&& b->GridShiftList_allow_null == allow_null
                &&& b->GridShiftList_direction == direction
            },
            _ => b == a,
        },
{
}

/// A table whose operations can be ranked so that every step of an operation has a
/// lower rank than the operation, or is not in the table, holds no operation that
/// contains itself.
pub proof fn law_ranked_tables_are_acyclic(
    operations: Seq<(u32, CoordinateOperation)>,
    ranks: Seq<nat>,
)
    requires
        ranks.len() == operations.len(),
        forall|i: int| 0 <= i < ranks.len() ==> #[trigger] ranks[i] < operations.len(),
        forall|i: int, j: int, k: int|
            #![trigger operations[i].1.method->Concatenated_steps@[k], ranks[j]]
            0 <= i < operations.len() && operations[i].1.method is Concatenated && 0 <= k
                < operations[i].1.method->Concatenated_steps@.len() && 0 <= j < operations.len()
                && operations[j].0
                == operations[i].1.method->Concatenated_steps@[k].operation_id.0 ==> ranks[j]
                < ranks[i],
    ensures
        acyclic(operations),
{
    assert forall|i: int| 0 <= i < operations.len() implies expands_within(
        operations,
        (#[trigger] operations[i]).1,
        operations.len(),
    ) by {
        assert(ranks[i] < operations.len());
        lemma_expands_to_rank(operations, ranks, i, operations.len());
    }
}

proof fn lemma_expands_to_rank(
    operations: Seq<(u32, CoordinateOperation)>,
    ranks: Seq<nat>,
    i: int,
    levels: nat,
)
    requires
        0 <= i < operations.len(),
        ranks.len() == operations.len(),
        ranks[i] < levels,
        forall|i: int, j: int, k: int|
            #![trigger operations[i].1.method->Concatenated_steps@[k], ranks[j]]
            0 <= i < operations.len() && operations[i].1.method is Concatenated && 0 <= k
                < operations[i].1.method->Concatenated_steps@.len() && 0 <= j < operations.len()
                && operations[j].0
                == operations[i].1.method->Concatenated_steps@[k].operation_id.0 ==> ranks[j]
                < ranks[i],
    ensures
        expands_within(operations, operations[i].1, levels),
    decreases levels,
{
    if let OperationMethod::Concatenated { steps } = operations[i].1.method {
        assert forall|k: int| 0 <= k < steps@.len() implies match entry(
            operations,
            (#[trigger] steps@[k]).operation_id.0,
        ) {
            Some(child) => expands_within(operations, child, (levels - 1) as nat),
            None => true,
        } by {
            let number = steps@[k].operation_id.0;
            if entry(operations, number) is Some {
                let at = lemma_where_entry_stands(operations, number);
                assert(operations[i].1.method->Concatenated_steps@[k].operation_id.0 == number);
                assert(ranks[at] < ranks[i]);
                lemma_expands_to_rank(operations, ranks, at, (levels - 1) as nat);
            }
        }
    }
}

proof fn lemma_where_entry_stands<T>(entries: Seq<(u32, T)>, number: u32) -> (i: int)
    requires
        entry(entries, number) is Some,
    ensures
        0 <= i < entries.len(),
        entries[i].0 == number,
        entry(entries, number) == Some(entries[i].1),
    decreases entries.len(),
{
    if entries[0].0 == number {
        0
    } else {
        let j = lemma_where_entry_stands(entries.drop_first(), number);
        assert(entries.drop_first()[j] == entries[j + 1]);
        j + 1
    }
}

/// Whether every number of a set leads on to another of the set: the table holds a
/// concatenated operation under it, with a step whose number is in the set.
pub open spec fn leads_round(
    operations: Seq<(u32, CoordinateOperation)>,
    numbers: Set<u32>,
) -> bool {
    forall|number: u32| #[trigger]
        numbers.contains(number) ==> (entry(operations, number) matches Some(operation)
            && operation.method is Concatenated && exists|k: int|
            0 <= k < operation.method->Concatenated_steps@.len() && numbers.contains(
                (#[trigger] operation.method->Concatenated_steps@[k]).operation_id.0,
            ))
}

/// Operations that lead round to each other contain themselves.
pub proof fn law_operations_that_lead_round_are_cyclic(
    operations: Seq<(u32, CoordinateOperation)>,
    numbers: Set<u32>,
    number: u32,
)
    requires
        leads_round(operations, numbers),
        numbers.contains(number),
    ensures
        !acyclic(operations),
{
    let at = lemma_where_entry_stands(operations, number);
    lemma_never_expands(operations, numbers, number, operations.len());
    assert(!expands_within(operations, operations[at].1, operations.len()));
}

proof fn lemma_never_expands(
    operations: Seq<(u32, CoordinateOperation)>,
    numbers: Set<u32>,
    number: u32,
    levels: nat,
)
    requires
        leads_round(operations, numbers),
        numbers.contains(number),
    ensures
        !expands_within(operations, entry(operations, number)->0, levels),
    decreases levels,
{
    if levels > 0 {
        let steps = entry(operations, number)->0.method->Concatenated_steps@;
        let k = choose|k: int|
            0 <= k < steps.len() && numbers.contains((#[trigger] steps[k]).operation_id.0);
        lemma_never_expands(
            operations,
            numbers,
            steps[k].operation_id.0,
            (levels - 1) as nat,
        );
    }
}

/// Replies and outcomes are read as they are, with the words of an error as text.
pub proof fn law_replies_are_read_as_they_are(
    coord: Coord3D,
    error: Error,
    numeric: NumericRequest,
    service: ServiceRequest,
)
    ensures
        reply_view(Ok(coord)) == Ok::<Coord3D, ErrorView>(coord),
        reply_view(Err(error)) == Err::<Coord3D, ErrorView>(error@),
        outcome::<Coord3D>(Ok(coord)) == Ok::<Coord3D, HaltView>(coord),
        outcome::<Coord3D>(Err(Halt::Failed(error))) == Err::<Coord3D, HaltView>(
            HaltView::Failed(error@),
        ),
        outcome::<Coord3D>(Err(Halt::Pending(numeric))) == Err::<Coord3D, HaltView>(
            HaltView::Pending(numeric),
        ),
        service_reply_view(Ok(())) == Ok::<(), ErrorView>(()),
        service_reply_view(Err(error)) == Err::<(), ErrorView>(error@),
        halt_of::<()>(Ok(())) is None,
        halt_of::<()>(Err(CompileHalt::Failed(error))) == Some(CompileHaltView::Failed(error@)),
        halt_of::<()>(Err(CompileHalt::Pending(service))) == Some(
            CompileHaltView::Pending(service),
        ),
{
}

} // verus!
