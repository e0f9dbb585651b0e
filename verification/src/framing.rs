//! Dropping conversions to geocentric coordinates that the next step undoes.
use vstd::prelude::*;
use crate::ellipsoid::{ellipsoids_match, same_ellipsoid};
use crate::step::{CompiledStep, Step, StepList};

verus! {

/// Whether the two steps are a conversion between geodetic and geocentric
/// coordinates and its undoing on the same ellipsoid.
pub open spec fn framing_cancels(left: Step, right: Step) -> bool {
    match (left, right) {
        (
            Step::GeodeticToGeocentric { ellipsoid: a },
            Step::GeocentricToGeodetic { ellipsoid: b },
        ) => same_ellipsoid(a, b),
        (
            Step::GeocentricToGeodetic { ellipsoid: a },
            Step::GeodeticToGeocentric { ellipsoid: b },
        ) => same_ellipsoid(a, b),
        _ => false,
    }
}

/// One sweep from left to right: two neighbours that cancel are dropped, and
/// the sweep goes on behind them; any other step is kept.
pub open spec fn sweep(steps: Seq<Step>) -> Seq<Step>
    decreases steps.len(),
{
    if steps.len() < 2 {
        steps
    } else if framing_cancels(steps[0], steps[1]) {
        sweep(steps.skip(2))
    } else {
        seq![steps[0]] + sweep(steps.skip(1))
    }
}

/// A sweep keeps steps in order and adds none.
pub proof fn lemma_sweep_len(steps: Seq<Step>)
    ensures
        sweep(steps).len() <= steps.len(),
    decreases steps.len(),
{
    if steps.len() >= 2 {
        if framing_cancels(steps[0], steps[1]) {
            lemma_sweep_len(steps.skip(2));
        } else {
            lemma_sweep_len(steps.skip(1));
        }
    }
}

/// The steps that remain when sweeps drop nothing more.
pub open spec fn settled(steps: Seq<Step>) -> Seq<Step>
    decreases steps.len(),
{
    if sweep(steps).len() < steps.len() {
        settled(sweep(steps))
    } else {
        steps
    }
}

/// Whether no two neighbours cancel.
pub open spec fn no_redundant_framing(steps: Seq<Step>) -> bool {
    forall|i: int|
        0 <= i < steps.len() - 1 ==> !framing_cancels(#[trigger] steps[i], steps[i + 1])
}

/// A sweep that drops nothing met no two neighbours that cancel.
pub proof fn lemma_sweep_keeps(steps: Seq<Step>)
    requires
        sweep(steps).len() == steps.len(),
    ensures
        sweep(steps) == steps,
        no_redundant_framing(steps),
    decreases steps.len(),
{
    if steps.len() >= 2 {
        if framing_cancels(steps[0], steps[1]) {
            lemma_sweep_len(steps.skip(2));
        } else {
            let rest = steps.skip(1);
            lemma_sweep_keeps(rest);
            assert(seq![steps[0]] + rest =~= steps);
            assert forall|i: int| 0 <= i < steps.len() - 1 implies !framing_cancels(
                #[trigger] steps[i],
                steps[i + 1],
            ) by {
                if i > 0 {
                    assert(!framing_cancels(rest[i - 1], rest[i]));
                }
            }
        }
    }
}

/// Whether `left` and `right` are a conversion between geodetic and geocentric
/// coordinates and its undoing on the same ellipsoid.
pub fn geocentric_framing_cancels(left: &CompiledStep, right: &CompiledStep) -> (result: bool)
    ensures
        result == framing_cancels(left@, right@),
{
    match (left, right) {
        (
            CompiledStep::GeodeticToGeocentric { ellipsoid: a },
            CompiledStep::GeocentricToGeodetic { ellipsoid: b },
        ) => ellipsoids_match(*a, *b),
        (
            CompiledStep::GeocentricToGeodetic { ellipsoid: a },
            CompiledStep::GeodeticToGeocentric { ellipsoid: b },
        ) => ellipsoids_match(*a, *b),
        _ => false,
    }
}

/// Drops neighbouring conversions between geodetic and geocentric coordinates
/// that undo each other, until none are left.
pub fn cancel_redundant_geocentric_framing(steps: &mut StepList)
    ensures
        final(steps)@ == settled(old(steps)@),
        no_redundant_framing(final(steps)@),
{
    loop
        invariant
            settled(steps@) == settled(old(steps)@),
        ensures
            steps@ == settled(old(steps)@),
            no_redundant_framing(steps@),
        decreases steps@.len(),
    {
        let ghost before = steps@;
        let most: usize = steps.len();
        let mut removed: bool = false;
        let mut i: usize = 0;
        assert(before.skip(0) =~= before);
        assert(before.take(0) + sweep(before) =~= sweep(before));
        while i + 1 < steps.len()
            invariant
                i <= steps@.len() <= before.len() == most,
                i == 0 || i < most,
                steps@.take(i as int) + sweep(steps@.skip(i as int)) == sweep(before),
                removed == (steps@.len() < before.len()),
            decreases steps@.len() - i,
        {
            let ghost now = steps@;
            let ghost rest = now.skip(i as int);
            if geocentric_framing_cancels(steps.at(i), steps.at(i + 1)) {
                steps.remove(i + 1);
                steps.remove(i);
                removed = true;
                proof {
                    assert(steps@.take(i as int) =~= now.take(i as int));
                    assert(steps@.skip(i as int) =~= rest.skip(2));
                }
            } else {
                i = i + 1;
                proof {
                    assert(rest.skip(1) =~= now.skip(i as int));
                    assert(now.take(i as int) + sweep(now.skip(i as int)) =~= now.take(i - 1) + (
                    seq![rest[0]] + sweep(rest.skip(1))));
                }
            }
        }
        proof {
            let rest = steps@.skip(i as int);
            assert(sweep(rest) == rest);
            assert(steps@.take(i as int) + rest =~= steps@);
            lemma_sweep_len(before);
        }
        if !removed {
            proof {
                lemma_sweep_keeps(before);
            }
            break;
        }
    }
}

} // verus!
