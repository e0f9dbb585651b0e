//! What holds of dropping redundant framing.
use vstd::prelude::*;
use crate::binary64::Binary64;
use crate::coord::Coord3D;
use crate::execute::{step_outcome, steps_outcome};
use crate::framing::{
    framing_cancels, lemma_sweep_keeps, lemma_sweep_len, no_redundant_framing, settled, sweep,
};
use crate::height::{
    balanced, balanced_from, depth_after, exposed, lemma_exposed_split, transforms_height,
};
use crate::numerics::{HaltView, Replies};
use crate::step::Step;

verus! {

/// Whether the step converts between geodetic and geocentric coordinates.
pub open spec fn is_framing(step: Step) -> bool {
    step is GeodeticToGeocentric || step is GeocentricToGeodetic
}

/// The steps that do not convert between geodetic and geocentric coordinates.
pub open spec fn working_steps(steps: Seq<Step>) -> Seq<Step>
    decreases steps.len(),
{
    if steps.len() == 0 {
        steps
    } else if is_framing(steps[0]) {
        working_steps(steps.drop_first())
    } else {
        seq![steps[0]] + working_steps(steps.drop_first())
    }
}

/// The number of conversions to geocentric coordinates.
pub open spec fn conversions_in(steps: Seq<Step>) -> nat
    decreases steps.len(),
{
    if steps.len() == 0 {
        0
    } else {
        conversions_in(steps.drop_first()) + if steps[0] is GeodeticToGeocentric {
            1nat
        } else {
            0
        }
    }
}

/// The number of conversions from geocentric coordinates.
pub open spec fn conversions_out(steps: Seq<Step>) -> nat
    decreases steps.len(),
{
    if steps.len() == 0 {
        0
    } else {
        conversions_out(steps.drop_first()) + if steps[0] is GeocentricToGeodetic {
            1nat
        } else {
            0
        }
    }
}

/// Whether the positions lie below `len`, each behind the one before it.
pub open spec fn ascending(positions: Seq<int>, len: nat) -> bool {
    &&& forall|i: int| 0 <= i < positions.len() ==> 0 <= #[trigger] positions[i] < len
    &&& forall|i: int, j: int| 0 <= i < j < positions.len() ==> positions[i] < positions[j]
}

/// The steps at the given positions.
pub open spec fn steps_at(steps: Seq<Step>, positions: Seq<int>) -> Seq<Step> {
    Seq::new(positions.len(), |i: int| steps[positions[i]])
}

/// Whether `part` is what is left of `whole` when some steps are taken out and
/// the others stay in order.
pub open spec fn is_subsequence(part: Seq<Step>, whole: Seq<Step>) -> bool {
    exists|positions: Seq<int>| #[trigger]
        ascending(positions, whole.len()) && part == steps_at(whole, positions)
}

/// What remains is free of neighbours that cancel, and settled steps stay as
/// they are.
pub proof fn law_settled_is_final(steps: Seq<Step>)
    ensures
        no_redundant_framing(settled(steps)),
        settled(settled(steps)) == settled(steps),
    decreases steps.len(),
{
    lemma_sweep_len(steps);
    if sweep(steps).len() < steps.len() {
        law_settled_is_final(sweep(steps));
    } else {
        lemma_sweep_keeps(steps);
    }
}

proof fn lemma_no_pair_sweep(steps: Seq<Step>)
    requires
        no_redundant_framing(steps),
    ensures
        sweep(steps) == steps,
    decreases steps.len(),
{
    if steps.len() >= 2 {
        assert(!framing_cancels(steps[0], steps[1]));
        let rest = steps.skip(1);
        assert forall|i: int| 0 <= i < rest.len() - 1 implies !framing_cancels(
            #[trigger] rest[i],
            rest[i + 1],
        ) by {
            assert(!framing_cancels(steps[i + 1], steps[i + 2]));
        }
        lemma_no_pair_sweep(rest);
        assert(seq![steps[0]] + rest =~= steps);
    }
}

/// Steps among which no two neighbours cancel are left alone.
pub proof fn law_nothing_else_is_dropped(steps: Seq<Step>)
    requires
        no_redundant_framing(steps),
    ensures
        settled(steps) == steps,
{
    lemma_no_pair_sweep(steps);
}

proof fn lemma_sweep_working(steps: Seq<Step>)
    ensures
        working_steps(sweep(steps)) == working_steps(steps),
        (steps.len() - sweep(steps).len()) % 2 == 0,
        conversions_in(steps) - conversions_in(sweep(steps)) == conversions_out(steps)
            - conversions_out(sweep(steps)),
        2 * (conversions_in(steps) - conversions_in(sweep(steps))) == steps.len() - sweep(
            steps,
        ).len(),
    decreases steps.len(),
{
    reveal_with_fuel(working_steps, 2);
    reveal_with_fuel(conversions_in, 3);
    reveal_with_fuel(conversions_out, 3);
    lemma_sweep_len(steps);
    if steps.len() >= 2 {
        if framing_cancels(steps[0], steps[1]) {
            lemma_sweep_working(steps.skip(2));
            assert(steps.drop_first().drop_first() =~= steps.skip(2));
            assert(steps.drop_first()[0] == steps[1]);
        } else {
            lemma_sweep_working(steps.skip(1));
            let swept = seq![steps[0]] + sweep(steps.skip(1));
            assert(steps.drop_first() =~= steps.skip(1));
            assert(swept.drop_first() =~= sweep(steps.skip(1)));
        }
    }
}

/// The positions of what a sweep keeps.
proof fn lemma_sweep_positions(steps: Seq<Step>) -> (kept: Seq<int>)
    ensures
        ascending(kept, steps.len()),
        sweep(steps) == steps_at(steps, kept),
    decreases steps.len(),
{
    if steps.len() < 2 {
        let kept = Seq::new(steps.len(), |i: int| i);
        assert(sweep(steps) =~= steps_at(steps, kept));
        kept
    } else if framing_cancels(steps[0], steps[1]) {
        let rest = lemma_sweep_positions(steps.skip(2));
        let kept = Seq::new(rest.len(), |i: int| rest[i] + 2);
        assert(steps_at(steps.skip(2), rest) =~= steps_at(steps, kept));
        kept
    } else {
        let rest = lemma_sweep_positions(steps.skip(1));
        let kept = seq![0int] + Seq::new(rest.len(), |i: int| rest[i] + 1);
        assert forall|i: int, j: int| 0 <= i < j < kept.len() implies kept[i] < kept[j] by {
            if i > 0 {
                assert(rest[i - 1] < rest[j - 1]);
            }
        }
        assert(seq![steps[0]] + steps_at(steps.skip(1), rest) =~= steps_at(steps, kept));
        kept
    }
}

/// What is left of what was left is a subsequence of the whole.
proof fn lemma_subsequence_of_part(part: Seq<Step>, middle: Seq<Step>, whole: Seq<Step>)
    requires
        is_subsequence(part, middle),
        is_subsequence(middle, whole),
    ensures
        is_subsequence(part, whole),
{
    let inner = choose|positions: Seq<int>| #[trigger]
        ascending(positions, middle.len()) && part == steps_at(middle, positions);
    let outer = choose|positions: Seq<int>| #[trigger]
        ascending(positions, whole.len()) && middle == steps_at(whole, positions);
    let kept = Seq::new(inner.len(), |i: int| outer[inner[i]]);
    assert(ascending(kept, whole.len()));
    assert(part =~= steps_at(whole, kept));
}

/// Only conversions between geodetic and geocentric coordinates are dropped, one
/// of either kind for one of the other: every other step stays, and all that is
/// left stays in order.
pub proof fn law_only_framing_pairs_are_dropped(steps: Seq<Step>)
    ensures
        working_steps(settled(steps)) == working_steps(steps),
        is_subsequence(settled(steps), steps),
        settled(steps).len() <= steps.len(),
        (steps.len() - settled(steps).len()) % 2 == 0,
        conversions_in(steps) - conversions_in(settled(steps)) == conversions_out(steps)
            - conversions_out(settled(steps)),
        2 * (conversions_in(steps) - conversions_in(settled(steps))) == steps.len() - settled(
            steps,
        ).len(),
    decreases steps.len(),
{
    lemma_sweep_len(steps);
    lemma_sweep_working(steps);
    let kept = lemma_sweep_positions(steps);
    assert(is_subsequence(sweep(steps), steps));
    if sweep(steps).len() < steps.len() {
        law_only_framing_pairs_are_dropped(sweep(steps));
        lemma_subsequence_of_part(settled(steps), sweep(steps), steps);
    } else {
        lemma_sweep_keeps(steps);
    }
}

proof fn lemma_sweep_balanced(depth: nat, steps: Seq<Step>)
    requires
        balanced_from(depth, steps),
    ensures
        balanced_from(depth, sweep(steps)),
    decreases steps.len(),
{
    if steps.len() >= 2 {
        if framing_cancels(steps[0], steps[1]) {
            assert(steps.drop_first().drop_first() =~= steps.skip(2));
            assert(steps.drop_first()[0] == steps[1]);
            assert(balanced_from(depth, steps.drop_first()));
            lemma_sweep_balanced(depth, steps.skip(2));
        } else {
            assert(steps.drop_first() =~= steps.skip(1));
            lemma_sweep_balanced(depth_after(depth, steps[0]), steps.skip(1));
            let swept = seq![steps[0]] + sweep(steps.skip(1));
            assert(swept.drop_first() =~= sweep(steps.skip(1)));
        }
    }
}

/// Heights that pair up still do when redundant framing is dropped.
pub proof fn law_dropping_framing_keeps_balance(steps: Seq<Step>)
    requires
        balanced(steps),
    ensures
        balanced(settled(steps)),
    decreases steps.len(),
{
    lemma_sweep_balanced(0, steps);
    lemma_sweep_len(steps);
    if sweep(steps).len() < steps.len() {
        law_dropping_framing_keeps_balance(sweep(steps));
    }
}

proof fn lemma_sweep_exposes_nothing(depth: nat, steps: Seq<Step>)
    requires
        !exposed(depth, steps),
    ensures
        !exposed(depth, sweep(steps)),
    decreases steps.len(),
{
    if steps.len() >= 2 {
        lemma_exposed_split(depth, steps);
        if framing_cancels(steps[0], steps[1]) {
            lemma_exposed_split(depth, steps.drop_first());
            assert(steps.drop_first().drop_first() =~= steps.skip(2));
            lemma_sweep_exposes_nothing(depth, steps.skip(2));
        } else {
            assert(steps.drop_first() =~= steps.skip(1));
            lemma_sweep_exposes_nothing(depth_after(depth, steps[0]), steps.skip(1));
            let swept = seq![steps[0]] + sweep(steps.skip(1));
            assert(swept.drop_first() =~= sweep(steps.skip(1)));
            lemma_exposed_split(depth, swept);
        }
    }
}

/// Steps that do not change ellipsoidal height still do not when redundant
/// framing is dropped.
pub proof fn law_dropping_framing_exposes_no_height(steps: Seq<Step>)
    requires
        !transforms_height(steps),
    ensures
        !transforms_height(settled(steps)),
    decreases steps.len(),
{
    lemma_sweep_exposes_nothing(0, steps);
    lemma_sweep_len(steps);
    if sweep(steps).len() < steps.len() {
        law_dropping_framing_exposes_no_height(sweep(steps));
    }
}

/// Whether two steps that cancel give every coordinate back that they took.
pub open spec fn cancelling_steps_undo(replies: Replies) -> bool {
    forall|left: Step, right: Step, from: Coord3D, through: Coord3D|
        framing_cancels(left, right) && #[trigger] step_outcome(left, from, replies) == Ok::<
            Coord3D,
            HaltView,
        >(through) && (#[trigger] step_outcome(right, through, replies)) is Ok ==> step_outcome(
            right,
            through,
            replies,
        )->Ok_0 == from
}

proof fn lemma_sweep_outcome(
    steps: Seq<Step>,
    coord: Coord3D,
    heights: Seq<Binary64>,
    replies: Replies,
)
    requires
        cancelling_steps_undo(replies),
        steps_outcome(steps, coord, heights, replies) is Ok,
    ensures
        steps_outcome(sweep(steps), coord, heights, replies) == steps_outcome(
            steps,
            coord,
            heights,
            replies,
        ),
    decreases steps.len(),
{
    reveal_with_fuel(steps_outcome, 3);
    if steps.len() >= 2 {
        let rest = steps.drop_first();
        if framing_cancels(steps[0], steps[1]) {
            assert(rest[0] == steps[1]);
            assert(rest.drop_first() =~= steps.skip(2));
            let through = step_outcome(steps[0], coord, replies)->Ok_0;
            let to = step_outcome(steps[1], through, replies)->Ok_0;
            assert(to == coord);
            lemma_sweep_outcome(steps.skip(2), coord, heights, replies);
        } else {
            assert(rest =~= steps.skip(1));
            let swept = seq![steps[0]] + sweep(rest);
            assert(swept.drop_first() =~= sweep(rest));
            match steps[0] {
                Step::PushHeight => {
                    lemma_sweep_outcome(rest, coord, heights.push(coord.z), replies);
                },
                Step::PopHeight => {
                    let restored = Coord3D { x: coord.x, y: coord.y, z: heights.last() };
                    lemma_sweep_outcome(rest, restored, heights.drop_last(), replies);
                },
                step => {
                    let moved = step_outcome(step, coord, replies)->Ok_0;
                    lemma_sweep_outcome(rest, moved, heights, replies);
                },
            }
        }
    }
}

/// Where steps that cancel give every coordinate back that they took, dropping
/// them changes nothing about what the steps come to.
pub proof fn law_dropping_framing_keeps_outcome(
    steps: Seq<Step>,
    coord: Coord3D,
    replies: Replies,
)
    requires
        cancelling_steps_undo(replies),
        steps_outcome(steps, coord, Seq::empty(), replies) is Ok,
    ensures
        steps_outcome(settled(steps), coord, Seq::empty(), replies) == steps_outcome(
            steps,
            coord,
            Seq::empty(),
            replies,
        ),
    decreases steps.len(),
{
    lemma_sweep_outcome(steps, coord, Seq::empty(), replies);
    lemma_sweep_len(steps);
    if sweep(steps).len() < steps.len() {
        law_dropping_framing_keeps_outcome(sweep(steps), coord, replies);
    }
}

} // verus!
