//! Which steps change ellipsoidal height, and which of them a height
//! passthrough shields.
use vstd::prelude::*;
use crate::step::{CompiledStep, Step, StepList};

verus! {

/// Whether the step may give the coordinate another height.
pub open spec fn alters_height(step: Step) -> bool {
    step is Helmert || step is GeocentricAffine || step is GeodeticToGeocentric
        || step is GeocentricToGeodetic
}

/// The number of open passthroughs after a step. A restored height closes one,
/// if there is one.
pub open spec fn depth_after(depth: nat, step: Step) -> nat {
    if step is PushHeight {
        depth + 1
    } else if step is PopHeight && depth > 0 {
        (depth - 1) as nat
    } else {
        depth
    }
}

/// The number of open passthroughs after `steps`, with `depth` of them open
/// before.
pub open spec fn open_passthroughs(depth: nat, steps: Seq<Step>) -> nat
    decreases steps.len(),
{
    if steps.len() == 0 {
        depth
    } else {
        open_passthroughs(depth_after(depth, steps[0]), steps.drop_first())
    }
}

/// Whether a step that may change height stands outside every passthrough, with
/// `depth` of them open at the start.
pub open spec fn exposed(depth: nat, steps: Seq<Step>) -> bool {
    exists|i: int|
        0 <= i < steps.len() && alters_height(#[trigger] steps[i]) && open_passthroughs(
            depth,
            steps.take(i),
        ) == 0
}

/// Whether the steps change ellipsoidal height: a step that may do so stands
/// outside every passthrough.
pub open spec fn transforms_height(steps: Seq<Step>) -> bool {
    exposed(0, steps)
}

/// Whether every restored height was saved before, and every saved one is
/// restored, with `depth` heights saved at the start.
pub open spec fn balanced_from(depth: nat, steps: Seq<Step>) -> bool
    decreases steps.len(),
{
    if steps.len() == 0 {
        depth == 0
    } else {
        (steps[0] is PopHeight ==> depth > 0) && balanced_from(
            depth_after(depth, steps[0]),
            steps.drop_first(),
        )
    }
}

/// Whether the saved and the restored heights pair up.
pub open spec fn balanced(steps: Seq<Step>) -> bool {
    balanced_from(0, steps)
}

/// Passthroughs of a sequence that is extended by one step.
pub proof fn lemma_open_push(depth: nat, steps: Seq<Step>, step: Step)
    ensures
        open_passthroughs(depth, steps.push(step)) == depth_after(
            open_passthroughs(depth, steps),
            step,
        ),
    decreases steps.len(),
{
    reveal_with_fuel(open_passthroughs, 2);
    let longer = steps.push(step);
    if steps.len() == 0 {
        assert(longer.drop_first() =~= steps);
    } else {
        assert(longer[0] == steps[0]);
        assert(longer.drop_first() =~= steps.drop_first().push(step));
        lemma_open_push(depth_after(depth, steps[0]), steps.drop_first(), step);
    }
}

/// A step is exposed if it is the first one or one of the others.
pub proof fn lemma_exposed_split(depth: nat, steps: Seq<Step>)
    requires
        steps.len() > 0,
    ensures
        exposed(depth, steps) == (alters_height(steps[0]) && depth == 0 || exposed(
            depth_after(depth, steps[0]),
            steps.drop_first(),
        )),
{
    let rest = steps.drop_first();
    let next = depth_after(depth, steps[0]);
    assert(open_passthroughs(depth, steps.take(0)) == depth);
    assert forall|i: int| 0 <= i < rest.len() implies steps[i + 1] == #[trigger] rest[i]
        && open_passthroughs(depth, steps.take(i + 1)) == open_passthroughs(
        next,
        rest.take(i),
    ) by {
        assert(steps.take(i + 1).drop_first() =~= rest.take(i));
        assert(steps.take(i + 1)[0] == steps[0]);
    }
    if exposed(next, rest) {
        let i = choose|i: int|
            0 <= i < rest.len() && alters_height(#[trigger] rest[i]) && open_passthroughs(
                next,
                rest.take(i),
            ) == 0;
        assert(alters_height(steps[i + 1]));
    }
    if alters_height(steps[0]) && depth == 0 {
        assert(alters_height(steps[0]));
    }
    if exposed(depth, steps) {
        let i = choose|i: int|
            0 <= i < steps.len() && alters_height(#[trigger] steps[i]) && open_passthroughs(
                depth,
                steps.take(i),
            ) == 0;
        if i > 0 {
            assert(alters_height(rest[i - 1]));
        }
    }
}

/// Two balanced sequences, one after the other, are balanced.
pub proof fn lemma_balanced_concat(depth: nat, first: Seq<Step>, second: Seq<Step>)
    requires
        balanced_from(depth, first),
        balanced(second),
    ensures
        balanced_from(depth, first + second),
    decreases first.len(),
{
    if first.len() == 0 {
        assert(first + second =~= second);
    } else {
        assert((first + second)[0] == first[0]);
        assert((first + second).drop_first() =~= first.drop_first() + second);
        lemma_balanced_concat(depth_after(depth, first[0]), first.drop_first(), second);
    }
}

/// Whether the steps change ellipsoidal height. Those between a saved height
/// and its restoring do not count.
pub fn steps_transform_ellipsoidal_height(steps: &StepList) -> (result: bool)
    ensures
        result == transforms_height(steps@),
{
    let mut passthrough_depth: usize = 0;
    let mut i: usize = 0;
    let len: usize = steps.len();
    while i < len
        invariant
            i <= len == steps@.len(),
            passthrough_depth <= i,
            passthrough_depth == open_passthroughs(0, steps@.take(i as int)),
            forall|j: int|
                0 <= j < i ==> !(alters_height(#[trigger] steps@[j]) && open_passthroughs(
                    0,
                    steps@.take(j),
                ) == 0),
        decreases len - i,
    {
        proof {
            assert(steps@.take(i + 1) =~= steps@.take(i as int).push(steps@[i as int]));
            lemma_open_push(0, steps@.take(i as int), steps@[i as int]);
        }
        match steps.at(i) {
            CompiledStep::PushHeight => {
                passthrough_depth = passthrough_depth + 1;
            },
            CompiledStep::PopHeight => {
                if passthrough_depth > 0 {
                    passthrough_depth = passthrough_depth - 1;
                }
            },
            CompiledStep::Helmert { .. }
            | CompiledStep::GeocentricAffine { .. }
            | CompiledStep::GeodeticToGeocentric { .. }
            | CompiledStep::GeocentricToGeodetic { .. } => {
                if passthrough_depth == 0 {
                    return true;
                }
            },
            _ => {},
        }
        i = i + 1;
    }
    false
}

} // verus!
