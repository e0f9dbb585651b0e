//! Compiling an operation in reverse gives the mirror image.
use vstd::prelude::*;
use crate::coord::Coord3D;
use crate::crs::CrsDef;
use crate::ellipsoid::Ellipsoid;
use crate::emission::{
    both, directed_steps, from_wgs84_emission, geographic_pair, operation_emission,
    pipeline_emission, sandwich, selected_emission, source_emission, step_emission, steps_emission,
    target_emission, to_wgs84_emission, Emission,
};
use crate::error::ErrorView;
use crate::execute::{step_outcome, steps_outcome};
use crate::laws::execution::{law_execution_composes, works_on_coordinates};
use crate::height::balanced;
use crate::numerics::{HaltView, Replies};
use crate::operation::{
    CoordinateOperation, DatumToWgs84, OperationMethod, OperationStep, OperationStepDirection,
    SelectedOperationKind,
};
use crate::registry::{entry, Registry};
use crate::services::ServiceReplies;
use crate::step::Step;

verus! {

/// The step that goes the other way.
pub open spec fn mirror_step(step: Step) -> Step {
    match step {
        Step::ProjectionForward { projection } => Step::ProjectionInverse { projection },
        Step::ProjectionInverse { projection } => Step::ProjectionForward { projection },
        Step::Helmert { params, inverse } => Step::Helmert { params, inverse: !inverse },
        Step::GeocentricAffine { params, inverse } => Step::GeocentricAffine {
            params,
            inverse: !inverse,
        },
        Step::GridShift { handle, direction } => Step::GridShift {
            handle,
            direction: direction.opposite(),
        },
        Step::GridShiftList { handles, allow_null, direction } => Step::GridShiftList {
            handles,
            allow_null,
            direction: direction.opposite(),
        },
        Step::GeodeticToGeocentric { ellipsoid } => Step::GeocentricToGeodetic { ellipsoid },
        Step::GeocentricToGeodetic { ellipsoid } => Step::GeodeticToGeocentric { ellipsoid },
        Step::PushHeight => Step::PopHeight,
        Step::PopHeight => Step::PushHeight,
    }
}

/// The steps from the last to the first, each the other way.
pub open spec fn mirrored(steps: Seq<Step>) -> Seq<Step> {
    Seq::new(steps.len(), |i: int| mirror_step(steps[steps.len() - 1 - i]))
}

/// A pair of systems the other way.
pub open spec fn swapped(pair: Option<(CrsDef, CrsDef)>) -> Option<(CrsDef, CrsDef)> {
    match pair {
        Some((source, target)) => Some((target, source)),
        None => None,
    }
}

/// Mirroring twice changes nothing.
pub proof fn law_mirror_is_an_involution(steps: Seq<Step>)
    ensures
        mirrored(mirrored(steps)) == steps,
{
    assert(mirrored(mirrored(steps)) =~= steps);
}

proof fn lemma_mirror_concat(first: Seq<Step>, second: Seq<Step>)
    ensures
        mirrored(first + second) == mirrored(second) + mirrored(first),
{
    assert(mirrored(first + second) =~= mirrored(second) + mirrored(first));
}

/// Whether the second compilation gets through where the first does, and gives
/// its mirror image.
spec fn mirrors(first: Emission, second: Emission) -> bool {
    first.halt is None ==> second.halt is None && second.steps == mirrored(first.steps)
}

proof fn lemma_both_mirrors(a: Emission, b: Emission, mirror_a: Emission, mirror_b: Emission)
    requires
        mirrors(a, mirror_a),
        mirrors(b, mirror_b),
    ensures
        mirrors(both(a, b), both(mirror_b, mirror_a)),
{
    lemma_mirror_concat(a.steps, b.steps);
}

proof fn lemma_sandwich_mirrors(
    source: Ellipsoid,
    target: Ellipsoid,
    preserve_height: bool,
    step: Step,
)
    ensures
        mirrored(sandwich(source, target, preserve_height, step)) == sandwich(
            target,
            source,
            preserve_height,
            mirror_step(step),
        ),
{
    assert(mirrored(sandwich(source, target, preserve_height, step)) =~= sandwich(
        target,
        source,
        preserve_height,
        mirror_step(step),
    ));
}

proof fn lemma_wgs84_mirrors(
    transform: DatumToWgs84,
    ellipsoid: Ellipsoid,
    preserve_height: bool,
    replies: ServiceReplies,
)
    ensures
        mirrors(
            to_wgs84_emission(transform, ellipsoid, preserve_height, replies),
            from_wgs84_emission(transform, ellipsoid, preserve_height, replies),
        ),
        mirrors(
            from_wgs84_emission(transform, ellipsoid, preserve_height, replies),
            to_wgs84_emission(transform, ellipsoid, preserve_height, replies),
        ),
{
    let wgs84 = Ellipsoid::wgs84_spec();
    let to = to_wgs84_emission(transform, ellipsoid, preserve_height, replies);
    let from = from_wgs84_emission(transform, ellipsoid, preserve_height, replies);
    match transform {
        DatumToWgs84::Helmert(params) => {
            lemma_sandwich_mirrors(
                ellipsoid,
                wgs84,
                preserve_height,
                Step::Helmert { params, inverse: false },
            );
            lemma_sandwich_mirrors(
                wgs84,
                ellipsoid,
                preserve_height,
                Step::Helmert { params, inverse: true },
            );
        },
        _ => {
            assert(to.halt is None ==> mirrored(to.steps) =~= from.steps);
            assert(from.halt is None ==> mirrored(from.steps) =~= to.steps);
        },
    }
}

pub proof fn lemma_both_associates(a: Emission, b: Emission, c: Emission)
    ensures
        both(both(a, b), c) == both(a, both(b, c)),
{
    assert((a.steps + b.steps) + c.steps =~= a.steps + (b.steps + c.steps));
}

/// What a sequence of steps compiles to, with its first step split off.
proof fn lemma_steps_front(
    first: OperationStep,
    rest: Seq<OperationStep>,
    registry: Registry,
    replies: ServiceReplies,
    levels: nat,
)
    ensures
        steps_emission(seq![first] + rest, registry, replies, levels) == both(
            step_emission(first, registry, replies, levels),
            steps_emission(rest, registry, replies, levels),
        ),
    decreases rest.len(),
{
    let all = seq![first] + rest;
    let head = step_emission(first, registry, replies, levels);
    if rest.len() == 0 {
        assert(all.drop_last() =~= Seq::<OperationStep>::empty());
        assert(all.last() == first);
        let nothing = steps_emission(rest, registry, replies, levels);
        assert(nothing.steps + head.steps =~= head.steps);
        assert(head.steps + nothing.steps =~= head.steps);
        assert(steps_emission(all.drop_last(), registry, replies, levels) == nothing);
    } else {
        assert(all.drop_last() =~= seq![first] + rest.drop_last());
        assert(all.last() == rest.last());
        lemma_steps_front(first, rest.drop_last(), registry, replies, levels);
        lemma_both_associates(
            head,
            steps_emission(rest.drop_last(), registry, replies, levels),
            step_emission(rest.last(), registry, replies, levels),
        );
    }
}

/// Turning the steps of a concatenated operation round twice changes nothing.
pub proof fn law_turning_steps_round_is_an_involution(steps: Seq<OperationStep>)
    ensures
        directed_steps(
            directed_steps(steps, OperationStepDirection::Reverse),
            OperationStepDirection::Reverse,
        ) == steps,
{
    assert(directed_steps(
        directed_steps(steps, OperationStepDirection::Reverse),
        OperationStepDirection::Reverse,
    ) =~= steps);
}

proof fn lemma_steps_mirror(
    steps: Seq<OperationStep>,
    registry: Registry,
    replies: ServiceReplies,
    levels: nat,
)
    ensures
        mirrors(
            steps_emission(steps, registry, replies, levels),
            steps_emission(
                directed_steps(steps, OperationStepDirection::Reverse),
                registry,
                replies,
                levels,
            ),
        ),
    decreases levels, 1nat, steps.len(),
{
    let turned = directed_steps(steps, OperationStepDirection::Reverse);
    if steps.len() == 0 {
        assert(turned =~= steps);
        assert(mirrored(Seq::<Step>::empty()) =~= Seq::<Step>::empty());
    } else {
        let rest = steps.drop_last();
        let last = steps.last();
        let turned_last = OperationStep {
            operation_id: last.operation_id,
            direction: last.direction.opposite(),
        };
        let turned_rest = directed_steps(rest, OperationStepDirection::Reverse);
        assert(turned =~= seq![turned_last] + turned_rest);
        lemma_steps_front(turned_last, turned_rest, registry, replies, levels);
        lemma_steps_mirror(rest, registry, replies, levels);
        if let Some(child) = entry(registry.operations(), last.operation_id.0) {
            lemma_operation_mirrors(child, last.direction, None, registry, replies, levels);
        }
        lemma_both_mirrors(
            steps_emission(rest, registry, replies, levels),
            step_emission(last, registry, replies, levels),
            steps_emission(turned_rest, registry, replies, levels),
            step_emission(turned_last, registry, replies, levels),
        );
    }
}

proof fn lemma_operation_mirrors(
    operation: CoordinateOperation,
    direction: OperationStepDirection,
    pair: Option<(CrsDef, CrsDef)>,
    registry: Registry,
    replies: ServiceReplies,
    levels: nat,
)
    ensures
        mirrors(
            operation_emission(operation, direction, pair, registry, replies, levels),
            operation_emission(
                operation,
                direction.opposite(),
                swapped(pair),
                registry,
                replies,
                levels,
            ),
        ),
    decreases levels, 0nat, 0nat,
{
    let opposite = direction.opposite();
    let inverse = direction is Reverse;
    let preserve = operation.domain is Geographic2D;
    match geographic_pair(operation, direction, pair, registry) {
        Err(_) => {},
        Ok((source, target)) => {
            assert(geographic_pair(operation, opposite, swapped(pair), registry) == Ok::<
                (CrsDef, CrsDef),
                ErrorView,
            >((target, source)));
            let s = source.datum_spec().ellipsoid;
            let t = target.datum_spec().ellipsoid;
            match operation.method {
                OperationMethod::Helmert { params } => {
                    lemma_sandwich_mirrors(s, t, preserve, Step::Helmert { params, inverse });
                },
                OperationMethod::GeocentricAffine { params } => {
                    lemma_sandwich_mirrors(
                        s,
                        t,
                        preserve,
                        Step::GeocentricAffine { params, inverse },
                    );
                },
                OperationMethod::DatumShift { source_to_wgs84, target_to_wgs84 } => {
                    let (first, second) = if inverse {
                        (target_to_wgs84, source_to_wgs84)
                    } else {
                        (source_to_wgs84, target_to_wgs84)
                    };
                    lemma_wgs84_mirrors(first, s, preserve, replies);
                    lemma_wgs84_mirrors(second, t, preserve, replies);
                    lemma_both_mirrors(
                        to_wgs84_emission(first, s, preserve, replies),
                        from_wgs84_emission(second, t, preserve, replies),
                        from_wgs84_emission(first, s, preserve, replies),
                        to_wgs84_emission(second, t, preserve, replies),
                    );
                },
                OperationMethod::Concatenated { steps } => {
                    if levels > 0 {
                        let directed = directed_steps(steps@, direction);
                        lemma_steps_mirror(directed, registry, replies, (levels - 1) as nat);
                        law_turning_steps_round_is_an_involution(steps@);
                    } else {
                        assert(mirrored(Seq::<Step>::empty()) =~= Seq::<Step>::empty());
                    }
                },
                _ => {
                    let forth = operation_emission(
                        operation,
                        direction,
                        pair,
                        registry,
                        replies,
                        levels,
                    );
                    let back = operation_emission(
                        operation,
                        opposite,
                        swapped(pair),
                        registry,
                        replies,
                        levels,
                    );
                    assert(forth.halt is None ==> mirrored(forth.steps) =~= back.steps);
                },
            }
        },
    }
}

/// An operation that compiles in one direction compiles in the other, and gives
/// the mirror image.
pub proof fn law_reverse_operation_is_the_mirror_image(
    operation: CoordinateOperation,
    direction: OperationStepDirection,
    pair: Option<(CrsDef, CrsDef)>,
    registry: Registry,
    replies: ServiceReplies,
    levels: nat,
)
    requires
        operation_emission(operation, direction, pair, registry, replies, levels).halt is None,
    ensures
        operation_emission(
            operation,
            direction.opposite(),
            swapped(pair),
            registry,
            replies,
            levels,
        ).halt is None,
        operation_emission(
            operation,
            direction.opposite(),
            swapped(pair),
            registry,
            replies,
            levels,
        ).steps == mirrored(
            operation_emission(operation, direction, pair, registry, replies, levels).steps,
        ),
{
    lemma_operation_mirrors(operation, direction, pair, registry, replies, levels);
}

/// A pipeline that compiles from one system to another compiles the other way
/// round. Before redundant framing is dropped, its steps are the mirror image.
pub proof fn law_inverse_pipeline_is_the_mirror_image(
    source: CrsDef,
    target: CrsDef,
    operation: SelectedOperationKind,
    direction: OperationStepDirection,
    registry: Registry,
    replies: ServiceReplies,
)
    requires
        pipeline_emission(source, target, operation, direction, registry, replies).halt is None,
    ensures
        pipeline_emission(
            target,
            source,
            operation,
            direction.opposite(),
            registry,
            replies,
        ).halt is None,
        pipeline_emission(
            target,
            source,
            operation,
            direction.opposite(),
            registry,
            replies,
        ).steps == mirrored(
            pipeline_emission(source, target, operation, direction, registry, replies).steps,
        ),
{
    let opposite = direction.opposite();
    let enter = source_emission(source, replies);
    let middle = selected_emission(source, target, operation, direction, registry, replies);
    let leave = target_emission(target, replies);
    let enter_back = source_emission(target, replies);
    let middle_back = selected_emission(target, source, operation, opposite, registry, replies);
    let leave_back = target_emission(source, replies);
    assert(enter.halt is None ==> mirrored(enter.steps) =~= leave_back.steps);
    assert(leave.halt is None ==> mirrored(leave.steps) =~= enter_back.steps);
    match operation {
        SelectedOperationKind::Identity => {
            assert(mirrored(Seq::<Step>::empty()) =~= Seq::<Step>::empty());
        },
        SelectedOperationKind::Registry(operation) => {
            lemma_operation_mirrors(
                operation,
                direction,
                Some((source, target)),
                registry,
                replies,
                crate::emission::all_levels(registry),
            );
        },
        SelectedOperationKind::Custom(operation) => {
            lemma_operation_mirrors(
                operation,
                direction,
                Some((source, target)),
                registry,
                replies,
                crate::emission::all_levels(registry),
            );
        },
    }
    lemma_both_mirrors(enter, middle, leave_back, middle_back);
    lemma_both_mirrors(both(enter, middle), leave, both(middle_back, leave_back), enter_back);
    lemma_both_associates(enter_back, middle_back, leave_back);
}

/// Whether the replies to a step and to the step that goes the other way undo
/// each other.
#[verifier::opaque]
pub open spec fn reversible(step: Step, replies: Replies) -> bool {
    forall|from: Coord3D, to: Coord3D| #[trigger]
        step_outcome(step, from, replies) == Ok::<Coord3D, HaltView>(to) ==> #[trigger] step_outcome(
            mirror_step(step),
            to,
            replies,
        ) == Ok::<Coord3D, HaltView>(from)
}

proof fn lemma_plain_steps_balanced(steps: Seq<Step>)
    requires
        forall|i: int| 0 <= i < steps.len() ==> works_on_coordinates(#[trigger] steps[i]),
    ensures
        balanced(steps),
    decreases steps.len(),
{
    if steps.len() > 0 {
        assert(works_on_coordinates(steps[0]));
        let rest = steps.drop_first();
        assert forall|i: int| 0 <= i < rest.len() implies works_on_coordinates(
            #[trigger] rest[i],
        ) by {
            assert(rest[i] == steps[i + 1]);
        }
        lemma_plain_steps_balanced(rest);
    }
}

/// Executing steps starts with the first one.
proof fn lemma_first_step(steps: Seq<Step>, coord: Coord3D, replies: Replies)
    requires
        steps.len() > 0,
        works_on_coordinates(steps[0]),
    ensures
        steps_outcome(steps, coord, Seq::empty(), replies) == (match step_outcome(
            steps[0],
            coord,
            replies,
        ) {
            Ok(moved) => steps_outcome(steps.drop_first(), moved, Seq::empty(), replies),
            Err(halt) => Err::<Coord3D, HaltView>(halt),
        }),
{
}

proof fn lemma_step_undone(step: Step, from: Coord3D, to: Coord3D, replies: Replies)
    requires
        reversible(step, replies),
        step_outcome(step, from, replies) == Ok::<Coord3D, HaltView>(to),
    ensures
        step_outcome(mirror_step(step), to, replies) == Ok::<Coord3D, HaltView>(from),
{
    reveal(reversible);
}

/// Where every step can be undone by the step that goes the other way, the
/// mirror image undoes the whole sequence. Sequences with a height passthrough
/// are left out: a passthrough forgets the height that the steps inside it gave.
#[verifier::spinoff_prover]
pub proof fn law_mirror_image_undoes(
    steps: Seq<Step>,
    from: Coord3D,
    to: Coord3D,
    replies: Replies,
)
    requires
        forall|i: int|
            0 <= i < steps.len() ==> works_on_coordinates(#[trigger] steps[i]) && reversible(
                steps[i],
                replies,
            ),
        steps_outcome(steps, from, Seq::empty(), replies) == Ok::<Coord3D, HaltView>(to),
    ensures
        steps_outcome(mirrored(steps), to, Seq::empty(), replies) == Ok::<Coord3D, HaltView>(from),
    decreases steps.len(),
{
    if steps.len() == 0 {
        assert(mirrored(steps) =~= steps);
    } else {
        let first = steps[0];
        let rest = steps.drop_first();
        assert(works_on_coordinates(first) && reversible(first, replies));
        lemma_first_step(steps, from, replies);
        let moved = step_outcome(first, from, replies)->Ok_0;
        lemma_step_undone(first, from, moved, replies);
        assert forall|i: int| 0 <= i < rest.len() implies works_on_coordinates(#[trigger] rest[i])
            && reversible(rest[i], replies) by {
            assert(rest[i] == steps[i + 1]);
        }
        law_mirror_image_undoes(rest, moved, to, replies);
        let back = mirrored(rest);
        assert forall|i: int| 0 <= i < back.len() implies works_on_coordinates(
            #[trigger] back[i],
        ) by {
            assert(works_on_coordinates(rest[rest.len() - 1 - i]));
        }
        lemma_plain_steps_balanced(back);
        let last = seq![mirror_step(first)];
        assert(mirrored(steps) =~= back + last);
        law_execution_composes(back, last, to, replies);
        lemma_first_step(last, moved, replies);
        assert(last.drop_first() =~= Seq::<Step>::empty());
    }
}

} // verus!
