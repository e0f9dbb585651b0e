//! What holds of every compilation.
use vstd::prelude::*;
use crate::coord::Coord3D;
use crate::crs::CrsDef;
use crate::ellipsoid::{same_ellipsoid, Ellipsoid};
use crate::emission::{
    all_levels, both, directed_steps, from_wgs84_emission, geographic_pair, grid_scan,
    operation_emission, pipeline_emission, sandwich, selected_emission, source_emission,
    step_emission, steps_emission, target_emission, to_wgs84_emission, Emission,
};
use crate::execute::{pipeline_outcome_xyz, step_outcome, steps_outcome};
use crate::framing::{settled, sweep};
use crate::height::{
    alters_height, balanced, balanced_from, depth_after, lemma_balanced_concat, open_passthroughs,
    transforms_height,
};
use crate::laws::framing::{
    law_dropping_framing_exposes_no_height, law_dropping_framing_keeps_balance,
};
use crate::laws::execution::{
    law_balanced_steps_never_fail_on_the_stack, law_unmarked_pipeline_keeps_height,
    works_on_coordinates,
};
use crate::numerics::{HaltView, Replies};
use crate::operation::{
    CoordinateOperation, DatumGridShiftEntry, DatumToWgs84, GridShiftDirection, OperationMethod,
    OperationStep, OperationStepDirection, SelectedOperationKind,
};
use crate::pipeline::CompiledOperationPipeline;
use crate::registry::{entry, Registry};
use crate::services::ServiceReplies;
use crate::step::Step;
use crate::units::{source_units, target_units};

verus! {

proof fn lemma_single_balanced(step: Step)
    requires
        !(step is PushHeight),
        !(step is PopHeight),
    ensures
        balanced(seq![step]),
{
    reveal_with_fuel(balanced_from, 2);
    assert(seq![step].drop_first() =~= Seq::<Step>::empty());
}

proof fn lemma_sandwich_balanced(
    source: Ellipsoid,
    target: Ellipsoid,
    preserve_height: bool,
    step: Step,
)
    requires
        !(step is PushHeight),
        !(step is PopHeight),
    ensures
        balanced(sandwich(source, target, preserve_height, step)),
{
    reveal_with_fuel(balanced_from, 6);
    let steps = sandwich(source, target, preserve_height, step);
    assert(balanced_from(0, steps));
}

/// The emissions of the two ways through WGS 84 have heights that pair up.
proof fn lemma_wgs84_balanced(
    transform: DatumToWgs84,
    ellipsoid: Ellipsoid,
    preserve_height: bool,
    replies: ServiceReplies,
)
    ensures
        balanced(to_wgs84_emission(transform, ellipsoid, preserve_height, replies).steps),
        balanced(from_wgs84_emission(transform, ellipsoid, preserve_height, replies).steps),
{
    match transform {
        DatumToWgs84::Helmert(params) => {
            lemma_sandwich_balanced(
                ellipsoid,
                Ellipsoid::wgs84_spec(),
                preserve_height,
                Step::Helmert { params, inverse: false },
            );
            lemma_sandwich_balanced(
                Ellipsoid::wgs84_spec(),
                ellipsoid,
                preserve_height,
                Step::Helmert { params, inverse: true },
            );
        },
        DatumToWgs84::GridShift(grids) => {
            let scan = grid_scan(grids.entries@, replies);
            lemma_single_balanced(
                Step::GridShiftList {
                    handles: scan.handles,
                    allow_null: scan.allow_null,
                    direction: GridShiftDirection::Forward,
                },
            );
            lemma_single_balanced(
                Step::GridShiftList {
                    handles: scan.handles,
                    allow_null: scan.allow_null,
                    direction: GridShiftDirection::Reverse,
                },
            );
        },
        _ => {},
    }
}

proof fn lemma_both_balanced(first: Emission, second: Emission)
    requires
        balanced(first.steps),
        balanced(second.steps),
    ensures
        balanced(both(first, second).steps),
{
    lemma_balanced_concat(0, first.steps, second.steps);
}

proof fn lemma_operation_balanced(
    operation: CoordinateOperation,
    direction: OperationStepDirection,
    pair: Option<(CrsDef, CrsDef)>,
    registry: Registry,
    replies: ServiceReplies,
    levels: nat,
)
    ensures
        balanced(operation_emission(operation, direction, pair, registry, replies, levels).steps),
    decreases levels, 0nat, 0nat,
{
    let inverse = direction is Reverse;
    let preserve = operation.domain is Geographic2D;
    if let Ok((source, target)) = geographic_pair(operation, direction, pair, registry) {
        let s = source.datum_spec().ellipsoid;
        let t = target.datum_spec().ellipsoid;
        match operation.method {
            OperationMethod::Helmert { params } => {
                lemma_sandwich_balanced(s, t, preserve, Step::Helmert { params, inverse });
            },
            OperationMethod::GeocentricAffine { params } => {
                lemma_sandwich_balanced(s, t, preserve, Step::GeocentricAffine { params, inverse });
            },
            OperationMethod::DatumShift { source_to_wgs84, target_to_wgs84 } => {
                let (first, second) = if inverse {
                    (target_to_wgs84, source_to_wgs84)
                } else {
                    (source_to_wgs84, target_to_wgs84)
                };
                lemma_wgs84_balanced(first, s, preserve, replies);
                lemma_wgs84_balanced(second, t, preserve, replies);
                lemma_both_balanced(
                    to_wgs84_emission(first, s, preserve, replies),
                    from_wgs84_emission(second, t, preserve, replies),
                );
            },
            OperationMethod::Concatenated { steps } => {
                if levels > 0 {
                    lemma_steps_balanced(
                        directed_steps(steps@, direction),
                        registry,
                        replies,
                        (levels - 1) as nat,
                    );
                }
            },
            _ => {
                let emitted = operation_emission(
                    operation,
                    direction,
                    pair,
                    registry,
                    replies,
                    levels,
                ).steps;
                if emitted.len() > 0 {
                    lemma_single_balanced(emitted[0]);
                    assert(emitted =~= seq![emitted[0]]);
                }
            },
        }
    }
}

proof fn lemma_steps_balanced(
    steps: Seq<OperationStep>,
    registry: Registry,
    replies: ServiceReplies,
    levels: nat,
)
    ensures
        balanced(steps_emission(steps, registry, replies, levels).steps),
    decreases levels, 1nat, steps.len(),
{
    if steps.len() > 0 {
        let last = steps.last();
        lemma_steps_balanced(steps.drop_last(), registry, replies, levels);
        if let Some(child) = entry(registry.operations(), last.operation_id.0) {
            lemma_operation_balanced(child, last.direction, None, registry, replies, levels);
        }
        lemma_both_balanced(
            steps_emission(steps.drop_last(), registry, replies, levels),
            step_emission(last, registry, replies, levels),
        );
    }
}

/// In every compiled pipeline the saved and the restored heights pair up.
pub proof fn law_compiled_heights_pair_up(
    source: CrsDef,
    target: CrsDef,
    operation: SelectedOperationKind,
    direction: OperationStepDirection,
    registry: Registry,
    replies: ServiceReplies,
)
    ensures
        balanced(
            settled(
                pipeline_emission(source, target, operation, direction, registry, replies).steps,
            ),
        ),
{
    let enter = source_emission(source, replies);
    let middle = selected_emission(source, target, operation, direction, registry, replies);
    let leave = target_emission(target, replies);
    if enter.steps.len() > 0 {
        lemma_single_balanced(enter.steps[0]);
        assert(enter.steps =~= seq![enter.steps[0]]);
    }
    if leave.steps.len() > 0 {
        lemma_single_balanced(leave.steps[0]);
        assert(leave.steps =~= seq![leave.steps[0]]);
    }
    let pair = Some((source, target));
    let levels = all_levels(registry);
    match operation {
        SelectedOperationKind::Identity => {},
        SelectedOperationKind::Registry(operation) => {
            lemma_operation_balanced(operation, direction, pair, registry, replies, levels);
        },
        SelectedOperationKind::Custom(operation) => {
            lemma_operation_balanced(operation, direction, pair, registry, replies, levels);
        },
    }
    lemma_both_balanced(enter, middle);
    lemma_both_balanced(both(enter, middle), leave);
    law_dropping_framing_keeps_balance(
        pipeline_emission(source, target, operation, direction, registry, replies).steps,
    );
}

/// Whether an operation leaves ellipsoidal height alone: it is defined for
/// longitude and latitude only, or nothing in it works on geocentric
/// coordinates. A concatenated operation does so where its steps do.
pub open spec fn leaves_height_alone(
    operation: CoordinateOperation,
    registry: Registry,
    levels: nat,
) -> bool
    decreases levels,
{
    match operation.method {
        OperationMethod::Helmert { .. } => operation.domain is Geographic2D,
        OperationMethod::GeocentricAffine { .. } => operation.domain is Geographic2D,
        OperationMethod::DatumShift { source_to_wgs84, target_to_wgs84 } => {
            operation.domain is Geographic2D || !(source_to_wgs84 is Helmert) && !(
            target_to_wgs84 is Helmert)
        },
        OperationMethod::Concatenated { steps } => levels > 0 ==> forall|i: int|
            0 <= i < steps@.len() ==> match entry(
                registry.operations(),
                (#[trigger] steps@[i]).operation_id.0,
            ) {
                Some(child) => leaves_height_alone(child, registry, (levels - 1) as nat),
                None => true,
            },
        _ => true,
    }
}

proof fn lemma_open_concat(depth: nat, first: Seq<Step>, second: Seq<Step>)
    ensures
        open_passthroughs(depth, first + second) == open_passthroughs(
            open_passthroughs(depth, first),
            second,
        ),
    decreases first.len(),
{
    if first.len() == 0 {
        assert(first + second =~= second);
    } else {
        assert((first + second)[0] == first[0]);
        assert((first + second).drop_first() =~= first.drop_first() + second);
        lemma_open_concat(depth_after(depth, first[0]), first.drop_first(), second);
    }
}

proof fn lemma_balanced_closes(depth: nat, steps: Seq<Step>)
    requires
        balanced_from(depth, steps),
    ensures
        open_passthroughs(depth, steps) == 0,
    decreases steps.len(),
{
    if steps.len() > 0 {
        lemma_balanced_closes(depth_after(depth, steps[0]), steps.drop_first());
    }
}

/// Steps change height exactly if a part of them does, where the heights of the
/// first part pair up.
pub proof fn law_height_change_of_parts(first: Seq<Step>, second: Seq<Step>)
    requires
        balanced(first),
    ensures
        transforms_height(first + second) == (transforms_height(first) || transforms_height(
            second,
        )),
{
    let all = first + second;
    lemma_balanced_closes(0, first);
    assert forall|j: int| 0 <= j < second.len() implies #[trigger] second[j] == all[first.len()
        + j] && open_passthroughs(0, all.take(first.len() + j)) == open_passthroughs(
        0,
        second.take(j),
    ) by {
        assert(all.take(first.len() + j) =~= first + second.take(j));
        lemma_open_concat(0, first, second.take(j));
    }
    if transforms_height(first) {
        let i = choose|i: int|
            0 <= i < first.len() && alters_height(#[trigger] first[i]) && open_passthroughs(
                0,
                first.take(i),
            ) == 0;
        assert(all.take(i) =~= first.take(i));
        assert(alters_height(all[i]));
    }
    if transforms_height(second) {
        let j = choose|j: int|
            0 <= j < second.len() && alters_height(#[trigger] second[j]) && open_passthroughs(
                0,
                second.take(j),
            ) == 0;
        assert(alters_height(all[first.len() + j]));
    }
    if transforms_height(all) {
        let i = choose|i: int|
            0 <= i < all.len() && alters_height(#[trigger] all[i]) && open_passthroughs(
                0,
                all.take(i),
            ) == 0;
        if i < first.len() {
            assert(all.take(i) =~= first.take(i));
            assert(alters_height(first[i]));
        } else {
            assert(second[i - first.len()] == all[i]);
            assert(alters_height(second[i - first.len()]));
        }
    }
}

proof fn lemma_shielded_sandwich(source: Ellipsoid, target: Ellipsoid, step: Step)
    requires
        !(step is PushHeight),
        !(step is PopHeight),
    ensures
        !transforms_height(sandwich(source, target, true, step)),
{
    let steps = sandwich(source, target, true, step);
    assert forall|i: int| 0 <= i < steps.len() && alters_height(#[trigger] steps[i]) implies
        open_passthroughs(0, steps.take(i)) != 0 by {
        assert(1 <= i <= 3);
        reveal_with_fuel(open_passthroughs, 5);
        assert(steps.take(i)[0] == steps[0]);
        if i == 1 {
            assert(steps.take(1).drop_first() =~= Seq::<Step>::empty());
        } else if i == 2 {
            assert(steps.take(2).drop_first() =~= seq![steps[1]]);
            assert(seq![steps[1]].drop_first() =~= Seq::<Step>::empty());
        } else {
            assert(steps.take(3).drop_first() =~= seq![steps[1], steps[2]]);
            assert(seq![steps[1], steps[2]].drop_first() =~= seq![steps[2]]);
            assert(seq![steps[2]].drop_first() =~= Seq::<Step>::empty());
        }
    }
}

proof fn lemma_plain_step_keeps_height(steps: Seq<Step>)
    requires
        steps.len() <= 1,
        steps.len() == 1 ==> !alters_height(steps[0]),
    ensures
        !transforms_height(steps),
{
}

proof fn lemma_wgs84_height(
    transform: DatumToWgs84,
    ellipsoid: Ellipsoid,
    preserve_height: bool,
    replies: ServiceReplies,
)
    requires
        preserve_height || !(transform is Helmert),
    ensures
        !transforms_height(to_wgs84_emission(transform, ellipsoid, preserve_height, replies).steps),
        !transforms_height(
            from_wgs84_emission(transform, ellipsoid, preserve_height, replies).steps,
        ),
{
    match transform {
        DatumToWgs84::Helmert(params) => {
            lemma_shielded_sandwich(
                ellipsoid,
                Ellipsoid::wgs84_spec(),
                Step::Helmert { params, inverse: false },
            );
            lemma_shielded_sandwich(
                Ellipsoid::wgs84_spec(),
                ellipsoid,
                Step::Helmert { params, inverse: true },
            );
            lemma_plain_step_keeps_height(Seq::empty());
        },
        _ => {
            lemma_plain_step_keeps_height(
                to_wgs84_emission(transform, ellipsoid, preserve_height, replies).steps,
            );
            lemma_plain_step_keeps_height(
                from_wgs84_emission(transform, ellipsoid, preserve_height, replies).steps,
            );
        },
    }
}

proof fn lemma_both_height(first: Emission, second: Emission)
    requires
        balanced(first.steps),
        !transforms_height(first.steps),
        !transforms_height(second.steps),
    ensures
        !transforms_height(both(first, second).steps),
{
    law_height_change_of_parts(first.steps, second.steps);
}

proof fn lemma_steps_height(
    steps: Seq<OperationStep>,
    registry: Registry,
    replies: ServiceReplies,
    levels: nat,
)
    requires
        forall|i: int|
            0 <= i < steps.len() ==> match entry(
                registry.operations(),
                (#[trigger] steps[i]).operation_id.0,
            ) {
                Some(child) => leaves_height_alone(child, registry, levels),
                None => true,
            },
    ensures
        !transforms_height(steps_emission(steps, registry, replies, levels).steps),
    decreases levels, 1nat, steps.len(),
{
    lemma_plain_step_keeps_height(Seq::empty());
    if steps.len() > 0 {
        let last = steps.last();
        let rest = steps.drop_last();
        assert(last == steps[steps.len() - 1]);
        assert forall|i: int| 0 <= i < rest.len() implies match entry(
            registry.operations(),
            (#[trigger] rest[i]).operation_id.0,
        ) {
            Some(child) => leaves_height_alone(child, registry, levels),
            None => true,
        } by {
            assert(rest[i] == steps[i]);
        }
        lemma_steps_height(rest, registry, replies, levels);
        lemma_steps_balanced(rest, registry, replies, levels);
        if let Some(child) = entry(registry.operations(), last.operation_id.0) {
            law_height_is_left_alone(child, last.direction, None, registry, replies, levels);
        }
        lemma_both_height(
            steps_emission(rest, registry, replies, levels),
            step_emission(last, registry, replies, levels),
        );
    }
}

/// An operation that leaves ellipsoidal height alone compiles to steps that do
/// not change it, in either direction.
pub proof fn law_height_is_left_alone(
    operation: CoordinateOperation,
    direction: OperationStepDirection,
    pair: Option<(CrsDef, CrsDef)>,
    registry: Registry,
    replies: ServiceReplies,
    levels: nat,
)
    requires
        leaves_height_alone(operation, registry, levels),
    ensures
        !transforms_height(
            operation_emission(operation, direction, pair, registry, replies, levels).steps,
        ),
    decreases levels, 0nat, 0nat,
{
    let inverse = direction is Reverse;
    let preserve = operation.domain is Geographic2D;
    lemma_plain_step_keeps_height(Seq::empty());
    if let Ok((source, target)) = geographic_pair(operation, direction, pair, registry) {
        let s = source.datum_spec().ellipsoid;
        let t = target.datum_spec().ellipsoid;
        match operation.method {
            OperationMethod::Helmert { params } => {
                lemma_shielded_sandwich(s, t, Step::Helmert { params, inverse });
            },
            OperationMethod::GeocentricAffine { params } => {
                lemma_shielded_sandwich(s, t, Step::GeocentricAffine { params, inverse });
            },
            OperationMethod::DatumShift { source_to_wgs84, target_to_wgs84 } => {
                let (first, second) = if inverse {
                    (target_to_wgs84, source_to_wgs84)
                } else {
                    (source_to_wgs84, target_to_wgs84)
                };
                lemma_wgs84_height(first, s, preserve, replies);
                lemma_wgs84_height(second, t, preserve, replies);
                lemma_wgs84_balanced(first, s, preserve, replies);
                lemma_both_height(
                    to_wgs84_emission(first, s, preserve, replies),
                    from_wgs84_emission(second, t, preserve, replies),
                );
            },
            OperationMethod::Concatenated { steps } => {
                if levels > 0 {
                    let directed = directed_steps(steps@, direction);
                    assert forall|i: int| 0 <= i < directed.len() implies match entry(
                        registry.operations(),
                        (#[trigger] directed[i]).operation_id.0,
                    ) {
                        Some(child) => leaves_height_alone(child, registry, (levels - 1) as nat),
                        None => true,
                    } by {
                        let j = if inverse {
                            steps@.len() - 1 - i
                        } else {
                            i
                        };
                        assert(directed[i].operation_id == steps@[j].operation_id);
                    }
                    lemma_steps_height(directed, registry, replies, (levels - 1) as nat);
                }
            },
            _ => {
                lemma_plain_step_keeps_height(
                    operation_emission(operation, direction, pair, registry, replies, levels).steps,
                );
            },
        }
    }
}

/// Between systems that are not geocentric, an operation that leaves ellipsoidal
/// height alone compiles to a pipeline that does not change it.
pub proof fn law_pipeline_leaves_height_alone(
    source: CrsDef,
    target: CrsDef,
    operation: SelectedOperationKind,
    direction: OperationStepDirection,
    registry: Registry,
    replies: ServiceReplies,
)
    requires
        !(source is Geocentric),
        !(target is Geocentric),
        match operation {
            SelectedOperationKind::Identity => true,
            SelectedOperationKind::Registry(operation) => leaves_height_alone(
                operation,
                registry,
                all_levels(registry),
            ),
            SelectedOperationKind::Custom(operation) => leaves_height_alone(
                operation,
                registry,
                all_levels(registry),
            ),
        },
    ensures
        !transforms_height(
            settled(
                pipeline_emission(source, target, operation, direction, registry, replies).steps,
            ),
        ),
{
    let enter = source_emission(source, replies);
    let middle = selected_emission(source, target, operation, direction, registry, replies);
    let leave = target_emission(target, replies);
    lemma_plain_step_keeps_height(enter.steps);
    lemma_plain_step_keeps_height(leave.steps);
    if enter.steps.len() > 0 {
        lemma_single_balanced(enter.steps[0]);
        assert(enter.steps =~= seq![enter.steps[0]]);
    }
    let pair = Some((source, target));
    let levels = all_levels(registry);
    match operation {
        SelectedOperationKind::Identity => {
            lemma_plain_step_keeps_height(middle.steps);
        },
        SelectedOperationKind::Registry(operation) => {
            lemma_operation_balanced(operation, direction, pair, registry, replies, levels);
            law_height_is_left_alone(operation, direction, pair, registry, replies, levels);
        },
        SelectedOperationKind::Custom(operation) => {
            lemma_operation_balanced(operation, direction, pair, registry, replies, levels);
            law_height_is_left_alone(operation, direction, pair, registry, replies, levels);
        },
    }
    lemma_both_balanced(enter, middle);
    lemma_both_height(enter, middle);
    lemma_both_height(both(enter, middle), leave);
    law_dropping_framing_exposes_no_height(
        pipeline_emission(source, target, operation, direction, registry, replies).steps,
    );
}

/// A Helmert or an affine transformation that is not limited to longitude and
/// latitude changes ellipsoidal height.
pub proof fn law_spatial_transformation_changes_height(
    operation: CoordinateOperation,
    direction: OperationStepDirection,
    pair: Option<(CrsDef, CrsDef)>,
    registry: Registry,
    replies: ServiceReplies,
    levels: nat,
)
    requires
        operation.method is Helmert || operation.method is GeocentricAffine,
        !(operation.domain is Geographic2D),
        operation_emission(operation, direction, pair, registry, replies, levels).halt is None,
    ensures
        transforms_height(
            operation_emission(operation, direction, pair, registry, replies, levels).steps,
        ),
{
    let steps = operation_emission(operation, direction, pair, registry, replies, levels).steps;
    assert(alters_height(steps[0]));
    assert(steps.take(0) =~= Seq::<Step>::empty());
    assert(open_passthroughs(0, steps.take(0)) == 0);
}

proof fn lemma_settles_to_nothing(left: Step, right: Step)
    requires
        crate::framing::framing_cancels(left, right),
    ensures
        settled(seq![left, right]) == Seq::<Step>::empty(),
{
    reveal_with_fuel(sweep, 2);
    let steps = seq![left, right];
    assert(steps.skip(2) =~= Seq::<Step>::empty());
    assert(sweep(steps) == Seq::<Step>::empty());
    assert(settled(Seq::<Step>::empty()) == Seq::<Step>::empty());
}

/// Between two geocentric systems on the same ellipsoid and the same datum
/// nothing is left to do.
pub proof fn law_geocentric_identity_has_no_steps(
    source: CrsDef,
    target: CrsDef,
    direction: OperationStepDirection,
    registry: Registry,
    replies: ServiceReplies,
)
    requires
        source is Geocentric,
        target is Geocentric,
        same_ellipsoid(source.datum_spec().ellipsoid, target.datum_spec().ellipsoid),
    ensures
        pipeline_emission(
            source,
            target,
            SelectedOperationKind::Identity,
            direction,
            registry,
            replies,
        ).halt is None,
        settled(
            pipeline_emission(
                source,
                target,
                SelectedOperationKind::Identity,
                direction,
                registry,
                replies,
            ).steps,
        ) == Seq::<Step>::empty(),
{
    let left = Step::GeocentricToGeodetic { ellipsoid: source.datum_spec().ellipsoid };
    let right = Step::GeodeticToGeocentric { ellipsoid: target.datum_spec().ellipsoid };
    let emitted = pipeline_emission(
        source,
        target,
        SelectedOperationKind::Identity,
        direction,
        registry,
        replies,
    );
    assert(emitted.steps =~= seq![left, right]);
    lemma_settles_to_nothing(left, right);
}

proof fn lemma_framed_sandwich_settles(
    outer_source: Ellipsoid,
    source: Ellipsoid,
    target: Ellipsoid,
    outer_target: Ellipsoid,
    step: Step,
)
    requires
        same_ellipsoid(outer_source, source),
        same_ellipsoid(target, outer_target),
        step is Helmert || step is GeocentricAffine,
    ensures
        settled(
            seq![Step::GeocentricToGeodetic { ellipsoid: outer_source }] + sandwich(
                source,
                target,
                false,
                step,
            ) + seq![Step::GeodeticToGeocentric { ellipsoid: outer_target }],
        ) == seq![step],
{
    let steps = seq![Step::GeocentricToGeodetic { ellipsoid: outer_source }] + sandwich(
        source,
        target,
        false,
        step,
    ) + seq![Step::GeodeticToGeocentric { ellipsoid: outer_target }];
    reveal_with_fuel(sweep, 2);
    let rest = steps.skip(2);
    let tail = rest.skip(1);
    assert(rest =~= seq![steps[2], steps[3], steps[4]]);
    assert(tail =~= seq![steps[3], steps[4]]);
    assert(tail.skip(2) =~= Seq::<Step>::empty());
    assert(sweep(tail) == Seq::<Step>::empty());
    assert(sweep(rest) == seq![step] + sweep(tail));
    assert(sweep(steps) =~= seq![step]);
    assert(settled(seq![step]) == seq![step]);
}

/// Between two geocentric systems, a Helmert or an affine transformation between
/// their datums that is not limited to longitude and latitude is all that is
/// left: no conversion to geodetic coordinates remains.
pub proof fn law_geocentric_transformation_runs_directly(
    source: CrsDef,
    target: CrsDef,
    operation: CoordinateOperation,
    direction: OperationStepDirection,
    registry: Registry,
    replies: ServiceReplies,
)
    requires
        source is Geocentric,
        target is Geocentric,
        operation.method is Helmert || operation.method is GeocentricAffine,
        !(operation.domain is Geographic2D),
        geographic_pair(operation, direction, Some((source, target)), registry) matches Ok(pair)
            && same_ellipsoid(source.datum_spec().ellipsoid, pair.0.datum_spec().ellipsoid)
            && same_ellipsoid(pair.1.datum_spec().ellipsoid, target.datum_spec().ellipsoid),
        pipeline_emission(
            source,
            target,
            SelectedOperationKind::Custom(operation),
            direction,
            registry,
            replies,
        ).halt is None,
    ensures
        settled(
            pipeline_emission(
                source,
                target,
                SelectedOperationKind::Custom(operation),
                direction,
                registry,
                replies,
            ).steps,
        ) == seq![
            match operation.method {
                OperationMethod::GeocentricAffine { params } => Step::GeocentricAffine {
                    params,
                    inverse: direction is Reverse,
                },
                _ => Step::Helmert {
                    params: operation.method->Helmert_params,
                    inverse: direction is Reverse,
                },
            },
        ],
        pipeline_emission(
            source,
            target,
            SelectedOperationKind::Registry(operation),
            direction,
            registry,
            replies,
        ) == pipeline_emission(
            source,
            target,
            SelectedOperationKind::Custom(operation),
            direction,
            registry,
            replies,
        ),
{
    let (from, to) = geographic_pair(
        operation,
        direction,
        Some((source, target)),
        registry,
    )->Ok_0;
    let inverse = direction is Reverse;
    let step = match operation.method {
        OperationMethod::GeocentricAffine { params } => Step::GeocentricAffine { params, inverse },
        _ => Step::Helmert { params: operation.method->Helmert_params, inverse },
    };
    lemma_framed_sandwich_settles(
        source.datum_spec().ellipsoid,
        from.datum_spec().ellipsoid,
        to.datum_spec().ellipsoid,
        target.datum_spec().ellipsoid,
        step,
    );
}

/// A list of grids of which one may not be left out either loads a grid or
/// halts: it never comes out empty.
pub proof fn law_required_grid_is_loaded_or_halts(
    entries: Seq<DatumGridShiftEntry>,
    replies: ServiceReplies,
)
    ensures
        grid_scan(entries, replies).required_seen ==> grid_scan(entries, replies).halt is Some
            || grid_scan(entries, replies).handles.len() > 0,
    decreases entries.len(),
{
    if entries.len() > 0 {
        law_required_grid_is_loaded_or_halts(entries.drop_first(), replies);
    }
}

/// Entries behind the first null entry of a list of grids are not looked at.
pub proof fn law_null_entry_ends_the_list(
    before: Seq<DatumGridShiftEntry>,
    behind: Seq<DatumGridShiftEntry>,
    replies: ServiceReplies,
)
    ensures
        grid_scan(before + seq![DatumGridShiftEntry::Null] + behind, replies) == grid_scan(
            before + seq![DatumGridShiftEntry::Null],
            replies,
        ),
    decreases before.len(),
{
    let short = before + seq![DatumGridShiftEntry::Null];
    let long = short + behind;
    if before.len() == 0 {
        assert(short[0] == DatumGridShiftEntry::Null);
        assert(long[0] == DatumGridShiftEntry::Null);
    } else {
        let rest = before.drop_first();
        assert(short[0] == before[0] && long[0] == before[0]);
        assert(short.drop_first() =~= rest + seq![DatumGridShiftEntry::Null]);
        assert(long.drop_first() =~= rest + seq![DatumGridShiftEntry::Null] + behind);
        law_null_entry_ends_the_list(rest, behind, replies);
    }
}

/// No execution of a compiled pipeline fails on its height stack: whatever halts
/// its steps, halted one that works on coordinates.
pub proof fn law_compiled_pipeline_never_fails_on_the_stack(
    source: CrsDef,
    target: CrsDef,
    operation: SelectedOperationKind,
    direction: OperationStepDirection,
    registry: Registry,
    services: ServiceReplies,
    coord: Coord3D,
    replies: Replies,
    halt: HaltView,
)
    requires
        steps_outcome(
            settled(
                pipeline_emission(source, target, operation, direction, registry, services).steps,
            ),
            coord,
            Seq::empty(),
            replies,
        ) == Err::<Coord3D, HaltView>(halt),
    ensures
        exists|step: Step, reached: Coord3D|
            works_on_coordinates(step) && #[trigger] step_outcome(step, reached, replies) == Err::<
                Coord3D,
                HaltView,
            >(halt) && settled(
                pipeline_emission(source, target, operation, direction, registry, services).steps,
            ).contains(step),
{
    let steps = settled(
        pipeline_emission(source, target, operation, direction, registry, services).steps,
    );
    law_compiled_heights_pair_up(source, target, operation, direction, registry, services);
    law_balanced_steps_never_fail_on_the_stack(steps, coord, replies, halt);
    let (i, reached) = choose|i: int, reached: Coord3D|
        0 <= i < steps.len() && works_on_coordinates(steps[i]) && #[trigger] step_outcome(
            steps[i],
            reached,
            replies,
        ) == Err::<Coord3D, HaltView>(halt);
    assert(steps.contains(steps[i]));
    assert(step_outcome(steps[i], reached, replies) == Err::<Coord3D, HaltView>(halt));
}

/// Between systems that are not geocentric, an operation that leaves ellipsoidal
/// height alone hands every height back as it came, bit for bit.
pub proof fn law_horizontal_operation_keeps_height(
    source: CrsDef,
    target: CrsDef,
    operation: SelectedOperationKind,
    direction: OperationStepDirection,
    registry: Registry,
    services: ServiceReplies,
    pipeline: CompiledOperationPipeline,
    coord: Coord3D,
    replies: Replies,
)
    requires
        !(source is Geocentric),
        !(target is Geocentric),
        match operation {
            SelectedOperationKind::Identity => true,
            SelectedOperationKind::Registry(operation) => leaves_height_alone(
                operation,
                registry,
                all_levels(registry),
            ),
            SelectedOperationKind::Custom(operation) => leaves_height_alone(
                operation,
                registry,
                all_levels(registry),
            ),
        },
        pipeline.steps@ == settled(
            pipeline_emission(source, target, operation, direction, registry, services).steps,
        ),
        pipeline.source_xy_units == source_units(source),
        pipeline.target_xy_units == target_units(target),
        pipeline.well_formed(),
        pipeline_outcome_xyz(pipeline, coord, replies) is Ok,
    ensures
        pipeline_outcome_xyz(pipeline, coord, replies)->Ok_0.z == coord.z,
{
    law_pipeline_leaves_height_alone(source, target, operation, direction, registry, services);
    law_unmarked_pipeline_keeps_height(pipeline, coord, replies);
}

} // verus!
