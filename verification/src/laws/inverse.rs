//! The compiled pipeline of the way back is the mirror image of the way there.
use vstd::prelude::*;
use crate::coord::{Coord, Coord3D};
use crate::crs::CrsDef;
use crate::ellipsoid::Ellipsoid;
use crate::emission::{
    all_levels, both, directed_steps, from_wgs84_emission, geographic_pair, operation_emission,
    pipeline_emission, selected_emission, source_emission, step_emission, steps_emission,
    target_emission, to_wgs84_emission, Emission,
};
use crate::execute::{pipeline_outcome_xyz, steps_outcome};
use crate::framing::{framing_cancels, lemma_sweep_len, settled, sweep};
use crate::height::{
    alters_height, balanced, balanced_from, depth_after, open_passthroughs, transforms_height,
};
use crate::laws::compilation::law_compiled_heights_pair_up;
use crate::laws::execution::works_on_coordinates;
use crate::laws::framing::is_framing;
use crate::laws::mirror::{
    law_inverse_pipeline_is_the_mirror_image, law_mirror_image_undoes, law_mirror_is_an_involution,
    mirror_step, mirrored, reversible,
};
use crate::numerics::{HaltView, Replies};
use crate::operation::{
    CoordinateOperation, DatumToWgs84, OperationMethod, OperationStep, OperationStepDirection,
    SelectedOperationKind,
};
use crate::pipeline::CompiledOperationPipeline;
use crate::registry::{entry, Registry};
use crate::services::ServiceReplies;
use crate::step::Step;
use crate::units::{denormalized, normalized, source_units, target_units};

verus! {

/// Whether no three conversions between geodetic and geocentric coordinates
/// follow each other.
pub open spec fn spaced(steps: Seq<Step>) -> bool {
    forall|i: int|
        0 <= i < steps.len() - 2 ==> !(is_framing(#[trigger] steps[i]) && is_framing(steps[i + 1])
            && is_framing(steps[i + 2]))
}

pub proof fn lemma_spaced_part(steps: Seq<Step>, from: int, to: int)
    requires
        0 <= from <= to <= steps.len(),
        spaced(steps),
    ensures
        spaced(steps.subrange(from, to)),
{
    let part = steps.subrange(from, to);
    assert forall|i: int| 0 <= i < part.len() - 2 implies !(is_framing(#[trigger] part[i])
        && is_framing(part[i + 1]) && is_framing(part[i + 2])) by {
        assert(part[i] == steps[from + i]);
    }
}

/// A sweep, seen from the end of the steps.
pub proof fn lemma_sweep_back(steps: Seq<Step>)
    requires
        spaced(steps),
        steps.len() >= 2,
    ensures
        sweep(steps) == (if framing_cancels(steps[steps.len() - 2], steps[steps.len() - 1]) {
            sweep(steps.take(steps.len() - 2))
        } else {
            sweep(steps.drop_last()).push(steps.last())
        }),
    decreases steps.len(),
{
    reveal_with_fuel(sweep, 2);
    let n = steps.len() as int;
    let shorter = steps.take(n - 2);
    let short = steps.drop_last();
    if framing_cancels(steps[0], steps[1]) {
        let rest = steps.skip(2);
        if n == 2 {
            assert(rest =~= shorter);
        } else if n == 3 {
            assert(is_framing(steps[0]) && is_framing(steps[1]));
            assert(!is_framing(steps[2]));
            assert(short.skip(2) =~= Seq::<Step>::empty());
            assert(rest =~= Seq::<Step>::empty().push(steps[2]));
        } else {
            lemma_spaced_part(steps, 2, n);
            assert(rest =~= steps.subrange(2, n));
            lemma_sweep_back(rest);
            assert(rest.take(n - 4) =~= shorter.skip(2));
            assert(rest.drop_last() =~= short.skip(2));
        }
    } else {
        let rest = steps.skip(1);
        let first = seq![steps[0]];
        if n == 2 {
            assert(short =~= first);
            assert(rest.len() == 1);
            assert(first + rest =~= first.push(steps[1]));
        } else {
            lemma_spaced_part(steps, 1, n);
            assert(rest =~= steps.subrange(1, n));
            lemma_sweep_back(rest);
            assert(rest.drop_last() =~= short.skip(1));
            if framing_cancels(steps[n - 2], steps[n - 1]) {
                assert(rest.take(n - 3) =~= shorter.skip(1));
                if n == 3 {
                    assert(shorter =~= first);
                    assert(first + Seq::<Step>::empty() =~= first);
                    assert(shorter.skip(1) =~= Seq::<Step>::empty());
                }
            } else {
                assert(first + sweep(short.skip(1)).push(steps.last()) =~= (first + sweep(
                    short.skip(1),
                )).push(steps.last()));
            }
        }
    }
}

proof fn lemma_cancels_mirrored(left: Step, right: Step)
    ensures
        framing_cancels(mirror_step(right), mirror_step(left)) == framing_cancels(left, right),
{
}

/// A sweep over the mirror image gives the mirror image of a sweep.
proof fn lemma_sweep_mirrored(steps: Seq<Step>)
    requires
        spaced(steps),
    ensures
        sweep(mirrored(steps)) == mirrored(sweep(steps)),
    decreases steps.len(),
{
    let image = mirrored(steps);
    if steps.len() < 2 {
        assert(mirrored(steps) =~= image);
    } else {
        let n = steps.len() as int;
        lemma_sweep_back(steps);
        lemma_cancels_mirrored(steps[n - 2], steps[n - 1]);
        if framing_cancels(steps[n - 2], steps[n - 1]) {
            lemma_spaced_part(steps, 0, n - 2);
            assert(steps.take(n - 2) =~= steps.subrange(0, n - 2));
            lemma_sweep_mirrored(steps.take(n - 2));
            assert(image.skip(2) =~= mirrored(steps.take(n - 2)));
        } else {
            let short = steps.drop_last();
            lemma_spaced_part(steps, 0, n - 1);
            assert(short =~= steps.subrange(0, n - 1));
            lemma_sweep_mirrored(short);
            assert(image.skip(1) =~= mirrored(short));
            assert(mirrored(sweep(short).push(steps.last())) =~= seq![mirror_step(steps.last())]
                + mirrored(sweep(short)));
        }
    }
}

/// What a sweep leaves is spaced, and starts with conversions only where the
/// steps did.
proof fn lemma_sweep_spaced(steps: Seq<Step>)
    requires
        spaced(steps),
    ensures
        spaced(sweep(steps)),
        sweep(steps).len() > 0 && is_framing(sweep(steps)[0]) ==> is_framing(steps[0]),
        sweep(steps).len() > 1 && is_framing(sweep(steps)[0]) && is_framing(sweep(steps)[1])
            ==> is_framing(steps[0]) && is_framing(steps[1]),
    decreases steps.len(),
{
    lemma_sweep_len(steps);
    if steps.len() >= 2 {
        let n = steps.len() as int;
        if framing_cancels(steps[0], steps[1]) {
            let rest = steps.skip(2);
            lemma_spaced_part(steps, 2, n);
            assert(rest =~= steps.subrange(2, n));
            lemma_sweep_len(rest);
            lemma_sweep_spaced(rest);
            if n > 2 {
                assert(is_framing(steps[0]) && is_framing(steps[1]));
                assert(!is_framing(steps[2]));
                assert(rest[0] == steps[2]);
            }
        } else {
            let rest = steps.skip(1);
            lemma_spaced_part(steps, 1, n);
            assert(rest =~= steps.subrange(1, n));
            lemma_sweep_len(rest);
            lemma_sweep_spaced(rest);
            let left = sweep(rest);
            let all = seq![steps[0]] + left;
            assert forall|i: int| 0 <= i < all.len() - 2 implies !(is_framing(#[trigger] all[i])
                && is_framing(all[i + 1]) && is_framing(all[i + 2])) by {
                if i > 0 {
                    assert(all[i] == left[i - 1]);
                } else if is_framing(steps[0]) {
                    assert(all[1] == left[0] && all[2] == left[1]);
                    assert(rest[0] == steps[1] && rest[1] == steps[2]);
                }
            }
        }
    }
}

/// Where no three conversions follow each other, dropping redundant framing from
/// the mirror image gives the mirror image of what is left.
pub proof fn law_framing_is_dropped_alike_both_ways(steps: Seq<Step>)
    requires
        spaced(steps),
    ensures
        settled(mirrored(steps)) == mirrored(settled(steps)),
    decreases steps.len(),
{
    lemma_sweep_len(steps);
    lemma_sweep_mirrored(steps);
    if sweep(steps).len() < steps.len() {
        lemma_sweep_spaced(steps);
        law_framing_is_dropped_alike_both_ways(sweep(steps));
    }
}

/// Whether the steps are spaced, with no more than one conversion at either end
/// and something else next to it.
pub open spec fn modest(steps: Seq<Step>) -> bool {
    &&& spaced(steps)
    &&& steps.len() > 0 && is_framing(steps[0]) ==> steps.len() > 1 && !is_framing(steps[1])
    &&& steps.len() > 0 && is_framing(steps[steps.len() - 1]) ==> steps.len() > 1 && !is_framing(
        steps[steps.len() - 2],
    )
}

proof fn lemma_modest_concat(first: Seq<Step>, second: Seq<Step>)
    requires
        modest(first),
        modest(second),
    ensures
        modest(first + second),
{
    let all = first + second;
    let n = first.len() as int;
    assert forall|i: int| 0 <= i < all.len() - 2 implies !(is_framing(#[trigger] all[i])
        && is_framing(all[i + 1]) && is_framing(all[i + 2])) by {
        if i + 2 < n {
            assert(all[i] == first[i]);
        } else if i >= n {
            assert(all[i] == second[i - n]);
        } else if i + 2 == n {
            assert(all[i] == first[n - 2] && all[i + 1] == first[n - 1]);
        } else {
            assert(all[i] == first[n - 1] && all[i + 1] == second[0] && all[i + 2] == second[1]);
        }
    }
    if n == 0 {
        assert(all =~= second);
    }
    if second.len() == 0 {
        assert(all =~= first);
    }
}

proof fn lemma_both_modest(first: Emission, second: Emission)
    requires
        modest(first.steps),
        modest(second.steps),
    ensures
        modest(both(first, second).steps),
{
    lemma_modest_concat(first.steps, second.steps);
}

proof fn lemma_wgs84_modest(
    transform: DatumToWgs84,
    ellipsoid: Ellipsoid,
    preserve_height: bool,
    replies: ServiceReplies,
)
    ensures
        modest(to_wgs84_emission(transform, ellipsoid, preserve_height, replies).steps),
        modest(from_wgs84_emission(transform, ellipsoid, preserve_height, replies).steps),
{
}

pub proof fn lemma_operation_modest(
    operation: CoordinateOperation,
    direction: OperationStepDirection,
    pair: Option<(CrsDef, CrsDef)>,
    registry: Registry,
    replies: ServiceReplies,
    levels: nat,
)
    ensures
        modest(operation_emission(operation, direction, pair, registry, replies, levels).steps),
    decreases levels, 0nat, 0nat,
{
    let preserve = operation.domain is Geographic2D;
    if let Ok((source, target)) = geographic_pair(operation, direction, pair, registry) {
        let s = source.datum_spec().ellipsoid;
        let t = target.datum_spec().ellipsoid;
        match operation.method {
            OperationMethod::DatumShift { source_to_wgs84, target_to_wgs84 } => {
                let (first, second) = if direction is Reverse {
                    (target_to_wgs84, source_to_wgs84)
                } else {
                    (source_to_wgs84, target_to_wgs84)
                };
                lemma_wgs84_modest(first, s, preserve, replies);
                lemma_wgs84_modest(second, t, preserve, replies);
                lemma_both_modest(
                    to_wgs84_emission(first, s, preserve, replies),
                    from_wgs84_emission(second, t, preserve, replies),
                );
            },
            OperationMethod::Concatenated { steps } => {
                if levels > 0 {
                    lemma_steps_modest(
                        directed_steps(steps@, direction),
                        registry,
                        replies,
                        (levels - 1) as nat,
                    );
                }
            },
            _ => {},
        }
    }
}

proof fn lemma_steps_modest(
    steps: Seq<OperationStep>,
    registry: Registry,
    replies: ServiceReplies,
    levels: nat,
)
    ensures
        modest(steps_emission(steps, registry, replies, levels).steps),
    decreases levels, 1nat, steps.len(),
{
    if steps.len() > 0 {
        let last = steps.last();
        lemma_steps_modest(steps.drop_last(), registry, replies, levels);
        if let Some(child) = entry(registry.operations(), last.operation_id.0) {
            lemma_operation_modest(child, last.direction, None, registry, replies, levels);
        }
        lemma_both_modest(
            steps_emission(steps.drop_last(), registry, replies, levels),
            step_emission(last, registry, replies, levels),
        );
    }
}

pub proof fn lemma_framed_spaced(enter: Seq<Step>, middle: Seq<Step>, leave: Seq<Step>)
    requires
        enter.len() <= 1,
        leave.len() <= 1,
        modest(middle),
    ensures
        spaced(enter + middle + leave),
{
    let all = enter + middle + leave;
    let n = enter.len() as int;
    let m = middle.len() as int;
    assert forall|i: int| 0 <= i < all.len() - 2 implies !(is_framing(#[trigger] all[i])
        && is_framing(all[i + 1]) && is_framing(all[i + 2])) by {
        assert forall|j: int| n <= j < n + m implies #[trigger] all[j] == middle[j - n] by {}
        if i < n {
            assert(m >= 1);
            assert(all[i + 1] == middle[0]);
            if m > 1 {
                assert(all[i + 2] == middle[1]);
            }
        } else if i + 2 < n + m {
            assert(all[i] == middle[i - n]);
        } else {
            assert(all[i + 1] == middle[m - 1] && all[i] == middle[m - 2]);
        }
    }
}

/// The pipeline of the way back holds the mirror image of the steps of the way
/// there: the last step first, each the other way.
pub proof fn law_way_back_is_the_mirror_image(
    source: CrsDef,
    target: CrsDef,
    operation: SelectedOperationKind,
    direction: OperationStepDirection,
    registry: Registry,
    replies: ServiceReplies,
)
    requires
        pipeline_emission(source, target, operation, direction, registry, replies).halt is None,
    ensures
        pipeline_emission(
            target,
            source,
            operation,
            direction.opposite(),
            registry,
            replies,
        ).halt is None,
        settled(
            pipeline_emission(
                target,
                source,
                operation,
                direction.opposite(),
                registry,
                replies,
            ).steps,
        ) == mirrored(
            settled(
                pipeline_emission(source, target, operation, direction, registry, replies).steps,
            ),
        ),
{
    law_inverse_pipeline_is_the_mirror_image(
        source,
        target,
        operation,
        direction,
        registry,
        replies,
    );
    let pair = Some((source, target));
    let levels = all_levels(registry);
    match operation {
        SelectedOperationKind::Identity => {},
        SelectedOperationKind::Registry(operation) => {
            lemma_operation_modest(operation, direction, pair, registry, replies, levels);
        },
        SelectedOperationKind::Custom(operation) => {
            lemma_operation_modest(operation, direction, pair, registry, replies, levels);
        },
    }
    lemma_framed_spaced(
        source_emission(source, replies).steps,
        selected_emission(source, target, operation, direction, registry, replies).steps,
        target_emission(target, replies).steps,
    );
    law_framing_is_dropped_alike_both_ways(
        pipeline_emission(source, target, operation, direction, registry, replies).steps,
    );
}

/// How many more heights the steps save than they restore.
spec fn net(steps: Seq<Step>) -> int
    decreases steps.len(),
{
    if steps.len() == 0 {
        0
    } else {
        net(steps.drop_first()) + if steps[0] is PushHeight {
            1int
        } else if steps[0] is PopHeight {
            -1
        } else {
            0
        }
    }
}

proof fn lemma_net_concat(first: Seq<Step>, second: Seq<Step>)
    ensures
        net(first + second) == net(first) + net(second),
    decreases first.len(),
{
    if first.len() == 0 {
        assert(first + second =~= second);
    } else {
        assert((first + second)[0] == first[0]);
        assert((first + second).drop_first() =~= first.drop_first() + second);
        lemma_net_concat(first.drop_first(), second);
    }
}

proof fn lemma_net_mirrored(steps: Seq<Step>)
    ensures
        net(mirrored(steps)) == -net(steps),
    decreases steps.len(),
{
    reveal_with_fuel(net, 2);
    if steps.len() == 0 {
        assert(mirrored(steps) =~= steps);
    } else {
        let last = seq![mirror_step(steps[0])];
        assert(mirrored(steps) =~= mirrored(steps.drop_first()) + last);
        assert(last.drop_first() =~= Seq::<Step>::empty());
        lemma_net_concat(mirrored(steps.drop_first()), last);
        lemma_net_mirrored(steps.drop_first());
    }
}

/// Where heights pair up, the open passthroughs are the heights not restored yet.
proof fn lemma_open_is_net(depth: nat, steps: Seq<Step>, k: int)
    requires
        balanced_from(depth, steps),
        0 <= k <= steps.len(),
    ensures
        open_passthroughs(depth, steps.take(k)) == depth + net(steps.take(k)),
        net(steps) == -depth,
    decreases steps.len(),
{
    if steps.len() > 0 {
        let next = depth_after(depth, steps[0]);
        let rest = steps.drop_first();
        if k > 0 {
            assert(steps.take(k)[0] == steps[0]);
            assert(steps.take(k).drop_first() =~= rest.take(k - 1));
            lemma_open_is_net(next, rest, k - 1);
        } else {
            lemma_open_is_net(next, rest, 0);
        }
    }
}

/// Steps that never restore more heights than were saved, and in the end as many,
/// have heights that pair up.
proof fn lemma_net_balances(depth: nat, steps: Seq<Step>)
    requires
        forall|k: int| 0 <= k <= steps.len() ==> depth + #[trigger] net(steps.take(k)) >= 0,
        depth + net(steps) == 0,
    ensures
        balanced_from(depth, steps),
    decreases steps.len(),
{
    reveal_with_fuel(net, 2);
    if steps.len() > 0 {
        let rest = steps.drop_first();
        assert(steps.take(1).drop_first() =~= Seq::<Step>::empty());
        assert(depth + net(steps.take(1)) >= 0);
        let next = depth_after(depth, steps[0]);
        assert forall|k: int| 0 <= k <= rest.len() implies next + #[trigger] net(rest.take(k))
            >= 0 by {
            assert(steps.take(k + 1)[0] == steps[0]);
            assert(steps.take(k + 1).drop_first() =~= rest.take(k));
            assert(depth + net(steps.take(k + 1)) >= 0);
        }
        lemma_net_balances(next, rest);
    }
}

/// The start of the mirror image saves as much as the steps that it leaves out.
proof fn lemma_net_of_mirrored_start(steps: Seq<Step>, k: int)
    requires
        balanced(steps),
        0 <= k <= steps.len(),
    ensures
        net(mirrored(steps).take(k)) == net(steps.take(steps.len() - k)),
        net(mirrored(steps).take(k)) >= 0,
{
    let n = steps.len() as int;
    let end = steps.skip(n - k);
    assert(mirrored(steps).take(k) =~= mirrored(end));
    lemma_net_mirrored(end);
    assert(steps.take(n - k) + end =~= steps);
    lemma_net_concat(steps.take(n - k), end);
    lemma_open_is_net(0, steps, n - k);
}

proof fn lemma_mirrored_balanced(steps: Seq<Step>)
    requires
        balanced(steps),
    ensures
        balanced(mirrored(steps)),
{
    let image = mirrored(steps);
    assert forall|k: int| 0 <= k <= image.len() implies 0 + #[trigger] net(image.take(k)) >= 0 by {
        lemma_net_of_mirrored_start(steps, k);
    }
    lemma_net_mirrored(steps);
    lemma_open_is_net(0, steps, 0);
    lemma_net_balances(0, image);
}

proof fn lemma_mirrored_height(steps: Seq<Step>)
    requires
        balanced(steps),
        transforms_height(steps),
    ensures
        transforms_height(mirrored(steps)),
{
    reveal_with_fuel(net, 2);
    let n = steps.len() as int;
    let image = mirrored(steps);
    let i = choose|i: int|
        0 <= i < steps.len() && alters_height(#[trigger] steps[i]) && open_passthroughs(
            0,
            steps.take(i),
        ) == 0;
    let j = n - 1 - i;
    lemma_open_is_net(0, steps, i);
    lemma_net_of_mirrored_start(steps, j);
    assert(steps.take(i + 1) =~= steps.take(i) + seq![steps[i]]);
    assert(seq![steps[i]].drop_first() =~= Seq::<Step>::empty());
    lemma_net_concat(steps.take(i), seq![steps[i]]);
    lemma_mirrored_balanced(steps);
    lemma_open_is_net(0, image, j);
    assert(alters_height(image[j]));
}

/// Steps whose heights pair up change height exactly if their mirror image does.
pub proof fn law_mirror_image_agrees_on_height(steps: Seq<Step>)
    requires
        balanced(steps),
    ensures
        balanced(mirrored(steps)),
        transforms_height(mirrored(steps)) == transforms_height(steps),
{
    lemma_mirrored_balanced(steps);
    if transforms_height(steps) {
        lemma_mirrored_height(steps);
    }
    if transforms_height(mirrored(steps)) {
        lemma_mirrored_height(mirrored(steps));
        law_mirror_is_an_involution(steps);
    }
}

/// The pipeline of the way back changes ellipsoidal height exactly if that of the
/// way there does.
pub proof fn law_both_ways_agree_on_height(
    source: CrsDef,
    target: CrsDef,
    operation: SelectedOperationKind,
    direction: OperationStepDirection,
    registry: Registry,
    replies: ServiceReplies,
)
    requires
        pipeline_emission(source, target, operation, direction, registry, replies).halt is None,
    ensures
        transforms_height(
            settled(
                pipeline_emission(
                    target,
                    source,
                    operation,
                    direction.opposite(),
                    registry,
                    replies,
                ).steps,
            ),
        ) == transforms_height(
            settled(
                pipeline_emission(source, target, operation, direction, registry, replies).steps,
            ),
        ),
{
    law_way_back_is_the_mirror_image(source, target, operation, direction, registry, replies);
    law_compiled_heights_pair_up(source, target, operation, direction, registry, replies);
    law_mirror_image_agrees_on_height(
        settled(pipeline_emission(source, target, operation, direction, registry, replies).steps),
    );
}

/// Whether the conversions at the endpoints undo each other on a run of a
/// pipeline: what its steps came to is what `to` becomes on the way in at the
/// target, and what they started from leaves at the source as `from`.
pub open spec fn conversions_undo(
    source: CrsDef,
    target: CrsDef,
    steps: Seq<Step>,
    from: Coord3D,
    to: Coord3D,
    replies: Replies,
) -> bool {
    match normalized(source_units(source), from, replies) {
        Ok(state) => {
            &&& denormalized(target_units(source), state, replies) == Ok::<Coord, HaltView>(
                from.planar(),
            )
            &&& normalized(source_units(target), to, replies) == steps_outcome(
                steps,
                state,
                Seq::empty(),
                replies,
            )
        },
        Err(_) => false,
    }
}

/// Where every step can be undone by the step that goes the other way, and the
/// conversions at the endpoints undo each other, the pipeline of the way back
/// takes the coordinate that the way there gave to where it came from. Pipelines
/// with a height passthrough are left out: a passthrough forgets the height that
/// the steps inside it gave.
pub proof fn law_way_back_returns(
    source: CrsDef,
    target: CrsDef,
    there: CompiledOperationPipeline,
    back: CompiledOperationPipeline,
    from: Coord3D,
    to: Coord3D,
    replies: Replies,
)
    requires
        there.source_xy_units == source_units(source),
        there.target_xy_units == target_units(target),
        back.source_xy_units == source_units(target),
        back.target_xy_units == target_units(source),
        there.steps@.len() > 0,
        back.steps@ == mirrored(there.steps@),
        forall|i: int|
            0 <= i < there.steps@.len() ==> works_on_coordinates(#[trigger] there.steps@[i])
                && reversible(there.steps@[i], replies),
        conversions_undo(source, target, there.steps@, from, to, replies),
        from.finite(),
        pipeline_outcome_xyz(there, from, replies) == Ok::<Coord3D, HaltView>(to),
    ensures
        pipeline_outcome_xyz(back, to, replies) == Ok::<Coord3D, HaltView>(from),
{
    let state = normalized(source_units(source), from, replies)->Ok_0;
    let moved = steps_outcome(there.steps@, state, Seq::empty(), replies)->Ok_0;
    law_mirror_image_undoes(there.steps@, state, moved, replies);
    assert(state.z == from.z);
}

/// A pipeline without steps hands every coordinate back as it came.
pub proof fn law_pipeline_without_steps_changes_nothing(
    pipeline: CompiledOperationPipeline,
    from: Coord3D,
    replies: Replies,
)
    requires
        pipeline.steps@.len() == 0,
    ensures
        pipeline_outcome_xyz(pipeline, from, replies) matches Ok(to) ==> to == from,
{
}

} // verus!
