//! Going to a geocentric system directly, or by way of the geographic system of
//! its datum.
use vstd::prelude::*;
use crate::coord::Coord3D;
use crate::crs::CrsDef;
use crate::emission::{
    all_levels, pipeline_emission, selected_emission, source_emission, target_emission,
};
use crate::execute::{pipeline_outcome_xyz, step_outcome, steps_outcome};
use crate::framing::{
    framing_cancels, lemma_sweep_keeps, lemma_sweep_len, no_redundant_framing, settled, sweep,
};
use crate::height::{balanced_from, depth_after};
use crate::laws::execution::{
    law_execution_composes, law_execution_goes_on_from_success,
    law_steps_that_succeed_are_balanced,
};
use crate::laws::framing::{cancelling_steps_undo, is_framing, law_nothing_else_is_dropped};
use crate::laws::inverse::{
    lemma_framed_spaced, lemma_operation_modest, lemma_spaced_part, lemma_sweep_back, spaced,
};
use crate::numerics::{HaltView, Replies};
use crate::operation::{OperationStepDirection, SelectedOperationKind};
use crate::pipeline::CompiledOperationPipeline;
use crate::registry::Registry;
use crate::services::ServiceReplies;
use crate::step::Step;
use crate::units::{normalized, source_units, target_units};

verus! {

/// Where no three conversions follow each other, one sweep drops all that there
/// is to drop, and a conversion that it leaves in front stood there before.
proof fn lemma_one_sweep_is_enough(steps: Seq<Step>)
    requires
        spaced(steps),
    ensures
        no_redundant_framing(sweep(steps)),
        sweep(steps).len() > 0 && is_framing(sweep(steps)[0]) ==> sweep(steps)[0] == steps[0],
    decreases steps.len(),
{
    lemma_sweep_len(steps);
    if steps.len() >= 2 {
        let n = steps.len() as int;
        if framing_cancels(steps[0], steps[1]) {
            let rest = steps.skip(2);
            lemma_spaced_part(steps, 2, n);
            assert(rest =~= steps.subrange(2, n));
            lemma_sweep_len(rest);
            lemma_one_sweep_is_enough(rest);
            if n > 2 {
                assert(is_framing(steps[0]) && is_framing(steps[1]));
                assert(!is_framing(steps[2]));
                assert(rest[0] == steps[2]);
            }
        } else {
            let rest = steps.skip(1);
            lemma_spaced_part(steps, 1, n);
            assert(rest =~= steps.subrange(1, n));
            lemma_one_sweep_is_enough(rest);
            let left = sweep(rest);
            let all = seq![steps[0]] + left;
            assert forall|i: int| 0 <= i < all.len() - 1 implies !framing_cancels(
                #[trigger] all[i],
                all[i + 1],
            ) by {
                if i > 0 {
                    assert(!framing_cancels(left[i - 1], left[i]));
                } else {
                    assert(all[1] == left[0]);
                    assert(rest[0] == steps[1]);
                }
            }
        }
    }
}

proof fn lemma_settled_is_swept(steps: Seq<Step>)
    requires
        spaced(steps),
    ensures
        settled(steps) == sweep(steps),
{
    lemma_sweep_len(steps);
    lemma_one_sweep_is_enough(steps);
    if sweep(steps).len() < steps.len() {
        law_nothing_else_is_dropped(sweep(steps));
    } else {
        lemma_sweep_keeps(steps);
    }
}

/// A step that converts nothing is never dropped from the end.
proof fn lemma_last_working_step_stays(steps: Seq<Step>)
    requires
        spaced(steps),
        steps.len() > 0,
        !is_framing(steps.last()),
    ensures
        sweep(steps).len() > 0,
{
    if steps.len() >= 2 {
        lemma_sweep_back(steps);
    }
}

/// What is left of steps and one more conversion behind them: what is left of the
/// steps and the conversion, or what is left of the steps without the last one,
/// which the conversion undoes.
proof fn lemma_one_more_conversion(steps: Seq<Step>, conversion: Step)
    requires
        spaced(steps.push(conversion)),
        is_framing(conversion),
    ensures
        if steps.len() > 0 && framing_cancels(steps.last(), conversion) {
            settled(steps) == settled(steps.push(conversion)).push(steps.last()) && settled(
                steps.push(conversion),
            ) == sweep(steps.drop_last())
        } else {
            settled(steps.push(conversion)) == settled(steps).push(conversion)
        },
{
    let all = steps.push(conversion);
    let n = steps.len() as int;
    lemma_spaced_part(all, 0, n);
    assert(all.subrange(0, n) =~= steps);
    lemma_settled_is_swept(all);
    lemma_settled_is_swept(steps);
    if n == 0 {
        assert(sweep(all) =~= sweep(steps).push(conversion));
    } else {
        lemma_sweep_back(all);
        assert(all.drop_last() =~= steps);
        assert(all.take(n - 1) =~= steps.drop_last());
        if framing_cancels(steps.last(), conversion) {
            if n == 1 {
                assert(steps.drop_last() =~= Seq::<Step>::empty());
                assert(sweep(steps) =~= sweep(steps.drop_last()).push(steps.last()));
            } else {
                assert(is_framing(all[n - 1]) && is_framing(all[n]));
                assert(!is_framing(all[n - 2]));
                lemma_sweep_back(steps);
            }
        }
    }
}

proof fn lemma_balanced_start(depth: nat, steps: Seq<Step>, last: Step)
    requires
        balanced_from(depth, steps.push(last)),
        !(last is PushHeight),
        !(last is PopHeight),
    ensures
        balanced_from(depth, steps),
    decreases steps.len(),
{
    reveal_with_fuel(balanced_from, 2);
    let all = steps.push(last);
    if steps.len() == 0 {
        assert(all.drop_first() =~= steps);
    } else {
        assert(all[0] == steps[0]);
        assert(all.drop_first() =~= steps.drop_first().push(last));
        lemma_balanced_start(depth_after(depth, steps[0]), steps.drop_first(), last);
    }
}

proof fn lemma_single_step(step: Step, coord: Coord3D, replies: Replies)
    requires
        is_framing(step),
    ensures
        steps_outcome(seq![step], coord, Seq::empty(), replies) == step_outcome(
            step,
            coord,
            replies,
        ),
{
    reveal_with_fuel(steps_outcome, 2);
    assert(seq![step].drop_first() =~= Seq::<Step>::empty());
}

/// The way to a geocentric system takes the steps of the way to the geographic
/// system of its datum, and the conversion to geocentric coordinates behind them;
/// or, where the last of those steps is the conversion that this one undoes, all
/// of them but that.
pub proof fn law_steps_of_the_direct_way(
    source: CrsDef,
    geographic: CrsDef,
    geocentric: CrsDef,
    operation: SelectedOperationKind,
    direction: OperationStepDirection,
    registry: Registry,
    services: ServiceReplies,
)
    requires
        geographic is Geographic,
        geocentric is Geocentric,
        geographic.datum_spec() == geocentric.datum_spec(),
        pipeline_emission(source, geographic, operation, direction, registry, services).halt is None,
    ensures
        pipeline_emission(source, geocentric, operation, direction, registry, services).halt is None,
        ({
            let first = settled(
                pipeline_emission(
                    source,
                    geographic,
                    operation,
                    direction,
                    registry,
                    services,
                ).steps,
            );
            let direct = settled(
                pipeline_emission(
                    source,
                    geocentric,
                    operation,
                    direction,
                    registry,
                    services,
                ).steps,
            );
            let conversion = Step::GeodeticToGeocentric {
                ellipsoid: geocentric.datum_spec().ellipsoid,
            };
            ||| direct == first.push(conversion)
            ||| first.len() > 0 && framing_cancels(first.last(), conversion) && first
                == direct.push(first.last()) && (direct.len() == 0 ==> source is Geocentric)
        }),
{
    let enter = source_emission(source, services).steps;
    let middle = selected_emission(source, geographic, operation, direction, registry, services);
    let steps = enter + middle.steps;
    let conversion = Step::GeodeticToGeocentric { ellipsoid: geocentric.datum_spec().ellipsoid };
    let pair = Some((source, geographic));
    let levels = all_levels(registry);
    match operation {
        SelectedOperationKind::Identity => {},
        SelectedOperationKind::Registry(operation) => {
            lemma_operation_modest(operation, direction, pair, registry, services, levels);
        },
        SelectedOperationKind::Custom(operation) => {
            lemma_operation_modest(operation, direction, pair, registry, services, levels);
        },
    }
    assert(selected_emission(source, geocentric, operation, direction, registry, services)
        == middle);
    assert(target_emission(geocentric, services).steps =~= seq![conversion]);
    let there = pipeline_emission(source, geographic, operation, direction, registry, services);
    let direct = pipeline_emission(source, geocentric, operation, direction, registry, services);
    assert(there.steps =~= steps);
    assert(direct.steps =~= steps.push(conversion));
    lemma_framed_spaced(enter, middle.steps, seq![conversion]);
    assert(enter + middle.steps + seq![conversion] =~= steps.push(conversion));
    lemma_one_more_conversion(steps, conversion);
    if steps.len() > 0 && framing_cancels(steps.last(), conversion) {
        let n = steps.len() as int;
        let m = middle.steps.len() as int;
        let short = steps.drop_last();
        lemma_spaced_part(steps.push(conversion), 0, n - 1);
        assert(steps.push(conversion).subrange(0, n - 1) =~= short);
        if m > 0 {
            assert(steps.last() == middle.steps[m - 1]);
            assert(m > 1);
            assert(short.last() == middle.steps[m - 2]);
            lemma_last_working_step_stays(short);
        } else {
            assert(steps =~= enter);
        }
    }
}

/// Going to a geocentric system directly comes to the same as going to the
/// geographic system of its datum and from there to the geocentric one.
///
/// The coordinate in between has to become, on its way into the second pipeline,
/// what the steps of the first one came to. Where the direct way drops no
/// conversion, it then halts where the second pipeline does, too; where it does
/// drop one, steps that cancel have to give every coordinate back.
pub proof fn law_direct_way_agrees_with_the_chained_one(
    source: CrsDef,
    geographic: CrsDef,
    geocentric: CrsDef,
    operation: SelectedOperationKind,
    direction: OperationStepDirection,
    registry: Registry,
    services: ServiceReplies,
    first: CompiledOperationPipeline,
    second: CompiledOperationPipeline,
    direct: CompiledOperationPipeline,
    from: Coord3D,
    between: Coord3D,
    replies: Replies,
)
    requires
        geographic is Geographic,
        geocentric is Geocentric,
        geographic.datum_spec() == geocentric.datum_spec(),
        pipeline_emission(source, geographic, operation, direction, registry, services).halt is None,
        first.steps@ == settled(
            pipeline_emission(source, geographic, operation, direction, registry, services).steps,
        ),
        first.source_xy_units == source_units(source),
        first.target_xy_units == target_units(geographic),
        second.steps@ == settled(
            pipeline_emission(
                geographic,
                geocentric,
                SelectedOperationKind::Identity,
                direction,
                registry,
                services,
            ).steps,
        ),
        second.source_xy_units == source_units(geographic),
        second.target_xy_units == target_units(geocentric),
        direct.steps@ == settled(
            pipeline_emission(source, geocentric, operation, direction, registry, services).steps,
        ),
        direct.source_xy_units == source_units(source),
        direct.target_xy_units == target_units(geocentric),
        pipeline_outcome_xyz(first, from, replies) == Ok::<Coord3D, HaltView>(between),
        normalized(source_units(geographic), between, replies) == steps_outcome(
            first.steps@,
            normalized(source_units(source), from, replies)->Ok_0,
            Seq::empty(),
            replies,
        ),
    ensures
        direct.steps@.len() > first.steps@.len() ==> pipeline_outcome_xyz(direct, from, replies)
            == pipeline_outcome_xyz(second, between, replies),
        cancelling_steps_undo(replies) && pipeline_outcome_xyz(second, between, replies) is Ok
            ==> pipeline_outcome_xyz(direct, from, replies) == pipeline_outcome_xyz(
            second,
            between,
            replies,
        ),
{
    let conversion = Step::GeodeticToGeocentric { ellipsoid: geocentric.datum_spec().ellipsoid };
    law_steps_of_the_direct_way(
        source,
        geographic,
        geocentric,
        operation,
        direction,
        registry,
        services,
    );
    let last = pipeline_emission(
        geographic,
        geocentric,
        SelectedOperationKind::Identity,
        direction,
        registry,
        services,
    ).steps;
    assert(last =~= seq![conversion]);
    law_nothing_else_is_dropped(last);
    let state = normalized(source_units(source), from, replies)->Ok_0;
    reveal_with_fuel(steps_outcome, 2);
    assert(steps_outcome(first.steps@, state, Seq::empty(), replies) is Ok);
    let moved = steps_outcome(first.steps@, state, Seq::empty(), replies)->Ok_0;
    lemma_single_step(conversion, moved, replies);
    if direct.steps@ == first.steps@.push(conversion) {
        assert(direct.steps@ =~= first.steps@ + seq![conversion]);
        law_execution_goes_on_from_success(
            first.steps@,
            seq![conversion],
            state,
            moved,
            replies,
        );
    } else {
        let left = direct.steps@;
        let dropped = first.steps@.last();
        assert(first.steps@.len() == left.len() + 1);
        law_steps_that_succeed_are_balanced(first.steps@, state, replies);
        lemma_balanced_start(0, left, dropped);
        assert(first.steps@ =~= left + seq![dropped]);
        law_execution_composes(left, seq![dropped], state, replies);
        let reached = steps_outcome(left, state, Seq::empty(), replies)->Ok_0;
        lemma_single_step(dropped, reached, replies);
        assert(step_outcome(dropped, reached, replies) == Ok::<Coord3D, HaltView>(moved));
        if cancelling_steps_undo(replies) && pipeline_outcome_xyz(second, between, replies) is Ok {
            assert(step_outcome(conversion, moved, replies)->Ok_0 == reached);
        }
    }
}

} // verus!
