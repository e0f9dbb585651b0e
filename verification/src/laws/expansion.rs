//! Concatenated operations are expanded all the way down.
use vstd::prelude::*;
use crate::crs::CrsDef;
use crate::emission::{
    all_levels, both, directed_steps, emit, fail, geographic_pair, operation_emission,
    step_emission, steps_emission, Emission,
};
use crate::error::ErrorView;
use crate::laws::mirror::lemma_both_associates;
use crate::operation::{
    CoordinateOperation, OperationMethod, OperationStep, OperationStepDirection,
};
use crate::registry::{acyclic, entry, expands_within, lemma_acyclic_expands, Registry};
use crate::services::{CompileHaltView, ServiceReplies};
use crate::step::Step;
use crate::text::decimal;

verus! {

/// Compilations one after another; each starts only if those before it got
/// through.
pub open spec fn joined(emissions: Seq<Emission>) -> Emission
    decreases emissions.len(),
{
    if emissions.len() == 0 {
        emit(Seq::empty())
    } else {
        both(joined(emissions.drop_last()), emissions.last())
    }
}

/// Whether every step is missing from the registry or can be expanded within
/// `levels` levels.
pub open spec fn steps_expand_within(
    steps: Seq<OperationStep>,
    registry: Registry,
    levels: nat,
) -> bool {
    forall|i: int|
        0 <= i < steps.len() ==> match entry(
            registry.operations(),
            (#[trigger] steps[i]).operation_id.0,
        ) {
            Some(child) => expands_within(registry.operations(), child, levels),
            None => true,
        }
}

proof fn lemma_directed_steps_expand(
    steps: Seq<OperationStep>,
    direction: OperationStepDirection,
    registry: Registry,
    levels: nat,
)
    requires
        steps_expand_within(steps, registry, levels),
    ensures
        steps_expand_within(directed_steps(steps, direction), registry, levels),
{
    let directed = directed_steps(steps, direction);
    assert forall|i: int| 0 <= i < directed.len() implies match entry(
        registry.operations(),
        (#[trigger] directed[i]).operation_id.0,
    ) {
        Some(child) => expands_within(registry.operations(), child, levels),
        None => true,
    } by {
        let j = if direction is Reverse {
            steps.len() - 1 - i
        } else {
            i
        };
        assert(directed[i].operation_id == steps[j].operation_id);
    }
}

proof fn lemma_steps_need_no_more_levels(
    steps: Seq<OperationStep>,
    registry: Registry,
    replies: ServiceReplies,
    levels: nat,
    more: nat,
)
    requires
        steps_expand_within(steps, registry, levels),
        levels <= more,
    ensures
        steps_emission(steps, registry, replies, more) == steps_emission(
            steps,
            registry,
            replies,
            levels,
        ),
    decreases levels, 1nat, steps.len(),
{
    if steps.len() > 0 {
        let rest = steps.drop_last();
        let last = steps.last();
        assert(last == steps[steps.len() - 1]);
        assert forall|i: int| 0 <= i < rest.len() implies match entry(
            registry.operations(),
            (#[trigger] rest[i]).operation_id.0,
        ) {
            Some(child) => expands_within(registry.operations(), child, levels),
            None => true,
        } by {
            assert(rest[i] == steps[i]);
        }
        lemma_steps_need_no_more_levels(rest, registry, replies, levels, more);
        if let Some(child) = entry(registry.operations(), last.operation_id.0) {
            law_enough_levels_are_enough(
                child,
                last.direction,
                None,
                registry,
                replies,
                levels,
                more,
            );
        }
        assert(step_emission(last, registry, replies, more) == step_emission(
            last,
            registry,
            replies,
            levels,
        ));
    }
}

/// An operation that can be expanded within some levels compiles to the same
/// with any more of them: nothing is cut off.
pub proof fn law_enough_levels_are_enough(
    operation: CoordinateOperation,
    direction: OperationStepDirection,
    pair: Option<(CrsDef, CrsDef)>,
    registry: Registry,
    replies: ServiceReplies,
    levels: nat,
    more: nat,
)
    requires
        expands_within(registry.operations(), operation, levels),
        levels <= more,
    ensures
        operation_emission(operation, direction, pair, registry, replies, more)
            == operation_emission(operation, direction, pair, registry, replies, levels),
    decreases levels, 0nat, 0nat,
{
    if let OperationMethod::Concatenated { steps } = operation.method {
        let fewer = (levels - 1) as nat;
        assert(steps_expand_within(steps@, registry, fewer));
        lemma_directed_steps_expand(steps@, direction, registry, fewer);
        lemma_steps_need_no_more_levels(
            directed_steps(steps@, direction),
            registry,
            replies,
            fewer,
            (more - 1) as nat,
        );
    }
}

/// What every step of a concatenated operation compiles to, in order.
pub open spec fn step_emissions(
    steps: Seq<OperationStep>,
    registry: Registry,
    replies: ServiceReplies,
) -> Seq<Emission> {
    Seq::new(
        steps.len(),
        |i: int| step_emission(steps[i], registry, replies, all_levels(registry)),
    )
}

proof fn lemma_steps_joined(
    steps: Seq<OperationStep>,
    registry: Registry,
    replies: ServiceReplies,
)
    ensures
        steps_emission(steps, registry, replies, all_levels(registry)) == joined(
            step_emissions(steps, registry, replies),
        ),
    decreases steps.len(),
{
    if steps.len() > 0 {
        let all = step_emissions(steps, registry, replies);
        assert(all.drop_last() =~= step_emissions(steps.drop_last(), registry, replies));
        assert(all.last() == step_emission(
            steps.last(),
            registry,
            replies,
            all_levels(registry),
        ));
        lemma_steps_joined(steps.drop_last(), registry, replies);
    }
}

/// A concatenated operation whose systems are known compiles to what its steps
/// compile to, each in full, joined in order. No step is cut off, however deep
/// concatenated operations are nested in each other.
pub proof fn law_concatenated_operation_joins_its_steps(
    operation: CoordinateOperation,
    direction: OperationStepDirection,
    pair: Option<(CrsDef, CrsDef)>,
    registry: Registry,
    replies: ServiceReplies,
)
    requires
        acyclic(registry.operations()),
        operation.method is Concatenated,
    ensures
        operation_emission(
            operation,
            direction,
            pair,
            registry,
            replies,
            all_levels(registry),
        ) == (match geographic_pair(operation, direction, pair, registry) {
            Ok(_) => joined(
                step_emissions(
                    directed_steps(operation.method->Concatenated_steps@, direction),
                    registry,
                    replies,
                ),
            ),
            Err(error) => fail(error),
        }),
{
    let levels = all_levels(registry);
    let fewer = (levels - 1) as nat;
    let steps = operation.method->Concatenated_steps@;
    let directed = directed_steps(steps, direction);
    lemma_acyclic_expands(registry.operations(), operation);
    assert(steps_expand_within(steps, registry, fewer));
    lemma_directed_steps_expand(steps, direction, registry, fewer);
    lemma_steps_need_no_more_levels(directed, registry, replies, fewer, levels);
    lemma_steps_joined(directed, registry, replies);
}

/// What the step that comes `i`-th in a direction compiles to: forward the `i`-th
/// step in its own direction, in reverse the `i`-th from the end in the opposite one,
/// each between the systems that its operation names.
pub open spec fn turn(
    steps: Seq<OperationStep>,
    direction: OperationStepDirection,
    i: int,
    registry: Registry,
    replies: ServiceReplies,
) -> Emission {
    let forward = direction == OperationStepDirection::Forward;
    let step = if forward {
        steps[i]
    } else {
        steps[steps.len() - 1 - i]
    };
    let applied = if forward {
        step.direction
    } else if step.direction == OperationStepDirection::Forward {
        OperationStepDirection::Reverse
    } else {
        OperationStepDirection::Forward
    };
    match entry(registry.operations(), step.operation_id.0) {
        Some(child) => operation_emission(
            child,
            applied,
            None,
            registry,
            replies,
            registry.operations().len() + 1,
        ),
        None => Emission {
            steps: Seq::empty(),
            halt: Some(
                CompileHaltView::Failed(
                    ErrorView::UnknownOperation(
                        "unknown operation id "@ + decimal(step.operation_id.0 as nat),
                    ),
                ),
            ),
        },
    }
}

/// The steps of the first `k` turns, one after another.
pub open spec fn steps_of_turns(
    steps: Seq<OperationStep>,
    direction: OperationStepDirection,
    k: nat,
    registry: Registry,
    replies: ServiceReplies,
) -> Seq<Step>
    decreases k,
{
    if k == 0 {
        Seq::empty()
    } else {
        steps_of_turns(steps, direction, (k - 1) as nat, registry, replies) + turn(
            steps,
            direction,
            k - 1,
            registry,
            replies,
        ).steps
    }
}

proof fn lemma_joined_turns(
    steps: Seq<OperationStep>,
    direction: OperationStepDirection,
    k: nat,
    registry: Registry,
    replies: ServiceReplies,
)
    requires
        k <= steps.len(),
        forall|i: int|
            0 <= i < k ==> (#[trigger] turn(steps, direction, i, registry, replies)).halt is None,
    ensures
        ({
            let all = step_emissions(directed_steps(steps, direction), registry, replies);
            let done = joined(all.take(k as int));
            &&& done.halt is None
            &&& done.steps == steps_of_turns(steps, direction, k, registry, replies)
        }),
    decreases k,
{
    let all = step_emissions(directed_steps(steps, direction), registry, replies);
    if k > 0 {
        lemma_joined_turns(steps, direction, (k - 1) as nat, registry, replies);
        assert(all.take(k as int).drop_last() =~= all.take(k - 1));
        lemma_turn(steps, direction, k - 1, registry, replies);
        assert(turn(steps, direction, k - 1, registry, replies).halt is None);
    } else {
        assert(all.take(0) =~= Seq::<Emission>::empty());
    }
}

proof fn lemma_turn(
    steps: Seq<OperationStep>,
    direction: OperationStepDirection,
    i: int,
    registry: Registry,
    replies: ServiceReplies,
)
    requires
        0 <= i < steps.len(),
    ensures
        step_emissions(directed_steps(steps, direction), registry, replies)[i] == turn(
            steps,
            direction,
            i,
            registry,
            replies,
        ),
{
}

proof fn lemma_joined_stops(emissions: Seq<Emission>, k: int)
    requires
        0 <= k <= emissions.len(),
        joined(emissions.take(k)).halt is Some,
    ensures
        joined(emissions) == joined(emissions.take(k)),
    decreases emissions.len() - k,
{
    if k == emissions.len() {
        assert(emissions.take(k) =~= emissions);
    } else {
        assert(emissions.take(k + 1).drop_last() =~= emissions.take(k));
        lemma_joined_stops(emissions, k + 1);
    }
}

/// A concatenated operation takes the turns of its steps one after another: forward
/// from the first to the last, in reverse from the last to the first and each the
/// other way. If all get through, it comes to all their steps; the first that halts,
/// halts it, with what was added until then.
pub proof fn law_concatenated_operation_takes_turns(
    operation: CoordinateOperation,
    direction: OperationStepDirection,
    pair: Option<(CrsDef, CrsDef)>,
    registry: Registry,
    replies: ServiceReplies,
    k: nat,
)
    requires
        acyclic(registry.operations()),
        operation.method is Concatenated,
        geographic_pair(operation, direction, pair, registry) is Ok,
        k <= operation.method->Concatenated_steps@.len(),
        forall|i: int|
            0 <= i < k ==> (#[trigger] turn(
                operation.method->Concatenated_steps@,
                direction,
                i,
                registry,
                replies,
            )).halt is None,
        k < operation.method->Concatenated_steps@.len() ==> turn(
            operation.method->Concatenated_steps@,
            direction,
            k as int,
            registry,
            replies,
        ).halt is Some,
    ensures
        ({
            let steps = operation.method->Concatenated_steps@;
            let result = operation_emission(
                operation,
                direction,
                pair,
                registry,
                replies,
                registry.operations().len() + 1,
            );
            if k == steps.len() {
                &&& result.halt is None
                &&& result.steps == steps_of_turns(steps, direction, k, registry, replies)
            } else {
                &&& result.halt == turn(steps, direction, k as int, registry, replies).halt
                &&& result.steps == steps_of_turns(steps, direction, k + 1, registry, replies)
            }
        }),
{
    let steps = operation.method->Concatenated_steps@;
    let all = step_emissions(directed_steps(steps, direction), registry, replies);
    law_concatenated_operation_joins_its_steps(operation, direction, pair, registry, replies);
    lemma_joined_turns(steps, direction, k, registry, replies);
    if k == steps.len() {
        assert(all.take(k as int) =~= all);
    } else {
        assert(all.take(k as int + 1).drop_last() =~= all.take(k as int));
        lemma_turn(steps, direction, k as int, registry, replies);
        lemma_joined_stops(all, k as int + 1);
    }
}

proof fn lemma_steps_split(
    first: Seq<OperationStep>,
    second: Seq<OperationStep>,
    registry: Registry,
    replies: ServiceReplies,
    levels: nat,
)
    ensures
        steps_emission(first + second, registry, replies, levels) == both(
            steps_emission(first, registry, replies, levels),
            steps_emission(second, registry, replies, levels),
        ),
    decreases second.len(),
{
    let start = steps_emission(first, registry, replies, levels);
    if second.len() == 0 {
        assert(first + second =~= first);
        assert(start.steps + Seq::<Step>::empty() =~= start.steps);
    } else {
        assert((first + second).drop_last() =~= first + second.drop_last());
        assert((first + second).last() == second.last());
        lemma_steps_split(first, second.drop_last(), registry, replies, levels);
        lemma_both_associates(
            start,
            steps_emission(second.drop_last(), registry, replies, levels),
            step_emission(second.last(), registry, replies, levels),
        );
    }
}

/// A concatenated operation whose steps are those of two others, one after the other,
/// compiles forward to what the first compiles to and then the second, and in reverse
/// to the second and then the first. A halt of the one that comes first keeps the other
/// from starting.
pub proof fn law_concatenation_splits(
    whole: CoordinateOperation,
    first: CoordinateOperation,
    second: CoordinateOperation,
    pair: Option<(CrsDef, CrsDef)>,
    registry: Registry,
    replies: ServiceReplies,
    levels: nat,
)
    requires
        whole.method is Concatenated,
        first.method is Concatenated,
        second.method is Concatenated,
        whole.method->Concatenated_steps@ == first.method->Concatenated_steps@
            + second.method->Concatenated_steps@,
        levels > 0,
        forall|direction: OperationStepDirection| #[trigger]
            geographic_pair(whole, direction, pair, registry) is Ok,
        forall|direction: OperationStepDirection| #[trigger]
            geographic_pair(first, direction, pair, registry) is Ok,
        forall|direction: OperationStepDirection| #[trigger]
            geographic_pair(second, direction, pair, registry) is Ok,
    ensures
        ({
            let way = OperationStepDirection::Forward;
            let all = operation_emission(whole, way, pair, registry, replies, levels);
            let a = operation_emission(first, way, pair, registry, replies, levels);
            let b = operation_emission(second, way, pair, registry, replies, levels);
            if a.halt is Some {
                all.halt == a.halt && all.steps == a.steps
            } else {
                all.halt == b.halt && all.steps == a.steps + b.steps
            }
        }),
        ({
            let way = OperationStepDirection::Reverse;
            let all = operation_emission(whole, way, pair, registry, replies, levels);
            let a = operation_emission(first, way, pair, registry, replies, levels);
            let b = operation_emission(second, way, pair, registry, replies, levels);
            if b.halt is Some {
                all.halt == b.halt && all.steps == b.steps
            } else {
                all.halt == a.halt && all.steps == b.steps + a.steps
            }
        }),
{
    let fewer = (levels - 1) as nat;
    let s = first.method->Concatenated_steps@;
    let t = second.method->Concatenated_steps@;
    let reverse = OperationStepDirection::Reverse;
    let forward = OperationStepDirection::Forward;
    assert(geographic_pair(whole, forward, pair, registry) is Ok);
    assert(geographic_pair(first, forward, pair, registry) is Ok);
    assert(geographic_pair(second, forward, pair, registry) is Ok);
    assert(geographic_pair(whole, reverse, pair, registry) is Ok);
    assert(geographic_pair(first, reverse, pair, registry) is Ok);
    assert(geographic_pair(second, reverse, pair, registry) is Ok);
    lemma_steps_split(s, t, registry, replies, fewer);
    assert(directed_steps(s + t, reverse) =~= directed_steps(t, reverse) + directed_steps(
        s,
        reverse,
    ));
    lemma_steps_split(
        directed_steps(t, reverse),
        directed_steps(s, reverse),
        registry,
        replies,
        fewer,
    );
}

/// A concatenated operation of one step compiles to what the operation of that step
/// compiles to between the systems that it names: forward in the direction of the step,
/// in reverse in the other one. One without steps compiles to nothing.
pub proof fn law_concatenation_of_one(
    operation: CoordinateOperation,
    step: OperationStep,
    child: CoordinateOperation,
    other: OperationStepDirection,
    pair: Option<(CrsDef, CrsDef)>,
    direction: OperationStepDirection,
    registry: Registry,
    replies: ServiceReplies,
    levels: nat,
)
    requires
        operation.method is Concatenated,
        levels > 0,
        geographic_pair(operation, direction, pair, registry) is Ok,
        entry(registry.operations(), step.operation_id.0) == Some(child),
        other != step.direction,
    ensures
        operation.method->Concatenated_steps@ == seq![step] ==> operation_emission(
            operation,
            direction,
            pair,
            registry,
            replies,
            levels,
        ) == operation_emission(
            child,
            if direction == OperationStepDirection::Forward {
                step.direction
            } else {
                other
            },
            None,
            registry,
            replies,
            (levels - 1) as nat,
        ),
        operation.method->Concatenated_steps@.len() == 0 ==> {
            let result = operation_emission(
                operation,
                direction,
                pair,
                registry,
                replies,
                levels,
            );
            result.halt is None && result.steps == Seq::<Step>::empty()
        },
{
    let fewer = (levels - 1) as nat;
    let steps = operation.method->Concatenated_steps@;
    let directed = directed_steps(steps, direction);
    reveal_with_fuel(steps_emission, 2);
    if steps == seq![step] {
        let turned = OperationStep {
            operation_id: step.operation_id,
            direction: if direction == OperationStepDirection::Forward {
                step.direction
            } else {
                other
            },
        };
        assert(directed =~= seq![turned]);
        assert(directed.drop_last() =~= Seq::<OperationStep>::empty());
        let result = step_emission(turned, registry, replies, fewer);
        assert(Seq::<Step>::empty() + result.steps =~= result.steps);
        assert(steps_emission(directed, registry, replies, fewer) == result);
    } else if steps.len() == 0 {
        assert(directed =~= Seq::<OperationStep>::empty());
    }
}

} // verus!
