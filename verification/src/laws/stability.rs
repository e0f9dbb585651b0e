//! What a compilation came to stands, whatever replies are recorded later.
use vstd::prelude::*;
use crate::crs::CrsDef;
use crate::ellipsoid::Ellipsoid;
use crate::emission::{
    all_levels, both, directed_steps, from_wgs84_emission, geographic_pair, grid_scan,
    operation_emission, pipeline_emission, selected_emission, source_emission, step_emission,
    steps_emission, target_emission, to_wgs84_emission, Emission,
};
use crate::operation::{
    CoordinateOperation, DatumGridShiftEntry, DatumToWgs84, OperationMethod, OperationStep,
    OperationStepDirection, SelectedOperationKind,
};
use crate::registry::{entry, Registry};
use crate::services::{CompileHaltView, ServiceReplies};

verus! {

/// Whether a compilation waits for a reply.
pub open spec fn is_pending(halt: Option<CompileHaltView>) -> bool {
    halt matches Some(CompileHaltView::Pending(_))
}

/// Whether a compilation waits only for a request without a reply, and what it
/// came to otherwise is what it comes to with more replies.
spec fn stable(with_fewer: Emission, with_more: Emission, fewer: ServiceReplies) -> bool {
    &&& with_fewer.halt matches Some(CompileHaltView::Pending(request)) ==> !fewer.contains_key(
        request,
    )
    &&& !is_pending(with_fewer.halt) ==> with_more == with_fewer
}

proof fn lemma_grid_scan_stable(
    entries: Seq<DatumGridShiftEntry>,
    fewer: ServiceReplies,
    more: ServiceReplies,
)
    requires
        fewer.submap_of(more),
    ensures
        grid_scan(entries, fewer).halt matches Some(CompileHaltView::Pending(request))
            ==> !fewer.contains_key(request),
        !is_pending(grid_scan(entries, fewer).halt) ==> grid_scan(entries, more) == grid_scan(
            entries,
            fewer,
        ),
    decreases entries.len(),
{
    if entries.len() > 0 {
        lemma_grid_scan_stable(entries.drop_first(), fewer, more);
    }
}

proof fn lemma_wgs84_stable(
    transform: DatumToWgs84,
    ellipsoid: Ellipsoid,
    preserve_height: bool,
    fewer: ServiceReplies,
    more: ServiceReplies,
)
    requires
        fewer.submap_of(more),
    ensures
        stable(
            to_wgs84_emission(transform, ellipsoid, preserve_height, fewer),
            to_wgs84_emission(transform, ellipsoid, preserve_height, more),
            fewer,
        ),
        stable(
            from_wgs84_emission(transform, ellipsoid, preserve_height, fewer),
            from_wgs84_emission(transform, ellipsoid, preserve_height, more),
            fewer,
        ),
{
    if let DatumToWgs84::GridShift(grids) = transform {
        lemma_grid_scan_stable(grids.entries@, fewer, more);
    }
}

proof fn lemma_both_stable(
    a: Emission,
    b: Emission,
    a_more: Emission,
    b_more: Emission,
    fewer: ServiceReplies,
)
    requires
        stable(a, a_more, fewer),
        stable(b, b_more, fewer),
    ensures
        stable(both(a, b), both(a_more, b_more), fewer),
{
}

proof fn lemma_operation_stable(
    operation: CoordinateOperation,
    direction: OperationStepDirection,
    pair: Option<(CrsDef, CrsDef)>,
    registry: Registry,
    fewer: ServiceReplies,
    more: ServiceReplies,
    levels: nat,
)
    requires
        fewer.submap_of(more),
    ensures
        stable(
            operation_emission(operation, direction, pair, registry, fewer, levels),
            operation_emission(operation, direction, pair, registry, more, levels),
            fewer,
        ),
    decreases levels, 0nat, 0nat,
{
    let inverse = direction is Reverse;
    let preserve = operation.domain is Geographic2D;
    if let Ok((source, target)) = geographic_pair(operation, direction, pair, registry) {
        let s = source.datum_spec().ellipsoid;
        let t = target.datum_spec().ellipsoid;
        match operation.method {
            OperationMethod::DatumShift { source_to_wgs84, target_to_wgs84 } => {
                let (first, second) = if inverse {
                    (target_to_wgs84, source_to_wgs84)
                } else {
                    (source_to_wgs84, target_to_wgs84)
                };
                lemma_wgs84_stable(first, s, preserve, fewer, more);
                lemma_wgs84_stable(second, t, preserve, fewer, more);
                lemma_both_stable(
                    to_wgs84_emission(first, s, preserve, fewer),
                    from_wgs84_emission(second, t, preserve, fewer),
                    to_wgs84_emission(first, s, preserve, more),
                    from_wgs84_emission(second, t, preserve, more),
                    fewer,
                );
            },
            OperationMethod::Concatenated { steps } => {
                if levels > 0 {
                    lemma_steps_stable(
                        directed_steps(steps@, direction),
                        registry,
                        fewer,
                        more,
                        (levels - 1) as nat,
                    );
                }
            },
            _ => {},
        }
    }
}

proof fn lemma_steps_stable(
    steps: Seq<OperationStep>,
    registry: Registry,
    fewer: ServiceReplies,
    more: ServiceReplies,
    levels: nat,
)
    requires
        fewer.submap_of(more),
    ensures
        stable(
            steps_emission(steps, registry, fewer, levels),
            steps_emission(steps, registry, more, levels),
            fewer,
        ),
    decreases levels, 1nat, steps.len(),
{
    if steps.len() > 0 {
        let last = steps.last();
        lemma_steps_stable(steps.drop_last(), registry, fewer, more, levels);
        if let Some(child) = entry(registry.operations(), last.operation_id.0) {
            lemma_operation_stable(child, last.direction, None, registry, fewer, more, levels);
        }
        lemma_both_stable(
            steps_emission(steps.drop_last(), registry, fewer, levels),
            step_emission(last, registry, fewer, levels),
            steps_emission(steps.drop_last(), registry, more, levels),
            step_emission(last, registry, more, levels),
            fewer,
        );
    }
}

/// A compilation waits only for a request that has no reply; and what it came to
/// otherwise stands: replies to further requests do not change it.
pub proof fn law_compilation_is_stable(
    source: CrsDef,
    target: CrsDef,
    operation: SelectedOperationKind,
    direction: OperationStepDirection,
    registry: Registry,
    fewer: ServiceReplies,
    more: ServiceReplies,
)
    requires
        fewer.submap_of(more),
    ensures
        pipeline_emission(
            source,
            target,
            operation,
            direction,
            registry,
            fewer,
        ).halt matches Some(CompileHaltView::Pending(request)) ==> !fewer.contains_key(request),
        !is_pending(
            pipeline_emission(source, target, operation, direction, registry, fewer).halt,
        ) ==> pipeline_emission(source, target, operation, direction, registry, more)
            == pipeline_emission(source, target, operation, direction, registry, fewer),
{
    let pair = Some((source, target));
    let levels = all_levels(registry);
    match operation {
        SelectedOperationKind::Identity => {},
        SelectedOperationKind::Registry(operation) => {
            lemma_operation_stable(operation, direction, pair, registry, fewer, more, levels);
        },
        SelectedOperationKind::Custom(operation) => {
            lemma_operation_stable(operation, direction, pair, registry, fewer, more, levels);
        },
    }
    let enter = source_emission(source, fewer);
    let enter_more = source_emission(source, more);
    let middle = selected_emission(source, target, operation, direction, registry, fewer);
    let middle_more = selected_emission(source, target, operation, direction, registry, more);
    lemma_both_stable(enter, middle, enter_more, middle_more, fewer);
    lemma_both_stable(
        both(enter, middle),
        target_emission(target, fewer),
        both(enter_more, middle_more),
        target_emission(target, more),
        fewer,
    );
}

} // verus!
