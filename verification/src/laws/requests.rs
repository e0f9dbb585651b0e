//! A compilation asks for no more than its operation names.
use vstd::prelude::*;
use crate::crs::{CrsDef, Projection};
use crate::ellipsoid::Ellipsoid;
use crate::emission::{
    all_levels, both, directed_steps, from_wgs84_emission, geographic_pair, grid_scan,
    operation_emission, pipeline_emission, selected_emission, source_emission, step_emission,
    steps_emission, target_emission, to_wgs84_emission, Emission,
};
use crate::laws::stability::law_compilation_is_stable;
use crate::operation::{
    CoordinateOperation, DatumGridShiftEntry, DatumToWgs84, OperationMethod, OperationStep,
    OperationStepDirection, SelectedOperationKind,
};
use crate::registry::{entry, Registry};
use crate::services::{CompileHaltView, ServiceReplies, ServiceRequest};

verus! {

/// The requests for the grids of a list, up to its first null entry.
pub open spec fn grid_requests(entries: Seq<DatumGridShiftEntry>) -> Seq<ServiceRequest>
    decreases entries.len(),
{
    if entries.len() == 0 {
        Seq::empty()
    } else {
        match entries[0] {
            DatumGridShiftEntry::Null => Seq::empty(),
            DatumGridShiftEntry::Grid { definition, .. } => seq![
                ServiceRequest::LoadGrid { grid: definition.key },
            ] + grid_requests(entries.drop_first()),
        }
    }
}

/// The requests on the way between a datum and WGS 84.
pub open spec fn wgs84_requests(transform: DatumToWgs84) -> Seq<ServiceRequest> {
    match transform {
        DatumToWgs84::Identity | DatumToWgs84::Unknown => Seq::empty(),
        DatumToWgs84::Helmert(params) => seq![ServiceRequest::ValidateHelmert { params }],
        DatumToWgs84::GridShift(grids) => grid_requests(grids.entries@),
    }
}

/// The requests that an operation may make in a direction, its steps expanded
/// `levels` deep.
pub open spec fn operation_requests(
    operation: CoordinateOperation,
    direction: OperationStepDirection,
    registry: Registry,
    levels: nat,
) -> Seq<ServiceRequest>
    decreases levels, 0nat,
{
    match operation.method {
        OperationMethod::Helmert { params } => seq![ServiceRequest::ValidateHelmert { params }],
        OperationMethod::GeocentricAffine { params } => seq![
            ServiceRequest::ValidateAffine { params },
        ],
        OperationMethod::DatumShift { source_to_wgs84, target_to_wgs84 } => if direction is Reverse {
            wgs84_requests(target_to_wgs84) + wgs84_requests(source_to_wgs84)
        } else {
            wgs84_requests(source_to_wgs84) + wgs84_requests(target_to_wgs84)
        },
        OperationMethod::GridShift { grid_id, .. } => match entry(registry.grids(), grid_id.0) {
            Some(grid) => seq![ServiceRequest::LoadGrid { grid: grid.key }],
            None => Seq::empty(),
        },
        OperationMethod::Concatenated { steps } => if levels == 0 {
            Seq::empty()
        } else {
            steps_requests(directed_steps(steps@, direction), registry, (levels - 1) as nat)
        },
        _ => Seq::empty(),
    }
}

/// The requests that the steps of a concatenated operation may make.
pub open spec fn steps_requests(
    steps: Seq<OperationStep>,
    registry: Registry,
    levels: nat,
) -> Seq<ServiceRequest>
    decreases levels, 1 + steps.len(),
{
    if steps.len() == 0 {
        Seq::empty()
    } else {
        steps_requests(steps.drop_last(), registry, levels) + match entry(
            registry.operations(),
            steps.last().operation_id.0,
        ) {
            Some(child) => operation_requests(child, steps.last().direction, registry, levels),
            None => Seq::empty(),
        }
    }
}

/// The requests that an endpoint may make.
pub open spec fn endpoint_requests(crs: CrsDef) -> Seq<ServiceRequest> {
    match crs {
        CrsDef::Projected(crs) => seq![
            ServiceRequest::MakeProjection {
                projection: Projection { method: crs.method, datum: crs.datum },
            },
        ],
        _ => Seq::empty(),
    }
}

/// The requests that compiling a pipeline may make.
pub open spec fn pipeline_requests(
    source: CrsDef,
    target: CrsDef,
    operation: SelectedOperationKind,
    direction: OperationStepDirection,
    registry: Registry,
) -> Seq<ServiceRequest> {
    endpoint_requests(source) + match operation {
        SelectedOperationKind::Identity => Seq::empty(),
        SelectedOperationKind::Registry(operation) => operation_requests(
            operation,
            direction,
            registry,
            all_levels(registry),
        ),
        SelectedOperationKind::Custom(operation) => operation_requests(
            operation,
            direction,
            registry,
            all_levels(registry),
        ),
    } + endpoint_requests(target)
}

/// Whether a compilation that waits for a reply waits for one of the requests.
spec fn asks_within(emission: Emission, requests: Seq<ServiceRequest>) -> bool {
    emission.halt matches Some(CompileHaltView::Pending(request)) ==> requests.contains(request)
}

proof fn lemma_contains_concat(
    first: Seq<ServiceRequest>,
    second: Seq<ServiceRequest>,
    request: ServiceRequest,
)
    requires
        first.contains(request) || second.contains(request),
    ensures
        (first + second).contains(request),
{
    if first.contains(request) {
        let i = choose|i: int| 0 <= i < first.len() && first[i] == request;
        assert((first + second)[i] == request);
    } else {
        let i = choose|i: int| 0 <= i < second.len() && second[i] == request;
        assert((first + second)[first.len() + i] == request);
    }
}

proof fn lemma_both_within(
    a: Emission,
    b: Emission,
    first: Seq<ServiceRequest>,
    second: Seq<ServiceRequest>,
)
    requires
        asks_within(a, first),
        asks_within(b, second),
    ensures
        asks_within(both(a, b), first + second),
{
    if let Some(CompileHaltView::Pending(request)) = both(a, b).halt {
        lemma_contains_concat(first, second, request);
    }
}

proof fn lemma_single_request(request: ServiceRequest)
    ensures
        seq![request].contains(request),
{
    assert(seq![request][0] == request);
}

proof fn lemma_grid_scan_within(entries: Seq<DatumGridShiftEntry>, replies: ServiceReplies)
    ensures
        grid_scan(entries, replies).halt matches Some(CompileHaltView::Pending(request))
            ==> grid_requests(entries).contains(request),
    decreases entries.len(),
{
    if entries.len() > 0 {
        lemma_grid_scan_within(entries.drop_first(), replies);
        if let DatumGridShiftEntry::Grid { definition, optional } = entries[0] {
            let first = ServiceRequest::LoadGrid { grid: definition.key };
            lemma_single_request(first);
            if let Some(CompileHaltView::Pending(request)) = grid_scan(entries, replies).halt {
                lemma_contains_concat(
                    seq![first],
                    grid_requests(entries.drop_first()),
                    request,
                );
            }
        }
    }
}

proof fn lemma_wgs84_within(
    transform: DatumToWgs84,
    ellipsoid: Ellipsoid,
    preserve_height: bool,
    replies: ServiceReplies,
)
    ensures
        asks_within(
            to_wgs84_emission(transform, ellipsoid, preserve_height, replies),
            wgs84_requests(transform),
        ),
        asks_within(
            from_wgs84_emission(transform, ellipsoid, preserve_height, replies),
            wgs84_requests(transform),
        ),
{
    match transform {
        DatumToWgs84::Helmert(params) => {
            lemma_single_request(ServiceRequest::ValidateHelmert { params });
        },
        DatumToWgs84::GridShift(grids) => {
            lemma_grid_scan_within(grids.entries@, replies);
        },
        _ => {},
    }
}

proof fn lemma_operation_within(
    operation: CoordinateOperation,
    direction: OperationStepDirection,
    pair: Option<(CrsDef, CrsDef)>,
    registry: Registry,
    replies: ServiceReplies,
    levels: nat,
)
    ensures
        asks_within(
            operation_emission(operation, direction, pair, registry, replies, levels),
            operation_requests(operation, direction, registry, levels),
        ),
    decreases levels, 0nat, 0nat,
{
    let preserve = operation.domain is Geographic2D;
    if let Ok((source, target)) = geographic_pair(operation, direction, pair, registry) {
        match operation.method {
            OperationMethod::Helmert { params } => {
                lemma_single_request(ServiceRequest::ValidateHelmert { params });
            },
            OperationMethod::GeocentricAffine { params } => {
                lemma_single_request(ServiceRequest::ValidateAffine { params });
            },
            OperationMethod::DatumShift { source_to_wgs84, target_to_wgs84 } => {
                let (first, second) = if direction is Reverse {
                    (target_to_wgs84, source_to_wgs84)
                } else {
                    (source_to_wgs84, target_to_wgs84)
                };
                let s = source.datum_spec().ellipsoid;
                let t = target.datum_spec().ellipsoid;
                lemma_wgs84_within(first, s, preserve, replies);
                lemma_wgs84_within(second, t, preserve, replies);
                lemma_both_within(
                    to_wgs84_emission(first, s, preserve, replies),
                    from_wgs84_emission(second, t, preserve, replies),
                    wgs84_requests(first),
                    wgs84_requests(second),
                );
            },
            OperationMethod::GridShift { grid_id, .. } => {
                if let Some(grid) = entry(registry.grids(), grid_id.0) {
                    lemma_single_request(ServiceRequest::LoadGrid { grid: grid.key });
                }
            },
            OperationMethod::Concatenated { steps } => {
                if levels > 0 {
                    lemma_steps_within(
                        directed_steps(steps@, direction),
                        registry,
                        replies,
                        (levels - 1) as nat,
                    );
                }
            },
            _ => {},
        }
    }
}

proof fn lemma_steps_within(
    steps: Seq<OperationStep>,
    registry: Registry,
    replies: ServiceReplies,
    levels: nat,
)
    ensures
        asks_within(
            steps_emission(steps, registry, replies, levels),
            steps_requests(steps, registry, levels),
        ),
    decreases levels, 1nat, steps.len(),
{
    if steps.len() > 0 {
        let last = steps.last();
        lemma_steps_within(steps.drop_last(), registry, replies, levels);
        let named = match entry(registry.operations(), last.operation_id.0) {
            Some(child) => operation_requests(child, last.direction, registry, levels),
            None => Seq::empty(),
        };
        if let Some(child) = entry(registry.operations(), last.operation_id.0) {
            lemma_operation_within(child, last.direction, None, registry, replies, levels);
        }
        lemma_both_within(
            steps_emission(steps.drop_last(), registry, replies, levels),
            step_emission(last, registry, replies, levels),
            steps_requests(steps.drop_last(), registry, levels),
            named,
        );
    }
}

/// A compilation waits only for requests out of a fixed list, and for each of
/// them at most once: recording one reply after another brings it to an end at
/// the latest when the list is used up.
pub proof fn law_compilation_asks_for_what_is_named(
    source: CrsDef,
    target: CrsDef,
    operation: SelectedOperationKind,
    direction: OperationStepDirection,
    registry: Registry,
    replies: ServiceReplies,
)
    ensures
        pipeline_emission(
            source,
            target,
            operation,
            direction,
            registry,
            replies,
        ).halt matches Some(CompileHaltView::Pending(request)) ==> pipeline_requests(
            source,
            target,
            operation,
            direction,
            registry,
        ).contains(request) && !replies.contains_key(request),
{
    law_compilation_is_stable(source, target, operation, direction, registry, replies, replies);
    let pair = Some((source, target));
    let levels = all_levels(registry);
    let named = match operation {
        SelectedOperationKind::Identity => Seq::empty(),
        SelectedOperationKind::Registry(operation) => {
            lemma_operation_within(operation, direction, pair, registry, replies, levels);
            operation_requests(operation, direction, registry, levels)
        },
        SelectedOperationKind::Custom(operation) => {
            lemma_operation_within(operation, direction, pair, registry, replies, levels);
            operation_requests(operation, direction, registry, levels)
        },
    };
    if let CrsDef::Projected(crs) = source {
        lemma_single_request(endpoint_requests(source)[0]);
    }
    if let CrsDef::Projected(crs) = target {
        lemma_single_request(endpoint_requests(target)[0]);
    }
    let enter = source_emission(source, replies);
    let middle = selected_emission(source, target, operation, direction, registry, replies);
    let leave = target_emission(target, replies);
    lemma_both_within(enter, middle, endpoint_requests(source), named);
    lemma_both_within(
        both(enter, middle),
        leave,
        endpoint_requests(source) + named,
        endpoint_requests(target),
    );
}

} // verus!
