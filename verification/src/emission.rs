//! What a coordinate operation compiles to.
use vstd::prelude::*;
use crate::crs::{CrsDef, Projection};
use crate::ellipsoid::Ellipsoid;
use crate::error::{ErrorView, GridErrorView};
use crate::operation::{
    CoordinateOperation, DatumGridShiftEntry, DatumToWgs84, GridHandle, GridId, GridKey,
    GridShiftDirection, OperationMethod, OperationStep, OperationStepDirection,
    SelectedOperationKind,
};
use crate::registry::{entry, Registry};
use crate::services::{refused, CompileHaltView, ServiceReplies, ServiceRequest};
use crate::step::Step;
use crate::text::decimal;

verus! {

/// The steps that a compilation adds, and what halts it, if anything does.
pub struct Emission {
    pub steps: Seq<Step>,
    pub halt: Option<CompileHaltView>,
}

/// A compilation that adds steps and gets through.
pub open spec fn emit(steps: Seq<Step>) -> Emission {
    Emission { steps, halt: None }
}

/// A compilation that halts at once.
pub open spec fn stop(halt: CompileHaltView) -> Emission {
    Emission { steps: Seq::empty(), halt: Some(halt) }
}

/// A compilation that fails at once.
pub open spec fn fail(error: ErrorView) -> Emission {
    stop(CompileHaltView::Failed(error))
}

/// A compilation that goes on unless something was refused.
pub open spec fn unless(refusal: Option<CompileHaltView>, next: Emission) -> Emission {
    match refusal {
        Some(halt) => stop(halt),
        None => next,
    }
}

/// One compilation after another; the second starts only if the first got
/// through.
pub open spec fn both(first: Emission, second: Emission) -> Emission {
    match first.halt {
        Some(_) => first,
        None => Emission { steps: first.steps + second.steps, halt: second.halt },
    }
}

/// A geocentric step between the conversions to and from geocentric
/// coordinates. Where height is preserved, a passthrough stands around them.
pub open spec fn sandwich(
    source: Ellipsoid,
    target: Ellipsoid,
    preserve_height: bool,
    step: Step,
) -> Seq<Step> {
    let framed = seq![
        Step::GeodeticToGeocentric { ellipsoid: source },
        step,
        Step::GeocentricToGeodetic { ellipsoid: target },
    ];
    if preserve_height {
        seq![Step::PushHeight] + framed + seq![Step::PopHeight]
    } else {
        framed
    }
}

/// What became of one grid of a list.
pub enum GridLoad {
    Loaded,
    LeftOut,
    Halted(CompileHaltView),
}

/// What became of one grid of a list: an optional one that is not found or
/// cannot be had is left out.
pub open spec fn grid_load(grid: GridKey, optional: bool, replies: ServiceReplies) -> GridLoad {
    match refused(replies, ServiceRequest::LoadGrid { grid }) {
        None => GridLoad::Loaded,
        Some(CompileHaltView::Failed(ErrorView::Grid(GridErrorView::Unavailable(_))))
            if optional => GridLoad::LeftOut,
        Some(CompileHaltView::Failed(ErrorView::Grid(GridErrorView::NotFound(_)))) if optional =>
        GridLoad::LeftOut,
        Some(halt) => GridLoad::Halted(halt),
    }
}

/// What a list of grids comes to.
pub struct GridScan {
    /// The grids that were loaded, in order.
    pub handles: Seq<GridHandle>,
    /// Whether coordinates that no grid covers are left unshifted.
    pub allow_null: bool,
    /// Whether a grid that may not be left out was met.
    pub required_seen: bool,
    /// What halted the loading, if anything did.
    pub halt: Option<CompileHaltView>,
}

/// Goes through a list of grids, up to its first null entry.
pub open spec fn grid_scan(entries: Seq<DatumGridShiftEntry>, replies: ServiceReplies) -> GridScan
    decreases entries.len(),
{
    if entries.len() == 0 {
        GridScan { handles: Seq::empty(), allow_null: false, required_seen: false, halt: None }
    } else {
        match entries[0] {
            DatumGridShiftEntry::Null => GridScan {
                handles: Seq::empty(),
                allow_null: true,
                required_seen: false,
                halt: None,
            },
            DatumGridShiftEntry::Grid { definition, optional } => {
                let rest = grid_scan(entries.drop_first(), replies);
                match grid_load(definition.key, optional, replies) {
                    GridLoad::Loaded => GridScan {
                        handles: seq![GridHandle { key: definition.key }] + rest.handles,
                        required_seen: !optional || rest.required_seen,
                        ..rest
                    },
                    GridLoad::LeftOut => GridScan {
                        required_seen: !optional || rest.required_seen,
                        ..rest
                    },
                    GridLoad::Halted(halt) => GridScan {
                        handles: Seq::empty(),
                        allow_null: false,
                        required_seen: !optional,
                        halt: Some(halt),
                    },
                }
            },
        }
    }
}

/// What a list of grids compiles to: one step, if a grid was loaded or the list
/// has a null entry.
pub open spec fn grid_list_emission(
    entries: Seq<DatumGridShiftEntry>,
    direction: GridShiftDirection,
    replies: ServiceReplies,
) -> Emission {
    let scan = grid_scan(entries, replies);
    match scan.halt {
        Some(halt) => stop(halt),
        None => if scan.handles.len() == 0 && !scan.allow_null {
            fail(
                ErrorView::Grid(
                    GridErrorView::Unavailable(
                        if scan.required_seen {
                            "no required datum grid could be loaded"@
                        } else {
                            "no optional datum grid could be loaded"@
                        },
                    ),
                ),
            )
        } else {
            emit(
                seq![
                    Step::GridShiftList {
                        handles: scan.handles,
                        allow_null: scan.allow_null,
                        direction,
                    },
                ],
            )
        },
    }
}

/// What the way from a datum to WGS 84 compiles to.
pub open spec fn to_wgs84_emission(
    transform: DatumToWgs84,
    source: Ellipsoid,
    preserve_height: bool,
    replies: ServiceReplies,
) -> Emission {
    match transform {
        DatumToWgs84::Identity => emit(Seq::empty()),
        DatumToWgs84::Helmert(params) => unless(
            refused(replies, ServiceRequest::ValidateHelmert { params }),
            emit(
                sandwich(
                    source,
                    Ellipsoid::wgs84_spec(),
                    preserve_height,
                    Step::Helmert { params, inverse: false },
                ),
            ),
        ),
        DatumToWgs84::GridShift(grids) => grid_list_emission(
            grids.entries@,
            GridShiftDirection::Forward,
            replies,
        ),
        DatumToWgs84::Unknown => fail(
            ErrorView::OperationSelection("datum has no known path to WGS84"@),
        ),
    }
}

/// What the way from WGS 84 to a datum compiles to.
pub open spec fn from_wgs84_emission(
    transform: DatumToWgs84,
    target: Ellipsoid,
    preserve_height: bool,
    replies: ServiceReplies,
) -> Emission {
    match transform {
        DatumToWgs84::Identity => emit(Seq::empty()),
        DatumToWgs84::Helmert(params) => unless(
            refused(replies, ServiceRequest::ValidateHelmert { params }),
            emit(
                sandwich(
                    Ellipsoid::wgs84_spec(),
                    target,
                    preserve_height,
                    Step::Helmert { params, inverse: true },
                ),
            ),
        ),
        DatumToWgs84::GridShift(grids) => grid_list_emission(
            grids.entries@,
            GridShiftDirection::Reverse,
            replies,
        ),
        DatumToWgs84::Unknown => fail(
            ErrorView::OperationSelection("datum has no known path from WGS84"@),
        ),
    }
}

/// The systems between which an operation works in a direction: those that it
/// names itself, swapped in reverse, or else the requested ones as they are.
pub open spec fn geographic_pair(
    operation: CoordinateOperation,
    direction: OperationStepDirection,
    requested_pair: Option<(CrsDef, CrsDef)>,
    registry: Registry,
) -> Result<(CrsDef, CrsDef), ErrorView> {
    if operation.source_crs_epsg is Some && operation.target_crs_epsg is Some {
        let (source_code, target_code) = match direction {
            OperationStepDirection::Forward => (
                operation.source_crs_epsg->0,
                operation.target_crs_epsg->0,
            ),
            OperationStepDirection::Reverse => (
                operation.target_crs_epsg->0,
                operation.source_crs_epsg->0,
            ),
        };
        match (entry(registry.crs(), source_code), entry(registry.crs(), target_code)) {
            (Some(source), Some(target)) => Ok((source, target)),
            _ => Err(ErrorView::UnknownCrs("unknown EPSG code in operation "@ + operation.name@)),
        }
    } else {
        match requested_pair {
            Some(pair) => Ok(pair),
            None => Err(
                ErrorView::OperationSelection(
                    "operation "@ + operation.name@ + " is missing source/target CRS metadata"@,
                ),
            ),
        }
    }
}

/// The direction of a grid that an operation applies in a direction.
pub open spec fn grid_direction(
    grid: GridShiftDirection,
    direction: OperationStepDirection,
) -> GridShiftDirection {
    match direction {
        OperationStepDirection::Forward => grid,
        OperationStepDirection::Reverse => grid.opposite(),
    }
}

/// What a grid operation compiles to.
pub open spec fn grid_shift_emission(
    grid_id: GridId,
    direction: GridShiftDirection,
    registry: Registry,
    replies: ServiceReplies,
) -> Emission {
    match entry(registry.grids(), grid_id.0) {
        None => fail(
            ErrorView::Grid(GridErrorView::NotFound("grid id "@ + decimal(grid_id.0 as nat))),
        ),
        Some(grid) => if grid.format is Unsupported {
            fail(ErrorView::Grid(GridErrorView::UnsupportedFormat(grid.name@)))
        } else {
            unless(
                refused(replies, ServiceRequest::LoadGrid { grid: grid.key }),
                emit(seq![Step::GridShift { handle: GridHandle { key: grid.key }, direction }]),
            )
        },
    }
}

/// The steps of a concatenated operation in the order of a direction: in
/// reverse, from the last to the first, each the other way round.
pub open spec fn directed_steps(
    steps: Seq<OperationStep>,
    direction: OperationStepDirection,
) -> Seq<OperationStep> {
    match direction {
        OperationStepDirection::Forward => steps,
        OperationStepDirection::Reverse => Seq::new(
            steps.len(),
            |i: int|
                OperationStep {
                    operation_id: steps[steps.len() - 1 - i].operation_id,
                    direction: steps[steps.len() - 1 - i].direction.opposite(),
                },
        ),
    }
}

/// What an operation compiles to in a direction. Concatenated operations are
/// expanded `levels` deep. Within [`all_levels`] every operation of a registry is
/// expanded in full: [`crate::laws::expansion`] shows that nothing is cut off.
pub open spec fn operation_emission(
    operation: CoordinateOperation,
    direction: OperationStepDirection,
    requested_pair: Option<(CrsDef, CrsDef)>,
    registry: Registry,
    replies: ServiceReplies,
    levels: nat,
) -> Emission
    decreases levels, 0nat,
{
    let preserve_height = operation.domain is Geographic2D;
    let inverse = direction is Reverse;
    match geographic_pair(operation, direction, requested_pair, registry) {
        Err(error) => fail(error),
        Ok((source, target)) => {
            let source_ellipsoid = source.datum_spec().ellipsoid;
            let target_ellipsoid = target.datum_spec().ellipsoid;
            match operation.method {
                OperationMethod::Identity => emit(Seq::empty()),
                OperationMethod::Helmert { params } => unless(
                    refused(replies, ServiceRequest::ValidateHelmert { params }),
                    emit(
                        sandwich(
                            source_ellipsoid,
                            target_ellipsoid,
                            preserve_height,
                            Step::Helmert { params, inverse },
                        ),
                    ),
                ),
                OperationMethod::GeocentricAffine { params } => unless(
                    refused(replies, ServiceRequest::ValidateAffine { params }),
                    emit(
                        sandwich(
                            source_ellipsoid,
                            target_ellipsoid,
                            preserve_height,
                            Step::GeocentricAffine { params, inverse },
                        ),
                    ),
                ),
                OperationMethod::DatumShift { source_to_wgs84, target_to_wgs84 } => {
                    let (first, second) = if inverse {
                        (target_to_wgs84, source_to_wgs84)
                    } else {
                        (source_to_wgs84, target_to_wgs84)
                    };
                    both(
                        to_wgs84_emission(first, source_ellipsoid, preserve_height, replies),
                        from_wgs84_emission(second, target_ellipsoid, preserve_height, replies),
                    )
                },
                OperationMethod::GridShift { grid_id, direction: grid } => grid_shift_emission(
                    grid_id,
                    grid_direction(grid, direction),
                    registry,
                    replies,
                ),
                OperationMethod::Concatenated { steps } => if levels == 0 {
                    emit(Seq::empty())
                } else {
                    steps_emission(
                        directed_steps(steps@, direction),
                        registry,
                        replies,
                        (levels - 1) as nat,
                    )
                },
                OperationMethod::Projection { .. } | OperationMethod::AxisUnitNormalize => fail(
                    ErrorView::UnsupportedProjection(
                        "direct projection operations are not emitted by the embedded selector"@,
                    ),
                ),
            }
        },
    }
}

/// What one step of a concatenated operation compiles to.
pub open spec fn step_emission(
    step: OperationStep,
    registry: Registry,
    replies: ServiceReplies,
    levels: nat,
) -> Emission
    decreases levels, 1nat,
{
    match entry(registry.operations(), step.operation_id.0) {
        None => fail(
            ErrorView::UnknownOperation(
                "unknown operation id "@ + decimal(step.operation_id.0 as nat),
            ),
        ),
        Some(child) => operation_emission(child, step.direction, None, registry, replies, levels),
    }
}

/// What the steps of a concatenated operation compile to, one after another.
pub open spec fn steps_emission(
    steps: Seq<OperationStep>,
    registry: Registry,
    replies: ServiceReplies,
    levels: nat,
) -> Emission
    decreases levels, 2 + steps.len(),
{
    if steps.len() == 0 {
        emit(Seq::empty())
    } else {
        both(
            steps_emission(steps.drop_last(), registry, replies, levels),
            step_emission(steps.last(), registry, replies, levels),
        )
    }
}

/// The number of levels within which every operation expands, whether it is in
/// the registry or its steps are.
pub open spec fn all_levels(registry: Registry) -> nat {
    registry.operations().len() + 1
}

/// What a projection at an endpoint compiles to.
pub open spec fn projection_emission(
    projection: Projection,
    step: Step,
    replies: ServiceReplies,
) -> Emission {
    unless(refused(replies, ServiceRequest::MakeProjection { projection }), emit(seq![step]))
}

/// The way from the source system into geodetic radians.
pub open spec fn source_emission(source: CrsDef, replies: ServiceReplies) -> Emission {
    match source {
        CrsDef::Geographic(_) => emit(Seq::empty()),
        CrsDef::Projected(crs) => {
            let projection = Projection { method: crs.method, datum: crs.datum };
            projection_emission(projection, Step::ProjectionInverse { projection }, replies)
        },
        CrsDef::Geocentric(crs) => emit(
            seq![Step::GeocentricToGeodetic { ellipsoid: crs.datum.ellipsoid }],
        ),
    }
}

/// The way from geodetic radians into the target system.
pub open spec fn target_emission(target: CrsDef, replies: ServiceReplies) -> Emission {
    match target {
        CrsDef::Geographic(_) => emit(Seq::empty()),
        CrsDef::Projected(crs) => {
            let projection = Projection { method: crs.method, datum: crs.datum };
            projection_emission(projection, Step::ProjectionForward { projection }, replies)
        },
        CrsDef::Geocentric(crs) => emit(
            seq![Step::GeodeticToGeocentric { ellipsoid: crs.datum.ellipsoid }],
        ),
    }
}

/// What the selected operation compiles to between two systems.
pub open spec fn selected_emission(
    source: CrsDef,
    target: CrsDef,
    operation: SelectedOperationKind,
    direction: OperationStepDirection,
    registry: Registry,
    replies: ServiceReplies,
) -> Emission {
    match operation {
        SelectedOperationKind::Identity => emit(Seq::empty()),
        SelectedOperationKind::Registry(operation) => operation_emission(
            operation,
            direction,
            Some((source, target)),
            registry,
            replies,
            all_levels(registry),
        ),
        SelectedOperationKind::Custom(operation) => operation_emission(
            operation,
            direction,
            Some((source, target)),
            registry,
            replies,
            all_levels(registry),
        ),
    }
}

/// What a pipeline between two systems compiles to, before redundant framing is
/// dropped.
pub open spec fn pipeline_emission(
    source: CrsDef,
    target: CrsDef,
    operation: SelectedOperationKind,
    direction: OperationStepDirection,
    registry: Registry,
    replies: ServiceReplies,
) -> Emission {
    both(
        both(
            source_emission(source, replies),
            selected_emission(source, target, operation, direction, registry, replies),
        ),
        target_emission(target, replies),
    )
}

} // verus!
