//! Compiling a coordinate operation into a pipeline.
//!
//! A compilation runs as far as the recorded replies of the surroundings allow.
//! It comes to a pipeline or to an error, or it halts and names what is due
//! next; with the reply recorded, compiling again gets past that point.
use vstd::prelude::*;
use crate::crs::{CrsDef, Projection};
use crate::ellipsoid::Ellipsoid;
use crate::emission::{
    all_levels, directed_steps, from_wgs84_emission, geographic_pair, grid_direction,
    grid_list_emission, grid_scan, grid_shift_emission, operation_emission, pipeline_emission,
    sandwich, selected_emission, source_emission, step_emission, steps_emission, target_emission,
    to_wgs84_emission, GridScan,
};
use crate::error::{Error, GridError};
use crate::framing::{cancel_redundant_geocentric_framing, settled};
use crate::height::{steps_transform_ellipsoidal_height, transforms_height};
use crate::operation::{
    CoordinateOperation, DatumGridShift, DatumGridShiftEntry, DatumToWgs84, GridFormat, GridHandle,
    GridId, GridShiftDirection, OperationDomain, OperationMethod, OperationStep,
    OperationStepDirection, SelectedOperationKind,
};
use crate::pipeline::CompiledOperationPipeline;
use crate::registry::{entry, expands_within, lemma_acyclic_expands, Registry};
use crate::services::{halt_of, CompileHalt, ServiceReplies, ServiceRequest, Services};
use crate::step::{CompiledStep, Step, StepList};
use crate::text::append_decimal;
use crate::units::{source_units, target_units, PipelineSourceXyUnits, PipelineTargetXyUnits};

verus! {

/// The systems between which an operation works in a direction: those that it
/// names itself, swapped in reverse, or else the requested ones as they are.
pub fn resolve_operation_geographic_pair(
    operation: &CoordinateOperation,
    direction: OperationStepDirection,
    requested_pair: Option<(CrsDef, CrsDef)>,
    registry: &Registry,
) -> (result: Result<(CrsDef, CrsDef), Error>)
    ensures
        match (result, geographic_pair(*operation, direction, requested_pair, *registry)) {
            (Ok(pair), Ok(expected)) => pair == expected,
            (Err(error), Err(expected)) => error@ == expected,
            _ => false,
        },
{
    if let (Some(source_code), Some(target_code)) = (
        operation.source_crs_epsg,
        operation.target_crs_epsg,
    ) {
        let source = registry.lookup_epsg(
            match direction {
                OperationStepDirection::Forward => source_code,
                OperationStepDirection::Reverse => target_code,
            },
        );
        let target = registry.lookup_epsg(
            match direction {
                OperationStepDirection::Forward => target_code,
                OperationStepDirection::Reverse => source_code,
            },
        );
        return match (source, target) {
            (Some(source), Some(target)) => Ok((source, target)),
            _ => {
                let mut text = String::from_str("unknown EPSG code in operation ");
                text.append(operation.name.as_str());
                Err(Error::UnknownCrs(text))
            },
        };
    }
    if let Some(pair) = requested_pair {
        return Ok(pair);
    }
    let mut text = String::from_str("operation ");
    text.append(operation.name.as_str());
    text.append(" is missing source/target CRS metadata");
    Err(Error::OperationSelection(text))
}

/// Adds a geocentric step between the conversions to and from geocentric
/// coordinates, with a height passthrough around them where height is
/// preserved.
pub fn compile_geocentric_sandwich(
    source_ellipsoid: Ellipsoid,
    target_ellipsoid: Ellipsoid,
    preserve_height: bool,
    step: CompiledStep,
    steps: &mut StepList,
)
    ensures
        final(steps)@ == old(steps)@ + sandwich(
            source_ellipsoid,
            target_ellipsoid,
            preserve_height,
            step@,
        ),
{
    let ghost inner = step@;
    if preserve_height {
        steps.push(CompiledStep::PushHeight);
    }
    steps.push(CompiledStep::GeodeticToGeocentric { ellipsoid: source_ellipsoid });
    steps.push(step);
    steps.push(CompiledStep::GeocentricToGeodetic { ellipsoid: target_ellipsoid });
    if preserve_height {
        steps.push(CompiledStep::PopHeight);
    }
    assert(steps@ =~= old(steps)@ + sandwich(
        source_ellipsoid,
        target_ellipsoid,
        preserve_height,
        inner,
    ));
}

/// What is left of a scan, with what came before it.
spec fn resumed(handles: Seq<GridHandle>, required_seen: bool, rest: GridScan) -> GridScan {
    GridScan {
        handles: handles + rest.handles,
        required_seen: required_seen || rest.required_seen,
        ..rest
    }
}

/// Whether a failed load leaves an optional grid out.
fn may_be_left_out(halt: &CompileHalt) -> (result: bool)
    ensures
        result == (halt matches CompileHalt::Failed(Error::Grid(error)) && (error is Unavailable
            || error is NotFound)),
{
    match halt {
        CompileHalt::Failed(Error::Grid(GridError::Unavailable(_))) => true,
        CompileHalt::Failed(Error::Grid(GridError::NotFound(_))) => true,
        _ => false,
    }
}

/// Adds the step for a list of grids: those that can be loaded, up to the first
/// null entry, with the optional ones that cannot be had left out.
pub fn compile_grid_shift_list(
    grids: &DatumGridShift,
    direction: GridShiftDirection,
    services: &Services,
    steps: &mut StepList,
) -> (result: Result<(), CompileHalt>)
    ensures
        final(steps)@ == old(steps)@ + grid_list_emission(
            grids.entries@,
            direction,
            services@,
        ).steps,
        halt_of(result) == grid_list_emission(grids.entries@, direction, services@).halt,
{
    let mut handles: Vec<GridHandle> = Vec::new();
    let mut allow_null: bool = false;
    let mut required_grid_seen: bool = false;
    let mut i: usize = 0;
    let entries = &grids.entries;
    let ghost scan = grid_scan(entries@, services@);
    proof {
        assert(entries@.skip(0) =~= entries@);
        assert(resumed(handles@, false, scan).handles =~= scan.handles);
        assert(resumed(handles@, false, scan) == scan);
        assert(steps@ =~= steps@ + Seq::<Step>::empty());
    }
    while i < entries.len() && !allow_null
        invariant
            i <= entries@.len(),
            steps@ == old(steps)@,
            old(steps)@ == old(steps)@ + Seq::<Step>::empty(),
            *entries == grids.entries,
            scan == grid_scan(entries@, services@),
            !allow_null ==> scan == resumed(
                handles@,
                required_grid_seen,
                grid_scan(entries@.skip(i as int), services@),
            ),
            allow_null ==> scan == (GridScan {
                handles: handles@,
                allow_null: true,
                required_seen: required_grid_seen,
                halt: None,
            }),
        decreases entries@.len() - i + if allow_null { 0int } else { 1 },
    {
        let ghost rest = entries@.skip(i as int);
        let ghost before = handles@;
        proof {
            assert(rest.drop_first() =~= entries@.skip(i + 1));
        }
        match &entries[i] {
            DatumGridShiftEntry::Null => {
                allow_null = true;
                proof {
                    assert(handles@ + Seq::<GridHandle>::empty() =~= handles@);
                }
            },
            DatumGridShiftEntry::Grid { definition, optional } => {
                if !*optional {
                    required_grid_seen = true;
                }
                match services.perform(ServiceRequest::LoadGrid { grid: definition.key }) {
                    Ok(_) => {
                        handles.push(GridHandle { key: definition.key });
                        proof {
                            let later = grid_scan(rest.drop_first(), services@).handles;
                            assert(before + (seq![GridHandle { key: definition.key }] + later)
                                =~= handles@ + later);
                        }
                    },
                    Err(halt) => {
                        if !(*optional && may_be_left_out(&halt)) {
                            return Err(halt);
                        }
                    },
                }
                i = i + 1;
            },
        }
    }
    proof {
        if !allow_null {
            assert(entries@.skip(i as int) =~= Seq::<DatumGridShiftEntry>::empty());
            assert(handles@ + Seq::<GridHandle>::empty() =~= handles@);
        }
    }
    if handles.len() == 0 && !allow_null {
        if required_grid_seen {
            return Err(
                CompileHalt::Failed(
                    Error::Grid(
                        GridError::Unavailable(
                            String::from_str("no required datum grid could be loaded"),
                        ),
                    ),
                ),
            );
        }
        return Err(
            CompileHalt::Failed(
                Error::Grid(
                    GridError::Unavailable(
                        String::from_str("no optional datum grid could be loaded"),
                    ),
                ),
            ),
        );
    }
    steps.push(CompiledStep::GridShiftList { handles, allow_null, direction });
    proof {
        let emitted = grid_list_emission(grids.entries@, direction, services@).steps;
        assert(steps@ =~= old(steps)@ + emitted);
    }
    Ok(())
}

/// Adds the way from a datum to WGS 84.
pub fn compile_to_wgs84(
    transform: &DatumToWgs84,
    source_ellipsoid: Ellipsoid,
    preserve_height: bool,
    services: &Services,
    steps: &mut StepList,
) -> (result: Result<(), CompileHalt>)
    ensures
        final(steps)@ == old(steps)@ + to_wgs84_emission(
            *transform,
            source_ellipsoid,
            preserve_height,
            services@,
        ).steps,
        halt_of(result) == to_wgs84_emission(
            *transform,
            source_ellipsoid,
            preserve_height,
            services@,
        ).halt,
{
    assert(steps@ =~= steps@ + Seq::<Step>::empty());
    match transform {
        DatumToWgs84::Identity => Ok(()),
        DatumToWgs84::Helmert(params) => {
            services.perform(ServiceRequest::ValidateHelmert { params: *params })?;
            compile_geocentric_sandwich(
                source_ellipsoid,
                Ellipsoid::wgs84(),
                preserve_height,
                CompiledStep::Helmert { params: *params, inverse: false },
                steps,
            );
            Ok(())
        },
        DatumToWgs84::GridShift(grids) => compile_grid_shift_list(
            grids,
            GridShiftDirection::Forward,
            services,
            steps,
        ),
        DatumToWgs84::Unknown => Err(
            CompileHalt::Failed(
                Error::OperationSelection(String::from_str("datum has no known path to WGS84")),
            ),
        ),
    }
}

/// Adds the way from WGS 84 to a datum.
pub fn compile_from_wgs84(
    transform: &DatumToWgs84,
    target_ellipsoid: Ellipsoid,
    preserve_height: bool,
    services: &Services,
    steps: &mut StepList,
) -> (result: Result<(), CompileHalt>)
    ensures
        final(steps)@ == old(steps)@ + from_wgs84_emission(
            *transform,
            target_ellipsoid,
            preserve_height,
            services@,
        ).steps,
        halt_of(result) == from_wgs84_emission(
            *transform,
            target_ellipsoid,
            preserve_height,
            services@,
        ).halt,
{
    assert(steps@ =~= steps@ + Seq::<Step>::empty());
    match transform {
        DatumToWgs84::Identity => Ok(()),
        DatumToWgs84::Helmert(params) => {
            services.perform(ServiceRequest::ValidateHelmert { params: *params })?;
            compile_geocentric_sandwich(
                Ellipsoid::wgs84(),
                target_ellipsoid,
                preserve_height,
                CompiledStep::Helmert { params: *params, inverse: true },
                steps,
            );
            Ok(())
        },
        DatumToWgs84::GridShift(grids) => compile_grid_shift_list(
            grids,
            GridShiftDirection::Reverse,
            services,
            steps,
        ),
        DatumToWgs84::Unknown => Err(
            CompileHalt::Failed(
                Error::OperationSelection(String::from_str("datum has no known path from WGS84")),
            ),
        ),
    }
}

/// Adds the step for a grid operation.
fn compile_grid_shift(
    grid_id: GridId,
    direction: GridShiftDirection,
    registry: &Registry,
    services: &Services,
    steps: &mut StepList,
) -> (result: Result<(), CompileHalt>)
    ensures
        final(steps)@ == old(steps)@ + grid_shift_emission(
            grid_id,
            direction,
            *registry,
            services@,
        ).steps,
        halt_of(result) == grid_shift_emission(grid_id, direction, *registry, services@).halt,
{
    assert(steps@ =~= steps@ + Seq::<Step>::empty());
    let grid = match registry.lookup_grid_definition(grid_id.0) {
        Some(grid) => grid,
        None => {
            let mut text = String::from_str("grid id ");
            append_decimal(&mut text, grid_id.0 as u64);
            return Err(CompileHalt::Failed(Error::Grid(GridError::NotFound(text))));
        },
    };
    if grid.format == GridFormat::Unsupported {
        return Err(
            CompileHalt::Failed(Error::Grid(GridError::UnsupportedFormat(grid.name.clone()))),
        );
    }
    services.perform(ServiceRequest::LoadGrid { grid: grid.key })?;
    steps.push(CompiledStep::GridShift { handle: GridHandle { key: grid.key }, direction });
    assert(steps@ =~= old(steps)@ + seq![
        Step::GridShift { handle: GridHandle { key: grid.key }, direction },
    ]);
    Ok(())
}

/// A compilation that halts within some steps of a concatenated operation halts
/// there for all of them.
proof fn lemma_halted_prefix(
    steps: Seq<OperationStep>,
    k: int,
    registry: Registry,
    replies: ServiceReplies,
    levels: nat,
)
    requires
        0 <= k <= steps.len(),
        steps_emission(steps.take(k), registry, replies, levels).halt is Some,
    ensures
        steps_emission(steps, registry, replies, levels) == steps_emission(
            steps.take(k),
            registry,
            replies,
            levels,
        ),
    decreases steps.len() - k,
{
    if k == steps.len() {
        assert(steps.take(k) =~= steps);
    } else {
        assert(steps.take(k + 1).drop_last() =~= steps.take(k));
        lemma_halted_prefix(steps, k + 1, registry, replies, levels);
    }
}

/// Adds what the steps of a concatenated operation compile to, in the order of
/// a direction.
fn compile_steps_within(
    child_steps: &Vec<OperationStep>,
    direction: OperationStepDirection,
    registry: &Registry,
    services: &Services,
    steps: &mut StepList,
    Ghost(levels): Ghost<nat>,
) -> (result: Result<(), CompileHalt>)
    requires
        forall|i: int|
            0 <= i < child_steps@.len() ==> match entry(
                registry.operations(),
                (#[trigger] child_steps@[i]).operation_id.0,
            ) {
                Some(child) => expands_within(registry.operations(), child, levels),
                None => true,
            },
    ensures
        final(steps)@ == old(steps)@ + steps_emission(
            directed_steps(child_steps@, direction),
            *registry,
            services@,
            levels,
        ).steps,
        halt_of(result) == steps_emission(
            directed_steps(child_steps@, direction),
            *registry,
            services@,
            levels,
        ).halt,
    decreases levels, 1nat,
{
    let len: usize = child_steps.len();
    let ghost directed = directed_steps(child_steps@, direction);
    let mut i: usize = 0;
    proof {
        assert(directed.take(0) =~= Seq::<OperationStep>::empty());
        assert(steps@ =~= steps@ + Seq::<Step>::empty());
    }
    while i < len
        invariant
            i <= len == child_steps@.len(),
            directed == directed_steps(child_steps@, direction),
            forall|i: int|
                0 <= i < child_steps@.len() ==> match entry(
                    registry.operations(),
                    (#[trigger] child_steps@[i]).operation_id.0,
                ) {
                    Some(child) => expands_within(registry.operations(), child, levels),
                    None => true,
                },
            steps@ == old(steps)@ + steps_emission(
                directed.take(i as int),
                *registry,
                services@,
                levels,
            ).steps,
            steps_emission(directed.take(i as int), *registry, services@, levels).halt is None,
        decreases len - i,
    {
        let step: OperationStep = match direction {
            OperationStepDirection::Forward => child_steps[i],
            OperationStepDirection::Reverse => OperationStep {
                operation_id: child_steps[len - 1 - i].operation_id,
                direction: child_steps[len - 1 - i].direction.inverse(),
            },
        };
        let ghost before = steps@;
        proof {
            assert(directed[i as int] == step);
            assert(directed.take(i + 1).drop_last() =~= directed.take(i as int));
            assert(directed.take(i + 1).last() == step);
        }
        let ghost emitted = step_emission(step, *registry, services@, levels);
        let result = match registry.lookup_operation(step.operation_id) {
            Some(child) => {
                compile_operation_within(
                    child,
                    step.direction,
                    None,
                    registry,
                    services,
                    steps,
                    Ghost(levels),
                )
            },
            None => {
                let mut text = String::from_str("unknown operation id ");
                append_decimal(&mut text, step.operation_id.0 as u64);
                assert(steps@ =~= steps@ + Seq::<Step>::empty());
                Err(CompileHalt::Failed(Error::UnknownOperation(text)))
            },
        };
        proof {
            assert(steps@ == before + emitted.steps);
            let done = steps_emission(directed.take(i as int), *registry, services@, levels);
            assert(old(steps)@ + (done.steps + emitted.steps) =~= (old(steps)@ + done.steps)
                + emitted.steps);
        }
        match result {
            Ok(_) => {},
            Err(halt) => {
                proof {
                    lemma_halted_prefix(directed, i + 1, *registry, services@, levels);
                }
                return Err(halt);
            },
        }
        i = i + 1;
    }
    assert(directed.take(i as int) =~= directed);
    Ok(())
}

/// Adds what an operation compiles to, its steps expanded within `levels`
/// levels.
fn compile_operation_within(
    operation: &CoordinateOperation,
    direction: OperationStepDirection,
    requested_pair: Option<(CrsDef, CrsDef)>,
    registry: &Registry,
    services: &Services,
    steps: &mut StepList,
    Ghost(levels): Ghost<nat>,
) -> (result: Result<(), CompileHalt>)
    requires
        expands_within(registry.operations(), *operation, levels),
    ensures
        final(steps)@ == old(steps)@ + operation_emission(
            *operation,
            direction,
            requested_pair,
            *registry,
            services@,
            levels,
        ).steps,
        halt_of(result) == operation_emission(
            *operation,
            direction,
            requested_pair,
            *registry,
            services@,
            levels,
        ).halt,
    decreases levels, 0nat,
{
    assert(steps@ =~= steps@ + Seq::<Step>::empty());
    let (source_geo, target_geo) = match resolve_operation_geographic_pair(
        operation,
        direction,
        requested_pair,
        registry,
    ) {
        Ok(pair) => pair,
        Err(error) => {
            return Err(CompileHalt::Failed(error));
        },
    };
    let source_ellipsoid = source_geo.datum().ellipsoid;
    let target_ellipsoid = target_geo.datum().ellipsoid;
    let preserve_height: bool = operation.domain == OperationDomain::Geographic2D;
    let inverse: bool = direction == OperationStepDirection::Reverse;
    match &operation.method {
        OperationMethod::Identity => {},
        OperationMethod::Helmert { params } => {
            services.perform(ServiceRequest::ValidateHelmert { params: *params })?;
            compile_geocentric_sandwich(
                source_ellipsoid,
                target_ellipsoid,
                preserve_height,
                CompiledStep::Helmert { params: *params, inverse },
                steps,
            );
        },
        OperationMethod::GeocentricAffine { params } => {
            services.perform(ServiceRequest::ValidateAffine { params: *params })?;
            compile_geocentric_sandwich(
                source_ellipsoid,
                target_ellipsoid,
                preserve_height,
                CompiledStep::GeocentricAffine { params: *params, inverse },
                steps,
            );
        },
        OperationMethod::DatumShift { source_to_wgs84, target_to_wgs84 } => {
            let (first, second) = if inverse {
                (target_to_wgs84, source_to_wgs84)
            } else {
                (source_to_wgs84, target_to_wgs84)
            };
            compile_to_wgs84(first, source_ellipsoid, preserve_height, services, steps)?;
            let result = compile_from_wgs84(
                second,
                target_ellipsoid,
                preserve_height,
                services,
                steps,
            );
            proof {
                let a = to_wgs84_emission(*first, source_ellipsoid, preserve_height, services@);
                let b = from_wgs84_emission(*second, target_ellipsoid, preserve_height, services@);
                assert((old(steps)@ + a.steps) + b.steps =~= old(steps)@ + (a.steps + b.steps));
            }
            result?;
        },
        OperationMethod::GridShift { grid_id, direction: grid } => {
            let grid_direction = match direction {
                OperationStepDirection::Forward => *grid,
                OperationStepDirection::Reverse => grid.inverse(),
            };
            compile_grid_shift(*grid_id, grid_direction, registry, services, steps)?;
        },
        OperationMethod::Concatenated { steps: child_steps } => {
            compile_steps_within(
                child_steps,
                direction,
                registry,
                services,
                steps,
                Ghost((levels - 1) as nat),
            )?;
        },
        OperationMethod::Projection { .. } | OperationMethod::AxisUnitNormalize => {
            return Err(
                CompileHalt::Failed(
                    Error::UnsupportedProjection(
                        String::from_str(
                            "direct projection operations are not emitted by the embedded selector",
                        ),
                    ),
                ),
            );
        },
    }
    Ok(())
}

/// Adds what an operation compiles to in a direction. Where it halts, the steps
/// added so far stay.
pub fn compile_operation(
    operation: &CoordinateOperation,
    direction: OperationStepDirection,
    requested_pair: Option<(CrsDef, CrsDef)>,
    registry: &Registry,
    services: &Services,
    steps: &mut StepList,
) -> (result: Result<(), CompileHalt>)
    ensures
        final(steps)@ == old(steps)@ + operation_emission(
            *operation,
            direction,
            requested_pair,
            *registry,
            services@,
            all_levels(*registry),
        ).steps,
        halt_of(result) == operation_emission(
            *operation,
            direction,
            requested_pair,
            *registry,
            services@,
            all_levels(*registry),
        ).halt,
{
    proof {
        use_type_invariant(registry);
        lemma_acyclic_expands(registry.operations(), *operation);
    }
    compile_operation_within(
        operation,
        direction,
        requested_pair,
        registry,
        services,
        steps,
        Ghost(all_levels(*registry)),
    )
}

/// Adds the way from the source system into geodetic radians.
fn compile_source_framing(source: &CrsDef, services: &Services, steps: &mut StepList) -> (result:
    Result<(), CompileHalt>)
    ensures
        final(steps)@ == old(steps)@ + source_emission(*source, services@).steps,
        halt_of(result) == source_emission(*source, services@).halt,
{
    assert(steps@ =~= steps@ + Seq::<Step>::empty());
    if let Some(projected) = source.as_projected() {
        let projection = Projection { method: projected.method, datum: projected.datum };
        services.perform(ServiceRequest::MakeProjection { projection })?;
        steps.push(CompiledStep::ProjectionInverse { projection });
    } else if let Some(geocentric) = source.as_geocentric() {
        steps.push(CompiledStep::GeocentricToGeodetic { ellipsoid: geocentric.datum.ellipsoid });
    }
    assert(steps@ =~= old(steps)@ + source_emission(*source, services@).steps);
    Ok(())
}

/// Adds the way from geodetic radians into the target system.
fn compile_target_framing(target: &CrsDef, services: &Services, steps: &mut StepList) -> (result:
    Result<(), CompileHalt>)
    ensures
        final(steps)@ == old(steps)@ + target_emission(*target, services@).steps,
        halt_of(result) == target_emission(*target, services@).halt,
{
    assert(steps@ =~= steps@ + Seq::<Step>::empty());
    if let Some(geocentric) = target.as_geocentric() {
        steps.push(CompiledStep::GeodeticToGeocentric { ellipsoid: geocentric.datum.ellipsoid });
    } else if let Some(projected) = target.as_projected() {
        let projection = Projection { method: projected.method, datum: projected.datum };
        services.perform(ServiceRequest::MakeProjection { projection })?;
        steps.push(CompiledStep::ProjectionForward { projection });
    }
    assert(steps@ =~= old(steps)@ + target_emission(*target, services@).steps);
    Ok(())
}

/// Compiles the pipeline of an operation between two systems: into geodetic
/// radians, through the operation, out into the target system, without the
/// conversions to geocentric coordinates that the next step undoes.
pub fn compile_pipeline(
    source: &CrsDef,
    target: &CrsDef,
    operation: &SelectedOperationKind,
    direction: OperationStepDirection,
    registry: &Registry,
    services: &Services,
) -> (result: Result<CompiledOperationPipeline, CompileHalt>)
    ensures
        halt_of(result) == pipeline_emission(
            *source,
            *target,
            *operation,
            direction,
            *registry,
            services@,
        ).halt,
        result matches Ok(pipeline) ==> {
            &&& pipeline.steps@ == settled(
                pipeline_emission(
                    *source,
                    *target,
                    *operation,
                    direction,
                    *registry,
                    services@,
                ).steps,
            )
            &&& pipeline.source_xy_units == source_units(*source)
            &&& pipeline.target_xy_units == target_units(*target)
            &&& pipeline.transforms_ellipsoidal_height == (source is Geocentric
                || target is Geocentric || transforms_height(pipeline.steps@))
            &&& pipeline.well_formed()
        },
{
    let mut steps = StepList::new();
    let ghost first = source_emission(*source, services@);
    let ghost middle = selected_emission(
        *source,
        *target,
        *operation,
        direction,
        *registry,
        services@,
    );
    let ghost last = target_emission(*target, services@);
    compile_source_framing(source, services, &mut steps)?;
    match operation {
        SelectedOperationKind::Identity => {
            assert(steps@ + Seq::<Step>::empty() =~= steps@);
        },
        SelectedOperationKind::Registry(operation) => {
            compile_operation(
                operation,
                direction,
                Some((*source, *target)),
                registry,
                services,
                &mut steps,
            )?;
        },
        SelectedOperationKind::Custom(operation) => {
            compile_operation(
                operation,
                direction,
                Some((*source, *target)),
                registry,
                services,
                &mut steps,
            )?;
        },
    }
    compile_target_framing(target, services, &mut steps)?;
    proof {
        assert(Seq::<Step>::empty() + first.steps =~= first.steps);
    }
    cancel_redundant_geocentric_framing(&mut steps);
    let transforms_ellipsoidal_height: bool = source.is_geocentric() || target.is_geocentric()
        || steps_transform_ellipsoidal_height(&steps);
    Ok(
        CompiledOperationPipeline {
            steps,
            source_xy_units: PipelineSourceXyUnits::compile(source),
            target_xy_units: PipelineTargetXyUnits::compile(target),
            transforms_ellipsoidal_height,
        },
    )
}

} // verus!
