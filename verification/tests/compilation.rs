//! Compiling operations into pipelines.
use proj_pipeline::binary64::Binary64;
use proj_pipeline::compile::{
    compile_from_wgs84, compile_geocentric_sandwich, compile_grid_shift_list, compile_operation,
    compile_pipeline, compile_to_wgs84, resolve_operation_geographic_pair,
};
use proj_pipeline::crs::{
    CrsDef, Datum, GeocentricCrsDef, GeographicCrsDef, LinearUnit, ProjectedCrsDef, Projection,
    ProjectionMethod,
};
use proj_pipeline::ellipsoid::Ellipsoid;
use proj_pipeline::error::{Error, GridError};
use proj_pipeline::operation::{
    AffineRow, CoordinateOperation, CoordinateOperationId, DatumGridShift, DatumGridShiftEntry,
    DatumToWgs84, GeocentricAffineParams, GridDefinition, GridFormat, GridHandle, GridId, GridKey,
    GridShiftDirection, HelmertParams, OperationDomain, OperationMethod, OperationStep,
    OperationStepDirection, SelectedOperationKind,
};
use proj_pipeline::pipeline::CompiledOperationPipeline;
use proj_pipeline::registry::Registry;
use proj_pipeline::services::{CompileHalt, ServiceRequest, Services};
use proj_pipeline::step::{CompiledStep, StepList};
use proj_pipeline::units::{PipelineSourceXyUnits, PipelineTargetXyUnits};

fn bits(x: f64) -> Binary64 {
    Binary64 { bits: x.to_bits() }
}

fn wgs84() -> Ellipsoid {
    Ellipsoid::wgs84()
}

fn clarke() -> Ellipsoid {
    Ellipsoid::clarke1866()
}

fn geographic(ellipsoid: Ellipsoid) -> CrsDef {
    CrsDef::Geographic(GeographicCrsDef { datum: Datum { ellipsoid } })
}

fn geocentric(ellipsoid: Ellipsoid) -> CrsDef {
    CrsDef::Geocentric(GeocentricCrsDef { datum: Datum { ellipsoid } })
}

fn projected(ellipsoid: Ellipsoid, to_meter: f64) -> CrsDef {
    CrsDef::Projected(ProjectedCrsDef {
        datum: Datum { ellipsoid },
        method: ProjectionMethod { key: 7 },
        linear_unit: LinearUnit { to_meter: bits(to_meter) },
    })
}

fn projection(ellipsoid: Ellipsoid) -> Projection {
    Projection { method: ProjectionMethod { key: 7 }, datum: Datum { ellipsoid } }
}

fn params(dx: f64) -> HelmertParams {
    let zero = bits(0.0);
    HelmertParams { dx: bits(dx), dy: zero, dz: zero, rx: zero, ry: zero, rz: zero, ds: zero }
}

fn affine() -> GeocentricAffineParams {
    let row = AffineRow { x: bits(1.0), y: bits(0.0), z: bits(0.0), constant: bits(2.0) };
    GeocentricAffineParams { x: row, y: row, z: row }
}

fn operation(
    domain: OperationDomain,
    codes: Option<(u32, u32)>,
    method: OperationMethod,
) -> CoordinateOperation {
    CoordinateOperation {
        name: "an operation".to_string(),
        domain,
        source_crs_epsg: codes.map(|codes| codes.0),
        target_crs_epsg: codes.map(|codes| codes.1),
        method,
    }
}

fn helmert_operation(domain: OperationDomain, dx: f64) -> CoordinateOperation {
    operation(domain, Some((1, 2)), OperationMethod::Helmert { params: params(dx) })
}

fn grid(key: u32, format: GridFormat) -> GridDefinition {
    GridDefinition { key: GridKey(key), name: format!("grid {key}"), format }
}

fn step(id: u32, direction: OperationStepDirection) -> OperationStep {
    OperationStep { operation_id: CoordinateOperationId(id), direction }
}

const FORWARD: OperationStepDirection = OperationStepDirection::Forward;
const REVERSE: OperationStepDirection = OperationStepDirection::Reverse;

fn registry() -> Registry {
    Registry::new(
        vec![(1, geographic(clarke())), (2, geographic(wgs84()))],
        vec![
            (10, helmert_operation(OperationDomain::Geographic2D, 1.0)),
            (
                11,
                operation(
                    OperationDomain::Geographic2D,
                    Some((2, 1)),
                    OperationMethod::GridShift {
                        grid_id: GridId(5),
                        direction: GridShiftDirection::Forward,
                    },
                ),
            ),
            (12, operation(OperationDomain::Geographic2D, None, OperationMethod::Identity)),
        ],
        vec![
            (5, grid(50, GridFormat::Ntv2)),
            (6, grid(60, GridFormat::Unsupported)),
        ],
    )
    .unwrap()
}

fn listed(steps: &StepList) -> Vec<CompiledStep> {
    (0..steps.len()).map(|i| steps.at(i).clone()).collect()
}

/// Compiles an operation with every request granted.
fn granted(
    operation: &CoordinateOperation,
    direction: OperationStepDirection,
    pair: Option<(CrsDef, CrsDef)>,
) -> Result<Vec<CompiledStep>, Error> {
    let registry = registry();
    let mut services = Services::new();
    loop {
        let mut steps = StepList::new();
        match compile_operation(operation, direction, pair, &registry, &services, &mut steps) {
            Ok(()) => return Ok(listed(&steps)),
            Err(CompileHalt::Failed(error)) => return Err(error),
            Err(CompileHalt::Pending(request)) => services.record(request, Ok(())),
        }
    }
}

fn pipeline(
    source: CrsDef,
    target: CrsDef,
    operation: &SelectedOperationKind,
    direction: OperationStepDirection,
) -> CompiledOperationPipeline {
    let registry = registry();
    let mut services = Services::new();
    loop {
        match compile_pipeline(&source, &target, operation, direction, &registry, &services) {
            Ok(pipeline) => return pipeline,
            Err(CompileHalt::Failed(error)) => panic!("{error:?}"),
            Err(CompileHalt::Pending(request)) => services.record(request, Ok(())),
        }
    }
}

fn to_geocentric(ellipsoid: Ellipsoid) -> CompiledStep {
    CompiledStep::GeodeticToGeocentric { ellipsoid }
}

fn to_geodetic(ellipsoid: Ellipsoid) -> CompiledStep {
    CompiledStep::GeocentricToGeodetic { ellipsoid }
}

fn helmert(dx: f64, inverse: bool) -> CompiledStep {
    CompiledStep::Helmert { params: params(dx), inverse }
}

#[test]
fn horizontal_helmert_is_wrapped_in_a_passthrough() {
    let op = helmert_operation(OperationDomain::Geographic2D, 1.0);
    assert_eq!(
        granted(&op, FORWARD, None).unwrap(),
        vec![
            CompiledStep::PushHeight,
            to_geocentric(clarke()),
            helmert(1.0, false),
            to_geodetic(wgs84()),
            CompiledStep::PopHeight,
        ]
    );
}

#[test]
fn reverse_compiles_to_the_mirror_image() {
    let op = helmert_operation(OperationDomain::Geographic3D, 1.0);
    assert_eq!(
        granted(&op, REVERSE, None).unwrap(),
        vec![to_geocentric(wgs84()), helmert(1.0, true), to_geodetic(clarke())]
    );
    assert_eq!(
        granted(&op, FORWARD, None).unwrap(),
        vec![to_geocentric(clarke()), helmert(1.0, false), to_geodetic(wgs84())]
    );
}

#[test]
fn affine_operations_carry_their_direction() {
    let op = operation(
        OperationDomain::Geocentric,
        None,
        OperationMethod::GeocentricAffine { params: affine() },
    );
    let pair = Some((geographic(wgs84()), geographic(clarke())));
    assert_eq!(
        granted(&op, REVERSE, pair).unwrap(),
        vec![
            to_geocentric(wgs84()),
            CompiledStep::GeocentricAffine { params: affine(), inverse: true },
            to_geodetic(clarke()),
        ]
    );
}

#[test]
fn datum_shift_goes_through_wgs84() {
    let shift = |first: f64, second: f64| {
        operation(
            OperationDomain::Geographic3D,
            Some((1, 2)),
            OperationMethod::DatumShift {
                source_to_wgs84: DatumToWgs84::Helmert(params(first)),
                target_to_wgs84: DatumToWgs84::Helmert(params(second)),
            },
        )
    };
    assert_eq!(
        granted(&shift(1.0, 2.0), FORWARD, None).unwrap(),
        vec![
            to_geocentric(clarke()),
            helmert(1.0, false),
            to_geodetic(wgs84()),
            to_geocentric(wgs84()),
            helmert(2.0, true),
            to_geodetic(wgs84()),
        ]
    );
    assert_eq!(
        granted(&shift(1.0, 2.0), REVERSE, None).unwrap(),
        vec![
            to_geocentric(wgs84()),
            helmert(2.0, false),
            to_geodetic(wgs84()),
            to_geocentric(wgs84()),
            helmert(1.0, true),
            to_geodetic(clarke()),
        ]
    );
}

#[test]
fn unknown_datum_has_no_path() {
    let services = Services::new();
    let mut steps = StepList::new();
    assert_eq!(
        compile_to_wgs84(&DatumToWgs84::Unknown, clarke(), false, &services, &mut steps),
        Err(CompileHalt::Failed(Error::OperationSelection(
            "datum has no known path to WGS84".to_string()
        )))
    );
    assert_eq!(
        compile_from_wgs84(&DatumToWgs84::Unknown, clarke(), false, &services, &mut steps),
        Err(CompileHalt::Failed(Error::OperationSelection(
            "datum has no known path from WGS84".to_string()
        )))
    );
    assert_eq!(
        compile_to_wgs84(&DatumToWgs84::Identity, clarke(), false, &services, &mut steps),
        Ok(())
    );
    assert!(steps.is_empty());
}

#[test]
fn sandwich_is_added_behind_what_is_there() {
    let mut steps = StepList::of(&vec![CompiledStep::PopHeight]);
    compile_geocentric_sandwich(clarke(), wgs84(), false, helmert(3.0, false), &mut steps);
    assert_eq!(
        listed(&steps),
        vec![
            CompiledStep::PopHeight,
            to_geocentric(clarke()),
            helmert(3.0, false),
            to_geodetic(wgs84()),
        ]
    );
}

#[test]
fn concatenated_steps_run_backwards_in_reverse() {
    let op = operation(
        OperationDomain::Geographic2D,
        Some((1, 1)),
        OperationMethod::Concatenated { steps: vec![step(10, FORWARD), step(11, REVERSE)] },
    );
    let wrapped = |source: Ellipsoid, target: Ellipsoid, inverse: bool| {
        vec![
            CompiledStep::PushHeight,
            to_geocentric(source),
            helmert(1.0, inverse),
            to_geodetic(target),
            CompiledStep::PopHeight,
        ]
    };
    let shift = |direction: GridShiftDirection| CompiledStep::GridShift {
        handle: GridHandle { key: GridKey(50) },
        direction,
    };
    let mut forward = wrapped(clarke(), wgs84(), false);
    forward.push(shift(GridShiftDirection::Reverse));
    assert_eq!(granted(&op, FORWARD, None).unwrap(), forward);
    let mut reverse = vec![shift(GridShiftDirection::Forward)];
    reverse.extend(wrapped(wgs84(), clarke(), true));
    assert_eq!(granted(&op, REVERSE, None).unwrap(), reverse);
}

#[test]
fn concatenated_operation_fails_where_a_step_is_missing() {
    let op = operation(
        OperationDomain::Geographic2D,
        Some((1, 2)),
        OperationMethod::Concatenated { steps: vec![step(10, FORWARD), step(4_294_967_295, FORWARD)] },
    );
    let registry = registry();
    let mut services = Services::new();
    services.record(ServiceRequest::ValidateHelmert { params: params(1.0) }, Ok(()));
    let mut steps = StepList::new();
    assert_eq!(
        compile_operation(&op, FORWARD, None, &registry, &services, &mut steps),
        Err(CompileHalt::Failed(Error::UnknownOperation(
            "unknown operation id 4294967295".to_string()
        )))
    );
    // What was added before the failure stays.
    assert_eq!(steps.len(), 5);
}

#[test]
fn a_step_without_systems_of_its_own_is_refused() {
    let op = operation(
        OperationDomain::Geographic2D,
        Some((1, 2)),
        OperationMethod::Concatenated { steps: vec![step(12, FORWARD)] },
    );
    assert_eq!(
        granted(&op, FORWARD, None),
        Err(Error::OperationSelection(
            "operation an operation is missing source/target CRS metadata".to_string()
        ))
    );
}

#[test]
fn pair_is_that_of_the_operation_or_the_requested_one() {
    let registry = registry();
    let named = helmert_operation(OperationDomain::Geographic2D, 1.0);
    let (a, b) = (geographic(clarke()), geographic(wgs84()));
    assert_eq!(resolve_operation_geographic_pair(&named, FORWARD, None, &registry), Ok((a, b)));
    assert_eq!(resolve_operation_geographic_pair(&named, REVERSE, None, &registry), Ok((b, a)));
    let unnamed = operation(OperationDomain::Geographic2D, None, OperationMethod::Identity);
    let requested = Some((b, a));
    assert_eq!(
        resolve_operation_geographic_pair(&unnamed, REVERSE, requested, &registry),
        Ok((b, a))
    );
    let missing =
        operation(OperationDomain::Geographic2D, Some((1, 99)), OperationMethod::Identity);
    assert_eq!(
        resolve_operation_geographic_pair(&missing, FORWARD, requested, &registry),
        Err(Error::UnknownCrs("unknown EPSG code in operation an operation".to_string()))
    );
}

#[test]
fn grid_operations_need_a_known_and_readable_grid() {
    let shift = |id: u32| {
        operation(
            OperationDomain::Geographic2D,
            Some((1, 2)),
            OperationMethod::GridShift {
                grid_id: GridId(id),
                direction: GridShiftDirection::Reverse,
            },
        )
    };
    assert_eq!(
        granted(&shift(123), FORWARD, None),
        Err(Error::Grid(GridError::NotFound("grid id 123".to_string())))
    );
    assert_eq!(
        granted(&shift(6), FORWARD, None),
        Err(Error::Grid(GridError::UnsupportedFormat("grid 60".to_string())))
    );
    assert_eq!(
        granted(&shift(5), REVERSE, None).unwrap(),
        vec![CompiledStep::GridShift {
            handle: GridHandle { key: GridKey(50) },
            direction: GridShiftDirection::Forward,
        }]
    );
}

#[test]
fn projections_are_not_operations() {
    let refused = Err(Error::UnsupportedProjection(
        "direct projection operations are not emitted by the embedded selector".to_string(),
    ));
    let method = OperationMethod::Projection { method: ProjectionMethod { key: 1 } };
    let op = operation(OperationDomain::Geographic2D, Some((1, 2)), method);
    assert_eq!(granted(&op, FORWARD, None), refused);
    let op = operation(
        OperationDomain::Geographic2D,
        Some((1, 2)),
        OperationMethod::AxisUnitNormalize,
    );
    assert_eq!(granted(&op, REVERSE, None), refused);
}

#[test]
fn refused_parameters_halt_the_compilation() {
    let registry = registry();
    let op = helmert_operation(OperationDomain::Geographic2D, 1.0);
    let request = ServiceRequest::ValidateHelmert { params: params(1.0) };
    let mut services = Services::new();
    let mut steps = StepList::new();
    assert_eq!(
        compile_operation(&op, FORWARD, None, &registry, &services, &mut steps),
        Err(CompileHalt::Pending(request))
    );
    let error = Error::InvalidDefinition("not finite".to_string());
    services.record(request, Err(error.clone()));
    assert_eq!(
        compile_operation(&op, FORWARD, None, &registry, &services, &mut steps),
        Err(CompileHalt::Failed(error))
    );
    assert!(steps.is_empty());
}

fn entry(key: u32, optional: bool) -> DatumGridShiftEntry {
    DatumGridShiftEntry::Grid { definition: grid(key, GridFormat::Ntv2), optional }
}

/// Compiles a list of grids of which those with an even number can be loaded.
fn grid_list(entries: Vec<DatumGridShiftEntry>) -> Result<(Vec<u32>, bool), Error> {
    let grids = DatumGridShift { entries };
    let mut services = Services::new();
    loop {
        let mut steps = StepList::new();
        let direction = GridShiftDirection::Forward;
        match compile_grid_shift_list(&grids, direction, &services, &mut steps) {
            Ok(()) => {
                assert_eq!(steps.len(), 1);
                match steps.at(0) {
                    CompiledStep::GridShiftList { handles, allow_null, direction: given } => {
                        assert_eq!(*given, direction);
                        let keys = handles.iter().map(|handle| handle.key.0).collect();
                        return Ok((keys, *allow_null));
                    }
                    other => panic!("{other:?}"),
                }
            }
            Err(CompileHalt::Failed(error)) => return Err(error),
            Err(CompileHalt::Pending(request)) => {
                let reply = match request {
                    ServiceRequest::LoadGrid { grid } => match grid.0 % 4 {
                        0 | 2 => Ok(()),
                        1 => Err(Error::Grid(GridError::Unavailable("gone".to_string()))),
                        _ => Err(Error::Grid(GridError::NotFound("never seen".to_string()))),
                    },
                    other => panic!("{other:?}"),
                };
                services.record(request, reply);
            }
        }
    }
}

#[test]
fn optional_grids_are_left_out_when_they_cannot_be_had() {
    let list = vec![entry(2, false), entry(1, true), entry(3, true), entry(4, true)];
    assert_eq!(grid_list(list), Ok((vec![2, 4], false)));
}

#[test]
fn a_required_grid_must_be_there() {
    assert_eq!(
        grid_list(vec![entry(2, true), entry(1, false), entry(4, false)]),
        Err(Error::Grid(GridError::Unavailable("gone".to_string())))
    );
}

#[test]
fn a_null_entry_ends_the_list() {
    let list = vec![entry(2, true), DatumGridShiftEntry::Null, entry(1, false)];
    assert_eq!(grid_list(list), Ok((vec![2], true)));
    assert_eq!(grid_list(vec![DatumGridShiftEntry::Null]), Ok((vec![], true)));
}

#[test]
fn a_list_without_grids_is_unavailable() {
    let expected = Err(Error::Grid(GridError::Unavailable(
        "no optional datum grid could be loaded".to_string(),
    )));
    assert_eq!(grid_list(vec![]), expected);
    assert_eq!(grid_list(vec![entry(1, true), entry(3, true)]), expected);
}

#[test]
fn a_damaged_optional_grid_is_an_error() {
    let grids = DatumGridShift { entries: vec![entry(1, true)] };
    let mut services = Services::new();
    let error = Error::Grid(GridError::Malformed("bad header".to_string()));
    services.record(ServiceRequest::LoadGrid { grid: GridKey(1) }, Err(error.clone()));
    let mut steps = StepList::new();
    assert_eq!(
        compile_grid_shift_list(&grids, GridShiftDirection::Reverse, &services, &mut steps),
        Err(CompileHalt::Failed(error))
    );
}

#[test]
fn projected_endpoints_are_framed_by_their_projections() {
    let built = pipeline(
        projected(clarke(), 0.3048),
        projected(wgs84(), 1.0),
        &SelectedOperationKind::Identity,
        FORWARD,
    );
    assert_eq!(
        listed(&built.steps),
        vec![
            CompiledStep::ProjectionInverse { projection: projection(clarke()) },
            CompiledStep::ProjectionForward { projection: projection(wgs84()) },
        ]
    );
    let unit = LinearUnit { to_meter: bits(0.3048) };
    assert_eq!(built.source_xy_units, PipelineSourceXyUnits::ProjectedNativeToMeters(unit));
    assert_eq!(built.target_xy_units, PipelineTargetXyUnits::ProjectedMeters);
    assert!(!built.transforms_ellipsoidal_height);
}

#[test]
fn a_projection_that_cannot_be_set_up_halts_the_compilation() {
    let registry = registry();
    let mut services = Services::new();
    let (source, target) = (projected(clarke(), 1.0), geographic(wgs84()));
    let identity = SelectedOperationKind::Identity;
    let request = ServiceRequest::MakeProjection { projection: projection(clarke()) };
    let halt = compile_pipeline(&source, &target, &identity, FORWARD, &registry, &services);
    assert_eq!(halt.err(), Some(CompileHalt::Pending(request)));
    let error = Error::UnsupportedProjection("no such method".to_string());
    services.record(request, Err(error.clone()));
    let halt = compile_pipeline(&source, &target, &identity, FORWARD, &registry, &services);
    assert_eq!(halt.err(), Some(CompileHalt::Failed(error)));
}

#[test]
fn geocentric_identity_has_no_steps_and_owns_height() {
    let built = pipeline(
        geocentric(wgs84()),
        geocentric(wgs84()),
        &SelectedOperationKind::Identity,
        FORWARD,
    );
    assert!(built.steps.is_empty());
    assert!(built.transforms_ellipsoidal_height);
    assert_eq!(built.source_xy_units, PipelineSourceXyUnits::GeocentricMeters);
    assert_eq!(built.target_xy_units, PipelineTargetXyUnits::GeocentricMeters);
}

#[test]
fn geocentric_helmert_runs_without_conversions() {
    let op = helmert_operation(OperationDomain::Geocentric, 1.0);
    let built = pipeline(
        geocentric(clarke()),
        geocentric(wgs84()),
        &SelectedOperationKind::Custom(op),
        FORWARD,
    );
    assert_eq!(listed(&built.steps), vec![helmert(1.0, false)]);
    assert!(built.transforms_ellipsoidal_height);
}

#[test]
fn horizontal_helmert_to_a_geocentric_system_keeps_its_framing() {
    let op = helmert_operation(OperationDomain::Geographic2D, 1.0);
    let built = pipeline(
        geographic(clarke()),
        geocentric(wgs84()),
        &SelectedOperationKind::Registry(op),
        FORWARD,
    );
    assert_eq!(
        listed(&built.steps),
        vec![
            CompiledStep::PushHeight,
            to_geocentric(clarke()),
            helmert(1.0, false),
            to_geodetic(wgs84()),
            CompiledStep::PopHeight,
            to_geocentric(wgs84()),
        ]
    );
}

#[test]
fn height_flag_follows_the_domain() {
    let endpoints = (geographic(clarke()), geographic(wgs84()));
    let flag = |domain: OperationDomain| {
        let op = SelectedOperationKind::Registry(helmert_operation(domain, 1.0));
        pipeline(endpoints.0, endpoints.1, &op, FORWARD).transforms_ellipsoidal_height
    };
    assert!(!flag(OperationDomain::Geographic2D));
    assert!(flag(OperationDomain::Geographic3D));
    assert!(flag(OperationDomain::Geocentric));
    assert!(flag(OperationDomain::HorizontalOnly));
}

#[test]
fn inverse_pipeline_is_the_mirror_image() {
    let op = || SelectedOperationKind::Custom(helmert_operation(OperationDomain::Geographic3D, 1.0));
    let (a, b) = (projected(clarke(), 1.0), geographic(wgs84()));
    assert_eq!(
        listed(&pipeline(a, b, &op(), FORWARD).steps),
        vec![
            CompiledStep::ProjectionInverse { projection: projection(clarke()) },
            to_geocentric(clarke()),
            helmert(1.0, false),
            to_geodetic(wgs84()),
        ]
    );
    assert_eq!(
        listed(&pipeline(b, a, &op(), REVERSE).steps),
        vec![
            to_geocentric(wgs84()),
            helmert(1.0, true),
            to_geodetic(clarke()),
            CompiledStep::ProjectionForward { projection: projection(clarke()) },
        ]
    );
}

#[test]
fn cloned_pipeline_is_the_same() {
    let op = SelectedOperationKind::Registry(helmert_operation(OperationDomain::Geographic2D, 1.0));
    let built = pipeline(geographic(clarke()), projected(wgs84(), 2.0), &op, FORWARD);
    let copy = built.clone();
    assert_eq!(listed(&copy.steps), listed(&built.steps));
    assert_eq!(copy.source_xy_units, built.source_xy_units);
    assert_eq!(copy.target_xy_units, built.target_xy_units);
    assert_eq!(copy.transforms_ellipsoidal_height, built.transforms_ellipsoidal_height);
}

fn chain(ids: Vec<u32>) -> CoordinateOperation {
    let steps = ids.iter().map(|id| step(*id, FORWARD)).collect();
    operation(
        OperationDomain::Geographic2D,
        Some((1, 2)),
        OperationMethod::Concatenated { steps },
    )
}

#[test]
fn registry_refuses_operations_that_contain_themselves() {
    let with = |operations: Vec<(u32, CoordinateOperation)>| {
        Registry::new(vec![], operations, vec![]).is_some()
    };
    assert!(!with(vec![(1, chain(vec![1]))]));
    assert!(!with(vec![(1, chain(vec![2])), (2, chain(vec![3])), (3, chain(vec![1]))]));
    assert!(with(vec![(1, chain(vec![2, 2])), (2, chain(vec![3, 9])), (3, chain(vec![]))]));
    assert!(with(vec![(3, chain(vec![])), (2, chain(vec![3])), (1, chain(vec![2]))]));
}

#[test]
fn registry_finds_the_first_entry_with_a_number() {
    let registry = Registry::new(
        vec![(1, geographic(clarke())), (1, geographic(wgs84()))],
        vec![],
        vec![],
    )
    .unwrap();
    assert_eq!(registry.lookup_epsg(1), Some(geographic(clarke())));
    assert_eq!(registry.lookup_epsg(2), None);
    assert!(registry.lookup_operation(CoordinateOperationId(1)).is_none());
    assert!(registry.lookup_grid_definition(1).is_none());
}

#[test]
fn way_back_is_the_mirror_image_between_geocentric_systems() {
    let op = SelectedOperationKind::Custom(helmert_operation(OperationDomain::Geocentric, 1.0));
    let (a, b) = (geocentric(clarke()), geocentric(wgs84()));
    let there = pipeline(a, b, &op, FORWARD);
    let back = pipeline(b, a, &op, REVERSE);
    assert_eq!(listed(&there.steps), vec![helmert(1.0, false)]);
    assert_eq!(listed(&back.steps), vec![helmert(1.0, true)]);
    assert_eq!(there.transforms_ellipsoidal_height, back.transforms_ellipsoidal_height);
}

#[test]
fn both_ways_agree_on_height() {
    for domain in [OperationDomain::Geographic2D, OperationDomain::Geographic3D] {
        let op = SelectedOperationKind::Custom(helmert_operation(domain, 1.0));
        let (a, b) = (projected(clarke(), 1.0), geographic(wgs84()));
        assert_eq!(
            pipeline(a, b, &op, FORWARD).transforms_ellipsoidal_height,
            pipeline(b, a, &op, REVERSE).transforms_ellipsoidal_height
        );
    }
}

#[test]
fn every_request_is_made_once() {
    let steps = vec![step(10, FORWARD), step(11, FORWARD), step(10, REVERSE), step(11, REVERSE)];
    let op = SelectedOperationKind::Custom(operation(
        OperationDomain::Geographic2D,
        Some((1, 1)),
        OperationMethod::Concatenated { steps },
    ));
    let crs = projected(clarke(), 1.0);
    let registry = registry();
    let mut services = Services::new();
    let mut requests = vec![];
    while let Err(CompileHalt::Pending(request)) =
        compile_pipeline(&crs, &crs, &op, FORWARD, &registry, &services)
    {
        services.record(request, Ok(()));
        requests.push(request);
    }
    assert_eq!(
        requests,
        vec![
            ServiceRequest::MakeProjection { projection: projection(clarke()) },
            ServiceRequest::ValidateHelmert { params: params(1.0) },
            ServiceRequest::LoadGrid { grid: GridKey(50) },
        ]
    );
    // What has come to a pipeline stays so with further replies.
    services.record(ServiceRequest::LoadGrid { grid: GridKey(60) }, Ok(()));
    let built = compile_pipeline(&crs, &crs, &op, FORWARD, &registry, &services);
    assert_eq!(built.ok().map(|built| built.steps.len()), Some(14));
}

#[test]
fn nested_concatenations_are_expanded_all_the_way() {
    let leaf = helmert_operation(OperationDomain::Geographic3D, 1.0);
    let registry = Registry::new(
        vec![(1, geographic(clarke())), (2, geographic(wgs84()))],
        vec![(1, chain(vec![2])), (2, chain(vec![3, 4])), (3, chain(vec![4])), (4, leaf)],
        vec![],
    )
    .unwrap();
    let mut services = Services::new();
    services.record(ServiceRequest::ValidateHelmert { params: params(1.0) }, Ok(()));
    let compiled = |op: &CoordinateOperation| {
        let mut steps = StepList::new();
        let done = compile_operation(op, FORWARD, None, &registry, &services, &mut steps);
        assert_eq!(done, Ok(()));
        listed(&steps)
    };
    let once = compiled(&helmert_operation(OperationDomain::Geographic3D, 1.0));
    assert_eq!(once.len(), 3);
    let mut twice = once.clone();
    twice.extend(once);
    assert_eq!(compiled(&chain(vec![2])), twice);
    // An operation outside the registry, around the deepest one in it.
    assert_eq!(compiled(&chain(vec![1])), twice);
}

#[test]
fn direct_way_takes_the_steps_of_the_chained_one() {
    let conversion = to_geocentric(wgs84());
    let both_ways = |source: CrsDef, operation: &SelectedOperationKind| {
        let first = pipeline(source, geographic(wgs84()), operation, FORWARD);
        let direct = pipeline(source, geocentric(wgs84()), operation, FORWARD);
        (listed(&first.steps), listed(&direct.steps))
    };
    // A horizontal operation ends with a restored height: the conversion follows.
    let op = SelectedOperationKind::Custom(helmert_operation(OperationDomain::Geographic2D, 1.0));
    let (mut first, direct) = both_ways(projected(clarke(), 1.0), &op);
    first.push(conversion.clone());
    assert_eq!(direct, first);
    // A spatial one ends with the conversion that this one undoes.
    let op = SelectedOperationKind::Custom(helmert_operation(OperationDomain::Geographic3D, 1.0));
    let (mut first, direct) = both_ways(geographic(clarke()), &op);
    assert_eq!(first.pop(), Some(to_geodetic(wgs84())));
    assert_eq!(direct, first);
    // From a geocentric system on the same datum nothing is left to do.
    let (first, direct) = both_ways(geocentric(wgs84()), &SelectedOperationKind::Identity);
    assert_eq!(first, vec![to_geodetic(wgs84())]);
    assert_eq!(direct, vec![]);
    // The second pipeline is the conversion alone.
    let identity = SelectedOperationKind::Identity;
    let second = pipeline(geographic(wgs84()), geocentric(wgs84()), &identity, FORWARD);
    assert_eq!(listed(&second.steps), vec![conversion]);
}
