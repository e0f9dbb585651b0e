//! Executing pipelines, one reply at a time.
use proj_pipeline::binary64::Binary64;
use proj_pipeline::coord::{Coord, Coord3D};
use proj_pipeline::crs::{
    CrsDef, Datum, GeocentricCrsDef, GeographicCrsDef, LinearUnit, ProjectedCrsDef, Projection,
    ProjectionMethod,
};
use proj_pipeline::ellipsoid::Ellipsoid;
use proj_pipeline::error::{Error, GridError};
use proj_pipeline::execute::{
    execute_pipeline_xy, execute_pipeline_xyz, execute_step, require_xy_pipeline_supported,
};
use proj_pipeline::numerics::{Halt, NumericRequest, Numerics};
use proj_pipeline::operation::{
    AffineRow, GeocentricAffineParams, GridHandle, GridKey, GridShiftDirection, HelmertParams,
};
use proj_pipeline::parallel::{should_parallelize, should_parallelize_over};
use proj_pipeline::pipeline::CompiledOperationPipeline;
use proj_pipeline::step::{CompiledStep, HeightStack, StepList};
use proj_pipeline::text::append_decimal;
use proj_pipeline::units::{PipelineSourceXyUnits, PipelineTargetXyUnits};
use proj_pipeline::validate::{
    validate_output_len, validate_pipeline_coord, validate_pipeline_coord3d,
    validate_vertical_ordinate,
};

fn bits(x: f64) -> Binary64 {
    Binary64 { bits: x.to_bits() }
}

fn at(x: f64, y: f64, z: f64) -> Coord3D {
    Coord3D::new(bits(x), bits(y), bits(z))
}

fn failed<T>(error: Error) -> Result<T, Halt> {
    Err(Halt::Failed(error))
}

fn not_finite<T>(context: &str) -> Result<T, Halt> {
    failed(Error::OutOfRange(format!("{context} must be finite")))
}

fn projection() -> Projection {
    Projection {
        method: ProjectionMethod { key: 3 },
        datum: Datum { ellipsoid: Ellipsoid::wgs84() },
    }
}

fn handle(key: u32) -> GridHandle {
    GridHandle { key: GridKey(key) }
}

fn shift(key: u32) -> NumericRequest {
    NumericRequest::GridShift {
        handle: handle(key),
        direction: GridShiftDirection::Forward,
        lon: bits(1.0),
        lat: bits(2.0),
    }
}

fn grid_list(ids: Vec<u32>, allow_null: bool) -> CompiledStep {
    CompiledStep::GridShiftList {
        handles: ids.into_iter().map(handle).collect(),
        allow_null,
        direction: GridShiftDirection::Forward,
    }
}

fn outside(detail: &str) -> Error {
    Error::Grid(GridError::OutsideCoverage(detail.to_string()))
}

fn pipeline(
    steps: Vec<CompiledStep>,
    source_xy_units: PipelineSourceXyUnits,
    target_xy_units: PipelineTargetXyUnits,
) -> CompiledOperationPipeline {
    CompiledOperationPipeline {
        steps: StepList::of(&steps),
        source_xy_units,
        target_xy_units,
        transforms_ellipsoidal_height: false,
    }
}

#[test]
fn planar_steps_keep_the_height() {
    let input = at(1.0, 2.0, 3.0);
    let mut numerics = Numerics::new();
    let forward = NumericRequest::ProjectionForward {
        projection: projection(),
        lon: bits(1.0),
        lat: bits(2.0),
    };
    let inverse = NumericRequest::ProjectionInverse {
        projection: projection(),
        x: bits(1.0),
        y: bits(2.0),
    };
    let step = CompiledStep::ProjectionForward { projection: projection() };
    assert_eq!(execute_step(&step, input, &numerics), Err(Halt::Pending(forward)));
    numerics.record(forward, Ok(at(10.0, 20.0, 99.0)));
    assert_eq!(execute_step(&step, input, &numerics), Ok(at(10.0, 20.0, 3.0)));
    let step = CompiledStep::ProjectionInverse { projection: projection() };
    assert_eq!(execute_step(&step, input, &numerics), Err(Halt::Pending(inverse)));
    numerics.record(inverse, Ok(at(-1.0, -2.0, 99.0)));
    assert_eq!(execute_step(&step, input, &numerics), Ok(at(-1.0, -2.0, 3.0)));
    let step =
        CompiledStep::GridShift { handle: handle(4), direction: GridShiftDirection::Forward };
    assert_eq!(execute_step(&step, input, &numerics), Err(Halt::Pending(shift(4))));
    numerics.record(shift(4), Ok(at(1.5, 2.5, 99.0)));
    assert_eq!(execute_step(&step, input, &numerics), Ok(at(1.5, 2.5, 3.0)));
}

#[test]
fn spatial_steps_take_the_whole_reply() {
    let zero = bits(0.0);
    let params = HelmertParams { dx: zero, dy: zero, dz: zero, rx: zero, ry: zero, rz: zero, ds: zero };
    let row = AffineRow { x: zero, y: zero, z: zero, constant: zero };
    let affine = GeocentricAffineParams { x: row, y: row, z: row };
    let ellipsoid = Ellipsoid::wgs84();
    let coord = at(1.0, 2.0, 3.0);
    let cases = vec![
        (
            CompiledStep::Helmert { params, inverse: true },
            NumericRequest::Helmert { params, inverse: true, coord },
        ),
        (
            CompiledStep::GeocentricAffine { params: affine, inverse: false },
            NumericRequest::GeocentricAffine { params: affine, inverse: false, coord },
        ),
        (
            CompiledStep::GeodeticToGeocentric { ellipsoid },
            NumericRequest::GeodeticToGeocentric { ellipsoid, coord },
        ),
        (
            CompiledStep::GeocentricToGeodetic { ellipsoid },
            NumericRequest::GeocentricToGeodetic { ellipsoid, coord },
        ),
    ];
    for (step, request) in cases {
        let mut numerics = Numerics::new();
        assert_eq!(execute_step(&step, coord, &numerics), Err(Halt::Pending(request)));
        numerics.record(request, Ok(at(4.0, 5.0, 6.0)));
        assert_eq!(execute_step(&step, coord, &numerics), Ok(at(4.0, 5.0, 6.0)));
        let error = Error::OutOfRange("no convergence".to_string());
        numerics.record(request, Err(error.clone()));
        assert_eq!(execute_step(&step, coord, &numerics), failed(error));
        numerics.record(request, Ok(at(4.0, f64::NAN, 6.0)));
        assert_eq!(execute_step(&step, coord, &numerics), not_finite("pipeline step output"));
    }
}

#[test]
fn passthrough_steps_need_a_stack() {
    let numerics = Numerics::new();
    for step in [CompiledStep::PushHeight, CompiledStep::PopHeight] {
        assert_eq!(
            execute_step(&step, at(0.0, 0.0, 0.0), &numerics),
            failed(Error::InvalidDefinition(
                "height passthrough steps must be executed with a stack".to_string()
            ))
        );
    }
}

#[test]
fn the_first_covering_grid_wins() {
    let input = at(1.0, 2.0, 3.0);
    let mut numerics = Numerics::new();
    let step = grid_list(vec![1, 2, 3], false);
    assert_eq!(execute_step(&step, input, &numerics), Err(Halt::Pending(shift(1))));
    numerics.record(shift(1), Err(outside("first")));
    assert_eq!(execute_step(&step, input, &numerics), Err(Halt::Pending(shift(2))));
    numerics.record(shift(2), Ok(at(1.25, 2.25, 0.0)));
    assert_eq!(execute_step(&step, input, &numerics), Ok(at(1.25, 2.25, 3.0)));
}

#[test]
fn uncovered_coordinates_fail_or_stay() {
    let input = at(1.0, 2.0, 3.0);
    let mut numerics = Numerics::new();
    numerics.record(shift(1), Err(outside("first")));
    numerics.record(shift(2), Err(outside("second")));
    assert_eq!(
        execute_step(&grid_list(vec![1, 2], false), input, &numerics),
        failed(outside("second"))
    );
    assert_eq!(execute_step(&grid_list(vec![1, 2], true), input, &numerics), Ok(input));
    assert_eq!(
        execute_step(&grid_list(vec![], false), input, &numerics),
        failed(outside("no datum grid covered coordinate"))
    );
    let damaged = Error::Grid(GridError::Malformed("bad node".to_string()));
    numerics.record(shift(1), Err(damaged.clone()));
    assert_eq!(
        execute_step(&grid_list(vec![1, 2], true), input, &numerics),
        failed(damaged)
    );
    let nowhere = at(f64::INFINITY, 2.0, 3.0);
    assert_eq!(
        execute_step(&grid_list(vec![], true), nowhere, &numerics),
        not_finite("pipeline step output")
    );
}

#[test]
fn normalize_converts_and_checks() {
    let coord = at(10.0, 20.0, 30.0);
    let mut numerics = Numerics::new();
    let units = PipelineSourceXyUnits::GeographicDegrees;
    let radians = NumericRequest::ToRadians { x: coord.x, y: coord.y };
    assert_eq!(units.normalize(coord, &numerics), Err(Halt::Pending(radians)));
    numerics.record(radians, Ok(at(0.1, 0.2, 0.0)));
    let check = NumericRequest::ValidateLonLat { lon: bits(0.1), lat: bits(0.2) };
    assert_eq!(units.normalize(coord, &numerics), Err(Halt::Pending(check)));
    numerics.record(check, Ok(at(0.0, 0.0, 0.0)));
    assert_eq!(units.normalize(coord, &numerics), Ok(at(0.1, 0.2, 30.0)));
    let error = Error::OutOfRange("latitude".to_string());
    numerics.record(check, Err(error.clone()));
    assert_eq!(units.normalize(coord, &numerics), failed(error));

    let units = PipelineSourceXyUnits::GeocentricMeters;
    assert_eq!(units.normalize(coord, &numerics), Ok(coord));
    assert_eq!(
        units.normalize(at(1.0, 2.0, f64::INFINITY), &numerics),
        not_finite("geocentric input coordinate")
    );
}

#[test]
fn normalize_checks_projected_coordinates_on_both_sides() {
    let coord = at(10.0, 20.0, 30.0);
    let mut numerics = Numerics::new();
    let before = NumericRequest::ValidateProjected { x: coord.x, y: coord.y };
    let metres = PipelineSourceXyUnits::ProjectedMeters;
    assert_eq!(metres.normalize(coord, &numerics), Err(Halt::Pending(before)));
    let unit = LinearUnit { to_meter: bits(0.5) };
    let native = PipelineSourceXyUnits::ProjectedNativeToMeters(unit);
    assert_eq!(native.normalize(coord, &numerics), Err(Halt::Pending(before)));
    numerics.record(before, Ok(coord));
    assert_eq!(metres.normalize(coord, &numerics), Ok(coord));
    let convert = NumericRequest::ToMeters { unit, x: coord.x, y: coord.y };
    assert_eq!(native.normalize(coord, &numerics), Err(Halt::Pending(convert)));
    numerics.record(convert, Ok(at(5.0, 10.0, 0.0)));
    let after = NumericRequest::ValidateProjected { x: bits(5.0), y: bits(10.0) };
    assert_eq!(native.normalize(coord, &numerics), Err(Halt::Pending(after)));
    numerics.record(after, Ok(coord));
    assert_eq!(native.normalize(coord, &numerics), Ok(at(5.0, 10.0, 30.0)));
}

#[test]
fn denormalize_converts_x_and_y() {
    let coord = at(0.1, 0.2, 30.0);
    let plane = |x: f64, y: f64| Coord::new(bits(x), bits(y));
    let mut numerics = Numerics::new();
    for units in [PipelineTargetXyUnits::GeocentricMeters, PipelineTargetXyUnits::ProjectedMeters] {
        assert_eq!(units.denormalize(coord, &numerics), Ok(plane(0.1, 0.2)));
    }
    let degrees = NumericRequest::ToDegrees { x: coord.x, y: coord.y };
    let units = PipelineTargetXyUnits::GeographicDegrees;
    assert_eq!(units.denormalize(coord, &numerics), Err(Halt::Pending(degrees)));
    numerics.record(degrees, Ok(at(5.7, 11.5, 0.0)));
    assert_eq!(units.denormalize(coord, &numerics), Ok(plane(5.7, 11.5)));
    let unit = LinearUnit { to_meter: bits(0.5) };
    let native = NumericRequest::FromMeters { unit, x: coord.x, y: coord.y };
    let units = PipelineTargetXyUnits::ProjectedMetersToNative(unit);
    assert_eq!(units.denormalize(coord, &numerics), Err(Halt::Pending(native)));
    numerics.record(native, Ok(at(0.2, 0.4, 0.0)));
    assert_eq!(units.denormalize(coord, &numerics), Ok(plane(0.2, 0.4)));
}

#[test]
fn a_pipeline_without_steps_hands_the_coordinate_back() {
    let input = at(10.0, 20.0, 30.0);
    let empty = pipeline(
        vec![],
        PipelineSourceXyUnits::ProjectedMeters,
        PipelineTargetXyUnits::ProjectedMetersToNative(LinearUnit { to_meter: bits(2.0) }),
    );
    let mut numerics = Numerics::new();
    let check = NumericRequest::ValidateProjected { x: input.x, y: input.y };
    assert_eq!(execute_pipeline_xyz(&empty, input, &numerics), Err(Halt::Pending(check)));
    numerics.record(check, Ok(input));
    assert_eq!(execute_pipeline_xyz(&empty, input, &numerics), Ok(input));
    assert_eq!(
        execute_pipeline_xy(&empty, input, &numerics),
        Ok(Coord::new(input.x, input.y))
    );
    // The planar interface does not look at the height.
    let high = at(10.0, 20.0, f64::INFINITY);
    assert_eq!(
        execute_pipeline_xyz(&empty, high, &numerics),
        not_finite("pipeline final output")
    );
    assert!(execute_pipeline_xy(&empty, high, &numerics).is_ok());
}

#[test]
fn planar_and_spatial_interfaces_agree() {
    let input = at(1.0, 2.0, 3.0);
    let built = pipeline(
        vec![
            CompiledStep::PushHeight,
            CompiledStep::ProjectionForward { projection: projection() },
            CompiledStep::PopHeight,
        ],
        PipelineSourceXyUnits::ProjectedMeters,
        PipelineTargetXyUnits::ProjectedMeters,
    );
    let mut numerics = Numerics::new();
    numerics.record(
        NumericRequest::ValidateProjected { x: input.x, y: input.y },
        Ok(input),
    );
    let forward = NumericRequest::ProjectionForward {
        projection: projection(),
        lon: input.x,
        lat: input.y,
    };
    assert_eq!(execute_pipeline_xyz(&built, input, &numerics), Err(Halt::Pending(forward)));
    assert_eq!(execute_pipeline_xy(&built, input, &numerics), Err(Halt::Pending(forward)));
    numerics.record(forward, Ok(at(7.0, 8.0, 9.0)));
    assert_eq!(execute_pipeline_xyz(&built, input, &numerics), Ok(at(7.0, 8.0, 3.0)));
    assert_eq!(
        execute_pipeline_xy(&built, input, &numerics),
        Ok(Coord::new(bits(7.0), bits(8.0)))
    );
    // Replies to other requests change nothing.
    numerics.record(shift(1), Ok(at(0.0, 0.0, 0.0)));
    assert_eq!(execute_pipeline_xyz(&built, input, &numerics), Ok(at(7.0, 8.0, 3.0)));
}

#[test]
fn output_must_be_finite() {
    let input = at(1.0, 2.0, 3.0);
    let built = pipeline(
        vec![CompiledStep::PushHeight, CompiledStep::PopHeight],
        PipelineSourceXyUnits::ProjectedMeters,
        PipelineTargetXyUnits::GeographicDegrees,
    );
    let mut numerics = Numerics::new();
    numerics.record(
        NumericRequest::ValidateProjected { x: input.x, y: input.y },
        Ok(input),
    );
    numerics.record(
        NumericRequest::ToDegrees { x: input.x, y: input.y },
        Ok(at(1.0, f64::NEG_INFINITY, 0.0)),
    );
    assert_eq!(
        execute_pipeline_xyz(&built, input, &numerics),
        not_finite("pipeline final output")
    );
    assert_eq!(
        execute_pipeline_xy(&built, input, &numerics),
        not_finite("pipeline final output")
    );
}

#[test]
fn planar_interface_refuses_either_geocentric_endpoint() {
    let refused = Error::InvalidDefinition(
        "geocentric (ECEF) transforms require convert_3d; the 2D convert API cannot represent Z"
            .to_string(),
    );
    let source = pipeline(
        vec![],
        PipelineSourceXyUnits::GeocentricMeters,
        PipelineTargetXyUnits::ProjectedMeters,
    );
    let target = pipeline(
        vec![],
        PipelineSourceXyUnits::ProjectedMeters,
        PipelineTargetXyUnits::GeocentricMeters,
    );
    let neither = pipeline(
        vec![],
        PipelineSourceXyUnits::ProjectedMeters,
        PipelineTargetXyUnits::ProjectedMeters,
    );
    assert_eq!(require_xy_pipeline_supported(&source), Err(refused.clone()));
    assert_eq!(require_xy_pipeline_supported(&target), Err(refused.clone()));
    assert_eq!(require_xy_pipeline_supported(&neither), Ok(()));
    assert_eq!(
        execute_pipeline_xy(&source, at(0.0, 0.0, 0.0), &Numerics::new()),
        failed(refused)
    );
}

#[test]
fn a_later_reply_replaces_an_earlier_one() {
    let mut numerics = Numerics::new();
    numerics.record(shift(1), Ok(at(1.0, 1.0, 1.0)));
    numerics.record(shift(2), Ok(at(2.0, 2.0, 2.0)));
    numerics.record(shift(1), Ok(at(3.0, 3.0, 3.0)));
    assert_eq!(numerics.compute(shift(1)), Ok(at(3.0, 3.0, 3.0)));
    assert_eq!(numerics.compute(shift(2)), Ok(at(2.0, 2.0, 2.0)));
    assert_eq!(numerics.compute(shift(3)), Err(Halt::Pending(shift(3))));
}

#[test]
fn heights_come_back_in_reverse_order() {
    let mut stack = HeightStack::new();
    assert!(stack.is_empty());
    for z in [1.0, 2.0, 3.0, 4.0, 5.0] {
        stack.push(bits(z));
    }
    assert!(!stack.is_empty());
    for z in [5.0, 4.0, 3.0, 2.0, 1.0] {
        assert_eq!(stack.pop(), Some(bits(z)));
    }
    assert_eq!(stack.pop(), None);
    assert!(stack.is_empty());
}

#[test]
fn lengths_must_agree() {
    assert_eq!(validate_output_len(3, 3), Ok(()));
    assert_eq!(
        validate_output_len(1205, 0),
        Err(Error::OutOfRange(
            "output coordinate slice length 0 does not match input length 1205".to_string()
        ))
    );
    assert_eq!(
        validate_output_len(0, usize::MAX),
        Err(Error::OutOfRange(format!(
            "output coordinate slice length {} does not match input length 0",
            usize::MAX
        )))
    );
}

#[test]
fn decimal_digits_are_those_of_std() {
    for n in [0, 1, 9, 10, 11, 99, 100, 1_000_007, 9_876_543_210, u64::MAX] {
        let mut text = String::from("n = ");
        append_decimal(&mut text, n);
        assert_eq!(text, format!("n = {n}"));
    }
}

#[test]
fn ordinates_must_be_finite() {
    let ok = [0.0, -0.0, 1.5, -1e300, f64::MAX, f64::MIN, 5e-324];
    let bad = [f64::NAN, -f64::NAN, f64::INFINITY, f64::NEG_INFINITY];
    let error = Err(Error::OutOfRange("here must be finite".to_string()));
    for x in ok {
        assert!(bits(x).is_finite());
        assert_eq!(validate_pipeline_coord("here", Coord::new(bits(x), bits(1.0))), Ok(()));
        assert_eq!(validate_pipeline_coord3d("here", at(1.0, x, x)), Ok(()));
        assert_eq!(validate_vertical_ordinate(bits(x)), Ok(()));
    }
    for x in bad {
        assert!(!bits(x).is_finite());
        assert_eq!(validate_pipeline_coord("here", Coord::new(bits(x), bits(1.0))), error);
        assert_eq!(validate_pipeline_coord("here", Coord::new(bits(1.0), bits(x))), error);
        assert_eq!(validate_pipeline_coord3d("here", at(x, 1.0, 1.0)), error);
        assert_eq!(validate_pipeline_coord3d("here", at(1.0, x, 1.0)), error);
        assert_eq!(validate_pipeline_coord3d("here", at(1.0, 1.0, x)), error);
        assert_eq!(
            validate_vertical_ordinate(bits(x)),
            Err(Error::OutOfRange("vertical input coordinate must be finite".to_string()))
        );
    }
    assert!(bits(1.0).is_one());
    assert!(!bits(-1.0).is_one());
}

#[test]
fn batches_are_spread_by_length_and_threads() {
    assert!(!should_parallelize_over(0, 1));
    assert!(!should_parallelize_over(16_383, 1));
    assert!(should_parallelize_over(16_384, 0));
    assert!(should_parallelize_over(16_384, 4));
    assert!(!should_parallelize_over(16_384, 5));
    assert!(should_parallelize_over(20_480, 5));
    assert!(!should_parallelize_over(usize::MAX - 1, usize::MAX));
    assert!(should_parallelize_over(usize::MAX, usize::MAX));
}

#[test]
fn batches_are_spread_over_the_current_pool() {
    let in_pool = |threads: usize, len: usize| {
        rayon::ThreadPoolBuilder::new()
            .num_threads(threads)
            .build()
            .unwrap()
            .install(|| should_parallelize(len))
    };
    assert!(in_pool(4, 16_384));
    assert!(!in_pool(5, 16_384));
    assert!(in_pool(5, 20_480));
    assert!(!in_pool(1, 16_383));
    assert!(!in_pool(2, 0));
}

#[test]
fn way_back_returns_where_every_step_can_be_undone() {
    let unit = LinearUnit { to_meter: bits(2.0) };
    let there = pipeline(
        vec![CompiledStep::ProjectionInverse { projection: projection() }, grid_list(vec![1], true)],
        PipelineSourceXyUnits::ProjectedMeters,
        PipelineTargetXyUnits::ProjectedMetersToNative(unit),
    );
    let back = pipeline(
        vec![
            CompiledStep::GridShiftList {
                handles: vec![handle(1)],
                allow_null: true,
                direction: GridShiftDirection::Reverse,
            },
            CompiledStep::ProjectionForward { projection: projection() },
        ],
        PipelineSourceXyUnits::ProjectedNativeToMeters(unit),
        PipelineTargetXyUnits::ProjectedMeters,
    );
    // A projection that doubles, and a grid that adds a half.
    let work = |request: NumericRequest| {
        let num = |x: Binary64| f64::from_bits(x.bits);
        let flat = |x: f64, y: f64| Ok::<Coord3D, Error>(at(x, y, 0.0));
        match request {
            NumericRequest::ProjectionForward { lon, lat, .. } => flat(num(lon) * 2.0, num(lat) * 2.0),
            NumericRequest::ProjectionInverse { x, y, .. } => flat(num(x) / 2.0, num(y) / 2.0),
            NumericRequest::GridShift { direction: GridShiftDirection::Forward, lon, lat, .. } => {
                flat(num(lon) + 0.5, num(lat) + 0.5)
            }
            NumericRequest::GridShift { lon, lat, .. } => flat(num(lon) - 0.5, num(lat) - 0.5),
            NumericRequest::ToMeters { x, y, .. } => flat(num(x) * 2.0, num(y) * 2.0),
            NumericRequest::FromMeters { x, y, .. } => flat(num(x) / 2.0, num(y) / 2.0),
            NumericRequest::ValidateProjected { x, y } => flat(num(x), num(y)),
            other => panic!("not needed here: {other:?}"),
        }
    };
    let mut numerics = Numerics::new();
    let mut run = |built: &CompiledOperationPipeline, c: Coord3D| {
        let mut replies: usize = 0;
        loop {
            match execute_pipeline_xyz(built, c, &numerics) {
                Err(Halt::Pending(request)) => numerics.record(request, work(request)),
                Err(Halt::Failed(error)) => panic!("{error:?}"),
                Ok(output) => return (output, replies),
            }
            replies += 1;
        }
    };
    let from = at(6.0, 8.0, 1.5);
    let (to, replies) = run(&there, from);
    assert_eq!(to, at(1.75, 2.25, 1.5));
    // One check on the way in, one reply for each step, one conversion on the
    // way out.
    assert_eq!(replies, 4);
    assert_eq!(run(&back, to).0, from);
}

#[test]
fn longer_batches_and_smaller_pools_are_spread_too() {
    assert!(should_parallelize_over(40_960, 10));
    assert!(should_parallelize_over(50_000, 10));
    assert!(should_parallelize_over(40_960, 9));
    assert!(!should_parallelize_over(40_959, 10));
}

#[test]
fn planar_interface_fails_as_the_spatial_one_does() {
    let input = at(1.0, 2.0, 3.0);
    let built = pipeline(
        vec![grid_list(vec![1], false)],
        PipelineSourceXyUnits::ProjectedMeters,
        PipelineTargetXyUnits::ProjectedMeters,
    );
    let check = NumericRequest::ValidateProjected { x: input.x, y: input.y };
    let far = Error::OutOfRange("too far".to_string());
    let outcomes = [
        (vec![], Err(Halt::Pending(check))),
        (vec![(check, Err(far.clone()))], failed(far)),
        (vec![(check, Ok(input))], Err(Halt::Pending(shift(1)))),
        (vec![(check, Ok(input)), (shift(1), Err(outside("off")))], failed(outside("off"))),
    ];
    for (replies, expected) in outcomes {
        let mut numerics = Numerics::new();
        for (request, reply) in replies {
            numerics.record(request, reply);
        }
        assert_eq!(execute_pipeline_xyz(&built, input, &numerics), expected);
        let planar = execute_pipeline_xy(&built, input, &numerics);
        assert_eq!(planar, expected.map(|coord| Coord::new(coord.x, coord.y)));
    }
}

#[test]
fn each_reply_takes_the_planar_interface_further() {
    let input = at(1.0, 2.0, 3.0);
    let built = pipeline(
        vec![grid_list(vec![1, 2], false)],
        PipelineSourceXyUnits::ProjectedMeters,
        PipelineTargetXyUnits::GeographicDegrees,
    );
    let replies = vec![
        (NumericRequest::ValidateProjected { x: input.x, y: input.y }, Ok(input)),
        (shift(1), Err(outside("first"))),
        (shift(2), Ok(at(4.0, 5.0, 0.0))),
        (NumericRequest::ToDegrees { x: bits(4.0), y: bits(5.0) }, Ok(at(6.0, 7.0, 0.0))),
    ];
    let mut numerics = Numerics::new();
    for (request, reply) in replies {
        assert_eq!(execute_pipeline_xy(&built, input, &numerics), Err(Halt::Pending(request)));
        numerics.record(request, reply);
    }
    let out = execute_pipeline_xy(&built, input, &numerics);
    assert_eq!(out, Ok(Coord::new(bits(6.0), bits(7.0))));
}

#[test]
fn adapters_of_a_system_undo_each_other() {
    let num = |x: Binary64| f64::from_bits(x.bits);
    let flat = |x: f64, y: f64| Ok::<Coord3D, Error>(at(x, y, 0.0));
    let work = |request: NumericRequest| match request {
        NumericRequest::ToRadians { x, y } => flat(num(x).to_radians(), num(y).to_radians()),
        NumericRequest::ToDegrees { x, y } => flat(num(x).to_degrees(), num(y).to_degrees()),
        NumericRequest::ToMeters { unit, x, y } => {
            flat(num(x) * num(unit.to_meter), num(y) * num(unit.to_meter))
        }
        NumericRequest::FromMeters { unit, x, y } => {
            flat(num(x) / num(unit.to_meter), num(y) / num(unit.to_meter))
        }
        _ => flat(0.0, 0.0),
    };
    let datum = Datum { ellipsoid: Ellipsoid::wgs84() };
    let projected = |to_meter: f64| {
        CrsDef::Projected(ProjectedCrsDef {
            datum,
            method: ProjectionMethod { key: 1 },
            linear_unit: LinearUnit { to_meter: bits(to_meter) },
        })
    };
    let systems = [
        (CrsDef::Geocentric(GeocentricCrsDef { datum }), true),
        (projected(1.0), true),
        (projected(1200.0 / 3937.0), false),
        (CrsDef::Geographic(GeographicCrsDef { datum }), false),
    ];
    for (crs, exact) in systems {
        for i in 0..1000 {
            let (x, y) = (-179.9 + 0.35 * f64::from(i), 89.9 - 0.17 * f64::from(i));
            let c = at(x, y, 12.5);
            let mut numerics = Numerics::new();
            let coord = loop {
                match PipelineSourceXyUnits::compile(&crs).normalize(c, &numerics) {
                    Err(Halt::Pending(request)) => numerics.record(request, work(request)),
                    other => break other.unwrap(),
                }
            };
            let out = loop {
                match PipelineTargetXyUnits::compile(&crs).denormalize(coord, &numerics) {
                    Err(Halt::Pending(request)) => numerics.record(request, work(request)),
                    other => break other.unwrap(),
                }
            };
            if exact {
                assert_eq!(out, Coord::new(c.x, c.y));
            }
            assert!((num(out.x) - x).abs() < 1e-12 * x.abs());
            assert!((num(out.y) - y).abs() < 1e-12 * y.abs());
            assert_eq!(coord.z, c.z);
        }
    }
}

#[test]
fn direct_way_agrees_with_the_chained_one() {
    let conversion = || CompiledStep::GeodeticToGeocentric { ellipsoid: Ellipsoid::wgs84() };
    let first = pipeline(
        vec![CompiledStep::ProjectionInverse { projection: projection() }],
        PipelineSourceXyUnits::ProjectedMeters,
        PipelineTargetXyUnits::GeographicDegrees,
    );
    let second = pipeline(
        vec![conversion()],
        PipelineSourceXyUnits::GeographicDegrees,
        PipelineTargetXyUnits::GeocentricMeters,
    );
    let direct = pipeline(
        vec![CompiledStep::ProjectionInverse { projection: projection() }, conversion()],
        PipelineSourceXyUnits::ProjectedMeters,
        PipelineTargetXyUnits::GeocentricMeters,
    );
    let from = at(6.0, 8.0, 1.5);
    let mut numerics = Numerics::new();
    let plain = |x: f64, y: f64| Ok(at(x, y, 0.0));
    numerics.record(NumericRequest::ValidateProjected { x: from.x, y: from.y }, Ok(from));
    numerics.record(
        NumericRequest::ProjectionInverse { projection: projection(), x: from.x, y: from.y },
        plain(0.5, 0.25),
    );
    numerics.record(NumericRequest::ToDegrees { x: bits(0.5), y: bits(0.25) }, plain(30.0, 15.0));
    numerics.record(NumericRequest::ToRadians { x: bits(30.0), y: bits(15.0) }, plain(0.5, 0.25));
    numerics.record(NumericRequest::ValidateLonLat { lon: bits(0.5), lat: bits(0.25) }, Ok(from));
    let between = execute_pipeline_xyz(&first, from, &numerics).unwrap();
    assert_eq!(between, at(30.0, 15.0, 1.5));
    // Both wait for the same conversion, and come to the same.
    let request = NumericRequest::GeodeticToGeocentric {
        ellipsoid: Ellipsoid::wgs84(),
        coord: at(0.5, 0.25, 1.5),
    };
    assert_eq!(execute_pipeline_xyz(&second, between, &numerics), Err(Halt::Pending(request)));
    assert_eq!(execute_pipeline_xyz(&direct, from, &numerics), Err(Halt::Pending(request)));
    numerics.record(request, Ok(at(70.0, 80.0, 90.0)));
    assert_eq!(execute_pipeline_xyz(&second, between, &numerics), Ok(at(70.0, 80.0, 90.0)));
    assert_eq!(execute_pipeline_xyz(&direct, from, &numerics), Ok(at(70.0, 80.0, 90.0)));
}
