//! Redundant framing and height passthroughs.
use proj_pipeline::binary64::Binary64;
use proj_pipeline::coord::Coord3D;
use proj_pipeline::ellipsoid::{ellipsoids_match, Ellipsoid};
use proj_pipeline::error::Error;
use proj_pipeline::execute::execute_steps;
use proj_pipeline::framing::{cancel_redundant_geocentric_framing, geocentric_framing_cancels};
use proj_pipeline::height::steps_transform_ellipsoidal_height;
use proj_pipeline::numerics::{Halt, NumericRequest, Numerics};
use proj_pipeline::operation::HelmertParams;
use proj_pipeline::step::{CompiledStep, StepList};

fn bits(x: f64) -> Binary64 {
    Binary64 { bits: x.to_bits() }
}

fn num(x: Binary64) -> f64 {
    f64::from_bits(x.bits)
}

fn at(x: f64, y: f64, z: f64) -> Coord3D {
    Coord3D::new(bits(x), bits(y), bits(z))
}

fn to_geocentric(ellipsoid: Ellipsoid) -> CompiledStep {
    CompiledStep::GeodeticToGeocentric { ellipsoid }
}

fn to_geodetic(ellipsoid: Ellipsoid) -> CompiledStep {
    CompiledStep::GeocentricToGeodetic { ellipsoid }
}

fn helmert() -> CompiledStep {
    let zero = bits(0.0);
    CompiledStep::Helmert {
        params: HelmertParams {
            dx: zero,
            dy: zero,
            dz: zero,
            rx: zero,
            ry: zero,
            rz: zero,
            ds: zero,
        },
        inverse: false,
    }
}

fn listed(steps: &StepList) -> Vec<CompiledStep> {
    (0..steps.len()).map(|i| steps.at(i).clone()).collect()
}

fn settle(steps: Vec<CompiledStep>) -> Vec<CompiledStep> {
    let mut list = StepList::of(&steps);
    cancel_redundant_geocentric_framing(&mut list);
    listed(&list)
}

/// Conversions on the sphere of the ellipsoid's semi-major axis, and a Helmert
/// step that lifts X by a metre.
fn work(request: NumericRequest) -> Result<Coord3D, Error> {
    match request {
        NumericRequest::GeodeticToGeocentric { ellipsoid, coord } => {
            let r = num(ellipsoid.semi_major_axis) + num(coord.z);
            let (lon, lat) = (num(coord.x), num(coord.y));
            Ok(at(r * lat.cos() * lon.cos(), r * lat.cos() * lon.sin(), r * lat.sin()))
        }
        NumericRequest::GeocentricToGeodetic { ellipsoid, coord } => {
            let (x, y, z) = (num(coord.x), num(coord.y), num(coord.z));
            let r = (x * x + y * y + z * z).sqrt();
            Ok(at(y.atan2(x), (z / r).asin(), r - num(ellipsoid.semi_major_axis)))
        }
        NumericRequest::Helmert { coord, .. } => {
            Ok(at(num(coord.x) + 1.0, num(coord.y), num(coord.z)))
        }
        other => panic!("not needed here: {other:?}"),
    }
}

fn run(steps: &StepList, input: Coord3D) -> Result<Coord3D, Error> {
    let mut numerics = Numerics::new();
    loop {
        match execute_steps(steps, input, &numerics) {
            Ok(output) => return Ok(output),
            Err(Halt::Failed(error)) => return Err(error),
            Err(Halt::Pending(request)) => numerics.record(request, work(request)),
        }
    }
}

#[test]
fn cancel_adjacent_same_ellipsoid_cart_pair() {
    let mut steps = StepList::new();
    steps.push(CompiledStep::GeocentricToGeodetic {
        ellipsoid: Ellipsoid::wgs84(),
    });
    steps.push(CompiledStep::GeodeticToGeocentric {
        ellipsoid: Ellipsoid::wgs84(),
    });
    cancel_redundant_geocentric_framing(&mut steps);
    assert!(steps.is_empty());
}

#[test]
fn keep_cart_pair_on_different_ellipsoids() {
    let mut steps = StepList::new();
    steps.push(CompiledStep::GeodeticToGeocentric {
        ellipsoid: Ellipsoid::clarke1866(),
    });
    steps.push(CompiledStep::GeocentricToGeodetic {
        ellipsoid: Ellipsoid::wgs84(),
    });
    cancel_redundant_geocentric_framing(&mut steps);
    assert_eq!(steps.len(), 2);
}

#[test]
fn push_pop_restores_height_and_does_not_count_as_transforming_it() {
    let mut steps = StepList::new();
    steps.push(CompiledStep::PushHeight);
    steps.push(CompiledStep::GeodeticToGeocentric {
        ellipsoid: Ellipsoid::wgs84(),
    });
    steps.push(CompiledStep::GeocentricToGeodetic {
        ellipsoid: Ellipsoid::wgs84(),
    });
    steps.push(CompiledStep::PopHeight);
    assert!(!steps_transform_ellipsoidal_height(&steps));

    let input = at(0.1, 0.9, 43.0);
    let output = run(&steps, input).unwrap();
    assert!((num(output.z) - 43.0).abs() < 1e-12);
}

#[test]
fn unwrapped_cart_counts_as_transforming_height() {
    let mut steps = StepList::new();
    steps.push(CompiledStep::GeodeticToGeocentric {
        ellipsoid: Ellipsoid::wgs84(),
    });
    assert!(steps_transform_ellipsoidal_height(&steps));
}

#[test]
fn passthrough_restores_what_the_steps_inside_changed() {
    let wgs84 = Ellipsoid::wgs84();
    let inner = vec![to_geocentric(wgs84), helmert(), to_geodetic(wgs84)];
    let bare = run(&StepList::of(&inner), at(0.0, 0.0, 43.0)).unwrap();
    assert!((num(bare.z) - 44.0).abs() < 1e-6);

    let mut wrapped = vec![CompiledStep::PushHeight];
    wrapped.extend(inner);
    wrapped.push(CompiledStep::PopHeight);
    let kept = run(&StepList::of(&wrapped), at(0.0, 0.0, 43.0)).unwrap();
    assert_eq!(kept, at(num(bare.x), num(bare.y), 43.0));
}

#[test]
fn nested_pairs_take_more_than_one_sweep() {
    let wgs84 = Ellipsoid::wgs84();
    let nested = vec![
        to_geocentric(wgs84),
        to_geocentric(wgs84),
        to_geodetic(wgs84),
        to_geodetic(wgs84),
    ];
    assert!(settle(nested).is_empty());
}

#[test]
fn a_sweep_goes_on_behind_the_pair_that_it_dropped() {
    // Behind the inner pair the sweep meets the last two steps first, so that
    // the step on the first ellipsoid is what remains.
    let near = |delta: f64| Ellipsoid {
        semi_major_axis: bits(6_378_137.0 + delta),
        flattening: Ellipsoid::wgs84().flattening,
    };
    let steps = vec![
        to_geocentric(near(0.0)),
        to_geocentric(near(0.0)),
        to_geodetic(near(0.0)),
        to_geodetic(near(0.0)),
        to_geocentric(near(4e-7)),
    ];
    assert_eq!(settle(steps), vec![to_geocentric(near(0.0))]);
}

#[test]
fn a_working_step_between_two_conversions_keeps_them() {
    let wgs84 = Ellipsoid::wgs84();
    let steps = vec![to_geocentric(wgs84), helmert(), to_geodetic(wgs84)];
    assert_eq!(settle(steps.clone()), steps);
}

#[test]
fn only_opposite_conversions_cancel() {
    let wgs84 = Ellipsoid::wgs84();
    assert!(geocentric_framing_cancels(&to_geocentric(wgs84), &to_geodetic(wgs84)));
    assert!(geocentric_framing_cancels(&to_geodetic(wgs84), &to_geocentric(wgs84)));
    assert!(!geocentric_framing_cancels(&to_geodetic(wgs84), &to_geodetic(wgs84)));
    assert!(!geocentric_framing_cancels(&to_geodetic(wgs84), &helmert()));
}

#[test]
fn unbalanced_passthroughs_are_reported() {
    let popped = StepList::of(&vec![CompiledStep::PopHeight]);
    assert_eq!(
        run(&popped, at(0.0, 0.0, 1.0)),
        Err(Error::InvalidDefinition(
            "2D height passthrough popped with an empty stack".to_string()
        ))
    );
    let pushed = StepList::of(&vec![CompiledStep::PushHeight]);
    assert_eq!(
        run(&pushed, at(0.0, 0.0, 1.0)),
        Err(Error::InvalidDefinition(
            "2D height passthrough left values on the stack".to_string()
        ))
    );
}

#[test]
fn passthroughs_nest() {
    let steps = StepList::of(&vec![
        CompiledStep::PushHeight,
        CompiledStep::PushHeight,
        CompiledStep::PushHeight,
        helmert(),
        CompiledStep::PopHeight,
        CompiledStep::PopHeight,
        CompiledStep::PopHeight,
    ]);
    assert!(!steps_transform_ellipsoidal_height(&steps));
    assert_eq!(run(&steps, at(2.0, 3.0, 4.0)), Ok(at(3.0, 3.0, 4.0)));
}

#[test]
fn a_step_behind_a_closed_passthrough_counts() {
    let steps = StepList::of(&vec![
        CompiledStep::PushHeight,
        CompiledStep::PopHeight,
        CompiledStep::PopHeight,
        helmert(),
    ]);
    assert!(steps_transform_ellipsoidal_height(&steps));
}

#[test]
fn lists_longer_than_the_inline_capacity_keep_their_order() {
    let wgs84 = Ellipsoid::wgs84();
    let clarke = Ellipsoid::clarke1866();
    let mut list = StepList::new();
    for i in 0..20 {
        list.push(if i % 3 == 0 { to_geocentric(wgs84) } else { to_geocentric(clarke) });
    }
    assert_eq!(list.len(), 20);
    let taken = list.remove(3);
    assert_eq!(taken, to_geocentric(wgs84));
    assert_eq!(list.len(), 19);
    assert_eq!(*list.at(3), to_geocentric(clarke));
    assert_eq!(*list.at(5), to_geocentric(wgs84));
    assert_eq!(listed(&list.clone()), listed(&list));
}

/// The comparison on `f64`.
fn matches_on_f64(a: Ellipsoid, b: Ellipsoid) -> bool {
    (num(a.semi_major_axis) - num(b.semi_major_axis)).abs() < 1e-6
        && (num(a.flattening) - num(b.flattening)).abs() < 1e-12
}

#[test]
fn ellipsoids_match_as_rounded_differences_do() {
    let mut axes = vec![
        0.0,
        -0.0,
        1e-6,
        -1e-6,
        5e-7,
        -5e-7,
        5e-324,
        1e-300,
        1.0,
        1.0 + 1e-6,
        6_378_137.0,
        6_378_137.0 + 1e-6,
        6_378_137.000_001,
        6_378_206.4,
        1e300,
        f64::MAX,
        f64::MIN,
        f64::INFINITY,
        f64::NEG_INFINITY,
        f64::NAN,
    ];
    for base in [6_378_137.0f64, 1e-6, 0.5, 1e-7, 2f64.powi(40)] {
        for step in 0..8u64 {
            axes.push(f64::from_bits(base.to_bits() + step));
            axes.push(f64::from_bits(base.to_bits() - step));
            axes.push(base + step as f64 * 2.5e-7);
        }
    }
    let flat = Ellipsoid::wgs84().flattening;
    for a in &axes {
        for b in &axes {
            let left = Ellipsoid { semi_major_axis: bits(*a), flattening: flat };
            let right = Ellipsoid { semi_major_axis: bits(*b), flattening: flat };
            assert_eq!(ellipsoids_match(left, right), matches_on_f64(left, right), "{a} {b}");
        }
    }
    let mut flattenings = vec![0.0, -0.0, 1e-12, -1e-12, 5e-13, 1.0, f64::NAN, f64::INFINITY];
    for base in [1.0 / 298.257_223_563f64, 1e-12, 1e-13] {
        for step in 0..8u64 {
            flattenings.push(f64::from_bits(base.to_bits() + step));
            flattenings.push(f64::from_bits(base.to_bits() - step));
            flattenings.push(base + step as f64 * 2.5e-13);
        }
    }
    let axis = Ellipsoid::wgs84().semi_major_axis;
    for a in &flattenings {
        for b in &flattenings {
            let left = Ellipsoid { semi_major_axis: axis, flattening: bits(*a) };
            let right = Ellipsoid { semi_major_axis: axis, flattening: bits(*b) };
            assert_eq!(ellipsoids_match(left, right), matches_on_f64(left, right), "{a} {b}");
        }
    }
}

#[test]
fn ellipsoids_match_near_the_edge_of_the_tolerance() {
    // Pairs whose true difference lies within a few units of 1e-6.
    let mut state: u64 = 0x1234_5678_9ABC_DEF1;
    for _ in 0..20_000 {
        state = state.wrapping_mul(6364136223846793005).wrapping_add(1442695040888963407);
        let a = f64::from_bits(0x3EA0_0000_0000_0000 + (state >> 11) % (0x30u64 << 52));
        let b = a + 1e-6;
        for delta in 0..5u64 {
            let near = f64::from_bits(b.to_bits() + delta - 2);
            for (x, y) in [(a, near), (near, a), (-a, -near), (a - 1e-6, a)] {
                let left = Ellipsoid { semi_major_axis: bits(x), flattening: bits(0.0) };
                let right = Ellipsoid { semi_major_axis: bits(y), flattening: bits(0.0) };
                assert_eq!(ellipsoids_match(left, right), matches_on_f64(left, right));
            }
        }
    }
}

#[test]
fn settled_steps_stay_as_they_are() {
    let wgs84 = Ellipsoid::wgs84();
    let steps = vec![
        to_geodetic(wgs84),
        to_geocentric(wgs84),
        helmert(),
        to_geodetic(wgs84),
        to_geocentric(wgs84),
        to_geodetic(wgs84),
    ];
    let once = settle(steps);
    assert_eq!(once, vec![helmert(), to_geodetic(wgs84)]);
    assert_eq!(settle(once.clone()), once);
}

#[test]
fn dropping_conversions_that_undo_each_other_keeps_the_outcome() {
    let wgs84 = Ellipsoid::wgs84();
    let steps = StepList::of(&vec![to_geodetic(wgs84), to_geocentric(wgs84), helmert()]);
    let (outside, inside) = (at(1.0, 2.0, 3.0), at(4.0, 5.0, 6.0));
    let mut numerics = Numerics::new();
    let there = NumericRequest::GeocentricToGeodetic { ellipsoid: wgs84, coord: outside };
    let back = NumericRequest::GeodeticToGeocentric { ellipsoid: wgs84, coord: inside };
    numerics.record(there, Ok(inside));
    numerics.record(back, Ok(outside));
    if let Err(Halt::Pending(request)) = execute_steps(&steps, outside, &numerics) {
        numerics.record(request, work(request));
    }
    let mut fewer = steps.clone();
    cancel_redundant_geocentric_framing(&mut fewer);
    assert_eq!(fewer.len(), 1);
    assert_eq!(execute_steps(&steps, outside, &numerics), Ok(at(2.0, 2.0, 3.0)));
    assert_eq!(execute_steps(&fewer, outside, &numerics), Ok(at(2.0, 2.0, 3.0)));
}

#[test]
fn ellipsoids_match_themselves_and_both_ways() {
    let (a, b) = (Ellipsoid::wgs84(), Ellipsoid::clarke1866());
    assert!(ellipsoids_match(a, a));
    assert!(ellipsoids_match(b, b));
    assert!(!ellipsoids_match(a, b));
    assert!(!ellipsoids_match(b, a));
}

#[test]
fn reference_ellipsoids_hold_their_parameters() {
    let wgs84 = Ellipsoid::wgs84();
    assert_eq!(num(wgs84.semi_major_axis), 6_378_137.0);
    assert_eq!(num(wgs84.flattening), 1.0 / 298.257_223_563);
    let clarke = Ellipsoid::clarke1866();
    assert_eq!(num(clarke.semi_major_axis), 6_378_206.4);
    assert_eq!(num(clarke.flattening), 1.0 / 294.978_698_213_898_2);
}

#[test]
fn as_many_conversions_go_in_as_out() {
    let (wgs84, clarke) = (Ellipsoid::wgs84(), Ellipsoid::clarke1866());
    let steps = vec![
        to_geodetic(clarke),
        to_geocentric(clarke),
        helmert(),
        to_geodetic(wgs84),
        to_geocentric(clarke),
        CompiledStep::PushHeight,
        to_geocentric(wgs84),
        to_geodetic(wgs84),
    ];
    let left = settle(steps.clone());
    assert_eq!(left, vec![helmert(), to_geodetic(wgs84), to_geocentric(clarke), CompiledStep::PushHeight]);
    let count = |steps: &Vec<CompiledStep>, inward: bool| {
        steps
            .iter()
            .filter(|step| match step {
                CompiledStep::GeodeticToGeocentric { .. } => inward,
                CompiledStep::GeocentricToGeodetic { .. } => !inward,
                _ => false,
            })
            .count()
    };
    assert_eq!(count(&steps, true) - count(&left, true), 2);
    assert_eq!(count(&steps, false) - count(&left, false), 2);
}

#[test]
fn steps_behind_a_passthrough_go_on_from_its_outcome() {
    let wgs84 = Ellipsoid::wgs84();
    let body = vec![to_geocentric(wgs84), helmert(), to_geodetic(wgs84)];
    let from = at(0.2, 0.3, 43.0);
    let moved = run(&StepList::of(&body), from).unwrap();
    let mut wrapped = vec![CompiledStep::PushHeight];
    wrapped.extend(body);
    wrapped.push(CompiledStep::PopHeight);
    let restored = at(num(moved.x), num(moved.y), 43.0);
    assert_eq!(run(&StepList::of(&wrapped), from), Ok(restored));
    let next = run(&StepList::of(&vec![helmert()]), restored);
    wrapped.push(helmert());
    assert_eq!(run(&StepList::of(&wrapped), from), next);
}
