//! Whole transformations: compiled by the library, with the numerical work done
//! here on `f64`.
use proj_pipeline::binary64::Binary64;
use proj_pipeline::compile::compile_pipeline;
use proj_pipeline::coord::Coord3D;
use proj_pipeline::crs::{
    CrsDef, Datum, GeocentricCrsDef, GeographicCrsDef, LinearUnit, ProjectedCrsDef,
    ProjectionMethod,
};
use proj_pipeline::ellipsoid::Ellipsoid;
use proj_pipeline::error::Error;
use proj_pipeline::execute::{execute_pipeline_xy, execute_pipeline_xyz};
use proj_pipeline::numerics::{Halt, NumericRequest, Numerics};
use proj_pipeline::operation::{
    CoordinateOperation, HelmertParams, OperationDomain, OperationMethod, OperationStepDirection,
    SelectedOperationKind,
};
use proj_pipeline::parallel::should_parallelize;
use proj_pipeline::pipeline::CompiledOperationPipeline;
use proj_pipeline::registry::Registry;
use proj_pipeline::services::{CompileHalt, Services};
use proj_pipeline::validate::validate_output_len;
use rayon::iter::{IntoParallelRefIterator, ParallelIterator};

/// WGS 84 geodetic (lon/lat/h) and geocentric coordinates of a point in New York.
const NYC_LON_LAT_H: (f64, f64, f64) = (-74.006, 40.7128, 10.0);
const NYC_ECEF_XYZ: (f64, f64, f64) = (
    1_334_000.544_686_07,
    -4_654_052.129_206_82,
    4_138_306.761_372_84,
);

const WEB_MERCATOR: u32 = 1;
const BRITISH_GRID: u32 = 2;
const RD_NEW: u32 = 3;

fn bits(x: f64) -> Binary64 {
    Binary64 { bits: x.to_bits() }
}

fn num(x: Binary64) -> f64 {
    f64::from_bits(x.bits)
}

fn at(x: f64, y: f64, z: f64) -> Coord3D {
    Coord3D::new(bits(x), bits(y), bits(z))
}

fn ellipsoid(semi_major_axis: f64, flattening: f64) -> Ellipsoid {
    Ellipsoid {
        semi_major_axis: bits(semi_major_axis),
        flattening: bits(flattening),
    }
}

fn crs(code: u32) -> CrsDef {
    let wgs84 = Datum {
        ellipsoid: Ellipsoid::wgs84(),
    };
    let wgs72 = Datum {
        ellipsoid: ellipsoid(6_378_135.0, 1.0 / 298.26),
    };
    let nad27 = Datum {
        ellipsoid: Ellipsoid::clarke1866(),
    };
    let osgb36 = Datum {
        ellipsoid: ellipsoid(6_377_563.396, 1.0 / 299.324_964_6),
    };
    let amersfoort = Datum {
        ellipsoid: ellipsoid(6_377_397.155, 1.0 / 299.152_812_8),
    };
    let metre = LinearUnit {
        to_meter: bits(1.0),
    };
    match code {
        4326 => CrsDef::Geographic(GeographicCrsDef { datum: wgs84 }),
        4978 => CrsDef::Geocentric(GeocentricCrsDef { datum: wgs84 }),
        3857 => CrsDef::Projected(ProjectedCrsDef {
            datum: wgs84,
            method: ProjectionMethod { key: WEB_MERCATOR },
            linear_unit: metre,
        }),
        4267 => CrsDef::Geographic(GeographicCrsDef { datum: nad27 }),
        4322 => CrsDef::Geographic(GeographicCrsDef { datum: wgs72 }),
        4984 => CrsDef::Geocentric(GeocentricCrsDef { datum: wgs72 }),
        4277 => CrsDef::Geographic(GeographicCrsDef { datum: osgb36 }),
        27700 => CrsDef::Projected(ProjectedCrsDef {
            datum: osgb36,
            method: ProjectionMethod { key: BRITISH_GRID },
            linear_unit: metre,
        }),
        4289 => CrsDef::Geographic(GeographicCrsDef { datum: amersfoort }),
        28992 => CrsDef::Projected(ProjectedCrsDef {
            datum: amersfoort,
            method: ProjectionMethod { key: RD_NEW },
            linear_unit: metre,
        }),
        _ => panic!("unexpected code {code}"),
    }
}

fn helmert(p: [f64; 7]) -> HelmertParams {
    HelmertParams {
        dx: bits(p[0]),
        dy: bits(p[1]),
        dz: bits(p[2]),
        rx: bits(p[3]),
        ry: bits(p[4]),
        rz: bits(p[5]),
        ds: bits(p[6]),
    }
}

fn helmert_operation(
    name: &str,
    domain: OperationDomain,
    source: u32,
    target: u32,
    p: [f64; 7],
) -> CoordinateOperation {
    CoordinateOperation {
        name: name.to_string(),
        domain,
        source_crs_epsg: Some(source),
        target_crs_epsg: Some(target),
        method: OperationMethod::Helmert { params: helmert(p) },
    }
}

fn nad27_to_wgs84() -> CoordinateOperation {
    helmert_operation(
        "NAD27 to WGS 84",
        OperationDomain::Geographic2D,
        4267,
        4326,
        [-8.0, 160.0, 176.0, 0.0, 0.0, 0.0, 0.0],
    )
}

fn osgb36_to_wgs84() -> CoordinateOperation {
    helmert_operation(
        "OSGB36 to WGS 84",
        OperationDomain::Geographic2D,
        4277,
        4326,
        [446.448, -125.157, 542.06, 0.15, 0.247, 0.842, -20.489],
    )
}

fn amersfoort_to_wgs84() -> CoordinateOperation {
    helmert_operation(
        "Amersfoort to WGS 84",
        OperationDomain::Geographic2D,
        4289,
        4326,
        [
            565.2369,
            50.0087,
            465.658,
            -0.406_857_330_322_398,
            0.350_732_676_542_563,
            -1.870_347_383_606_8,
            4.0812,
        ],
    )
}

fn wgs72_to_wgs84() -> CoordinateOperation {
    helmert_operation(
        "WGS 72 to WGS 84",
        OperationDomain::Geocentric,
        4322,
        4326,
        [0.0, 0.0, 4.5, 0.0, 0.0, 0.554, 0.2263],
    )
}

fn registry() -> Registry {
    let codes = [4326, 4978, 3857, 4267, 4322, 4984, 4277, 27700, 4289, 28992];
    let systems = codes.iter().map(|code| (*code, crs(*code))).collect();
    Registry::new(systems, vec![], vec![]).unwrap()
}

/// The operation between two datums, and the direction that leads from the
/// first to the second.
fn select(from: u32, to: u32) -> (SelectedOperationKind, OperationStepDirection) {
    let nad27 = [4267];
    let osgb36 = [4277, 27700];
    let amersfoort = [4289, 28992];
    let forward = OperationStepDirection::Forward;
    let reverse = OperationStepDirection::Reverse;
    if nad27.contains(&from) {
        (SelectedOperationKind::Registry(nad27_to_wgs84()), forward)
    } else if nad27.contains(&to) {
        (SelectedOperationKind::Registry(nad27_to_wgs84()), reverse)
    } else if osgb36.contains(&to) {
        (SelectedOperationKind::Registry(osgb36_to_wgs84()), reverse)
    } else if amersfoort.contains(&from) {
        (SelectedOperationKind::Registry(amersfoort_to_wgs84()), forward)
    } else {
        (SelectedOperationKind::Identity, forward)
    }
}

struct Transform {
    source: CrsDef,
    target: CrsDef,
    operation: SelectedOperationKind,
    direction: OperationStepDirection,
    pipeline: CompiledOperationPipeline,
}

fn compile(
    source: &CrsDef,
    target: &CrsDef,
    operation: &SelectedOperationKind,
    direction: OperationStepDirection,
) -> CompiledOperationPipeline {
    let registry = registry();
    let mut services = Services::new();
    loop {
        match compile_pipeline(source, target, operation, direction, &registry, &services) {
            Ok(pipeline) => return pipeline,
            Err(CompileHalt::Pending(request)) => services.record(request, Ok(())),
            Err(CompileHalt::Failed(error)) => panic!("{error:?}"),
        }
    }
}

impl Transform {
    fn from_operation(
        operation: SelectedOperationKind,
        direction: OperationStepDirection,
        source: CrsDef,
        target: CrsDef,
    ) -> Transform {
        let pipeline = compile(&source, &target, &operation, direction);
        Transform {
            source,
            target,
            operation,
            direction,
            pipeline,
        }
    }

    fn new(from: &str, to: &str) -> Transform {
        let from: u32 = from.strip_prefix("EPSG:").unwrap().parse().unwrap();
        let to: u32 = to.strip_prefix("EPSG:").unwrap().parse().unwrap();
        let (operation, direction) = select(from, to);
        Transform::from_operation(operation, direction, crs(from), crs(to))
    }

    fn inverse(self) -> Transform {
        let direction = self.direction.inverse();
        Transform::from_operation(self.operation, direction, self.target, self.source)
    }

    fn convert(&self, c: (f64, f64)) -> Result<(f64, f64), Error> {
        let mut numerics = Numerics::new();
        loop {
            match execute_pipeline_xy(&self.pipeline, at(c.0, c.1, 0.0), &numerics) {
                Ok(xy) => return Ok((num(xy.x), num(xy.y))),
                Err(Halt::Pending(request)) => numerics.record(request, work(request)),
                Err(Halt::Failed(error)) => return Err(error),
            }
        }
    }

    fn convert_with_diagnostics(&self, c: (f64, f64)) -> Result<((f64, f64), bool), Error> {
        let xy = self.convert(c)?;
        Ok((xy, self.pipeline.transforms_ellipsoidal_height))
    }

    fn convert_3d(&self, c: (f64, f64, f64)) -> Result<(f64, f64, f64), Error> {
        let mut numerics = Numerics::new();
        loop {
            match execute_pipeline_xyz(&self.pipeline, at(c.0, c.1, c.2), &numerics) {
                Ok(out) => return Ok((num(out.x), num(out.y), num(out.z))),
                Err(Halt::Pending(request)) => numerics.record(request, work(request)),
                Err(Halt::Failed(error)) => return Err(error),
            }
        }
    }

    fn convert_batch_3d(
        &self,
        coords: &[(f64, f64, f64)],
    ) -> Result<Vec<(f64, f64, f64)>, Error> {
        let out: Result<Vec<(f64, f64, f64)>, Error> =
            coords.iter().map(|c| self.convert_3d(*c)).collect();
        let out = out?;
        validate_output_len(coords.len(), out.len())?;
        Ok(out)
    }

    fn convert_batch_parallel_3d(
        &self,
        coords: &[(f64, f64, f64)],
    ) -> Result<Vec<(f64, f64, f64)>, Error> {
        if should_parallelize(coords.len()) {
            coords.par_iter().map(|c| self.convert_3d(*c)).collect()
        } else {
            self.convert_batch_3d(coords)
        }
    }
}

fn work(request: NumericRequest) -> Result<Coord3D, Error> {
    let flat = |x: f64, y: f64| Ok(at(x, y, 0.0));
    match request {
        NumericRequest::ToRadians { x, y } => flat(num(x).to_radians(), num(y).to_radians()),
        NumericRequest::ToDegrees { x, y } => flat(num(x).to_degrees(), num(y).to_degrees()),
        NumericRequest::ToMeters { unit, x, y } => {
            flat(num(x) * num(unit.to_meter), num(y) * num(unit.to_meter))
        }
        NumericRequest::FromMeters { unit, x, y } => {
            flat(num(x) / num(unit.to_meter), num(y) / num(unit.to_meter))
        }
        NumericRequest::ValidateLonLat { lon, lat } => {
            if num(lon).is_finite() && num(lat).abs() <= std::f64::consts::FRAC_PI_2 + 1e-10 {
                flat(0.0, 0.0)
            } else {
                Err(Error::OutOfRange("longitude/latitude out of range".to_string()))
            }
        }
        NumericRequest::ValidateProjected { x, y } => {
            if num(x).is_finite() && num(y).is_finite() {
                flat(0.0, 0.0)
            } else {
                Err(Error::OutOfRange("projected coordinate must be finite".to_string()))
            }
        }
        NumericRequest::ProjectionForward {
            projection,
            lon,
            lat,
        } => {
            let (x, y) = forward(
                projection.method.key,
                projection.datum.ellipsoid,
                num(lon),
                num(lat),
            );
            flat(x, y)
        }
        NumericRequest::ProjectionInverse { projection, x, y } => {
            let (lon, lat) = inverse(
                projection.method.key,
                projection.datum.ellipsoid,
                num(x),
                num(y),
            );
            flat(lon, lat)
        }
        NumericRequest::Helmert {
            params,
            inverse,
            coord,
        } => Ok(helmert_apply(params, inverse, coord)),
        NumericRequest::GeodeticToGeocentric { ellipsoid, coord } => {
            Ok(geodetic_to_geocentric(ellipsoid, coord))
        }
        NumericRequest::GeocentricToGeodetic { ellipsoid, coord } => {
            Ok(geocentric_to_geodetic(ellipsoid, coord))
        }
        other => panic!("not needed here: {other:?}"),
    }
}

fn helmert_apply(params: HelmertParams, inverse: bool, coord: Coord3D) -> Coord3D {
    let second = std::f64::consts::PI / 648_000.0;
    let (rx, ry, rz) = (
        num(params.rx) * second,
        num(params.ry) * second,
        num(params.rz) * second,
    );
    let scale = 1.0 + num(params.ds) * 1e-6;
    let (x, y, z) = (num(coord.x), num(coord.y), num(coord.z));
    let (dx, dy, dz) = (num(params.dx), num(params.dy), num(params.dz));
    if inverse {
        let (x, y, z) = ((x - dx) / scale, (y - dy) / scale, (z - dz) / scale);
        at(x + rz * y - ry * z, -rz * x + y + rx * z, ry * x - rx * y + z)
    } else {
        at(
            dx + scale * (x - rz * y + ry * z),
            dy + scale * (rz * x + y - rx * z),
            dz + scale * (-ry * x + rx * y + z),
        )
    }
}

fn geodetic_to_geocentric(ellipsoid: Ellipsoid, coord: Coord3D) -> Coord3D {
    let (a, f) = (num(ellipsoid.semi_major_axis), num(ellipsoid.flattening));
    let (lon, lat, h) = (num(coord.x), num(coord.y), num(coord.z));
    let e2 = f * (2.0 - f);
    let n = a / (1.0 - e2 * lat.sin().powi(2)).sqrt();
    at(
        (n + h) * lat.cos() * lon.cos(),
        (n + h) * lat.cos() * lon.sin(),
        (n * (1.0 - e2) + h) * lat.sin(),
    )
}

fn geocentric_to_geodetic(ellipsoid: Ellipsoid, coord: Coord3D) -> Coord3D {
    let (a, f) = (num(ellipsoid.semi_major_axis), num(ellipsoid.flattening));
    let (x, y, z) = (num(coord.x), num(coord.y), num(coord.z));
    let e2 = f * (2.0 - f);
    let p = x.hypot(y);
    let mut lat = z.atan2(p * (1.0 - e2));
    for _ in 0..20 {
        let n = a / (1.0 - e2 * lat.sin().powi(2)).sqrt();
        lat = (z + e2 * n * lat.sin()).atan2(p);
    }
    let n = a / (1.0 - e2 * lat.sin().powi(2)).sqrt();
    let h = p * lat.cos() + z * lat.sin() - a * a / n;
    at(y.atan2(x), lat, h)
}

fn forward(method: u32, ellipsoid: Ellipsoid, lon: f64, lat: f64) -> (f64, f64) {
    let a = num(ellipsoid.semi_major_axis);
    match method {
        WEB_MERCATOR => (
            a * lon,
            a * (std::f64::consts::FRAC_PI_4 + lat / 2.0).tan().ln(),
        ),
        BRITISH_GRID => transverse_mercator(ellipsoid, lon, lat),
        _ => panic!("not needed here"),
    }
}

fn inverse(method: u32, ellipsoid: Ellipsoid, x: f64, y: f64) -> (f64, f64) {
    let a = num(ellipsoid.semi_major_axis);
    match method {
        WEB_MERCATOR => (
            x / a,
            2.0 * (y / a).exp().atan() - std::f64::consts::FRAC_PI_2,
        ),
        RD_NEW => double_stereographic_inverse(ellipsoid, x, y),
        _ => panic!("not needed here"),
    }
}

/// The transverse Mercator projection of the British national grid.
fn transverse_mercator(ellipsoid: Ellipsoid, lon: f64, lat: f64) -> (f64, f64) {
    let (a, f) = (num(ellipsoid.semi_major_axis), num(ellipsoid.flattening));
    let (lat0, lon0, k0) = (49f64.to_radians(), (-2f64).to_radians(), 0.999_601_271_7);
    let b = a * (1.0 - f);
    let e2 = f * (2.0 - f);
    let n = (a - b) / (a + b);
    let nu = a * k0 / (1.0 - e2 * lat.sin().powi(2)).sqrt();
    let rho = a * k0 * (1.0 - e2) / (1.0 - e2 * lat.sin().powi(2)).powf(1.5);
    let eta2 = nu / rho - 1.0;
    let (d, s) = (lat - lat0, lat + lat0);
    let m = b
        * k0
        * ((1.0 + n + 1.25 * n * n + 1.25 * n.powi(3)) * d
            - (3.0 * n + 3.0 * n * n + 2.625 * n.powi(3)) * d.sin() * s.cos()
            + (1.875 * n * n + 1.875 * n.powi(3)) * (2.0 * d).sin() * (2.0 * s).cos()
            - 35.0 / 24.0 * n.powi(3) * (3.0 * d).sin() * (3.0 * s).cos());
    let (sin, cos, tan) = (lat.sin(), lat.cos(), lat.tan());
    let l = lon - lon0;
    let north = m - 100_000.0
        + nu / 2.0 * sin * cos * l.powi(2)
        + nu / 24.0 * sin * cos.powi(3) * (5.0 - tan * tan + 9.0 * eta2) * l.powi(4);
    let east = 400_000.0
        + nu * cos * l
        + nu / 6.0 * cos.powi(3) * (nu / rho - tan * tan) * l.powi(3);
    (east, north)
}

/// The inverse double stereographic projection of the Dutch grid.
fn double_stereographic_inverse(ellipsoid: Ellipsoid, x: f64, y: f64) -> (f64, f64) {
    let (a, f) = (num(ellipsoid.semi_major_axis), num(ellipsoid.flattening));
    let e2 = f * (2.0 - f);
    let e = e2.sqrt();
    let (lat0, lon0, k0) = (
        52.156_160_555_555_55_f64.to_radians(),
        5.387_638_888_888_89_f64.to_radians(),
        0.999_907_9,
    );
    let sin0 = lat0.sin();
    let rho0 = a * (1.0 - e2) / (1.0 - e2 * sin0 * sin0).powf(1.5);
    let nu0 = a / (1.0 - e2 * sin0 * sin0).sqrt();
    let r = (rho0 * nu0).sqrt();
    let n = (1.0 + e2 * lat0.cos().powi(4) / (1.0 - e2)).sqrt();
    let s1 = (1.0 + sin0) / (1.0 - sin0);
    let s2 = (1.0 - e * sin0) / (1.0 + e * sin0);
    let w1 = (s1 * s2.powf(e)).powf(n);
    let sin_chi00 = (w1 - 1.0) / (w1 + 1.0);
    let c = (n + sin0) * (1.0 - sin_chi00) / ((n - sin0) * (1.0 + sin_chi00));
    let w2 = c * w1;
    let chi0 = ((w2 - 1.0) / (w2 + 1.0)).asin();
    let g = 2.0 * r * k0 * (std::f64::consts::FRAC_PI_4 - chi0 / 2.0).tan();
    let h = 4.0 * r * k0 * chi0.tan() + g;
    let (east, north) = (x - 155_000.0, y - 463_000.0);
    let i = east.atan2(h + north);
    let j = east.atan2(g - north) - i;
    let chi = chi0 + 2.0 * ((north - east * (j / 2.0).tan()) / (2.0 * r * k0)).atan();
    let lon = (j + 2.0 * i) / n + lon0;
    let psi = 0.5 * ((1.0 + chi.sin()) / (c * (1.0 - chi.sin()))).ln() / n;
    let mut lat = 2.0 * psi.exp().atan() - std::f64::consts::FRAC_PI_2;
    for _ in 0..10 {
        let es = e * lat.sin();
        let iso = ((lat / 2.0 + std::f64::consts::FRAC_PI_4).tan()
            * ((1.0 - es) / (1.0 + es)).powf(e / 2.0))
        .ln();
        lat -= (iso - psi) * lat.cos() * (1.0 - e2 * lat.sin().powi(2)) / (1.0 - e2);
    }
    (lon, lat)
}

#[test]
fn wgs84_geographic_to_ecef_checkpoint() {
    let t = Transform::new("EPSG:4326", "EPSG:4978");
    let (x, y, z) = t.convert_3d(NYC_LON_LAT_H).unwrap();

    assert!((x - NYC_ECEF_XYZ.0).abs() < 1e-4, "x = {x}");
    assert!((y - NYC_ECEF_XYZ.1).abs() < 1e-4, "y = {y}");
    assert!((z - NYC_ECEF_XYZ.2).abs() < 1e-4, "z = {z}");

    let inv = t.inverse();
    let (lon, lat, h) = inv.convert_3d((x, y, z)).unwrap();
    assert!((lon - NYC_LON_LAT_H.0).abs() < 1e-10);
    assert!((lat - NYC_LON_LAT_H.1).abs() < 1e-10);
    assert!((h - NYC_LON_LAT_H.2).abs() < 1e-6);
}

#[test]
fn convert_2d_rejects_geocentric_endpoints() {
    let t = Transform::new("EPSG:4326", "EPSG:4978");
    let err = t.convert((-74.006, 40.7128)).unwrap_err();
    assert!(err.detail().contains("require convert_3d"), "got {err:?}");
    let err = t
        .convert_with_diagnostics((-74.006, 40.7128))
        .unwrap_err();
    assert!(err.detail().contains("require convert_3d"), "got {err:?}");
    let err = t.inverse().convert((-74.006, 40.7128)).unwrap_err();
    assert!(err.detail().contains("require convert_3d"), "got {err:?}");
}

#[test]
fn tuple3d_wgs84_to_web_mercator() {
    let t = Transform::new("EPSG:4326", "EPSG:3857");
    let (x, y, z) = t.convert_3d((-74.0445, 40.6892, 15.5)).unwrap();

    assert!((x - (-8242596.0)).abs() < 1000.0);
    assert!((y - 4966606.0).abs() < 1000.0);
    assert!((z - 15.5).abs() < 1e-12);
}

#[test]
fn coord3d_roundtrip() {
    let fwd = Transform::new("EPSG:4326", "EPSG:3857");
    let inv = Transform::new("EPSG:3857", "EPSG:4326");

    let original = (-74.0445, 40.6892, 25.0);
    let projected = fwd.convert_3d(original).unwrap();
    let roundtripped = inv.convert_3d(projected).unwrap();

    assert!((roundtripped.0 - original.0).abs() < 1e-6);
    assert!((roundtripped.1 - original.1).abs() < 1e-6);
    assert!((roundtripped.2 - original.2).abs() < 1e-6);
}

#[test]
fn cross_datum_height_roundtrip() {
    let fwd = Transform::new("EPSG:4267", "EPSG:4326");
    let inv = Transform::new("EPSG:4326", "EPSG:4267");

    let original = (-90.0, 45.0, 250.0);
    let shifted = fwd.convert_3d(original).unwrap();
    let roundtripped = inv.convert_3d(shifted).unwrap();

    assert!((roundtripped.0 - original.0).abs() < 1e-6);
    assert!((roundtripped.1 - original.1).abs() < 1e-6);
    assert!((roundtripped.2 - original.2).abs() < 1e-8);
}

#[test]
fn helmert_backed_projected_transform_uses_source_height_for_xy() {
    let t = Transform::new("EPSG:4326", "EPSG:27700");

    let ground = t.convert_3d((-0.1278, 51.5074, 0.0)).unwrap();
    let high = t.convert_3d((-0.1278, 51.5074, 10_000.0)).unwrap();
    let de = high.0 - ground.0;
    let dn = high.1 - ground.1;

    assert!(de.abs() > 0.1, "easting delta = {de}");
    assert!(dn.abs() > 0.05, "northing delta = {dn}");

    // The transformation is for longitude and latitude only: height stays.
    assert!((ground.2 - 0.0).abs() < 1e-12, "ground height = {}", ground.2);
    assert!((high.2 - 10_000.0).abs() < 1e-12, "high height = {}", high.2);
}

#[test]
fn wgs72_geocentric_to_wgs84_applies_full_3d_helmert() {
    // Both endpoints are geocentric, so Helmert runs in 3D.
    let ecef = Transform::new("EPSG:4322", "EPSG:4984")
        .convert_3d((0.0, 51.0, 100.0))
        .unwrap();
    let wgs84 = Transform::from_operation(
        SelectedOperationKind::Registry(wgs72_to_wgs84()),
        OperationStepDirection::Forward,
        crs(4984),
        crs(4978),
    )
    .convert_3d(ecef)
    .unwrap();
    let (_, _, h) = Transform::new("EPSG:4978", "EPSG:4326")
        .convert_3d(wgs84)
        .unwrap();
    assert!(
        (h - 100.0).abs() > 0.1,
        "3D Helmert should change height, got {h}"
    );
}

#[test]
fn amersfoort_height_is_kept_on_the_way_to_ecef() {
    let t = Transform::new("EPSG:28992", "EPSG:4978");
    let input = (155_000.0, 463_000.0, 43.0);
    let via_wgs84 = {
        let to_wgs84 = Transform::new("EPSG:28992", "EPSG:4326");
        let to_ecef = Transform::new("EPSG:4326", "EPSG:4978");
        let mid = to_wgs84.convert_3d(input).unwrap();
        assert!((mid.2 - 43.0).abs() < 1e-9, "geographic height = {}", mid.2);
        to_ecef.convert_3d(mid).unwrap()
    };
    let direct = t.convert_3d(input).unwrap();
    assert!((direct.0 - via_wgs84.0).abs() < 1e-6);
    assert!((direct.1 - via_wgs84.1).abs() < 1e-6);
    assert!((direct.2 - via_wgs84.2).abs() < 1e-6);
}

#[test]
fn nad27_to_ecef_matches_the_chained_path() {
    let direct = Transform::new("EPSG:4267", "EPSG:4978");
    let chained = {
        let to_wgs84 = Transform::new("EPSG:4267", "EPSG:4326");
        let to_ecef = Transform::new("EPSG:4326", "EPSG:4978");
        let mid = to_wgs84.convert_3d((-90.0, 45.0, 250.0)).unwrap();
        to_ecef.convert_3d(mid).unwrap()
    };
    let ecef = direct.convert_3d((-90.0, 45.0, 250.0)).unwrap();
    assert!((ecef.0 - chained.0).abs() < 1e-6);
    assert!((ecef.1 - chained.1).abs() < 1e-6);
    assert!((ecef.2 - chained.2).abs() < 1e-6);
}

#[test]
fn batch_transform_3d_preserves_heights() {
    let t = Transform::new("EPSG:4326", "EPSG:3857");
    let coords: Vec<(f64, f64, f64)> = (0..50)
        .map(|i| {
            (
                -74.0 + i as f64 * 0.01,
                40.0 + i as f64 * 0.01,
                i as f64 * 2.0,
            )
        })
        .collect();

    let results = t.convert_batch_3d(&coords).unwrap();
    assert_eq!(results.len(), 50);

    for (index, result) in results.iter().enumerate() {
        assert!(result.0 < 0.0);
        assert!((result.2 - index as f64 * 2.0).abs() < 1e-12);
    }
}

#[test]
fn parallel_batch_transform_3d_preserves_heights() {
    let t = Transform::new("EPSG:4326", "EPSG:3857");
    let coords: Vec<(f64, f64, f64)> = (0..200)
        .map(|i| (-74.0 + i as f64 * 0.001, 40.0 + i as f64 * 0.001, i as f64))
        .collect();

    let results = t.convert_batch_parallel_3d(&coords).unwrap();
    assert_eq!(results.len(), 200);

    for (index, result) in results.iter().enumerate() {
        assert!((result.2 - index as f64).abs() < 1e-12);
    }
}
