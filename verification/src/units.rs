//! The adapters between a system's own x and y and those of a pipeline:
//! radians or metres.
use vstd::prelude::*;
use crate::binary64::{gap, Binary64};
use crate::coord::{Coord, Coord3D};
use crate::crs::{CrsDef, LinearUnit};
use crate::numerics::{asked, outcome, Halt, HaltView, NumericRequest, Numerics, Replies};
use crate::validate::{not_finite, validate_pipeline_coord3d};

verus! {

/// What the x and y of a source system are.
#[derive(Clone, Copy, Debug, PartialEq, Eq, Structural)]
pub enum PipelineSourceXyUnits {
    GeographicDegrees,
    GeocentricMeters,
    ProjectedMeters,
    ProjectedNativeToMeters(LinearUnit),
}

/// What the x and y of a target system are.
#[derive(Clone, Copy, Debug, PartialEq, Eq, Structural)]
pub enum PipelineTargetXyUnits {
    GeographicDegrees,
    GeocentricMeters,
    ProjectedMeters,
    ProjectedMetersToNative(LinearUnit),
}

/// What the x and y of a source system are.
pub open spec fn source_units(source: CrsDef) -> PipelineSourceXyUnits {
    match source {
        CrsDef::Geographic(_) => PipelineSourceXyUnits::GeographicDegrees,
        CrsDef::Geocentric(_) => PipelineSourceXyUnits::GeocentricMeters,
        CrsDef::Projected(crs) => if crs.linear_unit.is_metre() {
            PipelineSourceXyUnits::ProjectedMeters
        } else {
            PipelineSourceXyUnits::ProjectedNativeToMeters(crs.linear_unit)
        },
    }
}

/// What the x and y of a target system are.
pub open spec fn target_units(target: CrsDef) -> PipelineTargetXyUnits {
    match target {
        CrsDef::Geographic(_) => PipelineTargetXyUnits::GeographicDegrees,
        CrsDef::Geocentric(_) => PipelineTargetXyUnits::GeocentricMeters,
        CrsDef::Projected(crs) => if crs.linear_unit.is_metre() {
            PipelineTargetXyUnits::ProjectedMeters
        } else {
            PipelineTargetXyUnits::ProjectedMetersToNative(crs.linear_unit)
        },
    }
}

/// Passes a value on unless a check halts.
pub open spec fn after_check<T>(check: Result<Coord3D, HaltView>, next: Result<T, HaltView>) -> Result<
    T,
    HaltView,
> {
    match check {
        Ok(_) => next,
        Err(halt) => Err(halt),
    }
}

/// The pipeline's coordinate of a source coordinate: degrees become radians,
/// linear units become metres, and the height stays. Longitude and latitude are
/// checked in radians, easting and northing before and after the conversion,
/// and geocentric ordinates for being finite.
pub open spec fn normalized(
    units: PipelineSourceXyUnits,
    coord: Coord3D,
    replies: Replies,
) -> Result<Coord3D, HaltView> {
    match units {
        PipelineSourceXyUnits::GeographicDegrees => match asked(
            replies,
            NumericRequest::ToRadians { x: coord.x, y: coord.y },
        ) {
            Ok(radians) => after_check(
                asked(replies, NumericRequest::ValidateLonLat { lon: radians.x, lat: radians.y }),
                Ok(Coord3D { x: radians.x, y: radians.y, z: coord.z }),
            ),
            Err(halt) => Err(halt),
        },
        PipelineSourceXyUnits::GeocentricMeters => if coord.finite() {
            Ok(coord)
        } else {
            Err(HaltView::Failed(not_finite("geocentric input coordinate"@)))
        },
        PipelineSourceXyUnits::ProjectedMeters => after_check(
            asked(replies, NumericRequest::ValidateProjected { x: coord.x, y: coord.y }),
            Ok(coord),
        ),
        PipelineSourceXyUnits::ProjectedNativeToMeters(unit) => after_check(
            asked(replies, NumericRequest::ValidateProjected { x: coord.x, y: coord.y }),
            match asked(replies, NumericRequest::ToMeters { unit, x: coord.x, y: coord.y }) {
                Ok(metres) => after_check(
                    asked(replies, NumericRequest::ValidateProjected { x: metres.x, y: metres.y }),
                    Ok(Coord3D { x: metres.x, y: metres.y, z: coord.z }),
                ),
                Err(halt) => Err(halt),
            },
        ),
    }
}

/// The target system's x and y of a pipeline coordinate.
pub open spec fn denormalized(
    units: PipelineTargetXyUnits,
    coord: Coord3D,
    replies: Replies,
) -> Result<Coord, HaltView> {
    match units {
        PipelineTargetXyUnits::GeographicDegrees => match asked(
            replies,
            NumericRequest::ToDegrees { x: coord.x, y: coord.y },
        ) {
            Ok(degrees) => Ok(degrees.planar()),
            Err(halt) => Err(halt),
        },
        PipelineTargetXyUnits::GeocentricMeters => Ok(coord.planar()),
        PipelineTargetXyUnits::ProjectedMeters => Ok(coord.planar()),
        PipelineTargetXyUnits::ProjectedMetersToNative(unit) => match asked(
            replies,
            NumericRequest::FromMeters { unit, x: coord.x, y: coord.y },
        ) {
            Ok(native) => Ok(native.planar()),
            Err(halt) => Err(halt),
        },
    }
}

impl PipelineSourceXyUnits {
    /// What the x and y of `source` are.
    pub fn compile(source: &CrsDef) -> (units: Self)
        ensures
            units == source_units(*source),
    {
        if source.is_geocentric() {
            return PipelineSourceXyUnits::GeocentricMeters;
        }
        match source.as_projected() {
            Some(projected) => if projected.linear_unit.to_meter.is_one() {
                PipelineSourceXyUnits::ProjectedMeters
            } else {
                PipelineSourceXyUnits::ProjectedNativeToMeters(projected.linear_unit)
            },
            None => PipelineSourceXyUnits::GeographicDegrees,
        }
    }

    /// Takes a coordinate of the source system into the pipeline.
    pub fn normalize(self, coord: Coord3D, numerics: &Numerics) -> (result: Result<Coord3D, Halt>)
        ensures
            outcome(result) == normalized(self, coord, numerics@),
    {
        match self {
            PipelineSourceXyUnits::GeographicDegrees => {
                let radians = numerics.compute(
                    NumericRequest::ToRadians { x: coord.x, y: coord.y },
                )?;
                numerics.compute(
                    NumericRequest::ValidateLonLat { lon: radians.x, lat: radians.y },
                )?;
                Ok(Coord3D::new(radians.x, radians.y, coord.z))
            },
            PipelineSourceXyUnits::GeocentricMeters => {
                match validate_pipeline_coord3d("geocentric input coordinate", coord) {
                    Ok(_) => Ok(coord),
                    Err(error) => Err(Halt::Failed(error)),
                }
            },
            PipelineSourceXyUnits::ProjectedMeters => {
                numerics.compute(NumericRequest::ValidateProjected { x: coord.x, y: coord.y })?;
                Ok(Coord3D::new(coord.x, coord.y, coord.z))
            },
            PipelineSourceXyUnits::ProjectedNativeToMeters(unit) => {
                numerics.compute(NumericRequest::ValidateProjected { x: coord.x, y: coord.y })?;
                let metres = numerics.compute(
                    NumericRequest::ToMeters { unit, x: coord.x, y: coord.y },
                )?;
                numerics.compute(NumericRequest::ValidateProjected { x: metres.x, y: metres.y })?;
                Ok(Coord3D::new(metres.x, metres.y, coord.z))
            },
        }
    }
}

impl PipelineTargetXyUnits {
    /// What the x and y of `target` are.
    pub fn compile(target: &CrsDef) -> (units: Self)
        ensures
            units == target_units(*target),
    {
        if target.is_geocentric() {
            return PipelineTargetXyUnits::GeocentricMeters;
        }
        match target.as_projected() {
            Some(projected) => if projected.linear_unit.to_meter.is_one() {
                PipelineTargetXyUnits::ProjectedMeters
            } else {
                PipelineTargetXyUnits::ProjectedMetersToNative(projected.linear_unit)
            },
            None => PipelineTargetXyUnits::GeographicDegrees,
        }
    }

    /// Takes the x and y of a pipeline coordinate into the target system.
    pub fn denormalize(self, coord: Coord3D, numerics: &Numerics) -> (result: Result<Coord, Halt>)
        ensures
            outcome(result) == denormalized(self, coord, numerics@),
    {
        match self {
            PipelineTargetXyUnits::GeographicDegrees => {
                let degrees = numerics.compute(
                    NumericRequest::ToDegrees { x: coord.x, y: coord.y },
                )?;
                Ok(Coord::new(degrees.x, degrees.y))
            },
            PipelineTargetXyUnits::GeocentricMeters => Ok(Coord::new(coord.x, coord.y)),
            PipelineTargetXyUnits::ProjectedMeters => Ok(Coord::new(coord.x, coord.y)),
            PipelineTargetXyUnits::ProjectedMetersToNative(unit) => {
                let native = numerics.compute(
                    NumericRequest::FromMeters { unit, x: coord.x, y: coord.y },
                )?;
                Ok(Coord::new(native.x, native.y))
            },
        }
    }
}

/// A system's x and y are the same as a source and as a target: what a pipeline
/// converts on the way in, the way back converts on the way out.
pub proof fn law_units_of_source_and_target_agree(crs: CrsDef)
    ensures
        match (source_units(crs), target_units(crs)) {
            (
                PipelineSourceXyUnits::GeographicDegrees,
                PipelineTargetXyUnits::GeographicDegrees,
            ) => true,
            (
                PipelineSourceXyUnits::GeocentricMeters,
                PipelineTargetXyUnits::GeocentricMeters,
            ) => true,
            (
                PipelineSourceXyUnits::ProjectedMeters,
                PipelineTargetXyUnits::ProjectedMeters,
            ) => true,
            (
                PipelineSourceXyUnits::ProjectedNativeToMeters(inward),
                PipelineTargetXyUnits::ProjectedMetersToNative(outward),
            ) => inward == outward,
            _ => false,
        },
{
}

/// What the outside conversions make of the x and y of a coordinate on its way
/// into the pipeline and out again. Metres are not converted.
pub open spec fn converted_in_and_out(crs: CrsDef, coord: Coord3D, replies: Replies) -> Result<
    Coord,
    HaltView,
> {
    match source_units(crs) {
        PipelineSourceXyUnits::GeographicDegrees => match asked(
            replies,
            NumericRequest::ToRadians { x: coord.x, y: coord.y },
        ) {
            Ok(radians) => match asked(
                replies,
                NumericRequest::ToDegrees { x: radians.x, y: radians.y },
            ) {
                Ok(degrees) => Ok(degrees.planar()),
                Err(halt) => Err(halt),
            },
            Err(halt) => Err(halt),
        },
        PipelineSourceXyUnits::ProjectedNativeToMeters(unit) => match asked(
            replies,
            NumericRequest::ToMeters { unit, x: coord.x, y: coord.y },
        ) {
            Ok(metres) => match asked(
                replies,
                NumericRequest::FromMeters { unit, x: metres.x, y: metres.y },
            ) {
                Ok(native) => Ok(native.planar()),
                Err(halt) => Err(halt),
            },
            Err(halt) => Err(halt),
        },
        _ => Ok(coord.planar()),
    }
}

/// Whether `a` is the number `b`, or differs from it by less than a millionth of a
/// millionth of `b`.
pub open spec fn nearly(a: Binary64, b: Binary64) -> bool {
    a.finite() && b.finite() && (gap(a, b) == 0 || 1_000_000_000_000 * gap(a, b) < b.magnitude())
}

/// A coordinate that a system's adapter took into the pipeline leaves it, through
/// the adapter of the same system, with the x and y that it came with. Geocentric
/// and projected metres come out bit for bit. Degrees and other linear units come
/// out as the outside conversions leave them: bit for bit where those undo each
/// other, and nearly so where those nearly do.
pub proof fn law_adapters_of_a_system_undo_each_other(
    crs: CrsDef,
    outside: Coord3D,
    inside: Coord3D,
    replies: Replies,
)
    requires
        normalized(source_units(crs), outside, replies) == Ok::<Coord3D, HaltView>(inside),
    ensures
        inside.z == outside.z,
        denormalized(target_units(crs), inside, replies) == converted_in_and_out(
            crs,
            outside,
            replies,
        ),
        target_units(crs) is GeocentricMeters || target_units(crs) is ProjectedMeters
            ==> denormalized(target_units(crs), inside, replies) == Ok::<Coord, HaltView>(
            outside.planar(),
        ),
        converted_in_and_out(crs, outside, replies) == Ok::<Coord, HaltView>(outside.planar())
            ==> denormalized(target_units(crs), inside, replies) == Ok::<Coord, HaltView>(
            outside.planar(),
        ),
        converted_in_and_out(crs, outside, replies) matches Ok(xy) && nearly(xy.x, outside.x)
            && nearly(xy.y, outside.y) ==> (denormalized(
            target_units(crs),
            inside,
            replies,
        ) matches Ok(out) && nearly(out.x, outside.x) && nearly(out.y, outside.y)),
{
}

} // verus!
