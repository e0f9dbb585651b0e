//! Coordinate reference systems, as far as a pipeline reads them.
use vstd::prelude::*;
use crate::binary64::{Binary64, ONE_BITS};
use crate::ellipsoid::Ellipsoid;

verus! {

/// A linear unit, by the number of metres in it.
#[derive(Clone, Copy, Debug, PartialEq, Eq, Structural)]
pub struct LinearUnit {
    pub to_meter: Binary64,
}

impl LinearUnit {
    /// Whether the unit is the metre.
    pub open spec fn is_metre(self) -> bool {
        self.to_meter.bits == ONE_BITS
    }
}

/// A geodetic datum, by its ellipsoid.
#[derive(Clone, Copy, Debug, PartialEq, Eq, Structural)]
pub struct Datum {
    pub ellipsoid: Ellipsoid,
}

/// A map projection method together with its parameters, by the key under
/// which the caller keeps them.
#[derive(Clone, Copy, Debug, PartialEq, Eq, Structural)]
pub struct ProjectionMethod {
    pub key: u32,
}

/// A map projection that is ready for use: a method on a datum.
#[derive(Clone, Copy, Debug, PartialEq, Eq, Structural)]
pub struct Projection {
    pub method: ProjectionMethod,
    pub datum: Datum,
}

/// A geographic system: longitude and latitude in degrees.
#[derive(Clone, Copy, Debug, PartialEq, Eq, Structural)]
pub struct GeographicCrsDef {
    pub datum: Datum,
}

/// A projected system: easting and northing in a linear unit.
#[derive(Clone, Copy, Debug, PartialEq, Eq, Structural)]
pub struct ProjectedCrsDef {
    pub datum: Datum,
    pub method: ProjectionMethod,
    pub linear_unit: LinearUnit,
}

/// A geocentric system: Earth-centred X, Y and Z in metres.
#[derive(Clone, Copy, Debug, PartialEq, Eq, Structural)]
pub struct GeocentricCrsDef {
    pub datum: Datum,
}

/// A coordinate reference system.
#[derive(Clone, Copy, Debug, PartialEq, Eq, Structural)]
pub enum CrsDef {
    Geographic(GeographicCrsDef),
    Projected(ProjectedCrsDef),
    Geocentric(GeocentricCrsDef),
}

impl CrsDef {
    /// The datum of the system.
    pub open spec fn datum_spec(self) -> Datum {
        match self {
            CrsDef::Geographic(crs) => crs.datum,
            CrsDef::Projected(crs) => crs.datum,
            CrsDef::Geocentric(crs) => crs.datum,
        }
    }

    /// The datum of the system.
    pub fn datum(&self) -> (datum: Datum)
        ensures
            datum == self.datum_spec(),
    {
        match self {
            CrsDef::Geographic(crs) => crs.datum,
            CrsDef::Projected(crs) => crs.datum,
            CrsDef::Geocentric(crs) => crs.datum,
        }
    }

    /// Whether the system is geocentric.
    pub fn is_geocentric(&self) -> (result: bool)
        ensures
            result == (self is Geocentric),
    {
        match self {
            CrsDef::Geocentric(_) => true,
            _ => false,
        }
    }

    /// The projected definition, if the system is projected.
    pub fn as_projected(&self) -> (projected: Option<ProjectedCrsDef>)
        ensures
            projected == (match *self {
                CrsDef::Projected(crs) => Some(crs),
                _ => None,
            }),
    {
        match self {
            CrsDef::Projected(crs) => Some(*crs),
            _ => None,
        }
    }

    /// The geocentric definition, if the system is geocentric.
    pub fn as_geocentric(&self) -> (geocentric: Option<GeocentricCrsDef>)
        ensures
            geocentric == (match *self {
                CrsDef::Geocentric(crs) => Some(crs),
                _ => None,
            }),
    {
        match self {
            CrsDef::Geocentric(crs) => Some(*crs),
            _ => None,
        }
    }
}

} // verus!
