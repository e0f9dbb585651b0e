//! Coordinate operations: what takes a coordinate from one system to another.
use vstd::prelude::*;
use crate::binary64::Binary64;
use crate::crs::ProjectionMethod;

verus! {

/// The direction in which an operation is applied.
#[derive(Clone, Copy, Debug, PartialEq, Eq, Structural)]
pub enum OperationStepDirection {
    Forward,
    Reverse,
}

impl OperationStepDirection {
    /// The opposite direction.
    pub open spec fn opposite(self) -> OperationStepDirection {
        match self {
            OperationStepDirection::Forward => OperationStepDirection::Reverse,
            OperationStepDirection::Reverse => OperationStepDirection::Forward,
        }
    }

    /// The opposite direction.
    pub fn inverse(self) -> (direction: OperationStepDirection)
        ensures
            direction == self.opposite(),
    {
        match self {
            OperationStepDirection::Forward => OperationStepDirection::Reverse,
            OperationStepDirection::Reverse => OperationStepDirection::Forward,
        }
    }
}

/// The direction in which a datum grid is applied.
#[derive(Clone, Copy, Debug, PartialEq, Eq, Structural)]
pub enum GridShiftDirection {
    Forward,
    Reverse,
}

impl GridShiftDirection {
    /// The opposite direction.
    pub open spec fn opposite(self) -> GridShiftDirection {
        match self {
            GridShiftDirection::Forward => GridShiftDirection::Reverse,
            GridShiftDirection::Reverse => GridShiftDirection::Forward,
        }
    }

    /// The opposite direction.
    pub fn inverse(self) -> (direction: GridShiftDirection)
        ensures
            direction == self.opposite(),
    {
        match self {
            GridShiftDirection::Forward => GridShiftDirection::Reverse,
            GridShiftDirection::Reverse => GridShiftDirection::Forward,
        }
    }
}

/// The coordinates that an operation is defined for.
#[derive(Clone, Copy, Debug, PartialEq, Eq, Structural)]
pub enum OperationDomain {
    /// Longitude and latitude only: the operation leaves height alone.
    Geographic2D,
    /// Longitude, latitude and ellipsoidal height.
    Geographic3D,
    /// Earth-centred X, Y and Z.
    Geocentric,
    /// Horizontal coordinates of any kind.
    HorizontalOnly,
}

/// The seven parameters of a Helmert transformation: translations in metres,
/// rotations in arc seconds, scale difference in parts per million.
#[derive(Clone, Copy, Debug, PartialEq, Eq, Structural)]
pub struct HelmertParams {
    pub dx: Binary64,
    pub dy: Binary64,
    pub dz: Binary64,
    pub rx: Binary64,
    pub ry: Binary64,
    pub rz: Binary64,
    pub ds: Binary64,
}

/// One row of an affine transformation: three coefficients and a constant.
#[derive(Clone, Copy, Debug, PartialEq, Eq, Structural)]
pub struct AffineRow {
    pub x: Binary64,
    pub y: Binary64,
    pub z: Binary64,
    pub constant: Binary64,
}

/// An affine transformation of geocentric coordinates.
#[derive(Clone, Copy, Debug, PartialEq, Eq, Structural)]
pub struct GeocentricAffineParams {
    pub x: AffineRow,
    pub y: AffineRow,
    pub z: AffineRow,
}

/// The number of a datum grid in the registry.
#[derive(Clone, Copy, Debug, PartialEq, Eq, Structural)]
pub struct GridId(pub u32);

/// The number of a coordinate operation.
#[derive(Clone, Copy, Debug, PartialEq, Eq, Structural)]
pub struct CoordinateOperationId(pub u32);

/// The format in which a datum grid is stored.
#[derive(Clone, Copy, Debug, PartialEq, Eq, Structural)]
pub enum GridFormat {
    Ntv2,
    Unsupported,
}

/// The key under which the caller keeps a datum grid. It stands for all there is
/// to know about the grid: grids that differ in anything have different keys.
#[derive(Clone, Copy, Debug, PartialEq, Eq, Structural)]
pub struct GridKey(pub u32);

/// A datum grid.
#[derive(Debug)]
pub struct GridDefinition {
    pub key: GridKey,
    pub name: String,
    pub format: GridFormat,
}

/// A datum grid that has been loaded.
#[derive(Clone, Copy, Debug, PartialEq, Eq, Structural)]
pub struct GridHandle {
    pub key: GridKey,
}

/// One entry of a list of datum grids.
#[derive(Debug)]
pub enum DatumGridShiftEntry {
    /// Coordinates that no grid before this entry covers are left unshifted.
    Null,
    /// A grid, which may be left out when it is optional and cannot be had.
    Grid { definition: GridDefinition, optional: bool },
}

/// A list of datum grids in order of preference.
#[derive(Debug)]
pub struct DatumGridShift {
    pub entries: Vec<DatumGridShiftEntry>,
}

/// How a datum is related to WGS 84.
#[derive(Debug)]
pub enum DatumToWgs84 {
    Identity,
    Helmert(HelmertParams),
    GridShift(DatumGridShift),
    Unknown,
}

/// One step of a concatenated operation.
#[derive(Clone, Copy, Debug, PartialEq, Eq, Structural)]
pub struct OperationStep {
    pub operation_id: CoordinateOperationId,
    pub direction: OperationStepDirection,
}

/// How a coordinate operation works.
#[derive(Debug)]
pub enum OperationMethod {
    Identity,
    Helmert { params: HelmertParams },
    GeocentricAffine { params: GeocentricAffineParams },
    DatumShift { source_to_wgs84: DatumToWgs84, target_to_wgs84: DatumToWgs84 },
    GridShift { grid_id: GridId, direction: GridShiftDirection },
    Concatenated { steps: Vec<OperationStep> },
    Projection { method: ProjectionMethod },
    AxisUnitNormalize,
}

/// A coordinate operation.
#[derive(Debug)]
pub struct CoordinateOperation {
    pub name: String,
    pub domain: OperationDomain,
    pub source_crs_epsg: Option<u32>,
    pub target_crs_epsg: Option<u32>,
    pub method: OperationMethod,
}

/// The operation that was selected between two systems.
#[derive(Debug)]
pub enum SelectedOperationKind {
    /// The systems share a datum.
    Identity,
    /// An operation of the registry.
    Registry(CoordinateOperation),
    /// An operation that the caller defined.
    Custom(CoordinateOperation),
}

} // verus!
