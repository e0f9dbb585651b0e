//! The numerical work of a pipeline, and the replies to it.
//!
//! Executing a pipeline calls for trigonometry, projections and grid
//! interpolation on binary64 numbers. The pipeline decides which of it is due
//! and what becomes of each reply; whoever drives the pipeline performs it and
//! records the reply in [`Numerics`].
use vstd::prelude::*;
use crate::binary64::Binary64;
use crate::coord::Coord3D;
use crate::crs::{LinearUnit, Projection};
use crate::ellipsoid::Ellipsoid;
use crate::error::{Error, ErrorView};
use crate::operation::{GeocentricAffineParams, GridHandle, GridShiftDirection, HelmertParams};

verus! {

/// One piece of numerical work. The reply is a coordinate or an error; where a
/// request names two ordinates, only `x` and `y` of the reply are read, and
/// where it asks for a check, only whether the reply is an error.
#[derive(Clone, Copy, Debug, PartialEq, Eq, Structural)]
pub enum NumericRequest {
    /// Degrees into radians.
    ToRadians { x: Binary64, y: Binary64 },
    /// Radians into degrees.
    ToDegrees { x: Binary64, y: Binary64 },
    /// A linear unit into metres.
    ToMeters { unit: LinearUnit, x: Binary64, y: Binary64 },
    /// Metres into a linear unit.
    FromMeters { unit: LinearUnit, x: Binary64, y: Binary64 },
    /// Checks a longitude and a latitude in radians.
    ValidateLonLat { lon: Binary64, lat: Binary64 },
    /// Checks an easting and a northing.
    ValidateProjected { x: Binary64, y: Binary64 },
    /// Longitude and latitude in radians into easting and northing in metres.
    ProjectionForward { projection: Projection, lon: Binary64, lat: Binary64 },
    /// Easting and northing in metres into longitude and latitude in radians.
    ProjectionInverse { projection: Projection, x: Binary64, y: Binary64 },
    /// A Helmert transformation of geocentric coordinates.
    Helmert { params: HelmertParams, inverse: bool, coord: Coord3D },
    /// An affine transformation of geocentric coordinates.
    GeocentricAffine { params: GeocentricAffineParams, inverse: bool, coord: Coord3D },
    /// A datum grid applied to longitude and latitude in radians.
    GridShift {
        handle: GridHandle,
        direction: GridShiftDirection,
        lon: Binary64,
        lat: Binary64,
    },
    /// Longitude, latitude and ellipsoidal height into X, Y and Z.
    GeodeticToGeocentric { ellipsoid: Ellipsoid, coord: Coord3D },
    /// X, Y and Z into longitude, latitude and ellipsoidal height.
    GeocentricToGeodetic { ellipsoid: Ellipsoid, coord: Coord3D },
}

/// Why an execution has not come to a coordinate.
#[derive(Debug, PartialEq, Eq)]
pub enum Halt {
    /// It failed.
    Failed(Error),
    /// It waits for the reply to this request.
    Pending(NumericRequest),
}

/// What a [`Halt`] says.
pub enum HaltView {
    Failed(ErrorView),
    Pending(NumericRequest),
}

impl View for Halt {
    type V = HaltView;

    open spec fn view(&self) -> HaltView {
        match *self {
            Halt::Failed(error) => HaltView::Failed(error@),
            Halt::Pending(request) => HaltView::Pending(request),
        }
    }
}

/// The replies to the requests made so far.
pub type Replies = Map<NumericRequest, Result<Coord3D, ErrorView>>;

/// A reply, with the text of an error as a sequence of characters.
pub open spec fn reply_view(reply: Result<Coord3D, Error>) -> Result<Coord3D, ErrorView> {
    match reply {
        Ok(coord) => Ok(coord),
        Err(error) => Err(error@),
    }
}

/// The outcome of an execution, with the text of an error as a sequence of
/// characters.
pub open spec fn outcome<T>(result: Result<T, Halt>) -> Result<T, HaltView> {
    match result {
        Ok(value) => Ok(value),
        Err(halt) => Err(halt@),
    }
}

/// What `replies` make of a request: its reply, or a halt that waits for it.
pub open spec fn asked(replies: Replies, request: NumericRequest) -> Result<Coord3D, HaltView> {
    if replies.contains_key(request) {
        match replies[request] {
            Ok(coord) => Ok(coord),
            Err(error) => Err(HaltView::Failed(error)),
        }
    } else {
        Err(HaltView::Pending(request))
    }
}

/// The replies that a list records; a later one replaces an earlier one.
pub open spec fn recorded(entries: Seq<(NumericRequest, Result<Coord3D, Error>)>) -> Replies
    decreases entries.len(),
{
    if entries.len() == 0 {
        Map::empty()
    } else {
        recorded(entries.drop_last()).insert(entries.last().0, reply_view(entries.last().1))
    }
}

/// The replies to the numerical work of an execution.
pub struct Numerics {
    entries: Vec<(NumericRequest, Result<Coord3D, Error>)>,
}

impl View for Numerics {
    type V = Replies;

    closed spec fn view(&self) -> Replies {
        recorded(self.entries@)
    }
}

impl Numerics {
    /// No replies.
    pub fn new() -> (numerics: Numerics)
        ensures
            numerics@ == Replies::empty(),
    {
        Numerics { entries: Vec::new() }
    }

    /// Records the reply to a request.
    pub fn record(&mut self, request: NumericRequest, reply: Result<Coord3D, Error>)
        ensures
            final(self)@ == old(self)@.insert(request, reply_view(reply)),
    {
        self.entries.push((request, reply));
        assert(self.entries@.drop_last() =~= old(self).entries@);
    }

    /// The reply to a request, or a halt that waits for it.
    pub fn compute(&self, request: NumericRequest) -> (result: Result<Coord3D, Halt>)
        ensures
            outcome(result) == asked(self@, request),
    {
        let mut i: usize = self.entries.len();
        assert(self.entries@.take(i as int) =~= self.entries@);
        while i > 0
            invariant
                i <= self.entries@.len(),
                asked(recorded(self.entries@.take(i as int)), request) == asked(self@, request),
            decreases i,
        {
            let ghost prefix = self.entries@.take(i as int);
            i = i - 1;
            proof {
                assert(prefix.drop_last() =~= self.entries@.take(i as int));
                assert(prefix.last() == self.entries@[i as int]);
            }
            if self.entries[i].0 == request {
                return match &self.entries[i].1 {
                    Ok(coord) => Ok(*coord),
                    Err(error) => Err(Halt::Failed(error.clone())),
                };
            }
        }
        Err(Halt::Pending(request))
    }
}

} // verus!
