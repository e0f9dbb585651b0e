//! Executing a compiled pipeline on one coordinate.
//!
//! An execution runs as far as the recorded replies allow. It comes to a
//! coordinate or to an error, or it halts and names the numerical work that is
//! due next; with the reply recorded, executing again gets past that point.
use vstd::prelude::*;
use crate::binary64::Binary64;
use crate::coord::{Coord, Coord3D};
use crate::error::{Error, ErrorView, GridError, GridErrorView};
use crate::numerics::{asked, outcome, Halt, HaltView, NumericRequest, Numerics, Replies};
use crate::operation::{GridHandle, GridShiftDirection};
use crate::pipeline::CompiledOperationPipeline;
use crate::step::{CompiledStep, HeightStack, Step, StepList};
use crate::units::{
    denormalized, normalized, PipelineSourceXyUnits, PipelineTargetXyUnits,
};
use crate::validate::{not_finite, validate_pipeline_coord, validate_pipeline_coord3d};

verus! {

/// What a list of grids makes of a coordinate.
pub enum Coverage {
    /// The first grid that covers it shifted it.
    Shifted(Coord3D),
    /// No grid covers it; the text is that of the last grid tried.
    Missed(Option<Seq<char>>),
    /// A grid failed otherwise, or its reply is missing.
    Halted(HaltView),
}

/// Tries the grids in order. One that does not cover the coordinate gives way
/// to the next; `miss` is the text of the grid tried before the first.
pub open spec fn coverage(
    handles: Seq<GridHandle>,
    direction: GridShiftDirection,
    coord: Coord3D,
    miss: Option<Seq<char>>,
    replies: Replies,
) -> Coverage
    decreases handles.len(),
{
    if handles.len() == 0 {
        Coverage::Missed(miss)
    } else {
        match asked(
            replies,
            NumericRequest::GridShift {
                handle: handles[0],
                direction,
                lon: coord.x,
                lat: coord.y,
            },
        ) {
            Ok(shifted) => Coverage::Shifted(shifted),
            Err(
                HaltView::Failed(ErrorView::Grid(GridErrorView::OutsideCoverage(detail))),
            ) => coverage(handles.drop_first(), direction, coord, Some(detail), replies),
            Err(halt) => Coverage::Halted(halt),
        }
    }
}

/// A reply of which x and y are read: the height stays.
pub open spec fn planar_reply(reply: Result<Coord3D, HaltView>, coord: Coord3D) -> Result<
    Coord3D,
    HaltView,
> {
    match reply {
        Ok(moved) => Ok(Coord3D { x: moved.x, y: moved.y, z: coord.z }),
        Err(halt) => Err(halt),
    }
}

/// What a step makes of a coordinate, before the check for finite ordinates.
pub open spec fn step_reply(step: Step, coord: Coord3D, replies: Replies) -> Result<
    Coord3D,
    HaltView,
> {
    match step {
        Step::ProjectionForward { projection } => planar_reply(
            asked(
                replies,
                NumericRequest::ProjectionForward { projection, lon: coord.x, lat: coord.y },
            ),
            coord,
        ),
        Step::ProjectionInverse { projection } => planar_reply(
            asked(replies, NumericRequest::ProjectionInverse { projection, x: coord.x, y: coord.y }),
            coord,
        ),
        Step::Helmert { params, inverse } => asked(
            replies,
            NumericRequest::Helmert { params, inverse, coord },
        ),
        Step::GeocentricAffine { params, inverse } => asked(
            replies,
            NumericRequest::GeocentricAffine { params, inverse, coord },
        ),
        Step::GridShift { handle, direction } => planar_reply(
            asked(
                replies,
                NumericRequest::GridShift { handle, direction, lon: coord.x, lat: coord.y },
            ),
            coord,
        ),
        Step::GridShiftList { handles, allow_null, direction } => match coverage(
            handles,
            direction,
            coord,
            None,
            replies,
        ) {
            Coverage::Shifted(shifted) => Ok(Coord3D { x: shifted.x, y: shifted.y, z: coord.z }),
            Coverage::Missed(miss) => if allow_null {
                Ok(coord)
            } else {
                Err(
                    HaltView::Failed(
                        ErrorView::Grid(
                            GridErrorView::OutsideCoverage(
                                match miss {
                                    Some(detail) => detail,
                                    None => "no datum grid covered coordinate"@,
                                },
                            ),
                        ),
                    ),
                )
            },
            Coverage::Halted(halt) => Err(halt),
        },
        Step::GeodeticToGeocentric { ellipsoid } => asked(
            replies,
            NumericRequest::GeodeticToGeocentric { ellipsoid, coord },
        ),
        Step::GeocentricToGeodetic { ellipsoid } => asked(
            replies,
            NumericRequest::GeocentricToGeodetic { ellipsoid, coord },
        ),
        Step::PushHeight | Step::PopHeight => Err(
            HaltView::Failed(
                ErrorView::InvalidDefinition(
                    "height passthrough steps must be executed with a stack"@,
                ),
            ),
        ),
    }
}

/// What a step makes of a coordinate: its reply, if the ordinates are finite.
pub open spec fn step_outcome(step: Step, coord: Coord3D, replies: Replies) -> Result<
    Coord3D,
    HaltView,
> {
    match step_reply(step, coord, replies) {
        Ok(moved) => if moved.finite() {
            Ok(moved)
        } else {
            Err(HaltView::Failed(not_finite("pipeline step output"@)))
        },
        Err(halt) => Err(halt),
    }
}

/// What a sequence of steps makes of a coordinate, with `heights` saved before.
pub open spec fn steps_outcome(
    steps: Seq<Step>,
    coord: Coord3D,
    heights: Seq<Binary64>,
    replies: Replies,
) -> Result<Coord3D, HaltView>
    decreases steps.len(),
{
    if steps.len() == 0 {
        if heights.len() == 0 {
            Ok(coord)
        } else {
            Err(
                HaltView::Failed(
                    ErrorView::InvalidDefinition("2D height passthrough left values on the stack"@),
                ),
            )
        }
    } else {
        match steps[0] {
            Step::PushHeight => steps_outcome(
                steps.drop_first(),
                coord,
                heights.push(coord.z),
                replies,
            ),
            Step::PopHeight => if heights.len() == 0 {
                Err(
                    HaltView::Failed(
                        ErrorView::InvalidDefinition(
                            "2D height passthrough popped with an empty stack"@,
                        ),
                    ),
                )
            } else {
                steps_outcome(
                    steps.drop_first(),
                    Coord3D { x: coord.x, y: coord.y, z: heights.last() },
                    heights.drop_last(),
                    replies,
                )
            },
            step => match step_outcome(step, coord, replies) {
                Ok(moved) => steps_outcome(steps.drop_first(), moved, heights, replies),
                Err(halt) => Err(halt),
            },
        }
    }
}

/// The failure of the 2D interface on a geocentric endpoint.
pub open spec fn needs_height() -> ErrorView {
    ErrorView::InvalidDefinition(
        "geocentric (ECEF) transforms require convert_3d; the 2D convert API cannot represent Z"@,
    )
}

/// The coordinate in space that a pipeline makes of `coord`, up to the check
/// for finite ordinates. A pipeline without steps hands the coordinate back as
/// it came, once it passed the checks of the source system.
pub open spec fn pipeline_reply(
    pipeline: CompiledOperationPipeline,
    coord: Coord3D,
    replies: Replies,
) -> Result<Coord3D, HaltView> {
    match normalized(pipeline.source_xy_units, coord, replies) {
        Ok(state) => if pipeline.steps@.len() == 0 {
            Ok(coord)
        } else {
            match steps_outcome(pipeline.steps@, state, Seq::empty(), replies) {
                Ok(moved) => match denormalized(pipeline.target_xy_units, moved, replies) {
                    Ok(xy) => Ok(Coord3D { x: xy.x, y: xy.y, z: moved.z }),
                    Err(halt) => Err(halt),
                },
                Err(halt) => Err(halt),
            }
        },
        Err(halt) => Err(halt),
    }
}

/// What a pipeline makes of a coordinate in space.
pub open spec fn pipeline_outcome_xyz(
    pipeline: CompiledOperationPipeline,
    coord: Coord3D,
    replies: Replies,
) -> Result<Coord3D, HaltView> {
    match pipeline_reply(pipeline, coord, replies) {
        Ok(output) => if output.finite() {
            Ok(output)
        } else {
            Err(HaltView::Failed(not_finite("pipeline final output"@)))
        },
        Err(halt) => Err(halt),
    }
}

/// What a pipeline makes of a coordinate of which only x and y come back.
pub open spec fn pipeline_outcome_xy(
    pipeline: CompiledOperationPipeline,
    coord: Coord3D,
    replies: Replies,
) -> Result<Coord, HaltView> {
    if pipeline.has_geocentric_endpoint() {
        Err(HaltView::Failed(needs_height()))
    } else {
        match pipeline_reply(pipeline, coord, replies) {
            Ok(output) => if output.planar().finite() {
                Ok(output.planar())
            } else {
                Err(HaltView::Failed(not_finite("pipeline final output"@)))
            },
            Err(halt) => Err(halt),
        }
    }
}

/// Tries the grids in order: the first that covers the coordinate shifts it.
/// Without one, the text of the last grid tried comes back.
fn first_covering(
    handles: &Vec<GridHandle>,
    direction: GridShiftDirection,
    coord: Coord3D,
    numerics: &Numerics,
) -> (result: Result<Result<Coord3D, Option<String>>, Halt>)
    ensures
        match coverage(handles@, direction, coord, None, numerics@) {
            Coverage::Shifted(shifted) => result matches Ok(Ok(found)) && found == shifted,
            Coverage::Missed(None) => result matches Ok(Err(None)),
            Coverage::Missed(Some(detail)) => result matches Ok(Err(Some(text))) && text@ == detail,
            Coverage::Halted(halt) => result matches Err(halted) && halted@ == halt,
        },
{
    let mut last_coverage_miss: Option<String> = None;
    let ghost mut miss: Option<Seq<char>> = None;
    let mut i: usize = 0;
    assert(handles@.skip(0) =~= handles@);
    while i < handles.len()
        invariant
            i <= handles@.len(),
            coverage(handles@, direction, coord, None, numerics@) == coverage(
                handles@.skip(i as int),
                direction,
                coord,
                miss,
                numerics@,
            ),
            match last_coverage_miss {
                Some(text) => miss == Some(text@),
                None => miss is None,
            },
        decreases handles@.len() - i,
    {
        proof {
            assert(handles@.skip(i as int).drop_first() =~= handles@.skip(i + 1));
        }
        match numerics.compute(
            NumericRequest::GridShift {
                handle: handles[i],
                direction,
                lon: coord.x,
                lat: coord.y,
            },
        ) {
            Ok(shifted) => {
                return Ok(Ok(shifted));
            },
            Err(Halt::Failed(Error::Grid(GridError::OutsideCoverage(detail)))) => {
                proof {
                    miss = Some(detail@);
                }
                last_coverage_miss = Some(detail);
            },
            Err(halt) => {
                return Err(halt);
            },
        }
        i = i + 1;
    }
    Ok(Err(last_coverage_miss))
}

/// Executes one step other than a height passthrough.
pub fn execute_step(step: &CompiledStep, coord: Coord3D, numerics: &Numerics) -> (result: Result<
    Coord3D,
    Halt,
>)
    ensures
        outcome(result) == step_outcome(step@, coord, numerics@),
{
    let moved = match step {
        CompiledStep::ProjectionForward { projection } => {
            let reply = numerics.compute(
                NumericRequest::ProjectionForward {
                    projection: *projection,
                    lon: coord.x,
                    lat: coord.y,
                },
            )?;
            Coord3D::new(reply.x, reply.y, coord.z)
        },
        CompiledStep::ProjectionInverse { projection } => {
            let reply = numerics.compute(
                NumericRequest::ProjectionInverse {
                    projection: *projection,
                    x: coord.x,
                    y: coord.y,
                },
            )?;
            Coord3D::new(reply.x, reply.y, coord.z)
        },
        CompiledStep::Helmert { params, inverse } => {
            numerics.compute(NumericRequest::Helmert { params: *params, inverse: *inverse, coord })?
        },
        CompiledStep::GeocentricAffine { params, inverse } => {
            numerics.compute(
                NumericRequest::GeocentricAffine { params: *params, inverse: *inverse, coord },
            )?
        },
        CompiledStep::GridShift { handle, direction } => {
            let reply = numerics.compute(
                NumericRequest::GridShift {
                    handle: *handle,
                    direction: *direction,
                    lon: coord.x,
                    lat: coord.y,
                },
            )?;
            Coord3D::new(reply.x, reply.y, coord.z)
        },
        CompiledStep::GridShiftList { handles, allow_null, direction } => {
            match first_covering(handles, *direction, coord, numerics)? {
                Ok(shifted) => Coord3D::new(shifted.x, shifted.y, coord.z),
                Err(last_coverage_miss) => {
                    if *allow_null {
                        coord
                    } else {
                        let detail = match last_coverage_miss {
                            Some(detail) => detail,
                            None => String::from_str("no datum grid covered coordinate"),
                        };
                        return Err(Halt::Failed(Error::Grid(GridError::OutsideCoverage(detail))));
                    }
                },
            }
        },
        CompiledStep::GeodeticToGeocentric { ellipsoid } => {
            numerics.compute(NumericRequest::GeodeticToGeocentric { ellipsoid: *ellipsoid, coord })?
        },
        CompiledStep::GeocentricToGeodetic { ellipsoid } => {
            numerics.compute(NumericRequest::GeocentricToGeodetic { ellipsoid: *ellipsoid, coord })?
        },
        CompiledStep::PushHeight | CompiledStep::PopHeight => {
            return Err(
                Halt::Failed(
                    Error::InvalidDefinition(
                        String::from_str("height passthrough steps must be executed with a stack"),
                    ),
                ),
            );
        },
    };
    match validate_pipeline_coord3d("pipeline step output", moved) {
        Ok(_) => Ok(moved),
        Err(error) => Err(Halt::Failed(error)),
    }
}

/// Executes the steps in order. A saved height is restored by the matching
/// step, whatever the steps between them did to it.
pub fn execute_steps(steps: &StepList, coord: Coord3D, numerics: &Numerics) -> (result: Result<
    Coord3D,
    Halt,
>)
    ensures
        outcome(result) == steps_outcome(steps@, coord, Seq::empty(), numerics@),
{
    let mut state: Coord3D = coord;
    let mut height_stack = HeightStack::new();
    let mut i: usize = 0;
    let len: usize = steps.len();
    assert(steps@.skip(0) =~= steps@);
    while i < len
        invariant
            i <= len == steps@.len(),
            steps_outcome(steps@, coord, Seq::empty(), numerics@) == steps_outcome(
                steps@.skip(i as int),
                state,
                height_stack@,
                numerics@,
            ),
        decreases len - i,
    {
        proof {
            assert(steps@.skip(i as int).drop_first() =~= steps@.skip(i + 1));
        }
        let step = steps.at(i);
        match step {
            CompiledStep::PushHeight => {
                height_stack.push(state.z);
            },
            CompiledStep::PopHeight => {
                match height_stack.pop() {
                    Some(z) => {
                        state = Coord3D::new(state.x, state.y, z);
                    },
                    None => {
                        return Err(
                            Halt::Failed(
                                Error::InvalidDefinition(
                                    String::from_str(
                                        "2D height passthrough popped with an empty stack",
                                    ),
                                ),
                            ),
                        );
                    },
                }
            },
            other => {
                state = execute_step(other, state, numerics)?;
            },
        }
        i = i + 1;
    }
    if !height_stack.is_empty() {
        return Err(
            Halt::Failed(
                Error::InvalidDefinition(
                    String::from_str("2D height passthrough left values on the stack"),
                ),
            ),
        );
    }
    Ok(state)
}

/// Refuses a pipeline with a geocentric endpoint, whose output has a Z.
pub fn require_xy_pipeline_supported(pipeline: &CompiledOperationPipeline) -> (result: Result<
    (),
    Error,
>)
    ensures
        match result {
            Ok(_) => !pipeline.has_geocentric_endpoint(),
            Err(error) => pipeline.has_geocentric_endpoint() && error@ == needs_height(),
        },
{
    if matches!(pipeline.source_xy_units, PipelineSourceXyUnits::GeocentricMeters)
        || matches!(pipeline.target_xy_units, PipelineTargetXyUnits::GeocentricMeters) {
        return Err(
            Error::InvalidDefinition(
                String::from_str(
                    "geocentric (ECEF) transforms require convert_3d; the 2D convert API cannot represent Z",
                ),
            ),
        );
    }
    Ok(())
}

/// Executes a pipeline of which only x and y come back.
pub fn execute_pipeline_xy(
    pipeline: &CompiledOperationPipeline,
    c: Coord3D,
    numerics: &Numerics,
) -> (result: Result<Coord, Halt>)
    ensures
        outcome(result) == pipeline_outcome_xy(*pipeline, c, numerics@),
{
    match require_xy_pipeline_supported(pipeline) {
        Ok(_) => {},
        Err(error) => {
            return Err(Halt::Failed(error));
        },
    }
    let state = pipeline.source_xy_units.normalize(c, numerics)?;
    let output = if pipeline.steps.is_empty() {
        Coord::new(c.x, c.y)
    } else {
        let moved = execute_steps(&pipeline.steps, state, numerics)?;
        pipeline.target_xy_units.denormalize(moved, numerics)?
    };
    match validate_pipeline_coord("pipeline final output", output) {
        Ok(_) => Ok(output),
        Err(error) => Err(Halt::Failed(error)),
    }
}

/// Executes a pipeline. The height is in metres throughout; the adapters for x
/// and y do not touch it.
pub fn execute_pipeline_xyz(
    pipeline: &CompiledOperationPipeline,
    c: Coord3D,
    numerics: &Numerics,
) -> (result: Result<Coord3D, Halt>)
    ensures
        outcome(result) == pipeline_outcome_xyz(*pipeline, c, numerics@),
{
    let state = pipeline.source_xy_units.normalize(c, numerics)?;
    let output = if pipeline.steps.is_empty() {
        c
    } else {
        let moved = execute_steps(&pipeline.steps, state, numerics)?;
        let xy = pipeline.target_xy_units.denormalize(moved, numerics)?;
        Coord3D::new(xy.x, xy.y, moved.z)
    };
    match validate_pipeline_coord3d("pipeline final output", output) {
        Ok(_) => Ok(output),
        Err(error) => Err(Halt::Failed(error)),
    }
}

} // verus!
