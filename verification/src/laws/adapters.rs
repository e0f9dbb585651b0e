//! What a pipeline makes of a coordinate at its two ends.
use vstd::prelude::*;
use crate::binary64::Binary64;
use crate::coord::{Coord, Coord3D};
use crate::crs::{CrsDef, LinearUnit};
use crate::error::ErrorView;
use crate::execute::{pipeline_outcome_xy, pipeline_outcome_xyz, steps_outcome};
use crate::height::transforms_height;
use crate::numerics::{HaltView, NumericRequest, Replies};
use crate::pipeline::CompiledOperationPipeline;
use crate::units::{
    denormalized, normalized, source_units, target_units, PipelineSourceXyUnits,
    PipelineTargetXyUnits,
};

verus! {

/// Whether a request was answered with a coordinate.
pub open spec fn answered(replies: Replies, request: NumericRequest, reply: Coord3D) -> bool {
    replies.contains_key(request) && replies[request] == Ok::<Coord3D, ErrorView>(reply)
}

/// Whether a request holds a run up: it has no reply, or its reply is an error.
pub open spec fn holds_up(replies: Replies, request: NumericRequest, halt: HaltView) -> bool {
    if replies.contains_key(request) {
        replies[request] matches Err(error) && halt == HaltView::Failed(error)
    } else {
        halt == HaltView::Pending(request)
    }
}

/// Degrees come into a pipeline exactly if they became radians that passed the
/// check of longitude and latitude; they come in as those, with their height.
pub proof fn law_degrees_come_in_as_checked_radians(
    outside: Coord3D,
    inside: Coord3D,
    replies: Replies,
)
    ensures
        (normalized(PipelineSourceXyUnits::GeographicDegrees, outside, replies) == Ok::<
            Coord3D,
            HaltView,
        >(inside)) == (exists|radians: Coord3D, pass: Coord3D|
            answered(
                replies,
                NumericRequest::ToRadians { x: outside.x, y: outside.y },
                radians,
            ) && #[trigger] answered(
                replies,
                NumericRequest::ValidateLonLat { lon: radians.x, lat: radians.y },
                pass,
            ) && inside == (Coord3D { x: radians.x, y: radians.y, z: outside.z })),
{
    if normalized(PipelineSourceXyUnits::GeographicDegrees, outside, replies) is Ok {
        let convert = NumericRequest::ToRadians { x: outside.x, y: outside.y };
        let radians = replies[convert]->Ok_0;
        let check = NumericRequest::ValidateLonLat { lon: radians.x, lat: radians.y };
        let pass = replies[check]->Ok_0;
        assert(answered(replies, convert, radians));
        assert(answered(replies, check, pass));
    }
}

/// Whatever holds up the conversion of degrees, or else the check of the radians,
/// holds up the coordinate.
pub proof fn law_degrees_are_held_up(
    outside: Coord3D,
    radians: Coord3D,
    halt: HaltView,
    replies: Replies,
)
    ensures
        holds_up(replies, NumericRequest::ToRadians { x: outside.x, y: outside.y }, halt)
            ==> normalized(PipelineSourceXyUnits::GeographicDegrees, outside, replies) == Err::<
            Coord3D,
            HaltView,
        >(halt),
        answered(replies, NumericRequest::ToRadians { x: outside.x, y: outside.y }, radians)
            && holds_up(
            replies,
            NumericRequest::ValidateLonLat { lon: radians.x, lat: radians.y },
            halt,
        ) ==> normalized(PipelineSourceXyUnits::GeographicDegrees, outside, replies) == Err::<
            Coord3D,
            HaltView,
        >(halt),
{
}

/// Geocentric metres come in as they are, if all three are finite.
pub proof fn law_geocentric_metres_come_in_as_they_are(outside: Coord3D, replies: Replies)
    ensures
        outside.x.finite() && outside.y.finite() && outside.z.finite() ==> normalized(
            PipelineSourceXyUnits::GeocentricMeters,
            outside,
            replies,
        ) == Ok::<Coord3D, HaltView>(outside),
        !(outside.x.finite() && outside.y.finite() && outside.z.finite()) ==> normalized(
            PipelineSourceXyUnits::GeocentricMeters,
            outside,
            replies,
        ) == Err::<Coord3D, HaltView>(
            HaltView::Failed(
                ErrorView::OutOfRange("geocentric input coordinate must be finite"@),
            ),
        ),
{
    reveal_strlit("geocentric input coordinate");
    reveal_strlit(" must be finite");
    reveal_strlit("geocentric input coordinate must be finite");
    assert("geocentric input coordinate"@ + " must be finite"@
        =~= "geocentric input coordinate must be finite"@);
}

/// Projected metres come in as they are, once easting and northing passed the check.
pub proof fn law_projected_metres_come_in_checked(
    outside: Coord3D,
    pass: Coord3D,
    halt: HaltView,
    replies: Replies,
)
    ensures
        answered(
            replies,
            NumericRequest::ValidateProjected { x: outside.x, y: outside.y },
            pass,
        ) ==> normalized(PipelineSourceXyUnits::ProjectedMeters, outside, replies) == Ok::<
            Coord3D,
            HaltView,
        >(outside),
        holds_up(
            replies,
            NumericRequest::ValidateProjected { x: outside.x, y: outside.y },
            halt,
        ) ==> normalized(PipelineSourceXyUnits::ProjectedMeters, outside, replies) == Err::<
            Coord3D,
            HaltView,
        >(halt),
{
}

/// Other linear units come in as metres, checked before and after the conversion by
/// their own unit. What holds up one of the three in this order holds up the
/// coordinate.
pub proof fn law_other_units_come_in_as_checked_metres(
    unit: LinearUnit,
    outside: Coord3D,
    pass: Coord3D,
    metres: Coord3D,
    again: Coord3D,
    halt: HaltView,
    replies: Replies,
)
    ensures
        ({
            let before = NumericRequest::ValidateProjected { x: outside.x, y: outside.y };
            let convert = NumericRequest::ToMeters { unit, x: outside.x, y: outside.y };
            let after = NumericRequest::ValidateProjected { x: metres.x, y: metres.y };
            let result = normalized(
                PipelineSourceXyUnits::ProjectedNativeToMeters(unit),
                outside,
                replies,
            );
            &&& holds_up(replies, before, halt) ==> result == Err::<Coord3D, HaltView>(halt)
            &&& answered(replies, before, pass) && holds_up(replies, convert, halt) ==> result
                == Err::<Coord3D, HaltView>(halt)
            &&& answered(replies, before, pass) && answered(replies, convert, metres) && holds_up(
                replies,
                after,
                halt,
            ) ==> result == Err::<Coord3D, HaltView>(halt)
            &&& answered(replies, before, pass) && answered(replies, convert, metres) && answered(
                replies,
                after,
                again,
            ) ==> result == Ok::<Coord3D, HaltView>(
                Coord3D { x: metres.x, y: metres.y, z: outside.z },
            )
        }),
{
}

/// A coordinate leaves a pipeline in degrees or in another linear unit as the
/// conversion of its x and y, and in metres as it is. What holds up the conversion
/// holds up the coordinate.
pub proof fn law_coordinates_leave_converted(
    unit: LinearUnit,
    inside: Coord3D,
    reply: Coord3D,
    halt: HaltView,
    replies: Replies,
)
    ensures
        denormalized(PipelineTargetXyUnits::GeocentricMeters, inside, replies) == Ok::<
            Coord,
            HaltView,
        >(Coord { x: inside.x, y: inside.y }),
        denormalized(PipelineTargetXyUnits::ProjectedMeters, inside, replies) == Ok::<
            Coord,
            HaltView,
        >(Coord { x: inside.x, y: inside.y }),
        answered(replies, NumericRequest::ToDegrees { x: inside.x, y: inside.y }, reply)
            ==> denormalized(PipelineTargetXyUnits::GeographicDegrees, inside, replies) == Ok::<
            Coord,
            HaltView,
        >(Coord { x: reply.x, y: reply.y }),
        holds_up(replies, NumericRequest::ToDegrees { x: inside.x, y: inside.y }, halt)
            ==> denormalized(PipelineTargetXyUnits::GeographicDegrees, inside, replies) == Err::<
            Coord,
            HaltView,
        >(halt),
        answered(replies, NumericRequest::FromMeters { unit, x: inside.x, y: inside.y }, reply)
            ==> denormalized(PipelineTargetXyUnits::ProjectedMetersToNative(unit), inside, replies)
            == Ok::<Coord, HaltView>(Coord { x: reply.x, y: reply.y }),
        holds_up(replies, NumericRequest::FromMeters { unit, x: inside.x, y: inside.y }, halt)
            ==> denormalized(PipelineTargetXyUnits::ProjectedMetersToNative(unit), inside, replies)
            == Err::<Coord, HaltView>(halt),
{
}

/// The units of a system are those of its kind: degrees of a geographic one, metres
/// of a geocentric one, and of a projected one its own linear unit, which is not
/// converted exactly if one of it is one metre.
pub proof fn law_units_follow_the_kind_of_system(crs: CrsDef, unit: LinearUnit)
    ensures
        (source_units(crs) is GeographicDegrees) == (crs is Geographic),
        (source_units(crs) is GeocentricMeters) == (crs is Geocentric),
        (source_units(crs) is ProjectedMeters) == (crs matches CrsDef::Projected(projected)
            && projected.linear_unit.to_meter.bits == 0x3FF0_0000_0000_0000u64),
        (source_units(crs) == PipelineSourceXyUnits::ProjectedNativeToMeters(unit)) == (
        crs matches CrsDef::Projected(projected) && projected.linear_unit == unit
            && unit.to_meter.bits != 0x3FF0_0000_0000_0000u64),
        (target_units(crs) is GeographicDegrees) == (crs is Geographic),
        (target_units(crs) is GeocentricMeters) == (crs is Geocentric),
        (target_units(crs) is ProjectedMeters) == (source_units(crs) is ProjectedMeters),
        (target_units(crs) == PipelineTargetXyUnits::ProjectedMetersToNative(unit)) == (
        source_units(crs) == PipelineSourceXyUnits::ProjectedNativeToMeters(unit)),
{
}

/// The flag of a pipeline says that it changes height exactly if an end is geocentric or
/// its steps change height.
pub proof fn law_height_flag(pipeline: CompiledOperationPipeline)
    ensures
        pipeline.well_formed() == (pipeline.transforms_ellipsoidal_height == (
        pipeline.source_xy_units is GeocentricMeters || pipeline.target_xy_units is GeocentricMeters
            || transforms_height(pipeline.steps@))),
{
}

/// Three ordinates as the result of a pipeline: they have to be finite.
pub open spec fn given_back(x: Binary64, y: Binary64, z: Binary64) -> Result<Coord3D, HaltView> {
    if x.finite() && y.finite() && z.finite() {
        Ok(Coord3D { x, y, z })
    } else {
        Err(HaltView::Failed(ErrorView::OutOfRange("pipeline final output must be finite"@)))
    }
}

/// Two ordinates as the result of a pipeline: they have to be finite.
pub open spec fn given_back_flat(x: Binary64, y: Binary64) -> Result<Coord, HaltView> {
    if x.finite() && y.finite() {
        Ok(Coord { x, y })
    } else {
        Err(HaltView::Failed(ErrorView::OutOfRange("pipeline final output must be finite"@)))
    }
}

proof fn lemma_output_text()
    ensures
        "pipeline final output"@ + " must be finite"@ == "pipeline final output must be finite"@,
{
    reveal_strlit("pipeline final output");
    reveal_strlit(" must be finite");
    reveal_strlit("pipeline final output must be finite");
    assert("pipeline final output"@ + " must be finite"@
        =~= "pipeline final output must be finite"@);
}

/// A run of a pipeline with steps: the coordinate comes in, the steps run on what
/// came in, and what they gave leaves, with the height that they gave. What holds up
/// one of these holds up the run.
pub proof fn law_pipeline_runs_in_through_and_out(
    pipeline: CompiledOperationPipeline,
    coord: Coord3D,
    replies: Replies,
)
    requires
        pipeline.steps@.len() > 0,
        !(pipeline.source_xy_units is GeocentricMeters),
        !(pipeline.target_xy_units is GeocentricMeters),
    ensures
        match normalized(pipeline.source_xy_units, coord, replies) {
            Err(halt) => pipeline_outcome_xyz(pipeline, coord, replies) == Err::<
                Coord3D,
                HaltView,
            >(halt) && pipeline_outcome_xy(pipeline, coord, replies) == Err::<Coord, HaltView>(
                halt,
            ),
            Ok(inside) => match steps_outcome(pipeline.steps@, inside, Seq::empty(), replies) {
                Err(halt) => pipeline_outcome_xyz(pipeline, coord, replies) == Err::<
                    Coord3D,
                    HaltView,
                >(halt) && pipeline_outcome_xy(pipeline, coord, replies) == Err::<Coord, HaltView>(
                    halt,
                ),
                Ok(moved) => match denormalized(pipeline.target_xy_units, moved, replies) {
                    Err(halt) => pipeline_outcome_xyz(pipeline, coord, replies) == Err::<
                        Coord3D,
                        HaltView,
                    >(halt) && pipeline_outcome_xy(pipeline, coord, replies) == Err::<
                        Coord,
                        HaltView,
                    >(halt),
                    Ok(out) => pipeline_outcome_xyz(pipeline, coord, replies) == given_back(
                        out.x,
                        out.y,
                        moved.z,
                    ) && pipeline_outcome_xy(pipeline, coord, replies) == given_back_flat(
                        out.x,
                        out.y,
                    ),
                },
            },
        },
{
    lemma_output_text();
}

/// The same of a pipeline with a geocentric end, which has no planar interface.
pub proof fn law_geocentric_pipeline_runs_in_through_and_out(
    pipeline: CompiledOperationPipeline,
    coord: Coord3D,
    replies: Replies,
)
    requires
        pipeline.source_xy_units is GeocentricMeters || pipeline.target_xy_units is GeocentricMeters,
    ensures
        pipeline_outcome_xy(pipeline, coord, replies) == Err::<Coord, HaltView>(
            HaltView::Failed(
                ErrorView::InvalidDefinition(
                    "geocentric (ECEF) transforms require convert_3d; the 2D convert API cannot represent Z"@,
                ),
            ),
        ),
        pipeline.steps@.len() > 0 ==> match normalized(pipeline.source_xy_units, coord, replies) {
            Err(halt) => pipeline_outcome_xyz(pipeline, coord, replies) == Err::<
                Coord3D,
                HaltView,
            >(halt),
            Ok(inside) => match steps_outcome(pipeline.steps@, inside, Seq::empty(), replies) {
                Err(halt) => pipeline_outcome_xyz(pipeline, coord, replies) == Err::<
                    Coord3D,
                    HaltView,
                >(halt),
                Ok(moved) => match denormalized(pipeline.target_xy_units, moved, replies) {
                    Err(halt) => pipeline_outcome_xyz(pipeline, coord, replies) == Err::<
                        Coord3D,
                        HaltView,
                    >(halt),
                    Ok(out) => pipeline_outcome_xyz(pipeline, coord, replies) == given_back(
                        out.x,
                        out.y,
                        moved.z,
                    ),
                },
            },
        },
{
    lemma_output_text();
}

/// A pipeline without steps gives a coordinate back as it came, bit for bit, once it
/// passed the checks of the source system and if it is finite.
pub proof fn law_pipeline_without_steps_gives_back(
    pipeline: CompiledOperationPipeline,
    coord: Coord3D,
    replies: Replies,
)
    requires
        pipeline.steps@.len() == 0,
    ensures
        match normalized(pipeline.source_xy_units, coord, replies) {
            Err(halt) => pipeline_outcome_xyz(pipeline, coord, replies) == Err::<
                Coord3D,
                HaltView,
            >(halt),
            Ok(_) => pipeline_outcome_xyz(pipeline, coord, replies) == given_back(
                coord.x,
                coord.y,
                coord.z,
            ),
        },
        !(pipeline.source_xy_units is GeocentricMeters) && !(
        pipeline.target_xy_units is GeocentricMeters) ==> match normalized(
            pipeline.source_xy_units,
            coord,
            replies,
        ) {
            Err(halt) => pipeline_outcome_xy(pipeline, coord, replies) == Err::<Coord, HaltView>(
                halt,
            ),
            Ok(_) => pipeline_outcome_xy(pipeline, coord, replies) == given_back_flat(
                coord.x,
                coord.y,
            ),
        },
{
    lemma_output_text();
}

} // verus!
