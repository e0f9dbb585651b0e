//! Every reply brings an execution closer to its end.
use vstd::prelude::*;
use crate::binary64::Binary64;
use crate::coord::{Coord, Coord3D};
use crate::error::{ErrorView, GridErrorView};
use crate::execute::{
    coverage, pipeline_outcome_xy, pipeline_outcome_xyz, step_outcome, step_reply, steps_outcome,
    Coverage,
};
use crate::laws::execution::{lemma_step_stable, lemma_steps_stable};
use crate::numerics::{asked, HaltView, NumericRequest, Replies};
use crate::operation::{GridHandle, GridShiftDirection};
use crate::pipeline::CompiledOperationPipeline;
use crate::step::Step;
use crate::units::{denormalized, normalized, PipelineSourceXyUnits, PipelineTargetXyUnits};

verus! {

/// One if the request has a reply, or else none.
pub open spec fn replied(replies: Replies, request: NumericRequest) -> nat {
    if replies.contains_key(request) {
        1
    } else {
        0
    }
}

/// The number of grids whose reply was used.
pub open spec fn coverage_progress(
    handles: Seq<GridHandle>,
    direction: GridShiftDirection,
    coord: Coord3D,
    replies: Replies,
) -> nat
    decreases handles.len(),
{
    if handles.len() == 0 {
        0
    } else {
        let request = NumericRequest::GridShift {
            handle: handles[0],
            direction,
            lon: coord.x,
            lat: coord.y,
        };
        match asked(replies, request) {
            Err(HaltView::Failed(ErrorView::Grid(GridErrorView::OutsideCoverage(_)))) => 1
                + coverage_progress(handles.drop_first(), direction, coord, replies),
            _ => replied(replies, request),
        }
    }
}

/// How many replies a step got past: one for each grid that a list tried, and
/// one for any other step that waits for nothing.
pub open spec fn step_progress(step: Step, coord: Coord3D, replies: Replies) -> nat {
    match step {
        Step::GridShiftList { handles, direction, .. } => coverage_progress(
            handles,
            direction,
            coord,
            replies,
        ),
        _ => if step_reply(step, coord, replies) matches Err(HaltView::Pending(_)) {
            0
        } else {
            1
        },
    }
}

/// How many replies a sequence of steps got past.
pub open spec fn steps_progress(
    steps: Seq<Step>,
    coord: Coord3D,
    heights: Seq<Binary64>,
    replies: Replies,
) -> nat
    decreases steps.len(),
{
    if steps.len() == 0 {
        0
    } else {
        let rest = steps.drop_first();
        match steps[0] {
            Step::PushHeight => steps_progress(rest, coord, heights.push(coord.z), replies),
            Step::PopHeight => if heights.len() == 0 {
                0
            } else {
                steps_progress(
                    rest,
                    Coord3D { x: coord.x, y: coord.y, z: heights.last() },
                    heights.drop_last(),
                    replies,
                )
            },
            step => step_progress(step, coord, replies) + match step_outcome(
                step,
                coord,
                replies,
            ) {
                Ok(moved) => steps_progress(rest, moved, heights, replies),
                Err(_) => 0,
            },
        }
    }
}

/// The most replies that a sequence of steps can get past: one for each grid of
/// a list, and one for each other step.
pub open spec fn steps_work(steps: Seq<Step>) -> nat
    decreases steps.len(),
{
    if steps.len() == 0 {
        0
    } else {
        steps_work(steps.drop_first()) + match steps[0] {
            Step::GridShiftList { handles, .. } => handles.len(),
            _ => 1,
        }
    }
}

/// The number of replies that taking a coordinate into the pipeline used.
pub open spec fn entry_progress(
    units: PipelineSourceXyUnits,
    coord: Coord3D,
    replies: Replies,
) -> nat {
    match units {
        PipelineSourceXyUnits::GeographicDegrees => {
            let convert = NumericRequest::ToRadians { x: coord.x, y: coord.y };
            replied(replies, convert) + match asked(replies, convert) {
                Ok(radians) => replied(
                    replies,
                    NumericRequest::ValidateLonLat { lon: radians.x, lat: radians.y },
                ),
                Err(_) => 0,
            }
        },
        PipelineSourceXyUnits::GeocentricMeters => 0,
        PipelineSourceXyUnits::ProjectedMeters => replied(
            replies,
            NumericRequest::ValidateProjected { x: coord.x, y: coord.y },
        ),
        PipelineSourceXyUnits::ProjectedNativeToMeters(unit) => {
            let check = NumericRequest::ValidateProjected { x: coord.x, y: coord.y };
            let convert = NumericRequest::ToMeters { unit, x: coord.x, y: coord.y };
            replied(replies, check) + match asked(replies, check) {
                Ok(_) => replied(replies, convert) + match asked(replies, convert) {
                    Ok(metres) => replied(
                        replies,
                        NumericRequest::ValidateProjected { x: metres.x, y: metres.y },
                    ),
                    Err(_) => 0,
                },
                Err(_) => 0,
            }
        },
    }
}

/// One if taking a coordinate out of the pipeline waits for nothing, or else
/// none.
pub open spec fn exit_progress(
    units: PipelineTargetXyUnits,
    coord: Coord3D,
    replies: Replies,
) -> nat {
    match denormalized(units, coord, replies) {
        Err(HaltView::Pending(_)) => 0,
        _ => 1,
    }
}

/// How many replies an execution got past.
pub open spec fn pipeline_progress(
    pipeline: CompiledOperationPipeline,
    coord: Coord3D,
    replies: Replies,
) -> nat {
    entry_progress(pipeline.source_xy_units, coord, replies) + match normalized(
        pipeline.source_xy_units,
        coord,
        replies,
    ) {
        Ok(state) => if pipeline.steps@.len() == 0 {
            0
        } else {
            steps_progress(pipeline.steps@, state, Seq::empty(), replies) + match steps_outcome(
                pipeline.steps@,
                state,
                Seq::empty(),
                replies,
            ) {
                Ok(moved) => exit_progress(pipeline.target_xy_units, moved, replies),
                Err(_) => 0,
            }
        },
        Err(_) => 0,
    }
}

proof fn lemma_coverage_progress(
    handles: Seq<GridHandle>,
    direction: GridShiftDirection,
    coord: Coord3D,
    miss: Option<Seq<char>>,
    fewer: Replies,
    more: Replies,
)
    requires
        fewer.submap_of(more),
    ensures
        coverage_progress(handles, direction, coord, fewer) <= handles.len(),
        coverage_progress(handles, direction, coord, fewer) <= coverage_progress(
            handles,
            direction,
            coord,
            more,
        ),
        coverage(handles, direction, coord, miss, fewer) matches Coverage::Halted(
            HaltView::Pending(request),
        ) ==> (more.contains_key(request) ==> coverage_progress(handles, direction, coord, fewer)
            < coverage_progress(handles, direction, coord, more)),
    decreases handles.len(),
{
    if handles.len() > 0 {
        let request = NumericRequest::GridShift {
            handle: handles[0],
            direction,
            lon: coord.x,
            lat: coord.y,
        };
        if let Err(
            HaltView::Failed(ErrorView::Grid(GridErrorView::OutsideCoverage(detail))),
        ) = asked(fewer, request) {
            lemma_coverage_progress(
                handles.drop_first(),
                direction,
                coord,
                Some(detail),
                fewer,
                more,
            );
        }
    }
}

proof fn lemma_step_progress(step: Step, coord: Coord3D, fewer: Replies, more: Replies)
    requires
        fewer.submap_of(more),
    ensures
        step_progress(step, coord, fewer) <= steps_work(seq![step]),
        step_progress(step, coord, fewer) <= step_progress(step, coord, more),
        step_outcome(step, coord, fewer) matches Err(HaltView::Pending(request))
            ==> (more.contains_key(request) ==> step_progress(step, coord, fewer) < step_progress(
            step,
            coord,
            more,
        )),
{
    reveal_with_fuel(steps_work, 2);
    assert(seq![step].drop_first() =~= Seq::<Step>::empty());
    if let Step::GridShiftList { handles, allow_null, direction } = step {
        lemma_coverage_progress(handles, direction, coord, None, fewer, more);
    }
}

proof fn lemma_steps_progress(
    steps: Seq<Step>,
    coord: Coord3D,
    heights: Seq<Binary64>,
    fewer: Replies,
    more: Replies,
)
    requires
        fewer.submap_of(more),
    ensures
        steps_progress(steps, coord, heights, fewer) <= steps_work(steps),
        steps_progress(steps, coord, heights, fewer) <= steps_progress(
            steps,
            coord,
            heights,
            more,
        ),
        steps_outcome(steps, coord, heights, fewer) matches Err(HaltView::Pending(request))
            ==> (more.contains_key(request) ==> steps_progress(steps, coord, heights, fewer)
            < steps_progress(steps, coord, heights, more)),
    decreases steps.len(),
{
    if steps.len() > 0 {
        let rest = steps.drop_first();
        match steps[0] {
            Step::PushHeight => {
                lemma_steps_progress(rest, coord, heights.push(coord.z), fewer, more);
            },
            Step::PopHeight => {
                let restored = Coord3D { x: coord.x, y: coord.y, z: heights.last() };
                if heights.len() > 0 {
                    lemma_steps_progress(rest, restored, heights.drop_last(), fewer, more);
                }
            },
            step => {
                reveal_with_fuel(steps_work, 2);
                assert(seq![step].drop_first() =~= Seq::<Step>::empty());
                lemma_step_progress(step, coord, fewer, more);
                lemma_step_stable(step, coord, fewer, more);
                if let Ok(moved) = step_outcome(step, coord, fewer) {
                    lemma_steps_progress(rest, moved, heights, fewer, more);
                }
            },
        }
    }
}

proof fn lemma_entry_progress(
    units: PipelineSourceXyUnits,
    coord: Coord3D,
    fewer: Replies,
    more: Replies,
)
    requires
        fewer.submap_of(more),
    ensures
        entry_progress(units, coord, fewer) <= 3,
        entry_progress(units, coord, fewer) <= entry_progress(units, coord, more),
        normalized(units, coord, fewer) matches Err(HaltView::Pending(request)) ==> (
        more.contains_key(request) ==> entry_progress(units, coord, fewer) < entry_progress(
            units,
            coord,
            more,
        )),
        normalized(units, coord, fewer) is Ok ==> normalized(units, coord, more) == normalized(
            units,
            coord,
            fewer,
        ),
{
}

/// With the reply to the request that an execution waits for, in space or in the
/// plane, it gets past at least one reply more.
pub proof fn law_each_reply_makes_progress(
    pipeline: CompiledOperationPipeline,
    coord: Coord3D,
    replies: Replies,
    request: NumericRequest,
    reply: Result<Coord3D, ErrorView>,
)
    requires
        pipeline_outcome_xyz(pipeline, coord, replies) == Err::<Coord3D, HaltView>(
            HaltView::Pending(request),
        ) || pipeline_outcome_xy(pipeline, coord, replies) == Err::<Coord, HaltView>(
            HaltView::Pending(request),
        ),
    ensures
        pipeline_progress(pipeline, coord, replies) < pipeline_progress(
            pipeline,
            coord,
            replies.insert(request, reply),
        ),
{
    let more = replies.insert(request, reply);
    crate::laws::execution::law_pending_request_has_no_reply(pipeline, coord, replies);
    assert(replies.submap_of(more));
    lemma_entry_progress(pipeline.source_xy_units, coord, replies, more);
    if let Ok(state) = normalized(pipeline.source_xy_units, coord, replies) {
        if pipeline.steps@.len() > 0 {
            lemma_steps_progress(pipeline.steps@, state, Seq::empty(), replies, more);
            lemma_steps_stable(pipeline.steps@, state, Seq::empty(), replies, more);
        }
    }
}

/// An execution gets past a bounded number of replies, so that recording one
/// after another brings it to an end.
pub proof fn law_progress_is_bounded(
    pipeline: CompiledOperationPipeline,
    coord: Coord3D,
    replies: Replies,
)
    ensures
        pipeline_progress(pipeline, coord, replies) <= steps_work(pipeline.steps@) + 4,
{
    lemma_entry_progress(pipeline.source_xy_units, coord, replies, replies);
    if let Ok(state) = normalized(pipeline.source_xy_units, coord, replies) {
        lemma_steps_progress(pipeline.steps@, state, Seq::empty(), replies, replies);
    }
}

} // verus!
