//! What holds of every execution.
use vstd::prelude::*;
use crate::binary64::Binary64;
use crate::coord::{Coord, Coord3D};
use crate::execute::{
    coverage, pipeline_outcome_xy, pipeline_outcome_xyz, pipeline_reply, step_outcome,
    steps_outcome, Coverage,
};
use crate::height::{balanced, balanced_from, exposed, lemma_exposed_split, transforms_height};
use crate::error::{ErrorView, GridErrorView};
use crate::numerics::{asked, HaltView, NumericRequest, Replies};
use crate::operation::{GridHandle, GridShiftDirection};
use crate::pipeline::CompiledOperationPipeline;
use crate::step::Step;
use crate::units::normalized;

verus! {

/// The height that is outside every passthrough.
spec fn outer_height(coord: Coord3D, heights: Seq<Binary64>) -> Binary64 {
    if heights.len() == 0 {
        coord.z
    } else {
        heights[0]
    }
}

proof fn lemma_outer_height_stays(
    steps: Seq<Step>,
    coord: Coord3D,
    heights: Seq<Binary64>,
    replies: Replies,
)
    requires
        !exposed(heights.len(), steps),
        steps_outcome(steps, coord, heights, replies) is Ok,
    ensures
        steps_outcome(steps, coord, heights, replies)->Ok_0.z == outer_height(coord, heights),
    decreases steps.len(),
{
    if steps.len() > 0 {
        lemma_exposed_split(heights.len(), steps);
        let rest = steps.drop_first();
        match steps[0] {
            Step::PushHeight => {
                lemma_outer_height_stays(rest, coord, heights.push(coord.z), replies);
            },
            Step::PopHeight => {
                let restored = Coord3D { x: coord.x, y: coord.y, z: heights.last() };
                lemma_outer_height_stays(rest, restored, heights.drop_last(), replies);
            },
            step => {
                let moved = step_outcome(step, coord, replies)->Ok_0;
                lemma_outer_height_stays(rest, moved, heights, replies);
            },
        }
    }
}

/// Steps that change height only inside passthroughs hand the height back as it
/// came, bit for bit.
pub proof fn law_passthrough_restores_height(steps: Seq<Step>, coord: Coord3D, replies: Replies)
    requires
        !transforms_height(steps),
        steps_outcome(steps, coord, Seq::empty(), replies) is Ok,
    ensures
        steps_outcome(steps, coord, Seq::empty(), replies)->Ok_0.z == coord.z,
{
    lemma_outer_height_stays(steps, coord, Seq::empty(), replies);
}

/// A pipeline that is not marked as changing ellipsoidal height hands the height
/// back as it came, bit for bit.
pub proof fn law_unmarked_pipeline_keeps_height(
    pipeline: CompiledOperationPipeline,
    coord: Coord3D,
    replies: Replies,
)
    requires
        pipeline.well_formed(),
        !pipeline.transforms_ellipsoidal_height,
        pipeline_outcome_xyz(pipeline, coord, replies) is Ok,
    ensures
        pipeline_outcome_xyz(pipeline, coord, replies)->Ok_0.z == coord.z,
{
    let state = normalized(pipeline.source_xy_units, coord, replies)->Ok_0;
    assert(state.z == coord.z);
    if pipeline.steps@.len() > 0 {
        law_passthrough_restores_height(pipeline.steps@, state, replies);
    }
}

/// Whether the step is executed by [`crate::execute::execute_step`].
pub open spec fn works_on_coordinates(step: Step) -> bool {
    !(step is PushHeight) && !(step is PopHeight)
}

proof fn lemma_balanced_failure(
    steps: Seq<Step>,
    coord: Coord3D,
    heights: Seq<Binary64>,
    replies: Replies,
    halt: HaltView,
) -> (at: (int, Coord3D))
    requires
        balanced_from(heights.len(), steps),
        steps_outcome(steps, coord, heights, replies) == Err::<Coord3D, HaltView>(halt),
    ensures
        0 <= at.0 < steps.len(),
        works_on_coordinates(steps[at.0]),
        step_outcome(steps[at.0], at.1, replies) == Err::<Coord3D, HaltView>(halt),
    decreases steps.len(),
{
    if steps.len() == 0 {
        (0, coord)
    } else {
        let rest = steps.drop_first();
        match steps[0] {
            Step::PushHeight => {
                let at = lemma_balanced_failure(rest, coord, heights.push(coord.z), replies, halt);
                (at.0 + 1, at.1)
            },
            Step::PopHeight => {
                let restored = Coord3D { x: coord.x, y: coord.y, z: heights.last() };
                let at = lemma_balanced_failure(
                    rest,
                    restored,
                    heights.drop_last(),
                    replies,
                    halt,
                );
                (at.0 + 1, at.1)
            },
            step => match step_outcome(step, coord, replies) {
                Ok(moved) => {
                    let at = lemma_balanced_failure(rest, moved, heights, replies, halt);
                    (at.0 + 1, at.1)
                },
                Err(_) => (0, coord),
            },
        }
    }
}

/// Where saved and restored heights pair up, an execution never fails on its
/// height stack: whatever halts it, halted one of the other steps.
pub proof fn law_balanced_steps_never_fail_on_the_stack(
    steps: Seq<Step>,
    coord: Coord3D,
    replies: Replies,
    halt: HaltView,
)
    requires
        balanced(steps),
        steps_outcome(steps, coord, Seq::empty(), replies) == Err::<Coord3D, HaltView>(halt),
    ensures
        exists|i: int, reached: Coord3D|
            0 <= i < steps.len() && works_on_coordinates(steps[i]) && #[trigger] step_outcome(
                steps[i],
                reached,
                replies,
            ) == Err::<Coord3D, HaltView>(halt),
{
    let at = lemma_balanced_failure(steps, coord, Seq::empty(), replies, halt);
    assert(step_outcome(steps[at.0], at.1, replies) == Err::<Coord3D, HaltView>(halt));
}

/// Executing steps on top of saved heights, and then what stands behind them, is
/// executing them on their own, and then the rest with the saved heights.
proof fn lemma_concat(
    first: Seq<Step>,
    second: Seq<Step>,
    coord: Coord3D,
    saved: Seq<Binary64>,
    heights: Seq<Binary64>,
    replies: Replies,
)
    requires
        balanced_from(heights.len(), first),
    ensures
        steps_outcome(first + second, coord, saved + heights, replies) == (match steps_outcome(
            first,
            coord,
            heights,
            replies,
        ) {
            Ok(moved) => steps_outcome(second, moved, saved, replies),
            Err(halt) => Err(halt),
        }),
    decreases first.len(),
{
    if first.len() == 0 {
        assert(first + second =~= second);
        assert(saved + heights =~= saved);
    } else {
        let rest = first.drop_first();
        assert((first + second)[0] == first[0]);
        assert((first + second).drop_first() =~= rest + second);
        match first[0] {
            Step::PushHeight => {
                assert((saved + heights).push(coord.z) =~= saved + heights.push(coord.z));
                lemma_concat(rest, second, coord, saved, heights.push(coord.z), replies);
            },
            Step::PopHeight => {
                let restored = Coord3D { x: coord.x, y: coord.y, z: heights.last() };
                assert((saved + heights).last() == heights.last());
                assert((saved + heights).drop_last() =~= saved + heights.drop_last());
                lemma_concat(rest, second, restored, saved, heights.drop_last(), replies);
            },
            step => {
                if let Ok(moved) = step_outcome(step, coord, replies) {
                    lemma_concat(rest, second, moved, saved, heights, replies);
                }
            },
        }
    }
}

/// Executing two sequences of steps one after the other is executing the first,
/// whose heights pair up, and then the second on what it gave.
pub proof fn law_execution_composes(
    first: Seq<Step>,
    second: Seq<Step>,
    coord: Coord3D,
    replies: Replies,
)
    requires
        balanced(first),
    ensures
        steps_outcome(first + second, coord, Seq::empty(), replies) == (match steps_outcome(
            first,
            coord,
            Seq::empty(),
            replies,
        ) {
            Ok(moved) => steps_outcome(second, moved, Seq::empty(), replies),
            Err(halt) => Err(halt),
        }),
{
    let none = Seq::<Binary64>::empty();
    assert(none + none =~= none);
    lemma_concat(first, second, coord, none, none, replies);
}

proof fn lemma_success_balances(
    steps: Seq<Step>,
    coord: Coord3D,
    heights: Seq<Binary64>,
    replies: Replies,
)
    requires
        steps_outcome(steps, coord, heights, replies) is Ok,
    ensures
        balanced_from(heights.len(), steps),
    decreases steps.len(),
{
    if steps.len() > 0 {
        let rest = steps.drop_first();
        match steps[0] {
            Step::PushHeight => {
                lemma_success_balances(rest, coord, heights.push(coord.z), replies);
            },
            Step::PopHeight => {
                let restored = Coord3D { x: coord.x, y: coord.y, z: heights.last() };
                lemma_success_balances(rest, restored, heights.drop_last(), replies);
            },
            step => {
                let moved = step_outcome(step, coord, replies)->Ok_0;
                lemma_success_balances(rest, moved, heights, replies);
            },
        }
    }
}

/// Steps that come to a coordinate have heights that pair up.
pub proof fn law_steps_that_succeed_are_balanced(
    steps: Seq<Step>,
    coord: Coord3D,
    replies: Replies,
)
    requires
        steps_outcome(steps, coord, Seq::empty(), replies) is Ok,
    ensures
        balanced(steps),
{
    lemma_success_balances(steps, coord, Seq::empty(), replies);
}

/// Where the first sequence of steps comes to a coordinate, executing the second
/// behind it is executing the second on that coordinate.
pub proof fn law_execution_goes_on_from_success(
    first: Seq<Step>,
    second: Seq<Step>,
    coord: Coord3D,
    moved: Coord3D,
    replies: Replies,
)
    requires
        steps_outcome(first, coord, Seq::empty(), replies) == Ok::<Coord3D, HaltView>(moved),
    ensures
        steps_outcome(first + second, coord, Seq::empty(), replies) == steps_outcome(
            second,
            moved,
            Seq::empty(),
            replies,
        ),
{
    law_steps_that_succeed_are_balanced(first, coord, replies);
    law_execution_composes(first, second, coord, replies);
}

/// A height passthrough around steps whose heights pair up comes to their x and y
/// with the height that was saved, and halts where they do.
pub proof fn law_passthrough_keeps_x_and_y(body: Seq<Step>, coord: Coord3D, replies: Replies)
    requires
        balanced(body),
    ensures
        steps_outcome(
            seq![Step::PushHeight] + body + seq![Step::PopHeight],
            coord,
            Seq::empty(),
            replies,
        ) == (match steps_outcome(body, coord, Seq::empty(), replies) {
            Ok(moved) => Ok(Coord3D { x: moved.x, y: moved.y, z: coord.z }),
            Err(halt) => Err::<Coord3D, HaltView>(halt),
        }),
{
    reveal_with_fuel(steps_outcome, 2);
    let none = Seq::<Binary64>::empty();
    let saved = none.push(coord.z);
    let close = seq![Step::PopHeight];
    let all = seq![Step::PushHeight] + body + close;
    assert(all.drop_first() =~= body + close);
    assert(saved + none =~= saved);
    assert(close.drop_first() =~= Seq::<Step>::empty());
    assert(saved.drop_last() =~= none);
    lemma_concat(body, close, coord, saved, none, replies);
}

/// A height passthrough around steps that come to a coordinate comes to its x and
/// y with the height that was saved.
pub proof fn law_passthrough_around_success(
    body: Seq<Step>,
    coord: Coord3D,
    moved: Coord3D,
    replies: Replies,
)
    requires
        steps_outcome(body, coord, Seq::empty(), replies) == Ok::<Coord3D, HaltView>(moved),
    ensures
        steps_outcome(
            seq![Step::PushHeight] + body + seq![Step::PopHeight],
            coord,
            Seq::empty(),
            replies,
        ) == Ok::<Coord3D, HaltView>(Coord3D { x: moved.x, y: moved.y, z: coord.z }),
{
    law_steps_that_succeed_are_balanced(body, coord, replies);
    law_passthrough_keeps_x_and_y(body, coord, replies);
}

/// Whether an execution came to a coordinate or an error, and waits for nothing.
pub open spec fn is_settled<T>(result: Result<T, HaltView>) -> bool {
    match result {
        Err(HaltView::Pending(_)) => false,
        _ => true,
    }
}

proof fn lemma_coverage_stable(
    handles: Seq<GridHandle>,
    direction: GridShiftDirection,
    coord: Coord3D,
    miss: Option<Seq<char>>,
    fewer: Replies,
    more: Replies,
)
    requires
        fewer.submap_of(more),
    ensures
        coverage(handles, direction, coord, miss, fewer) matches Coverage::Halted(
            HaltView::Pending(request),
        ) ==> !fewer.contains_key(request),
        !(coverage(handles, direction, coord, miss, fewer) matches Coverage::Halted(
            HaltView::Pending(_),
        )) ==> coverage(handles, direction, coord, miss, more) == coverage(
            handles,
            direction,
            coord,
            miss,
            fewer,
        ),
    decreases handles.len(),
{
    if handles.len() > 0 {
        let request = NumericRequest::GridShift {
            handle: handles[0],
            direction,
            lon: coord.x,
            lat: coord.y,
        };
        if let Err(
            HaltView::Failed(ErrorView::Grid(GridErrorView::OutsideCoverage(detail))),
        ) = asked(fewer, request) {
            lemma_coverage_stable(
                handles.drop_first(),
                direction,
                coord,
                Some(detail),
                fewer,
                more,
            );
        }
    }
}

pub proof fn lemma_step_stable(step: Step, coord: Coord3D, fewer: Replies, more: Replies)
    requires
        fewer.submap_of(more),
    ensures
        step_outcome(step, coord, fewer) matches Err(HaltView::Pending(request))
            ==> !fewer.contains_key(request),
        is_settled(step_outcome(step, coord, fewer)) ==> step_outcome(step, coord, more)
            == step_outcome(step, coord, fewer),
{
    if let Step::GridShiftList { handles, allow_null, direction } = step {
        lemma_coverage_stable(handles, direction, coord, None, fewer, more);
    }
}

pub proof fn lemma_steps_stable(
    steps: Seq<Step>,
    coord: Coord3D,
    heights: Seq<Binary64>,
    fewer: Replies,
    more: Replies,
)
    requires
        fewer.submap_of(more),
    ensures
        steps_outcome(steps, coord, heights, fewer) matches Err(HaltView::Pending(request))
            ==> !fewer.contains_key(request),
        is_settled(steps_outcome(steps, coord, heights, fewer)) ==> steps_outcome(
            steps,
            coord,
            heights,
            more,
        ) == steps_outcome(steps, coord, heights, fewer),
    decreases steps.len(),
{
    if steps.len() > 0 {
        let rest = steps.drop_first();
        match steps[0] {
            Step::PushHeight => {
                lemma_steps_stable(rest, coord, heights.push(coord.z), fewer, more);
            },
            Step::PopHeight => {
                let restored = Coord3D { x: coord.x, y: coord.y, z: heights.last() };
                if heights.len() > 0 {
                    lemma_steps_stable(rest, restored, heights.drop_last(), fewer, more);
                }
            },
            step => {
                lemma_step_stable(step, coord, fewer, more);
                if let Ok(moved) = step_outcome(step, coord, fewer) {
                    lemma_steps_stable(rest, moved, heights, fewer, more);
                }
            },
        }
    }
}

proof fn lemma_pipeline_stable(
    pipeline: CompiledOperationPipeline,
    coord: Coord3D,
    fewer: Replies,
    more: Replies,
)
    requires
        fewer.submap_of(more),
    ensures
        pipeline_reply(pipeline, coord, fewer) matches Err(HaltView::Pending(request))
            ==> !fewer.contains_key(request),
        is_settled(pipeline_reply(pipeline, coord, fewer)) ==> pipeline_reply(pipeline, coord, more)
            == pipeline_reply(pipeline, coord, fewer),
{
    if let Ok(state) = normalized(pipeline.source_xy_units, coord, fewer) {
        assert(normalized(pipeline.source_xy_units, coord, more) == Ok::<Coord3D, HaltView>(state));
        if pipeline.steps@.len() > 0 {
            lemma_steps_stable(pipeline.steps@, state, Seq::empty(), fewer, more);
        }
    }
}

/// An execution waits only for a request that has no reply: with the reply
/// recorded, it gets past that point.
pub proof fn law_pending_request_has_no_reply(
    pipeline: CompiledOperationPipeline,
    coord: Coord3D,
    replies: Replies,
)
    ensures
        pipeline_outcome_xyz(pipeline, coord, replies) matches Err(HaltView::Pending(request))
            ==> !replies.contains_key(request),
        pipeline_outcome_xy(pipeline, coord, replies) matches Err(HaltView::Pending(request))
            ==> !replies.contains_key(request),
{
    lemma_pipeline_stable(pipeline, coord, replies, replies);
}

/// What an execution came to stands: replies to further requests do not change
/// it.
pub proof fn law_further_replies_change_nothing(
    pipeline: CompiledOperationPipeline,
    coord: Coord3D,
    fewer: Replies,
    more: Replies,
)
    requires
        fewer.submap_of(more),
    ensures
        is_settled(pipeline_outcome_xyz(pipeline, coord, fewer)) ==> pipeline_outcome_xyz(
            pipeline,
            coord,
            more,
        ) == pipeline_outcome_xyz(pipeline, coord, fewer),
        is_settled(pipeline_outcome_xy(pipeline, coord, fewer)) ==> pipeline_outcome_xy(
            pipeline,
            coord,
            more,
        ) == pipeline_outcome_xy(pipeline, coord, fewer),
{
    lemma_pipeline_stable(pipeline, coord, fewer, more);
}

proof fn lemma_height_stays_finite(
    steps: Seq<Step>,
    coord: Coord3D,
    heights: Seq<Binary64>,
    replies: Replies,
)
    requires
        coord.z.finite(),
        forall|i: int| 0 <= i < heights.len() ==> (#[trigger] heights[i]).finite(),
        steps_outcome(steps, coord, heights, replies) is Ok,
    ensures
        steps_outcome(steps, coord, heights, replies)->Ok_0.z.finite(),
    decreases steps.len(),
{
    if steps.len() > 0 {
        let rest = steps.drop_first();
        match steps[0] {
            Step::PushHeight => {
                lemma_height_stays_finite(rest, coord, heights.push(coord.z), replies);
            },
            Step::PopHeight => {
                let restored = Coord3D { x: coord.x, y: coord.y, z: heights.last() };
                lemma_height_stays_finite(rest, restored, heights.drop_last(), replies);
            },
            step => {
                let moved = step_outcome(step, coord, replies)->Ok_0;
                lemma_height_stays_finite(rest, moved, heights, replies);
            },
        }
    }
}

/// Where both interfaces apply, the planar one gives the x and y of the spatial
/// one. From a finite height on, it also fails and waits exactly as the spatial
/// one does.
pub proof fn law_planar_and_spatial_agree(
    pipeline: CompiledOperationPipeline,
    coord: Coord3D,
    replies: Replies,
)
    requires
        !pipeline.has_geocentric_endpoint(),
    ensures
        pipeline_outcome_xyz(pipeline, coord, replies) matches Ok(output) ==> pipeline_outcome_xy(
            pipeline,
            coord,
            replies,
        ) == Ok::<Coord, HaltView>(output.planar()),
        coord.z.finite() ==> pipeline_outcome_xy(pipeline, coord, replies) == (
        match pipeline_outcome_xyz(pipeline, coord, replies) {
            Ok(output) => Ok(output.planar()),
            Err(halt) => Err::<Coord, HaltView>(halt),
        }),
{
    if coord.z.finite() {
        if let Ok(state) = normalized(pipeline.source_xy_units, coord, replies) {
            assert(state.z == coord.z);
            if steps_outcome(pipeline.steps@, state, Seq::empty(), replies) is Ok {
                lemma_height_stays_finite(pipeline.steps@, state, Seq::empty(), replies);
            }
        }
    }
}

/// Every ordinate that comes out of a pipeline is finite.
pub proof fn law_output_is_finite(
    pipeline: CompiledOperationPipeline,
    coord: Coord3D,
    replies: Replies,
)
    ensures
        pipeline_outcome_xyz(pipeline, coord, replies) matches Ok(output) ==> output.finite(),
        pipeline_outcome_xy(pipeline, coord, replies) matches Ok(output) ==> output.finite(),
{
}

/// The first grid that covers a coordinate shifts it, whatever the grids behind
/// it are.
pub proof fn law_first_covering_grid_shifts(
    handles: Seq<GridHandle>,
    direction: GridShiftDirection,
    coord: Coord3D,
    miss: Option<Seq<char>>,
    replies: Replies,
    k: int,
    shifted: Coord3D,
)
    requires
        0 <= k < handles.len(),
        forall|i: int|
            0 <= i < k ==> (asked(
                replies,
                NumericRequest::GridShift {
                    handle: #[trigger] handles[i],
                    direction,
                    lon: coord.x,
                    lat: coord.y,
                },
            ) matches Err(HaltView::Failed(ErrorView::Grid(GridErrorView::OutsideCoverage(_))))),
        asked(
            replies,
            NumericRequest::GridShift {
                handle: handles[k],
                direction,
                lon: coord.x,
                lat: coord.y,
            },
        ) == Ok::<Coord3D, HaltView>(shifted),
    ensures
        coverage(handles, direction, coord, miss, replies) == Coverage::Shifted(shifted),
    decreases handles.len(),
{
    if k > 0 {
        let request = NumericRequest::GridShift {
            handle: handles[0],
            direction,
            lon: coord.x,
            lat: coord.y,
        };
        let rest = handles.drop_first();
        if let Err(
            HaltView::Failed(ErrorView::Grid(GridErrorView::OutsideCoverage(detail))),
        ) = asked(replies, request) {
            assert forall|i: int| 0 <= i < k - 1 implies (asked(
                replies,
                NumericRequest::GridShift {
                    handle: #[trigger] rest[i],
                    direction,
                    lon: coord.x,
                    lat: coord.y,
                },
            ) matches Err(
                HaltView::Failed(ErrorView::Grid(GridErrorView::OutsideCoverage(_))),
            )) by {
                assert(rest[i] == handles[i + 1]);
            }
            law_first_covering_grid_shifts(
                rest,
                direction,
                coord,
                Some(detail),
                replies,
                k - 1,
                shifted,
            );
        }
    }
}

} // verus!
