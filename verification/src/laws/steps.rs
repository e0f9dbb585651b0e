//! What each kind of step asks for, and what it makes of the reply.
use vstd::prelude::*;
use crate::binary64::Binary64;
use crate::coord::Coord3D;
use crate::crs::Projection;
use crate::ellipsoid::Ellipsoid;
use crate::error::{ErrorView, GridErrorView};
use crate::execute::{coverage, step_outcome, steps_outcome};
use crate::height::balanced;
use crate::laws::execution::{law_execution_composes, works_on_coordinates};
use crate::laws::mirror::reversible;
use crate::numerics::{HaltView, NumericRequest, Replies};
use crate::operation::{GeocentricAffineParams, GridHandle, GridShiftDirection, HelmertParams};
use crate::step::Step;

verus! {

/// Three ordinates as the result of a step: they have to be finite.
pub open spec fn delivered(x: Binary64, y: Binary64, z: Binary64) -> Result<Coord3D, HaltView> {
    if x.finite() && y.finite() && z.finite() {
        Ok(Coord3D { x, y, z })
    } else {
        Err(HaltView::Failed(ErrorView::OutOfRange("pipeline step output must be finite"@)))
    }
}

/// The result of a step that makes one request and takes x and y of the reply.
pub open spec fn taking_x_and_y(request: NumericRequest, coord: Coord3D, replies: Replies) -> Result<
    Coord3D,
    HaltView,
> {
    if !replies.contains_key(request) {
        Err(HaltView::Pending(request))
    } else {
        match replies[request] {
            Ok(reply) => delivered(reply.x, reply.y, coord.z),
            Err(error) => Err(HaltView::Failed(error)),
        }
    }
}

/// The result of a step that makes one request and takes the whole reply.
pub open spec fn taking_all(request: NumericRequest, replies: Replies) -> Result<
    Coord3D,
    HaltView,
> {
    if !replies.contains_key(request) {
        Err(HaltView::Pending(request))
    } else {
        match replies[request] {
            Ok(reply) => delivered(reply.x, reply.y, reply.z),
            Err(error) => Err(HaltView::Failed(error)),
        }
    }
}

proof fn lemma_step_text()
    ensures
        "pipeline step output"@ + " must be finite"@ == "pipeline step output must be finite"@,
{
    reveal_strlit("pipeline step output");
    reveal_strlit(" must be finite");
    reveal_strlit("pipeline step output must be finite");
    assert("pipeline step output"@ + " must be finite"@
        =~= "pipeline step output must be finite"@);
}

/// A forward projection step projects longitude and latitude, an inverse one takes
/// easting and northing back, each with its own projection. Height stays.
pub proof fn law_projection_steps_project(
    projection: Projection,
    coord: Coord3D,
    replies: Replies,
)
    ensures
        step_outcome(Step::ProjectionForward { projection }, coord, replies) == taking_x_and_y(
            NumericRequest::ProjectionForward { projection, lon: coord.x, lat: coord.y },
            coord,
            replies,
        ),
        step_outcome(Step::ProjectionInverse { projection }, coord, replies) == taking_x_and_y(
            NumericRequest::ProjectionInverse { projection, x: coord.x, y: coord.y },
            coord,
            replies,
        ),
{
    lemma_step_text();
}

/// A Helmert step applies its own parameters in its own direction to X, Y and Z,
/// and takes all three of the reply.
pub proof fn law_helmert_steps_keep_their_direction(
    params: HelmertParams,
    inverse: bool,
    coord: Coord3D,
    replies: Replies,
)
    ensures
        step_outcome(Step::Helmert { params, inverse }, coord, replies) == taking_all(
            NumericRequest::Helmert { params, inverse, coord },
            replies,
        ),
{
    lemma_step_text();
}

/// An affine step applies its own parameters in its own direction to X, Y and Z,
/// and takes all three of the reply.
pub proof fn law_affine_steps_keep_their_direction(
    params: GeocentricAffineParams,
    inverse: bool,
    coord: Coord3D,
    replies: Replies,
)
    ensures
        step_outcome(Step::GeocentricAffine { params, inverse }, coord, replies) == taking_all(
            NumericRequest::GeocentricAffine { params, inverse, coord },
            replies,
        ),
{
    lemma_step_text();
}

/// A grid step applies its own grid in its own direction to longitude and latitude.
/// Height stays.
pub proof fn law_grid_steps_keep_their_direction(
    handle: GridHandle,
    direction: GridShiftDirection,
    coord: Coord3D,
    replies: Replies,
)
    ensures
        step_outcome(Step::GridShift { handle, direction }, coord, replies) == taking_x_and_y(
            NumericRequest::GridShift { handle, direction, lon: coord.x, lat: coord.y },
            coord,
            replies,
        ),
{
    lemma_step_text();
}

/// Either conversion between geodetic and geocentric coordinates works on its own
/// ellipsoid and takes all three ordinates of the reply.
pub proof fn law_conversions_work_on_their_ellipsoid(
    ellipsoid: Ellipsoid,
    coord: Coord3D,
    replies: Replies,
)
    ensures
        step_outcome(Step::GeodeticToGeocentric { ellipsoid }, coord, replies) == taking_all(
            NumericRequest::GeodeticToGeocentric { ellipsoid, coord },
            replies,
        ),
        step_outcome(Step::GeocentricToGeodetic { ellipsoid }, coord, replies) == taking_all(
            NumericRequest::GeocentricToGeodetic { ellipsoid, coord },
            replies,
        ),
{
    lemma_step_text();
}

/// The request for one grid of a list at a place.
pub open spec fn grid_request(
    handle: GridHandle,
    direction: GridShiftDirection,
    coord: Coord3D,
) -> NumericRequest {
    NumericRequest::GridShift { handle, direction, lon: coord.x, lat: coord.y }
}

/// Whether the reply says that the grid does not cover the place.
pub open spec fn misses(request: NumericRequest, replies: Replies) -> bool {
    replies.contains_key(request) && (replies[request] matches Err(
        ErrorView::Grid(GridErrorView::OutsideCoverage(_)),
    ))
}

/// Whether the first `k` grids of a list do not cover a place.
pub open spec fn first_grids_miss(
    handles: Seq<GridHandle>,
    k: int,
    direction: GridShiftDirection,
    coord: Coord3D,
    replies: Replies,
) -> bool {
    forall|i: int|
        0 <= i < k ==> misses(
            #[trigger] grid_request(handles[i], direction, coord),
            replies,
        )
}

proof fn lemma_coverage_skips(
    handles: Seq<GridHandle>,
    k: int,
    direction: GridShiftDirection,
    coord: Coord3D,
    miss: Option<Seq<char>>,
    replies: Replies,
) -> (found: Option<Seq<char>>)
    requires
        0 <= k <= handles.len(),
        first_grids_miss(handles, k, direction, coord, replies),
    ensures
        coverage(handles, direction, coord, miss, replies) == coverage(
            handles.skip(k),
            direction,
            coord,
            found,
            replies,
        ),
        k == 0 ==> found == miss,
        k > 0 ==> replies[grid_request(handles[k - 1], direction, coord)] == Err::<
            Coord3D,
            ErrorView,
        >(ErrorView::Grid(GridErrorView::OutsideCoverage(found->0))) && found is Some,
    decreases k,
{
    if k == 0 {
        assert(handles.skip(0) =~= handles);
        miss
    } else {
        let first = grid_request(handles[0], direction, coord);
        assert(misses(first, replies));
        let detail = replies[first]->Err_0->Grid_0->OutsideCoverage_0;
        let rest = handles.drop_first();
        assert forall|i: int| 0 <= i < k - 1 implies misses(
            #[trigger] grid_request(rest[i], direction, coord),
            replies,
        ) by {
            assert(misses(grid_request(handles[i + 1], direction, coord), replies));
        }
        let found = lemma_coverage_skips(rest, k - 1, direction, coord, Some(detail), replies);
        assert(rest.skip(k - 1) =~= handles.skip(k));
        if k > 1 {
            assert(rest[k - 2] == handles[k - 1]);
        }
        found
    }
}

/// The first grid of a list that does not say that it misses the place decides, in
/// the direction of the list: its x and y are taken, its error is passed on, and
/// its reply is waited for. Grids behind it play no part.
pub proof fn law_first_grid_that_does_not_miss_decides(
    handles: Seq<GridHandle>,
    allow_null: bool,
    direction: GridShiftDirection,
    coord: Coord3D,
    k: int,
    replies: Replies,
)
    requires
        0 <= k < handles.len(),
        first_grids_miss(handles, k, direction, coord, replies),
        !misses(grid_request(handles[k], direction, coord), replies),
    ensures
        step_outcome(Step::GridShiftList { handles, allow_null, direction }, coord, replies)
            == taking_x_and_y(
            NumericRequest::GridShift {
                handle: handles[k],
                direction,
                lon: coord.x,
                lat: coord.y,
            },
            coord,
            replies,
        ),
{
    lemma_step_text();
    let found = lemma_coverage_skips(handles, k, direction, coord, None, replies);
    assert(handles.skip(k)[0] == handles[k]);
}

/// Where every grid of a list misses the place, a list with a null entry leaves the
/// coordinate as it is, and any other fails with the words of the last grid.
pub proof fn law_place_without_a_grid(
    handles: Seq<GridHandle>,
    allow_null: bool,
    direction: GridShiftDirection,
    coord: Coord3D,
    replies: Replies,
)
    requires
        first_grids_miss(handles, handles.len() as int, direction, coord, replies),
    ensures
        allow_null ==> step_outcome(
            Step::GridShiftList { handles, allow_null, direction },
            coord,
            replies,
        ) == delivered(coord.x, coord.y, coord.z),
        !allow_null && handles.len() > 0 ==> step_outcome(
            Step::GridShiftList { handles, allow_null, direction },
            coord,
            replies,
        ) == Err::<Coord3D, HaltView>(
            HaltView::Failed(
                replies[grid_request(handles[handles.len() - 1], direction, coord)]->Err_0,
            ),
        ),
        !allow_null && handles.len() == 0 ==> step_outcome(
            Step::GridShiftList { handles, allow_null, direction },
            coord,
            replies,
        ) == Err::<Coord3D, HaltView>(
            HaltView::Failed(
                ErrorView::Grid(
                    GridErrorView::OutsideCoverage("no datum grid covered coordinate"@),
                ),
            ),
        ),
{
    lemma_step_text();
    let n = handles.len() as int;
    let found = lemma_coverage_skips(handles, n, direction, coord, None, replies);
    assert(handles.skip(n) =~= Seq::<GridHandle>::empty());
}

/// A grid step and the same grid as a list of one without a null entry come to the
/// same, in either direction, whatever the replies are.
pub proof fn law_grid_step_is_a_list_of_one(
    handle: GridHandle,
    direction: GridShiftDirection,
    coord: Coord3D,
    replies: Replies,
)
    ensures
        step_outcome(
            Step::GridShiftList { handles: seq![handle], allow_null: false, direction },
            coord,
            replies,
        ) == step_outcome(Step::GridShift { handle, direction }, coord, replies),
{
    let handles = seq![handle];
    law_grid_steps_keep_their_direction(handle, direction, coord, replies);
    if misses(grid_request(handle, direction, coord), replies) {
        law_place_without_a_grid(handles, false, direction, coord, replies);
    } else {
        law_first_grid_that_does_not_miss_decides(handles, false, direction, coord, 0, replies);
    }
}

/// Where the only reply recorded is that for a grid in one direction, a grid step
/// in that direction comes to its x and y, and one in the other direction waits.
pub proof fn law_grid_step_listens_to_its_direction(
    handle: GridHandle,
    direction: GridShiftDirection,
    other: GridShiftDirection,
    coord: Coord3D,
    reply: Coord3D,
)
    requires
        other != direction,
        reply.x.finite(),
        reply.y.finite(),
        coord.z.finite(),
    ensures
        ({
            let asked = NumericRequest::GridShift {
                handle,
                direction,
                lon: coord.x,
                lat: coord.y,
            };
            let replies = Replies::empty().insert(asked, Ok(reply));
            &&& step_outcome(Step::GridShift { handle, direction }, coord, replies)
                == Ok::<Coord3D, HaltView>(Coord3D { x: reply.x, y: reply.y, z: coord.z })
            &&& step_outcome(Step::GridShift { handle, direction: other }, coord, replies)
                == Err::<Coord3D, HaltView>(
                HaltView::Pending(
                    NumericRequest::GridShift {
                        handle,
                        direction: other,
                        lon: coord.x,
                        lat: coord.y,
                    },
                ),
            )
        }),
{
}

/// Where the replies to a Helmert or an affine transformation and to the same one
/// the other way undo each other, the steps do.
pub proof fn law_reversible_replies_make_reversible_transformations(
    helmert: HelmertParams,
    affine: GeocentricAffineParams,
    inverse: bool,
    replies: Replies,
)
    ensures
        (forall|from: Coord3D, to: Coord3D|
            #![trigger
                replies[NumericRequest::Helmert { params: helmert, inverse, coord: from }],
                to.finite()
            ]
            replies.contains_key(
                NumericRequest::Helmert { params: helmert, inverse, coord: from },
            ) && replies[NumericRequest::Helmert { params: helmert, inverse, coord: from }]
                == Ok::<Coord3D, ErrorView>(to) ==> from.finite() && replies.contains_key(
                NumericRequest::Helmert { params: helmert, inverse: !inverse, coord: to },
            ) && replies[NumericRequest::Helmert {
                params: helmert,
                inverse: !inverse,
                coord: to,
            }] == Ok::<Coord3D, ErrorView>(from)) ==> reversible(
            Step::Helmert { params: helmert, inverse },
            replies,
        ),
        (forall|from: Coord3D, to: Coord3D|
            #![trigger
                replies[NumericRequest::GeocentricAffine { params: affine, inverse, coord: from }],
                to.finite()
            ]
            replies.contains_key(
                NumericRequest::GeocentricAffine { params: affine, inverse, coord: from },
            ) && replies[NumericRequest::GeocentricAffine {
                params: affine,
                inverse,
                coord: from,
            }] == Ok::<Coord3D, ErrorView>(to) ==> from.finite() && replies.contains_key(
                NumericRequest::GeocentricAffine { params: affine, inverse: !inverse, coord: to },
            ) && replies[NumericRequest::GeocentricAffine {
                params: affine,
                inverse: !inverse,
                coord: to,
            }] == Ok::<Coord3D, ErrorView>(from)) ==> reversible(
            Step::GeocentricAffine { params: affine, inverse },
            replies,
        ),
{
    reveal(reversible);
}

/// Two transformation steps that differ in their flag ask for different work: the
/// reply to one never serves the other.
pub proof fn law_flag_tells_transformations_apart(
    helmert: HelmertParams,
    affine: GeocentricAffineParams,
    inverse: bool,
    coord: Coord3D,
    reply: Coord3D,
)
    requires
        reply.x.finite(),
        reply.y.finite(),
        reply.z.finite(),
    ensures
        ({
            let replies = Replies::empty().insert(
                NumericRequest::Helmert { params: helmert, inverse, coord },
                Ok(reply),
            ).insert(
                NumericRequest::GeocentricAffine { params: affine, inverse, coord },
                Ok(reply),
            );
            &&& step_outcome(Step::Helmert { params: helmert, inverse }, coord, replies)
                == Ok::<Coord3D, HaltView>(reply)
            &&& step_outcome(Step::GeocentricAffine { params: affine, inverse }, coord, replies)
                == Ok::<Coord3D, HaltView>(reply)
            &&& step_outcome(Step::Helmert { params: helmert, inverse: !inverse }, coord, replies)
                == Err::<Coord3D, HaltView>(
                HaltView::Pending(
                    NumericRequest::Helmert { params: helmert, inverse: !inverse, coord },
                ),
            )
            &&& step_outcome(
                Step::GeocentricAffine { params: affine, inverse: !inverse },
                coord,
                replies,
            ) == Err::<Coord3D, HaltView>(
                HaltView::Pending(
                    NumericRequest::GeocentricAffine { params: affine, inverse: !inverse, coord },
                ),
            )
        }),
{
}

/// A sequence of one working step comes to what the step comes to, and no steps
/// hand the coordinate back.
pub proof fn law_single_step_is_executed(step: Step, coord: Coord3D, replies: Replies)
    requires
        works_on_coordinates(step),
    ensures
        steps_outcome(seq![step], coord, Seq::empty(), replies) == step_outcome(
            step,
            coord,
            replies,
        ),
        steps_outcome(Seq::empty(), coord, Seq::empty(), replies) == Ok::<Coord3D, HaltView>(coord),
{
    reveal_with_fuel(steps_outcome, 2);
    assert(seq![step].drop_first() =~= Seq::<Step>::empty());
}

/// Behind steps whose heights pair up, restoring a height fails, and saving one that
/// is not restored fails; a halt of the steps comes first.
pub proof fn law_heights_that_do_not_pair_up_fail(
    steps: Seq<Step>,
    behind: Seq<Step>,
    coord: Coord3D,
    replies: Replies,
)
    requires
        balanced(steps),
    ensures
        steps_outcome(
            steps + (seq![Step::PopHeight] + behind),
            coord,
            Seq::empty(),
            replies,
        ) == (match steps_outcome(steps, coord, Seq::empty(), replies) {
            Ok(_) => Err(
                HaltView::Failed(
                    ErrorView::InvalidDefinition(
                        "2D height passthrough popped with an empty stack"@,
                    ),
                ),
            ),
            Err(halt) => Err::<Coord3D, HaltView>(halt),
        }),
        steps_outcome(steps + seq![Step::PushHeight], coord, Seq::empty(), replies) == (
        match steps_outcome(steps, coord, Seq::empty(), replies) {
            Ok(_) => Err(
                HaltView::Failed(
                    ErrorView::InvalidDefinition("2D height passthrough left values on the stack"@),
                ),
            ),
            Err(halt) => Err::<Coord3D, HaltView>(halt),
        }),
{
    reveal_with_fuel(steps_outcome, 2);
    law_execution_composes(steps, seq![Step::PopHeight] + behind, coord, replies);
    law_execution_composes(steps, seq![Step::PushHeight], coord, replies);
    assert(seq![Step::PushHeight].drop_first() =~= Seq::<Step>::empty());
}

/// A step that saves or restores height is no work on its own.
pub proof fn law_passthrough_steps_need_a_stack(coord: Coord3D, replies: Replies)
    ensures
        step_outcome(Step::PushHeight, coord, replies) == Err::<Coord3D, HaltView>(
            HaltView::Failed(
                ErrorView::InvalidDefinition(
                    "height passthrough steps must be executed with a stack"@,
                ),
            ),
        ),
        step_outcome(Step::PopHeight, coord, replies) == step_outcome(
            Step::PushHeight,
            coord,
            replies,
        ),
{
}

} // verus!
