//! What operations compile to, kind by kind.
use vstd::prelude::*;
use crate::crs::{CrsDef, Projection};
use crate::ellipsoid::Ellipsoid;
use crate::emission::{
    from_wgs84_emission, geographic_pair, grid_list_emission, grid_scan, operation_emission,
    pipeline_emission, sandwich, selected_emission, source_emission, target_emission,
    to_wgs84_emission, Emission,
};
use crate::error::{ErrorView, GridErrorView};
use crate::laws::framing::ascending;
use crate::operation::{
    CoordinateOperation, DatumGridShiftEntry, DatumToWgs84, GridFormat, GridHandle, GridId,
    GridShiftDirection, HelmertParams, OperationDomain, OperationMethod, OperationStepDirection,
    SelectedOperationKind,
};
use crate::registry::{entry, Registry};
use crate::services::{CompileHaltView, ServiceReplies, ServiceRequest};
use crate::step::Step;
use crate::text::decimal;

verus! {

/// Whether a request was granted.
pub open spec fn granted(replies: ServiceReplies, request: ServiceRequest) -> bool {
    replies.contains_key(request) && replies[request] is Ok
}

/// What holds a compilation up at a request that was not granted: the error of the
/// reply, or the missing reply.
pub open spec fn held_up(replies: ServiceReplies, request: ServiceRequest) -> CompileHaltView {
    if replies.contains_key(request) {
        CompileHaltView::Failed(replies[request]->Err_0)
    } else {
        CompileHaltView::Pending(request)
    }
}

/// Whether a compilation came to these steps.
pub open spec fn comes_to(emission: Emission, steps: Seq<Step>) -> bool {
    emission.halt is None && emission.steps == steps
}

/// Whether a compilation was held up before it added a step.
pub open spec fn stops_with(emission: Emission, halt: CompileHaltView) -> bool {
    emission.halt == Some(halt) && emission.steps == Seq::<Step>::empty()
}

/// A geocentric step stands between the conversion on the ellipsoid that it comes
/// from and that on the one that it goes to. Preserving height puts a passthrough
/// around the steps, and changes nothing inside.
pub proof fn law_preserving_height_only_wraps(
    source: Ellipsoid,
    target: Ellipsoid,
    step: Step,
    transform: DatumToWgs84,
    ellipsoid: Ellipsoid,
    replies: ServiceReplies,
)
    ensures
        sandwich(source, target, false, step) == seq![
            Step::GeodeticToGeocentric { ellipsoid: source },
            step,
            Step::GeocentricToGeodetic { ellipsoid: target },
        ],
        sandwich(source, target, true, step) == seq![Step::PushHeight] + sandwich(
            source,
            target,
            false,
            step,
        ) + seq![Step::PopHeight],
        to_wgs84_emission(transform, ellipsoid, true, replies).halt == to_wgs84_emission(
            transform,
            ellipsoid,
            false,
            replies,
        ).halt,
        from_wgs84_emission(transform, ellipsoid, true, replies).halt == from_wgs84_emission(
            transform,
            ellipsoid,
            false,
            replies,
        ).halt,
        transform is Helmert && to_wgs84_emission(transform, ellipsoid, false, replies).halt is None
            ==> to_wgs84_emission(transform, ellipsoid, true, replies).steps == seq![
            Step::PushHeight,
        ] + to_wgs84_emission(transform, ellipsoid, false, replies).steps + seq![Step::PopHeight],
        transform is Helmert && from_wgs84_emission(transform, ellipsoid, false, replies).halt is None
            ==> from_wgs84_emission(transform, ellipsoid, true, replies).steps == seq![
            Step::PushHeight,
        ] + from_wgs84_emission(transform, ellipsoid, false, replies).steps + seq![Step::PopHeight],
        !(transform is Helmert) ==> to_wgs84_emission(transform, ellipsoid, true, replies)
            == to_wgs84_emission(transform, ellipsoid, false, replies),
        !(transform is Helmert) ==> from_wgs84_emission(transform, ellipsoid, true, replies)
            == from_wgs84_emission(transform, ellipsoid, false, replies),
{
}

/// The way from a datum to WGS 84 by Helmert parameters enters geocentric
/// coordinates on the datum's own ellipsoid, applies the parameters forward, and
/// leaves on that of WGS 84; the way from WGS 84 enters there, applies the parameters
/// inversely, and leaves on the datum's own. The parameters are checked first.
pub proof fn law_helmert_ways_through_wgs84(
    params: HelmertParams,
    own: Ellipsoid,
    replies: ServiceReplies,
)
    ensures
        ({
            let transform = DatumToWgs84::Helmert(params);
            let check = ServiceRequest::ValidateHelmert { params };
            let to = seq![
                Step::GeodeticToGeocentric { ellipsoid: own },
                Step::Helmert { params, inverse: false },
                Step::GeocentricToGeodetic { ellipsoid: Ellipsoid::wgs84_spec() },
            ];
            let from = seq![
                Step::GeodeticToGeocentric { ellipsoid: Ellipsoid::wgs84_spec() },
                Step::Helmert { params, inverse: true },
                Step::GeocentricToGeodetic { ellipsoid: own },
            ];
            let wrap = |steps: Seq<Step>| seq![Step::PushHeight] + steps + seq![Step::PopHeight];
            if granted(replies, check) {
                &&& comes_to(to_wgs84_emission(transform, own, false, replies), to)
                &&& comes_to(to_wgs84_emission(transform, own, true, replies), wrap(to))
                &&& comes_to(from_wgs84_emission(transform, own, false, replies), from)
                &&& comes_to(from_wgs84_emission(transform, own, true, replies), wrap(from))
            } else {
                forall|preserve: bool|
                    #![trigger to_wgs84_emission(transform, own, preserve, replies)]
                    #![trigger from_wgs84_emission(transform, own, preserve, replies)]
                    stops_with(
                        to_wgs84_emission(transform, own, preserve, replies),
                        held_up(replies, check),
                    ) && stops_with(
                        from_wgs84_emission(transform, own, preserve, replies),
                        held_up(replies, check),
                    )
            }
        }),
{
}

/// A datum that is WGS 84 takes no steps either way, and one without a known
/// relation has no way.
pub proof fn law_other_ways_through_wgs84(own: Ellipsoid, preserve: bool, replies: ServiceReplies)
    ensures
        comes_to(
            to_wgs84_emission(DatumToWgs84::Identity, own, preserve, replies),
            Seq::empty(),
        ),
        comes_to(
            from_wgs84_emission(DatumToWgs84::Identity, own, preserve, replies),
            Seq::empty(),
        ),
        stops_with(
            to_wgs84_emission(DatumToWgs84::Unknown, own, preserve, replies),
            CompileHaltView::Failed(
                ErrorView::OperationSelection("datum has no known path to WGS84"@),
            ),
        ),
        stops_with(
            from_wgs84_emission(DatumToWgs84::Unknown, own, preserve, replies),
            CompileHaltView::Failed(
                ErrorView::OperationSelection("datum has no known path from WGS84"@),
            ),
        ),
{
}

/// A datum's grids are applied forward on the way to WGS 84 and in reverse on the way
/// from it. Both ways take one step, with the same grids in the same order.
pub proof fn law_grid_ways_through_wgs84(
    transform: DatumToWgs84,
    own: Ellipsoid,
    preserve: bool,
    replies: ServiceReplies,
)
    requires
        transform is GridShift,
    ensures
        to_wgs84_emission(transform, own, preserve, replies).halt == from_wgs84_emission(
            transform,
            own,
            preserve,
            replies,
        ).halt,
        to_wgs84_emission(transform, own, preserve, replies).halt is None ==> {
            let to = to_wgs84_emission(transform, own, preserve, replies).steps;
            let from = from_wgs84_emission(transform, own, preserve, replies).steps;
            &&& to.len() == 1 && from.len() == 1
            &&& to[0] is GridShiftList && from[0] is GridShiftList
            &&& to[0]->GridShiftList_direction == GridShiftDirection::Forward
            &&& from[0]->GridShiftList_direction == GridShiftDirection::Reverse
            &&& to[0]->GridShiftList_handles == from[0]->GridShiftList_handles
            &&& to[0]->GridShiftList_allow_null == from[0]->GridShiftList_allow_null
        },
        to_wgs84_emission(transform, own, preserve, replies) == grid_list_emission(
            transform->GridShift_0.entries@,
            GridShiftDirection::Forward,
            replies,
        ),
{
}

/// The number of entries before the first null entry.
pub open spec fn reach(entries: Seq<DatumGridShiftEntry>) -> nat
    decreases entries.len(),
{
    if entries.len() == 0 || entries[0] is Null {
        0
    } else {
        1 + reach(entries.drop_first())
    }
}

/// The request for the grid of an entry.
pub open spec fn load_of(grid_entry: DatumGridShiftEntry) -> ServiceRequest {
    ServiceRequest::LoadGrid { grid: grid_entry->Grid_definition.key }
}

/// Whether the grid of an entry may be left out: it is optional, and it is not known
/// or cannot be had.
pub open spec fn may_be_missing(
    grid_entry: DatumGridShiftEntry,
    replies: ServiceReplies,
) -> bool {
    let load = load_of(grid_entry);
    grid_entry->Grid_optional && replies.contains_key(load) && (replies[load] matches Err(
        ErrorView::Grid(GridErrorView::NotFound(_)),
    ) || replies[load] matches Err(ErrorView::Grid(GridErrorView::Unavailable(_))))
}

/// Whether the grid of an entry stops the list: it was not loaded, and may not be
/// left out.
pub open spec fn stops_list(grid_entry: DatumGridShiftEntry, replies: ServiceReplies) -> bool {
    !granted(replies, load_of(grid_entry)) && !may_be_missing(grid_entry, replies)
}

/// The positions of the grids that were loaded, among the first `reach(entries)`.
pub open spec fn picks_loaded(
    entries: Seq<DatumGridShiftEntry>,
    positions: Seq<int>,
    replies: ServiceReplies,
) -> bool {
    &&& ascending(positions, reach(entries))
    &&& forall|i: int|
        0 <= i < reach(entries) ==> (positions.contains(i) <==> granted(
            replies,
            load_of(#[trigger] entries[i]),
        ))
}

proof fn lemma_reach(entries: Seq<DatumGridShiftEntry>)
    ensures
        reach(entries) <= entries.len(),
        forall|i: int| 0 <= i < reach(entries) ==> (#[trigger] entries[i]) is Grid,
        reach(entries) < entries.len() ==> entries[reach(entries) as int] is Null,
    decreases entries.len(),
{
    if entries.len() > 0 && !(entries[0] is Null) {
        let rest = entries.drop_first();
        lemma_reach(rest);
        assert forall|i: int| 0 <= i < reach(entries) implies (#[trigger] entries[i]) is Grid by {
            if i > 0 {
                assert(rest[i - 1] == entries[i]);
            }
        }
        if reach(entries) < entries.len() {
            assert(rest[reach(rest) as int] == entries[reach(entries) as int]);
        }
    }
}

proof fn lemma_scan_halts(entries: Seq<DatumGridShiftEntry>, replies: ServiceReplies, k: int)
    requires
        0 <= k < reach(entries),
        stops_list(entries[k], replies),
        forall|i: int| 0 <= i < k ==> !stops_list(#[trigger] entries[i], replies),
    ensures
        grid_scan(entries, replies).halt == Some(
            held_up(replies, load_of(entries[k])),
        ),
    decreases entries.len(),
{
    lemma_reach(entries);
    if k > 0 {
        let rest = entries.drop_first();
        assert(!stops_list(entries[0], replies));
        assert(entries[0] is Grid);
        assert forall|i: int| 0 <= i < k - 1 implies !stops_list(#[trigger] rest[i], replies) by {
            assert(rest[i] == entries[i + 1]);
        }
        assert(rest[k - 1] == entries[k]);
        lemma_scan_halts(rest, replies, k - 1);
    } else {
        assert(entries[0] is Grid);
    }
}

proof fn lemma_scan_gets_through(
    entries: Seq<DatumGridShiftEntry>,
    replies: ServiceReplies,
) -> (positions: Seq<int>)
    requires
        forall|i: int| 0 <= i < reach(entries) ==> !stops_list(#[trigger] entries[i], replies),
    ensures
        ({
            let scan = grid_scan(entries, replies);
            &&& scan.halt is None
            &&& scan.allow_null == (reach(entries) < entries.len())
            &&& picks_loaded(entries, positions, replies)
            &&& scan.handles.len() == positions.len()
            &&& forall|i: int|
                0 <= i < positions.len() ==> (#[trigger] scan.handles[i]).key
                    == entries[positions[i]]->Grid_definition.key
            &&& scan.required_seen ==> scan.handles.len() > 0
        }),
    decreases entries.len(),
{
    lemma_reach(entries);
    let scan = grid_scan(entries, replies);
    if reach(entries) == 0 {
        Seq::empty()
    } else {
        let rest = entries.drop_first();
        assert(entries[0] is Grid && !stops_list(entries[0], replies));
        assert forall|i: int| 0 <= i < reach(rest) implies !stops_list(
            #[trigger] rest[i],
            replies,
        ) by {
            assert(rest[i] == entries[i + 1]);
        }
        let inner = lemma_scan_gets_through(rest, replies);
        let later = grid_scan(rest, replies);
        let moved = Seq::new(inner.len(), |i: int| inner[i] + 1);
        assert forall|i: int| 0 < i < reach(entries) implies (moved.contains(i) <==> granted(
            replies,
            load_of(#[trigger] entries[i]),
        )) by {
            assert(rest[i - 1] == entries[i]);
            if inner.contains(i - 1) {
                let j = choose|j: int| 0 <= j < inner.len() && inner[j] == i - 1;
                assert(moved[j] == i);
            }
            if moved.contains(i) {
                let j = choose|j: int| 0 <= j < moved.len() && moved[j] == i;
                assert(inner[j] == i - 1);
            }
        }
        if granted(replies, load_of(entries[0])) {
            let positions = seq![0int] + moved;
            assert forall|i: int| 0 <= i < reach(entries) implies (positions.contains(i)
                <==> granted(replies, load_of(#[trigger] entries[i]))) by {
                if i == 0 {
                    assert(positions[0] == 0);
                } else {
                    if moved.contains(i) {
                        let j = choose|j: int| 0 <= j < moved.len() && moved[j] == i;
                        assert(positions[j + 1] == i);
                    }
                    if positions.contains(i) {
                        let j = choose|j: int| 0 <= j < positions.len() && positions[j] == i;
                        assert(moved[j - 1] == i);
                    }
                }
            }
            assert(ascending(positions, reach(entries)));
            assert forall|i: int| 0 <= i < positions.len() implies (#[trigger] scan.handles[i]).key
                == entries[positions[i]]->Grid_definition.key by {
                if i > 0 {
                    assert(scan.handles[i] == later.handles[i - 1]);
                    assert(rest[inner[i - 1]] == entries[positions[i]]);
                }
            }
            positions
        } else {
            assert(ascending(moved, reach(entries)));
            assert forall|i: int| 0 <= i < reach(entries) implies (moved.contains(i) <==> granted(
                replies,
                load_of(#[trigger] entries[i]),
            )) by {
                if i == 0 && moved.contains(0) {
                    let j = choose|j: int| 0 <= j < moved.len() && moved[j] == 0;
                    assert(inner[j] == -1);
                }
            }
            assert forall|i: int| 0 <= i < moved.len() implies (#[trigger] scan.handles[i]).key
                == entries[moved[i]]->Grid_definition.key by {
                assert(scan.handles[i] == later.handles[i]);
                assert(rest[inner[i]] == entries[moved[i]]);
            }
            moved
        }
    }
}

/// The first grid of a list, before a null entry, that was not loaded and may not be
/// left out stops the compilation, with its own error or waiting for its reply. Only
/// an optional grid that is not known or cannot be had may be left out.
pub proof fn law_first_grid_that_is_needed_stops_the_list(
    entries: Seq<DatumGridShiftEntry>,
    direction: GridShiftDirection,
    replies: ServiceReplies,
    k: int,
)
    requires
        0 <= k < reach(entries),
        stops_list(entries[k], replies),
        forall|i: int| 0 <= i < k ==> !stops_list(#[trigger] entries[i], replies),
    ensures
        stops_with(
            grid_list_emission(entries, direction, replies),
            held_up(replies, load_of(entries[k])),
        ),
{
    lemma_scan_halts(entries, replies, k);
}

/// A required grid before the first null entry whose load is refused, with whatever
/// error, halts the list; so does one whose reply is missing.
pub proof fn law_required_grid_halts_the_list(
    entries: Seq<DatumGridShiftEntry>,
    direction: GridShiftDirection,
    replies: ServiceReplies,
    at: int,
)
    requires
        0 <= at < reach(entries),
        !entries[at]->Grid_optional,
        !granted(replies, load_of(entries[at])),
    ensures
        grid_list_emission(entries, direction, replies).halt is Some,
        grid_list_emission(entries, direction, replies).steps == Seq::<Step>::empty(),
    decreases at,
{
    let k = lemma_first_stop(entries, replies, at);
    lemma_scan_halts(entries, replies, k);
}

/// A grid before the first null entry whose reply is missing, or is an error other than
/// that it is not known or cannot be had, halts the list, even where it is optional.
pub proof fn law_failing_grid_halts_the_list(
    entries: Seq<DatumGridShiftEntry>,
    direction: GridShiftDirection,
    replies: ServiceReplies,
    at: int,
)
    requires
        0 <= at < reach(entries),
        ({
            let load = ServiceRequest::LoadGrid { grid: entries[at]->Grid_definition.key };
            replies.contains_key(load) ==> (replies[load] matches Err(error) && !(
            error matches ErrorView::Grid(GridErrorView::NotFound(_))) && !(
            error matches ErrorView::Grid(GridErrorView::Unavailable(_))))
        }),
    ensures
        grid_list_emission(entries, direction, replies).halt is Some,
        grid_list_emission(entries, direction, replies).steps == Seq::<Step>::empty(),
{
    let k = lemma_first_stop(entries, replies, at);
    lemma_scan_halts(entries, replies, k);
}

/// An optional grid that is not known or cannot be had might as well not stand in the
/// list.
pub proof fn law_missing_optional_grid_counts_for_nothing(
    entries: Seq<DatumGridShiftEntry>,
    direction: GridShiftDirection,
    replies: ServiceReplies,
    at: int,
)
    requires
        0 <= at < reach(entries),
        entries[at]->Grid_optional,
        ({
            let load = ServiceRequest::LoadGrid { grid: entries[at]->Grid_definition.key };
            replies.contains_key(load) && (replies[load] matches Err(error) && (
            error matches ErrorView::Grid(GridErrorView::NotFound(_)) || error matches ErrorView::Grid(
                GridErrorView::Unavailable(_),
            )))
        }),
    ensures
        grid_list_emission(entries, direction, replies) == grid_list_emission(
            entries.remove(at),
            direction,
            replies,
        ),
{
    lemma_scan_without(entries, replies, at);
}

proof fn lemma_scan_without(entries: Seq<DatumGridShiftEntry>, replies: ServiceReplies, at: int)
    requires
        0 <= at < reach(entries),
        may_be_missing(entries[at], replies),
    ensures
        grid_scan(entries, replies) == grid_scan(entries.remove(at), replies),
    decreases entries.len(),
{
    lemma_reach(entries);
    let rest = entries.drop_first();
    let fewer = entries.remove(at);
    assert(entries[at] is Grid);
    if at == 0 {
        assert(fewer =~= rest);
    } else {
        assert(entries[0] is Grid);
        assert(rest[at - 1] == entries[at]);
        lemma_scan_without(rest, replies, at - 1);
        assert(fewer.drop_first() =~= rest.remove(at - 1));
        assert(fewer[0] == entries[0]);
    }
}

proof fn lemma_first_stop(
    entries: Seq<DatumGridShiftEntry>,
    replies: ServiceReplies,
    at: int,
) -> (k: int)
    requires
        0 <= at < reach(entries),
        stops_list(entries[at], replies),
    ensures
        0 <= k <= at,
        stops_list(entries[k], replies),
        forall|i: int| 0 <= i < k ==> !stops_list(#[trigger] entries[i], replies),
    decreases at,
{
    if exists|i: int| 0 <= i < at && stops_list(#[trigger] entries[i], replies) {
        let i = choose|i: int| 0 <= i < at && stops_list(#[trigger] entries[i], replies);
        lemma_first_stop(entries, replies, i)
    } else {
        at
    }
}

/// A list that nothing stops compiles to one step in its direction, with exactly the
/// grids that were loaded before the first null entry, in order, and with a null
/// entry if it has one. Without either it is not available.
pub proof fn law_list_holds_the_loaded_grids(
    entries: Seq<DatumGridShiftEntry>,
    direction: GridShiftDirection,
    replies: ServiceReplies,
)
    requires
        forall|i: int| 0 <= i < reach(entries) ==> !stops_list(#[trigger] entries[i], replies),
    ensures
        exists|positions: Seq<int>| #[trigger]
            picks_loaded(entries, positions, replies) && if positions.len() == 0 && reach(entries)
                == entries.len() {
                stops_with(
                    grid_list_emission(entries, direction, replies),
                    CompileHaltView::Failed(
                        ErrorView::Grid(
                            GridErrorView::Unavailable("no optional datum grid could be loaded"@),
                        ),
                    ),
                )
            } else {
                comes_to(
                    grid_list_emission(entries, direction, replies),
                    seq![
                        Step::GridShiftList {
                            handles: Seq::new(
                                positions.len(),
                                |i: int|
                                    GridHandle {
                                        key: entries[positions[i]]->Grid_definition.key,
                                    },
                            ),
                            allow_null: reach(entries) < entries.len(),
                            direction,
                        },
                    ],
                )
            },
{
    lemma_reach(entries);
    let positions = lemma_scan_gets_through(entries, replies);
    let scan = grid_scan(entries, replies);
    assert(scan.handles =~= Seq::new(
        positions.len(),
        |i: int| GridHandle { key: entries[positions[i]]->Grid_definition.key },
    ));
    assert(picks_loaded(entries, positions, replies));
}

/// A list that gets through holds the grid of every entry that may not be left out,
/// before the first null entry.
pub proof fn law_list_holds_every_required_grid(
    entries: Seq<DatumGridShiftEntry>,
    direction: GridShiftDirection,
    replies: ServiceReplies,
    at: int,
)
    requires
        0 <= at < reach(entries),
        !entries[at]->Grid_optional,
        grid_list_emission(entries, direction, replies).halt is None,
    ensures
        grid_list_emission(entries, direction, replies).steps.len() == 1,
        grid_list_emission(entries, direction, replies).steps[0] is GridShiftList,
        grid_list_emission(
            entries,
            direction,
            replies,
        ).steps[0]->GridShiftList_handles.contains(
            GridHandle { key: entries[at]->Grid_definition.key },
        ),
        grid_list_emission(entries, direction, replies).steps[0]->GridShiftList_direction
            == direction,
{
    assert forall|i: int| 0 <= i < reach(entries) implies !stops_list(
        #[trigger] entries[i],
        replies,
    ) by {
        if stops_list(entries[i], replies) {
            let k = lemma_first_stop(entries, replies, i);
            lemma_scan_halts(entries, replies, k);
        }
    }
    let positions = lemma_scan_gets_through(entries, replies);
    let scan = grid_scan(entries, replies);
    assert(granted(replies, load_of(entries[at])));
    assert(positions.contains(at));
    let j = choose|j: int| 0 <= j < positions.len() && positions[j] == at;
    assert(scan.handles[j] == (GridHandle { key: entries[at]->Grid_definition.key }));
}

/// The systems of an operation are those that it names, looked up by their codes and
/// swapped in reverse. Only one that does not name both works between the requested
/// ones, which are not swapped. A named system that is not known is an error.
pub proof fn law_systems_of_an_operation(
    operation: CoordinateOperation,
    requested: Option<(CrsDef, CrsDef)>,
    registry: Registry,
    a: u32,
    b: u32,
    direction: OperationStepDirection,
)
    ensures
        operation.source_crs_epsg == Some(a) && operation.target_crs_epsg == Some(b) ==> {
            let forward = geographic_pair(
                operation,
                OperationStepDirection::Forward,
                requested,
                registry,
            );
            let reverse = geographic_pair(
                operation,
                OperationStepDirection::Reverse,
                requested,
                registry,
            );
            if entry(registry.crs(), a) is Some && entry(registry.crs(), b) is Some {
                let first = entry(registry.crs(), a)->0;
                let second = entry(registry.crs(), b)->0;
                &&& forward == Ok::<(CrsDef, CrsDef), ErrorView>((first, second))
                &&& reverse == Ok::<(CrsDef, CrsDef), ErrorView>((second, first))
            } else {
                &&& forward == Err::<(CrsDef, CrsDef), ErrorView>(
                    ErrorView::UnknownCrs("unknown EPSG code in operation "@ + operation.name@),
                )
                &&& reverse == forward
            }
        },
        operation.source_crs_epsg is None || operation.target_crs_epsg is None
            ==> geographic_pair(operation, direction, requested, registry) == (match requested {
            Some(pair) => Ok(pair),
            None => Err::<(CrsDef, CrsDef), ErrorView>(
                ErrorView::OperationSelection(
                    "operation "@ + operation.name@ + " is missing source/target CRS metadata"@,
                ),
            ),
        }),
{
}

/// A Helmert or an affine operation enters geocentric coordinates on the ellipsoid of
/// the system that it comes from, leaves on that of the system that it goes to, and
/// works inversely in reverse. Where it is defined for longitude and latitude only, a
/// passthrough stands around it. Its parameters are checked first.
pub proof fn law_transformations_compile_between_their_systems(
    operation: CoordinateOperation,
    direction: OperationStepDirection,
    requested: Option<(CrsDef, CrsDef)>,
    registry: Registry,
    replies: ServiceReplies,
    levels: nat,
    from: CrsDef,
    to: CrsDef,
)
    requires
        geographic_pair(operation, direction, requested, registry) == Ok::<
            (CrsDef, CrsDef),
            ErrorView,
        >((from, to)),
        operation.method is Helmert || operation.method is GeocentricAffine,
    ensures
        ({
            let inverse = direction == OperationStepDirection::Reverse;
            let (check, step) = match operation.method {
                OperationMethod::Helmert { params } => (
                    ServiceRequest::ValidateHelmert { params },
                    Step::Helmert { params, inverse },
                ),
                _ => (
                    ServiceRequest::ValidateAffine {
                        params: operation.method->GeocentricAffine_params,
                    },
                    Step::GeocentricAffine {
                        params: operation.method->GeocentricAffine_params,
                        inverse,
                    },
                ),
            };
            let plain = seq![
                Step::GeodeticToGeocentric { ellipsoid: from.datum_spec().ellipsoid },
                step,
                Step::GeocentricToGeodetic { ellipsoid: to.datum_spec().ellipsoid },
            ];
            let result = operation_emission(
                operation,
                direction,
                requested,
                registry,
                replies,
                levels,
            );
            if !granted(replies, check) {
                stops_with(result, held_up(replies, check))
            } else if operation.domain is Geographic2D {
                comes_to(result, seq![Step::PushHeight] + plain + seq![Step::PopHeight])
            } else {
                comes_to(result, plain)
            }
        }),
{
}

/// A datum shift goes to WGS 84 on the side that it comes from, and from WGS 84 on
/// the side that it goes to; in reverse the sides change places. Height is preserved
/// exactly for longitude and latitude only. What halts the first way keeps the second
/// from starting.
pub proof fn law_datum_shift_goes_through_wgs84(
    operation: CoordinateOperation,
    requested: Option<(CrsDef, CrsDef)>,
    registry: Registry,
    replies: ServiceReplies,
    levels: nat,
    direction: OperationStepDirection,
    from: CrsDef,
    to: CrsDef,
)
    requires
        geographic_pair(operation, direction, requested, registry) == Ok::<
            (CrsDef, CrsDef),
            ErrorView,
        >((from, to)),
        operation.method is DatumShift,
    ensures
        ({
            let source = operation.method->source_to_wgs84;
            let target = operation.method->target_to_wgs84;
            let preserve = operation.domain == OperationDomain::Geographic2D;
            let first = to_wgs84_emission(
                if direction == OperationStepDirection::Forward { source } else { target },
                from.datum_spec().ellipsoid,
                preserve,
                replies,
            );
            let second = from_wgs84_emission(
                if direction == OperationStepDirection::Forward { target } else { source },
                to.datum_spec().ellipsoid,
                preserve,
                replies,
            );
            let result = operation_emission(
                operation,
                direction,
                requested,
                registry,
                replies,
                levels,
            );
            if first.halt is Some {
                result.halt == first.halt && result.steps == first.steps
            } else {
                result.halt == second.halt && result.steps == first.steps + second.steps
            }
        }),
{
}

/// A grid operation takes one step with the grid that the registry holds under its
/// number, in the direction of the operation or, in reverse, in the opposite one. The
/// grid has to be known, in a format that can be read, and loaded.
pub proof fn law_grid_operation_takes_one_step(
    operation: CoordinateOperation,
    requested: Option<(CrsDef, CrsDef)>,
    registry: Registry,
    replies: ServiceReplies,
    levels: nat,
    direction: OperationStepDirection,
    id: GridId,
    grid_direction: GridShiftDirection,
)
    requires
        geographic_pair(operation, direction, requested, registry) is Ok,
        operation.method == (OperationMethod::GridShift { grid_id: id, direction: grid_direction }),
    ensures
        ({
            let applied = if direction == OperationStepDirection::Forward {
                grid_direction
            } else if grid_direction == GridShiftDirection::Forward {
                GridShiftDirection::Reverse
            } else {
                GridShiftDirection::Forward
            };
            let result = operation_emission(
                operation,
                direction,
                requested,
                registry,
                replies,
                levels,
            );
            match entry(registry.grids(), id.0) {
                None => stops_with(
                    result,
                    CompileHaltView::Failed(
                        ErrorView::Grid(GridErrorView::NotFound("grid id "@ + decimal(id.0 as nat))),
                    ),
                ),
                Some(grid) => {
                    let load = ServiceRequest::LoadGrid { grid: grid.key };
                    if grid.format == GridFormat::Unsupported {
                        stops_with(
                            result,
                            CompileHaltView::Failed(
                                ErrorView::Grid(GridErrorView::UnsupportedFormat(grid.name@)),
                            ),
                        )
                    } else if !granted(replies, load) {
                        stops_with(result, held_up(replies, load))
                    } else {
                        comes_to(
                            result,
                            seq![
                                Step::GridShift {
                                    handle: GridHandle { key: grid.key },
                                    direction: applied,
                                },
                            ],
                        )
                    }
                },
            }
        }),
{
}

/// An identity takes no steps; a projection or an adjustment of axes is refused; and
/// an operation whose systems are not known fails before anything else.
pub proof fn law_operations_without_steps(
    operation: CoordinateOperation,
    direction: OperationStepDirection,
    requested: Option<(CrsDef, CrsDef)>,
    registry: Registry,
    replies: ServiceReplies,
    levels: nat,
)
    ensures
        match geographic_pair(operation, direction, requested, registry) {
            Err(error) => stops_with(
                operation_emission(operation, direction, requested, registry, replies, levels),
                CompileHaltView::Failed(error),
            ),
            Ok(_) => {
                &&& operation.method is Identity ==> comes_to(
                    operation_emission(operation, direction, requested, registry, replies, levels),
                    Seq::empty(),
                )
                &&& operation.method is Projection || operation.method is AxisUnitNormalize
                    ==> stops_with(
                    operation_emission(operation, direction, requested, registry, replies, levels),
                    CompileHaltView::Failed(
                        ErrorView::UnsupportedProjection(
                            "direct projection operations are not emitted by the embedded selector"@,
                        ),
                    ),
                )
            },
        },
{
}

/// A source system comes in by the inverse of its own projection, which has to be set
/// up, or from geocentric coordinates on its own ellipsoid; a target system is left
/// for the other way round. A geographic system needs neither.
pub proof fn law_ends_are_framed_by_their_own_system(crs: CrsDef, replies: ServiceReplies)
    ensures
        match crs {
            CrsDef::Geographic(_) => comes_to(source_emission(crs, replies), Seq::empty())
                && comes_to(target_emission(crs, replies), Seq::empty()),
            CrsDef::Geocentric(geocentric) => comes_to(
                source_emission(crs, replies),
                seq![Step::GeocentricToGeodetic { ellipsoid: geocentric.datum.ellipsoid }],
            ) && comes_to(
                target_emission(crs, replies),
                seq![Step::GeodeticToGeocentric { ellipsoid: geocentric.datum.ellipsoid }],
            ),
            CrsDef::Projected(projected) => {
                let projection = Projection { method: projected.method, datum: projected.datum };
                let set_up = ServiceRequest::MakeProjection { projection };
                if granted(replies, set_up) {
                    comes_to(
                        source_emission(crs, replies),
                        seq![Step::ProjectionInverse { projection }],
                    ) && comes_to(
                        target_emission(crs, replies),
                        seq![Step::ProjectionForward { projection }],
                    )
                } else {
                    stops_with(source_emission(crs, replies), held_up(replies, set_up))
                        && stops_with(target_emission(crs, replies), held_up(replies, set_up))
                }
            },
        },
{
}

/// A pipeline goes in at its source, through its operation between its two systems,
/// and out at its target. The first of the three that halts, halts it. An operation
/// of the registry and one that the caller defined are treated alike.
pub proof fn law_pipeline_is_framed_operation(
    source: CrsDef,
    target: CrsDef,
    operation: CoordinateOperation,
    direction: OperationStepDirection,
    registry: Registry,
    replies: ServiceReplies,
)
    ensures
        ({
            let enter = source_emission(source, replies);
            let middle = operation_emission(
                operation,
                direction,
                Some((source, target)),
                registry,
                replies,
                registry.operations().len() + 1,
            );
            let leave = target_emission(target, replies);
            let custom = pipeline_emission(
                source,
                target,
                SelectedOperationKind::Custom(operation),
                direction,
                registry,
                replies,
            );
            let known = pipeline_emission(
                source,
                target,
                SelectedOperationKind::Registry(operation),
                direction,
                registry,
                replies,
            );
            let identity = pipeline_emission(
                source,
                target,
                SelectedOperationKind::Identity,
                direction,
                registry,
                replies,
            );
            &&& known == custom
            &&& if enter.halt is Some {
                custom.halt == enter.halt && identity.halt == enter.halt
            } else if middle.halt is Some {
                custom.halt == middle.halt && identity.halt == leave.halt
            } else if leave.halt is Some {
                custom.halt == leave.halt && identity.halt == leave.halt
            } else {
                comes_to(custom, enter.steps + middle.steps + leave.steps) && comes_to(
                    identity,
                    enter.steps + leave.steps,
                )
            }
            &&& enter.halt is None && leave.halt is None ==> comes_to(
                identity,
                enter.steps + leave.steps,
            )
        }),
{
    let enter = source_emission(source, replies);
    let none = selected_emission(
        source,
        target,
        SelectedOperationKind::Identity,
        direction,
        registry,
        replies,
    );
    assert(enter.steps + none.steps =~= enter.steps);
}

} // verus!
