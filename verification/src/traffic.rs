//! Traffic at a stop: the routes that will call there, soonest first, and
//! the free cabs that wait there.

use crate::model::{
    views_of_routes, Cab, CabStatus, Leg, Route, RouteStatus, RouteView, RouteWithEta,
    RouteWithEtaView, Stop, StopTraffic, StopTrafficView, StopView,
};
use crate::service::{by_place, calculate_eta_at, clamp_i16, insert_leg, route_eta};
use crate::sorting::{
    insert_by, is_ascending, lemma_first_above_skip, lemma_ordered_by, lemma_ordered_by_contains,
    lemma_ordered_by_push, lemma_ordered_by_tags, ordered_by, tags_differ,
};
use crate::time::Timestamp;
use vstd::prelude::*;

verus! {

/// Whether a leg will still depart from `stop`: it starts there and is
/// assigned or accepted.
pub open spec fn departs_from(stop: int, leg: Leg) -> bool {
    leg.from == stop && (leg.status == RouteStatus::ASSIGNED || leg.status
        == RouteStatus::ACCEPTED)
}

/// Whether a leg will still arrive at `stop`: it ends there and is assigned,
/// accepted or under way.
pub open spec fn arrives_at(stop: int, leg: Leg) -> bool {
    leg.to == stop && (leg.status == RouteStatus::ASSIGNED || leg.status == RouteStatus::ACCEPTED
        || leg.status == RouteStatus::STARTED)
}

/// Whether a leg makes its route call at `stop`.
pub open spec fn touches(stop: int, leg: Leg) -> bool {
    departs_from(stop, leg) || arrives_at(stop, leg)
}

/// Whether some leg of the route `route_id` among `legs` touches `stop`.
pub open spec fn is_relevant(stop: int, legs: Seq<Leg>, route_id: i64) -> bool {
    exists|i: int|
        0 <= i < legs.len() && (#[trigger] legs[i]).route_id == route_id && touches(stop, legs[i])
}

/// The routes that `legs` belong to, each once, in the order in which they
/// first occur.
pub open spec fn route_ids(legs: Seq<Leg>) -> Seq<i64>
    decreases legs.len(),
{
    if legs.len() == 0 {
        Seq::empty()
    } else {
        let before = route_ids(legs.drop_last());
        if before.contains(legs.last().route_id) {
            before
        } else {
            before.push(legs.last().route_id)
        }
    }
}

/// The test that picks the routes with a leg that touches `stop`.
pub open spec fn relevant_to(stop: int, legs: Seq<Leg>) -> spec_fn(i64) -> bool {
    |route_id: i64| is_relevant(stop, legs, route_id)
}

/// The routes among `legs` that will call at `stop`, each once, in the order
/// in which they first occur.
pub open spec fn relevant_route_ids(stop: int, legs: Seq<Leg>) -> Seq<i64> {
    route_ids(legs).filter(relevant_to(stop, legs))
}

/// Whether a leg makes its route call at `stop`.
fn touches_stop(stop: i64, leg: &Leg) -> (t: bool)
    ensures
        t == touches(stop as int, *leg),
{
    let departs = leg.from as i64 == stop && (leg.status == RouteStatus::ASSIGNED || leg.status
        == RouteStatus::ACCEPTED);
    let arrives = leg.to as i64 == stop && (leg.status == RouteStatus::ASSIGNED || leg.status
        == RouteStatus::ACCEPTED || leg.status == RouteStatus::STARTED);
    departs || arrives
}

/// Whether `ids` holds `id`.
fn holds_id(ids: &Vec<i64>, id: i64) -> (found: bool)
    ensures
        found == ids@.contains(id),
{
    let mut i: usize = 0;
    while i < ids.len()
        invariant
            i <= ids@.len(),
            forall|k: int| 0 <= k < i ==> ids@[k] != id,
        decreases ids@.len() - i,
    {
        if ids[i] == id {
            return true;
        }
        i += 1;
    }
    false
}

/// The routes that `legs` belong to, each once, in the order in which they
/// first occur.
pub fn routes_of_legs(legs: &Vec<Leg>) -> (ids: Vec<i64>)
    ensures
        ids@ == route_ids(legs@),
{
    let mut ids: Vec<i64> = Vec::new();
    let mut i: usize = 0;
    assert(legs@.take(0) =~= Seq::<Leg>::empty());
    while i < legs.len()
        invariant
            i <= legs@.len(),
            ids@ == route_ids(legs@.take(i as int)),
        decreases legs@.len() - i,
    {
        let id = legs[i].route_id;
        proof {
            let upto = legs@.take(i as int + 1);
            assert(upto.drop_last() =~= legs@.take(i as int));
            assert(upto.last() == legs@[i as int]);
        }
        if !holds_id(&ids, id) {
            ids.push(id);
        }
        i += 1;
    }
    assert(legs@.take(legs@.len() as int) =~= legs@);
    ids
}

/// Whether some leg of the route `route_id` among `legs` touches `stop`.
fn is_relevant_route(stop: i64, legs: &Vec<Leg>, route_id: i64) -> (relevant: bool)
    ensures
        relevant == is_relevant(stop as int, legs@, route_id),
{
    let mut i: usize = 0;
    while i < legs.len()
        invariant
            i <= legs@.len(),
            forall|k: int|
                0 <= k < i ==> !((#[trigger] legs@[k]).route_id == route_id && touches(
                    stop as int,
                    legs@[k],
                )),
        decreases legs@.len() - i,
    {
        if legs[i].route_id == route_id && touches_stop(stop, &legs[i]) {
            return true;
        }
        i += 1;
    }
    false
}

/// The routes among `legs` that will call at the stop `stop`, each once, in
/// the order in which they first occur.
pub fn relevant_routes(stop: i64, legs: &Vec<Leg>) -> (ids: Vec<i64>)
    ensures
        ids@ == relevant_route_ids(stop as int, legs@),
{
    let all = routes_of_legs(legs);
    let mut ids: Vec<i64> = Vec::new();
    let mut i: usize = 0;
    let ghost pick = relevant_to(stop as int, legs@);
    assert(all@.take(0) =~= Seq::<i64>::empty());
    while i < all.len()
        invariant
            i <= all@.len(),
            all@ == route_ids(legs@),
            pick == relevant_to(stop as int, legs@),
            ids@ == all@.take(i as int).filter(pick),
        decreases all@.len() - i,
    {
        let id = all[i];
        proof {
            assert(all@.take(i as int + 1) =~= all@.take(i as int).push(id));
            all@.take(i as int).lemma_filter_push(id, pick);
        }
        if is_relevant_route(stop, legs, id) {
            ids.push(id);
        }
        i += 1;
    }
    assert(all@.take(all@.len() as int) =~= all@);
    ids
}

/// The test that picks the legs of the route `route_id`.
pub open spec fn on_route(route_id: i64) -> spec_fn(Leg) -> bool {
    |leg: Leg| leg.route_id == route_id
}

/// The legs of the route `route_id` among `legs`, in the order of their
/// places.
pub open spec fn legs_of_route(legs: Seq<Leg>, route_id: i64) -> Seq<Leg> {
    ordered_by(legs.filter(on_route(route_id)), by_place())
}

/// The cab that `cabs` names for the route `route_id`: that of the first pair
/// with this route, and the cab that stands for none where no pair has it.
pub open spec fn cab_of_route(cabs: Seq<(i64, Cab)>, route_id: i64) -> Cab
    decreases cabs.len(),
{
    if cabs.len() == 0 {
        Cab::spec_default()
    } else if cabs[0].0 == route_id {
        cabs[0].1
    } else {
        cab_of_route(cabs.drop_first(), route_id)
    }
}

/// A route that calls at `stop` as the traffic report shows it: assigned,
/// with its legs in place order, its cab, and the estimate made at `now`.
pub open spec fn route_through(
    stop: int,
    legs: Seq<Leg>,
    cabs: Seq<(i64, Cab)>,
    route_id: i64,
    now: Timestamp,
) -> RouteWithEtaView {
    let route = RouteView {
        id: route_id,
        status: RouteStatus::ASSIGNED,
        legs: legs_of_route(legs, route_id),
        cab: cab_of_route(cabs, route_id),
    };
    RouteWithEtaView { eta: clamp_i16(route_eta(stop, route, now)) as i16, route }
}

/// The routes that call at `stop`, each once, in the order in which they
/// first occur among `legs`.
pub open spec fn arrivals(stop: int, legs: Seq<Leg>, cabs: Seq<(i64, Cab)>, now: Timestamp) -> Seq<
    RouteWithEtaView,
> {
    relevant_route_ids(stop, legs).map_values(
        |route_id: i64| route_through(stop, legs, cabs, route_id, now),
    )
}

/// The key by which the routes of a traffic report are put in order.
pub open spec fn by_eta() -> spec_fn(RouteWithEtaView) -> int {
    |r: RouteWithEtaView| r.eta as int
}

/// The test that picks the free cabs standing at `stop`.
pub open spec fn waits_at(stop: int) -> spec_fn(Cab) -> bool {
    |cab: Cab| cab.location == stop && cab.status == CabStatus::FREE
}

/// The first stop of the registry with the id `id`.
pub open spec fn stop_with_id(stops: Seq<Stop>, id: i64) -> Option<StopView>
    decreases stops.len(),
{
    if stops.len() == 0 {
        None
    } else if stops[0].id == id {
        Some(stops[0]@)
    } else {
        stop_with_id(stops.drop_first(), id)
    }
}

/// The traffic at the stop `stand_id`: the stop as the registry has it, the
/// routes that call there by ascending estimate, and the free cabs among
/// `cabs_at_stops` that stand there.
pub open spec fn traffic(
    stand_id: i64,
    legs: Seq<Leg>,
    cabs_of_routes: Seq<(i64, Cab)>,
    stops: Seq<Stop>,
    cabs_at_stops: Seq<Cab>,
    now: Timestamp,
) -> StopTrafficView {
    StopTrafficView {
        stop: stop_with_id(stops, stand_id),
        routes: ordered_by(arrivals(stand_id as int, legs, cabs_of_routes, now), by_eta()),
        cabs: cabs_at_stops.filter(waits_at(stand_id as int)),
    }
}

/// The legs of the route `route_id` among `legs`, in the order of their
/// places.
fn collect_legs(legs: &Vec<Leg>, route_id: i64) -> (own: Vec<Leg>)
    ensures
        own@ == legs_of_route(legs@, route_id),
{
    let mut own: Vec<Leg> = Vec::new();
    let ghost pick = on_route(route_id);
    let ghost key = by_place();
    let mut i: usize = 0;
    assert(legs@.take(0) =~= Seq::<Leg>::empty());
    while i < legs.len()
        invariant
            i <= legs@.len(),
            pick == on_route(route_id),
            key == by_place(),
            own@ == ordered_by(legs@.take(i as int).filter(pick), key),
        decreases legs@.len() - i,
    {
        let leg = legs[i];
        proof {
            assert(legs@.take(i as int + 1) =~= legs@.take(i as int).push(leg));
            legs@.take(i as int).lemma_filter_push(leg, pick);
            lemma_ordered_by_push(legs@.take(i as int).filter(pick), key, leg);
        }
        if leg.route_id == route_id {
            insert_leg(&mut own, leg);
        }
        i += 1;
    }
    assert(legs@.take(legs@.len() as int) =~= legs@);
    own
}

/// The cab that `cabs` names for the route `route_id`.
fn find_cab(cabs: &Vec<(i64, Cab)>, route_id: i64) -> (cab: Cab)
    ensures
        cab == cab_of_route(cabs@, route_id),
{
    let mut i: usize = 0;
    assert(cabs@.skip(0) =~= cabs@);
    while i < cabs.len()
        invariant
            i <= cabs@.len(),
            cab_of_route(cabs@, route_id) == cab_of_route(cabs@.skip(i as int), route_id),
        decreases cabs@.len() - i,
    {
        proof {
            let rest = cabs@.skip(i as int);
            assert(rest[0] == cabs@[i as int]);
            assert(rest.drop_first() =~= cabs@.skip(i as int + 1));
        }
        if cabs[i].0 == route_id {
            return cabs[i].1;
        }
        i += 1;
    }
    Cab::default()
}

/// The route `id` with its legs, its cab and the minutes until it reaches
/// the stop `stop_id`, estimated at `now`.
pub fn get_route_with_eta(
    id: i64,
    stop_id: i32,
    legs: Vec<Leg>,
    cab: Cab,
    now: &Timestamp,
) -> (with_eta: RouteWithEta)
    ensures
        with_eta.route@ == (RouteView { id, status: RouteStatus::ASSIGNED, legs: legs@, cab }),
        with_eta.eta == clamp_i16(route_eta(stop_id as int, with_eta.route@, *now)),
{
    let route = Route { id, status: RouteStatus::ASSIGNED, legs, cab };
    let eta = calculate_eta_at(stop_id, &route, now);
    RouteWithEta { eta, route }
}

/// Puts a route into routes that are ordered by estimate, behind those with
/// the same estimate.
fn insert_route(sorted: &mut Vec<RouteWithEta>, route: RouteWithEta)
    ensures
        views_of_routes(final(sorted)@) == insert_by(
            views_of_routes(old(sorted)@),
            by_eta(),
            route@,
        ),
{
    let ghost views = views_of_routes(sorted@);
    let mut p: usize = 0;
    while p < sorted.len() && sorted[p].eta <= route.eta
        invariant
            sorted@ == old(sorted)@,
            views == views_of_routes(sorted@),
            p <= sorted@.len(),
            forall|k: int| 0 <= k < p ==> by_eta()(#[trigger] views[k]) <= route.eta,
        decreases sorted@.len() - p,
    {
        assert(views[p as int] == sorted@[p as int]@);
        p += 1;
    }
    proof {
        lemma_first_above_skip(views, by_eta(), route.eta as int, p as int);
        if p < sorted@.len() {
            assert(views.skip(p as int)[0] == sorted@[p as int]@);
        }
        assert(views_of_routes(sorted@.insert(p as int, route)) =~= views.insert(p as int, route@));
    }
    sorted.insert(p, route);
}

/// The first stop of the registry with the id `id`.
fn find_stop(stops: &Vec<Stop>, id: i64) -> (found: Option<Stop>)
    ensures
        match found {
            Some(s) => stop_with_id(stops@, id) == Some(s@),
            None => stop_with_id(stops@, id) is None,
        },
{
    let mut i: usize = 0;
    assert(stops@.skip(0) =~= stops@);
    while i < stops.len()
        invariant
            i <= stops@.len(),
            stop_with_id(stops@, id) == stop_with_id(stops@.skip(i as int), id),
        decreases stops@.len() - i,
    {
        proof {
            let rest = stops@.skip(i as int);
            assert(rest[0] == stops@[i as int]);
            assert(rest.drop_first() =~= stops@.skip(i as int + 1));
        }
        if stops[i].id == id {
            return Some(stops[i].duplicate());
        }
        i += 1;
    }
    None
}

/// The free cabs among `cabs` that stand at the stop `stop`.
fn cabs_waiting(cabs: &Vec<Cab>, stop: i64) -> (waiting: Vec<Cab>)
    ensures
        waiting@ == cabs@.filter(waits_at(stop as int)),
{
    let mut waiting: Vec<Cab> = Vec::new();
    let ghost pick = waits_at(stop as int);
    let mut i: usize = 0;
    assert(cabs@.take(0) =~= Seq::<Cab>::empty());
    while i < cabs.len()
        invariant
            i <= cabs@.len(),
            pick == waits_at(stop as int),
            waiting@ == cabs@.take(i as int).filter(pick),
        decreases cabs@.len() - i,
    {
        let cab = cabs[i];
        proof {
            assert(cabs@.take(i as int + 1) =~= cabs@.take(i as int).push(cab));
            cabs@.take(i as int).lemma_filter_push(cab, pick);
        }
        if cab.location as i64 == stop && cab.status == CabStatus::FREE {
            waiting.push(cab);
        }
        i += 1;
    }
    assert(cabs@.take(cabs@.len() as int) =~= cabs@);
    waiting
}

/// The tag by which two routes of a report are told apart.
pub open spec fn route_id_of() -> spec_fn(RouteWithEtaView) -> i64 {
    |r: RouteWithEtaView| r.route.id
}

/// Every route that a leg belongs to is among the routes of the legs, and no
/// route is among them twice.
proof fn lemma_route_ids(legs: Seq<Leg>)
    ensures
        route_ids(legs).no_duplicates(),
        forall|i: int|
            0 <= i < legs.len() ==> route_ids(legs).contains((#[trigger] legs[i]).route_id),
        forall|id: i64|
            route_ids(legs).contains(id) ==> exists|i: int|
                0 <= i < legs.len() && (#[trigger] legs[i]).route_id == id,
    decreases legs.len(),
{
    if legs.len() == 0 {
    } else {
        let init = legs.drop_last();
        let last = legs.last();
        lemma_route_ids(init);
        let before = route_ids(init);
        let all = route_ids(legs);
        assert forall|i: int| 0 <= i < legs.len() implies all.contains(
            (#[trigger] legs[i]).route_id,
        ) by {
            if i < init.len() {
                assert(init[i] == legs[i]);
                let k = choose|k: int| 0 <= k < before.len() && before[k] == legs[i].route_id;
                assert(all[k] == legs[i].route_id);
            } else {
                if before.contains(last.route_id) {
                } else {
                    assert(all[before.len() as int] == last.route_id);
                }
            }
        }
        assert forall|id: i64| all.contains(id) implies exists|i: int|
            0 <= i < legs.len() && (#[trigger] legs[i]).route_id == id by {
            let k = choose|k: int| 0 <= k < all.len() && all[k] == id;
            if k < before.len() {
                assert(before[k] == id);
                assert(before.contains(id));
                let i = choose|i: int| 0 <= i < init.len() && (#[trigger] init[i]).route_id == id;
                assert(legs[i].route_id == id);
            } else {
                assert(legs[legs.len() - 1].route_id == id);
            }
        }
    }
}

/// What passes a test among items without repetition is without repetition
/// and is made of items that pass.
proof fn lemma_filter_once(s: Seq<i64>, pick: spec_fn(i64) -> bool)
    requires
        s.no_duplicates(),
    ensures
        s.filter(pick).no_duplicates(),
        forall|x: i64| #[trigger] s.filter(pick).contains(x) <==> s.contains(x) && pick(x),
    decreases s.len(),
{
    if s.len() == 0 {
        assert(s.filter(pick).len() == 0) by {
            s.lemma_filter_len(pick);
        }
    } else {
        let init = s.drop_last();
        let last = s.last();
        lemma_filter_once(init, pick);
        let f0 = init.filter(pick);
        let f = s.filter(pick);
        assert(init.push(last) =~= s);
        init.lemma_filter_push(last, pick);
        assert(f == if pick(last) {
            f0.push(last)
        } else {
            f0
        });
        assert(!init.contains(last)) by {
            if init.contains(last) {
                let k = choose|k: int| 0 <= k < init.len() && init[k] == last;
                assert(s[k] == s[s.len() - 1]);
            }
        }
        assert(f.no_duplicates()) by {
            assert(!f0.contains(last));
            assert forall|i: int, j: int|
                0 <= i < f.len() && 0 <= j < f.len() && i != j implies f[i] != f[j] by {
                if i < f0.len() && j < f0.len() {
                    assert(f0[i] != f0[j]);
                } else if i < f0.len() {
                    assert(f0.contains(f0[i]));
                } else if j < f0.len() {
                    assert(f0.contains(f0[j]));
                }
            }
        }
        assert forall|x: i64| #[trigger] f.contains(x) <==> s.contains(x) && pick(x) by {
            assert(f0.contains(x) <==> init.contains(x) && pick(x));
            if f.contains(x) {
                let k = choose|k: int| 0 <= k < f.len() && f[k] == x;
                if k < f0.len() {
                    assert(f0[k] == x);
                    assert(f0.contains(x));
                    let m = choose|m: int| 0 <= m < init.len() && init[m] == x;
                    assert(s[m] == x);
                } else {
                    assert(x == last);
                    assert(s[s.len() - 1] == x);
                }
            }
            if s.contains(x) && pick(x) {
                let m = choose|m: int| 0 <= m < s.len() && s[m] == x;
                if m < init.len() {
                    assert(init[m] == x);
                    assert(init.contains(x));
                    let k = choose|k: int| 0 <= k < f0.len() && f0[k] == x;
                    assert(f[k] == x);
                } else {
                    assert(f[f0.len() as int] == x);
                }
            }
        }
    }
}

/// A traffic report lists the routes that call at the stop by ascending
/// estimate, and each of them exactly once: a route is listed if and only if
/// one of its legs touches the stop, and no two entries are of the same
/// route, however many of its legs touch the stop. Every listed route holds
/// its legs by ascending place.
pub proof fn lemma_traffic_routes(
    stand_id: i64,
    legs: Seq<Leg>,
    cabs_of_routes: Seq<(i64, Cab)>,
    stops: Seq<Stop>,
    cabs_at_stops: Seq<Cab>,
    now: Timestamp,
)
    ensures
        ({
            let routes = traffic(stand_id, legs, cabs_of_routes, stops, cabs_at_stops, now).routes;
            &&& is_ascending(routes, by_eta())
            &&& tags_differ(routes, route_id_of())
            &&& forall|i: int|
                0 <= i < routes.len() ==> is_ascending((#[trigger] routes[i]).route.legs, by_place())
            &&& forall|route_id: i64|
                is_relevant(stand_id as int, legs, route_id) <==> exists|i: int|
                    0 <= i < routes.len() && (#[trigger] routes[i]).route.id == route_id
        }),
{
    let stop = stand_id as int;
    let ids = relevant_route_ids(stop, legs);
    let unordered = arrivals(stop, legs, cabs_of_routes, now);
    let routes = ordered_by(unordered, by_eta());
    lemma_route_ids(legs);
    lemma_filter_once(route_ids(legs), relevant_to(stop, legs));
    lemma_ordered_by(unordered, by_eta());
    assert(tags_differ(unordered, route_id_of())) by {
        assert forall|i: int, j: int| 0 <= i < j < unordered.len() implies route_id_of()(
            unordered[i],
        ) != route_id_of()(unordered[j]) by {
            assert(unordered[i].route.id == ids[i]);
            assert(unordered[j].route.id == ids[j]);
        }
    }
    lemma_ordered_by_tags(unordered, by_eta(), route_id_of());
    assert forall|i: int| 0 <= i < routes.len() implies is_ascending(
        (#[trigger] routes[i]).route.legs,
        by_place(),
    ) by {
        assert(routes.contains(routes[i]));
        lemma_ordered_by_contains(unordered, by_eta(), routes[i]);
        let k = choose|k: int| 0 <= k < unordered.len() && unordered[k] == routes[i];
        lemma_ordered_by(legs.filter(on_route(ids[k])), by_place());
    }
    assert forall|route_id: i64|
        is_relevant(stop, legs, route_id) <==> exists|i: int|
            0 <= i < routes.len() && (#[trigger] routes[i]).route.id == route_id by {
        if is_relevant(stop, legs, route_id) {
            let l = choose|l: int|
                0 <= l < legs.len() && (#[trigger] legs[l]).route_id == route_id && touches(
                    stop,
                    legs[l],
                );
            assert(route_ids(legs).contains(legs[l].route_id));
            assert(ids.contains(route_id));
            let k = choose|k: int| 0 <= k < ids.len() && ids[k] == route_id;
            assert(unordered[k].route.id == route_id);
            assert(unordered.contains(unordered[k]));
            lemma_ordered_by_contains(unordered, by_eta(), unordered[k]);
            let i = choose|i: int| 0 <= i < routes.len() && routes[i] == unordered[k];
            assert(routes[i].route.id == route_id);
        }
        if exists|i: int| 0 <= i < routes.len() && (#[trigger] routes[i]).route.id == route_id {
            let i = choose|i: int|
                0 <= i < routes.len() && (#[trigger] routes[i]).route.id == route_id;
            assert(routes.contains(routes[i]));
            lemma_ordered_by_contains(unordered, by_eta(), routes[i]);
            let k = choose|k: int| 0 <= k < unordered.len() && unordered[k] == routes[i];
            assert(unordered[k].route.id == ids[k]);
            assert(ids.contains(ids[k]));
        }
    }
}

/// The traffic at the stop `stand_id`, as of the clock reading `now`.
///
/// `legs` are the legs that the store holds of the routes in question;
/// `cabs_of_routes` names the cab of each route; `stops` is the registry;
/// `cabs_at_stops` are the cabs among which those waiting at the stop are
/// looked for. `user_id` is the caller, of whom nothing is asked here.
///
/// A route is listed when one of its legs will still depart from the stop or
/// arrive at it, once however many of its legs do, with all its legs in
/// place order and the estimate of `calculate_eta_at`; the list is ascending
/// by estimate. A stop that the registry does not know is reported as
/// `None`, and routes and cabs are reported all the same.
pub fn select_traffik(
    user_id: i64,
    stand_id: i64,
    legs: &Vec<Leg>,
    cabs_of_routes: &Vec<(i64, Cab)>,
    stops: &Vec<Stop>,
    cabs_at_stops: &Vec<Cab>,
    now: &Timestamp,
) -> (report: StopTraffic)
    ensures
        report@ == traffic(stand_id, legs@, cabs_of_routes@, stops@, cabs_at_stops@, *now),
        is_ascending(report@.routes, by_eta()),
        tags_differ(report@.routes, route_id_of()),
{
    let relevant = relevant_routes(stand_id, legs);
    let in_range = i32::MIN as i64 <= stand_id && stand_id <= i32::MAX as i64;
    let stop_id: i32 = if in_range {
        stand_id as i32
    } else {
        0
    };
    let ghost stop = stand_id as int;
    let ghost unordered = arrivals(stop, legs@, cabs_of_routes@, *now);
    proof {
        if relevant@.len() > 0 && !in_range {
            let first = relevant@[0];
            route_ids(legs@).lemma_filter_pred(relevant_to(stop, legs@), 0);
            assert(is_relevant(stop, legs@, first));
        }
    }
    let mut routes: Vec<RouteWithEta> = Vec::new();
    let mut k: usize = 0;
    assert(unordered.take(0) =~= Seq::<RouteWithEtaView>::empty());
    assert(views_of_routes(routes@) =~= Seq::<RouteWithEtaView>::empty());
    while k < relevant.len()
        invariant
            k <= relevant@.len(),
            relevant@ == relevant_route_ids(stop, legs@),
            stop == stand_id as int,
            relevant@.len() > 0 ==> stop_id == stand_id,
            unordered == arrivals(stop, legs@, cabs_of_routes@, *now),
            views_of_routes(routes@) == ordered_by(unordered.take(k as int), by_eta()),
        decreases relevant@.len() - k,
    {
        let id = relevant[k];
        let own = collect_legs(legs, id);
        let cab = find_cab(cabs_of_routes, id);
        let route = get_route_with_eta(id, stop_id, own, cab, now);
        proof {
            assert(unordered[k as int] == route_through(stop, legs@, cabs_of_routes@, id, *now));
            assert(route@ == unordered[k as int]);
            assert(unordered.take(k as int + 1) =~= unordered.take(k as int).push(route@));
            lemma_ordered_by_push(unordered.take(k as int), by_eta(), route@);
        }
        insert_route(&mut routes, route);
        k += 1;
    }
    assert(unordered.take(unordered.len() as int) =~= unordered);
    let stop_found = find_stop(stops, stand_id);
    let cabs = cabs_waiting(cabs_at_stops, stand_id);
    proof {
        lemma_traffic_routes(stand_id, legs@, cabs_of_routes@, stops@, cabs_at_stops@, *now);
    }
    StopTraffic { stop: stop_found, routes, cabs }
}

} // verus!
