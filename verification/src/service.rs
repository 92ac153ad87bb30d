//! What the service answers: arrival estimates, traffic at a stop, orders
//! and their transitions, and the figures of the service.

use crate::distance::DistanceIndex;
use crate::model::{
    cab_status_of, get_cab_status, get_order_status, order_status_of, views_of_stats,
    views_of_stops, Cab, CabStatus, Leg, Order, OrderStatus, Route, RouteStatus, RouteView,
    RouteWithOrders, RouteWithOrdersView, ServiceError, Stat as Figure, StatView, Stats, StatsView,
    Stop, StopView, NO_ID, NO_SEATS,
};
use crate::rows::{
    cab_of, leg_of, order_of, read_cab, read_leg, read_order, LegRow, OrderRow, StopRow,
};
use crate::sorting::{
    insert_by, lemma_first_above_skip, lemma_ordered_by_contains, lemma_ordered_by_push, ordered_by,
};
use crate::stats::{add_avg_complete, add_avg_pickup, Stat, Statistics, NO_LATENCY};
use crate::time::{
    elapsed_seconds, lemma_trunc_div_ordered, local_now, whole_minutes, whole_seconds_between,
    Timestamp, MAX_SECONDS, MIN_SECONDS, SECONDS_PER_MINUTE,
};
use vstd::prelude::*;

pub use crate::traffic::{get_route_with_eta, select_traffik};

verus! {

/// Minutes that a cab waits at each stop; an estimate leaves out the wait at
/// the stop it is made for.
pub const STOP_WAIT: i32 = 1;

/// The estimate given for a route that does not exist.
pub const NO_ETA: i16 = -1;

/// Seconds since `val` at the clock reading `now`, and -1 where no instant
/// was recorded.
pub fn get_elapsed_at(val: Option<Timestamp>, now: &Timestamp) -> (seconds: i64)
    ensures
        seconds == elapsed_seconds(val, *now),
        MIN_SECONDS - MAX_SECONDS <= seconds <= MAX_SECONDS - MIN_SECONDS,
{
    match val {
        Some(t) => now.seconds_since(&t),
        None => -1,
    }
}

/// Seconds since `val` by the local clock, and -1 where no instant was
/// recorded.
pub fn get_elapsed(val: Option<Timestamp>) -> (seconds: i64)
    ensures
        exists|now: Timestamp| seconds == elapsed_seconds(val, now),
        val is None ==> seconds == -1,
{
    let now = local_now();
    get_elapsed_at(val, &now)
}

/// Seconds since an order was received, by the local clock, as reported to
/// the statistics; -1 where no instant was recorded.
pub fn get_elapsed_dt(val: Option<Timestamp>) -> (seconds: i64)
    ensures
        exists|now: Timestamp| seconds == elapsed_seconds(val, now),
        val is None ==> seconds == -1,
{
    let now = local_now();
    get_elapsed_at(val, &now)
}

/// What is left of a planned time after some minutes have passed; never less
/// than nothing.
pub open spec fn minutes_left(planned: int, passed: int) -> int {
    if planned - passed > 0 {
        planned - passed
    } else {
        0
    }
}

/// The minutes that a leg ahead of the stop adds to an estimate made at
/// `now`. A leg under way adds what is left of its planned time, or all of it
/// where its start was not recorded; a leg not yet begun adds its planned
/// time; a leg in any other status adds nothing.
pub open spec fn leg_minutes(leg: Leg, now: Timestamp) -> int {
    match leg.status {
        RouteStatus::STARTED => match leg.started {
            Some(t) => minutes_left(
                leg.dist as int,
                whole_minutes(whole_seconds_between(now@, t@)),
            ),
            None => leg.dist as int,
        },
        RouteStatus::ASSIGNED => leg.dist as int,
        _ => 0,
    }
}

/// The minutes of the legs that come before the first leg departing from
/// `stop`, or of all legs where none departs from it.
pub open spec fn minutes_to_stop(stop: int, legs: Seq<Leg>, now: Timestamp) -> int
    decreases legs.len(),
{
    if legs.len() == 0 || legs[0].from == stop {
        0
    } else {
        leg_minutes(legs[0], now) + minutes_to_stop(stop, legs.drop_first(), now)
    }
}

/// The key by which the legs of a route are put in order.
pub open spec fn by_place() -> spec_fn(Leg) -> int {
    |leg: Leg| leg.place as int
}

/// The legs in the order of their places, legs of the same place in the
/// order in which they came.
pub open spec fn in_place_order(legs: Seq<Leg>) -> Seq<Leg> {
    ordered_by(legs, by_place())
}

/// Minutes until a route reaches `stop`, estimated at `now`: the minutes of
/// the legs ahead by their places, less the wait at the stop itself; -1 for
/// the route that does not exist.
pub open spec fn route_eta(stop: int, route: RouteView, now: Timestamp) -> int {
    if route.id == NO_ID {
        -1
    } else {
        minutes_to_stop(stop, in_place_order(route.legs), now) - STOP_WAIT
    }
}

/// The value nearest to `v` that sixteen bits hold.
pub open spec fn clamp_i16(v: int) -> int {
    if v < i16::MIN {
        i16::MIN as int
    } else if v > i16::MAX {
        i16::MAX as int
    } else {
        v
    }
}

/// Whether a leg is under way with its start on record: the only legs whose
/// minutes change as the clock runs.
pub open spec fn is_under_way(leg: Leg) -> bool {
    leg.status == RouteStatus::STARTED && leg.started is Some
}

/// Whether no leg of the sequence is under way with its start on record.
pub open spec fn none_under_way(legs: Seq<Leg>) -> bool {
    forall|i: int| 0 <= i < legs.len() ==> !is_under_way(#[trigger] legs[i])
}

/// The largest number of minutes, in either direction, that one leg can add
/// to an estimate.
const LEG_BOUND: i64 = 0x100_0000_0000;

/// Puts a leg into legs that are in place order, behind those of the same
/// place.
pub(crate) fn insert_leg(sorted: &mut Vec<Leg>, leg: Leg)
    ensures
        final(sorted)@ == insert_by(old(sorted)@, by_place(), leg),
{
    let mut p: usize = 0;
    while p < sorted.len() && sorted[p].place <= leg.place
        invariant
            sorted@ == old(sorted)@,
            p <= sorted@.len(),
            forall|k: int| 0 <= k < p ==> by_place()(#[trigger] sorted@[k]) <= leg.place,
        decreases sorted@.len() - p,
    {
        p += 1;
    }
    proof {
        lemma_first_above_skip(sorted@, by_place(), leg.place as int, p as int);
        if p < sorted@.len() {
            assert(sorted@.skip(p as int)[0] == sorted@[p as int]);
        }
    }
    sorted.insert(p, leg);
}

/// The legs in the order of their places.
fn legs_by_place(legs: &Vec<Leg>) -> (sorted: Vec<Leg>)
    ensures
        sorted@ == in_place_order(legs@),
{
    let mut sorted: Vec<Leg> = Vec::new();
    let mut i: usize = 0;
    assert(legs@.take(0) =~= Seq::<Leg>::empty());
    while i < legs.len()
        invariant
            i <= legs@.len(),
            sorted@ == in_place_order(legs@.take(i as int)),
        decreases legs@.len() - i,
    {
        proof {
            assert(legs@.take(i as int + 1) =~= legs@.take(i as int).push(legs@[i as int]));
            lemma_ordered_by_push(legs@.take(i as int), by_place(), legs@[i as int]);
        }
        insert_leg(&mut sorted, legs[i]);
        i += 1;
    }
    assert(legs@.take(legs@.len() as int) =~= legs@);
    sorted
}

/// The minutes that a leg ahead of the stop adds to an estimate.
fn minutes_of_leg(leg: &Leg, now: &Timestamp) -> (m: i64)
    ensures
        m == leg_minutes(*leg, *now),
        -LEG_BOUND <= m <= LEG_BOUND,
{
    match leg.status {
        RouteStatus::STARTED => match leg.started {
            Some(t) => {
                let seconds: i64 = now.seconds_since(&t);
                let passed: i64 = seconds / SECONDS_PER_MINUTE;
                let left: i64 = leg.dist as i64 - passed;
                if left > 0 {
                    left
                } else {
                    0
                }
            },
            None => leg.dist as i64,
        },
        RouteStatus::ASSIGNED => leg.dist as i64,
        _ => 0,
    }
}

/// Minutes until `route` reaches the stop `stand_id`, estimated at the clock
/// reading `now`, brought into the range of sixteen bits.
///
/// The legs are walked in the order of their places, up to the first that
/// departs from the stop. A route with the id -1 does not exist and is
/// answered with -1.
pub fn calculate_eta_at(stand_id: i32, route: &Route, now: &Timestamp) -> (eta: i16)
    ensures
        eta == clamp_i16(route_eta(stand_id as int, route@, *now)),
        route.id == NO_ID ==> eta == NO_ETA,
{
    if route.id == NO_ID {
        return NO_ETA;
    }
    let legs = legs_by_place(&route.legs);
    let n = legs.len();
    let mut total: i128 = 0;
    let mut i: usize = 0;
    assert(legs@.skip(0) =~= legs@);
    while i < n && legs[i].from != stand_id
        invariant
            n == legs@.len(),
            i <= n,
            -(i as int) * LEG_BOUND <= total <= (i as int) * LEG_BOUND,
            minutes_to_stop(stand_id as int, legs@, *now) == total + minutes_to_stop(
                stand_id as int,
                legs@.skip(i as int),
                *now,
            ),
        decreases n - i,
    {
        let m: i64 = minutes_of_leg(&legs[i], now);
        proof {
            let rest = legs@.skip(i as int);
            assert(rest[0] == legs@[i as int]);
            assert(rest.drop_first() =~= legs@.skip(i as int + 1));
            assert((i as int + 1) * LEG_BOUND == (i as int) * LEG_BOUND + LEG_BOUND)
                by (nonlinear_arith);
            assert((i as int) * LEG_BOUND <= usize::MAX * LEG_BOUND) by (nonlinear_arith)
                requires
                    i <= usize::MAX,
            ;
        }
        total = total + m as i128;
        i += 1;
    }
    proof {
        let rest = legs@.skip(i as int);
        if i < n {
            assert(rest[0] == legs@[i as int]);
        }
        assert(minutes_to_stop(stand_id as int, rest, *now) == 0);
        assert((i as int) * LEG_BOUND <= usize::MAX * LEG_BOUND) by (nonlinear_arith)
            requires
                i <= usize::MAX,
        ;
    }
    let eta: i128 = total - STOP_WAIT as i128;
    if eta < i16::MIN as i128 {
        i16::MIN
    } else if eta > i16::MAX as i128 {
        i16::MAX
    } else {
        eta as i16
    }
}

/// Minutes until `route` reaches the stop `stand_id`, estimated by the local
/// clock.
///
/// The estimate is the one that `calculate_eta_at` gives at some clock
/// reading. Where no leg of the route is under way with its start on record,
/// the clock has no part in it, and the estimate is the same however often
/// it is asked for.
pub fn calculate_eta(stand_id: i32, route: &Route) -> (eta: i16)
    ensures
        exists|now: Timestamp| eta == clamp_i16(route_eta(stand_id as int, route@, now)),
        none_under_way(route@.legs) ==> forall|now: Timestamp|
            eta == clamp_i16(#[trigger] route_eta(stand_id as int, route@, now)),
        route.id == NO_ID ==> eta == NO_ETA,
{
    let now = local_now();
    let eta = calculate_eta_at(stand_id, route, &now);
    proof {
        if none_under_way(route@.legs) {
            assert forall|other: Timestamp|
                eta == clamp_i16(#[trigger] route_eta(stand_id as int, route@, other)) by {
                lemma_eta_stable(stand_id as int, route@, now, other);
            }
        }
    }
    eta
}

/// Whether a leg ahead of a stop is out of line: it is neither under way nor
/// about to begin, or it is under way and its start was not recorded. Such a
/// leg is worth a line in the log.
pub open spec fn is_anomalous(leg: Leg) -> bool {
    match leg.status {
        RouteStatus::STARTED => leg.started is None,
        RouteStatus::ASSIGNED => false,
        _ => true,
    }
}

/// The ids of the legs out of line among those that come before the first
/// leg departing from `stop`, in the order of the legs.
pub open spec fn anomalies_to_stop(stop: int, legs: Seq<Leg>) -> Seq<i64>
    decreases legs.len(),
{
    if legs.len() == 0 || legs[0].from == stop {
        Seq::empty()
    } else if is_anomalous(legs[0]) {
        seq![legs[0].id] + anomalies_to_stop(stop, legs.drop_first())
    } else {
        anomalies_to_stop(stop, legs.drop_first())
    }
}

/// The legs that an estimate for the stop `stand_id` passes over or counts
/// in full for want of a recorded start, by their ids. The estimate is made
/// all the same; the caller may log them.
pub fn anomalous_legs(stand_id: i32, route: &Route) -> (ids: Vec<i64>)
    ensures
        ids@ == anomalies_to_stop(stand_id as int, in_place_order(route@.legs)),
{
    let legs = legs_by_place(&route.legs);
    let mut ids: Vec<i64> = Vec::new();
    let n = legs.len();
    let mut i: usize = 0;
    assert(legs@.skip(0) =~= legs@);
    while i < n && legs[i].from != stand_id
        invariant
            n == legs@.len(),
            i <= n,
            anomalies_to_stop(stand_id as int, legs@) == ids@ + anomalies_to_stop(
                stand_id as int,
                legs@.skip(i as int),
            ),
        decreases n - i,
    {
        let leg = legs[i];
        let ghost before = ids@;
        let ghost after = anomalies_to_stop(stand_id as int, legs@.skip(i as int + 1));
        proof {
            let rest = legs@.skip(i as int);
            assert(rest[0] == legs@[i as int]);
            assert(rest.drop_first() =~= legs@.skip(i as int + 1));
        }
        let out_of_line = match leg.status {
            RouteStatus::STARTED => leg.started.is_none(),
            RouteStatus::ASSIGNED => false,
            _ => true,
        };
        if out_of_line {
            ids.push(leg.id);
            assert(ids@ + after =~= before + (seq![leg.id] + after));
        }
        i += 1;
    }
    proof {
        let rest = legs@.skip(i as int);
        if i < n {
            assert(rest[0] == legs@[i as int]);
        }
        assert(anomalies_to_stop(stand_id as int, rest) =~= Seq::<i64>::empty());
        assert(ids@ + Seq::<i64>::empty() =~= ids@);
    }
    ids
}

/// The minutes of legs of which none is under way do not depend on the
/// clock.
proof fn lemma_minutes_without_clock(stop: int, legs: Seq<Leg>, now: Timestamp, later: Timestamp)
    requires
        none_under_way(legs),
    ensures
        minutes_to_stop(stop, legs, now) == minutes_to_stop(stop, legs, later),
    decreases legs.len(),
{
    if legs.len() == 0 || legs[0].from == stop {
    } else {
        assert(!is_under_way(legs[0]));
        let rest = legs.drop_first();
        assert forall|i: int| 0 <= i < rest.len() implies !is_under_way(#[trigger] rest[i]) by {
            assert(rest[i] == legs[i + 1]);
        }
        lemma_minutes_without_clock(stop, rest, now, later);
    }
}

/// An estimate reads the route and leaves it as it was. Over an unchanged
/// route with no leg under way, two estimates agree whenever they are made;
/// with a leg under way they agree when made at the same clock reading.
pub proof fn lemma_eta_stable(stop: int, route: RouteView, now: Timestamp, later: Timestamp)
    requires
        none_under_way(route.legs) || now == later,
    ensures
        route_eta(stop, route, now) == route_eta(stop, route, later),
{
    if none_under_way(route.legs) {
        let sorted = in_place_order(route.legs);
        assert forall|i: int| 0 <= i < sorted.len() implies !is_under_way(#[trigger] sorted[i]) by {
            assert(sorted.contains(sorted[i]));
            lemma_ordered_by_contains(route.legs, by_place(), sorted[i]);
        }
        lemma_minutes_without_clock(stop, sorted, now, later);
    }
}

/// The estimate stored with an order for which none was made yet.
pub const UNKNOWN_ETA: i32 = -1;

/// As the clock runs, no leg adds more minutes than it did.
proof fn lemma_leg_minutes_fall(leg: Leg, now: Timestamp, later: Timestamp)
    requires
        now@ <= later@,
    ensures
        leg_minutes(leg, later) <= leg_minutes(leg, now),
{
    if let Some(t) = leg.started {
        lemma_trunc_div_ordered(now@ - t@, later@ - t@, 1_000_000_000);
        lemma_trunc_div_ordered(
            whole_seconds_between(now@, t@),
            whole_seconds_between(later@, t@),
            60,
        );
    }
}

/// As the clock runs, the minutes of the legs ahead of a stop do not grow.
proof fn lemma_minutes_fall(stop: int, legs: Seq<Leg>, now: Timestamp, later: Timestamp)
    requires
        now@ <= later@,
    ensures
        minutes_to_stop(stop, legs, later) <= minutes_to_stop(stop, legs, now),
    decreases legs.len(),
{
    if legs.len() == 0 || legs[0].from == stop {
    } else {
        lemma_leg_minutes_fall(legs[0], now, later);
        lemma_minutes_fall(stop, legs.drop_first(), now, later);
    }
}

/// Over an unchanged route, an estimate made later is never above one made
/// earlier: asked again, a cab is no further away than it was.
pub proof fn lemma_eta_never_grows(stop: int, route: RouteView, now: Timestamp, later: Timestamp)
    requires
        now@ <= later@,
    ensures
        route_eta(stop, route, later) <= route_eta(stop, route, now),
        clamp_i16(route_eta(stop, route, later)) <= clamp_i16(route_eta(stop, route, now)),
{
    lemma_minutes_fall(stop, in_place_order(route.legs), now, later);
}

/// Whether the customer holds an order among `orders` that is still open.
pub open spec fn holds_open_order(orders: Seq<Order>, customer: i64) -> bool {
    exists|i: int|
        0 <= i < orders.len() && (#[trigger] orders[i]).cust_id == customer
            && orders[i].status.spec_is_open()
}

/// The order that is stored for a request: the request with the caller as
/// its customer, received at `now`, with the travel time between its stops,
/// not in a pool and without an estimate.
pub open spec fn order_as_received(user_id: i64, o: Order, distance: i32, now: Timestamp) -> Order {
    Order {
        id: o.id,
        from: o.from,
        to: o.to,
        wait: o.wait,
        loss: o.loss,
        distance,
        shared: o.shared,
        in_pool: false,
        status: OrderStatus::RECEIVED,
        received: Some(now),
        started: o.started,
        completed: o.completed,
        at_time: o.at_time,
        eta: UNKNOWN_ETA,
        cab: o.cab,
        cust_id: user_id,
        route_id: o.route_id,
        leg_id: o.leg_id,
    }
}

/// What a request for an order is answered with.
pub open spec fn order_request(
    user_id: i64,
    o: Order,
    orders: Seq<Order>,
    index: DistanceIndex,
    now: Timestamp,
) -> Result<Order, ServiceError> {
    if o.from == o.to {
        Err(ServiceError::InvalidRequest)
    } else if holds_open_order(orders, user_id) {
        Err(ServiceError::InvalidRequest)
    } else if !(index.knows(o.from as i64) && index.knows(o.to as i64)) {
        Err(ServiceError::DataFault)
    } else {
        Ok(order_as_received(user_id, o, index.minutes(o.from as i64, o.to as i64) as i32, now))
    }
}

/// Whether the customer holds an order among `orders` that is still open.
fn has_open_order(orders: &Vec<Order>, customer: i64) -> (held: bool)
    ensures
        held == holds_open_order(orders@, customer),
{
    let mut i: usize = 0;
    while i < orders.len()
        invariant
            i <= orders@.len(),
            forall|k: int|
                0 <= k < i ==> !((#[trigger] orders@[k]).cust_id == customer
                    && orders@[k].status.spec_is_open()),
        decreases orders@.len() - i,
    {
        if orders[i].cust_id == customer && orders[i].status.is_open() {
            return true;
        }
        i += 1;
    }
    false
}

/// Takes a customer's request for a ride and gives the order to store.
///
/// `user_id` is the caller and becomes the customer of the order, whatever
/// the request says. `orders` are the orders that the store holds of this
/// customer. A request from a stop to itself is refused, and so is one of a
/// customer who holds an open order, both as `InvalidRequest`; a stop that
/// the index does not cover is a `DataFault`. The travel time is read from
/// the index once, here.
pub fn insert_order(
    user_id: i64,
    o: Order,
    orders: &Vec<Order>,
    index: &DistanceIndex,
    now: &Timestamp,
) -> (stored: Result<Order, ServiceError>)
    ensures
        stored == order_request(user_id, o, orders@, *index, *now),
        o.from == o.to ==> stored == Err::<Order, ServiceError>(ServiceError::InvalidRequest),
        holds_open_order(orders@, user_id) ==> stored == Err::<Order, ServiceError>(
            ServiceError::InvalidRequest,
        ),
{
    if o.from == o.to {
        return Err(ServiceError::InvalidRequest);
    }
    if has_open_order(orders, user_id) {
        return Err(ServiceError::InvalidRequest);
    }
    match index.lookup(o.from as i64, o.to as i64) {
        None => Err(ServiceError::DataFault),
        Some(distance) => Ok(
            Order {
                id: o.id,
                from: o.from,
                to: o.to,
                wait: o.wait,
                loss: o.loss,
                distance,
                shared: o.shared,
                in_pool: false,
                status: OrderStatus::RECEIVED,
                received: Some(*now),
                started: o.started,
                completed: o.completed,
                at_time: o.at_time,
                eta: UNKNOWN_ETA,
                cab: o.cab,
                cust_id: user_id,
                route_id: o.route_id,
                leg_id: o.leg_id,
            },
        ),
    }
}

/// Whether no customer holds two open orders among `orders`.
pub open spec fn one_open_order_each(orders: Seq<Order>) -> bool {
    forall|i: int, j: int|
        0 <= i < j < orders.len() && orders[i].status.spec_is_open()
            && orders[j].status.spec_is_open() ==> orders[i].cust_id != orders[j].cust_id
}

/// An order that is taken joins the orders of the store without giving any
/// customer a second open order, and it runs between two different stops
/// for the caller.
pub proof fn lemma_order_taken(
    user_id: i64,
    o: Order,
    orders: Seq<Order>,
    index: DistanceIndex,
    now: Timestamp,
)
    requires
        one_open_order_each(orders),
        order_request(user_id, o, orders, index, now) is Ok,
    ensures
        ({
            let stored = order_request(user_id, o, orders, index, now)->Ok_0;
            &&& stored.from != stored.to
            &&& stored.cust_id == user_id
            &&& one_open_order_each(orders.push(stored))
        }),
{
    let stored = order_request(user_id, o, orders, index, now)->Ok_0;
    let all = orders.push(stored);
    assert forall|i: int, j: int|
        0 <= i < j < all.len() && all[i].status.spec_is_open()
            && all[j].status.spec_is_open() implies all[i].cust_id != all[j].cust_id by {
        if j < orders.len() {
            assert(all[i] == orders[i] && all[j] == orders[j]);
        } else {
            assert(all[i] == orders[i]);
        }
    }
}

/// What the store's answer to an insert makes of an order: the order under
/// the id that the store gave it.
pub open spec fn order_under_id(order: Order, inserted: Option<u64>) -> Result<
    Order,
    ServiceError,
> {
    match inserted {
        None => Err(ServiceError::StoreUnavailable),
        Some(id) => if id > i64::MAX {
            Err(ServiceError::DataFault)
        } else {
            Ok(
                Order {
                    id: id as i64,
                    from: order.from,
                    to: order.to,
                    wait: order.wait,
                    loss: order.loss,
                    distance: order.distance,
                    shared: order.shared,
                    in_pool: order.in_pool,
                    status: order.status,
                    received: order.received,
                    started: order.started,
                    completed: order.completed,
                    at_time: order.at_time,
                    eta: order.eta,
                    cab: order.cab,
                    cust_id: order.cust_id,
                    route_id: order.route_id,
                    leg_id: order.leg_id,
                },
            )
        },
    }
}

/// Completes an order after the store has taken it. `inserted` is the id
/// that the store gave the order, or `None` where the store failed.
pub fn order_inserted(order: Order, inserted: Option<u64>) -> (done: Result<Order, ServiceError>)
    ensures
        done == order_under_id(order, inserted),
{
    match inserted {
        None => Err(ServiceError::StoreUnavailable),
        Some(id) => {
            if id > i64::MAX as u64 {
                Err(ServiceError::DataFault)
            } else {
                let mut done = order;
                done.id = id as i64;
                Ok(done)
            }
        },
    }
}

/// What the store's answer to an update means: `None` is a store that could
/// not be reached, no row an update that its owner did not make.
pub open spec fn rows_updated(res: Option<u64>) -> Result<u64, ServiceError> {
    match res {
        None => Err(ServiceError::StoreUnavailable),
        Some(rows) => if rows == 0 {
            Err(ServiceError::Unauthorized)
        } else {
            Ok(rows)
        },
    }
}

/// Reads the store's answer to an update that was qualified by the owner of
/// the entity: the number of rows changed, or why none was.
pub fn check_result(res: Option<u64>) -> (rows: Result<u64, ServiceError>)
    ensures
        rows == rows_updated(res),
{
    match res {
        None => Err(ServiceError::StoreUnavailable),
        Some(rows) => {
            if rows == 0 {
                Err(ServiceError::Unauthorized)
            } else {
                Ok(rows)
            }
        },
    }
}

/// What a cab's report of itself is answered with: a cab changes no cab but
/// itself.
pub fn update_cab(user_id: i64, cab: Cab) -> (updated: Result<Cab, ServiceError>)
    ensures
        updated == if user_id == cab.id {
            Ok::<Cab, ServiceError>(cab)
        } else {
            Err::<Cab, ServiceError>(ServiceError::Unauthorized)
        },
{
    if user_id == cab.id {
        Ok(cab)
    } else {
        Err(ServiceError::Unauthorized)
    }
}

/// An order after it has passed to the status `next` at `now`: picked up, it
/// has started; completed, it has been completed.
pub open spec fn order_after(current: Order, next: OrderStatus, now: Timestamp) -> Order {
    Order {
        id: current.id,
        from: current.from,
        to: current.to,
        wait: current.wait,
        loss: current.loss,
        distance: current.distance,
        shared: current.shared,
        in_pool: current.in_pool,
        status: next,
        received: current.received,
        started: if next == OrderStatus::PICKEDUP {
            Some(now)
        } else {
            current.started
        },
        completed: if next == OrderStatus::COMPLETED {
            Some(now)
        } else {
            current.completed
        },
        at_time: current.at_time,
        eta: current.eta,
        cab: current.cab,
        cust_id: current.cust_id,
        route_id: current.route_id,
        leg_id: current.leg_id,
    }
}

/// What a customer's request to move an order to the status `next` is
/// answered with. `current` is the order as the store holds it under the id
/// `id`.
pub open spec fn order_transition(
    user_id: i64,
    current: Option<Order>,
    id: i64,
    next: OrderStatus,
    now: Timestamp,
) -> Result<Order, ServiceError> {
    match current {
        None => Err(ServiceError::NotFound),
        Some(held) => if held.id != id {
            Err(ServiceError::NotFound)
        } else if held.cust_id != user_id {
            Err(ServiceError::Unauthorized)
        } else if !held.status.spec_can_become(next) {
            Err(ServiceError::InvalidRequest)
        } else {
            Ok(order_after(held, next, now))
        },
    }
}

/// An order that moves stays with its customer and leaves no customer with
/// a second open order: nothing opens an order again.
pub proof fn lemma_order_moved(
    user_id: i64,
    orders: Seq<Order>,
    at: int,
    next: OrderStatus,
    now: Timestamp,
)
    requires
        one_open_order_each(orders),
        0 <= at < orders.len(),
        order_transition(user_id, Some(orders[at]), orders[at].id, next, now) is Ok,
    ensures
        ({
            let moved = order_transition(user_id, Some(orders[at]), orders[at].id, next, now)->Ok_0;
            &&& moved.id == orders[at].id
            &&& moved.cust_id == orders[at].cust_id
            &&& moved.status == next
            &&& one_open_order_each(orders.update(at, moved))
        }),
{
    let moved = order_transition(user_id, Some(orders[at]), orders[at].id, next, now)->Ok_0;
    let after = orders.update(at, moved);
    crate::model::lemma_order_life(orders[at].status, next);
    assert forall|i: int, j: int|
        0 <= i < j < after.len() && after[i].status.spec_is_open()
            && after[j].status.spec_is_open() implies after[i].cust_id != after[j].cust_id by {
        assert(orders[at].status.spec_is_open());
        if i != at {
            assert(after[i] == orders[i]);
        }
        if j != at {
            assert(after[j] == orders[j]);
        }
    }
}

/// The figure that a transition to `next` reports a latency to, if any.
pub open spec fn figure_of(next: OrderStatus) -> Option<Stat> {
    if next == OrderStatus::PICKEDUP {
        Some(Stat::AvgOrderPickupTime)
    } else if next == OrderStatus::COMPLETED {
        Some(Stat::AvgOrderCompleteTime)
    } else {
        None
    }
}

/// The samples of the figure `key` after a transition was answered with
/// `answer`: a granted pick-up or completion adds the seconds since the
/// order was received, unless they are the value that stands for none.
pub open spec fn samples_after(
    before: Seq<i64>,
    key: Stat,
    answer: Result<Order, ServiceError>,
    now: Timestamp,
) -> Seq<i64> {
    match answer {
        Ok(order) => if figure_of(order.status) == Some(key) && elapsed_seconds(
            order.received,
            now,
        ) != NO_LATENCY {
            before.push(elapsed_seconds(order.received, now) as i64)
        } else {
            before
        },
        Err(_) => before,
    }
}

/// Moves an order to the status that `order` asks for.
///
/// `user_id` is the caller, `current` the order that the store holds under
/// the id of `order`, if any. An order that the store does not hold is
/// `NotFound`; one of another customer is `Unauthorized`; a status that the
/// order cannot pass to from the one it has is an `InvalidRequest`. A
/// granted request gives the order to store. Picking up stamps the start and
/// reports the seconds since receipt as pick-up latency; completing stamps
/// the completion and reports them as completion latency.
pub fn update_order(
    user_id: i64,
    current: Option<Order>,
    order: Order,
    stats: &mut Statistics,
    now: &Timestamp,
) -> (updated: Result<Order, ServiceError>)
    ensures
        updated == order_transition(user_id, current, order.id, order.status, *now),
        forall|key: Stat| #[trigger]
            final(stats).samples(key) == samples_after(old(stats).samples(key), key, updated, *now),
        forall|key: Stat| #[trigger] final(stats).value(key) == old(stats).value(key),
{
    let held = match current {
        None => {
            return Err(ServiceError::NotFound);
        },
        Some(held) => held,
    };
    if held.id != order.id {
        return Err(ServiceError::NotFound);
    }
    if held.cust_id != user_id {
        return Err(ServiceError::Unauthorized);
    }
    if !held.status.can_become(order.status) {
        return Err(ServiceError::InvalidRequest);
    }
    let mut next = held;
    next.status = order.status;
    if order.status == OrderStatus::PICKEDUP {
        next.started = Some(*now);
        add_avg_pickup(stats, get_elapsed_at(held.received, now));
    } else if order.status == OrderStatus::COMPLETED {
        next.completed = Some(*now);
        add_avg_complete(stats, get_elapsed_at(held.received, now));
    }
    Ok(next)
}

/// A leg after it has passed to the status `next` at `now`.
pub open spec fn leg_after(current: Leg, next: RouteStatus, now: Timestamp) -> Leg {
    Leg {
        id: current.id,
        route_id: current.route_id,
        from: current.from,
        to: current.to,
        place: current.place,
        dist: current.dist,
        started: if next == RouteStatus::STARTED {
            Some(now)
        } else {
            current.started
        },
        completed: if next == RouteStatus::COMPLETED {
            Some(now)
        } else {
            current.completed
        },
        status: next,
        passengers: current.passengers,
    }
}

/// What a cab's request to move a leg to the status `next` is answered
/// with. `current` is the leg as the store holds it under the id `id`,
/// `cab_id` the cab of the route that the leg belongs to.
pub open spec fn leg_transition(
    user_id: i64,
    current: Option<Leg>,
    cab_id: i64,
    id: i64,
    next: RouteStatus,
    now: Timestamp,
) -> Result<Leg, ServiceError> {
    match current {
        None => Err(ServiceError::NotFound),
        Some(held) => if held.id != id {
            Err(ServiceError::NotFound)
        } else if cab_id != user_id {
            Err(ServiceError::Unauthorized)
        } else if !held.status.spec_leg_can_become(next) {
            Err(ServiceError::InvalidRequest)
        } else {
            Ok(leg_after(held, next, now))
        },
    }
}

/// Moves a leg to the status that `leg` asks for.
///
/// `user_id` is the calling cab, `current` the leg that the store holds
/// under the id of `leg`, if any, and `cab_id` the cab of the route that it
/// belongs to. Only that cab may move the leg. Starting stamps the start,
/// completing the completion.
pub fn update_leg(
    user_id: i64,
    current: Option<Leg>,
    cab_id: i64,
    leg: Leg,
    now: &Timestamp,
) -> (updated: Result<Leg, ServiceError>)
    ensures
        updated == leg_transition(user_id, current, cab_id, leg.id, leg.status, *now),
{
    let held = match current {
        None => {
            return Err(ServiceError::NotFound);
        },
        Some(held) => held,
    };
    if held.id != leg.id {
        return Err(ServiceError::NotFound);
    }
    if cab_id != user_id {
        return Err(ServiceError::Unauthorized);
    }
    if !held.status.leg_can_become(leg.status) {
        return Err(ServiceError::InvalidRequest);
    }
    let mut next = held;
    next.status = leg.status;
    if leg.status == RouteStatus::STARTED {
        next.started = Some(*now);
    } else if leg.status == RouteStatus::COMPLETED {
        next.completed = Some(*now);
    }
    Ok(next)
}

/// What a cab's request to move a route to the status `next` is answered
/// with. `current` is the route as the store holds it under the id `id`,
/// with its cab.
pub open spec fn route_transition(
    user_id: i64,
    current: Option<RouteView>,
    id: i64,
    next: RouteStatus,
) -> Result<RouteView, ServiceError> {
    match current {
        None => Err(ServiceError::NotFound),
        Some(held) => if held.id != id {
            Err(ServiceError::NotFound)
        } else if held.cab.id != user_id {
            Err(ServiceError::Unauthorized)
        } else if !held.status.spec_can_become(next) {
            Err(ServiceError::InvalidRequest)
        } else {
            Ok(RouteView { id: held.id, status: next, legs: held.legs, cab: held.cab })
        },
    }
}

/// The view of a route that may be absent.
pub open spec fn view_of_route(route: Option<Route>) -> Option<RouteView> {
    match route {
        Some(r) => Some(r@),
        None => None,
    }
}

/// The view of an answer that holds a route.
pub open spec fn view_of_answer(answer: Result<Route, ServiceError>) -> Result<
    RouteView,
    ServiceError,
> {
    match answer {
        Ok(r) => Ok(r@),
        Err(e) => Err(e),
    }
}

/// Moves a route to the status that `route` asks for.
///
/// `user_id` is the calling cab, `current` the route that the store holds
/// under the id of `route`, if any, with the cab that drives it. Only that
/// cab may move the route.
pub fn update_route(user_id: i64, current: Option<Route>, route: Route) -> (updated: Result<
    Route,
    ServiceError,
>)
    ensures
        view_of_answer(updated) == route_transition(
            user_id,
            view_of_route(current),
            route.id,
            route.status,
        ),
{
    let held = match current {
        None => {
            return Err(ServiceError::NotFound);
        },
        Some(held) => held,
    };
    if held.id != route.id {
        return Err(ServiceError::NotFound);
    }
    if held.cab.id != user_id {
        return Err(ServiceError::Unauthorized);
    }
    if !held.status.can_become(route.status) {
        return Err(ServiceError::InvalidRequest);
    }
    Ok(Route { id: held.id, status: route.status, legs: held.legs, cab: held.cab })
}

/// Whether every row holds a leg.
pub open spec fn legs_readable(rows: Seq<LegRow>) -> bool {
    forall|i: int| 0 <= i < rows.len() ==> leg_of(#[trigger] rows[i], rows[i].route_id) is Some
}

/// The legs that the rows hold, in the order of the rows.
pub open spec fn legs_read(rows: Seq<LegRow>) -> Seq<Leg> {
    Seq::new(rows.len(), |i: int| leg_of(rows[i], rows[i].route_id).unwrap())
}

/// Reads the legs that the store returned. A status that is a number naming
/// none is a `DataFault`.
pub fn read_legs(rows: &Vec<LegRow>) -> (legs: Result<Vec<Leg>, ServiceError>)
    ensures
        legs is Ok <==> legs_readable(rows@),
        legs matches Ok(v) ==> v@ == legs_read(rows@),
        legs matches Err(e) ==> e == ServiceError::DataFault,
{
    let mut legs: Vec<Leg> = Vec::new();
    let mut i: usize = 0;
    while i < rows.len()
        invariant
            i <= rows@.len(),
            legs@.len() == i,
            forall|k: int|
                0 <= k < i ==> leg_of(#[trigger] rows@[k], rows@[k].route_id) == Some(legs@[k]),
        decreases rows@.len() - i,
    {
        match read_leg(&rows[i], rows[i].route_id) {
            Some(leg) => {
                legs.push(leg);
            },
            None => {
                return Err(ServiceError::DataFault);
            },
        }
        i += 1;
    }
    assert(legs@ =~= legs_read(rows@));
    Ok(legs)
}

/// What the legs that the store returned for the route `id` make of it.
pub open spec fn route_read(rows: Option<Seq<LegRow>>, id: i64, cab: Cab) -> Result<
    RouteView,
    ServiceError,
> {
    match rows {
        None => Err(ServiceError::StoreUnavailable),
        Some(r) => if legs_readable(r) {
            Ok(RouteView { id, status: RouteStatus::ASSIGNED, legs: legs_read(r), cab })
        } else {
            Err(ServiceError::DataFault)
        },
    }
}

/// The view of rows that may be absent.
pub open spec fn view_of_rows<T>(rows: Option<Vec<T>>) -> Option<Seq<T>> {
    match rows {
        Some(r) => Some(r@),
        None => None,
    }
}

/// The route `id`: assigned, with the legs that the store returned for it by
/// their places, and the cab that drives it. `rows` is `None` where the
/// store could not be reached.
pub fn select_route_ref(rows: Option<Vec<LegRow>>, id: i64, cab: Cab) -> (route: Result<
    Route,
    ServiceError,
>)
    ensures
        view_of_answer(route) == route_read(view_of_rows(rows), id, cab),
{
    match rows {
        None => Err(ServiceError::StoreUnavailable),
        Some(r) => match read_legs(&r) {
            Ok(legs) => Ok(Route { id, status: RouteStatus::ASSIGNED, legs, cab }),
            Err(e) => Err(e),
        },
    }
}

/// The route `id` for the caller `user_id`; see `select_route_ref`.
pub fn select_route_by_id(user_id: i64, rows: Option<Vec<LegRow>>, id: i64, cab: Cab) -> (route:
    Result<Route, ServiceError>)
    ensures
        view_of_answer(route) == route_read(view_of_rows(rows), id, cab),
{
    select_route_ref(rows, id, cab)
}

/// What the store's answers make of the current route of a cab: the route
/// that stands for none where the cab has no current route.
pub open spec fn current_route_read(
    current: Option<Option<i64>>,
    rows: Option<Seq<LegRow>>,
    cab: Cab,
) -> Result<RouteView, ServiceError> {
    match current {
        None => Err(ServiceError::StoreUnavailable),
        Some(None) => Ok(Route::spec_default()),
        Some(Some(id)) => route_read(rows, id, cab),
    }
}

/// The current route of a cab. `current` is the id of the first route of
/// the cab that is assigned or started, `Some(None)` where it has none and
/// `None` where the store could not be reached; `rows` and `cab` are the
/// legs and the cab of that route and are read only where there is one.
pub fn select_route_by_cab_ref(
    current: Option<Option<i64>>,
    rows: Option<Vec<LegRow>>,
    cab: Cab,
) -> (route: Result<Route, ServiceError>)
    ensures
        view_of_answer(route) == current_route_read(current, view_of_rows(rows), cab),
{
    match current {
        None => Err(ServiceError::StoreUnavailable),
        Some(None) => Ok(Route::default()),
        Some(Some(id)) => select_route_ref(rows, id, cab),
    }
}

/// The current route of a cab for the caller `user_id`; see
/// `select_route_by_cab_ref`.
pub fn select_route_by_cab(
    user_id: i64,
    current: Option<Option<i64>>,
    rows: Option<Vec<LegRow>>,
    cab: Cab,
) -> (route: Result<Route, ServiceError>)
    ensures
        view_of_answer(route) == current_route_read(current, view_of_rows(rows), cab),
{
    select_route_by_cab_ref(current, rows, cab)
}

/// A route with the orders that ride on it and, once more, its cab.
pub fn select_route_with_orders(user_id: i64, route: Route, orders: Vec<Order>) -> (both:
    RouteWithOrders)
    ensures
        both@ == (RouteWithOrdersView { route: route@, orders: orders@, cab: route.cab }),
{
    let cab = route.cab;
    RouteWithOrders { route, orders, cab }
}

/// Whether every row holds an order.
pub open spec fn orders_readable(rows: Seq<OrderRow>) -> bool {
    forall|i: int| 0 <= i < rows.len() ==> order_of(#[trigger] rows[i]) is Some
}

/// The orders that the rows hold, in the order of the rows.
pub open spec fn orders_read(rows: Seq<OrderRow>) -> Seq<Order> {
    Seq::new(rows.len(), |i: int| order_of(rows[i]).unwrap())
}

/// What the store's answer to a query for orders is read as.
pub open spec fn orders_selected(rows: Option<Seq<OrderRow>>) -> Result<Seq<Order>, ServiceError> {
    match rows {
        None => Err(ServiceError::StoreUnavailable),
        Some(r) => if orders_readable(r) {
            Ok(orders_read(r))
        } else {
            Err(ServiceError::DataFault)
        },
    }
}

/// The view of an answer that holds a list.
pub open spec fn view_of_list<T>(answer: Result<Vec<T>, ServiceError>) -> Result<
    Seq<T>,
    ServiceError,
> {
    match answer {
        Ok(v) => Ok(v@),
        Err(e) => Err(e),
    }
}

/// Reads the orders that the store returned, in the order of the rows.
/// `rows` is `None` where the store could not be reached; a row that holds
/// no order is a `DataFault`.
pub fn select_orders_by_what(rows: Option<Vec<OrderRow>>) -> (orders: Result<
    Vec<Order>,
    ServiceError,
>)
    ensures
        view_of_list(orders) == orders_selected(view_of_rows(rows)),
{
    let found = match rows {
        None => {
            return Err(ServiceError::StoreUnavailable);
        },
        Some(r) => r,
    };
    let mut orders: Vec<Order> = Vec::new();
    let mut i: usize = 0;
    while i < found.len()
        invariant
            i <= found@.len(),
            view_of_rows(rows) == Some(found@),
            orders@.len() == i,
            forall|k: int| 0 <= k < i ==> order_of(#[trigger] found@[k]) == Some(orders@[k]),
        decreases found@.len() - i,
    {
        match read_order(&found[i]) {
            Some(order) => {
                orders.push(order);
            },
            None => {
                assert(order_of(found@[i as int]) is None);
                return Err(ServiceError::DataFault);
            },
        }
        i += 1;
    }
    assert(orders@ =~= orders_read(found@));
    Ok(orders)
}

/// The test that picks the open orders of the customer `id`.
pub open spec fn open_of_customer(id: i64) -> spec_fn(Order) -> bool {
    |o: Order| o.cust_id == id && o.status.spec_is_open()
}

/// The test that picks the open orders on the route `id`.
pub open spec fn open_on_route(id: i64) -> spec_fn(Order) -> bool {
    |o: Order| o.route_id == id && o.status.spec_is_open()
}

/// What is left of an answer that holds orders when only those that pass a
/// test are kept.
pub open spec fn kept(
    answer: Result<Seq<Order>, ServiceError>,
    pick: spec_fn(Order) -> bool,
) -> Result<Seq<Order>, ServiceError> {
    match answer {
        Ok(orders) => Ok(orders.filter(pick)),
        Err(e) => Err(e),
    }
}

/// The open orders of the customer `id` among those that the store
/// returned, in the order of the rows.
pub fn select_orders(user_id: i64, rows: Option<Vec<OrderRow>>, id: i64) -> (orders: Result<
    Vec<Order>,
    ServiceError,
>)
    ensures
        view_of_list(orders) == kept(orders_selected(view_of_rows(rows)), open_of_customer(id)),
{
    let all = match select_orders_by_what(rows) {
        Ok(v) => v,
        Err(e) => {
            return Err(e);
        },
    };
    let ghost pick = open_of_customer(id);
    let mut orders: Vec<Order> = Vec::new();
    let mut i: usize = 0;
    assert(all@.take(0) =~= Seq::<Order>::empty());
    while i < all.len()
        invariant
            i <= all@.len(),
            pick == open_of_customer(id),
            orders@ == all@.take(i as int).filter(pick),
        decreases all@.len() - i,
    {
        let order = all[i];
        proof {
            assert(all@.take(i as int + 1) =~= all@.take(i as int).push(order));
            all@.take(i as int).lemma_filter_push(order, pick);
        }
        if order.cust_id == id && order.status.is_open() {
            orders.push(order);
        }
        i += 1;
    }
    assert(all@.take(all@.len() as int) =~= all@);
    Ok(orders)
}

/// The open orders on the route `id` among those that the store returned,
/// in the order of the rows.
pub fn select_orders_by_route(user_id: i64, rows: Option<Vec<OrderRow>>, id: i64) -> (orders:
    Result<Vec<Order>, ServiceError>)
    ensures
        view_of_list(orders) == kept(orders_selected(view_of_rows(rows)), open_on_route(id)),
{
    let all = match select_orders_by_what(rows) {
        Ok(v) => v,
        Err(e) => {
            return Err(e);
        },
    };
    let ghost pick = open_on_route(id);
    let mut orders: Vec<Order> = Vec::new();
    let mut i: usize = 0;
    assert(all@.take(0) =~= Seq::<Order>::empty());
    while i < all.len()
        invariant
            i <= all@.len(),
            pick == open_on_route(id),
            orders@ == all@.take(i as int).filter(pick),
        decreases all@.len() - i,
    {
        let order = all[i];
        proof {
            assert(all@.take(i as int + 1) =~= all@.take(i as int).push(order));
            all@.take(i as int).lemma_filter_push(order, pick);
        }
        if order.route_id == id && order.status.is_open() {
            orders.push(order);
        }
        i += 1;
    }
    assert(all@.take(all@.len() as int) =~= all@);
    Ok(orders)
}

/// The first of the orders with the id `id`.
pub open spec fn first_with_id(orders: Seq<Order>, id: i64) -> Option<Order>
    decreases orders.len(),
{
    if orders.len() == 0 {
        None
    } else if orders[0].id == id {
        Some(orders[0])
    } else {
        first_with_id(orders.drop_first(), id)
    }
}

/// What the store's answer to a query for the order `id` is read as.
pub open spec fn order_selected(rows: Option<Seq<OrderRow>>, id: i64) -> Result<
    Order,
    ServiceError,
> {
    match orders_selected(rows) {
        Err(e) => Err(e),
        Ok(orders) => match first_with_id(orders, id) {
            Some(o) => Ok(o),
            None => Err(ServiceError::NotFound),
        },
    }
}

/// The order `id` among those that the store returned; `NotFound` where it
/// is not among them.
pub fn select_order(user_id: i64, rows: Option<Vec<OrderRow>>, id: i64) -> (order: Result<
    Order,
    ServiceError,
>)
    ensures
        order == order_selected(view_of_rows(rows), id),
{
    let all = match select_orders_by_what(rows) {
        Ok(v) => v,
        Err(e) => {
            return Err(e);
        },
    };
    let mut i: usize = 0;
    assert(all@.skip(0) =~= all@);
    while i < all.len()
        invariant
            i <= all@.len(),
            orders_selected(view_of_rows(rows)) == Ok::<Seq<Order>, ServiceError>(all@),
            first_with_id(all@, id) == first_with_id(all@.skip(i as int), id),
        decreases all@.len() - i,
    {
        proof {
            let rest = all@.skip(i as int);
            assert(rest[0] == all@[i as int]);
            assert(rest.drop_first() =~= all@.skip(i as int + 1));
        }
        if all[i].id == id {
            return Ok(all[i]);
        }
        i += 1;
    }
    Err(ServiceError::NotFound)
}

/// What the store's answer to a query for the stop and status of the cab
/// `id` is read as.
pub open spec fn cab_selected(rows: Option<Seq<(i32, i32)>>, id: i64) -> Result<Cab, ServiceError> {
    match rows {
        None => Err(ServiceError::StoreUnavailable),
        Some(r) => if r.len() == 0 {
            Err(ServiceError::NotFound)
        } else {
            match cab_of(id, r[0].0, r[0].1) {
                Some(cab) => Ok(cab),
                None => Err(ServiceError::DataFault),
            }
        },
    }
}

/// The cab `id`. `rows` holds the stop and the stored status of the cab, and
/// is `None` where the store could not be reached; a cab without a row is
/// `NotFound`, a status that is a number naming none a `DataFault`.
pub fn select_cab(user_id: i64, rows: Option<Vec<(i32, i32)>>, id: i64) -> (cab: Result<
    Cab,
    ServiceError,
>)
    ensures
        cab == cab_selected(view_of_rows(rows), id),
{
    match rows {
        None => Err(ServiceError::StoreUnavailable),
        Some(r) => {
            if r.len() == 0 {
                Err(ServiceError::NotFound)
            } else {
                match read_cab(id, r[0].0, r[0].1) {
                    Some(cab) => Ok(cab),
                    None => Err(ServiceError::DataFault),
                }
            }
        },
    }
}

/// What the store's answer to a query for the cab of a route is read as.
pub open spec fn cab_of_route_selected(rows: Option<Seq<(i64, i32, i32)>>) -> Result<
    Cab,
    ServiceError,
> {
    match rows {
        None => Err(ServiceError::StoreUnavailable),
        Some(r) => if r.len() == 0 {
            Err(ServiceError::NotFound)
        } else {
            match cab_of(r[0].0, r[0].1, r[0].2) {
                Some(cab) => Ok(cab),
                None => Err(ServiceError::DataFault),
            }
        },
    }
}

/// The cab that drives the route `id`. `rows` holds the id, the stop and
/// the stored status of that cab, and is `None` where the store could not be
/// reached.
pub fn select_cab_by_route_id(rows: Option<Vec<(i64, i32, i32)>>, id: i64) -> (cab: Result<
    Cab,
    ServiceError,
>)
    ensures
        cab == cab_of_route_selected(view_of_rows(rows)),
{
    match rows {
        None => Err(ServiceError::StoreUnavailable),
        Some(r) => {
            if r.len() == 0 {
                Err(ServiceError::NotFound)
            } else {
                match read_cab(r[0].0, r[0].1, r[0].2) {
                    Some(cab) => Ok(cab),
                    None => Err(ServiceError::DataFault),
                }
            }
        },
    }
}

/// The free cabs with the given ids, all standing at `stop_id`.
pub open spec fn cabs_at(ids: Seq<i64>, stop_id: i32) -> Seq<Cab> {
    Seq::new(
        ids.len(),
        |i: int| Cab { id: ids[i], location: stop_id, status: CabStatus::FREE, seats: NO_SEATS },
    )
}

/// What the store's answer to a query for the free cabs at a stop is read
/// as.
pub open spec fn cabs_selected(rows: Option<Seq<i64>>, stop_id: i32) -> Result<
    Seq<Cab>,
    ServiceError,
> {
    match rows {
        None => Err(ServiceError::StoreUnavailable),
        Some(ids) => Ok(cabs_at(ids, stop_id)),
    }
}

/// The free cabs that stand at the stop `stop_id`. `rows` holds their ids,
/// and is `None` where the store could not be reached.
pub fn select_cabs_by_stop(user_id: i64, rows: Option<Vec<i64>>, stop_id: i32) -> (cabs: Result<
    Vec<Cab>,
    ServiceError,
>)
    ensures
        view_of_list(cabs) == cabs_selected(view_of_rows(rows), stop_id),
{
    let ids = match rows {
        None => {
            return Err(ServiceError::StoreUnavailable);
        },
        Some(r) => r,
    };
    let mut cabs: Vec<Cab> = Vec::new();
    let mut i: usize = 0;
    while i < ids.len()
        invariant
            i <= ids@.len(),
            cabs@.len() == i,
            forall|k: int| 0 <= k < i ==> cabs@[k] == cabs_at(ids@, stop_id)[k],
        decreases ids@.len() - i,
    {
        cabs.push(Cab { id: ids[i], location: stop_id, status: CabStatus::FREE, seats: NO_SEATS });
        i += 1;
    }
    assert(cabs@ =~= cabs_at(ids@, stop_id));
    Ok(cabs)
}

/// The stop that a row of the registry holds.
pub open spec fn stop_of(row: StopRow) -> StopView {
    StopView {
        id: row.id,
        bearing: row.bearing,
        latitude: row.latitude,
        longitude: row.longitude,
        name: Some(row.name@),
    }
}

/// What the store's answer to the query for all stops is read as.
pub open spec fn stops_read(rows: Option<Seq<StopRow>>) -> Result<Seq<StopView>, ServiceError> {
    match rows {
        None => Err(ServiceError::StoreUnavailable),
        Some(r) => Ok(Seq::new(r.len(), |i: int| stop_of(r[i]))),
    }
}

/// The view of an answer that holds stops.
pub open spec fn view_of_stops(answer: Result<Vec<Stop>, ServiceError>) -> Result<
    Seq<StopView>,
    ServiceError,
> {
    match answer {
        Ok(v) => Ok(views_of_stops(v@)),
        Err(e) => Err(e),
    }
}

/// Reads the registry of stops, in the order of the rows. `rows` is `None`
/// where the store could not be reached.
pub fn init_read_stops(rows: Option<Vec<StopRow>>) -> (stops: Result<Vec<Stop>, ServiceError>)
    ensures
        view_of_stops(stops) == stops_read(view_of_rows(rows)),
{
    let rows = match rows {
        None => {
            return Err(ServiceError::StoreUnavailable);
        },
        Some(r) => r,
    };
    let mut stops: Vec<Stop> = Vec::new();
    let mut i: usize = 0;
    while i < rows.len()
        invariant
            i <= rows@.len(),
            stops@.len() == i,
            forall|k: int| 0 <= k < i ==> (#[trigger] stops@[k])@ == stop_of(rows@[k]),
        decreases rows@.len() - i,
    {
        let row = &rows[i];
        stops.push(
            Stop {
                id: row.id,
                bearing: row.bearing,
                latitude: row.latitude,
                longitude: row.longitude,
                name: Some(row.name.clone()),
            },
        );
        i += 1;
    }
    assert(views_of_stops(stops@) =~= Seq::new(rows@.len(), |i: int| stop_of(rows@[i])));
    Ok(stops)
}

/// The view of an answer that holds figures.
pub open spec fn view_of_figures(answer: Result<Vec<Figure>, ServiceError>) -> Result<
    Seq<StatView>,
    ServiceError,
> {
    match answer {
        Ok(v) => Ok(views_of_stats(v@)),
        Err(e) => Err(e),
    }
}

/// The view of figures that may be absent.
pub open spec fn view_of_kpis(rows: Option<Vec<Figure>>) -> Result<Seq<StatView>, ServiceError> {
    match rows {
        Some(v) => Ok(views_of_stats(v@)),
        None => Err(ServiceError::StoreUnavailable),
    }
}

/// The stored figures of the service as the store returned them. `rows` is
/// `None` where the store could not be reached.
pub fn select_stats_kpis(rows: Option<Vec<Figure>>) -> (kpis: Result<Vec<Figure>, ServiceError>)
    ensures
        view_of_figures(kpis) == view_of_kpis(rows),
{
    match rows {
        Some(v) => Ok(v),
        None => Err(ServiceError::StoreUnavailable),
    }
}

/// Whether every row of a count of orders names an order status.
pub open spec fn order_counts_readable(rows: Seq<(i32, i32)>) -> bool {
    forall|i: int| 0 <= i < rows.len() ==> order_status_of((#[trigger] rows[i]).0) is Some
}

/// The count of orders by status: each status by its name.
pub open spec fn order_counts(rows: Seq<(i32, i32)>) -> Seq<StatView> {
    Seq::new(
        rows.len(),
        |i: int|
            StatView { name: order_status_of(rows[i].0).unwrap().spec_name(), int_val: rows[i].1 },
    )
}

/// What the store's answer to the count of orders by status is read as.
pub open spec fn order_counts_selected(rows: Option<Seq<(i32, i32)>>) -> Result<
    Seq<StatView>,
    ServiceError,
> {
    match rows {
        None => Err(ServiceError::StoreUnavailable),
        Some(r) => if order_counts_readable(r) {
            Ok(order_counts(r))
        } else {
            Err(ServiceError::DataFault)
        },
    }
}

/// The number of orders in each status, under the name of the status.
/// `rows` holds pairs of a stored status and a count, and is `None` where
/// the store could not be reached; a status that is a number naming none is
/// a `DataFault`.
pub fn select_stats_orders(rows: Option<Vec<(i32, i32)>>) -> (counts: Result<
    Vec<Figure>,
    ServiceError,
>)
    ensures
        view_of_figures(counts) == order_counts_selected(view_of_rows(rows)),
{
    let found = match rows {
        None => {
            return Err(ServiceError::StoreUnavailable);
        },
        Some(r) => r,
    };
    let mut counts: Vec<Figure> = Vec::new();
    let mut i: usize = 0;
    while i < found.len()
        invariant
            i <= found@.len(),
            view_of_rows(rows) == Some(found@),
            counts@.len() == i,
            forall|k: int| 0 <= k < i ==> order_status_of((#[trigger] found@[k]).0) is Some,
            forall|k: int| 0 <= k < i ==> (#[trigger] counts@[k])@ == order_counts(found@)[k],
        decreases found@.len() - i,
    {
        match get_order_status(found[i].0) {
            Some(status) => {
                counts.push(Figure { name: status.name(), int_val: found[i].1 });
            },
            None => {
                assert(order_status_of(found@[i as int].0) is None);
                return Err(ServiceError::DataFault);
            },
        }
        i += 1;
    }
    assert(views_of_stats(counts@) =~= order_counts(found@));
    Ok(counts)
}

/// Whether every row of a count of cabs names a cab status.
pub open spec fn cab_counts_readable(rows: Seq<(i32, i32)>) -> bool {
    forall|i: int| 0 <= i < rows.len() ==> cab_status_of((#[trigger] rows[i]).0) is Some
}

/// The count of cabs by status: each status by its name.
pub open spec fn cab_counts(rows: Seq<(i32, i32)>) -> Seq<StatView> {
    Seq::new(
        rows.len(),
        |i: int|
            StatView { name: cab_status_of(rows[i].0).unwrap().spec_name(), int_val: rows[i].1 },
    )
}

/// What the store's answer to the count of cabs by status is read as.
pub open spec fn cab_counts_selected(rows: Option<Seq<(i32, i32)>>) -> Result<
    Seq<StatView>,
    ServiceError,
> {
    match rows {
        None => Err(ServiceError::StoreUnavailable),
        Some(r) => if cab_counts_readable(r) {
            Ok(cab_counts(r))
        } else {
            Err(ServiceError::DataFault)
        },
    }
}

/// The number of cabs in each status, under the name of the status. `rows`
/// holds pairs of a stored status and a count, and is `None` where the
/// store could not be reached; a status that is a number naming none is a
/// `DataFault`.
pub fn select_stats_cabs(rows: Option<Vec<(i32, i32)>>) -> (counts: Result<
    Vec<Figure>,
    ServiceError,
>)
    ensures
        view_of_figures(counts) == cab_counts_selected(view_of_rows(rows)),
{
    let found = match rows {
        None => {
            return Err(ServiceError::StoreUnavailable);
        },
        Some(r) => r,
    };
    let mut counts: Vec<Figure> = Vec::new();
    let mut i: usize = 0;
    while i < found.len()
        invariant
            i <= found@.len(),
            view_of_rows(rows) == Some(found@),
            counts@.len() == i,
            forall|k: int| 0 <= k < i ==> cab_status_of((#[trigger] found@[k]).0) is Some,
            forall|k: int| 0 <= k < i ==> (#[trigger] counts@[k])@ == cab_counts(found@)[k],
        decreases found@.len() - i,
    {
        match get_cab_status(found[i].0) {
            Some(status) => {
                counts.push(Figure { name: status.name(), int_val: found[i].1 });
            },
            None => {
                assert(cab_status_of(found@[i as int].0) is None);
                return Err(ServiceError::DataFault);
            },
        }
        i += 1;
    }
    assert(views_of_stats(counts@) =~= cab_counts(found@));
    Ok(counts)
}

/// The figures shown to a caller who may not see any.
pub open spec fn no_stats() -> StatsView {
    StatsView { kpis: Seq::empty(), orders: Seq::empty(), cabs: Seq::empty() }
}

/// What the three parts make of the figures of the service: the first part
/// that failed decides, in the order averages, orders, cabs.
pub open spec fn stats_selected(
    usr_id: i64,
    kpis: Result<Seq<StatView>, ServiceError>,
    orders: Result<Seq<StatView>, ServiceError>,
    cabs: Result<Seq<StatView>, ServiceError>,
) -> Result<StatsView, ServiceError> {
    if usr_id < 0 {
        Ok(no_stats())
    } else {
        match kpis {
            Err(e) => Err(e),
            Ok(k) => match orders {
                Err(e) => Err(e),
                Ok(o) => match cabs {
                    Err(e) => Err(e),
                    Ok(c) => Ok(StatsView { kpis: k, orders: o, cabs: c }),
                },
            },
        }
    }
}

/// The view of an answer that holds the figures of the service.
pub open spec fn view_of_stats(answer: Result<Stats, ServiceError>) -> Result<
    StatsView,
    ServiceError,
> {
    match answer {
        Ok(s) => Ok(s@),
        Err(e) => Err(e),
    }
}

/// Whether the figures of the service are shown to the user `usr_id`, and so
/// whether the averages are to be taken and stored before they are read.
pub fn shows_stats(usr_id: i64) -> (shown: bool)
    ensures
        shown == (usr_id >= 0),
{
    usr_id >= 0
}

/// The figures of the service for the user `usr_id`, put together from the
/// stored averages, the count of orders by status and the count of cabs by
/// status. A user with a negative id is shown none. Where a part could not
/// be read, the first such part decides the answer.
pub fn select_stats(
    user_id: i64,
    usr_id: i64,
    kpis: Result<Vec<Figure>, ServiceError>,
    orders: Result<Vec<Figure>, ServiceError>,
    cabs: Result<Vec<Figure>, ServiceError>,
) -> (stats: Result<Stats, ServiceError>)
    ensures
        view_of_stats(stats) == stats_selected(
            usr_id,
            view_of_figures(kpis),
            view_of_figures(orders),
            view_of_figures(cabs),
        ),
{
    if !shows_stats(usr_id) {
        let none = Stats { kpis: Vec::new(), orders: Vec::new(), cabs: Vec::new() };
        assert(none@.kpis =~= Seq::<StatView>::empty());
        assert(none@.orders =~= Seq::<StatView>::empty());
        assert(none@.cabs =~= Seq::<StatView>::empty());
        return Ok(none);
    }
    let k = match kpis {
        Ok(v) => v,
        Err(e) => {
            return Err(e);
        },
    };
    let o = match orders {
        Ok(v) => v,
        Err(e) => {
            return Err(e);
        },
    };
    let c = match cabs {
        Ok(v) => v,
        Err(e) => {
            return Err(e);
        },
    };
    Ok(Stats { kpis: k, orders: o, cabs: c })
}

} // verus!
