//! Rows as the store hands them over, before the service has read them.

use crate::model::{
    cab_status_of, get_cab_status, get_order_status, get_route_status, order_status_of,
    route_status_of, Cab, Leg, Order, NO_ID, NO_SEATS,
};
use crate::time::Timestamp;
use vstd::prelude::*;

verus! {

/// A row of the leg table. The status is the number that the store keeps.
#[derive(Debug, Copy, Clone, PartialEq, Eq)]
pub struct LegRow {
    pub id: i64,
    pub route_id: i64,
    pub from: i32,
    pub to: i32,
    pub place: i32,
    pub distance: i32,
    pub started: Option<Timestamp>,
    pub completed: Option<Timestamp>,
    pub status: i32,
}

/// A row of the order table, joined with the cab of the order where it has
/// one. The statuses are the numbers that the store keeps.
#[derive(Debug, Copy, Clone, PartialEq, Eq)]
pub struct OrderRow {
    pub id: i64,
    pub from: i32,
    pub to: i32,
    pub wait: i32,
    pub loss: i32,
    pub distance: i32,
    pub shared: bool,
    pub in_pool: bool,
    pub received: Option<Timestamp>,
    pub started: Option<Timestamp>,
    pub completed: Option<Timestamp>,
    pub at_time: Option<Timestamp>,
    pub eta: i32,
    pub status: i32,
    pub cab_id: Option<i64>,
    pub cab_location: Option<i32>,
    pub cab_status: Option<i32>,
    pub cust_id: i64,
    pub route_id: Option<i64>,
    pub leg_id: Option<i64>,
}

/// A row of the stop table, the coordinates as bit patterns of doubles.
#[derive(Debug, Clone, PartialEq, Eq)]
pub struct StopRow {
    pub id: i64,
    pub latitude: u64,
    pub longitude: u64,
    pub bearing: i32,
    pub name: String,
}

/// The cab with the given id, stop and stored status; nothing is known of
/// its seats.
pub open spec fn cab_of(id: i64, location: i32, status: i32) -> Option<Cab> {
    match cab_status_of(status) {
        Some(s) => Some(Cab { id, location, status: s, seats: NO_SEATS }),
        None => None,
    }
}

/// The cab with the given id, stop and stored status.
pub fn read_cab(id: i64, location: i32, status: i32) -> (cab: Option<Cab>)
    ensures
        cab == cab_of(id, location, status),
{
    match get_cab_status(status) {
        Some(s) => Some(Cab { id, location, status: s, seats: NO_SEATS }),
        None => None,
    }
}

/// The leg that a row holds, as a leg of the route `route_id`; no passenger
/// is counted.
pub open spec fn leg_of(row: LegRow, route_id: i64) -> Option<Leg> {
    match route_status_of(row.status) {
        Some(s) => Some(
            Leg {
                id: row.id,
                route_id,
                from: row.from,
                to: row.to,
                place: row.place,
                dist: row.distance,
                started: row.started,
                completed: row.completed,
                status: s,
                passengers: 0,
            },
        ),
        None => None,
    }
}

/// The leg that a row holds, as a leg of the route `route_id`.
pub fn read_leg(row: &LegRow, route_id: i64) -> (leg: Option<Leg>)
    ensures
        leg == leg_of(*row, route_id),
{
    match get_route_status(row.status) {
        Some(s) => Some(
            Leg {
                id: row.id,
                route_id,
                from: row.from,
                to: row.to,
                place: row.place,
                dist: row.distance,
                started: row.started,
                completed: row.completed,
                status: s,
                passengers: 0,
            },
        ),
        None => None,
    }
}

/// The cab of an order row: the cab that stands for none where the order
/// has no cab.
pub open spec fn cab_of_order(row: OrderRow) -> Option<Cab> {
    match row.cab_id {
        None => Some(Cab::spec_default()),
        Some(id) => match (row.cab_location, row.cab_status) {
            (Some(location), Some(status)) => cab_of(id, location, status),
            _ => None,
        },
    }
}

/// The id that a row holds, and -1 where it holds none.
pub open spec fn id_or_none(id: Option<i64>) -> i64 {
    match id {
        Some(v) => v,
        None => NO_ID,
    }
}

/// The order that a row holds.
pub open spec fn order_of(row: OrderRow) -> Option<Order> {
    match (order_status_of(row.status), cab_of_order(row)) {
        (Some(status), Some(cab)) => Some(
            Order {
                id: row.id,
                from: row.from,
                to: row.to,
                wait: row.wait,
                loss: row.loss,
                distance: row.distance,
                shared: row.shared,
                in_pool: row.in_pool,
                status,
                received: row.received,
                started: row.started,
                completed: row.completed,
                at_time: row.at_time,
                eta: row.eta,
                cab,
                cust_id: row.cust_id,
                route_id: id_or_none(row.route_id),
                leg_id: id_or_none(row.leg_id),
            },
        ),
        _ => None,
    }
}

/// The id that a row holds, and -1 where it holds none.
pub fn get_i64(id: Option<i64>) -> (v: i64)
    ensures
        v == id_or_none(id),
{
    match id {
        Some(v) => v,
        None => NO_ID,
    }
}

/// The order that a row holds; `None` where a status is a number that names
/// none, or a cab is named without its stop or status.
pub fn read_order(row: &OrderRow) -> (order: Option<Order>)
    ensures
        order == order_of(*row),
{
    let status = match get_order_status(row.status) {
        Some(s) => s,
        None => {
            return None;
        },
    };
    let cab = match row.cab_id {
        None => Cab::default(),
        Some(id) => match (row.cab_location, row.cab_status) {
            (Some(location), Some(code)) => match read_cab(id, location, code) {
                Some(c) => c,
                None => {
                    return None;
                },
            },
            _ => {
                return None;
            },
        },
    };
    Some(
        Order {
            id: row.id,
            from: row.from,
            to: row.to,
            wait: row.wait,
            loss: row.loss,
            distance: row.distance,
            shared: row.shared,
            in_pool: row.in_pool,
            status,
            received: row.received,
            started: row.started,
            completed: row.completed,
            at_time: row.at_time,
            eta: row.eta,
            cab,
            cust_id: row.cust_id,
            route_id: get_i64(row.route_id),
            leg_id: get_i64(row.leg_id),
        },
    )
}

} // verus!
