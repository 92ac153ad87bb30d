use kapir::distance::{init_distance, DistanceIndex};
use kapir::model::{Cab, CabStatus, Leg, Order, OrderStatus, Route, RouteStatus, ServiceError, Stop};
use kapir::service::{
    check_result, insert_order, order_inserted, update_cab, update_leg, update_order, update_route,
};
use kapir::stats::{count_average, Stat, Statistics};
use kapir::time::Timestamp;

const NOW: i64 = 1_700_000_000;

fn at(secs: i64) -> Timestamp {
    Timestamp::new(secs, 0).unwrap()
}

fn index() -> DistanceIndex {
    let stop = |id: i64| Stop { id, bearing: 0, latitude: 0, longitude: 0, name: None };
    let stops = vec![stop(4001), stop(4002), stop(4003)];
    let measured = vec![vec![0, 12, 0], vec![0, 0, 33], vec![0, 0, 0]];
    init_distance(&stops, &measured).unwrap()
}

fn request(from: i32, to: i32) -> Order {
    Order { from, to, wait: 10, loss: 90, shared: true, cust_id: 666, eta: 55, in_pool: true, ..Order::default() }
}

fn held(id: i64, cust_id: i64, status: OrderStatus) -> Order {
    Order {
        id,
        from: 4001,
        to: 4002,
        distance: 12,
        status,
        received: Some(at(NOW - 500)),
        cust_id,
        ..Order::default()
    }
}

fn leg(id: i64, status: RouteStatus) -> Leg {
    Leg {
        id,
        route_id: 3,
        from: 1,
        to: 2,
        place: 0,
        dist: 5,
        started: None,
        completed: None,
        status,
        passengers: 2,
    }
}

fn route(id: i64, cab_id: i64, status: RouteStatus) -> Route {
    Route {
        id,
        status,
        legs: vec![leg(1, RouteStatus::ASSIGNED)],
        cab: Cab { id: cab_id, location: 1, status: CabStatus::ASSIGNED, seats: 4 },
    }
}

#[test]
fn an_order_from_a_stop_to_itself_is_rejected() {
    for stop in [4001, 4002, 0, -1, 9999] {
        let answer = insert_order(28, request(stop, stop), &Vec::new(), &index(), &at(NOW));
        assert_eq!(answer, Err(ServiceError::InvalidRequest));
    }
}

#[test]
fn an_order_of_a_customer_with_an_open_order_is_rejected() {
    let open = [
        OrderStatus::RECEIVED,
        OrderStatus::ASSIGNED,
        OrderStatus::ACCEPTED,
        OrderStatus::PICKEDUP,
        OrderStatus::COMPLETED,
    ];
    for status in open {
        let orders = vec![held(1, 28, OrderStatus::CANCELLED), held(2, 28, status)];
        let answer = insert_order(28, request(4001, 4002), &orders, &index(), &at(NOW));
        assert_eq!(answer, Err(ServiceError::InvalidRequest));
    }
}

#[test]
fn closed_orders_and_orders_of_others_do_not_stand_in_the_way() {
    let orders = vec![
        held(1, 28, OrderStatus::CANCELLED),
        held(2, 28, OrderStatus::REJECTED),
        held(3, 28, OrderStatus::ABANDONED),
        held(4, 28, OrderStatus::REFUSED),
        held(5, 29, OrderStatus::RECEIVED),
    ];
    let answer = insert_order(28, request(4001, 4002), &orders, &index(), &at(NOW));
    assert!(answer.is_ok());
}

#[test]
fn an_accepted_order_is_received_with_the_distance_of_the_index() {
    let stored = insert_order(28, request(4002, 4003), &Vec::new(), &index(), &at(NOW)).unwrap();
    assert_eq!(
        stored,
        Order {
            from: 4002,
            to: 4003,
            wait: 10,
            loss: 90,
            shared: true,
            distance: 33,
            status: OrderStatus::RECEIVED,
            received: Some(at(NOW)),
            cust_id: 28,
            in_pool: false,
            eta: -1,
            ..Order::default()
        }
    );
    let back = insert_order(28, request(4003, 4002), &Vec::new(), &index(), &at(NOW)).unwrap();
    assert_eq!(back.distance, 33);
    let near = insert_order(28, request(4001, 4003), &Vec::new(), &index(), &at(NOW)).unwrap();
    assert_eq!(near.distance, 1);
}

#[test]
fn an_order_between_stops_that_the_index_does_not_cover_is_a_data_fault() {
    for (from, to) in [(4001, 5000), (5000, 4001), (-1, 4001), (1, 2)] {
        let answer = insert_order(28, request(from, to), &Vec::new(), &index(), &at(NOW));
        assert_eq!(answer, Err(ServiceError::DataFault));
    }
}

#[test]
fn rejections_come_in_a_fixed_order() {
    let orders = vec![held(2, 28, OrderStatus::RECEIVED)];
    let same = insert_order(28, request(5000, 5000), &orders, &index(), &at(NOW));
    assert_eq!(same, Err(ServiceError::InvalidRequest));
    let open = insert_order(28, request(5000, 5001), &orders, &index(), &at(NOW));
    assert_eq!(open, Err(ServiceError::InvalidRequest));
}

#[test]
fn a_stored_order_takes_the_id_of_the_store() {
    let order = held(-1, 28, OrderStatus::RECEIVED);
    assert_eq!(order_inserted(order, Some(775_791)), Ok(Order { id: 775_791, ..order }));
    assert_eq!(order_inserted(order, None), Err(ServiceError::StoreUnavailable));
    assert_eq!(order_inserted(order, Some(u64::MAX)), Err(ServiceError::DataFault));
    assert_eq!(
        order_inserted(order, Some(i64::MAX as u64)),
        Ok(Order { id: i64::MAX, ..order })
    );
}

#[test]
fn an_update_that_changed_no_row_is_not_a_success() {
    assert_eq!(check_result(Some(0)), Err(ServiceError::Unauthorized));
    assert_eq!(check_result(None), Err(ServiceError::StoreUnavailable));
    assert_eq!(check_result(Some(1)), Ok(1));
    assert_eq!(check_result(Some(3)), Ok(3));
}

#[test]
fn a_cab_changes_no_cab_but_itself() {
    let cab = Cab { id: 2, location: 123, status: CabStatus::FREE, seats: 4 };
    assert_eq!(update_cab(2, cab), Ok(cab));
    assert_eq!(update_cab(3, cab), Err(ServiceError::Unauthorized));
    assert_eq!(update_cab(-1, cab), Err(ServiceError::Unauthorized));
}

#[test]
fn an_order_passes_along_its_life_one_step_at_a_time() {
    let mut stats = Statistics::new();
    let path = [
        OrderStatus::RECEIVED,
        OrderStatus::ASSIGNED,
        OrderStatus::ACCEPTED,
        OrderStatus::PICKEDUP,
        OrderStatus::COMPLETED,
    ];
    let mut current = held(7, 28, OrderStatus::RECEIVED);
    for next in &path[1..] {
        let asked = Order { id: 7, status: *next, ..Order::default() };
        current = update_order(28, Some(current), asked, &mut stats, &at(NOW)).unwrap();
        assert_eq!(current.status, *next);
    }
    assert_eq!(current.started, Some(at(NOW)));
    assert_eq!(current.completed, Some(at(NOW)));
    assert_eq!(current.received, Some(at(NOW - 500)));
    assert_eq!(current.distance, 12);
    assert_eq!(count_average(&stats, Stat::AvgOrderPickupTime), 500);
    assert_eq!(count_average(&stats, Stat::AvgOrderCompleteTime), 500);
}

#[test]
fn picking_up_reports_the_seconds_since_receipt() {
    let mut stats = Statistics::new();
    let asked = Order { id: 7, status: OrderStatus::PICKEDUP, ..Order::default() };
    let current = held(7, 28, OrderStatus::ACCEPTED);
    let updated = update_order(28, Some(current), asked, &mut stats, &at(NOW + 100)).unwrap();
    assert_eq!(updated.started, Some(at(NOW + 100)));
    assert_eq!(updated.completed, None);
    assert_eq!(stats.sample_count(Stat::AvgOrderPickupTime), 1);
    assert_eq!(stats.sample_count(Stat::AvgOrderCompleteTime), 0);
    assert_eq!(count_average(&stats, Stat::AvgOrderPickupTime), 600);

    let unknown = Order { received: None, ..current };
    update_order(28, Some(unknown), asked, &mut stats, &at(NOW)).unwrap();
    assert_eq!(stats.sample_count(Stat::AvgOrderPickupTime), 1);
}

#[test]
fn other_transitions_report_nothing() {
    let mut stats = Statistics::new();
    let asked = Order { id: 7, status: OrderStatus::ACCEPTED, ..Order::default() };
    let updated =
        update_order(28, Some(held(7, 28, OrderStatus::ASSIGNED)), asked, &mut stats, &at(NOW));
    assert_eq!(updated, Ok(held(7, 28, OrderStatus::ACCEPTED)));
    assert_eq!(stats.sample_count(Stat::AvgOrderPickupTime), 0);
    assert_eq!(stats.sample_count(Stat::AvgOrderCompleteTime), 0);
}

#[test]
fn an_order_update_is_refused_with_its_reason() {
    let mut stats = Statistics::new();
    let asked = Order { id: 7, status: OrderStatus::PICKEDUP, ..Order::default() };
    let now = at(NOW);
    assert_eq!(update_order(28, None, asked, &mut stats, &now), Err(ServiceError::NotFound));
    assert_eq!(
        update_order(28, Some(held(8, 28, OrderStatus::ACCEPTED)), asked, &mut stats, &now),
        Err(ServiceError::NotFound)
    );
    assert_eq!(
        update_order(29, Some(held(7, 28, OrderStatus::ACCEPTED)), asked, &mut stats, &now),
        Err(ServiceError::Unauthorized)
    );
    assert_eq!(
        update_order(28, Some(held(7, 28, OrderStatus::RECEIVED)), asked, &mut stats, &now),
        Err(ServiceError::InvalidRequest)
    );
    assert_eq!(stats.sample_count(Stat::AvgOrderPickupTime), 0);
}

#[test]
fn an_order_is_aborted_only_while_assigned_or_accepted() {
    let every = [
        OrderStatus::RECEIVED,
        OrderStatus::ASSIGNED,
        OrderStatus::ACCEPTED,
        OrderStatus::CANCELLED,
        OrderStatus::REJECTED,
        OrderStatus::ABANDONED,
        OrderStatus::REFUSED,
        OrderStatus::PICKEDUP,
        OrderStatus::COMPLETED,
    ];
    let aborts = [OrderStatus::CANCELLED, OrderStatus::REJECTED, OrderStatus::ABANDONED];
    for from in every {
        for to in every {
            let expected = match from {
                OrderStatus::RECEIVED => to == OrderStatus::ASSIGNED,
                OrderStatus::ASSIGNED => to == OrderStatus::ACCEPTED || aborts.contains(&to),
                OrderStatus::ACCEPTED => to == OrderStatus::PICKEDUP || aborts.contains(&to),
                OrderStatus::PICKEDUP => to == OrderStatus::COMPLETED,
                _ => false,
            };
            assert_eq!(from.can_become(to), expected, "{:?} to {:?}", from, to);
            let mut stats = Statistics::new();
            let asked = Order { id: 7, status: to, ..Order::default() };
            let answer = update_order(28, Some(held(7, 28, from)), asked, &mut stats, &at(NOW));
            assert_eq!(answer.is_ok(), expected);
            if !expected {
                assert_eq!(answer, Err(ServiceError::InvalidRequest));
            }
        }
        assert!(!from.can_become(OrderStatus::REFUSED));
    }
}

#[test]
fn a_leg_is_started_and_completed_by_the_cab_of_its_route() {
    let now = at(NOW);
    let start = Leg { id: 17, status: RouteStatus::STARTED, ..leg(17, RouteStatus::PLANNED) };
    let started = update_leg(5, Some(leg(17, RouteStatus::ASSIGNED)), 5, start, &now).unwrap();
    assert_eq!(
        started,
        Leg { status: RouteStatus::STARTED, started: Some(now), ..leg(17, RouteStatus::ASSIGNED) }
    );
    let complete = Leg { status: RouteStatus::COMPLETED, ..start };
    let later = at(NOW + 300);
    let completed = update_leg(5, Some(started), 5, complete, &later).unwrap();
    assert_eq!(completed.status, RouteStatus::COMPLETED);
    assert_eq!(completed.started, Some(now));
    assert_eq!(completed.completed, Some(later));
}

#[test]
fn a_leg_update_is_refused_with_its_reason() {
    let now = at(NOW);
    let start = leg(17, RouteStatus::STARTED);
    assert_eq!(update_leg(5, None, 5, start, &now), Err(ServiceError::NotFound));
    assert_eq!(
        update_leg(5, Some(leg(18, RouteStatus::ASSIGNED)), 5, start, &now),
        Err(ServiceError::NotFound)
    );
    assert_eq!(
        update_leg(5, Some(leg(17, RouteStatus::ASSIGNED)), 6, start, &now),
        Err(ServiceError::Unauthorized)
    );
    assert_eq!(
        update_leg(5, Some(leg(17, RouteStatus::STARTED)), 5, start, &now),
        Err(ServiceError::InvalidRequest)
    );
    assert_eq!(
        update_leg(5, Some(leg(17, RouteStatus::ASSIGNED)), 5, leg(17, RouteStatus::COMPLETED), &now),
        Err(ServiceError::InvalidRequest)
    );
    assert_eq!(
        update_leg(5, Some(leg(17, RouteStatus::ACCEPTED)), 5, start, &now),
        Err(ServiceError::InvalidRequest)
    );
}

#[test]
fn a_route_passes_along_its_life_for_the_cab_that_drives_it() {
    let path = [
        RouteStatus::PLANNED,
        RouteStatus::ASSIGNED,
        RouteStatus::ACCEPTED,
        RouteStatus::STARTED,
        RouteStatus::COMPLETED,
    ];
    let mut current = route(9724, 1, RouteStatus::PLANNED);
    for next in &path[1..] {
        let asked = Route { id: 9724, status: *next, ..Route::default() };
        current = update_route(1, Some(current), asked).unwrap();
        assert_eq!(current, route(9724, 1, *next));
    }
}

#[test]
fn a_route_update_is_refused_with_its_reason() {
    let asked = Route { id: 9724, status: RouteStatus::ACCEPTED, ..Route::default() };
    assert_eq!(update_route(1, None, asked.clone()), Err(ServiceError::NotFound));
    assert_eq!(
        update_route(1, Some(route(9725, 1, RouteStatus::ASSIGNED)), asked.clone()),
        Err(ServiceError::NotFound)
    );
    assert_eq!(
        update_route(2, Some(route(9724, 1, RouteStatus::ASSIGNED)), asked.clone()),
        Err(ServiceError::Unauthorized)
    );
    assert_eq!(
        update_route(1, Some(route(9724, 1, RouteStatus::PLANNED)), asked.clone()),
        Err(ServiceError::InvalidRequest)
    );
}

#[test]
fn a_route_is_aborted_only_while_assigned_or_accepted() {
    let every = [
        RouteStatus::PLANNED,
        RouteStatus::ASSIGNED,
        RouteStatus::ACCEPTED,
        RouteStatus::REJECTED,
        RouteStatus::ABANDONED,
        RouteStatus::STARTED,
        RouteStatus::COMPLETED,
    ];
    let aborts = [RouteStatus::REJECTED, RouteStatus::ABANDONED];
    for from in every {
        for to in every {
            let expected = match from {
                RouteStatus::PLANNED => to == RouteStatus::ASSIGNED,
                RouteStatus::ASSIGNED => to == RouteStatus::ACCEPTED || aborts.contains(&to),
                RouteStatus::ACCEPTED => to == RouteStatus::STARTED || aborts.contains(&to),
                RouteStatus::STARTED => to == RouteStatus::COMPLETED,
                _ => false,
            };
            assert_eq!(from.can_become(to), expected, "{:?} to {:?}", from, to);
            let leg_expected = match from {
                RouteStatus::ASSIGNED => to == RouteStatus::STARTED,
                RouteStatus::STARTED => to == RouteStatus::COMPLETED,
                _ => false,
            };
            assert_eq!(from.leg_can_become(to), leg_expected, "{:?} to {:?}", from, to);
        }
    }
}
