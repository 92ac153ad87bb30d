use kapir::model::{Cab, Leg, Route, RouteStatus};
use kapir::service::{
    anomalous_legs, calculate_eta, calculate_eta_at, get_elapsed, get_elapsed_at, get_elapsed_dt,
};
use kapir::time::{local_now, Timestamp};

const NOW: i64 = 1_700_000_000;

fn at(secs: i64) -> Timestamp {
    Timestamp::new(secs, 0).unwrap()
}

fn leg(from: i32, to: i32, dist: i32, status: RouteStatus, started: Option<Timestamp>) -> Leg {
    Leg {
        id: (from * 100 + to) as i64,
        route_id: 9,
        from,
        to,
        place: from,
        dist,
        started,
        completed: None,
        status,
        passengers: 1,
    }
}

fn route(id: i64, legs: Vec<Leg>) -> Route {
    let legs = legs.into_iter().enumerate().map(|(i, l)| Leg { place: i as i32, ..l }).collect();
    Route { id, status: RouteStatus::ASSIGNED, legs, cab: Cab::default() }
}

#[test]
fn eta_of_a_leg_under_way_and_a_leg_ahead() {
    let r = route(
        9,
        vec![
            leg(1, 2, 5, RouteStatus::STARTED, Some(at(NOW - 3 * 60))),
            leg(2, 3, 4, RouteStatus::ASSIGNED, None),
        ],
    );
    assert_eq!(calculate_eta_at(3, &r, &at(NOW)), 5);
    assert_eq!(calculate_eta_at(2, &r, &at(NOW)), 1);
    assert_eq!(calculate_eta_at(1, &r, &at(NOW)), -1);
}

#[test]
fn eta_of_a_route_that_does_not_exist_is_minus_one() {
    let r = route(
        -1,
        vec![leg(1, 2, 5, RouteStatus::ASSIGNED, None), leg(2, 3, 4, RouteStatus::ASSIGNED, None)],
    );
    assert_eq!(calculate_eta_at(3, &r, &at(NOW)), -1);
    assert_eq!(calculate_eta(3, &r), -1);
    assert_eq!(calculate_eta_at(3, &Route::default(), &at(NOW)), -1);
    assert_eq!(calculate_eta(0, &Route::default()), -1);
}

#[test]
fn eta_is_the_same_however_often_it_is_asked_for() {
    let r = route(
        4,
        vec![
            leg(1, 2, 5, RouteStatus::ASSIGNED, None),
            leg(2, 3, 4, RouteStatus::STARTED, None),
            leg(3, 4, 6, RouteStatus::ASSIGNED, None),
        ],
    );
    let before = r.clone();
    let first = calculate_eta(4, &r);
    let second = calculate_eta(4, &r);
    assert_eq!(first, 14);
    assert_eq!(second, 14);
    assert_eq!(calculate_eta_at(4, &r, &at(NOW)), 14);
    assert_eq!(calculate_eta_at(4, &r, &at(NOW + 86_400)), 14);
    assert_eq!(r, before);

    let under_way = route(5, vec![leg(1, 2, 50, RouteStatus::STARTED, Some(at(NOW)))]);
    let reading = at(NOW + 600);
    assert_eq!(calculate_eta_at(2, &under_way, &reading), 39);
    assert_eq!(calculate_eta_at(2, &under_way, &reading), 39);
}

#[test]
fn eta_counts_a_leg_under_way_without_a_start_in_full() {
    let r = route(1, vec![leg(1, 2, 7, RouteStatus::STARTED, None)]);
    assert_eq!(calculate_eta_at(2, &r, &at(NOW)), 6);
}

#[test]
fn eta_never_counts_less_than_nothing_for_a_leg() {
    let r = route(
        1,
        vec![
            leg(1, 2, 5, RouteStatus::STARTED, Some(at(NOW - 3600))),
            leg(2, 3, 4, RouteStatus::ASSIGNED, None),
        ],
    );
    assert_eq!(calculate_eta_at(3, &r, &at(NOW)), 3);
}

#[test]
fn eta_counts_whole_minutes_only() {
    let started = Some(at(NOW));
    let r = route(1, vec![leg(1, 2, 10, RouteStatus::STARTED, started)]);
    assert_eq!(calculate_eta_at(2, &r, &at(NOW + 59)), 9);
    assert_eq!(calculate_eta_at(2, &r, &at(NOW + 60)), 8);
    assert_eq!(calculate_eta_at(2, &r, &at(NOW + 119)), 8);
    assert_eq!(calculate_eta_at(2, &r, &at(NOW - 59)), 9);
    assert_eq!(calculate_eta_at(2, &r, &at(NOW - 60)), 10);
    assert_eq!(calculate_eta_at(2, &r, &at(NOW - 119)), 10);
    assert_eq!(calculate_eta_at(2, &r, &at(NOW - 120)), 11);
}

#[test]
fn eta_passes_over_legs_in_other_statuses() {
    let r = route(
        1,
        vec![
            leg(1, 2, 5, RouteStatus::COMPLETED, Some(at(NOW - 600))),
            leg(2, 3, 4, RouteStatus::ACCEPTED, None),
            leg(3, 4, 3, RouteStatus::PLANNED, None),
            leg(4, 5, 2, RouteStatus::REJECTED, None),
            leg(5, 6, 1, RouteStatus::ABANDONED, None),
            leg(6, 7, 8, RouteStatus::ASSIGNED, None),
        ],
    );
    assert_eq!(calculate_eta_at(7, &r, &at(NOW)), 7);
}

#[test]
fn eta_stops_at_the_first_leg_that_departs_from_the_stop() {
    let r = route(
        1,
        vec![
            leg(1, 2, 5, RouteStatus::ASSIGNED, None),
            leg(2, 3, 4, RouteStatus::ASSIGNED, None),
            leg(3, 2, 6, RouteStatus::ASSIGNED, None),
            leg(2, 5, 9, RouteStatus::ASSIGNED, None),
        ],
    );
    assert_eq!(calculate_eta_at(2, &r, &at(NOW)), 4);
    assert_eq!(calculate_eta_at(5, &r, &at(NOW)), 23);
    assert_eq!(calculate_eta_at(77, &r, &at(NOW)), 23);
}

#[test]
fn eta_walks_the_legs_by_their_places() {
    let mut legs = vec![
        leg(3, 4, 6, RouteStatus::ASSIGNED, None),
        leg(1, 2, 5, RouteStatus::ASSIGNED, None),
        leg(2, 3, 4, RouteStatus::ASSIGNED, None),
    ];
    legs[0].place = 30;
    legs[1].place = 10;
    legs[2].place = 20;
    let shuffled = Route { id: 2, status: RouteStatus::ASSIGNED, legs, cab: Cab::default() };
    assert_eq!(calculate_eta_at(3, &shuffled, &at(NOW)), 8);
    assert_eq!(calculate_eta_at(4, &shuffled, &at(NOW)), 14);
    assert_eq!(calculate_eta_at(2, &shuffled, &at(NOW)), 4);
    assert_eq!(calculate_eta_at(1, &shuffled, &at(NOW)), -1);
    assert_eq!(shuffled.legs[0].place, 30);
}

#[test]
fn eta_of_a_route_without_legs() {
    assert_eq!(calculate_eta_at(3, &route(8, Vec::new()), &at(NOW)), -1);
}

#[test]
fn eta_stays_within_sixteen_bits() {
    let long = route(
        1,
        vec![
            leg(1, 2, i32::MAX, RouteStatus::ASSIGNED, None),
            leg(2, 3, i32::MAX, RouteStatus::ASSIGNED, None),
            leg(3, 4, i32::MAX, RouteStatus::ASSIGNED, None),
        ],
    );
    assert_eq!(calculate_eta_at(4, &long, &at(NOW)), i16::MAX);
    let short = route(1, vec![leg(1, 2, i32::MIN, RouteStatus::ASSIGNED, None)]);
    assert_eq!(calculate_eta_at(2, &short, &at(NOW)), i16::MIN);
    let edge = route(1, vec![leg(1, 2, 32_768, RouteStatus::ASSIGNED, None)]);
    assert_eq!(calculate_eta_at(2, &edge, &at(NOW)), 32_767);
    let over = route(1, vec![leg(1, 2, 32_769, RouteStatus::ASSIGNED, None)]);
    assert_eq!(calculate_eta_at(2, &over, &at(NOW)), 32_767);
}

#[test]
fn eta_by_the_local_clock_counts_down_a_leg_under_way() {
    let started = local_now();
    let r = route(
        3,
        vec![
            leg(1, 2, 30, RouteStatus::STARTED, Timestamp::new(started.seconds() - 10 * 60, 0)),
            leg(2, 3, 4, RouteStatus::ASSIGNED, None),
        ],
    );
    let eta = calculate_eta(3, &r);
    assert!(eta == 23 || eta == 22, "eta was {}", eta);
}

#[test]
fn elapsed_seconds_since_an_instant() {
    assert_eq!(get_elapsed_at(Some(at(NOW - 125)), &at(NOW)), 125);
    assert_eq!(get_elapsed_at(Some(at(NOW + 125)), &at(NOW)), -125);
    assert_eq!(get_elapsed_at(Some(at(NOW)), &at(NOW)), 0);
    assert_eq!(get_elapsed_at(None, &at(NOW)), -1);
}

#[test]
fn elapsed_seconds_by_the_local_clock() {
    assert_eq!(get_elapsed(None), -1);
    assert_eq!(get_elapsed_dt(None), -1);
    let now = local_now();
    let earlier = Timestamp::new(now.seconds() - 1000, 0);
    let elapsed = get_elapsed(earlier);
    assert!((1000..1100).contains(&elapsed), "elapsed was {}", elapsed);
    let elapsed_dt = get_elapsed_dt(earlier);
    assert!((1000..1100).contains(&elapsed_dt), "elapsed was {}", elapsed_dt);
    let two_days = Timestamp::new(now.seconds() - 2 * 86_400, 0);
    let long = get_elapsed_dt(two_days);
    assert!((172_800..172_900).contains(&long), "elapsed was {}", long);
}

#[test]
fn legs_out_of_line_ahead_of_the_stop_are_named() {
    let mut lost = leg(2, 3, 4, RouteStatus::STARTED, None);
    lost.id = 77;
    let r = route(
        1,
        vec![
            leg(1, 2, 5, RouteStatus::COMPLETED, Some(at(NOW - 600))),
            lost,
            leg(3, 4, 3, RouteStatus::ASSIGNED, None),
            leg(4, 5, 2, RouteStatus::STARTED, Some(at(NOW))),
            leg(5, 6, 1, RouteStatus::ACCEPTED, None),
            leg(6, 7, 8, RouteStatus::PLANNED, None),
        ],
    );
    assert_eq!(anomalous_legs(7, &r), vec![102, 77, 506, 607]);
    assert_eq!(anomalous_legs(6, &r), vec![102, 77, 506]);
    assert_eq!(anomalous_legs(3, &r), vec![102, 77]);
    assert_eq!(anomalous_legs(2, &r), vec![102]);
    assert_eq!(anomalous_legs(1, &r), Vec::<i64>::new());
    assert_eq!(anomalous_legs(1, &Route::default()), Vec::<i64>::new());
}
