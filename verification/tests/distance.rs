use kapir::distance::{init_distance, is_nan, DistanceIndex, CAB_SPEED};
use kapir::model::{ServiceError, Stop};

fn stop(id: i64, latitude: f64, longitude: f64) -> Stop {
    Stop {
        id,
        bearing: 0,
        latitude: latitude.to_bits(),
        longitude: longitude.to_bits(),
        name: Some(format!("stop {}", id)),
    }
}

fn great_circle_km(lat1: f64, lon1: f64, lat2: f64, lon2: f64) -> f64 {
    let rad = std::f64::consts::PI / 180.0;
    let theta = lon1 - lon2;
    let cosine = (lat1 * rad).sin() * (lat2 * rad).sin()
        + (lat1 * rad).cos() * (lat2 * rad).cos() * (theta * rad).cos();
    cosine.acos() / rad * 60.0 * 1.1515 * 1.609344
}

fn haversine_km(lat1: f64, lon1: f64, lat2: f64, lon2: f64) -> f64 {
    let rad = std::f64::consts::PI / 180.0;
    let dlat = (lat2 - lat1) * rad;
    let dlon = (lon2 - lon1) * rad;
    let a = (dlat / 2.0).sin().powi(2)
        + (lat1 * rad).cos() * (lat2 * rad).cos() * (dlon / 2.0).sin().powi(2);
    2.0 * 6371.0 * a.sqrt().asin()
}

fn measure(stops: &[(f64, f64)]) -> Vec<Vec<i32>> {
    let n = stops.len();
    let mut table = vec![vec![0i32; n]; n];
    for i in 0..n {
        for j in i + 1..n {
            let km = great_circle_km(stops[i].0, stops[i].1, stops[j].0, stops[j].1);
            table[i][j] = (km * (60.0 / CAB_SPEED as f64)) as i32;
        }
    }
    table
}

fn three_stops() -> (Vec<Stop>, DistanceIndex) {
    let stops = vec![stop(7, 47.50, 19.04), stop(3, 47.51, 19.05), stop(12, 47.60, 19.20)];
    let measured = vec![vec![0, 3, 27], vec![99, 0, 24], vec![99, 99, 0]];
    let index = init_distance(&stops, &measured).unwrap();
    (stops, index)
}

#[test]
fn one_degree_of_longitude_on_the_equator_takes_222_minutes() {
    let stops = vec![stop(1, 0.0, 0.0), stop(2, 0.0, 1.0)];
    let measured = measure(&[(0.0, 0.0), (0.0, 1.0)]);
    let index = init_distance(&stops, &measured).unwrap();
    let expected = (haversine_km(0.0, 0.0, 0.0, 1.0) * 2.0).round() as i32;
    assert_eq!(expected, 222);
    assert_eq!(index.lookup(1, 2), Some(222));
    assert_eq!(index.lookup(2, 1), Some(222));
    assert_eq!(index.lookup(1, 1), Some(0));
    assert_eq!(index.lookup(2, 2), Some(0));
}

#[test]
fn index_is_the_same_in_both_directions() {
    let (stops, index) = three_stops();
    for a in &stops {
        for b in &stops {
            assert_eq!(index.lookup(a.id, b.id), index.lookup(b.id, a.id));
        }
    }
    assert_eq!(index.lookup(7, 3), Some(3));
    assert_eq!(index.lookup(12, 7), Some(27));
    assert_eq!(index.lookup(12, 3), Some(24));
}

#[test]
fn index_holds_nothing_from_a_stop_to_itself() {
    let (stops, index) = three_stops();
    for a in &stops {
        assert_eq!(index.lookup(a.id, a.id), Some(0));
    }
}

#[test]
fn index_holds_at_least_a_minute_between_different_stops() {
    let stops = vec![stop(1, 10.0, 10.0), stop(2, 10.0, 10.0), stop(3, 10.0001, 10.0)];
    let measured = measure(&[(10.0, 10.0), (10.0, 10.0), (10.0001, 10.0)]);
    assert_eq!(measured[0][1], 0);
    let index = init_distance(&stops, &measured).unwrap();
    for a in &stops {
        for b in &stops {
            if a.id != b.id {
                assert!(index.lookup(a.id, b.id).unwrap() >= 1);
            }
        }
    }
    assert_eq!(index.lookup(1, 2), Some(1));
}

#[test]
fn index_is_sized_by_the_registry() {
    let (_, index) = three_stops();
    assert_eq!(index.len(), 3);
    let empty = init_distance(&Vec::new(), &Vec::new()).unwrap();
    assert_eq!(empty.len(), 0);
    assert_eq!(empty.lookup(0, 0), None);
}

#[test]
fn lookup_of_an_unknown_stop_gives_nothing() {
    let (_, index) = three_stops();
    assert_eq!(index.lookup(7, 4), None);
    assert_eq!(index.lookup(4, 7), None);
    assert_eq!(index.lookup(0, 1), None);
    assert_eq!(index.lookup(-1, -1), None);
}

#[test]
fn a_coordinate_that_is_no_number_is_refused() {
    let measured = vec![vec![0, 5], vec![0, 0]];
    let bad_latitude = vec![stop(1, f64::NAN, 0.0), stop(2, 0.0, 1.0)];
    assert_eq!(init_distance(&bad_latitude, &measured).err(), Some(ServiceError::DataFault));
    let bad_longitude = vec![stop(1, 0.0, 0.0), stop(2, 0.0, -f64::NAN)];
    assert_eq!(init_distance(&bad_longitude, &measured).err(), Some(ServiceError::DataFault));
}

#[test]
fn a_repeated_stop_id_is_refused() {
    let stops = vec![stop(1, 0.0, 0.0), stop(2, 0.0, 1.0), stop(1, 0.0, 2.0)];
    let measured = vec![vec![0, 5, 6], vec![0, 0, 7], vec![0, 0, 0]];
    assert_eq!(init_distance(&stops, &measured).err(), Some(ServiceError::DataFault));
}

#[test]
fn a_table_that_is_not_square_is_refused() {
    let stops = vec![stop(1, 0.0, 0.0), stop(2, 0.0, 1.0)];
    assert_eq!(init_distance(&stops, &vec![vec![0, 5]]).err(), Some(ServiceError::DataFault));
    assert_eq!(
        init_distance(&stops, &vec![vec![0, 5], vec![0]]).err(),
        Some(ServiceError::DataFault)
    );
    assert_eq!(
        init_distance(&stops, &vec![vec![0, 5, 1], vec![0, 0, 1]]).err(),
        Some(ServiceError::DataFault)
    );
}

#[test]
fn a_negative_time_is_refused() {
    let stops = vec![stop(1, 0.0, 0.0), stop(2, 0.0, 1.0)];
    assert_eq!(
        init_distance(&stops, &vec![vec![0, -1], vec![0, 0]]).err(),
        Some(ServiceError::DataFault)
    );
    assert!(init_distance(&stops, &vec![vec![-5, 4], vec![-9, -3]]).is_ok());
}

#[test]
fn bit_patterns_that_are_no_numbers_are_told_apart() {
    let values = [
        0.0f64,
        -0.0,
        1.0,
        -1.0,
        f64::MIN_POSITIVE,
        5e-324,
        f64::MAX,
        f64::MIN,
        f64::INFINITY,
        f64::NEG_INFINITY,
        f64::NAN,
        -f64::NAN,
    ];
    for v in values {
        assert_eq!(is_nan(v.to_bits()), v.is_nan());
    }
    assert!(is_nan(0x7ff0_0000_0000_0001));
    assert!(is_nan(0xfff8_0000_0000_0000));
    assert!(is_nan(u64::MAX));
    assert!(!is_nan(0x7ff0_0000_0000_0000));
    assert!(!is_nan(0xfff0_0000_0000_0000));
}
