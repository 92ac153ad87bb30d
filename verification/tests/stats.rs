use kapir::stats::{
    add_avg_complete, add_avg_element, add_avg_pickup, count_average, save_status, update_val, Stat,
    Statistics,
};

#[test]
fn average_of_recorded_pickup_latencies() {
    let mut stats = Statistics::new();
    add_avg_pickup(&mut stats, 10);
    add_avg_pickup(&mut stats, 20);
    add_avg_pickup(&mut stats, 30);
    add_avg_pickup(&mut stats, -1);
    assert_eq!(stats.sample_count(Stat::AvgOrderPickupTime), 3);
    assert_eq!(count_average(&stats, Stat::AvgOrderPickupTime), 20);
    assert_eq!(count_average(&stats, Stat::AvgOrderCompleteTime), 0);
    let sql = save_status(&mut stats);
    assert_eq!(stats.get_val(Stat::AvgOrderPickupTime), 20);
    assert_eq!(stats.get_val(Stat::AvgOrderCompleteTime), 0);
    assert!(sql.contains("int_val=20 "));
}

#[test]
fn average_of_no_samples_is_zero() {
    let stats = Statistics::new();
    assert_eq!(count_average(&stats, Stat::AvgOrderPickupTime), 0);
    assert_eq!(count_average(&stats, Stat::AvgOrderCompleteTime), 0);
    assert_eq!(stats.get_val(Stat::AvgOrderPickupTime), 0);
    assert_eq!(stats.sample_count(Stat::AvgOrderCompleteTime), 0);
}

#[test]
fn the_value_that_stands_for_no_latency_is_dropped() {
    let mut stats = Statistics::new();
    add_avg_pickup(&mut stats, -1);
    add_avg_complete(&mut stats, -1);
    assert_eq!(stats.sample_count(Stat::AvgOrderPickupTime), 0);
    assert_eq!(stats.sample_count(Stat::AvgOrderCompleteTime), 0);
    add_avg_pickup(&mut stats, -2);
    add_avg_complete(&mut stats, 0);
    assert_eq!(stats.sample_count(Stat::AvgOrderPickupTime), 1);
    assert_eq!(stats.sample_count(Stat::AvgOrderCompleteTime), 1);
    add_avg_element(&mut stats, Stat::AvgOrderPickupTime, -1);
    assert_eq!(stats.sample_count(Stat::AvgOrderPickupTime), 2);
}

#[test]
fn the_two_figures_are_kept_apart() {
    let mut stats = Statistics::new();
    add_avg_pickup(&mut stats, 100);
    add_avg_complete(&mut stats, 7);
    add_avg_complete(&mut stats, 9);
    assert_eq!(count_average(&stats, Stat::AvgOrderPickupTime), 100);
    assert_eq!(count_average(&stats, Stat::AvgOrderCompleteTime), 8);
    update_val(&mut stats, Stat::AvgOrderCompleteTime, 55);
    assert_eq!(stats.get_val(Stat::AvgOrderCompleteTime), 55);
    assert_eq!(stats.get_val(Stat::AvgOrderPickupTime), 0);
    assert_eq!(stats.sample_count(Stat::AvgOrderCompleteTime), 2);
}

#[test]
fn the_mean_is_rounded_toward_zero() {
    let mut stats = Statistics::new();
    add_avg_pickup(&mut stats, 3);
    add_avg_pickup(&mut stats, 4);
    assert_eq!(count_average(&stats, Stat::AvgOrderPickupTime), 3);
    add_avg_complete(&mut stats, -3);
    add_avg_complete(&mut stats, -4);
    assert_eq!(count_average(&stats, Stat::AvgOrderCompleteTime), -3);
}

#[test]
fn the_mean_of_the_largest_samples_does_not_overflow() {
    let mut stats = Statistics::new();
    for _ in 0..5 {
        add_avg_pickup(&mut stats, i64::MAX);
        add_avg_complete(&mut stats, i64::MIN);
    }
    assert_eq!(count_average(&stats, Stat::AvgOrderPickupTime), i64::MAX);
    assert_eq!(count_average(&stats, Stat::AvgOrderCompleteTime), i64::MIN);
    add_avg_pickup(&mut stats, i64::MIN);
    assert_eq!(
        count_average(&stats, Stat::AvgOrderPickupTime),
        ((5 * i64::MAX as i128 + i64::MIN as i128) / 6) as i64
    );
}

#[test]
fn saving_takes_the_averages_and_writes_the_statements() {
    let mut stats = Statistics::new();
    add_avg_pickup(&mut stats, 120);
    add_avg_pickup(&mut stats, 180);
    add_avg_complete(&mut stats, -7);
    let sql = save_status(&mut stats);
    assert_eq!(
        sql,
        "UPDATE stat SET int_val=150 WHERE UPPER(name)=UPPER('AvgOrderPickupTime');\
         UPDATE stat SET int_val=-7 WHERE UPPER(name)=UPPER('AvgOrderCompleteTime');"
    );
    assert_eq!(stats.get_val(Stat::AvgOrderPickupTime), 150);
    assert_eq!(stats.get_val(Stat::AvgOrderCompleteTime), -7);
    assert_eq!(stats.sample_count(Stat::AvgOrderPickupTime), 2);
    assert_eq!(stats.sample_count(Stat::AvgOrderCompleteTime), 1);
    let again = save_status(&mut stats);
    assert_eq!(again, sql);
}

#[test]
fn saving_nothing_writes_zeros() {
    let mut stats = Statistics::new();
    assert_eq!(
        save_status(&mut stats),
        "UPDATE stat SET int_val=0 WHERE UPPER(name)=UPPER('AvgOrderPickupTime');\
         UPDATE stat SET int_val=0 WHERE UPPER(name)=UPPER('AvgOrderCompleteTime');"
    );
}

#[test]
fn the_figures_in_their_order_and_by_name() {
    assert_eq!(Stat::iterator(), vec![Stat::AvgOrderPickupTime, Stat::AvgOrderCompleteTime]);
    assert_eq!(Stat::AvgOrderPickupTime.name(), "AvgOrderPickupTime");
    assert_eq!(Stat::AvgOrderCompleteTime.name(), "AvgOrderCompleteTime");
    for s in Stat::iterator() {
        assert_eq!(s.name(), format!("{:?}", s));
    }
}
