//! Rolling statistics: the latencies reported by order transitions and
//! their averages.

use crate::text::{decimal, decimal_text};
use crate::time::trunc_div;
use vstd::prelude::*;
use vstd::string::StringExecFns;

verus! {

/// The latency reported for an order whose time of receipt is not known; it
/// is not recorded.
pub const NO_LATENCY: i64 = -1;

/// The figures that the service keeps a rolling average of.
#[derive(Debug, Copy, Clone, PartialEq, Eq, Structural)]
pub enum Stat {
    /// Seconds from the receipt of an order to the pick-up.
    AvgOrderPickupTime,
    /// Seconds from the receipt of an order to its completion.
    AvgOrderCompleteTime,
}

impl Stat {
    /// The name under which the figure is stored.
    pub open spec fn spec_name(self) -> Seq<char> {
        match self {
            Stat::AvgOrderPickupTime => "AvgOrderPickupTime"@,
            Stat::AvgOrderCompleteTime => "AvgOrderCompleteTime"@,
        }
    }

    /// Every figure, in the order in which they are stored.
    pub open spec fn all() -> Seq<Stat> {
        seq![Stat::AvgOrderPickupTime, Stat::AvgOrderCompleteTime]
    }

    /// Every figure, in the order in which they are stored.
    pub fn iterator() -> (all: Vec<Stat>)
        ensures
            all@ == Stat::all(),
    {
        let mut all: Vec<Stat> = Vec::new();
        all.push(Stat::AvgOrderPickupTime);
        all.push(Stat::AvgOrderCompleteTime);
        assert(all@ =~= Stat::all());
        all
    }

    /// The name under which the figure is stored.
    pub fn name(&self) -> (s: String)
        ensures
            s@ == self.spec_name(),
    {
        match self {
            Stat::AvgOrderPickupTime => "AvgOrderPickupTime".to_string(),
            Stat::AvgOrderCompleteTime => "AvgOrderCompleteTime".to_string(),
        }
    }
}

/// The sum of the samples.
pub open spec fn sum_of(samples: Seq<i64>) -> int
    decreases samples.len(),
{
    if samples.len() == 0 {
        0
    } else {
        sum_of(samples.drop_last()) + samples.last()
    }
}

/// The arithmetic mean of the samples, rounded toward zero; zero where there
/// is none.
pub open spec fn mean_of(samples: Seq<i64>) -> int {
    if samples.len() == 0 {
        0
    } else {
        trunc_div(sum_of(samples), samples.len() as int)
    }
}

/// The statement that stores `value` under `name`.
pub open spec fn update_statement(value: int, name: Seq<char>) -> Seq<char> {
    "UPDATE stat SET int_val="@ + decimal_text(value) + " WHERE UPPER(name)=UPPER('"@ + name
        + "');"@
}

/// The statements that store the two averages, pick-up first.
pub open spec fn status_statements(pickup: int, complete: int) -> Seq<char> {
    update_statement(pickup, Stat::AvgOrderPickupTime.spec_name()) + update_statement(
        complete,
        Stat::AvgOrderCompleteTime.spec_name(),
    )
}

/// The latencies reported so far, by figure, and the averages last taken of
/// them. Nothing is ever dropped from the samples.
pub struct Statistics {
    pickup_value: i64,
    complete_value: i64,
    pickup_samples: Vec<i64>,
    complete_samples: Vec<i64>,
}

impl Statistics {
    /// The samples recorded for a figure, oldest first.
    pub closed spec fn samples(&self, key: Stat) -> Seq<i64> {
        match key {
            Stat::AvgOrderPickupTime => self.pickup_samples@,
            Stat::AvgOrderCompleteTime => self.complete_samples@,
        }
    }

    /// The value last stored for a figure.
    pub closed spec fn value(&self, key: Stat) -> i64 {
        match key {
            Stat::AvgOrderPickupTime => self.pickup_value,
            Stat::AvgOrderCompleteTime => self.complete_value,
        }
    }

    /// Statistics with no sample and every value at zero.
    pub fn new() -> (stats: Statistics)
        ensures
            forall|key: Stat| #[trigger] stats.samples(key) == Seq::<i64>::empty(),
            forall|key: Stat| #[trigger] stats.value(key) == 0,
    {
        Statistics {
            pickup_value: 0,
            complete_value: 0,
            pickup_samples: Vec::new(),
            complete_samples: Vec::new(),
        }
    }

    /// The value last stored for a figure.
    pub fn get_val(&self, key: Stat) -> (value: i64)
        ensures
            value == self.value(key),
    {
        match key {
            Stat::AvgOrderPickupTime => self.pickup_value,
            Stat::AvgOrderCompleteTime => self.complete_value,
        }
    }

    /// The number of samples recorded for a figure.
    pub fn sample_count(&self, key: Stat) -> (n: usize)
        ensures
            n == self.samples(key).len(),
    {
        match key {
            Stat::AvgOrderPickupTime => self.pickup_samples.len(),
            Stat::AvgOrderCompleteTime => self.complete_samples.len(),
        }
    }
}

/// Stores `value` for the figure `key`; the other value and all samples stay.
pub fn update_val(stats: &mut Statistics, key: Stat, value: i64)
    ensures
        final(stats).value(key) == value,
        forall|other: Stat|
            other != key ==> #[trigger] final(stats).value(other) == old(stats).value(other),
        forall|any: Stat| #[trigger] final(stats).samples(any) == old(stats).samples(any),
{
    match key {
        Stat::AvgOrderPickupTime => {
            stats.pickup_value = value;
        },
        Stat::AvgOrderCompleteTime => {
            stats.complete_value = value;
        },
    }
}

/// Records `time` as the newest sample of the figure `key`; the other
/// samples and all values stay.
pub fn add_avg_element(stats: &mut Statistics, key: Stat, time: i64)
    ensures
        final(stats).samples(key) == old(stats).samples(key).push(time),
        forall|other: Stat|
            other != key ==> #[trigger] final(stats).samples(other) == old(stats).samples(other),
        forall|any: Stat| #[trigger] final(stats).value(any) == old(stats).value(any),
{
    match key {
        Stat::AvgOrderPickupTime => {
            stats.pickup_samples.push(time);
        },
        Stat::AvgOrderCompleteTime => {
            stats.complete_samples.push(time);
        },
    }
}

/// The mean of as many samples as a machine holds lies between the least and
/// the greatest value of a sample.
proof fn lemma_mean_bounds(total: int, n: int)
    requires
        0 < n,
        n * i64::MIN <= total <= n * i64::MAX,
    ensures
        i64::MIN <= trunc_div(total, n) <= i64::MAX,
{
    if total >= 0 {
        assert(total / n <= i64::MAX) by (nonlinear_arith)
            requires
                0 < n,
                0 <= total <= n * i64::MAX,
        ;
        assert(total / n >= 0) by (nonlinear_arith)
            requires
                0 < n,
                0 <= total,
        ;
    } else {
        assert((-total) / n <= -i64::MIN) by (nonlinear_arith)
            requires
                0 < n,
                0 <= -total <= n * (-i64::MIN),
        ;
        assert((-total) / n >= 0) by (nonlinear_arith)
            requires
                0 < n,
                0 <= -total,
        ;
    }
}

/// The sum of samples lies within as many times the range of one sample.
proof fn lemma_sum_bounds(samples: Seq<i64>)
    ensures
        samples.len() * i64::MIN <= sum_of(samples) <= samples.len() * i64::MAX,
    decreases samples.len(),
{
    if samples.len() == 0 {
    } else {
        lemma_sum_bounds(samples.drop_last());
        let n = samples.len() as int;
        assert((n - 1) * i64::MIN + i64::MIN == n * i64::MIN) by (nonlinear_arith);
        assert((n - 1) * i64::MAX + i64::MAX == n * i64::MAX) by (nonlinear_arith);
    }
}

/// The mean of a list of samples, and zero for an empty list.
fn average(samples: &Vec<i64>) -> (mean: i64)
    ensures
        mean == mean_of(samples@),
{
    let n = samples.len();
    if n == 0 {
        return 0;
    }
    let mut total: i128 = 0;
    let mut i: usize = 0;
    assert(samples@.take(0) =~= Seq::<i64>::empty());
    while i < n
        invariant
            i <= n,
            n == samples@.len(),
            total == sum_of(samples@.take(i as int)),
        decreases n - i,
    {
        proof {
            let upto = samples@.take(i as int + 1);
            assert(upto.drop_last() =~= samples@.take(i as int));
            assert(upto.last() == samples@[i as int]);
            lemma_sum_bounds(samples@.take(i as int));
            lemma_sum_bounds(upto);
            assert(upto.len() * i64::MIN >= usize::MAX * i64::MIN) by (nonlinear_arith)
                requires
                    upto.len() <= usize::MAX,
            ;
            assert(upto.len() * i64::MAX <= usize::MAX * i64::MAX) by (nonlinear_arith)
                requires
                    upto.len() <= usize::MAX,
            ;
        }
        total = total + samples[i] as i128;
        i += 1;
    }
    proof {
        assert(samples@.take(n as int) =~= samples@);
        lemma_sum_bounds(samples@);
        lemma_mean_bounds(total as int, n as int);
    }
    let mean: i128 = total / (n as i128);
    mean as i64
}

/// The mean of the samples recorded for the figure `key`, rounded toward
/// zero; zero where none was recorded.
pub fn count_average(stats: &Statistics, key: Stat) -> (mean: i64)
    ensures
        mean == mean_of(stats.samples(key)),
{
    match key {
        Stat::AvgOrderPickupTime => average(&stats.pickup_samples),
        Stat::AvgOrderCompleteTime => average(&stats.complete_samples),
    }
}

/// The statement that stores `value` under the name of the figure `key`.
fn statement(key: Stat, value: i64) -> (sql: String)
    ensures
        sql@ == update_statement(value as int, key.spec_name()),
{
    let mut sql = String::from_str("UPDATE stat SET int_val=");
    let number = decimal(value);
    sql.append(number.as_str());
    sql.append(" WHERE UPPER(name)=UPPER('");
    let name = key.name();
    sql.append(name.as_str());
    sql.append("');");
    sql
}

/// Takes the average of each figure, stores it as the figure's value and
/// gives the statements that write both values to the store. The samples
/// stay as they are.
pub fn save_status(stats: &mut Statistics) -> (sql: String)
    ensures
        forall|key: Stat| #[trigger] final(stats).value(key) == mean_of(old(stats).samples(key)),
        forall|key: Stat| #[trigger] final(stats).samples(key) == old(stats).samples(key),
        sql@ == status_statements(
            mean_of(old(stats).samples(Stat::AvgOrderPickupTime)),
            mean_of(old(stats).samples(Stat::AvgOrderCompleteTime)),
        ),
{
    let pickup = count_average(stats, Stat::AvgOrderPickupTime);
    update_val(stats, Stat::AvgOrderPickupTime, pickup);
    let complete = count_average(stats, Stat::AvgOrderCompleteTime);
    update_val(stats, Stat::AvgOrderCompleteTime, complete);
    let mut sql = statement(Stat::AvgOrderPickupTime, pickup);
    let second = statement(Stat::AvgOrderCompleteTime, complete);
    sql.append(second.as_str());
    sql
}

/// Records the seconds that an order took from receipt to pick-up. The
/// value -1 stands for an order whose time of receipt is not known and is
/// not recorded.
pub fn add_avg_pickup(stats: &mut Statistics, value: i64)
    ensures
        final(stats).samples(Stat::AvgOrderPickupTime) == if value == NO_LATENCY {
            old(stats).samples(Stat::AvgOrderPickupTime)
        } else {
            old(stats).samples(Stat::AvgOrderPickupTime).push(value)
        },
        final(stats).samples(Stat::AvgOrderCompleteTime) == old(stats).samples(
            Stat::AvgOrderCompleteTime,
        ),
        forall|any: Stat| #[trigger] final(stats).value(any) == old(stats).value(any),
{
    if value != NO_LATENCY {
        add_avg_element(stats, Stat::AvgOrderPickupTime, value);
    }
}

/// Records the seconds that an order took from receipt to completion. The
/// value -1 stands for an order whose time of receipt is not known and is
/// not recorded.
pub fn add_avg_complete(stats: &mut Statistics, value: i64)
    ensures
        final(stats).samples(Stat::AvgOrderCompleteTime) == if value == NO_LATENCY {
            old(stats).samples(Stat::AvgOrderCompleteTime)
        } else {
            old(stats).samples(Stat::AvgOrderCompleteTime).push(value)
        },
        final(stats).samples(Stat::AvgOrderPickupTime) == old(stats).samples(
            Stat::AvgOrderPickupTime,
        ),
        forall|any: Stat| #[trigger] final(stats).value(any) == old(stats).value(any),
{
    if value != NO_LATENCY {
        add_avg_element(stats, Stat::AvgOrderCompleteTime, value);
    }
}

} // verus!
