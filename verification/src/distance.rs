//! The travel-time index: minutes between every pair of stops.

use crate::model::{ServiceError, Stop};
use vstd::prelude::*;

verus! {

/// The speed at which a cab is taken to travel, in km/h.
pub const CAB_SPEED: i16 = 30;

/// The shortest transfer between two different stops, in minutes.
pub const MIN_TRANSFER: i32 = 1;

/// Two to the power of 63: what the sign bit of a double is worth.
pub const SIGN_BIT: u64 = 0x8000_0000_0000_0000;

/// The bit pattern of positive infinity.
pub const INFINITY_BITS: u64 = 0x7ff0_0000_0000_0000;

/// Whether the bit pattern of a double stands for no number: without its
/// sign it lies above that of infinity.
pub open spec fn spec_is_nan(bits: u64) -> bool {
    bits % SIGN_BIT > INFINITY_BITS
}

/// Whether the bit pattern of a double stands for no number.
pub fn is_nan(bits: u64) -> (nan: bool)
    ensures
        nan == spec_is_nan(bits),
{
    bits % SIGN_BIT > INFINITY_BITS
}

/// The ids of a list of stops, in order.
pub open spec fn stop_ids(stops: Seq<Stop>) -> Seq<i64> {
    Seq::new(stops.len(), |i: int| stops[i].id)
}

/// Whether both coordinates of a stop are numbers.
pub open spec fn is_placed(stop: Stop) -> bool {
    !spec_is_nan(stop.latitude) && !spec_is_nan(stop.longitude)
}

/// Whether every stop has numbers for coordinates.
pub open spec fn coordinates_are_numbers(stops: Seq<Stop>) -> bool {
    forall|i: int| 0 <= i < stops.len() ==> is_placed(#[trigger] stops[i])
}

/// Whether a table of measured travel times has a row for every stop and in
/// every row an entry for every stop.
pub open spec fn is_square(measured: Seq<Vec<i32>>, n: nat) -> bool {
    measured.len() == n && forall|i: int| 0 <= i < n ==> (#[trigger] measured[i])@.len() == n
}

/// Whether no measured travel time from a stop to a later stop is negative.
pub open spec fn no_negative_time(measured: Seq<Vec<i32>>, n: nat) -> bool {
    forall|i: int, j: int| 0 <= i < j < n ==> #[trigger] measured[i]@[j] >= 0
}

/// What a registry of stops and a table of measured travel times must meet
/// for an index to be built from them.
pub open spec fn can_build(stops: Seq<Stop>, measured: Seq<Vec<i32>>) -> bool {
    &&& coordinates_are_numbers(stops)
    &&& stop_ids(stops).no_duplicates()
    &&& is_square(measured, stops.len())
    &&& no_negative_time(measured, stops.len())
}

/// The minutes that the index holds for a measured travel time between two
/// different stops: a transfer takes at least one minute.
pub open spec fn at_least_a_minute(measured: int) -> int {
    if measured < MIN_TRANSFER {
        MIN_TRANSFER as int
    } else {
        measured
    }
}

/// The minutes that an index built from `measured` holds at row `i`, column
/// `j`.
pub open spec fn entry_of(measured: Seq<Vec<i32>>, i: int, j: int) -> int {
    if i == j {
        0
    } else if i < j {
        at_least_a_minute(measured[i]@[j] as int)
    } else {
        at_least_a_minute(measured[j]@[i] as int)
    }
}

/// Travel minutes between every pair of stops of a registry. Built once,
/// read-only afterwards.
pub struct DistanceIndex {
    ids: Vec<i64>,
    rows: Vec<Vec<i32>>,
}

impl DistanceIndex {
    /// The ids of the stops that the index covers, in the order of the
    /// registry it was built from.
    pub closed spec fn ids(&self) -> Seq<i64> {
        self.ids@
    }

    /// The minutes at row `i`, column `j`.
    pub closed spec fn at(&self, i: int, j: int) -> int {
        self.rows@[i]@[j] as int
    }

    /// Whether the index covers the stop `id`.
    pub open spec fn knows(&self, id: i64) -> bool {
        self.ids().contains(id)
    }

    /// The row and column of the stop `id`.
    pub open spec fn position(&self, id: i64) -> int {
        self.ids().index_of(id)
    }

    /// Travel minutes from stop `a` to stop `b`.
    pub open spec fn minutes(&self, a: i64, b: i64) -> int {
        self.at(self.position(a), self.position(b))
    }

    /// The index is a square table over stops with distinct ids, the same in
    /// both directions, zero from a stop to itself and at least a minute
    /// between different stops.
    pub closed spec fn wf(&self) -> bool {
        &&& self.ids@.no_duplicates()
        &&& self.rows@.len() == self.ids@.len()
        &&& forall|i: int|
            0 <= i < self.rows@.len() ==> (#[trigger] self.rows@[i])@.len() == self.ids@.len()
        &&& forall|i: int| 0 <= i < self.ids@.len() ==> (#[trigger] self.rows@[i])@[i] == 0
        &&& forall|i: int, j: int|
            0 <= i < self.ids@.len() && 0 <= j < self.ids@.len() ==> #[trigger] self.rows@[i]@[j]
                == self.rows@[j]@[i]
        &&& forall|i: int, j: int|
            0 <= i < self.ids@.len() && 0 <= j < self.ids@.len() && i != j
                ==> #[trigger] self.rows@[i]@[j] >= MIN_TRANSFER
    }

    #[verifier::type_invariant]
    spec fn is_built(&self) -> bool {
        self.wf()
    }

    /// The number of stops that the index covers.
    pub fn len(&self) -> (n: usize)
        ensures
            self.wf(),
            n == self.ids().len(),
    {
        proof {
            use_type_invariant(self);
        }
        self.ids.len()
    }

    /// Where the stop `id` stands in the index, if it covers it.
    fn find(&self, id: i64) -> (p: Option<usize>)
        ensures
            self.wf(),
            p is Some <==> self.knows(id),
            p matches Some(i) ==> i < self.ids().len() && i == self.position(id),
    {
        proof {
            use_type_invariant(self);
        }
        let mut i: usize = 0;
        while i < self.ids.len()
            invariant
                self.wf(),
                i <= self.ids@.len(),
                forall|k: int| 0 <= k < i ==> self.ids@[k] != id,
            decreases self.ids@.len() - i,
        {
            if self.ids[i] == id {
                proof {
                    let q = self.ids@.index_of(id);
                    assert(self.ids@[i as int] == id);
                    assert(self.ids@.contains(id));
                    assert(0 <= q < self.ids@.len() && self.ids@[q] == id);
                }
                return Some(i);
            }
            i += 1;
        }
        None
    }

    /// Travel minutes from stop `from` to stop `to`; `None` where the index
    /// does not cover one of them.
    pub fn lookup(&self, from: i64, to: i64) -> (m: Option<i32>)
        ensures
            self.wf(),
            m is Some <==> self.knows(from) && self.knows(to),
            m matches Some(v) ==> v == self.minutes(from, to),
    {
        match self.find(from) {
            None => None,
            Some(i) => match self.find(to) {
                None => None,
                Some(j) => Some(self.rows[i][j]),
            },
        }
    }

    /// The index holds the same minutes in both directions, and none from a
    /// stop to itself.
    pub proof fn lemma_symmetric(&self, a: i64, b: i64)
        requires
            self.wf(),
            self.knows(a),
            self.knows(b),
        ensures
            self.minutes(a, b) == self.minutes(b, a),
            self.minutes(a, a) == 0,
    {
        let i = self.position(a);
        let j = self.position(b);
        assert(0 <= i < self.ids@.len() && self.ids@[i] == a);
        assert(0 <= j < self.ids@.len() && self.ids@[j] == b);
        assert(self.rows@[i]@[j] == self.rows@[j]@[i]);
    }

    /// Between two different stops the index holds at least one minute.
    pub proof fn lemma_at_least_a_minute(&self, a: i64, b: i64)
        requires
            self.wf(),
            self.knows(a),
            self.knows(b),
            a != b,
        ensures
            self.minutes(a, b) >= 1,
    {
        let i = self.position(a);
        let j = self.position(b);
        assert(0 <= i < self.ids@.len() && self.ids@[i] == a);
        assert(0 <= j < self.ids@.len() && self.ids@[j] == b);
        assert(self.rows@[i]@[j] >= MIN_TRANSFER);
    }
}

/// Whether some stop has a coordinate that is not a number.
fn has_malformed_coordinate(stops: &Vec<Stop>) -> (bad: bool)
    ensures
        bad == !coordinates_are_numbers(stops@),
{
    let mut i: usize = 0;
    while i < stops.len()
        invariant
            i <= stops@.len(),
            forall|k: int| 0 <= k < i ==> is_placed(#[trigger] stops@[k]),
        decreases stops@.len() - i,
    {
        if is_nan(stops[i].latitude) || is_nan(stops[i].longitude) {
            assert(!is_placed(stops@[i as int]));
            return true;
        }
        i += 1;
    }
    false
}

/// Whether two stops share an id.
fn has_repeated_id(stops: &Vec<Stop>) -> (bad: bool)
    ensures
        bad == !stop_ids(stops@).no_duplicates(),
{
    let ghost ids = stop_ids(stops@);
    let mut i: usize = 0;
    while i < stops.len()
        invariant
            i <= stops@.len(),
            ids == stop_ids(stops@),
            forall|a: int, b: int| 0 <= a < b < stops@.len() && a < i ==> ids[a] != ids[b],
        decreases stops@.len() - i,
    {
        let mut j: usize = i + 1;
        while j < stops.len()
            invariant
                i < stops@.len(),
                i < j <= stops@.len(),
                ids == stop_ids(stops@),
                forall|b: int| i < b < j ==> ids[i as int] != ids[b],
            decreases stops@.len() - j,
        {
            if stops[i].id == stops[j].id {
                assert(ids[i as int] == ids[j as int]);
                return true;
            }
            j += 1;
        }
        i += 1;
    }
    assert forall|a: int, b: int| 0 <= a < ids.len() && 0 <= b < ids.len() && a != b implies ids[a]
        != ids[b] by {
        if a < b {
            assert(ids[a] != ids[b]);
        } else {
            assert(ids[b] != ids[a]);
        }
    }
    false
}

/// Whether the table of measured times lacks a row or an entry, or holds a
/// negative time from a stop to a later one.
fn has_malformed_time(measured: &Vec<Vec<i32>>, n: usize) -> (bad: bool)
    ensures
        bad == !(is_square(measured@, n as nat) && no_negative_time(measured@, n as nat)),
{
    if measured.len() != n {
        return true;
    }
    let mut i: usize = 0;
    while i < n
        invariant
            i <= n,
            measured@.len() == n,
            forall|k: int| 0 <= k < i ==> (#[trigger] measured@[k])@.len() == n,
            forall|a: int, b: int| 0 <= a < b < n && a < i ==> #[trigger] measured@[a]@[b] >= 0,
        decreases n - i,
    {
        if measured[i].len() != n {
            return true;
        }
        let mut j: usize = i + 1;
        while j < n
            invariant
                i < n,
                i < j <= n,
                measured@.len() == n,
                measured@[i as int]@.len() == n,
                forall|b: int| i < b < j ==> #[trigger] measured@[i as int]@[b] >= 0,
            decreases n - j,
        {
            if measured[i][j] < 0 {
                return true;
            }
            j += 1;
        }
        i += 1;
    }
    false
}

/// Builds the travel-time index of a registry of stops.
///
/// `measured[i][j]`, for `i < j`, is the travel time in whole minutes between
/// the stops `i` and `j` of the registry, as measured over the great circle
/// at `CAB_SPEED`; the rest of the table is not read. The index holds every
/// measured time in both directions, raised to one minute where it is less,
/// and zero from each stop to itself.
///
/// A coordinate that is not a number, an id that occurs twice, a table that
/// is not square over the registry and a negative time are refused.
pub fn init_distance(stops: &Vec<Stop>, measured: &Vec<Vec<i32>>) -> (built: Result<
    DistanceIndex,
    ServiceError,
>)
    ensures
        built is Ok <==> can_build(stops@, measured@),
        built matches Err(e) ==> e == ServiceError::DataFault,
        built matches Ok(index) ==> {
            &&& index.wf()
            &&& index.ids() == stop_ids(stops@)
            &&& forall|i: int, j: int|
                0 <= i < stops@.len() && 0 <= j < stops@.len() ==> #[trigger] index.at(i, j)
                    == entry_of(measured@, i, j)
        },
{
    let n = stops.len();
    if has_malformed_coordinate(stops) || has_repeated_id(stops) || has_malformed_time(
        measured,
        n,
    ) {
        return Err(ServiceError::DataFault);
    }
    let mut ids: Vec<i64> = Vec::new();
    let mut rows: Vec<Vec<i32>> = Vec::new();
    let mut i: usize = 0;
    while i < n
        invariant
            i <= n,
            n == stops@.len(),
            is_square(measured@, n as nat),
            no_negative_time(measured@, n as nat),
            ids@.len() == i,
            rows@.len() == i,
            forall|k: int| 0 <= k < i ==> ids@[k] == stops@[k].id,
            forall|k: int| 0 <= k < i ==> (#[trigger] rows@[k])@.len() == n,
            forall|a: int, b: int|
                0 <= a < i && 0 <= b < n ==> #[trigger] rows@[a]@[b] == entry_of(measured@, a, b),
        decreases n - i,
    {
        let mut row: Vec<i32> = Vec::new();
        let mut j: usize = 0;
        while j < n
            invariant
                i < n,
                j <= n,
                is_square(measured@, n as nat),
                row@.len() == j,
                forall|b: int|
                    0 <= b < j ==> #[trigger] row@[b] == entry_of(measured@, i as int, b),
            decreases n - j,
        {
            let value: i32 = if i == j {
                0
            } else {
                let seen: i32 = if i < j {
                    measured[i][j]
                } else {
                    measured[j][i]
                };
                if seen < MIN_TRANSFER {
                    MIN_TRANSFER
                } else {
                    seen
                }
            };
            row.push(value);
            j += 1;
        }
        ids.push(stops[i].id);
        rows.push(row);
        i += 1;
    }
    proof {
        assert(ids@ =~= stop_ids(stops@));
        assert forall|a: int, b: int| 0 <= a < n && 0 <= b < n implies #[trigger] rows@[a]@[b]
            == rows@[b]@[a] by {
            assert(rows@[a]@[b] == entry_of(measured@, a, b));
            assert(rows@[b]@[a] == entry_of(measured@, b, a));
        }
        assert forall|a: int, b: int|
            0 <= a < n && 0 <= b < n && a != b implies #[trigger] rows@[a]@[b] >= MIN_TRANSFER by {
            assert(rows@[a]@[b] == entry_of(measured@, a, b));
        }
        assert forall|a: int| 0 <= a < n implies (#[trigger] rows@[a])@[a] == 0 by {
            assert(rows@[a]@[a] == entry_of(measured@, a, a));
        }
    }
    Ok(DistanceIndex { ids, rows })
}

} // verus!
