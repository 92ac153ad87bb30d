//! Instants of local wall-clock time and the whole seconds between them.

use vstd::prelude::*;

verus! {

/// Nanoseconds in one second.
pub const NANOS_PER_SECOND: u32 = 1_000_000_000;

/// Seconds from the epoch to 0001-01-01T00:00:00, the earliest instant held.
pub const MIN_SECONDS: i64 = -62_135_596_800;

/// Seconds from the epoch to 9999-12-31T23:59:59, the latest second held.
pub const MAX_SECONDS: i64 = 253_402_300_799;

/// Seconds in one minute.
pub const SECONDS_PER_MINUTE: i64 = 60;

/// A date and time without a time zone, as the store keeps it: seconds since
/// 1970-01-01T00:00:00 and the nanoseconds into that second.
#[derive(Debug, Copy, Clone, PartialEq, Eq)]
pub struct Timestamp {
    secs: i64,
    nanos: u32,
}

/// Whether a pair of seconds and nanoseconds names an instant that a
/// `Timestamp` can hold.
pub open spec fn in_range(secs: int, nanos: int) -> bool {
    MIN_SECONDS <= secs <= MAX_SECONDS && 0 <= nanos < NANOS_PER_SECOND
}

/// The quotient of `a` by a positive `b`, rounded toward zero.
pub open spec fn trunc_div(a: int, b: int) -> int
    recommends
        b > 0,
{
    if a >= 0 {
        a / b
    } else {
        -((-a) / b)
    }
}

/// Whole seconds from `earlier` to `later`, both in nanoseconds since the
/// epoch; negative when `later` comes first.
pub open spec fn whole_seconds_between(later: int, earlier: int) -> int {
    trunc_div(later - earlier, NANOS_PER_SECOND as int)
}

/// Whole minutes in a number of seconds, rounded toward zero.
pub open spec fn whole_minutes(seconds: int) -> int {
    trunc_div(seconds, SECONDS_PER_MINUTE as int)
}

/// What `get_elapsed` answers at `now` for a recorded instant.
pub open spec fn elapsed_seconds(val: Option<Timestamp>, now: Timestamp) -> int {
    match val {
        Some(t) => whole_seconds_between(now@, t@),
        None => -1,
    }
}

impl View for Timestamp {
    type V = int;

    /// Nanoseconds since the epoch.
    open spec fn view(&self) -> int {
        self.spec_seconds() * 1_000_000_000 + self.spec_subsec_nanos()
    }
}

impl Timestamp {
    #[verifier::type_invariant]
    spec fn holds_an_instant(self) -> bool {
        in_range(self.secs as int, self.nanos as int)
    }

    /// The seconds since the epoch.
    pub closed spec fn spec_seconds(self) -> int {
        self.secs as int
    }

    /// The nanoseconds into the second.
    pub closed spec fn spec_subsec_nanos(self) -> int {
        self.nanos as int
    }

    /// The instant `secs` seconds and `nanos` nanoseconds after the epoch, if
    /// it lies between the years 1 and 9999 and `nanos` is less than a second.
    pub fn new(secs: i64, nanos: u32) -> (t: Option<Timestamp>)
        ensures
            t is Some <==> in_range(secs as int, nanos as int),
            t matches Some(v) ==> v.spec_seconds() == secs && v.spec_subsec_nanos() == nanos,
    {
        if MIN_SECONDS <= secs && secs <= MAX_SECONDS && nanos < NANOS_PER_SECOND {
            Some(Timestamp { secs, nanos })
        } else {
            None
        }
    }

    /// The instant nearest to the given parts that a `Timestamp` can hold.
    pub fn clamped(secs: i64, nanos: u32) -> (t: Timestamp)
        ensures
            t.spec_seconds() == if secs < MIN_SECONDS {
                MIN_SECONDS as int
            } else if secs > MAX_SECONDS {
                MAX_SECONDS as int
            } else {
                secs as int
            },
            t.spec_subsec_nanos() == if nanos >= NANOS_PER_SECOND {
                NANOS_PER_SECOND - 1
            } else {
                nanos as int
            },
    {
        let s: i64 = if secs < MIN_SECONDS {
            MIN_SECONDS
        } else if secs > MAX_SECONDS {
            MAX_SECONDS
        } else {
            secs
        };
        let n: u32 = if nanos >= NANOS_PER_SECOND {
            NANOS_PER_SECOND - 1
        } else {
            nanos
        };
        Timestamp { secs: s, nanos: n }
    }

    /// The seconds since the epoch.
    pub fn seconds(&self) -> (s: i64)
        ensures
            s == self.spec_seconds(),
            MIN_SECONDS <= s <= MAX_SECONDS,
    {
        proof {
            use_type_invariant(self);
        }
        self.secs
    }

    /// The nanoseconds into the second.
    pub fn subsec_nanos(&self) -> (n: u32)
        ensures
            n == self.spec_subsec_nanos(),
            n < NANOS_PER_SECOND,
    {
        proof {
            use_type_invariant(self);
        }
        self.nanos
    }

    /// Whole seconds from `earlier` to this instant, rounded toward zero.
    pub fn seconds_since(&self, earlier: &Timestamp) -> (s: i64)
        ensures
            s == whole_seconds_between(self@, earlier@),
            MIN_SECONDS - MAX_SECONDS <= s <= MAX_SECONDS - MIN_SECONDS,
    {
        proof {
            use_type_invariant(self);
            use_type_invariant(earlier);
            lemma_whole_seconds(
                self.secs as int,
                self.nanos as int,
                earlier.secs as int,
                earlier.nanos as int,
            );
        }
        let whole: i64 = self.secs - earlier.secs;
        if whole > 0 && self.nanos < earlier.nanos {
            whole - 1
        } else if whole < 0 && self.nanos > earlier.nanos {
            whole + 1
        } else {
            whole
        }
    }
}

/// Reads the machine's clock through `chrono::Local::now` and hands back the
/// local date and time as seconds since the epoch and nanoseconds into the
/// second (`DateTime::naive_local`, `DateTime::timestamp`,
/// `DateTime::timestamp_subsec_nanos`). Nothing is claimed of the reading.
/// `chrono` gives up on a clock that stands before 1970.
#[verifier::external_body]
fn read_local_clock() -> (parts: (i64, u32)) {
    let now = chrono::Local::now().naive_local().and_utc();
    (now.timestamp(), now.timestamp_subsec_nanos())
}

/// The current local date and time, brought into the range that a
/// `Timestamp` holds.
pub fn local_now() -> (now: Timestamp)
    ensures
        in_range(now.spec_seconds(), now.spec_subsec_nanos()),
{
    let (secs, nanos) = read_local_clock();
    Timestamp::clamped(secs, nanos)
}

/// Rounding the nanosecond difference of two instants toward zero gives the
/// difference of their seconds, corrected by one where the fractions pull the
/// other way.
pub proof fn lemma_whole_seconds(s1: int, n1: int, s0: int, n0: int)
    requires
        0 <= n1 < 1_000_000_000,
        0 <= n0 < 1_000_000_000,
    ensures
        whole_seconds_between(s1 * 1_000_000_000 + n1, s0 * 1_000_000_000 + n0) == if s1 - s0 > 0
            && n1 < n0 {
            s1 - s0 - 1
        } else if s1 - s0 < 0 && n1 > n0 {
            s1 - s0 + 1
        } else {
            s1 - s0
        },
{
    let d = s1 - s0;
    let f = n1 - n0;
    let total = (s1 * 1_000_000_000 + n1) - (s0 * 1_000_000_000 + n0);
    assert(total == d * 1_000_000_000 + f) by (nonlinear_arith)
        requires
            total == (s1 * 1_000_000_000 + n1) - (s0 * 1_000_000_000 + n0),
            d == s1 - s0,
            f == n1 - n0,
    ;
    if d > 0 && f < 0 {
        assert(total == (d - 1) * 1_000_000_000 + (f + 1_000_000_000)) by (nonlinear_arith)
            requires
                total == d * 1_000_000_000 + f,
        ;
        lemma_quotient(total, d - 1, f + 1_000_000_000);
    } else if d < 0 && f > 0 {
        assert(-total == (-d - 1) * 1_000_000_000 + (1_000_000_000 - f)) by (nonlinear_arith)
            requires
                total == d * 1_000_000_000 + f,
        ;
        lemma_quotient(-total, -d - 1, 1_000_000_000 - f);
    } else if d >= 0 && f >= 0 {
        lemma_quotient(total, d, f);
    } else {
        assert(-total == (-d) * 1_000_000_000 + (-f)) by (nonlinear_arith)
            requires
                total == d * 1_000_000_000 + f,
        ;
        lemma_quotient(-total, -d, -f);
    }
}

/// Rounding toward zero keeps the order of what is divided.
pub proof fn lemma_trunc_div_ordered(a: int, b: int, d: int)
    requires
        a <= b,
        d > 0,
    ensures
        trunc_div(a, d) <= trunc_div(b, d),
{
    if a >= 0 {
        vstd::arithmetic::div_mod::lemma_div_is_ordered(a, b, d);
    } else if b < 0 {
        vstd::arithmetic::div_mod::lemma_div_is_ordered(-b, -a, d);
    } else {
        vstd::arithmetic::div_mod::lemma_div_is_ordered(0, -a, d);
        vstd::arithmetic::div_mod::lemma_div_is_ordered(0, b, d);
    }
}

/// A number written as `q` billions and a remainder below one billion has
/// quotient `q`.
proof fn lemma_quotient(x: int, q: int, r: int)
    requires
        x == q * 1_000_000_000 + r,
        0 <= r < 1_000_000_000,
    ensures
        x / 1_000_000_000 == q,
{
    vstd::arithmetic::div_mod::lemma_fundamental_div_mod_converse(x, 1_000_000_000, q, r);
}

} // verus!
