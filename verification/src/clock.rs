//! Points in time, and the age of a package in whole days.

use time::format_description::well_known::Rfc3339;
use time::OffsetDateTime;
use vstd::prelude::*;

verus! {

/// A point in time: seconds since the Unix epoch, and nanoseconds on top.
#[derive(Debug, Clone, Copy, PartialEq, Eq, Structural)]
pub struct Timestamp {
    pub secs: i64,
    pub nanos: u32,
}

/// The nanoseconds of one day.
pub const DAY_NANOS: i128 = 86_400_000_000_000;

/// The nanoseconds of one second.
pub const SECOND_NANOS: i128 = 1_000_000_000;

impl View for Timestamp {
    type V = int;

    /// Nanoseconds since the Unix epoch.
    open spec fn view(&self) -> int {
        self.secs * SECOND_NANOS + self.nanos
    }
}

/// The point in time that an RFC 3339 text denotes, as seconds since the Unix
/// epoch and nanoseconds on top; nothing where the text is no such date.
pub uninterp spec fn rfc3339_instant(s: Seq<char>) -> Option<(i64, u32)>;

/// `time::OffsetDateTime::parse` with the RFC 3339 format: the point in time
/// that the text denotes, or nothing where it does not parse. That the outcome
/// depends on the text alone is claimed, and that the nanoseconds stay below one
/// second.
#[verifier::external_body]
fn parse_rfc3339(s: &str) -> (r: Option<(i64, u32)>)
    ensures
        r == rfc3339_instant(s@),
        r matches Some(t) ==> t.1 < 1_000_000_000,
{
    match OffsetDateTime::parse(s, &Rfc3339) {
        Ok(t) => Some((t.unix_timestamp(), t.nanosecond())),
        Err(_) => None,
    }
}

/// `time::OffsetDateTime::now_utc`: the point in time at which it is called. It
/// is read off the machine's clock; that the nanoseconds stay below one second
/// is all that is claimed.
#[verifier::external_body]
fn now_utc() -> (r: (i64, u32))
    ensures
        r.1 < 1_000_000_000,
{
    let t = OffsetDateTime::now_utc();
    (t.unix_timestamp(), t.nanosecond())
}

impl Timestamp {
    /// The current time.
    pub fn now() -> (r: Timestamp)
        ensures
            r.nanos < 1_000_000_000,
    {
        let t = now_utc();
        Timestamp { secs: t.0, nanos: t.1 }
    }

    /// The point in time that an RFC 3339 text denotes.
    pub fn parse(s: &str) -> (r: Option<Timestamp>)
        ensures
            r == timestamp_of(s@),
            r is Some <==> rfc3339_instant(s@) is Some,
            r matches Some(t) ==> rfc3339_instant(s@) == Some((t.secs, t.nanos)),
            r matches Some(t) ==> t.nanos < 1_000_000_000,
    {
        match parse_rfc3339(s) {
            Some(t) => Some(Timestamp { secs: t.0, nanos: t.1 }),
            None => None,
        }
    }
}

/// The point in time that an RFC 3339 text denotes.
pub open spec fn timestamp_of(s: Seq<char>) -> Option<Timestamp> {
    match rfc3339_instant(s) {
        Some(t) => Some(Timestamp { secs: t.0, nanos: t.1 }),
        None => None,
    }
}

/// Whether one point in time, where known, comes after another. A known one comes
/// after an unknown one.
pub open spec fn comes_after(a: Option<Timestamp>, b: Option<Timestamp>) -> bool {
    match (a, b) {
        (Some(x), Some(y)) => x@ > y@,
        (Some(_), None) => true,
        (None, _) => false,
    }
}

fn is_after(a: &Option<Timestamp>, b: &Option<Timestamp>) -> (r: bool)
    ensures
        r == comes_after(*a, *b),
{
    match (a, b) {
        (Some(x), Some(y)) => {
            let left: i128 = x.secs as i128 * SECOND_NANOS + x.nanos as i128;
            let right: i128 = y.secs as i128 * SECOND_NANOS + y.nanos as i128;
            left > right
        },
        (Some(_), None) => true,
        (None, _) => false,
    }
}

/// Whether the point in time at a place is the latest: none comes after it, and
/// it comes after all that are listed before it.
pub open spec fn is_latest(times: Seq<Option<Timestamp>>, at: int) -> bool {
    &&& 0 <= at < times.len()
    &&& forall|i: int| 0 <= i < times.len() ==> !comes_after(#[trigger] times[i], times[at])
    &&& forall|i: int| 0 <= i < at ==> comes_after(times[at], #[trigger] times[i])
}

/// The place of the latest point in time. A list with any has exactly one.
pub open spec fn latest(times: Seq<Option<Timestamp>>) -> int {
    choose|at: int| is_latest(times, at)
}

/// The place of the latest point in time; nothing where the list is empty.
pub fn latest_at(times: &Vec<Option<Timestamp>>) -> (r: Option<usize>)
    ensures
        match r {
            Some(at) => is_latest(times@, at as int),
            None => times.len() == 0,
        },
{
    if times.len() == 0 {
        return None;
    }
    let mut at: usize = 0;
    let mut i: usize = 1;
    while i < times.len()
        invariant
            0 <= at < i <= times.len(),
            forall|k: int| 0 <= k < i ==> !comes_after(#[trigger] times@[k], times@[at as int]),
            forall|k: int| 0 <= k < at ==> comes_after(times@[at as int], #[trigger] times@[k]),
        decreases times.len() - i,
    {
        if is_after(&times[i], &times[at]) {
            at = i;
        }
        i += 1;
    }
    Some(at)
}

/// The whole days from `earlier` to `later`, rounded towards zero; negative
/// where `later` comes first.
pub open spec fn whole_days(later: Timestamp, earlier: Timestamp) -> int {
    let d = later@ - earlier@;
    if d >= 0 {
        d / (DAY_NANOS as int)
    } else {
        -((-d) / (DAY_NANOS as int))
    }
}

/// The whole days from `earlier` to `later`, rounded towards zero.
pub fn days_between(later: Timestamp, earlier: Timestamp) -> (r: i64)
    ensures
        r == whole_days(later, earlier),
        ({
            let n = (later.secs - earlier.secs) * 1_000_000_000 + (later.nanos - earlier.nanos);
            &&& n >= 0 ==> r * 86_400_000_000_000 <= n < (r + 1) * 86_400_000_000_000
            &&& n < 0 ==> (r - 1) * 86_400_000_000_000 < n <= r * 86_400_000_000_000
        }),
{
    let d: i128 = (later.secs as i128 - earlier.secs as i128) * SECOND_NANOS + (later.nanos as i128
        - earlier.nanos as i128);
    assert(d == later@ - earlier@);
    if d >= 0 {
        (d as u128 / DAY_NANOS as u128) as i64
    } else {
        -((((-d) as u128) / DAY_NANOS as u128) as i64)
    }
}

/// How many whole days ago a package was updated, where its date is known.
pub open spec fn age_in_days(updated_at: Option<Seq<char>>, now: Timestamp) -> Option<int> {
    match updated_at {
        Some(s) => match timestamp_of(s) {
            Some(t) => Some(whole_days(now, t)),
            None => None,
        },
        None => None,
    }
}

/// How many whole days before `now` the date lies, where it is an RFC 3339 date.
pub fn days_since(updated_at: &Option<String>, now: Timestamp) -> (r: Option<i64>)
    ensures
        (match r {
            Some(d) => Some(d as int),
            None => None,
        }) == age_in_days(updated_at.deep_view(), now),
{
    match updated_at {
        Some(s) => match Timestamp::parse(s) {
            Some(t) => Some(days_between(now, t)),
            None => None,
        },
        None => None,
    }
}

/// A number of days in months of 30.4 days, rounded to the nearest month, and
/// to the even one of two that are equally near.
pub open spec fn months_of(days: nat) -> nat {
    let q = days * 5 / 152;
    let r = days * 5 % 152;
    if r < 76 || (r == 76 && q % 2 == 0) {
        q
    } else {
        q + 1
    }
}

/// A number of days in months of 30.4 days, rounded to the nearest month.
pub fn whole_months(days: u64) -> (r: u64)
    ensures
        r == months_of(days as nat),
{
    let n: u128 = days as u128 * 5;
    let q: u128 = n / 152;
    let r: u128 = n % 152;
    if r < 76 || (r == 76 && q % 2 == 0) {
        q as u64
    } else {
        (q + 1) as u64
    }
}

// --- Laws ------------------------------------------------------------------

/// Of two places, at most one is that of the latest point in time.
pub proof fn law_latest_is_unique(times: Seq<Option<Timestamp>>, at: int)
    requires
        is_latest(times, at),
    ensures
        latest(times) == at,
{
    let other = latest(times);
    assert(is_latest(times, other));
    if other < at {
        assert(comes_after(times[at], times[other]));
    } else if at < other {
        assert(comes_after(times[other], times[at]));
    }
}

/// A list that is not empty has a latest point in time.
pub proof fn law_latest_exists(times: Seq<Option<Timestamp>>)
    requires
        times.len() > 0,
    ensures
        is_latest(times, latest(times)),
    decreases times.len(),
{
    let n = times.len() - 1;
    if n == 0 {
        assert(is_latest(times, 0));
    } else {
        let fewer = times.drop_last();
        law_latest_exists(fewer);
        let best = latest(fewer);
        assert forall|i: int| 0 <= i < n implies #[trigger] times[i] == fewer[i] by {}
        if comes_after(times[n], times[best]) {
            assert forall|i: int| 0 <= i < n implies comes_after(times[n], #[trigger] times[i]) by {
                assert(!comes_after(fewer[i], fewer[best]));
            }
            assert(is_latest(times, n));
        } else {
            assert(is_latest(times, best));
        }
    }
}

} // verus!
