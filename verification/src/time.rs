//! Points in time, to the nanosecond, in UTC.
//!
//! The calendar itself is chrono's business; what the library decides by is
//! which of two moments comes first and how far apart they are.
use vstd::prelude::*;

verus! {

/// The first second of the year -262143, where chrono's calendar begins.
pub const MIN_SECS: i64 = -8334601228800;

/// The last second of the year 262142, where chrono's calendar ends.
pub const MAX_SECS: i64 = 8210266876799;

pub const NANOS_PER_SEC: i128 = 1_000_000_000;

pub const NANOS_PER_MINUTE: i128 = 60_000_000_000;

pub const NANOS_PER_HOUR: i128 = 3_600_000_000_000;

/// A count of nanoseconds since 1970 that the calendar can hold.
pub open spec fn on_calendar(nanos: int) -> bool {
    MIN_SECS * NANOS_PER_SEC <= nanos < (MAX_SECS + 1) * NANOS_PER_SEC
}

/// The text of a UTC day, year-month-day, given a second of that day.
pub uninterp spec fn utc_day(secs: int) -> Seq<char>;

/// chrono's `DateTime::format` with `%Y-%m-%d`, of a moment in UTC. The text
/// is named; what is claimed of it is that two seconds have the same text
/// exactly where they lie in the same day.
#[verifier::external_body]
fn day_text(secs: i64) -> (r: String)
    requires
        MIN_SECS <= secs <= MAX_SECS,
    ensures
        r@ == utc_day(secs as int),
        forall|t: int|
            MIN_SECS <= t <= MAX_SECS ==> ((#[trigger] utc_day(t) == r@) <==> (t / 86_400 == secs
                as int / 86_400)),
{
    chrono::DateTime::from_timestamp(secs, 0).unwrap().format("%Y-%m-%d").to_string()
}

/// The RFC 3339 text of a moment: whole seconds since 1970, and nanoseconds
/// within the second.
pub uninterp spec fn rfc3339(secs: int, nanos: int) -> Seq<char>;

/// chrono's `DateTime::to_rfc3339`, of a moment in UTC.
#[verifier::external_body]
fn rfc3339_text(secs: i64, nanos: u32) -> (r: String)
    requires
        MIN_SECS <= secs <= MAX_SECS,
        nanos < 1_000_000_000,
    ensures
        r@ == rfc3339(secs as int, nanos as int),
{
    chrono::DateTime::from_timestamp(secs, nanos).unwrap().to_rfc3339()
}

/// A moment in UTC. Its view is the number of nanoseconds since 1970.
#[derive(Debug, Clone, Copy, PartialEq, Eq, Structural)]
pub struct Moment {
    secs: i64,
    nanos: u32,
}

impl View for Moment {
    type V = int;

    closed spec fn view(&self) -> int {
        self.secs * NANOS_PER_SEC + self.nanos
    }
}

impl Moment {
    #[verifier::type_invariant]
    spec fn valid(self) -> bool {
        MIN_SECS <= self.secs <= MAX_SECS && self.nanos < 1_000_000_000
    }

    /// The moment `secs` seconds and `nanos` nanoseconds after the start of
    /// 1970, where the calendar has it.
    pub fn new(secs: i64, nanos: u32) -> (r: Option<Moment>)
        ensures
            r is Some <==> MIN_SECS <= secs <= MAX_SECS && nanos < 1_000_000_000,
            r matches Some(m) ==> m@ == secs * NANOS_PER_SEC + nanos,
    {
        if MIN_SECS <= secs && secs <= MAX_SECS && nanos < 1_000_000_000 {
            Some(Moment { secs, nanos })
        } else {
            None
        }
    }

    /// Whole seconds since 1970.
    pub fn secs(self) -> (r: i64)
        ensures
            r == self@ / (NANOS_PER_SEC as int),
            MIN_SECS <= r <= MAX_SECS,
            on_calendar(self@),
    {
        proof {
            use_type_invariant(&self);
        }
        self.secs
    }

    /// Nanoseconds within the second.
    pub fn nanos(self) -> (r: u32)
        ensures
            r == self@ % (NANOS_PER_SEC as int),
            r < 1_000_000_000,
    {
        proof {
            use_type_invariant(&self);
        }
        self.nanos
    }

    /// Nanoseconds since 1970.
    pub fn total(self) -> (r: i128)
        ensures
            r == self@,
            on_calendar(self@),
    {
        proof {
            use_type_invariant(&self);
        }
        self.secs as i128 * NANOS_PER_SEC + self.nanos as i128
    }

    /// Is this moment earlier than `other`?
    pub fn before(self, other: Moment) -> (r: bool)
        ensures
            r == (self@ < other@),
    {
        self.total() < other.total()
    }

    /// Whole seconds from `earlier` to this moment, towards zero.
    pub fn secs_since(self, earlier: Moment) -> (r: i64)
        ensures
            r == whole_secs(self@ - earlier@),
    {
        let span: i128 = self.since(earlier);
        if span >= 0 {
            (span / NANOS_PER_SEC) as i64
        } else {
            -(((-span) / NANOS_PER_SEC) as i64)
        }
    }

    /// The later of the two.
    pub fn max(self, other: Moment) -> (r: Moment)
        ensures
            r == if self@ < other@ {
                other
            } else {
                self
            },
    {
        if self.before(other) {
            other
        } else {
            self
        }
    }

    /// Nanoseconds from `earlier` to this moment; negative where it comes first.
    pub fn since(self, earlier: Moment) -> (r: i128)
        ensures
            r == self@ - earlier@,
            -16544868105600 * NANOS_PER_SEC < r < 16544868105600 * NANOS_PER_SEC,
    {
        self.total() - earlier.total()
    }

    /// Would a moment `span` nanoseconds from this one still be on the calendar?
    pub fn reaches(self, span: i128) -> (r: bool)
        ensures
            r == on_calendar(self@ + span),
    {
        let at: i128 = self.total();
        let low: i128 = MIN_SECS as i128 * NANOS_PER_SEC;
        let high: i128 = (MAX_SECS as i128 + 1) * NANOS_PER_SEC;
        low - at <= span && span < high - at
    }

    /// The moment `span` nanoseconds from this one.
    pub fn plus(self, span: i128) -> (r: Moment)
        requires
            on_calendar(self@ + span),
        ensures
            r@ == self@ + span,
    {
        let at: i128 = self.total() + span;
        let secs: i128 = floor_secs(at);
        Moment { secs: secs as i64, nanos: (at - secs * NANOS_PER_SEC) as u32 }
    }

    /// The text of the UTC day this moment lies in, year-month-day.
    pub fn day(self) -> (r: String)
        ensures
            r@ == utc_day(self@ / (NANOS_PER_SEC as int)),
            forall|t: int|
                on_calendar(t) ==> ((#[trigger] utc_day(t / (NANOS_PER_SEC as int)) == r@) <==> (
                same_day(t, self@))),
    {
        let secs: i64 = self.secs();
        let r = day_text(secs);
        assert forall|t: int| on_calendar(t) implies ((#[trigger] utc_day(
            t / (NANOS_PER_SEC as int),
        ) == r@) <==> same_day(t, self@)) by {
            let s = t / (NANOS_PER_SEC as int);
            assert(MIN_SECS <= s <= MAX_SECS);
        }
        r
    }

    /// The RFC 3339 text of this moment.
    pub fn to_rfc3339(self) -> (r: String)
        ensures
            r@ == rfc3339(
                self@ / (NANOS_PER_SEC as int),
                self@ % (NANOS_PER_SEC as int),
            ),
    {
        let secs: i64 = self.secs();
        let nanos: u32 = self.nanos();
        rfc3339_text(secs, nanos)
    }
}

/// The moment inside an optional one.
pub open spec fn opt_at(m: Option<Moment>) -> Option<int> {
    match m {
        Some(m) => Some(m@),
        None => None,
    }
}

/// The later of an optional moment and another.
pub open spec fn later(a: Option<int>, b: int) -> int {
    match a {
        Some(a) if b < a => a,
        _ => b,
    }
}

/// A span of nanoseconds in whole seconds, towards zero.
pub open spec fn whole_secs(span: int) -> int {
    if span >= 0 {
        span / (NANOS_PER_SEC as int)
    } else {
        -((-span) / (NANOS_PER_SEC as int))
    }
}

/// Two counts of nanoseconds that lie in one UTC day.
pub open spec fn same_day(a: int, b: int) -> bool {
    a / (NANOS_PER_SEC as int) / 86_400 == b / (NANOS_PER_SEC as int) / 86_400
}

/// Nanoseconds to whole seconds, towards the past.
fn floor_secs(at: i128) -> (r: i128)
    requires
        on_calendar(at as int),
    ensures
        r == (at as int) / (NANOS_PER_SEC as int),
        r * NANOS_PER_SEC <= at < (r + 1) * NANOS_PER_SEC,
        MIN_SECS <= r <= MAX_SECS,
{
    if at >= 0 {
        at / NANOS_PER_SEC
    } else {
        -((-at + NANOS_PER_SEC - 1) / NANOS_PER_SEC)
    }
}

// ------------------------------------------------------------- laws

/// A span holds as many whole seconds as fit in it, and a span that runs
/// backwards as many as the same span forwards, with the sign turned.
pub proof fn whole_seconds_fit_in_the_span(span: int)
    ensures
        span >= 0 ==> whole_secs(span) * 1_000_000_000 <= span < (whole_secs(span) + 1)
            * 1_000_000_000,
        whole_secs(-span) == -whole_secs(span),
{
}

/// The later of two moments is one of them, and neither is later still.
pub proof fn the_later_of_two(a: int, b: int)
    ensures
        later(Some(a), b) >= a,
        later(Some(a), b) >= b,
        later(Some(a), b) == a || later(Some(a), b) == b,
        later(None, b) == b,
{
}

/// A day begins every 86400 seconds: two moments lie in one day if and only if
/// no such beginning lies after one and not after the other.
pub proof fn a_day_has_86400_seconds(day: int, a: int, b: int)
    requires
        day * 86_400_000_000_000 <= a < (day + 1) * 86_400_000_000_000,
    ensures
        same_day(a, b) <==> day * 86_400_000_000_000 <= b < (day + 1) * 86_400_000_000_000,
{
    let s = a / 1_000_000_000;
    let t = b / 1_000_000_000;
    assert(day * 86_400 <= s < (day + 1) * 86_400);
    assert(s / 86_400 == day);
    assert(day * 86_400 <= t < (day + 1) * 86_400 <==> day * 86_400_000_000_000 <= b < (day + 1)
        * 86_400_000_000_000);
}

} // verus!
