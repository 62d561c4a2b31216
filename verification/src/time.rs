//! Instants and the spans between them, counted in nanoseconds.

use crate::entries::lookup;
use crate::error::{Field, ParseError};
use crate::json::member;
use chrono::{DateTime, Utc};
use vstd::prelude::*;

verus! {

/// The number of nanoseconds in a second.
pub const NANOS_PER_SEC: i128 = 1_000_000_000;

/// The number of seconds in a day without a leap second.
pub const SECS_PER_DAY: i64 = 86_400;

/// An instant in UTC, held as `chrono` counts it: whole seconds since
/// 1970-01-01T00:00:00Z, leap seconds not counted, and the nanoseconds that
/// follow them. An instant inside a leap second stands as the second
/// before it, a `secs` that ends a minute, with `nanos` of 1 000 000 000 or
/// more.
#[derive(Clone, Copy, Debug, PartialEq, Eq, Structural, Hash)]
pub struct Timestamp {
    pub secs: i64,
    pub nanos: u32,
}

/// A span of time in nanoseconds; negative where it runs backwards.
#[derive(Clone, Copy, Debug, PartialEq, Eq, Structural, Hash)]
pub struct Duration {
    pub nanos: i128,
}

impl View for Duration {
    type V = int;

    open spec fn view(&self) -> int {
        self.nanos as int
    }
}

impl Duration {
    /// Whether the span runs backwards.
    pub fn is_negative(&self) -> (r: bool)
        ensures
            r == (self@ < 0),
    {
        self.nanos < 0
    }

    /// Whether the span runs forwards and is not empty.
    pub fn is_positive(&self) -> (r: bool)
        ensures
            r == (self@ > 0),
    {
        self.nanos > 0
    }
}

impl Timestamp {
    /// The nanoseconds stay under two seconds, and reach one second only
    /// inside a leap second, which follows a second that ends a minute.
    pub open spec fn wf(self) -> bool {
        &&& self.nanos < 2_000_000_000
        &&& self.nanos >= 1_000_000_000 ==> self.secs as int % 60 == 59
    }

    /// Whether the instant lies inside a leap second.
    pub open spec fn in_leap_second(self) -> bool {
        self.nanos >= 1_000_000_000
    }

    /// The seconds since the last midnight.
    pub open spec fn second_of_day(self) -> int {
        self.secs as int % 86_400
    }

    /// Whether `self` comes before `other`: by the seconds, and within one
    /// second by the nanoseconds.
    pub open spec fn is_before(self, other: Timestamp) -> bool {
        self.secs < other.secs || (self.secs == other.secs && self.nanos < other.nanos)
    }

    /// The second that `chrono` adds to, or takes from, a span for a leap
    /// second at one of its ends: it looks at the times of day alone.
    pub open spec fn leap_adjustment(self, earlier: Timestamp) -> int {
        if self.second_of_day() > earlier.second_of_day() && earlier.in_leap_second() {
            1
        } else if self.second_of_day() < earlier.second_of_day() && self.in_leap_second() {
            -1
        } else {
            0
        }
    }

    /// The span from `earlier` to `self` in nanoseconds, as `chrono` gives
    /// it with `signed_duration_since`: the difference of the seconds, with
    /// the adjustment for a leap second, and of the nanoseconds.
    pub open spec fn span_since(self, earlier: Timestamp) -> int {
        (self.secs - earlier.secs + self.leap_adjustment(earlier)) * NANOS_PER_SEC + (self.nanos
            - earlier.nanos)
    }

    /// The inputs on which the sign of the span and the order of the
    /// instants part: the two are one and the same instant; or one lies in
    /// a leap second at the end of a day and the other in the first second
    /// of the next day, a second or more of nanoseconds closer to its own
    /// second's start.
    pub open spec fn span_parts_from_order(self, earlier: Timestamp) -> bool {
        ||| self == earlier
        ||| (self.secs == earlier.secs + 1 && earlier.second_of_day() == 86_399
            && earlier.in_leap_second() && self.nanos + 1_000_000_000 < earlier.nanos)
        ||| (earlier.secs == self.secs + 1 && self.second_of_day() == 86_399
            && self.in_leap_second() && earlier.nanos + 1_000_000_000 <= self.nanos)
    }

    /// The span from `earlier` to `self` is not negative exactly when
    /// `self` comes after `earlier`, but for the inputs named by
    /// [`Timestamp::span_parts_from_order`], and on those it is not so.
    pub proof fn lemma_span_sign(self, earlier: Timestamp)
        requires
            self.wf(),
            earlier.wf(),
        ensures
            (self.span_since(earlier) >= 0 <==> earlier.is_before(self))
                <==> !self.span_parts_from_order(earlier),
    {
        let a = self.secs as int;
        let b = earlier.secs as int;
        assert(a % 86_400 == a - 86_400 * (a / 86_400));
        assert(b % 86_400 == b - 86_400 * (b / 86_400));
        assert(0 <= a % 86_400 < 86_400);
        assert(0 <= b % 86_400 < 86_400);
        assert(a % 60 == a - 60 * (a / 60));
        assert(b % 60 == b - 60 * (b / 60));
    }

    /// The instant with these seconds and nanoseconds, where they are
    /// those of an instant.
    pub fn new(secs: i64, nanos: u32) -> (r: Option<Timestamp>)
        ensures
            r == if (Timestamp { secs, nanos }).wf() {
                Some(Timestamp { secs, nanos })
            } else {
                None::<Timestamp>
            },
    {
        if nanos >= 2_000_000_000 {
            return None;
        }
        if nanos >= 1_000_000_000 {
            let rest: i64 = secs % 60;
            if !(rest == 59 || rest == -1) {
                return None;
            }
        }
        Some(Timestamp { secs, nanos })
    }

    /// The seconds since the last midnight.
    fn seconds_of_day(&self) -> (r: i64)
        ensures
            r == self.second_of_day(),
            0 <= r < 86_400,
    {
        let rest: i64 = self.secs % SECS_PER_DAY;
        if rest < 0 {
            rest + SECS_PER_DAY
        } else {
            rest
        }
    }

    /// Whether `self` comes before `other`.
    pub fn comes_before(&self, other: &Timestamp) -> (r: bool)
        ensures
            r == self.is_before(*other),
    {
        self.secs < other.secs || (self.secs == other.secs && self.nanos < other.nanos)
    }

    /// The span from `earlier` to `self`, as `chrono` gives it with
    /// `signed_duration_since`.
    pub fn since(&self, earlier: &Timestamp) -> (d: Duration)
        ensures
            d@ == self.span_since(*earlier),
    {
        let mine = self.seconds_of_day();
        let theirs = earlier.seconds_of_day();
        let adjustment: i128 = if mine > theirs && earlier.nanos >= 1_000_000_000 {
            1
        } else if mine < theirs && self.nanos >= 1_000_000_000 {
            -1
        } else {
            0
        };
        let secs: i128 = self.secs as i128 - earlier.secs as i128 + adjustment;
        let nanos: i128 = self.nanos as i128 - earlier.nanos as i128;
        Duration { nanos: secs * NANOS_PER_SEC + nanos }
    }
}

/// The instant that the JSON string spelled by `doc` gives in RFC 3339
/// form, as `chrono` reads it through `serde_json`; `None` where `doc` is no
/// such string.
pub uninterp spec fn json_instant(doc: Seq<u8>) -> Option<Timestamp>;

/// Reads an instant with `serde_json::from_slice`, at the type
/// `chrono::DateTime<Utc>`, and takes its seconds and nanoseconds with
/// `timestamp` and `timestamp_subsec_nanos`.
///
/// Believed of `serde_json` and `chrono`: the result depends on the bytes of
/// `doc` alone; and the nanoseconds that `chrono` hands out stay under two
/// seconds and reach one second only inside a leap second, which it keeps
/// at a second that ends a minute.
#[verifier::external_body]
pub(crate) fn read_instant(doc: &[u8]) -> (r: Option<Timestamp>)
    ensures
        r == json_instant(doc@),
        r matches Some(instant) ==> instant.wf(),
{
    let instant = serde_json::from_slice::<DateTime<Utc>>(doc).ok()?;
    Some(Timestamp { secs: instant.timestamp(), nanos: instant.timestamp_subsec_nanos() })
}

/// The member `name` read as an instant, or the reason why there is none,
/// with `field` as the place.
pub open spec fn instant_member(
    members: Seq<(Seq<char>, Seq<u8>)>,
    name: Seq<char>,
    field: Field,
) -> Result<Timestamp, ParseError> {
    match lookup(members, name) {
        None => Err(ParseError::Missing(field)),
        Some(raw) => match json_instant(raw) {
            None => Err(ParseError::Invalid(field)),
            Some(instant) => Ok(instant),
        },
    }
}

/// Reads the member `name` as an instant.
pub fn read_instant_member(members: &Vec<(String, Vec<u8>)>, name: &str, field: Field) -> (r:
    Result<Timestamp, ParseError>)
    ensures
        r == instant_member(members.deep_view(), name@, field),
        r matches Ok(instant) ==> instant.wf(),
{
    match member(members, name) {
        None => Err(ParseError::Missing(field)),
        Some(raw) => match read_instant(raw.as_slice()) {
            None => Err(ParseError::Invalid(field)),
            Some(instant) => Ok(instant),
        },
    }
}

} // verus!
