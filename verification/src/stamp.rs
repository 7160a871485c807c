//! Points in time, kept to the nanosecond in UTC.

use vstd::prelude::*;

verus! {

/// The first second that has a date: the start of the year -262143.
pub const FIRST_SECOND: i64 = -8334601228800;

/// The last second that has a date: the end of the year 262142.
pub const LAST_SECOND: i64 = 8210266876799;

/// The first second of the year 0.
pub const YEAR_ZERO: i64 = -62167219200;

/// The last second of the year 9999.
pub const YEAR_9999_END: i64 = 253402300799;

/// Does this second, with this many nanoseconds on top, have a date and a time
/// of day? Nanoseconds beyond a full second are a leap second, which only the
/// last second of a minute can have.
pub open spec fn instant_exists(secs: i64, nanos: u32) -> bool {
    &&& FIRST_SECOND <= secs <= LAST_SECOND
    &&& (nanos < 1_000_000_000 || (nanos < 2_000_000_000 && (secs as int) % 60 == 59))
}

/// What `chrono` writes for an instant, as RFC 3339 with `Z` and with as many
/// digits of the second as the instant needs.
pub uninterp spec fn rfc3339_text(secs: i64, nanos: u32) -> Seq<char>;

/// What `chrono::DateTime::parse_from_rfc3339` makes of a text: the instant in
/// UTC as seconds and nanoseconds, or the text of the error.
pub uninterp spec fn rfc3339_parsed(text: Seq<char>) -> Result<(i64, u32), Seq<char>>;

/// Does `text` read as this instant?
pub open spec fn reads_as_instant(text: Seq<char>, secs: i64, nanos: u32) -> bool {
    rfc3339_parsed(text) == Ok::<(i64, u32), Seq<char>>((secs, nanos))
}

/// Is the text made of digits and the marks of an RFC 3339 text alone, with no
/// fraction at its start?
pub open spec fn is_stamp_text(text: Seq<char>) -> bool {
    &&& text.len() >= 2 ==> text[1] != '.'
    &&& forall|i: int|
        0 <= i < text.len() ==> {
            let c = #[trigger] text[i];
            '0' <= c <= '9' || c == '-' || c == '+' || c == ':' || c == '.' || c == 'T'
                || c == 'Z'
        }
}

/// Calls `chrono::DateTime::from_timestamp` and `to_rfc3339_opts` with the
/// fraction of the second. The text starts with the digits of the year. Between
/// the years 0 and 9999 it reads back as the instant.
#[verifier::external_body]
fn write_rfc3339(secs: i64, nanos: u32) -> (r: String)
    requires
        instant_exists(secs, nanos),
    ensures
        r@ == rfc3339_text(secs, nanos),
        is_stamp_text(r@),
        YEAR_ZERO <= secs <= YEAR_9999_END ==> reads_as_instant(r@, secs, nanos),
{
    let time = chrono::DateTime::from_timestamp(secs, nanos).unwrap_or_default();
    time.to_rfc3339_opts(chrono::SecondsFormat::AutoSi, true)
}

/// Calls `chrono::DateTime::parse_from_rfc3339`, and `to_string` on its error.
/// What it returns has a date.
#[verifier::external_body]
fn read_rfc3339(text: &str) -> (r: Result<(i64, u32), String>)
    ensures
        match r {
            Ok(v) => instant_exists(v.0, v.1) && (rfc3339_parsed(text@) matches Ok(w) && w == v),
            Err(e) => rfc3339_parsed(text@) matches Err(w) && w == e@,
        },
{
    chrono::DateTime::parse_from_rfc3339(text)
        .map(|t| (t.timestamp(), t.timestamp_subsec_nanos()))
        .map_err(|e| e.to_string())
}

/// Calls `chrono::Utc::now`, which counts from the start of 1970 and panics where
/// the clock is set to an earlier time or to one without a date. Which instant
/// comes out is left to the clock: it has a date, is not before 1970, and is never
/// in a leap second.
#[verifier::external_body]
fn read_clock() -> (r: (i64, u32))
    ensures
        instant_exists(r.0, r.1),
        r.0 >= 0,
        r.1 < 1_000_000_000,
{
    let t = chrono::Utc::now();
    (t.timestamp(), t.timestamp_subsec_nanos())
}

/// A point in time: seconds since the start of 1970 and nanoseconds on top.
#[derive(Clone, Copy, Debug, PartialEq, Eq, Structural)]
pub struct Timestamp {
    secs: i64,
    nanos: u32,
}

impl View for Timestamp {
    type V = (i64, u32);

    closed spec fn view(&self) -> (i64, u32) {
        (self.secs, self.nanos)
    }
}

impl Timestamp {
    #[verifier::type_invariant]
    spec fn has_date(self) -> bool {
        instant_exists(self.secs, self.nanos)
    }

    /// The instant `nanos` nanoseconds into the second `secs`, if it has a date.
    pub fn new(secs: i64, nanos: u32) -> (r: Option<Timestamp>)
        ensures
            match r {
                Some(t) => instant_exists(secs, nanos) && t@ == (secs, nanos),
                None => !instant_exists(secs, nanos),
            },
    {
        let in_range = FIRST_SECOND <= secs && secs <= LAST_SECOND;
        if in_range && nanos < 1_000_000_000 {
            Some(Timestamp { secs, nanos })
        } else if in_range && nanos < 2_000_000_000 && second_of_minute(secs) == 59 {
            Some(Timestamp { secs, nanos })
        } else {
            None
        }
    }

    /// The current time: an instant from 1970 on, outside leap seconds. Which one
    /// is left to the clock.
    pub fn now() -> (r: Timestamp)
        ensures
            instant_exists(r@.0, r@.1),
            r@.0 >= 0,
            r@.1 < 1_000_000_000,
    {
        let t = read_clock();
        Timestamp { secs: t.0, nanos: t.1 }
    }

    /// Seconds since the start of 1970.
    pub fn secs(&self) -> (r: i64)
        ensures
            r == self@.0,
    {
        self.secs
    }

    /// Nanoseconds on top of the seconds.
    pub fn nanos(&self) -> (r: u32)
        ensures
            r == self@.1,
    {
        self.nanos
    }

    /// The instant as RFC 3339 text, with the fraction of the second if there is one.
    pub fn to_rfc3339(&self) -> (r: String)
        ensures
            r@ == rfc3339_text(self@.0, self@.1),
            is_stamp_text(r@),
            YEAR_ZERO <= self@.0 <= YEAR_9999_END ==> reads_as_instant(r@, self@.0, self@.1),
    {
        proof {
            use_type_invariant(&*self);
        }
        write_rfc3339(self.secs, self.nanos)
    }

    /// The instant that an RFC 3339 text names.
    pub fn parse_rfc3339(text: &str) -> (r: Result<Timestamp, String>)
        ensures
            match r {
                Ok(t) => rfc3339_parsed(text@) matches Ok(v) && v == t@,
                Err(e) => rfc3339_parsed(text@) matches Err(v) && v == e@,
            },
    {
        match read_rfc3339(text) {
            Ok(v) => Ok(Timestamp { secs: v.0, nanos: v.1 }),
            Err(e) => Err(e),
        }
    }
}

fn second_of_minute(secs: i64) -> (r: i64)
    ensures
        r == (secs as int) % 60,
{
    let m: i64 = secs % 60;
    if m < 0 {
        m + 60
    } else {
        m
    }
}

} // verus!
