//! Instants on the UTC time line, held as seconds and nanoseconds.

use crate::decimal::{decimal_i64, parse_decimal};
use crate::text::{optional_string, optional_text};
use chrono::TimeZone;
use vstd::prelude::*;
use vstd::string::*;

verus! {

/// Seconds since the epoch of the first representable instant,
/// midnight of January 1 of the year -262143.
pub const MIN_SECONDS: i64 = -8_334_601_228_800;

/// Seconds since the epoch of the last representable second,
/// 23:59:59 of December 31 of the year 262142.
pub const MAX_SECONDS: i64 = 8_210_266_876_799;

/// One more than the largest nanosecond count of an ordinary second.
pub const NANOS_PER_SECOND: u32 = 1_000_000_000;

/// Whether `seconds` and `nanos` name an instant of the calendar.
///
/// The nanosecond count runs past one second only to mark a leap second,
/// which can follow nothing but the last second of a minute.
pub open spec fn valid_instant(seconds: int, nanos: int) -> bool {
    &&& MIN_SECONDS <= seconds <= MAX_SECONDS
    &&& 0 <= nanos < 2 * NANOS_PER_SECOND
    &&& nanos >= NANOS_PER_SECOND ==> seconds % 60 == 59
}

/// An instant in UTC: whole seconds since 1970-01-01T00:00:00Z and the
/// nanoseconds since that second began.
#[derive(Clone, Copy, Debug, PartialEq, Eq, Structural)]
pub struct Timestamp {
    seconds: i64,
    nanos: u32,
}

impl Timestamp {
    /// The seconds since the epoch, as a mathematical integer.
    pub closed spec fn spec_seconds(self) -> int {
        self.seconds as int
    }

    /// The nanoseconds within the second, as a mathematical integer.
    pub closed spec fn spec_nanos(self) -> int {
        self.nanos as int
    }

    /// Every value of the type names an instant of the calendar.
    #[verifier::type_invariant]
    pub open spec fn wf(self) -> bool {
        valid_instant(self.spec_seconds(), self.spec_nanos())
    }

    /// The instant of `seconds` and `nanos`, where they name one.
    pub closed spec fn at(seconds: int, nanos: int) -> Timestamp {
        Timestamp { seconds: seconds as i64, nanos: nanos as u32 }
    }

    /// An instant holds the counts it was made of.
    pub proof fn lemma_at_holds(seconds: int, nanos: int)
        requires
            valid_instant(seconds, nanos),
        ensures
            Self::at(seconds, nanos).spec_seconds() == seconds,
            Self::at(seconds, nanos).spec_nanos() == nanos,
            Self::at(seconds, nanos).wf(),
    {
    }

    /// The instant `seconds` and `nanos` name, if they name one.
    pub fn new(seconds: i64, nanos: u32) -> (r: Option<Timestamp>)
        ensures
            r == if valid_instant(seconds as int, nanos as int) {
                Some(Timestamp::at(seconds as int, nanos as int))
            } else {
                None
            },
    {
        if seconds < MIN_SECONDS || seconds > MAX_SECONDS {
            return None;
        }
        if nanos >= 2 * NANOS_PER_SECOND {
            return None;
        }
        if nanos >= NANOS_PER_SECOND && seconds % 60 != 59 && seconds % 60 != -1 {
            return None;
        }
        Some(Timestamp { seconds, nanos })
    }

    /// Whole seconds since the epoch.
    pub fn seconds(&self) -> (s: i64)
        ensures
            s == self.spec_seconds(),
    {
        self.seconds
    }

    /// Nanoseconds since the second began.
    pub fn nanos(&self) -> (n: u32)
        ensures
            n == self.spec_nanos(),
    {
        self.nanos
    }
}

/// The text that `chrono` shows for the instant of `seconds` and `nanos`.
pub uninterp spec fn utc_display(seconds: int, nanos: int) -> Option<Seq<char>>;

/// Calls `chrono::DateTime::from_timestamp` and renders the result with its
/// `Display`. The text is a function of the two counts; every valid instant
/// has one.
#[verifier::external_body]
fn display_instant(seconds: i64, nanos: u32) -> (r: Option<String>)
    ensures
        r.is_some() == utc_display(seconds as int, nanos as int).is_some(),
        r matches Some(text) ==> utc_display(seconds as int, nanos as int) == Some(text@),
        valid_instant(seconds as int, nanos as int) ==> r is Some,
{
    chrono::DateTime::from_timestamp(seconds, nanos).map(|t| t.to_string())
}

impl Timestamp {
    /// The text that shows the instant: the date, the time of day with the
    /// fraction of the second where there is one, and `UTC`.
    pub open spec fn text(self) -> Seq<char> {
        match utc_display(self.spec_seconds(), self.spec_nanos()) {
            Some(text) => text,
            None => Seq::empty(),
        }
    }

    /// Shows the instant as text.
    pub fn to_text(&self) -> (text: String)
        ensures
            text@ == self.text(),
    {
        proof {
            use_type_invariant(self);
        }
        match display_instant(self.seconds, self.nanos) {
            Some(text) => text,
            None => String::new(),
        }
    }
}

/// The format of a date and a time of day to the second.
pub const PLAIN_FORMAT: &'static str = "%Y-%m-%d %H:%M:%S";

/// The same format with a fraction of a second behind it.
pub const FRACTIONAL_FORMAT: &'static str = "%Y-%m-%d %H:%M:%S%.f";

/// The instant that `chrono` reads from `text` under the format `format`,
/// the date and time taken as UTC.
pub uninterp spec fn naive_datetime(text: Seq<char>, format: Seq<char>) -> Option<Timestamp>;

/// The instant that `chrono` reads from `text` as an RFC 3339 date and time.
pub uninterp spec fn rfc3339_datetime(text: Seq<char>) -> Option<Timestamp>;

/// Calls `chrono::NaiveDateTime::parse_from_str` and places the result in
/// UTC with `chrono::TimeZone::from_utc_datetime`. Whether there is a result,
/// and which, is a function of the text and the format.
#[verifier::external_body]
fn parse_naive_datetime(text: &str, format: &str) -> (r: Option<Timestamp>)
    ensures
        r == naive_datetime(text@, format@),
        r matches Some(t) ==> t.wf(),
{
    match chrono::NaiveDateTime::parse_from_str(text, format) {
        Ok(naive) => {
            let t = chrono::Utc.from_utc_datetime(&naive);
            Some(Timestamp { seconds: t.timestamp(), nanos: t.timestamp_subsec_nanos() })
        },
        Err(_) => None,
    }
}

/// Calls `chrono::DateTime::parse_from_rfc3339` and moves the result to UTC
/// with `chrono::DateTime::with_timezone`. Whether there is a result, and
/// which, is a function of the text.
#[verifier::external_body]
fn parse_rfc3339(text: &str) -> (r: Option<Timestamp>)
    ensures
        r == rfc3339_datetime(text@),
        r matches Some(t) ==> t.wf(),
{
    match chrono::DateTime::parse_from_rfc3339(text) {
        Ok(fixed) => {
            let t = fixed.with_timezone(&chrono::Utc);
            Some(Timestamp { seconds: t.timestamp(), nanos: t.timestamp_subsec_nanos() })
        },
        Err(_) => None,
    }
}

/// Calls `chrono::Utc::now`. Nothing is known of the instant but that it is
/// one of the calendar. On a machine whose clock stands before 1970 the call
/// does not return.
#[verifier::external_body]
fn current_time() -> (now: Timestamp)
    ensures
        now.wf(),
{
    let t = chrono::Utc::now();
    Timestamp { seconds: t.timestamp(), nanos: t.timestamp_subsec_nanos() }
}

/// What a text says of the time.
#[derive(Clone, Copy, Debug, PartialEq, Eq, Structural)]
pub enum TimeText {
    /// The text names this instant.
    Instant(Timestamp),
    /// The text counts seconds since the epoch, to a second that the
    /// calendar does not reach.
    OutOfCalendar,
    /// The text has none of the known forms.
    Unrecognized,
}

/// The first reading that succeeded, in the order in which they stand: a date
/// and a time, the same with a fraction of a second, an RFC 3339 date and
/// time, a count of seconds since the epoch.
pub open spec fn first_reading(
    plain: Option<Timestamp>,
    fractional: Option<Timestamp>,
    rfc3339: Option<Timestamp>,
    epoch: Option<i64>,
) -> TimeText {
    if let Some(t) = plain {
        TimeText::Instant(t)
    } else if let Some(t) = fractional {
        TimeText::Instant(t)
    } else if let Some(t) = rfc3339 {
        TimeText::Instant(t)
    } else if let Some(seconds) = epoch {
        if valid_instant(seconds as int, 0) {
            TimeText::Instant(Timestamp::at(seconds as int, 0))
        } else {
            TimeText::OutOfCalendar
        }
    } else {
        TimeText::Unrecognized
    }
}

/// What `text` says of the time.
pub open spec fn time_text(text: Seq<char>) -> TimeText {
    first_reading(
        naive_datetime(text, PLAIN_FORMAT@),
        naive_datetime(text, FRACTIONAL_FORMAT@),
        rfc3339_datetime(text),
        decimal_i64(text),
    )
}

/// Picks the first of four readings of one text that succeeded.
pub fn select_reading(
    plain: Option<Timestamp>,
    fractional: Option<Timestamp>,
    rfc3339: Option<Timestamp>,
    epoch: Option<i64>,
) -> (r: TimeText)
    ensures
        r == first_reading(plain, fractional, rfc3339, epoch),
{
    if let Some(t) = plain {
        TimeText::Instant(t)
    } else if let Some(t) = fractional {
        TimeText::Instant(t)
    } else if let Some(t) = rfc3339 {
        TimeText::Instant(t)
    } else if let Some(seconds) = epoch {
        match Timestamp::new(seconds, 0) {
            Some(t) => TimeText::Instant(t),
            None => TimeText::OutOfCalendar,
        }
    } else {
        TimeText::Unrecognized
    }
}

/// Reads `text` in each of the four known forms and keeps the first reading
/// that succeeded.
pub fn interpret_time(text: &str) -> (r: TimeText)
    ensures
        r == time_text(text@),
{
    let plain = parse_naive_datetime(text, PLAIN_FORMAT);
    let fractional = parse_naive_datetime(text, FRACTIONAL_FORMAT);
    let rfc3339 = parse_rfc3339(text);
    let epoch = parse_decimal(text);
    select_reading(plain, fractional, rfc3339, epoch)
}

/// The time of a message and the warning that came with reading it.
#[derive(Clone, Debug, PartialEq, Eq)]
pub struct TimeField {
    pub time: Timestamp,
    pub warning: Option<String>,
}

/// What the warning about a text of no known form opens with.
pub const UNKNOWN_FORMAT: &'static str = "Unknown timestamp format: ";

/// The warning owed for an optional text: one that names the text, where
/// there is a text and it has none of the known forms.
pub open spec fn warning_for(text: Option<Seq<char>>) -> Option<Seq<char>> {
    match text {
        Some(s) => if time_text(s) is Unrecognized {
            Some(UNKNOWN_FORMAT@ + s)
        } else {
            None
        },
        None => None,
    }
}

/// The instant that an optional text names, where it names one.
pub open spec fn instant_for(text: Option<Seq<char>>) -> Option<Timestamp> {
    match text {
        Some(s) => match time_text(s) {
            TimeText::Instant(t) => Some(t),
            _ => None,
        },
        None => None,
    }
}

impl TimeField {
    /// Whether this is the field owed for `text` when the clock shows `now`.
    pub open spec fn settles(self, text: Option<Seq<char>>, now: Timestamp) -> bool {
        &&& optional_string(self.warning) == warning_for(text)
        &&& self.time == match instant_for(text) {
            Some(t) => t,
            None => now,
        }
    }
}

/// The instant that `text` names, where it names one, and the warning owed.
fn read_field(text: Option<&str>) -> (r: (Option<Timestamp>, Option<String>))
    ensures
        r.0 == instant_for(optional_text(text)),
        optional_string(r.1) == warning_for(optional_text(text)),
{
    match text {
        None => (None, None),
        Some(s) => match interpret_time(s) {
            TimeText::Instant(t) => (Some(t), None),
            TimeText::OutOfCalendar => (None, None),
            TimeText::Unrecognized => (None, Some(String::from_str(UNKNOWN_FORMAT).concat(s))),
        },
    }
}

/// Settles the time of a message whose `time` member holds `text`, at a
/// moment when the clock shows `now`. The clock decides where the text is
/// absent, names no instant, or has no known form; in the last case a
/// warning names the text.
pub fn deserialize_timestamp_at(text: Option<&str>, now: Timestamp) -> (field: TimeField)
    ensures
        field.settles(optional_text(text), now),
{
    let (instant, warning) = read_field(text);
    match instant {
        Some(time) => TimeField { time, warning },
        None => TimeField { time: now, warning },
    }
}

/// Settles the time of a message whose `time` member holds `text`, asking
/// the clock only where the text names no instant.
pub fn deserialize_timestamp(text: Option<&str>) -> (field: TimeField)
    ensures
        exists|now: Timestamp| now.wf() && #[trigger] field.settles(optional_text(text), now),
{
    let (instant, warning) = read_field(text);
    match instant {
        Some(time) => {
            let field = TimeField { time, warning };
            proof {
                use_type_invariant(time);
                assert(time.wf() && field.settles(optional_text(text), time));
            }
            field
        },
        None => {
            let now = current_time();
            let field = TimeField { time: now, warning };
            assert(now.wf() && field.settles(optional_text(text), now));
            field
        },
    }
}

} // verus!
