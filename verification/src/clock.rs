//! Instants in UTC and their RFC 3339 text.
use vstd::prelude::*;

verus! {

/// The Unix timestamp of the first second of the calendar.
pub const FIRST_SECOND: i64 = -8_334_601_228_800;

/// The Unix timestamp of the last second of the calendar.
pub const LAST_SECOND: i64 = 8_210_266_876_799;

/// The Unix timestamp of the first second of the year 0.
pub const FIRST_SECOND_OF_YEAR_0: i64 = -62_167_219_200;

/// The Unix timestamp of the last second of the year 9999.
pub const LAST_SECOND_OF_YEAR_9999: i64 = 253_402_300_799;

/// Nanoseconds in a second.
pub const NANOS_PER_SECOND: u32 = 1_000_000_000;

/// An instant in UTC: non-leap seconds since the Unix epoch, and nanoseconds
/// since the last whole second. Within a leap second the nanoseconds run on
/// past a whole second.
#[derive(Debug, Clone, Copy, PartialEq, Eq, Structural)]
pub struct UtcInstant {
    /// Non-leap seconds since 1970-01-01T00:00:00Z.
    pub secs: i64,
    /// Nanoseconds since the last whole non-leap second.
    pub nanos: u32,
}

/// Whether the calendar has an instant `nanos` after second `secs`: a leap
/// second can only stand at the end of a minute.
pub open spec fn on_calendar(secs: int, nanos: int) -> bool {
    &&& FIRST_SECOND <= secs <= LAST_SECOND
    &&& 0 <= nanos < 2 * NANOS_PER_SECOND
    &&& nanos >= NANOS_PER_SECOND ==> secs % 60 == 59
}

/// Whether second `secs` lies in a year that RFC 3339 can write: 0 to 9999.
pub open spec fn has_rfc3339_year(secs: int) -> bool {
    FIRST_SECOND_OF_YEAR_0 <= secs <= LAST_SECOND_OF_YEAR_9999
}

/// Whether instant `a` comes before instant `b`.
pub open spec fn earlier(a: (int, int), b: (int, int)) -> bool {
    a.0 < b.0 || a.0 == b.0 && a.1 < b.1
}

/// The instant `delta` seconds after `t`. A positive delta leaves a leap
/// second behind.
pub open spec fn seconds_after(t: (int, int), delta: nat) -> (int, int) {
    if delta > 0 && t.1 >= NANOS_PER_SECOND {
        (t.0 + delta, t.1 - NANOS_PER_SECOND)
    } else {
        (t.0 + delta, t.1)
    }
}

impl View for UtcInstant {
    type V = (int, int);

    open spec fn view(&self) -> (int, int) {
        (self.secs as int, self.nanos as int)
    }
}

impl UtcInstant {
    /// Whether this is an instant of the calendar.
    pub open spec fn wf(self) -> bool {
        on_calendar(self.secs as int, self.nanos as int)
    }

    /// Whether this instant comes before `other`.
    pub fn is_before(self, other: UtcInstant) -> (before: bool)
        ensures
            before == earlier(self@, other@),
    {
        self.secs < other.secs || (self.secs == other.secs && self.nanos < other.nanos)
    }

    /// The RFC 3339 text of this instant. Read back, it names the same instant
    /// in every year that RFC 3339 can write.
    pub fn to_rfc3339(self) -> (text: String)
        requires
            self.wf(),
        ensures
            text@ == rfc3339_text(self.secs, self.nanos),
            has_rfc3339_year(self.secs as int) ==> instant_named(text@) == Some(self@),
    {
        chrono_to_rfc3339(self.secs, self.nanos)
    }

    /// The instant that `raw` names in RFC 3339, if it names one.
    pub fn parse_rfc3339(raw: &str) -> (instant: Option<UtcInstant>)
        ensures
            opt_instant(instant) == instant_named(raw@),
            instant matches Some(t) ==> t.wf(),
    {
        match chrono_parse_rfc3339(raw) {
            Some((secs, nanos)) => Some(UtcInstant { secs, nanos }),
            None => None,
        }
    }

    /// The instant `delta` seconds later.
    pub fn plus_seconds(self, delta: u64) -> (later: UtcInstant)
        requires
            self.wf(),
            self.secs + delta <= LAST_SECOND,
        ensures
            later.wf(),
            later@ == seconds_after(self@, delta as nat),
    {
        let (secs, nanos) = chrono_add_seconds(self.secs, self.nanos, delta);
        UtcInstant { secs, nanos }
    }
}

/// The pair behind an optional instant.
pub open spec fn opt_instant(t: Option<UtcInstant>) -> Option<(int, int)> {
    match t {
        Some(t) => Some(t@),
        None => None,
    }
}

/// The instant that `raw` names in RFC 3339.
pub open spec fn instant_named(raw: Seq<char>) -> Option<(int, int)> {
    match rfc3339_parts(raw) {
        Some(p) => Some((p.0 as int, p.1 as int)),
        None => None,
    }
}

/// The RFC 3339 text of an instant, as `chrono::DateTime::to_rfc3339` writes it.
pub uninterp spec fn rfc3339_text(secs: i64, nanos: u32) -> Seq<char>;

/// The seconds and nanoseconds that `chrono::DateTime::parse_from_rfc3339`
/// reads from a text, if the text is RFC 3339.
pub uninterp spec fn rfc3339_parts(raw: Seq<char>) -> Option<(i64, u32)>;

/// The current instant.
pub(crate) fn utc_now() -> (now: UtcInstant)
    ensures
        now.wf(),
{
    let (secs, nanos) = chrono_now();
    UtcInstant { secs, nanos }
}

/// `chrono::Utc::now` reads the system clock. Which instant it is, is left
/// open; it is one of the calendar. It panics where the system clock is set
/// before 1970.
#[verifier::external_body]
fn chrono_now() -> (now: (i64, u32))
    ensures
        on_calendar(now.0 as int, now.1 as int),
{
    let now = chrono::Utc::now();
    (now.timestamp(), now.timestamp_subsec_nanos())
}

/// `chrono::DateTime::to_rfc3339` writes an instant of the calendar as RFC 3339
/// text, in a way that depends on the instant alone. It writes as many digits
/// of the second as there are, so that in the years 0 to 9999
/// `chrono::DateTime::parse_from_rfc3339` reads the same instant back.
#[verifier::external_body]
fn chrono_to_rfc3339(secs: i64, nanos: u32) -> (text: String)
    requires
        on_calendar(secs as int, nanos as int),
    ensures
        text@ == rfc3339_text(secs, nanos),
        has_rfc3339_year(secs as int) ==> rfc3339_parts(text@) == Some((secs, nanos)),
{
    chrono::DateTime::from_timestamp(secs, nanos).unwrap().to_rfc3339()
}

/// `chrono::DateTime::parse_from_rfc3339` reads an instant from RFC 3339 text
/// or fails, and `with_timezone` keeps the instant. Both depend on the text
/// alone, and an instant that was read is one of the calendar.
#[verifier::external_body]
fn chrono_parse_rfc3339(raw: &str) -> (parts: Option<(i64, u32)>)
    ensures
        parts == rfc3339_parts(raw@),
        parts matches Some(p) ==> on_calendar(p.0 as int, p.1 as int),
{
    match chrono::DateTime::parse_from_rfc3339(raw) {
        Ok(read) => {
            let utc = read.with_timezone(&chrono::Utc);
            Some((utc.timestamp(), utc.timestamp_subsec_nanos()))
        },
        Err(_) => None,
    }
}

/// Adding a `chrono::Duration` of whole seconds to a `chrono::DateTime` moves
/// it by that many seconds and leaves a leap second behind. It panics past the
/// end of the calendar, which the precondition excludes.
#[verifier::external_body]
fn chrono_add_seconds(secs: i64, nanos: u32, delta: u64) -> (sum: (i64, u32))
    requires
        on_calendar(secs as int, nanos as int),
        secs + delta <= LAST_SECOND,
    ensures
        on_calendar(sum.0 as int, sum.1 as int),
        (sum.0 as int, sum.1 as int) == seconds_after((secs as int, nanos as int), delta as nat),
{
    let start = chrono::DateTime::from_timestamp(secs, nanos).unwrap();
    let sum = start + chrono::Duration::seconds(delta as i64);
    (sum.timestamp(), sum.timestamp_subsec_nanos())
}

} // verus!
