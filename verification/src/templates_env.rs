//! The template helper functions registered with the rendering engine:
//! current time, date-time formatting, date-time subtraction, duration
//! formatting and string wrapping. Date-times are modelled as an instant
//! (seconds and nanoseconds since the Unix epoch) with a fixed offset.

use vstd::prelude::*;
use vstd::string::*;

use core::fmt::Write;

verus! {

/// A parsed fixed-offset date-time: the instant since the Unix epoch in
/// seconds and subsecond nanoseconds, and the offset from UTC in seconds.
#[derive(Clone, Copy, Debug, PartialEq, Eq, Structural)]
pub struct DateTimeParts {
    pub secs: i64,
    pub nanos: u32,
    pub offset_secs: i32,
}

/// The instant of a date-time in nanoseconds since the Unix epoch; the
/// offset does not move the instant.
pub open spec fn instant_nanos(d: DateTimeParts) -> int {
    d.secs * 1_000_000_000 + d.nanos
}

/// What `chrono::DateTime::parse_from_rfc3339` returns, reduced to the
/// instant and the offset.
pub uninterp spec fn parse_rfc3339_spec(s: Seq<char>) -> Option<DateTimeParts>;

/// Relies on `chrono::DateTime::parse_from_rfc3339`: parsing depends on the
/// text alone; an RFC 3339 year has four digits, so the timestamp is bounded;
/// the offset is strictly within a day and the subsecond nanoseconds exceed
/// one billion only for a leap second. The error is chrono's rendering.
#[verifier::external_body]
fn parse_rfc3339_raw(s: &str) -> (r: Result<DateTimeParts, String>)
    ensures
        r is Ok <==> parse_rfc3339_spec(s@) is Some,
        r matches Ok(d) ==> parse_rfc3339_spec(s@) == Some(d) && d.nanos < 2_000_000_000
            && -86_400 < d.offset_secs < 86_400 && -62_200_000_000 < d.secs < 253_500_000_000,
{
    match chrono::DateTime::parse_from_rfc3339(s) {
        Ok(dt) => Ok(
            DateTimeParts {
                secs: dt.timestamp(),
                nanos: dt.timestamp_subsec_nanos(),
                offset_secs: dt.offset().local_minus_utc(),
            },
        ),
        Err(e) => Err(e.to_string()),
    }
}

/// Parses an RFC 3339 date-time; the error names the rejected text's problem
/// as chrono reports it.
pub fn parse_date_time_from_rfc3339(date_time: &str) -> (r: Result<DateTimeParts, String>)
    ensures
        r is Ok <==> parse_rfc3339_spec(date_time@) is Some,
        r matches Ok(d) ==> parse_rfc3339_spec(date_time@) == Some(d) && d.nanos < 2_000_000_000
            && -86_400 < d.offset_secs < 86_400 && -62_200_000_000 < d.secs < 253_500_000_000,
{
    parse_rfc3339_raw(date_time)
}

/// What chrono's `format` renders for this date-time and format string, and
/// whether it renders at all: `None` when the date-time cannot be rebuilt or
/// the format string is invalid.
pub uninterp spec fn strftime_spec(d: DateTimeParts, f: Seq<char>) -> Option<Seq<char>>;

/// Relies on `chrono::DateTime::format` (strftime syntax), written through
/// `core::fmt::Write` so that an invalid format specifier is an error, not a
/// panic; the result depends on the date-time and the format alone.
#[verifier::external_body]
fn strftime_raw(d: &DateTimeParts, f: &str) -> (r: Result<String, ()>)
    ensures
        r is Ok <==> strftime_spec(*d, f@) is Some,
        r matches Ok(s) ==> strftime_spec(*d, f@) == Some(s@),
{
    let offset = chrono::FixedOffset::east_opt(d.offset_secs).ok_or(())?;
    let utc = chrono::DateTime::from_timestamp(d.secs, d.nanos).ok_or(())?;
    let dt = utc.with_timezone(&offset);
    let mut out = String::new();
    match write!(&mut out, "{}", dt.format(f)) {
        Ok(()) => Ok(out),
        Err(_) => Err(()),
    }
}

/// Formats an RFC 3339 date-time with a strftime format string: `Ok` exactly
/// when the date-time parses and the format renders.
pub fn format_date_time(date_time: &str, format: &str) -> (r: Result<String, String>)
    ensures
        ({
            match parse_rfc3339_spec(date_time@) {
                None => r is Err,
                Some(d) => match strftime_spec(d, format@) {
                    Some(s) => r matches Ok(out) && out@ == s,
                    None => r is Err,
                },
            }
        }),
{
    let parsed = match parse_rfc3339_raw(date_time) {
        Ok(d) => d,
        Err(e) => {
            return Err(e);
        },
    };
    match strftime_raw(&parsed, format) {
        Ok(s) => Ok(s),
        Err(()) => Err(String::from_str("invalid format string for date-time")),
    }
}

/// A span of time: whole seconds and subsecond nanoseconds.
#[derive(Clone, Copy, Debug, PartialEq, Eq, Structural)]
pub struct Duration {
    pub secs: u64,
    pub nanos: u32,
}

impl Duration {
    /// The nanoseconds stay below one second.
    pub open spec fn wf(&self) -> bool {
        self.nanos < 1_000_000_000
    }

    /// The whole span in nanoseconds.
    pub open spec fn total_nanos(&self) -> int {
        self.secs * 1_000_000_000 + self.nanos
    }
}

/// How one date-time lies relative to another, with the absolute distance.
#[derive(Clone, Copy, Debug, PartialEq, Eq, Structural)]
pub enum TimeSpan {
    InTheFuture { duration: Duration },
    InThePast { duration: Duration },
    Zero { duration: Duration },
}

/// The span from `from` to `to` by instant: `InTheFuture` when `to` is
/// later, `InThePast` when earlier, `Zero` when the instants coincide, the
/// duration always their absolute distance.
pub open spec fn time_span_spec(from: DateTimeParts, to: DateTimeParts) -> TimeSpan {
    let diff = instant_nanos(to) - instant_nanos(from);
    if diff > 0 {
        TimeSpan::InTheFuture {
            duration: Duration { secs: (diff / 1_000_000_000) as u64, nanos: (diff % 1_000_000_000) as u32 },
        }
    } else if diff < 0 {
        TimeSpan::InThePast {
            duration: Duration {
                secs: ((-diff) / 1_000_000_000) as u64,
                nanos: ((-diff) % 1_000_000_000) as u32,
            },
        }
    } else {
        TimeSpan::Zero { duration: Duration { secs: 0, nanos: 0 } }
    }
}

/// Parses both RFC 3339 date-times and classifies the span from the first to
/// the second, comparing by instant; either text failing to parse is the
/// error.
pub fn sub_date_times(from_date_time: &str, to_date_time: &str) -> (r: Result<TimeSpan, String>)
    ensures
        r is Ok <==> (parse_rfc3339_spec(from_date_time@) is Some && parse_rfc3339_spec(
            to_date_time@,
        ) is Some),
        r matches Ok(span) ==> (parse_rfc3339_spec(from_date_time@) matches Some(from)
            && parse_rfc3339_spec(to_date_time@) matches Some(to) && span == time_span_spec(
            from,
            to,
        )),
{
    let from = match parse_rfc3339_raw(from_date_time) {
        Ok(d) => d,
        Err(e) => {
            return Err(e);
        },
    };
    let to = match parse_rfc3339_raw(to_date_time) {
        Ok(d) => d,
        Err(e) => {
            return Err(e);
        },
    };
    let from_nanos: i128 = (from.secs as i128) * 1_000_000_000 + (from.nanos as i128);
    let to_nanos: i128 = (to.secs as i128) * 1_000_000_000 + (to.nanos as i128);
    if to_nanos > from_nanos {
        let diff: i128 = to_nanos - from_nanos;
        let secs: u64 = (diff / 1_000_000_000) as u64;
        let nanos: u32 = (diff % 1_000_000_000) as u32;
        Ok(TimeSpan::InTheFuture { duration: Duration { secs, nanos } })
    } else if to_nanos < from_nanos {
        let diff: i128 = from_nanos - to_nanos;
        let secs: u64 = (diff / 1_000_000_000) as u64;
        let nanos: u32 = (diff % 1_000_000_000) as u32;
        Ok(TimeSpan::InThePast { duration: Duration { secs, nanos } })
    } else {
        Ok(TimeSpan::Zero { duration: Duration { secs: 0, nanos: 0 } })
    }
}

/// What the `timeago` formatter renders for a duration, configured with no
/// `ago` suffix, `0` for a too-small duration, and at most three items.
pub uninterp spec fn timeago_of(secs: int, nanos: int) -> Seq<char>;

/// Relies on `timeago::Formatter::convert` with a fixed configuration (empty
/// `ago` suffix, `0` as the too-low marker, three items at most); the result
/// depends on the duration alone.
#[verifier::external_body]
fn timeago_raw(secs: u64, nanos: u32) -> (r: String)
    requires
        nanos < 1_000_000_000,
    ensures
        r@ == timeago_of(secs as int, nanos as int),
{
    let mut formatter = timeago::Formatter::new();
    formatter.ago("");
    formatter.too_low("0");
    formatter.num_items(3);
    formatter.convert(std::time::Duration::new(secs, nanos))
}

/// Renders a duration as rough human-readable text.
pub fn format_duration(duration: &Duration) -> (r: String)
    requires
        duration.wf(),
    ensures
        r@ == timeago_of(duration.secs as int, duration.nanos as int),
{
    timeago_raw(duration.secs, duration.nanos)
}

/// `string` with `wrapping` prepended and appended.
pub fn wrap_string(string: &str, wrapping: &str) -> (r: String)
    ensures
        r@ == wrapping@ + string@ + wrapping@,
{
    let mut out = String::new();
    out.append(wrapping);
    out.append(string);
    out.append(wrapping);
    proof {
        assert((Seq::<char>::empty() + wrapping@ + string@ + wrapping@) =~= wrapping@ + string@
            + wrapping@);
    }
    out
}

/// Whether `chrono_tz` knows a time zone under this name, and the canonical
/// name it then uses for it.
pub uninterp spec fn tz_canonical(s: Seq<char>) -> Option<Seq<char>>;

/// Relies on `chrono_tz::Tz::from_str` and `Tz::name`: the lookup is a fixed
/// table keyed by the canonical names, so it depends on the text alone, a
/// canonical name maps to itself, and `UTC` is in the table.
#[verifier::external_body]
pub(crate) fn tz_lookup(s: &str) -> (r: Option<String>)
    ensures
        r is Some <==> tz_canonical(s@) is Some,
        r matches Some(n) ==> tz_canonical(s@) == Some(n@) && tz_canonical(n@) == Some(n@),
        s@ == "UTC"@ ==> r is Some,
{
    match <chrono_tz::Tz as core::str::FromStr>::from_str(s) {
        Ok(tz) => Some(tz.name().to_string()),
        Err(_) => None,
    }
}

/// Relies on `chrono::Utc::now` and `DateTime::to_rfc3339`: the current UTC
/// time rendered as RFC 3339; the instant depends on the clock, but every
/// outcome is an RFC 3339 text, so it parses back.
#[verifier::external_body]
fn utc_now_rfc3339() -> (r: String)
    ensures
        parse_rfc3339_spec(r@) is Some,
{
    chrono::Utc::now().to_rfc3339()
}

/// Relies on `chrono_tz::Tz::from_str`, `chrono::Utc::now` and
/// `DateTime::to_rfc3339`: the current time in the named zone, rendered as
/// RFC 3339; `Ok` exactly for a known zone name. The instant depends on the
/// clock, but every successful outcome is an RFC 3339 text, so it parses
/// back.
#[verifier::external_body]
fn now_rfc3339_in(tz_name: &str) -> (r: Result<String, String>)
    ensures
        r is Ok <==> tz_canonical(tz_name@) is Some,
        r matches Ok(s) ==> parse_rfc3339_spec(s@) is Some,
{
    match <chrono_tz::Tz as core::str::FromStr>::from_str(tz_name) {
        Ok(tz) => Ok(chrono::Utc::now().with_timezone(&tz).to_rfc3339()),
        Err(e) => Err(e.to_string()),
    }
}

/// The current time as RFC 3339 text: in UTC without a zone name, otherwise
/// in the named zone; an unknown zone name is the error. Whatever instant
/// the clock gave, a successful result parses back as an RFC 3339
/// date-time.
pub fn now(timezone: Option<&str>) -> (r: Result<String, String>)
    ensures
        r is Ok <==> (match timezone {
            None => true,
            Some(t) => tz_canonical(t@) is Some,
        }),
        r matches Ok(s) ==> parse_rfc3339_spec(s@) is Some,
{
    match timezone {
        None => Ok(utc_now_rfc3339()),
        Some(t) => now_rfc3339_in(t),
    }
}

} // verus!
