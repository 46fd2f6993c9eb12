//! Instants as the library holds them: seconds and nanoseconds since the Unix
//! epoch, with the UTC offset the instant was written in. Reading and writing
//! them as text is left to the `time` crate.

use vstd::prelude::*;

verus! {

/// An instant with the UTC offset it was written in.
///
/// `==` compares all three fields; [`Timestamp::same_instant`] ignores the
/// offset.
#[derive(Clone, Copy, Debug, PartialEq, Eq, Structural)]
pub struct Timestamp {
    /// Whole seconds since 1970-01-01T00:00:00Z.
    pub unix_seconds: i64,
    /// Nanoseconds within the second.
    pub nanosecond: u32,
    /// Offset from UTC in seconds, east positive.
    pub offset_seconds: i32,
}

/// Declares `time::error::Parse`, which is carried through unread.
#[verifier::external_type_specification]
#[verifier::external_body]
pub struct ExTimeParseError(time::error::Parse);

/// The instant that `time::OffsetDateTime::parse` reads from a text in the
/// RFC 3339 format, or `None` where it reports an error.
pub uninterp spec fn rfc3339_instant(text: Seq<char>) -> Option<Timestamp>;

/// Calls `time::OffsetDateTime::parse` with the well-known format `Rfc3339`
/// and reads the result through `unix_timestamp`, `nanosecond` and
/// `offset().whole_seconds()`. The outcome depends on the text alone: the
/// instant, which this library names `rfc3339_instant`, or the crate's error.
#[verifier::external_body]
fn instant_from_rfc3339(text: &str) -> (out: Result<Timestamp, time::error::Parse>)
    ensures
        match out {
            Ok(t) => rfc3339_instant(text@) == Some(t),
            Err(_) => rfc3339_instant(text@) is None,
        },
{
    time::OffsetDateTime::parse(text, &time::format_description::well_known::Rfc3339).map(
        |t| Timestamp {
            unix_seconds: t.unix_timestamp(),
            nanosecond: t.nanosecond(),
            offset_seconds: t.offset().whole_seconds(),
        },
    )
}

impl Timestamp {
    /// Nanoseconds since the Unix epoch.
    pub open spec fn nanos(self) -> int {
        self.unix_seconds * 1_000_000_000 + self.nanosecond
    }

    /// Whole seconds from `earlier` to `self`; zero when `self` is not later.
    pub open spec fn whole_seconds_since(self, earlier: Timestamp) -> nat {
        if self.nanos() <= earlier.nanos() {
            0
        } else {
            ((self.nanos() - earlier.nanos()) / 1_000_000_000) as nat
        }
    }

    /// Reads an instant from RFC 3339 text.
    pub fn parse_rfc3339(text: &str) -> (out: Result<Timestamp, time::error::Parse>)
        ensures
            match out {
                Ok(t) => rfc3339_instant(text@) == Some(t),
                Err(_) => rfc3339_instant(text@) is None,
            },
    {
        instant_from_rfc3339(text)
    }

    /// Whether two timestamps denote the same instant, whatever their offsets.
    pub fn same_instant(&self, other: &Timestamp) -> (same: bool)
        ensures
            same == (self.unix_seconds == other.unix_seconds && self.nanosecond
                == other.nanosecond),
    {
        self.unix_seconds == other.unix_seconds && self.nanosecond == other.nanosecond
    }

    /// Whole seconds from `earlier` to `self`, zero when `self` is not later,
    /// and `u64::MAX` where the number does not fit (no two timestamps with
    /// `nanosecond` below one second are that far apart).
    pub fn seconds_since(&self, earlier: &Timestamp) -> (seconds: u64)
        ensures
            seconds == if self.whole_seconds_since(*earlier) <= u64::MAX {
                self.whole_seconds_since(*earlier)
            } else {
                u64::MAX as nat
            },
    {
        let whole: i128 = self.unix_seconds as i128 - earlier.unix_seconds as i128;
        let part: i128 = self.nanosecond as i128 - earlier.nanosecond as i128;
        let diff: i128 = whole * 1_000_000_000 + part;
        if diff <= 0 {
            0
        } else {
            let seconds: i128 = diff / 1_000_000_000;
            if seconds > u64::MAX as i128 {
                u64::MAX
            } else {
                seconds as u64
            }
        }
    }
}

/// What the `Display` of `time::OffsetDateTime` writes for an instant in its
/// offset, or `None` where the crate has no date and time for it.
pub uninterp spec fn displayed_instant(instant: Timestamp) -> Option<Seq<char>>;

/// What `time::OffsetDateTime::format` writes for an instant in the RFC 3339
/// format, or `None` where the crate has no date and time for it or reports
/// an error.
pub uninterp spec fn rfc3339_text(instant: Timestamp) -> Option<Seq<char>>;

/// Builds the `time::OffsetDateTime` of an instant, by `from_unix_timestamp`,
/// `replace_nanosecond` and `checked_to_offset`, and calls its `to_string`.
/// The outcome depends on the instant alone; this library names it
/// `displayed_instant`.
#[verifier::external_body]
fn display_instant(instant: Timestamp) -> (out: Option<String>)
    ensures
        out.deep_view() == displayed_instant(instant),
{
    let offset = time::UtcOffset::from_whole_seconds(instant.offset_seconds).ok()?;
    let utc = time::OffsetDateTime::from_unix_timestamp(instant.unix_seconds).ok()?;
    let local = utc.replace_nanosecond(instant.nanosecond).ok()?.checked_to_offset(offset)?;
    Some(local.to_string())
}

/// Builds the `time::OffsetDateTime` of an instant, by `from_unix_timestamp`,
/// `replace_nanosecond` and `checked_to_offset`, and calls its `format` with
/// the well-known format `Rfc3339`. The outcome depends on the instant alone;
/// this library names it `rfc3339_text`.
#[verifier::external_body]
fn format_rfc3339(instant: Timestamp) -> (out: Option<String>)
    ensures
        out.deep_view() == rfc3339_text(instant),
{
    let offset = time::UtcOffset::from_whole_seconds(instant.offset_seconds).ok()?;
    let utc = time::OffsetDateTime::from_unix_timestamp(instant.unix_seconds).ok()?;
    let local = utc.replace_nanosecond(instant.nanosecond).ok()?.checked_to_offset(offset)?;
    local.format(&time::format_description::well_known::Rfc3339).ok()
}

impl Timestamp {
    /// The instant as a store shows it: date, time and offset.
    pub fn to_display_string(&self) -> (out: Option<String>)
        ensures
            out.deep_view() == displayed_instant(*self),
    {
        display_instant(*self)
    }

    /// The instant in the RFC 3339 format.
    pub fn to_rfc3339(&self) -> (out: Option<String>)
        ensures
            out.deep_view() == rfc3339_text(*self),
    {
        format_rfc3339(*self)
    }
}

} // verus!
