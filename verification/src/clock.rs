//! Moments in time, and how they are written as text.

use vstd::prelude::*;

verus! {

/// A moment as the local clock shows it: the seconds since the start of
/// 1970 in UTC, the nanoseconds within that second, and how many seconds
/// local time is ahead of UTC.
#[derive(Clone, Copy, Debug, PartialEq, Eq, Structural)]
pub struct Moment {
    pub secs: i64,
    pub nanos: u32,
    pub offset: i32,
}

/// What chrono writes for a moment and a template; `None` where it writes
/// nothing. It depends on these four values alone.
pub uninterp spec fn formatted(secs: i64, nanos: u32, offset: i32, template: Seq<char>) -> Option<
    Seq<char>,
>;

/// The text that stands for `at` under `template`.
pub open spec fn written(at: Moment, template: Seq<char>) -> Option<Seq<char>> {
    formatted(at.secs, at.nanos, at.offset, template)
}

/// What an optional string holds.
pub open spec fn text_of(s: Option<String>) -> Option<Seq<char>> {
    match s {
        Some(t) => Some(t@),
        None => None,
    }
}

/// The moment of the call.
///
/// Trusted: calls `chrono::Local::now` and reads the result with
/// `DateTime::timestamp`, `DateTime::timestamp_subsec_nanos` and
/// `FixedOffset::local_minus_utc`. The result depends on the clock and on
/// the time zone of the machine, so nothing is claimed of it. The clock is
/// taken to stand at or after 1970.
#[verifier::external_body]
pub(crate) fn now() -> (r: Moment) {
    let t = chrono::Local::now();
    Moment {
        secs: t.timestamp(),
        nanos: t.timestamp_subsec_nanos(),
        offset: t.offset().local_minus_utc(),
    }
}

/// The moment `at`, written as `template` asks.
///
/// Trusted: builds the moment with `chrono::FixedOffset::east_opt`,
/// `chrono::DateTime::from_timestamp` and `DateTime::with_timezone`, and
/// writes it with `DateTime::format` and `DelayedFormat::write_to`. The
/// claim is that the outcome is a function of the moment and the template
/// alone; what the text is, is left to chrono. `None` stands for an offset
/// or a timestamp that chrono refuses and for the formatting error that it
/// reports for a template it cannot read.
#[verifier::external_body]
pub(crate) fn format_at(at: Moment, template: &str) -> (r: Option<String>)
    ensures
        text_of(r) == formatted(at.secs, at.nanos, at.offset, template@),
{
    let zone = chrono::FixedOffset::east_opt(at.offset)?;
    let utc = chrono::DateTime::from_timestamp(at.secs, at.nanos)?;
    let mut out = String::new();
    match utc.with_timezone(&zone).format(template).write_to(&mut out) {
        Ok(()) => Some(out),
        Err(_) => None,
    }
}

} // verus!
