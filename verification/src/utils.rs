//! Windows-epoch timestamp handling.
//!
//! A journal record carries its time as a count of 100-nanosecond intervals
//! since 1601-01-01T00:00:00Z. The library keeps that raw count and renders
//! it at microsecond precision through chrono; an instant outside chrono's
//! calendar range falls back to the Unix epoch rather than failing, a
//! deliberate compatibility rule of this decoder.

use vstd::prelude::*;

verus! {

/// Number of 100-nanosecond ticks in one microsecond.
pub const TICKS_PER_MICROSECOND: u64 = 10;

/// The RFC 3339 UTC rendering (`Z` suffix, seconds with subsecond digits as
/// chrono chooses them) of the instant `micros` microseconds after
/// 1601-01-01T00:00:00Z, with the instant replaced by the Unix epoch when it
/// leaves chrono's calendar range.
pub uninterp spec fn iso_utc_of(micros: u64) -> Seq<char>;

/// The human-readable UTC rendering (`YYYY-MM-DD hh:mm:ss[.frac] UTC`) of the
/// same instant, under the same fallback.
pub uninterp spec fn display_utc_of(micros: u64) -> Seq<char>;

/// Relies on chrono: shifts 1601-01-01T00:00:00 by `micros` microseconds
/// (`NaiveDateTime::checked_add_signed`, falling back to the Unix epoch when
/// the sum leaves chrono's range) and renders the instant with
/// `DateTime::to_rfc3339_opts(SecondsFormat::AutoSi, true)`, exactly as
/// chrono serializes a UTC instant. The result depends on `micros` alone.
#[verifier::external_body]
fn render_iso_utc(micros: u64) -> (r: String)
    ensures
        r@ == iso_utc_of(micros),
{
    let base = chrono::NaiveDate::from_ymd_opt(1601, 1, 1)
        .unwrap()
        .and_hms_opt(0, 0, 0)
        .unwrap();
    let shifted = match base.checked_add_signed(chrono::TimeDelta::microseconds(micros as i64)) {
        Some(t) => t,
        None => chrono::DateTime::UNIX_EPOCH.naive_utc(),
    };
    chrono::DateTime::<chrono::Utc>::from_naive_utc_and_offset(shifted, chrono::Utc)
        .to_rfc3339_opts(chrono::SecondsFormat::AutoSi, true)
}

/// Relies on chrono: same instant construction as [`render_iso_utc`], but
/// rendered through `Display` for `DateTime<Utc>`. The result depends on
/// `micros` alone.
#[verifier::external_body]
fn render_display_utc(micros: u64) -> (r: String)
    ensures
        r@ == display_utc_of(micros),
{
    let base = chrono::NaiveDate::from_ymd_opt(1601, 1, 1)
        .unwrap()
        .and_hms_opt(0, 0, 0)
        .unwrap();
    let shifted = match base.checked_add_signed(chrono::TimeDelta::microseconds(micros as i64)) {
        Some(t) => t,
        None => chrono::DateTime::UNIX_EPOCH.naive_utc(),
    };
    format!("{}", chrono::DateTime::<chrono::Utc>::from_naive_utc_and_offset(shifted, chrono::Utc))
}

/// A UTC instant read from the wire: a count of 100-nanosecond intervals
/// since 1601-01-01T00:00:00Z, kept at full fidelity.
#[derive(Clone, Copy, Debug, PartialEq, Eq, Structural)]
pub struct WinTimestamp {
    pub ticks: u64,
}

impl WinTimestamp {
    /// Wraps a raw 100-nanosecond tick count.
    pub fn new(ticks: u64) -> (r: Self)
        ensures
            r.ticks == ticks,
    {
        WinTimestamp { ticks }
    }

    /// Whole microseconds since 1601-01-01T00:00:00Z: the precision at which
    /// the instant is rendered (the remainder below one microsecond is
    /// discarded).
    pub fn micros(&self) -> (r: u64)
        ensures
            r == self.ticks / TICKS_PER_MICROSECOND,
    {
        self.ticks / TICKS_PER_MICROSECOND
    }

    /// RFC 3339 UTC rendering at microsecond precision.
    pub fn to_iso_string(&self) -> (r: String)
        ensures
            r@ == iso_utc_of(self.ticks / TICKS_PER_MICROSECOND),
    {
        render_iso_utc(self.micros())
    }

    /// Human-readable UTC rendering at microsecond precision.
    pub fn to_display_string(&self) -> (r: String)
        ensures
            r@ == display_utc_of(self.ticks / TICKS_PER_MICROSECOND),
    {
        render_display_utc(self.micros())
    }
}

/// Converts a 64-bit Windows tick count into the library's instant type.
pub fn u64_to_datetime(timestamp_u64: u64) -> (r: WinTimestamp)
    ensures
        r.ticks == timestamp_u64,
{
    WinTimestamp { ticks: timestamp_u64 }
}

} // verus!
