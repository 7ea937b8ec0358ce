//! The texts an episode row shows: its date, its duration and its sizes.
use vstd::prelude::*;
use chrono::Datelike;
use std::fmt::Write;
use humansize::FileSize;
use humansize::file_size_opts::{FileSizeOpts, Kilo, CONVENTIONAL};
use crate::text::{decimal, decimal_of, string_of, trim, trim_chars, chars_of};

verus! {

// ---------------------------------------------------------------------------
// Dates
// ---------------------------------------------------------------------------

/// The year, in UTC, of the instant `secs` seconds after the UNIX epoch, as chrono
/// reckons it (`DateTime::from_timestamp` then `Datelike::year`); `None` where chrono
/// cannot represent the instant.
pub uninterp spec fn utc_year_of(secs: i64) -> Option<i32>;

/// The instant `secs` seconds after the UNIX epoch, in UTC, formatted by chrono with
/// the strftime pattern `fmt` (English month and day names); `None` where chrono
/// cannot represent the instant or the pattern is not valid.
pub uninterp spec fn utc_formatted(secs: i64, fmt: Seq<char>) -> Option<Seq<char>>;

/// Calls chrono's `DateTime::from_timestamp` and `Datelike::year`. Claimed: the result
/// is `utc_year_of(secs)`, and it is `Some` for instants within 10^12 seconds of the
/// epoch (chrono reaches about 8 * 10^12 seconds either way).
#[verifier::external_body]
fn utc_year(secs: i64) -> (r: Option<i32>)
    ensures
        r == utc_year_of(secs),
        -1_000_000_000_000 <= secs <= 1_000_000_000_000 ==> r is Some,
{
    match chrono::DateTime::from_timestamp(secs, 0) {
        Some(date) => Some(date.year()),
        None => None,
    }
}

/// Calls chrono's `DateTime::from_timestamp` and `DateTime::format`, writing the
/// result so that an invalid pattern gives `None` rather than a panic. Claimed: the
/// result is `utc_formatted(secs, fmt)`, and it is `Some` for the patterns of the date
/// labels (`%e %b` and `%e %b %Y`, both valid) at instants within 10^12 seconds of
/// the epoch, which chrono represents.
#[verifier::external_body]
fn utc_format(secs: i64, fmt: &str) -> (r: Option<String>)
    ensures
        -1_000_000_000_000 <= secs <= 1_000_000_000_000 && (fmt@ == "%e %b"@ || fmt@
            == "%e %b %Y"@) ==> r is Some,
        r matches Some(s) ==> utc_formatted(secs, fmt@) == Some(s@),
        r is None ==> utc_formatted(secs, fmt@) is None,
{
    match chrono::DateTime::from_timestamp(secs, 0) {
        Some(date) => {
            let mut out = String::new();
            match write!(out, "{}", date.format(fmt)) {
                Ok(()) => Some(out),
                Err(_) => None,
            }
        },
        None => None,
    }
}

/// The label of a publication date: day and month (`%e %b`) for a date in the same
/// year as `now`, day, month and year (`%e %b %Y`) otherwise, trimmed.
pub open spec fn date_label_of(epoch: i32, now: i64) -> Option<Seq<char>> {
    let fmt = if utc_year_of(epoch as i64) == utc_year_of(now) {
        "%e %b"@
    } else {
        "%e %b %Y"@
    };
    match utc_formatted(epoch as i64, fmt) {
        Some(t) => Some(trim(t)),
        None => None,
    }
}

/// The date label of an episode published at `epoch` (seconds since the UNIX epoch),
/// seen at `now`: the year is shown only when it differs from the current one.
pub fn date_label(epoch: i32, now: i64) -> (r: Option<String>)
    ensures
        r is Some,
        r matches Some(s) ==> date_label_of(epoch, now) == Some(s@),
        r is None ==> date_label_of(epoch, now) is None,
{
    let year = utc_year(epoch as i64);
    let this_year = utc_year(now);
    let same_year = match (year, this_year) {
        (Some(a), Some(b)) => a == b,
        (None, None) => true,
        _ => false,
    };
    let text = if same_year {
        utc_format(epoch as i64, "%e %b")
    } else {
        utc_format(epoch as i64, "%e %b %Y")
    };
    match text {
        Some(t) => {
            let v = chars_of(t.as_str());
            let trimmed = trim_chars(&v);
            Some(string_of(&trimmed))
        },
        None => None,
    }
}

// ---------------------------------------------------------------------------
// Durations
// ---------------------------------------------------------------------------

/// Whole minutes in `secs` seconds, rounded toward zero, as chrono's
/// `Duration::seconds(secs).num_minutes()` counts them.
pub open spec fn whole_minutes(secs: int) -> int {
    if secs >= 0 {
        secs / 60
    } else {
        -((-secs) / 60)
    }
}

/// The label of a duration: `"<minutes> min"`, or none where the duration is unknown
/// or under a minute.
pub open spec fn duration_label_of(seconds: Option<i32>) -> Option<Seq<char>> {
    match seconds {
        Some(s) => if whole_minutes(s as int) == 0 {
            None
        } else {
            Some(decimal(whole_minutes(s as int)) + seq![' ', 'm', 'i', 'n'])
        },
        None => None,
    }
}

/// The duration label of an episode that lasts `seconds`.
pub fn duration_label(seconds: Option<i32>) -> (r: Option<String>)
    ensures
        r matches Some(s) ==> duration_label_of(seconds) == Some(s@),
        r is None ==> duration_label_of(seconds) is None,
{
    let s = match seconds {
        Some(s) => s as i64,
        None => return None,
    };
    let minutes: i64 = if s >= 0 {
        s / 60
    } else {
        -((-s) / 60)
    };
    if minutes == 0 {
        return None;
    }
    let mut v = decimal_of(minutes);
    v.push(' ');
    v.push('m');
    v.push('i');
    v.push('n');
    Some(string_of(&v))
}

// ---------------------------------------------------------------------------
// Sizes
// ---------------------------------------------------------------------------

/// How humansize writes a size: the options of its `FileSizeOpts` other than a fixed
/// scale, a suffix and negative values, which stay off.
#[derive(Clone, Copy)]
pub struct SizeFormat {
    /// Divide by 1024 rather than by 1000.
    pub binary_divider: bool,
    /// Write binary units (`KiB`) rather than decimal ones (`KB`).
    pub binary_units: bool,
    pub decimal_places: usize,
    pub decimal_zeroes: usize,
    pub long_units: bool,
    pub space: bool,
}

/// The format of the sizes of an episode row: 1024-based with decimal unit names, no
/// decimals, short units and a space (`"12 MB"`).
pub open spec fn row_size_format() -> SizeFormat {
    SizeFormat {
        binary_divider: true,
        binary_units: false,
        decimal_places: 0,
        decimal_zeroes: 0,
        long_units: false,
        space: true,
    }
}

/// The format of the sizes of an episode row.
pub fn episode_size_format() -> (f: SizeFormat)
    ensures
        f == row_size_format(),
{
    SizeFormat {
        binary_divider: true,
        binary_units: false,
        decimal_places: 0,
        decimal_zeroes: 0,
        long_units: false,
        space: true,
    }
}

/// What humansize's `FileSize::file_size` writes for `bytes` (a `u64`) in the format
/// `fmt`.
pub uninterp spec fn human_size(bytes: u64, fmt: SizeFormat) -> Seq<char>;

/// Calls `<u64 as humansize::FileSize>::file_size` with the options of `fmt`, no
/// fixed scale and no suffix. Claimed: it succeeds (its source returns `Ok` for
/// every unsigned value) with `human_size(bytes, fmt)`. The precisions are kept to
/// what `format!` accepts as a precision argument (at most 65535).
#[verifier::external_body]
fn file_size(bytes: u64, fmt: &SizeFormat) -> (r: Result<String, String>)
    requires
        fmt.decimal_places <= 0xffff,
        fmt.decimal_zeroes <= 0xffff,
    ensures
        r is Ok,
        r matches Ok(s) ==> s@ == human_size(bytes, *fmt),
{
    bytes.file_size(FileSizeOpts {
        divider: if fmt.binary_divider { Kilo::Binary } else { Kilo::Decimal },
        units: if fmt.binary_units { Kilo::Binary } else { Kilo::Decimal },
        decimal_places: fmt.decimal_places,
        decimal_zeroes: fmt.decimal_zeroes,
        long_units: fmt.long_units,
        space: fmt.space,
        ..CONVENTIONAL
    })
}

/// The size of an episode in bytes, written for its row.
pub fn size_text(bytes: u64) -> (r: String)
    ensures
        r@ == human_size(bytes, row_size_format()),
{
    let fmt = episode_size_format();
    match file_size(bytes, &fmt) {
        Ok(s) => s,
        Err(e) => e,
    }
}

/// Why an episode row shows no total size.
#[derive(Debug, PartialEq, Eq, Structural, Clone, Copy)]
pub enum SizeError {
    /// The feed gives no size.
    Missing,
    /// The feed gives a size of 0.
    Zero,
    /// The feed gives a negative size, which humansize refuses.
    Negative,
}

/// The total-size label of an episode whose feed gives `bytes`.
pub open spec fn total_size_label_of(bytes: Option<i32>) -> Result<Seq<char>, SizeError> {
    match bytes {
        None => Err(SizeError::Missing),
        Some(b) => if b == 0 {
            Err(SizeError::Zero)
        } else if b < 0 {
            Err(SizeError::Negative)
        } else {
            Ok(human_size(b as u64, row_size_format()))
        },
    }
}

/// The total-size label of an episode: humansize's text for the size the feed gives.
/// It fails where there is no size or it is 0; a negative size fails as humansize
/// fails on it (`FileSize` for `i32` refuses negative values unless told otherwise,
/// and writes the others as the `u64` they equal).
pub fn total_size_label(bytes: Option<i32>) -> (r: Result<String, SizeError>)
    ensures
        r matches Ok(s) ==> total_size_label_of(bytes) == Ok::<Seq<char>, SizeError>(s@),
        r matches Err(e) ==> total_size_label_of(bytes) == Err::<Seq<char>, SizeError>(e),
{
    match bytes {
        None => Err(SizeError::Missing),
        Some(b) => {
            if b == 0 {
                Err(SizeError::Zero)
            } else if b < 0 {
                Err(SizeError::Negative)
            } else {
                Ok(size_text(b as u64))
            }
        },
    }
}

/// One tick of the total-size updater of a download: while the server has not said
/// how large the file is (`total_bytes == 0`) there is nothing to show and the
/// updater keeps polling (`None`); once it has, the label to show, after which the
/// updater stops.
pub fn total_size_step(total_bytes: u64) -> (r: Option<String>)
    ensures
        total_bytes == 0 ==> r is None,
        total_bytes != 0 ==> r is Some,
        r matches Some(s) ==> s@ == human_size(total_bytes, row_size_format()),
{
    if total_bytes != 0 {
        Some(size_text(total_bytes))
    } else {
        None
    }
}


/// The year is left out of the date label exactly when the episode's UTC year is the
/// current UTC year: in a year other than now's the label is chrono's `%e %b %Y`
/// rendering of the date, in now's year its `%e %b` rendering, both trimmed.
pub proof fn lemma_date_label_year(epoch: i32, now: i64)
    ensures
        utc_year_of(epoch as i64) != utc_year_of(now) ==> date_label_of(epoch, now) == match utc_formatted(
            epoch as i64,
            "%e %b %Y"@,
        ) {
            Some(t) => Some(trim(t)),
            None => None::<Seq<char>>,
        },
        utc_year_of(epoch as i64) == utc_year_of(now) ==> date_label_of(epoch, now) == match utc_formatted(
            epoch as i64,
            "%e %b"@,
        ) {
            Some(t) => Some(trim(t)),
            None => None::<Seq<char>>,
        },
{
}


/// A duration label counts whole minutes, rounded toward zero, and exists only for
/// durations of a minute or more either way.
pub proof fn lemma_duration_label_minutes(s: i32)
    ensures
        duration_label_of(None) is None,
        -60 < s < 60 <==> duration_label_of(Some(s)) is None,
        s >= 60 ==> duration_label_of(Some(s)) == Some(
            decimal(s / 60) + seq![' ', 'm', 'i', 'n'],
        ),
        s <= -60 ==> duration_label_of(Some(s)) == Some(
            decimal(-((-s) / 60)) + seq![' ', 'm', 'i', 'n'],
        ),
{
}

/// A total size is shown exactly for a positive size, as humansize writes it with a
/// 1024 divider, decimal unit names, no decimals, short units and a space.
pub proof fn lemma_total_size_shown(bytes: Option<i32>)
    ensures
        total_size_label_of(bytes) is Ok <==> (bytes matches Some(b) && b > 0),
        bytes matches Some(b) ==> b > 0 ==> total_size_label_of(bytes) == Ok::<
            Seq<char>,
            SizeError,
        >(
            human_size(
                b as u64,
                SizeFormat {
                    binary_divider: true,
                    binary_units: false,
                    decimal_places: 0,
                    decimal_zeroes: 0,
                    long_units: false,
                    space: true,
                },
            ),
        ),
        bytes is None ==> total_size_label_of(bytes) == Err::<Seq<char>, SizeError>(
            SizeError::Missing,
        ),
        bytes == Some(0i32) ==> total_size_label_of(bytes) == Err::<Seq<char>, SizeError>(
            SizeError::Zero,
        ),
{
}

} // verus!
