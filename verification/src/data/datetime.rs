//! Dates and times as fixed-point seconds since the first of January 1970.

use vstd::prelude::*;
use crate::fixed::{finite, is_finite, narrow, narrow_wide, COORD_MAX, NAN, SCALE};

verus! {

/// The name under which RFC 3339 timestamps are known among the date formats.
pub const RFC3339_FORMAT: &'static str = "__rfc3339__";

/// The pattern by which a moment is written to the second.
pub const SECONDS_PATTERN: &'static str = "%Y-%m-%d %H:%M:%S";

/// The pattern by which a moment is written to the millisecond.
pub const MILLIS_PATTERN: &'static str = "%Y-%m-%d %H:%M:%S%.3f";

/// How many date patterns are tried.
pub const DATE_FORMAT_COUNT: usize = 20;

/// How many values of a column are looked at to find its date format.
pub const SAMPLE_SIZE: usize = 100;

/// The text of date pattern `i`, for `i` below [`DATE_FORMAT_COUNT`].
pub open spec fn pattern_text(i: int) -> Seq<char> {
    if i == 0 {
        "%Y-%m-%dT%H:%M:%S%.f"@
    } else if i == 1 {
        "%Y-%m-%dT%H:%M:%S"@
    } else if i == 2 {
        "%Y-%m-%d %H:%M:%S"@
    } else if i == 3 {
        "%m/%d/%Y %H:%M:%S"@
    } else if i == 4 {
        "%d/%m/%Y %H:%M:%S"@
    } else if i == 5 {
        "%Y/%m/%d %H:%M:%S"@
    } else if i == 6 {
        "%m-%d-%Y %H:%M:%S"@
    } else if i == 7 {
        "%d-%m-%Y %H:%M:%S"@
    } else if i == 8 {
        "%Y-%m-%d %H:%M:%S%.f"@
    } else if i == 9 {
        "%m/%d/%Y %H:%M:%S%.f"@
    } else if i == 10 {
        "%d/%m/%Y %H:%M:%S%.f"@
    } else if i == 11 {
        "%Y/%m/%d %H:%M:%S%.f"@
    } else if i == 12 {
        "%m-%d-%Y %H:%M:%S%.f"@
    } else if i == 13 {
        "%d-%m-%Y %H:%M:%S%.f"@
    } else if i == 14 {
        "%Y-%m-%d"@
    } else if i == 15 {
        "%m/%d/%Y"@
    } else if i == 16 {
        "%d/%m/%Y"@
    } else if i == 17 {
        "%Y/%m/%d"@
    } else if i == 18 {
        "%m-%d-%Y"@
    } else {
        "%d-%m-%Y"@
    }
}

/// Date pattern `i`.
pub fn date_pattern(i: usize) -> (p: &'static str)
    ensures
        p@ == pattern_text(i as int),
{
    if i == 0 {
        "%Y-%m-%dT%H:%M:%S%.f"
    } else if i == 1 {
        "%Y-%m-%dT%H:%M:%S"
    } else if i == 2 {
        "%Y-%m-%d %H:%M:%S"
    } else if i == 3 {
        "%m/%d/%Y %H:%M:%S"
    } else if i == 4 {
        "%d/%m/%Y %H:%M:%S"
    } else if i == 5 {
        "%Y/%m/%d %H:%M:%S"
    } else if i == 6 {
        "%m-%d-%Y %H:%M:%S"
    } else if i == 7 {
        "%d-%m-%Y %H:%M:%S"
    } else if i == 8 {
        "%Y-%m-%d %H:%M:%S%.f"
    } else if i == 9 {
        "%m/%d/%Y %H:%M:%S%.f"
    } else if i == 10 {
        "%d/%m/%Y %H:%M:%S%.f"
    } else if i == 11 {
        "%Y/%m/%d %H:%M:%S%.f"
    } else if i == 12 {
        "%m-%d-%Y %H:%M:%S%.f"
    } else if i == 13 {
        "%d-%m-%Y %H:%M:%S%.f"
    } else if i == 14 {
        "%Y-%m-%d"
    } else if i == 15 {
        "%m/%d/%Y"
    } else if i == 16 {
        "%d/%m/%Y"
    } else if i == 17 {
        "%Y/%m/%d"
    } else if i == 18 {
        "%m-%d-%Y"
    } else {
        "%d-%m-%Y"
    }
}

// ---------------------------------------------------------------------------
// What the calendar library reads
// ---------------------------------------------------------------------------

/// The milliseconds since 1970 of an RFC 3339 timestamp, as
/// `chrono::DateTime::parse_from_rfc3339` reads it; none if it reads none.
pub uninterp spec fn rfc3339_millis_of(value: Seq<char>) -> Option<i64>;

/// The milliseconds since 1970 of a date and time without zone, as
/// `chrono::NaiveDateTime::parse_from_str` reads it by a pattern.
pub uninterp spec fn datetime_millis_of(value: Seq<char>, pattern: Seq<char>) -> Option<i64>;

/// The seconds since 1970 of the start of a day, as
/// `chrono::NaiveDate::parse_from_str` reads the day by a pattern.
pub uninterp spec fn date_seconds_of(value: Seq<char>, pattern: Seq<char>) -> Option<i64>;

/// The text of a moment, as `chrono::DateTime::format` writes it by a
/// pattern; none for a moment outside the calendar.
pub uninterp spec fn moment_text_of(seconds: i64, nanos: u32, pattern: Seq<char>) -> Option<Seq<char>>;

/// `chrono::DateTime::parse_from_rfc3339`, then `timestamp_millis`: the
/// moment that an RFC 3339 timestamp names, in milliseconds since 1970 in
/// universal time. The result depends on the text alone.
#[verifier::external_body]
fn rfc3339_millis(value: &str) -> (r: Option<i64>)
    ensures
        r == rfc3339_millis_of(value@),
{
    chrono::DateTime::parse_from_rfc3339(value).ok().map(|dt| dt.timestamp_millis())
}

/// `chrono::NaiveDateTime::parse_from_str`, then `timestamp_millis` of the
/// result taken as universal time. The result depends on the two texts alone.
#[verifier::external_body]
fn datetime_millis(value: &str, pattern: &str) -> (r: Option<i64>)
    ensures
        r == datetime_millis_of(value@, pattern@),
{
    chrono::NaiveDateTime::parse_from_str(value, pattern).ok().map(
        |dt| dt.and_utc().timestamp_millis(),
    )
}

/// `chrono::NaiveDate::parse_from_str`, then `timestamp` of the start of
/// that day taken as universal time. The result depends on the two texts alone.
#[verifier::external_body]
fn date_seconds(value: &str, pattern: &str) -> (r: Option<i64>)
    ensures
        r == date_seconds_of(value@, pattern@),
{
    chrono::NaiveDate::parse_from_str(value, pattern).ok().and_then(|d| d.and_hms_opt(0, 0, 0)).map(
        |dt| dt.and_utc().timestamp(),
    )
}

/// `chrono::DateTime::from_timestamp`, then `format` by one of the two
/// patterns of this module: the text of the moment in universal time,
/// which depends on the moment and the pattern alone.
#[verifier::external_body]
fn moment_text(seconds: i64, nanos: u32, pattern: &str) -> (r: Option<String>)
    requires
        nanos < 1_000_000_000,
        pattern@ == SECONDS_PATTERN@ || pattern@ == MILLIS_PATTERN@,
    ensures
        match r {
            Some(s) => moment_text_of(seconds, nanos, pattern@) == Some(s@),
            None => moment_text_of(seconds, nanos, pattern@).is_none(),
        },
{
    chrono::DateTime::<chrono::Utc>::from_timestamp(seconds, nanos).map(
        |dt| dt.format(pattern).to_string(),
    )
}

// ---------------------------------------------------------------------------
// Model
// ---------------------------------------------------------------------------

/// Whether a text is an RFC 3339 timestamp.
pub open spec fn reads_as_rfc3339(value: Seq<char>) -> bool {
    rfc3339_millis_of(value).is_some()
}

/// Whether a text is a date, with or without time, by a pattern.
pub open spec fn reads_by_pattern(value: Seq<char>, pattern: Seq<char>) -> bool {
    datetime_millis_of(value, pattern).is_some() || date_seconds_of(value, pattern).is_some()
}

/// The moment that a text names by a format, in fixed-point seconds since
/// 1970: by RFC 3339 for the format of that name, else by the format as a
/// pattern, read as date with time or, failing that, as a date.
pub open spec fn timestamp_of(value: Seq<char>, format: Seq<char>) -> Option<i64> {
    if format == RFC3339_FORMAT@ {
        match rfc3339_millis_of(value) {
            Some(ms) => Some(narrow(ms * 1000)),
            None => None,
        }
    } else {
        match datetime_millis_of(value, format) {
            Some(ms) => Some(narrow(ms * 1000)),
            None => match date_seconds_of(value, format) {
                Some(s) => Some(narrow(s * SCALE)),
                None => None,
            },
        }
    }
}

/// The positions of the first texts of `values` that are not empty, at most
/// `limit` of them, among the first `upto` texts.
pub open spec fn sample_positions(values: Seq<String>, limit: int, upto: int) -> Seq<int>
    decreases upto,
{
    if upto <= 0 {
        Seq::empty()
    } else {
        let rest = sample_positions(values, limit, upto - 1);
        if values[upto - 1]@.len() > 0 && rest.len() < limit {
            rest.push(upto - 1)
        } else {
            rest
        }
    }
}

/// How many of the first `upto` texts of the sample are RFC 3339 timestamps.
pub open spec fn rfc3339_count(values: Seq<String>, sample: Seq<int>, upto: int) -> int
    decreases upto,
{
    if upto <= 0 {
        0
    } else {
        rfc3339_count(values, sample, upto - 1) + if reads_as_rfc3339(values[sample[upto - 1]]@) {
            1int
        } else {
            0int
        }
    }
}

/// How many of the first `upto` texts of the sample are dates by pattern `p`.
pub open spec fn pattern_count(values: Seq<String>, sample: Seq<int>, p: int, upto: int) -> int
    decreases upto,
{
    if upto <= 0 {
        0
    } else {
        pattern_count(values, sample, p, upto - 1) + if reads_by_pattern(
            values[sample[upto - 1]]@,
            pattern_text(p),
        ) {
            1int
        } else {
            0int
        }
    }
}

/// The best format after RFC 3339 and the first `upto` patterns: `-1` for
/// RFC 3339, the number of a pattern, or `-2` while none read any text. A
/// later format wins only with strictly more texts.
pub open spec fn best_format(values: Seq<String>, sample: Seq<int>, upto: int) -> int
    decreases upto,
{
    if upto <= 0 {
        if rfc3339_count(values, sample, sample.len() as int) > 0 {
            -1
        } else {
            -2
        }
    } else {
        let prev = best_format(values, sample, upto - 1);
        if pattern_count(values, sample, upto - 1, sample.len() as int) > best_count(
            values,
            sample,
            upto - 1,
        ) {
            upto - 1
        } else {
            prev
        }
    }
}

/// How many texts the best format after RFC 3339 and the first `upto`
/// patterns reads.
pub open spec fn best_count(values: Seq<String>, sample: Seq<int>, upto: int) -> int
    decreases upto,
{
    if upto <= 0 {
        rfc3339_count(values, sample, sample.len() as int)
    } else {
        let prev = best_count(values, sample, upto - 1);
        if pattern_count(values, sample, upto - 1, sample.len() as int) > prev {
            pattern_count(values, sample, upto - 1, sample.len() as int)
        } else {
            prev
        }
    }
}

/// The name of a format by its number.
pub open spec fn format_name(f: int) -> Seq<char> {
    if f == -1 {
        RFC3339_FORMAT@
    } else {
        pattern_text(f)
    }
}

// ---------------------------------------------------------------------------
// Executable code
// ---------------------------------------------------------------------------

/// Collects the positions of the sample: the first texts that are not
/// empty, at most [`SAMPLE_SIZE`].
pub fn sample_of(values: &[String]) -> (sample: Vec<usize>)
    ensures
        sample@.len() <= SAMPLE_SIZE,
        sample@.len() == sample_positions(values@, SAMPLE_SIZE as int, values@.len() as int).len(),
        forall|k: int|
            0 <= k < sample@.len() ==> (#[trigger] sample@[k]) as int == sample_positions(
                values@,
                SAMPLE_SIZE as int,
                values@.len() as int,
            )[k] && sample@[k] < values@.len(),
{
    let mut sample: Vec<usize> = Vec::new();
    let mut i: usize = 0;
    while i < values.len()
        invariant
            i <= values.len(),
            sample@.len() <= SAMPLE_SIZE,
            sample@.len() == sample_positions(values@, SAMPLE_SIZE as int, i as int).len(),
            forall|k: int|
                0 <= k < sample@.len() ==> (#[trigger] sample@[k]) as int == sample_positions(
                    values@,
                    SAMPLE_SIZE as int,
                    i as int,
                )[k] && sample@[k] < values@.len(),
        decreases values.len() - i,
    {
        if !values[i].as_str().is_empty() && sample.len() < SAMPLE_SIZE {
            sample.push(i);
        }
        i += 1;
    }
    sample
}

/// The sample positions as mathematical integers.
pub open spec fn positions(sample: Seq<usize>) -> Seq<int> {
    Seq::new(sample.len(), |k: int| sample[k] as int)
}

fn count_rfc3339(values: &[String], sample: &Vec<usize>) -> (n: usize)
    requires
        forall|k: int| 0 <= k < sample@.len() ==> (#[trigger] sample@[k]) < values@.len(),
    ensures
        n == rfc3339_count(values@, positions(sample@), sample@.len() as int),
        n <= sample@.len(),
{
    let mut n: usize = 0;
    let mut k: usize = 0;
    while k < sample.len()
        invariant
            k <= sample.len(),
            n <= k,
            forall|j: int| 0 <= j < sample@.len() ==> (#[trigger] sample@[j]) < values@.len(),
            n == rfc3339_count(values@, positions(sample@), k as int),
        decreases sample.len() - k,
    {
        if rfc3339_millis(values[sample[k]].as_str()).is_some() {
            n += 1;
        }
        k += 1;
    }
    n
}

fn count_pattern(values: &[String], sample: &Vec<usize>, p: usize) -> (n: usize)
    requires
        forall|k: int| 0 <= k < sample@.len() ==> (#[trigger] sample@[k]) < values@.len(),
    ensures
        n == pattern_count(values@, positions(sample@), p as int, sample@.len() as int),
        n <= sample@.len(),
{
    let pattern = date_pattern(p);
    let mut n: usize = 0;
    let mut k: usize = 0;
    while k < sample.len()
        invariant
            k <= sample.len(),
            n <= k,
            pattern@ == pattern_text(p as int),
            forall|j: int| 0 <= j < sample@.len() ==> (#[trigger] sample@[j]) < values@.len(),
            n == pattern_count(values@, positions(sample@), p as int, k as int),
        decreases sample.len() - k,
    {
        let value = values[sample[k]].as_str();
        if datetime_millis(value, pattern).is_some() || date_seconds(value, pattern).is_some() {
            n += 1;
        }
        k += 1;
    }
    n
}

/// Whether a text is a date, with or without time, by a pattern.
pub fn reads_by(value: &str, pattern: &str) -> (r: bool)
    ensures
        r == reads_by_pattern(value@, pattern@),
{
    datetime_millis(value, pattern).is_some() || date_seconds(value, pattern).is_some()
}

/// Finds the date format that reads most of a sample of the column: the
/// first texts that are not empty, at most a hundred. RFC 3339 is tried
/// first, then each pattern; a later format wins only if it reads strictly
/// more texts. None for an empty sample and when no format reads any text.
pub fn detect_date_format(values: &[String]) -> (r: Option<&'static str>)
    ensures
        ({
            let sample = sample_positions(values@, SAMPLE_SIZE as int, values@.len() as int);
            let best = best_format(values@, sample, DATE_FORMAT_COUNT as int);
            match r {
                Some(name) => best >= -1 && name@ == format_name(best),
                None => best == -2,
            }
        }),
{
    let sample = sample_of(values);
    proof {
        assert(positions(sample@) =~= sample_positions(
            values@,
            SAMPLE_SIZE as int,
            values@.len() as int,
        ));
    }
    let mut best_count_so_far = count_rfc3339(values, &sample);
    let mut best: Option<&'static str> = if best_count_so_far > 0 {
        Some(RFC3339_FORMAT)
    } else {
        None
    };
    let mut p: usize = 0;
    while p < DATE_FORMAT_COUNT
        invariant
            p <= DATE_FORMAT_COUNT,
            forall|k: int| 0 <= k < sample@.len() ==> (#[trigger] sample@[k]) < values@.len(),
            best_count_so_far == best_count(values@, positions(sample@), p as int),
            match best {
                Some(name) => best_format(values@, positions(sample@), p as int) >= -1 && name@
                    == format_name(best_format(values@, positions(sample@), p as int)),
                None => best_format(values@, positions(sample@), p as int) == -2,
            },
            best.is_none() ==> best_count_so_far == 0,
        decreases DATE_FORMAT_COUNT - p,
    {
        let n = count_pattern(values, &sample, p);
        if n > best_count_so_far {
            best_count_so_far = n;
            best = Some(date_pattern(p));
        }
        p += 1;
    }
    best
}

/// Reads the moment that a text names by a format, in fixed-point seconds
/// since 1970; not-a-number for a moment outside the finite range.
pub fn parse_to_timestamp(value: &str, format: &str) -> (r: Option<i64>)
    ensures
        r == timestamp_of(value@, format@),
{
    if crate::text::same_text(format, RFC3339_FORMAT) {
        return match rfc3339_millis(value) {
            Some(ms) => Some(narrow_wide((ms as i128) * 1000)),
            None => None,
        };
    }
    match datetime_millis(value, format) {
        Some(ms) => Some(narrow_wide((ms as i128) * 1000)),
        None => match date_seconds(value, format) {
            Some(s) => {
                proof {
                    crate::fixed::lemma_product_bound(s as int, SCALE as int);
                }
                Some(narrow_wide((s as i128) * (SCALE as i128)))
            },
            None => None,
        },
    }
}

// ---------------------------------------------------------------------------
// Repairing timestamps
// ---------------------------------------------------------------------------

/// Whether a timestamp is taken for an error: it is finite and below the threshold.
pub open spec fn is_error_stamp(v: i64, threshold: int) -> bool {
    finite(v as int) && v < threshold
}

/// Position of the first of the first `upto` timestamps that is no error; `upto` if all are.
pub open spec fn first_good(x: Seq<i64>, threshold: int, upto: int) -> int
    decreases upto,
{
    if upto <= 0 {
        0
    } else {
        let p = first_good(x, threshold, upto - 1);
        if p < upto - 1 {
            p
        } else if !is_error_stamp(x[upto - 1], threshold) {
            upto - 1
        } else {
            upto
        }
    }
}

/// Position of the last timestamp before `k` that is no error; `-1` if there is none.
pub open spec fn last_good_before(x: Seq<i64>, threshold: int, k: int) -> int
    decreases k,
{
    if k <= 0 {
        -1
    } else if !is_error_stamp(x[k - 1], threshold) {
        k - 1
    } else {
        last_good_before(x, threshold, k - 1)
    }
}

/// The timestamp `steps` increments after `base`; not a number where base
/// or increment is none, or where the result is not finite.
pub open spec fn stepped(base: int, increment: i64, steps: int) -> i64 {
    if !finite(base) || !finite(increment as int) {
        NAN
    } else {
        narrow(base + increment * steps)
    }
}

/// The threshold below which a timestamp is taken for an error: one second
/// above the end of the error range.
pub open spec fn error_threshold(error_range_max: i64) -> int {
    error_range_max + SCALE
}

/// The anchor for repairing the errors at the start: the first timestamp
/// that is no error, or the threshold if all are errors.
pub open spec fn leading_anchor(x: Seq<i64>, threshold: int) -> int {
    let j = first_good(x, threshold, x.len() as int);
    if j < x.len() {
        x[j] as int
    } else {
        threshold
    }
}

/// The repaired timestamp at position `k`: an error at the start counts
/// back from the first good timestamp, a later error counts on from the
/// last good timestamp before it, and a good timestamp stays.
pub open spec fn repaired(x: Seq<i64>, threshold: int, increment: i64, k: int) -> i64 {
    let j = first_good(x, threshold, x.len() as int);
    if k < j {
        stepped(leading_anchor(x, threshold), increment, -(j - k))
    } else if !is_error_stamp(x[k], threshold) {
        x[k]
    } else {
        let s = last_good_before(x, threshold, k);
        stepped(x[s] as int, increment, k - s)
    }
}

/// The first good timestamp is no error, and all before it are errors.
pub proof fn lemma_first_good(x: Seq<i64>, threshold: int, upto: int)
    requires
        0 <= upto <= x.len(),
    ensures
        0 <= first_good(x, threshold, upto) <= upto,
        first_good(x, threshold, upto) < upto ==> !is_error_stamp(
            x[first_good(x, threshold, upto)],
            threshold,
        ),
        forall|i: int| 0 <= i < first_good(x, threshold, upto) ==> is_error_stamp(#[trigger] x[i], threshold),
    decreases upto,
{
    if upto > 0 {
        lemma_first_good(x, threshold, upto - 1);
    }
}

fn step_from(base: i128, increment: i64, steps: i128) -> (r: i64)
    requires
        -0x1_0000_0000_0000_0000 <= steps <= 0x1_0000_0000_0000_0000,
        -0x1_0000_0000_0000_0000 <= base <= 0x1_0000_0000_0000_0000,
    ensures
        r == stepped(base as int, increment, steps as int),
{
    if base < -(COORD_MAX as i128) || base > COORD_MAX as i128 || !is_finite(increment) {
        return NAN;
    }
    assert(-0x1_0000_0000_0000_0000 * COORD_MAX <= increment * steps <= 0x1_0000_0000_0000_0000
        * COORD_MAX) by (nonlinear_arith)
        requires
            -COORD_MAX <= increment <= COORD_MAX,
            -0x1_0000_0000_0000_0000 <= steps <= 0x1_0000_0000_0000_0000,
    ;
    narrow_wide(base + (increment as i128) * steps)
}

fn is_error(v: i64, threshold: i128) -> (r: bool)
    ensures
        r == is_error_stamp(v, threshold as int),
{
    is_finite(v) && (v as i128) < threshold
}

/// Repairs the timestamps that a clock wrote before it was set: finite
/// values below one second past `error_range_max`. Errors at the start count
/// back from the first good timestamp in steps of `increment`, or from the
/// threshold if there is no good one; later errors count on from the last
/// good timestamp before them.
pub fn fix_error_timestamps(x_values: &[i64], _error_range_min: i64, error_range_max: i64, increment: i64) -> (corrected:
    Vec<i64>)
    ensures
        corrected@.len() == x_values@.len(),
        forall|k: int|
            0 <= k < x_values@.len() ==> #[trigger] corrected@[k] == repaired(
                x_values@,
                error_threshold(error_range_max),
                increment,
                k,
            ),
{
    let n = x_values.len();
    let threshold: i128 = error_range_max as i128 + SCALE as i128;
    let mut j: usize = 0;
    while j < n && is_error(x_values[j], threshold)
        invariant
            j <= n,
            n == x_values@.len(),
            threshold == error_threshold(error_range_max),
            first_good(x_values@, threshold as int, j as int) == j,
        decreases n - j,
    {
        j += 1;
    }
    proof {
        if j < n {
            lemma_first_good_found(x_values@, threshold as int, j as int, n as int);
        }
    }
    let anchor: i128 = if j < n {
        x_values[j] as i128
    } else {
        threshold
    };
    let mut corrected: Vec<i64> = Vec::new();
    let mut k: usize = 0;
    while k < j
        invariant
            k <= j <= n,
            n == x_values@.len(),
            threshold == error_threshold(error_range_max),
            j == first_good(x_values@, threshold as int, n as int),
            anchor == leading_anchor(x_values@, threshold as int),
            corrected@.len() == k,
            forall|i: int|
                0 <= i < k ==> #[trigger] corrected@[i] == repaired(
                    x_values@,
                    threshold as int,
                    increment,
                    i,
                ),
        decreases j - k,
    {
        corrected.push(step_from(anchor, increment, -((j - k) as i128)));
        k += 1;
    }
    let mut last: usize = j;
    while k < n
        invariant
            j <= k <= n,
            n == x_values@.len(),
            threshold == error_threshold(error_range_max),
            j == first_good(x_values@, threshold as int, n as int),
            k > j ==> j <= last < k && last == last_good_before(x_values@, threshold as int, k as int),
            k == j ==> last == j,
            j < n ==> !is_error_stamp(x_values@[j as int], threshold as int),
            corrected@.len() == k,
            forall|i: int|
                0 <= i < k ==> #[trigger] corrected@[i] == repaired(
                    x_values@,
                    threshold as int,
                    increment,
                    i,
                ),
        decreases n - k,
    {
        let v = x_values[k];
        if is_error(v, threshold) {
            corrected.push(step_from(x_values[last] as i128, increment, (k - last) as i128));
        } else {
            corrected.push(v);
            last = k;
        }
        k += 1;
    }
    corrected
}

/// Once found, the first good timestamp stays the first as more are considered.
pub proof fn lemma_first_good_found(x: Seq<i64>, threshold: int, j: int, upto: int)
    requires
        0 <= j < upto <= x.len(),
        first_good(x, threshold, j) == j,
        !is_error_stamp(x[j], threshold),
    ensures
        first_good(x, threshold, upto) == j,
    decreases upto - j,
{
    if upto > j + 1 {
        lemma_first_good_found(x, threshold, j, upto - 1);
    }
}

// ---------------------------------------------------------------------------
// Writing timestamps
// ---------------------------------------------------------------------------

/// The text of a timestamp: its date and time of day, to the millisecond
/// where it is not a whole second; the number of seconds with three
/// decimal places for a timestamp outside the calendar or not a number.
pub open spec fn timestamp_text(ts: i64) -> Seq<char> {
    if !finite(ts as int) {
        crate::number_text::nan_text()
    } else {
        let seconds = (ts as int / SCALE as int) as i64;
        let nanos = ((ts as int % SCALE as int) * 1000) as u32;
        let pattern = if nanos != 0 {
            MILLIS_PATTERN@
        } else {
            SECONDS_PATTERN@
        };
        match moment_text_of(seconds, nanos, pattern) {
            Some(text) => text,
            None => crate::number_text::fixed_text(ts as int, 3),
        }
    }
}

/// Writes a timestamp for reading.
pub fn format_timestamp(ts: i64) -> (text: String)
    ensures
        text@ == timestamp_text(ts),
{
    if !is_finite(ts) {
        return crate::number_text::format_fixed(ts, 3);
    }
    let seconds = crate::fixed::div_floor(ts as i128, SCALE as i128);
    let rest: i128 = ts as i128 - seconds * (SCALE as i128);
    proof {
        vstd::arithmetic::div_mod::lemma_fundamental_div_mod(ts as int, SCALE as int);
        vstd::arithmetic::div_mod::lemma_mod_bound(ts as int, SCALE as int);
    }
    let nanos: u32 = (rest * 1000) as u32;
    let pattern = if nanos != 0 {
        MILLIS_PATTERN
    } else {
        SECONDS_PATTERN
    };
    match moment_text(seconds as i64, nanos, pattern) {
        Some(text) => text,
        None => crate::number_text::format_fixed(ts, 3),
    }
}

} // verus!
