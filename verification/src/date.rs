use vstd::prelude::*;

verus! {

/// `chrono::Weekday`, a day of the week.
#[verifier::external_type_specification]
#[verifier::external_body]
pub struct ExWeekday(chrono::Weekday);

/// The weekday that `chrono` numbers `k` counting from Monday (0 is
/// Monday, 6 is Sunday).
pub uninterp spec fn weekday_from_monday(k: u8) -> chrono::Weekday;

/// Calls `Weekday::try_from(k)`: the weekday `k` days after Monday for
/// `k < 7`, none otherwise; no other number below 7 gives the same day.
#[verifier::external_body]
fn weekday_try_from(k: u8) -> (r: Option<chrono::Weekday>)
    ensures
        k < 7 ==> r == Some(weekday_from_monday(k)),
        k >= 7 ==> r is None,
        r matches Some(w) ==> forall|j: u8| j < 7 && j != k ==> w != weekday_from_monday(j),
{
    chrono::Weekday::try_from(k).ok()
}

/// The weekday numbered `n` counting from Sunday (0 is Sunday, 6 is
/// Saturday); none for any other number.
pub fn weekday_from_u8(n: u8) -> (r: Option<chrono::Weekday>)
    ensures
        n < 7 ==> r == Some(weekday_from_monday(((n + 6) % 7) as u8)),
        n >= 7 ==> r is None,
{
    if n < 7 {
        weekday_try_from((n + 6) % 7)
    } else {
        None
    }
}


/// `chrono::NaiveDate`, a calendar date.
#[verifier::external_type_specification]
#[verifier::external_body]
pub struct ExNaiveDate(chrono::NaiveDate);

/// The UTC date of the instant `secs` seconds after 1970-01-01 00:00:00
/// UTC, as `chrono` counts it; none outside the dates it can hold.
pub uninterp spec fn utc_date_of(secs: i64) -> Option<chrono::NaiveDate>;

/// Milliseconds from 1970-01-01 00:00:00 UTC to the start of `d` in UTC,
/// as `chrono` counts them.
pub uninterp spec fn midnight_millis_of(d: chrono::NaiveDate) -> i64;

/// Calls `DateTime::from_timestamp(secs, 0)` and keeps the date of the
/// instant; none where `chrono` has no such instant.
#[verifier::external_body]
fn utc_date(secs: i64) -> (r: Option<chrono::NaiveDate>)
    ensures
        r == utc_date_of(secs),
{
    match chrono::DateTime::from_timestamp(secs, 0) {
        Some(t) => Some(t.date_naive()),
        None => None,
    }
}

/// Calls `NaiveDate::default()`: 1970-01-01, the UTC date of the instant 0.
#[verifier::external_body]
fn epoch_date() -> (d: chrono::NaiveDate)
    ensures
        utc_date_of(0) == Some(d),
{
    chrono::NaiveDate::default()
}

/// Calls `d.and_hms_opt(0, 0, 0)` (never none at midnight), then
/// `.and_utc().timestamp_millis()`. The result is a whole number of seconds,
/// and `DateTime::from_timestamp` of those seconds gives back the date `d`.
#[verifier::external_body]
fn midnight_millis(d: &chrono::NaiveDate) -> (ms: i64)
    ensures
        ms == midnight_millis_of(*d),
        ms % 1000 == 0,
        utc_date_of((ms / 1000) as i64) == Some(*d),
{
    d.and_hms_opt(0, 0, 0).unwrap().and_utc().timestamp_millis()
}

/// `ms / 1000` rounded toward zero: the seconds that `(ms / 1000.0) as i64`
/// keeps of a whole number of milliseconds.
pub open spec fn whole_seconds(ms: int) -> int {
    if ms >= 0 {
        ms / 1000
    } else {
        -((-ms) / 1000)
    }
}

/// The date the timestamp `ms` (milliseconds after the epoch) falls on in
/// UTC, counting whole seconds toward zero; 1970-01-01 where `chrono` has no
/// such date.
pub open spec fn date_of_millis(ms: i64) -> chrono::NaiveDate {
    match utc_date_of(whole_seconds(ms as int) as i64) {
        Some(d) => d,
        None => choose|e: chrono::NaiveDate| utc_date_of(0) == Some(e),
    }
}

/// The UTC date of the JavaScript timestamp `ms`: its whole seconds, rounded
/// toward zero, read as a Unix time; 1970-01-01 where out of range.
pub fn timestamp_to_naive_date(ms: i64) -> (d: chrono::NaiveDate)
    ensures
        d == date_of_millis(ms),
{
    let secs: i64 = if ms >= 0 {
        ((ms as u64) / 1000) as i64
    } else {
        let mag: u64 = ((-(ms + 1)) as u64) + 1;
        assert(mag == -(ms as int));
        0 - ((mag / 1000) as i64)
    };
    assert(secs as int == whole_seconds(ms as int));
    match utc_date(secs) {
        Some(d) => d,
        None => {
            let e = epoch_date();
            assert(utc_date_of(0) == Some(e));
            e
        },
    }
}

/// The JavaScript timestamp of the start of `d` in UTC, in milliseconds;
/// read back by `timestamp_to_naive_date`, it gives `d` again.
pub fn naive_date_to_timestamp_ms(d: &chrono::NaiveDate) -> (ms: i64)
    ensures
        ms == midnight_millis_of(*d),
        date_of_millis(ms) == *d,
{
    let ms = midnight_millis(d);
    proof {
        lemma_whole_seconds_exact(ms);
    }
    ms
}

/// On a whole number of seconds, rounding toward zero changes nothing.
proof fn lemma_whole_seconds_exact(ms: i64)
    requires
        ms % 1000 == 0,
    ensures
        whole_seconds(ms as int) == ms / 1000,
{
    assert(whole_seconds(ms as int) == ms / 1000) by (nonlinear_arith)
        requires
            ms % 1000 == 0,
    {
    }
}

} // verus!
