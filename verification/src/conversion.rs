//! How single values are turned from what ODBC delivers into what Arrow holds: dates into days
//! since the epoch, timestamps into their distance from the epoch in a unit of time.
use crate::error::MappingError;
use crate::schema::TimeUnit;
use vstd::prelude::*;

verus! {

/// A date as ODBC delivers it.
#[derive(Debug, Clone, Copy, PartialEq, Eq, Structural)]
pub struct Date {
    pub year: i16,
    pub month: u16,
    pub day: u16,
}

/// A timestamp as ODBC delivers it. The fraction counts nanoseconds.
#[derive(Debug, Clone, Copy, PartialEq, Eq, Structural)]
pub struct Timestamp {
    pub year: i16,
    pub month: u16,
    pub day: u16,
    pub hour: u16,
    pub minute: u16,
    pub second: u16,
    pub fraction: u32,
}

/// True for the leap years of the Gregorian calendar, taken to hold for all years.
pub open spec fn is_leap_year(year: int) -> bool {
    year % 4 == 0 && (year % 100 != 0 || year % 400 == 0)
}

pub open spec fn days_in_year(year: int) -> int {
    if is_leap_year(year) {
        366
    } else {
        365
    }
}

pub open spec fn days_in_month(year: int, month: int) -> int {
    if month == 2 {
        if is_leap_year(year) {
            29
        } else {
            28
        }
    } else if month == 4 || month == 6 || month == 9 || month == 11 {
        30
    } else {
        31
    }
}

/// True where the calendar has the day.
pub open spec fn valid_date(year: int, month: int, day: int) -> bool {
    1 <= month <= 12 && 1 <= day <= days_in_month(year, month)
}

/// The number of days from the first day of 1970 to the first day of `year`, negative for a
/// year before 1970.
pub open spec fn days_before_year(year: int) -> int
    decreases
            if year >= 1970 {
                year - 1970
            } else {
                1970 - year
            },
{
    if year == 1970 {
        0
    } else if year > 1970 {
        days_before_year(year - 1) + days_in_year(year - 1)
    } else {
        days_before_year(year + 1) - days_in_year(year)
    }
}

/// The number of days from the first day of `year` to the first day of its month `month`.
pub open spec fn days_before_month(year: int, month: int) -> int
    decreases month,
{
    if month <= 1 {
        0
    } else {
        days_before_month(year, month - 1) + days_in_month(year, month - 1)
    }
}

/// The number of days from 1 January 1970 to the day, negative for a day before it.
pub open spec fn epoch_days(year: int, month: int, day: int) -> int {
    days_before_year(year) + days_before_month(year, month) + day - 1
}

/// The number of leap years among the years 1 up to, and without, `year`.
pub open spec fn leap_years_before(year: int) -> int {
    (year - 1) / 4 - (year - 1) / 100 + (year - 1) / 400
}

/// From one number to the next, the quotient by 4, 100 or 400 grows by one where the next
/// number is a multiple, and not at all elsewhere.
proof fn lemma_quotient_step(n: int)
    ensures
        n / 4 - (n - 1) / 4 == if n % 4 == 0 {
            1int
        } else {
            0int
        },
        n / 100 - (n - 1) / 100 == if n % 100 == 0 {
            1int
        } else {
            0int
        },
        n / 400 - (n - 1) / 400 == if n % 400 == 0 {
            1int
        } else {
            0int
        },
        n % 400 == 0 ==> n % 100 == 0,
        n % 100 == 0 ==> n % 4 == 0,
{
}

/// One more leap year lies before the year after a leap year, and no more before the year
/// after any other.
proof fn lemma_leap_year_step(year: int)
    ensures
        leap_years_before(year + 1) - leap_years_before(year) == if is_leap_year(year) {
            1int
        } else {
            0int
        },
{
    lemma_quotient_step(year);
}

/// Every 400 years the calendar repeats, with 97 leap years among them.
proof fn lemma_calendar_repeats(year: int)
    ensures
        is_leap_year(year + 32800) == is_leap_year(year),
        (year + 32800 - 1) / 4 == (year - 1) / 4 + 8200,
        (year + 32800 - 1) / 100 == (year - 1) / 100 + 328,
        (year + 32800 - 1) / 400 == (year - 1) / 400 + 82,
        leap_years_before(1970) == 477,
{
}

/// The days before a year are 365 for each year since 1970 and one more for each leap year
/// among them.
pub proof fn lemma_days_before_year(year: int)
    ensures
        days_before_year(year) == 365 * (year - 1970) + leap_years_before(year)
            - leap_years_before(1970),
    decreases
            if year >= 1970 {
                year - 1970
            } else {
                1970 - year
            },
{
    if year > 1970 {
        lemma_days_before_year(year - 1);
        lemma_leap_year_step(year - 1);
    } else if year < 1970 {
        lemma_days_before_year(year + 1);
        lemma_leap_year_step(year);
    }
}

/// The days before a month, month by month.
pub proof fn lemma_days_before_month(year: int, month: int)
    requires
        1 <= month <= 12,
    ensures
        days_before_month(year, month) == (if month == 1 {
            0int
        } else if month == 2 {
            31
        } else if month == 3 {
            59
        } else if month == 4 {
            90
        } else if month == 5 {
            120
        } else if month == 6 {
            151
        } else if month == 7 {
            181
        } else if month == 8 {
            212
        } else if month == 9 {
            243
        } else if month == 10 {
            273
        } else if month == 11 {
            304
        } else {
            334
        }) + if month > 2 && is_leap_year(year) {
            1int
        } else {
            0int
        },
    decreases month,
{
    if month > 1 {
        lemma_days_before_month(year, month - 1);
    }
}

/// Turns a date into its number of days since the epoch, 1 January 1970. There is none for
/// a day that the calendar does not have.
pub fn days_since_epoch(date: Date) -> (r: Option<i32>)
    ensures
        r is Some <==> valid_date(date.year as int, date.month as int, date.day as int),
        r is Some ==> r->Some_0 == epoch_days(
            date.year as int,
            date.month as int,
            date.day as int,
        ),
{
    let month: u16 = date.month;
    let day: u16 = date.day;
    if month < 1 || month > 12 || day < 1 {
        return None;
    }
    // The calendar repeats every 400 years, so a year can be moved by a multiple of 400 to
    // tell whether it is a leap year and to count the leap years before it.
    let shifted: i64 = date.year as i64 + 32800;
    proof {
        lemma_calendar_repeats(date.year as int);
    }
    let leap: bool = shifted % 4 == 0 && (shifted % 100 != 0 || shifted % 400 == 0);
    assert(leap == is_leap_year(shifted as int));
    let month_len: u16 = if month == 2 {
        if leap {
            29
        } else {
            28
        }
    } else if month == 4 || month == 6 || month == 9 || month == 11 {
        30
    } else {
        31
    };
    if day > month_len {
        return None;
    }
    let before: i64 = shifted - 1;
    let leap_years: i64 = before / 4 - before / 100 + before / 400 - 8431;
    assert(leap_years == leap_years_before(date.year as int) - leap_years_before(1970));
    let before_month: i64 = if month == 1 {
        0
    } else if month == 2 {
        31
    } else if month == 3 {
        59
    } else if month == 4 {
        90
    } else if month == 5 {
        120
    } else if month == 6 {
        151
    } else if month == 7 {
        181
    } else if month == 8 {
        212
    } else if month == 9 {
        243
    } else if month == 10 {
        273
    } else if month == 11 {
        304
    } else {
        334
    } + if month > 2 && leap {
        1
    } else {
        0
    };
    proof {
        lemma_days_before_year(date.year as int);
        lemma_days_before_month(date.year as int, month as int);
    }
    let days: i64 = 365 * (date.year as i64 - 1970) + leap_years + before_month + day as i64 - 1;
    Some(days as i32)
}

/// The number of units of `unit` in a second.
pub open spec fn units_per_second(unit: TimeUnit) -> int {
    match unit {
        TimeUnit::Second => 1,
        TimeUnit::Millisecond => 1_000,
        TimeUnit::Microsecond => 1_000_000,
        TimeUnit::Nanosecond => 1_000_000_000,
    }
}

/// True where the calendar has the day and the day has the time.
pub open spec fn valid_timestamp(ts: Timestamp) -> bool {
    &&& valid_date(ts.year as int, ts.month as int, ts.day as int)
    &&& ts.hour < 24
    &&& ts.minute < 60
    &&& ts.second < 60
    &&& ts.fraction < 1_000_000_000
}

/// The number of seconds from the start of 1 January 1970 to the second of the timestamp.
pub open spec fn epoch_seconds(ts: Timestamp) -> int {
    epoch_days(ts.year as int, ts.month as int, ts.day as int) * 86_400 + ts.hour * 3_600
        + ts.minute * 60 + ts.second
}

/// The distance of the timestamp from the epoch in `unit`. What of the fraction is finer
/// than the unit is dropped.
pub open spec fn epoch_value(ts: Timestamp, unit: TimeUnit) -> int {
    epoch_seconds(ts) * units_per_second(unit) + (ts.fraction as int) / (1_000_000_000int
        / units_per_second(unit))
}

/// Turns a timestamp into its distance from the epoch in `unit`. There is none for a
/// timestamp that the calendar or the clock does not have, and none where the distance is
/// beyond 64 bits, as it is in nanoseconds from the year 2262 on.
pub fn timestamp_since_epoch(ts: Timestamp, unit: TimeUnit) -> (r: Option<i64>)
    ensures
        r is Some <==> valid_timestamp(ts) && i64::MIN <= epoch_value(ts, unit) <= i64::MAX,
        r is Some ==> r->Some_0 == epoch_value(ts, unit),
{
    if ts.hour >= 24 || ts.minute >= 60 || ts.second >= 60 || ts.fraction >= 1_000_000_000 {
        return None;
    }
    let days: i32 = match days_since_epoch(Date { year: ts.year, month: ts.month, day: ts.day }) {
        Some(days) => days,
        None => {
            return None;
        },
    };
    proof {
        lemma_days_before_year(ts.year as int);
        lemma_days_before_month(ts.year as int, ts.month as int);
    }
    let seconds: i128 = days as i128 * 86_400 + ts.hour as i128 * 3_600 + ts.minute as i128 * 60
        + ts.second as i128;
    assert(seconds == epoch_seconds(ts));
    let fraction: i128 = ts.fraction as i128;
    let value: i128 = match unit {
        TimeUnit::Second => {
            assert((ts.fraction as int) / 1_000_000_000int == 0);
            seconds
        },
        TimeUnit::Millisecond => {
            assert(1_000_000_000int / 1_000int == 1_000_000int);
            seconds * 1_000 + fraction / 1_000_000
        },
        TimeUnit::Microsecond => {
            assert(1_000_000_000int / 1_000_000int == 1_000int);
            seconds * 1_000_000 + fraction / 1_000
        },
        TimeUnit::Nanosecond => {
            assert(1_000_000_000int / 1_000_000_000int == 1int);
            assert((ts.fraction as int) / 1int == ts.fraction);
            seconds * 1_000_000_000 + fraction
        },
    };
    assert(value == epoch_value(ts, unit));
    if value < i64::MIN as i128 || value > i64::MAX as i128 {
        None
    } else {
        Some(value as i64)
    }
}

/// Turns a bit as ODBC delivers it into a boolean: only zero is false.
pub fn bit_to_bool(bit: u8) -> (r: bool)
    ensures
        r == (bit != 0),
{
    bit != 0
}

/// What the date in `row` comes to in an array of days.
pub open spec fn date_row(value: Option<Date>, row: int) -> Result<Option<i32>, MappingError> {
    match value {
        None => Ok(None),
        Some(date) => if valid_date(date.year as int, date.month as int, date.day as int) {
            Ok(Some(epoch_days(date.year as int, date.month as int, date.day as int) as i32))
        } else {
            Err(MappingError::MalformedValue { row: row as usize })
        },
    }
}

/// What the timestamp in `row` comes to in an array that counts in `unit`.
pub open spec fn timestamp_row(value: Option<Timestamp>, unit: TimeUnit, row: int) -> Result<
    Option<i64>,
    MappingError,
> {
    match value {
        None => Ok(None),
        Some(ts) => if !valid_timestamp(ts) {
            Err(MappingError::MalformedValue { row: row as usize })
        } else if i64::MIN <= epoch_value(ts, unit) <= i64::MAX {
            Ok(Some(epoch_value(ts, unit) as i64))
        } else {
            Err(MappingError::ValueOutOfRange { row: row as usize })
        },
    }
}

/// True where `converted` is what a column comes to whose rows come to `rows`: the values
/// of all rows in order, a NULL as `None`, or the failure of the first row that has none.
pub open spec fn rows_converted<T>(
    converted: Result<Seq<Option<T>>, MappingError>,
    rows: Seq<Result<Option<T>, MappingError>>,
) -> bool {
    match converted {
        Ok(values) => {
            &&& values.len() == rows.len()
            &&& forall|i: int|
                0 <= i < rows.len() ==> (#[trigger] rows[i]) == Ok::<Option<T>, MappingError>(
                    values[i],
                )
        },
        Err(e) => exists|k: int|
            {
                &&& 0 <= k < rows.len()
                &&& #[trigger] rows[k] == Err::<Option<T>, MappingError>(e)
                &&& forall|j: int| 0 <= j < k ==> (#[trigger] rows[j]) is Ok
            },
    }
}

/// Turns a column of dates into days since the epoch. A NULL stays a NULL, in its place. The
/// first day that the calendar does not have ends the conversion.
pub fn dates_to_days(values: &Vec<Option<Date>>) -> (r: Result<Vec<Option<i32>>, MappingError>)
    ensures
        rows_converted(
            match r {
                Ok(days) => Ok(days@),
                Err(e) => Err(e),
            },
            Seq::new(values@.len(), |i: int| date_row(values@[i], i)),
        ),
{
    let ghost rows = Seq::new(values@.len(), |i: int| date_row(values@[i], i));
    let mut days: Vec<Option<i32>> = Vec::new();
    let mut i: usize = 0;
    while i < values.len()
        invariant
            i <= values@.len(),
            rows == Seq::new(values@.len(), |i: int| date_row(values@[i], i)),
            days@.len() == i,
            forall|k: int|
                0 <= k < i ==> (#[trigger] rows[k]) == Ok::<Option<i32>, MappingError>(days@[k]),
        decreases values@.len() - i,
    {
        let converted: Option<i32> = match values[i] {
            None => None,
            Some(date) => match days_since_epoch(date) {
                Some(day) => Some(day),
                None => {
                    assert(rows[i as int] == Err::<Option<i32>, MappingError>(
                        MappingError::MalformedValue { row: i },
                    ));
                    return Err(MappingError::MalformedValue { row: i });
                },
            },
        };
        assert(rows[i as int] == Ok::<Option<i32>, MappingError>(converted));
        days.push(converted);
        i = i + 1;
    }
    Ok(days)
}

/// Turns a column of timestamps into their distances from the epoch in `unit`. A NULL stays
/// a NULL, in its place. The first timestamp that has no such distance ends the conversion.
pub fn timestamps_to_epoch(values: &Vec<Option<Timestamp>>, unit: TimeUnit) -> (r: Result<
    Vec<Option<i64>>,
    MappingError,
>)
    ensures
        rows_converted(
            match r {
                Ok(distances) => Ok(distances@),
                Err(e) => Err(e),
            },
            Seq::new(values@.len(), |i: int| timestamp_row(values@[i], unit, i)),
        ),
{
    let ghost rows = Seq::new(values@.len(), |i: int| timestamp_row(values@[i], unit, i));
    let mut distances: Vec<Option<i64>> = Vec::new();
    let mut i: usize = 0;
    while i < values.len()
        invariant
            i <= values@.len(),
            rows == Seq::new(values@.len(), |i: int| timestamp_row(values@[i], unit, i)),
            distances@.len() == i,
            forall|k: int|
                0 <= k < i ==> (#[trigger] rows[k]) == Ok::<Option<i64>, MappingError>(
                    distances@[k],
                ),
        decreases values@.len() - i,
    {
        let converted: Option<i64> = match values[i] {
            None => None,
            Some(ts) => match timestamp_since_epoch(ts, unit) {
                Some(distance) => Some(distance),
                None => {
                    let valid: bool = days_since_epoch(
                        Date { year: ts.year, month: ts.month, day: ts.day },
                    ).is_some() && ts.hour < 24 && ts.minute < 60 && ts.second < 60 && ts.fraction
                        < 1_000_000_000;
                    let e = if valid {
                        MappingError::ValueOutOfRange { row: i }
                    } else {
                        MappingError::MalformedValue { row: i }
                    };
                    assert(rows[i as int] == Err::<Option<i64>, MappingError>(e));
                    return Err(e);
                },
            },
        };
        assert(rows[i as int] == Ok::<Option<i64>, MappingError>(converted));
        distances.push(converted);
        i = i + 1;
    }
    Ok(distances)
}

/// Turns a column of bits into booleans. A NULL stays a NULL, in its place.
pub fn bits_to_bools(values: &Vec<Option<u8>>) -> (r: Vec<Option<bool>>)
    ensures
        r@.len() == values@.len(),
        forall|i: int|
            0 <= i < values@.len() ==> #[trigger] r@[i] == match values@[i] {
                Some(bit) => Some(bit != 0),
                None => None,
            },
{
    let mut bools: Vec<Option<bool>> = Vec::new();
    let mut i: usize = 0;
    while i < values.len()
        invariant
            i <= values@.len(),
            bools@.len() == i,
            forall|k: int|
                0 <= k < i ==> #[trigger] bools@[k] == match values@[k] {
                    Some(bit) => Some(bit != 0),
                    None => None,
                },
        decreases values@.len() - i,
    {
        let converted: Option<bool> = match values[i] {
            Some(bit) => Some(bit_to_bool(bit)),
            None => None,
        };
        bools.push(converted);
        i = i + 1;
    }
    bools
}

} // verus!
