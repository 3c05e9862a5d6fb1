//! Points in time: a local date and time together with its offset from UTC.
use vstd::prelude::*;

verus! {

/// The first nanosecond of the year -9999, counted from 1970-01-01T00:00:00.
pub const FIRST_NANOSECOND: i128 = -377_705_116_800_000_000_000;

/// The last nanosecond of the year 9999, counted from 1970-01-01T00:00:00.
pub const LAST_NANOSECOND: i128 = 253_402_300_799_999_999_999;

/// The largest offset from UTC, in seconds: 25:59:59.
pub const MAXIMUM_OFFSET: i32 = 93_599;

/// Nanoseconds in one second.
pub const NANOSECONDS: i128 = 1_000_000_000;

/// Whether a year of the Gregorian calendar has a leap day.
pub open spec fn is_leap(year: int) -> bool {
    year % 4 == 0 && (year % 100 != 0 || year % 400 == 0)
}

/// The number of days in a month.
pub open spec fn month_length(year: int, month: int) -> int {
    if month == 2 {
        if is_leap(year) {
            29
        } else {
            28
        }
    } else if month == 4 || month == 6 || month == 9 || month == 11 {
        30
    } else {
        31
    }
}

/// The number of days in a year before one of its months.
pub open spec fn days_before_month(year: int, month: int) -> int
    decreases month,
{
    if month <= 1 {
        0
    } else {
        days_before_month(year, month - 1) + month_length(year, month - 1)
    }
}

/// The number of days from 1970-01-01 to the first day of a year.
pub open spec fn days_before_year(year: int) -> int {
    let earlier = year - 1;
    365 * (year - 1970) + (earlier / 4 - earlier / 100 + earlier / 400) - 477
}

/// Whether year, month, day, hour, minute and second are those of a local time, given as
/// nanoseconds since 1970-01-01T00:00:00 of that local clock.
pub open spec fn shows(fields: (i32, u8, u8, u8, u8, u8), local: int) -> bool {
    let (year, month, day, hour, minute, second) = fields;
    let days = days_before_year(year as int) + days_before_month(year as int, month as int) + day
        - 1;
    &&& 1 <= month <= 12
    &&& 1 <= day <= month_length(year as int, month as int)
    &&& hour < 24 && minute < 60 && second < 60
    &&& 86_400 * days + 3_600 * hour + 60 * minute + second == local / (NANOSECONDS as int)
}

/// The year, month, day, hour, minute and second of a local time in the years from -9999 to 9999.
pub open spec fn civil(local: int) -> Option<(i32, u8, u8, u8, u8, u8)> {
    if FIRST_NANOSECOND <= local <= LAST_NANOSECOND {
        Some(choose|fields: (i32, u8, u8, u8, u8, u8)| shows(fields, local))
    } else {
        None
    }
}

proof fn years_follow(first: int, second: int)
    requires
        first < second,
    ensures
        days_before_year(first) + 365 + (if is_leap(first) {
            1int
        } else {
            0
        }) <= days_before_year(second),
    decreases second - first,
{
    let length = 365 + (if is_leap(first) {
        1int
    } else {
        0
    });
    assert(days_before_year(first + 1) == days_before_year(first) + length);
    if first + 1 < second {
        years_follow(first + 1, second);
    }
}

proof fn months_follow(year: int, first: int, second: int)
    requires
        1 <= first < second,
    ensures
        days_before_month(year, first) + month_length(year, first) <= days_before_month(
            year,
            second,
        ),
    decreases second - first,
{
    if first + 1 < second {
        months_follow(year, first, second - 1);
    }
}

proof fn months_fit(year: int, month: int)
    requires
        1 <= month <= 12,
    ensures
        0 <= days_before_month(year, month),
        days_before_month(year, month) + month_length(year, month) <= 365 + (if is_leap(year) {
            1int
        } else {
            0
        }),
{
    reveal_with_fuel(days_before_month, 13);
}

/// A local time has one date and one time of day: what shows it is its only reading.
pub proof fn calendars_show_one_reading(
    fields: (i32, u8, u8, u8, u8, u8),
    other: (i32, u8, u8, u8, u8, u8),
    local: int,
)
    requires
        shows(fields, local),
        shows(other, local),
    ensures
        fields == other,
{
    let (year, month) = (fields.0 as int, fields.1 as int);
    let (other_year, other_month) = (other.0 as int, other.1 as int);
    months_fit(year, month);
    months_fit(other_year, other_month);
    if year < other_year {
        years_follow(year, other_year);
    } else if other_year < year {
        years_follow(other_year, year);
    } else if month < other_month {
        months_follow(year, month, other_month);
    } else if other_month < month {
        months_follow(year, other_month, month);
    }
}

/// The reading of a local time is whatever shows it.
pub proof fn readings_are_what_shows(fields: (i32, u8, u8, u8, u8, u8), local: int)
    requires
        shows(fields, local),
        FIRST_NANOSECOND <= local <= LAST_NANOSECOND,
    ensures
        civil(local) == Some(fields),
{
    calendars_show_one_reading(fields, civil(local)->0, local);
}

/// The years of the clock are those from -9999 to 9999.
proof fn years_in_range(fields: (i32, u8, u8, u8, u8, u8), local: int)
    requires
        shows(fields, local),
        FIRST_NANOSECOND <= local <= LAST_NANOSECOND,
    ensures
        -9999 <= fields.0 <= 9999,
{
    let year = fields.0 as int;
    months_fit(year, fields.1 as int);
    if year < -9999 {
        years_follow(year, -9999);
    }
    if year > 9999 {
        if year > 10000 {
            years_follow(10000, year);
        }
        assert(days_before_year(10000) == 2_932_897);
    }
    assert(days_before_year(-9999) == -4_371_587);
}

/// Wraps `time::OffsetDateTime::from_unix_timestamp_nanos` and reads the calendar fields of its
/// result.
///
/// A result exists exactly for the years from -9999 to 9999. Its fields are those of the argument
/// in the Gregorian calendar, which reaches back before its introduction.
#[verifier::external_body]
fn calendar(local: i128) -> (result: Option<(i32, u8, u8, u8, u8, u8)>)
    ensures
        result is Some <==> FIRST_NANOSECOND <= local <= LAST_NANOSECOND,
        result matches Some(fields) ==> shows(fields, local as int),
{
    let moment = time::OffsetDateTime::from_unix_timestamp_nanos(local).ok()?;
    Some(
        (
            moment.year(),
            u8::from(moment.month()),
            moment.day(),
            moment.hour(),
            moment.minute(),
            moment.second(),
        ),
    )
}

/// One instant, written in a local clock.
#[derive(Clone, Copy, Debug, PartialEq, Eq, Structural)]
pub struct Timestamp {
    local: i128,
    offset: i32,
    year: i32,
    month: u8,
    day: u8,
    hour: u8,
    minute: u8,
    second: u8,
}

impl Timestamp {
    /// Nanoseconds of the local clock since its 1970-01-01T00:00:00.
    pub closed spec fn spec_local(self) -> int {
        self.local as int
    }

    /// Seconds by which the local clock is ahead of UTC.
    pub closed spec fn spec_offset(self) -> int {
        self.offset as int
    }

    /// Nanoseconds since the Unix epoch. Two timestamps are ordered by this number alone.
    pub open spec fn instant(self) -> int {
        self.spec_local() - self.spec_offset() * NANOSECONDS
    }

    /// The calendar fields of the local clock.
    pub closed spec fn fields(self) -> (i32, u8, u8, u8, u8, u8) {
        (self.year, self.month, self.day, self.hour, self.minute, self.second)
    }

    /// Whether the calendar fields are those of the local clock and lie in their ranges.
    pub open spec fn calendar_holds(self) -> bool {
        let fields = self.fields();
        &&& FIRST_NANOSECOND <= self.spec_local() <= LAST_NANOSECOND
        &&& -MAXIMUM_OFFSET <= self.spec_offset() <= MAXIMUM_OFFSET
        &&& civil(self.spec_local()) == Some(fields)
        &&& -9999 <= fields.0 <= 9999
        &&& 1 <= fields.1 <= 12
        &&& 1 <= fields.2 <= 31
        &&& fields.3 < 24
        &&& fields.4 < 60
        &&& fields.5 < 60
    }

    #[verifier::type_invariant]
    spec fn inv(self) -> bool {
        self.calendar_holds()
    }

    /// The timestamp of a local clock reading.
    pub closed spec fn at(local: int, offset: int) -> Timestamp {
        let (year, month, day, hour, minute, second) = civil(local)->0;
        Timestamp {
            local: local as i128,
            offset: offset as i32,
            year,
            month,
            day,
            hour,
            minute,
            second,
        }
    }

    /// The timestamp after some more nanoseconds on the same local clock.
    pub open spec fn plus(self, nanoseconds: int) -> Timestamp {
        Timestamp::at(self.spec_local() + nanoseconds, self.spec_offset())
    }

    /// Whether the local clock can show a reading some nanoseconds later.
    pub open spec fn reaches(self, nanoseconds: int) -> bool {
        FIRST_NANOSECOND <= self.spec_local() + nanoseconds <= LAST_NANOSECOND
    }

    /// The timestamp of a local clock reading, for readings in the years -9999 to 9999 and
    /// offsets below 26 hours.
    pub fn new(local: i128, offset: i32) -> (result: Option<Timestamp>)
        ensures
            result is Some <==> FIRST_NANOSECOND <= local <= LAST_NANOSECOND && -MAXIMUM_OFFSET
                <= offset <= MAXIMUM_OFFSET,
            result matches Some(moment) ==> moment.spec_local() == local && moment.spec_offset()
                == offset && moment == Timestamp::at(local as int, offset as int),
    {
        if offset < -MAXIMUM_OFFSET || offset > MAXIMUM_OFFSET {
            return None;
        }
        match calendar(local) {
            Some((year, month, day, hour, minute, second)) => {
                proof {
                    let fields = (year, month, day, hour, minute, second);
                    readings_are_what_shows(fields, local as int);
                    years_in_range(fields, local as int);
                }
                Some(Timestamp { local, offset, year, month, day, hour, minute, second })
            },
            None => None,
        }
    }

    /// The local clock reading in nanoseconds.
    pub fn local(&self) -> (result: i128)
        ensures
            result == self.spec_local(),
    {
        self.local
    }

    /// The offset from UTC in seconds.
    pub fn offset(&self) -> (result: i32)
        ensures
            result == self.spec_offset(),
    {
        self.offset
    }

    /// The calendar fields: year, month, day, hour, minute and second.
    pub fn calendar_fields(&self) -> (result: (i32, u8, u8, u8, u8, u8))
        ensures
            result == self.fields(),
            self.calendar_holds(),
    {
        proof {
            use_type_invariant(self);
        }
        (self.year, self.month, self.day, self.hour, self.minute, self.second)
    }

    /// Nanoseconds since the Unix epoch.
    pub fn nanoseconds(&self) -> (result: i128)
        ensures
            result == self.instant(),
            FIRST_NANOSECOND - MAXIMUM_OFFSET * NANOSECONDS <= result <= LAST_NANOSECOND
                + MAXIMUM_OFFSET * NANOSECONDS,
    {
        proof {
            use_type_invariant(self);
        }
        self.local - self.offset as i128 * NANOSECONDS
    }

    /// Whether this instant comes strictly after another.
    pub fn after(&self, other: &Timestamp) -> (result: bool)
        ensures
            result == (self.instant() > other.instant()),
    {
        self.nanoseconds() > other.nanoseconds()
    }

    /// Whether two timestamps name the same instant.
    pub fn same_instant(&self, other: &Timestamp) -> (result: bool)
        ensures
            result == (self.instant() == other.instant()),
    {
        self.nanoseconds() == other.nanoseconds()
    }

    /// The reading after `nanoseconds` more on the same local clock, or none where it leaves the
    /// supported years.
    pub fn checked_add(&self, nanoseconds: i128) -> (result: Option<Timestamp>)
        requires
            i128::MIN / 2 <= nanoseconds <= i128::MAX / 2,
        ensures
            result is Some <==> self.reaches(nanoseconds as int),
            result matches Some(moment) ==> {
                &&& moment == self.plus(nanoseconds as int)
                &&& moment.spec_local() == self.spec_local() + nanoseconds
                &&& moment.spec_offset() == self.spec_offset()
                &&& moment.instant() == self.instant() + nanoseconds
            },
    {
        proof {
            use_type_invariant(self);
        }
        Timestamp::new(self.local + nanoseconds, self.offset)
    }

    /// The timestamp after some more nanoseconds on the same local clock, held at the ends of the
    /// supported years.
    pub open spec fn held_plus(self, nanoseconds: int) -> Timestamp {
        if self.reaches(nanoseconds) {
            self.plus(nanoseconds)
        } else if nanoseconds < 0 {
            Timestamp::at(FIRST_NANOSECOND as int, self.spec_offset())
        } else {
            Timestamp::at(LAST_NANOSECOND as int, self.spec_offset())
        }
    }

    /// A later reading that the clock can show stands that much later on the same clock.
    pub proof fn readings_are_kept(self, nanoseconds: int)
        requires
            self.calendar_holds(),
            self.reaches(nanoseconds),
        ensures
            self.plus(nanoseconds).spec_local() == self.spec_local() + nanoseconds,
            self.plus(nanoseconds).spec_offset() == self.spec_offset(),
    {
    }

    /// The reading after `nanoseconds` more on the same local clock, held at the ends of the
    /// supported years.
    pub fn saturating_add(&self, nanoseconds: i128) -> (result: Timestamp)
        ensures
            result == self.held_plus(nanoseconds as int),
            result.spec_offset() == self.spec_offset(),
            result.spec_local() == if self.reaches(nanoseconds as int) {
                self.spec_local() + nanoseconds
            } else if nanoseconds < 0 {
                FIRST_NANOSECOND as int
            } else {
                LAST_NANOSECOND as int
            },
    {
        proof {
            use_type_invariant(self);
        }
        let local: i128 = if nanoseconds > LAST_NANOSECOND - self.local {
            LAST_NANOSECOND
        } else if nanoseconds < FIRST_NANOSECOND - self.local {
            FIRST_NANOSECOND
        } else {
            self.local + nanoseconds
        };
        match Timestamp::new(local, self.offset) {
            Some(moment) => moment,
            None => *self,
        }
    }
}

} // verus!
