//! Calendar dates, times of day, weekday sets, and the two pair types built
//! from them.

use vstd::prelude::*;

verus! {

/// Number of minutes in a day; the largest minute an interval may end on.
pub const MINUTES_PER_DAY: u16 = 1440;

/// A time of day, in minutes since midnight. The value `0xFFFF` is the empty
/// time, which stands for "not given".
#[derive(Clone, Copy, Debug, PartialEq, Eq, Structural)]
pub struct Time {
    pub minute: u16,
}

impl Time {
    /// The empty time.
    pub open spec fn spec_empty() -> Time {
        Time { minute: 0xFFFF }
    }

    pub open spec fn spec_is_empty(self) -> bool {
        self.minute == 0xFFFF
    }

    /// The empty time, which marks a field that is not given.
    #[verifier::when_used_as_spec(spec_empty)]
    pub fn empty() -> (t: Time)
        ensures
            t == Time::spec_empty(),
            t.spec_is_empty(),
    {
        Time { minute: 0xFFFF }
    }

    /// The time `hour:minute`.
    pub fn new(hour: u8, minute: u8) -> (t: Time)
        requires
            hour <= 24,
            minute < 60,
        ensures
            t.minute == hour * 60 + minute,
    {
        let h: u16 = hour as u16;
        let m: u16 = minute as u16;
        Time { minute: h * 60 + m }
    }

    #[verifier::when_used_as_spec(spec_is_empty)]
    pub fn is_empty(self) -> (b: bool)
        ensures
            b == self.spec_is_empty(),
    {
        self.minute == 0xFFFF
    }
}

/// A calendar date, as the number of days since 1970-01-01 (a Thursday). The
/// value `0xFFFF_FFFF` is the empty date, which stands for "not given".
#[derive(Clone, Copy, Debug, PartialEq, Eq, Structural)]
pub struct Date {
    pub day: u32,
}

/// A day of the week.
#[derive(Clone, Copy, Debug, PartialEq, Eq, Structural)]
pub enum Weekday {
    Monday,
    Tuesday,
    Wednesday,
    Thursday,
    Friday,
    Saturday,
    Sunday,
}

impl Weekday {
    /// Position in the week, Monday being 0.
    pub open spec fn index(self) -> int {
        match self {
            Weekday::Monday => 0,
            Weekday::Tuesday => 1,
            Weekday::Wednesday => 2,
            Weekday::Thursday => 3,
            Weekday::Friday => 4,
            Weekday::Saturday => 5,
            Weekday::Sunday => 6,
        }
    }
}

impl Date {
    pub open spec fn spec_empty_date() -> Date {
        Date { day: 0xFFFF_FFFF }
    }

    pub open spec fn spec_is_empty(self) -> bool {
        self.day == 0xFFFF_FFFF
    }

    /// The empty date, which marks a field that is not given.
    #[verifier::when_used_as_spec(spec_empty_date)]
    pub fn empty_date() -> (d: Date)
        ensures
            d == Date::spec_empty_date(),
            d.spec_is_empty(),
    {
        Date { day: 0xFFFF_FFFF }
    }

    #[verifier::when_used_as_spec(spec_is_empty)]
    pub fn is_empty(self) -> (b: bool)
        ensures
            b == self.spec_is_empty(),
    {
        self.day == 0xFFFF_FFFF
    }

    /// Position in the week of this date, Monday being 0.
    pub open spec fn weekday_index(self) -> int {
        (self.day + 3) % 7
    }

    /// The day of the week this date falls on.
    pub fn weekday(self) -> (w: Weekday)
        ensures
            w.index() == self.weekday_index(),
    {
        let r: u32 = (self.day % 7 + 3) % 7;
        if r == 0 {
            Weekday::Monday
        } else if r == 1 {
            Weekday::Tuesday
        } else if r == 2 {
            Weekday::Wednesday
        } else if r == 3 {
            Weekday::Thursday
        } else if r == 4 {
            Weekday::Friday
        } else if r == 5 {
            Weekday::Saturday
        } else {
            Weekday::Sunday
        }
    }

    /// The date `n` days after this one.
    pub fn plus_days(self, n: u32) -> (d: Date)
        requires
            self.day + n <= u32::MAX,
        ensures
            d.day == self.day + n,
    {
        Date { day: self.day + n }
    }
}

/// A set of weekdays. The empty set places no restriction on the day: a rule
/// with an empty set applies on every day of the week.
#[derive(Clone, Copy, Debug, PartialEq, Eq, Structural)]
pub struct Days {
    pub monday: bool,
    pub tuesday: bool,
    pub wednesday: bool,
    pub thursday: bool,
    pub friday: bool,
    pub saturday: bool,
    pub sunday: bool,
}

impl Days {
    /// Whether the day at position `i` of the week (Monday being 0) is in the set.
    pub open spec fn has_index(self, i: int) -> bool {
        (i == 0 && self.monday) || (i == 1 && self.tuesday) || (i == 2 && self.wednesday) || (i
            == 3 && self.thursday) || (i == 4 && self.friday) || (i == 5 && self.saturday) || (i
            == 6 && self.sunday)
    }

    pub open spec fn spec_is_empty(self) -> bool {
        forall|i: int| !self.has_index(i)
    }

    /// Whether a rule restricted to this set applies on the day at position `i`
    /// of the week: the set is empty, or holds that day.
    pub open spec fn spec_applies_on(self, i: int) -> bool {
        self.spec_is_empty() || self.has_index(i)
    }

    /// Whether two rules restricted to these sets can apply on a common day of
    /// the week.
    pub open spec fn spec_intersects(self, other: Days) -> bool {
        exists|i: int| 0 <= i < 7 && self.spec_applies_on(i) && other.spec_applies_on(i)
    }

    /// The set that holds no day.
    pub fn none() -> (d: Days)
        ensures
            d.spec_is_empty(),
            d == (Days {
                monday: false,
                tuesday: false,
                wednesday: false,
                thursday: false,
                friday: false,
                saturday: false,
                sunday: false,
            }),
    {
        Days {
            monday: false,
            tuesday: false,
            wednesday: false,
            thursday: false,
            friday: false,
            saturday: false,
            sunday: false,
        }
    }

    #[verifier::when_used_as_spec(spec_is_empty)]
    pub fn is_empty(self) -> (b: bool)
        ensures
            b == self.spec_is_empty(),
    {
        let b = !(self.monday || self.tuesday || self.wednesday || self.thursday || self.friday
            || self.saturday || self.sunday);
        proof {
            if !b {
                assert(self.has_index(0) || self.has_index(1) || self.has_index(2)
                    || self.has_index(3) || self.has_index(4) || self.has_index(5)
                    || self.has_index(6));
            }
        }
        b
    }

    /// Whether `day` is in the set.
    pub fn has(self, day: Weekday) -> (b: bool)
        ensures
            b == self.has_index(day.index()),
    {
        match day {
            Weekday::Monday => self.monday,
            Weekday::Tuesday => self.tuesday,
            Weekday::Wednesday => self.wednesday,
            Weekday::Thursday => self.thursday,
            Weekday::Friday => self.friday,
            Weekday::Saturday => self.saturday,
            Weekday::Sunday => self.sunday,
        }
    }

    /// Whether a rule restricted to this set applies on `day`.
    pub fn applies_on(self, day: Weekday) -> (b: bool)
        ensures
            b == self.spec_applies_on(day.index()),
    {
        self.is_empty() || self.has(day)
    }

    #[verifier::when_used_as_spec(spec_intersects)]
    pub fn intersects(self, other: Days) -> (b: bool)
        ensures
            b == self.spec_intersects(other),
    {
        let b = self.is_empty() || other.is_empty() || (self.monday && other.monday) || (
        self.tuesday && other.tuesday) || (self.wednesday && other.wednesday) || (self.thursday
            && other.thursday) || (self.friday && other.friday) || (self.saturday
            && other.saturday) || (self.sunday && other.sunday);
        proof {
            if b {
                if self.spec_is_empty() && other.spec_is_empty() {
                    assert(self.spec_applies_on(0) && other.spec_applies_on(0));
                } else if self.spec_is_empty() {
                    let i = choose|i: int| other.has_index(i);
                    assert(self.spec_applies_on(i) && other.spec_applies_on(i));
                } else if other.spec_is_empty() {
                    let i = choose|i: int| self.has_index(i);
                    assert(self.spec_applies_on(i) && other.spec_applies_on(i));
                } else {
                    assert((self.spec_applies_on(0) && other.spec_applies_on(0)) || (
                    self.spec_applies_on(1) && other.spec_applies_on(1)) || (
                    self.spec_applies_on(2) && other.spec_applies_on(2)) || (
                    self.spec_applies_on(3) && other.spec_applies_on(3)) || (
                    self.spec_applies_on(4) && other.spec_applies_on(4)) || (
                    self.spec_applies_on(5) && other.spec_applies_on(5)) || (
                    self.spec_applies_on(6) && other.spec_applies_on(6)));
                }
            }
        }
        b
    }
}

/// A span of the day, from `start` up to but not including `end`.
#[derive(Clone, Copy, Debug, PartialEq, Eq, Structural)]
pub struct TimeInterval {
    pub start: Time,
    pub end: Time,
}

impl TimeInterval {
    /// Well-formed: a non-empty span that ends within the day.
    pub open spec fn spec_valid(self) -> bool {
        self.start.minute < self.end.minute && self.end.minute <= MINUTES_PER_DAY
    }

    /// Whether some minute lies in both spans.
    pub open spec fn spec_intersects(self, other: TimeInterval) -> bool {
        self.start.minute < other.end.minute && other.start.minute < self.end.minute
    }

    #[verifier::when_used_as_spec(spec_valid)]
    pub fn valid(self) -> (b: bool)
        ensures
            b == self.spec_valid(),
    {
        self.start.minute < self.end.minute && self.end.minute <= MINUTES_PER_DAY
    }

    #[verifier::when_used_as_spec(spec_intersects)]
    pub fn intersects(self, other: TimeInterval) -> (b: bool)
        ensures
            b == self.spec_intersects(other),
    {
        self.start.minute < other.end.minute && other.start.minute < self.end.minute
    }
}

/// A range of dates, from `start` to `end`, both included.
#[derive(Clone, Copy, Debug, PartialEq, Eq, Structural)]
pub struct DateRange {
    pub start: Date,
    pub end: Date,
}

impl DateRange {
    /// Well-formed: `start` is not after `end`, and neither is the empty date.
    pub open spec fn spec_valid(self) -> bool {
        self.start.day <= self.end.day && !self.end.spec_is_empty()
    }

    pub open spec fn spec_contains(self, date: Date) -> bool {
        self.start.day <= date.day <= self.end.day
    }

    /// Whether some date lies in both ranges.
    pub open spec fn spec_intersects(self, other: DateRange) -> bool {
        self.start.day <= other.end.day && other.start.day <= self.end.day
    }

    #[verifier::when_used_as_spec(spec_valid)]
    pub fn valid(self) -> (b: bool)
        ensures
            b == self.spec_valid(),
    {
        self.start.day <= self.end.day && !self.end.is_empty()
    }

    #[verifier::when_used_as_spec(spec_contains)]
    pub fn contains(self, date: Date) -> (b: bool)
        ensures
            b == self.spec_contains(date),
    {
        self.start.day <= date.day && date.day <= self.end.day
    }

    #[verifier::when_used_as_spec(spec_intersects)]
    pub fn intersects(self, other: DateRange) -> (b: bool)
        ensures
            b == self.spec_intersects(other),
    {
        self.start.day <= other.end.day && other.start.day <= self.end.day
    }
}

} // verus!
