//! Recurring selectors of time: a span of the day, on some weekdays, within a
//! range of dates.

use crate::time::{Date, DateRange, Days, Time, TimeInterval};
use vstd::prelude::*;

verus! {

/// "Active during this time of day, on these weekdays, within this date range."
#[derive(Clone, Copy, Debug, PartialEq, Eq, Structural)]
pub struct TimePeriod {
    pub time_interval: TimeInterval,
    pub date_range: DateRange,
    pub days: Days,
}

impl TimePeriod {
    /// Valid: the time interval and the date range are both well-formed. The
    /// weekday set may be empty.
    pub open spec fn spec_valid(self) -> bool {
        self.time_interval.spec_valid() && self.date_range.spec_valid()
    }

    /// The date-only overlap rule: the date ranges intersect and the weekday
    /// sets intersect, whatever the times of day.
    pub open spec fn spec_overlaps_dates(self, other: TimePeriod) -> bool {
        self.date_range.spec_intersects(other.date_range) && self.days.spec_intersects(
            other.days,
        )
    }

    /// The overlap rule: the date ranges intersect, the weekday sets intersect,
    /// and the time intervals intersect.
    pub open spec fn spec_overlaps(self, other: TimePeriod) -> bool {
        self.spec_overlaps_dates(other) && self.time_interval.spec_intersects(
            other.time_interval,
        )
    }

    /// Whether the period is active on `date`: the date lies in the range, and
    /// on a weekday that the set admits.
    pub open spec fn spec_covers(self, date: Date) -> bool {
        self.date_range.spec_contains(date) && self.days.spec_applies_on(date.weekday_index())
    }

    /// The period that a partial update `partial` makes of this one: each field
    /// of `partial` that is given (a time that is not the empty time, a date
    /// that is not the empty date, a weekday set that is not empty) replaces
    /// the field of this period, and the others stay.
    pub open spec fn spec_merged(self, partial: TimePeriod) -> TimePeriod {
        TimePeriod {
            time_interval: TimeInterval {
                start: if partial.time_interval.start.spec_is_empty() {
                    self.time_interval.start
                } else {
                    partial.time_interval.start
                },
                end: if partial.time_interval.end.spec_is_empty() {
                    self.time_interval.end
                } else {
                    partial.time_interval.end
                },
            },
            date_range: DateRange {
                start: if partial.date_range.start.spec_is_empty() {
                    self.date_range.start
                } else {
                    partial.date_range.start
                },
                end: if partial.date_range.end.spec_is_empty() {
                    self.date_range.end
                } else {
                    partial.date_range.end
                },
            },
            days: if partial.days.spec_is_empty() {
                self.days
            } else {
                partial.days
            },
        }
    }

    /// Whether every field of the period is the "not given" value.
    pub open spec fn all_unset(self) -> bool {
        self.time_interval.start.spec_is_empty() && self.time_interval.end.spec_is_empty()
            && self.date_range.start.spec_is_empty() && self.date_range.end.spec_is_empty()
            && self.days.spec_is_empty()
    }

    /// The period with no field given: as a partial update it changes nothing.
    pub fn unset() -> (p: TimePeriod)
        ensures
            p.all_unset(),
    {
        TimePeriod {
            time_interval: TimeInterval { start: Time::empty(), end: Time::empty() },
            date_range: DateRange { start: Date::empty_date(), end: Date::empty_date() },
            days: Days::none(),
        }
    }

    pub fn valid(&self) -> (b: bool)
        ensures
            b == self.spec_valid(),
    {
        self.time_interval.valid() && self.date_range.valid()
    }

    pub fn overlaps_dates(&self, other: &TimePeriod) -> (b: bool)
        ensures
            b == self.spec_overlaps_dates(*other),
    {
        self.date_range.intersects(other.date_range) && self.days.intersects(other.days)
    }

    pub fn overlaps(&self, other: &TimePeriod) -> (b: bool)
        ensures
            b == self.spec_overlaps(*other),
    {
        self.overlaps_dates(other) && self.time_interval.intersects(other.time_interval)
    }

    pub fn covers(&self, date: Date) -> (b: bool)
        ensures
            b == self.spec_covers(date),
    {
        self.date_range.contains(date) && self.days.applies_on(date.weekday())
    }

    pub fn merged(&self, partial: &TimePeriod) -> (p: TimePeriod)
        ensures
            p == self.spec_merged(*partial),
    {
        let mut p = *self;
        if !partial.time_interval.start.is_empty() {
            p.time_interval.start = partial.time_interval.start;
        }
        if !partial.time_interval.end.is_empty() {
            p.time_interval.end = partial.time_interval.end;
        }
        if !partial.date_range.start.is_empty() {
            p.date_range.start = partial.date_range.start;
        }
        if !partial.date_range.end.is_empty() {
            p.date_range.end = partial.date_range.end;
        }
        if !partial.days.is_empty() {
            p.days = partial.days;
        }
        p
    }

    /// Overlap is symmetric, under both rules.
    pub proof fn lemma_overlap_symmetric(a: TimePeriod, b: TimePeriod)
        ensures
            a.spec_overlaps_dates(b) == b.spec_overlaps_dates(a),
            a.spec_overlaps(b) == b.spec_overlaps(a),
    {
        Self::lemma_days_symmetric(a.days, b.days);
    }

    /// Intersection of weekday sets is symmetric.
    pub proof fn lemma_days_symmetric(a: Days, b: Days)
        ensures
            a.spec_intersects(b) == b.spec_intersects(a),
    {
        if a.spec_intersects(b) {
            let i = choose|i: int| 0 <= i < 7 && a.spec_applies_on(i) && b.spec_applies_on(i);
            assert(b.spec_applies_on(i) && a.spec_applies_on(i));
        }
        if b.spec_intersects(a) {
            let i = choose|i: int| 0 <= i < 7 && b.spec_applies_on(i) && a.spec_applies_on(i);
            assert(a.spec_applies_on(i) && b.spec_applies_on(i));
        }
    }

    /// The date-only rule is strictly stronger than the overlap rule: periods
    /// that overlap also overlap by dates alone, and periods with disjoint
    /// times of day can overlap by dates without overlapping.
    pub proof fn lemma_overlap_implies_date_overlap(a: TimePeriod, b: TimePeriod)
        ensures
            a.spec_overlaps(b) ==> a.spec_overlaps_dates(b),
            a.spec_overlaps_dates(b) && !a.time_interval.spec_intersects(b.time_interval)
                ==> !a.spec_overlaps(b),
    {
    }

    /// Two periods that are active on one date overlap by the date-only rule:
    /// periods that pass the rule never share a day.
    pub proof fn lemma_common_date_overlaps(a: TimePeriod, b: TimePeriod, date: Date)
        requires
            a.spec_covers(date),
            b.spec_covers(date),
        ensures
            a.spec_overlaps_dates(b),
    {
        let i = date.weekday_index();
        assert(0 <= i < 7 && a.days.spec_applies_on(i) && b.days.spec_applies_on(i));
    }

    /// A partial update with no field given leaves the period as it was.
    pub proof fn lemma_merge_unset(p: TimePeriod, partial: TimePeriod)
        requires
            partial.all_unset(),
        ensures
            p.spec_merged(partial) == p,
    {
    }
}

} // verus!
