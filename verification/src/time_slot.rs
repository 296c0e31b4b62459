//! One scheduled rule of an actuator: a target state during a recurring
//! period, with overrides of the period for specific dates.

use crate::scan::{first_match, lemma_first_match_stays};
use crate::state::ActuatorState;
use crate::time::{Date, TimeInterval};
use crate::time_period::TimePeriod;
use vstd::prelude::*;

verus! {

/// A time slot. The overrides are kept by ascending id.
#[derive(Clone, Debug, PartialEq, Eq)]
pub struct TimeSlot {
    pub enabled: bool,
    pub actuator_state: ActuatorState,
    pub time_period: TimePeriod,
    pub time_override: Vec<(u32, TimePeriod)>,
}

/// The mathematical value of a time slot.
pub struct TimeSlotView {
    pub enabled: bool,
    pub actuator_state: ActuatorState,
    pub time_period: TimePeriod,
    pub overrides: Seq<(u32, TimePeriod)>,
}

impl View for TimeSlot {
    type V = TimeSlotView;

    open spec fn view(&self) -> TimeSlotView {
        TimeSlotView {
            enabled: self.enabled,
            actuator_state: self.actuator_state,
            time_period: self.time_period,
            overrides: self.time_override@,
        }
    }
}

/// The condition "this override is active on `date`".
pub open spec fn covering(date: Date) -> spec_fn((u32, TimePeriod)) -> bool {
    |e: (u32, TimePeriod)| e.1.spec_covers(date)
}

/// The condition "this override shares a day with `period`".
pub open spec fn sharing_a_day(period: TimePeriod) -> spec_fn((u32, TimePeriod)) -> bool {
    |e: (u32, TimePeriod)| e.1.spec_overlaps_dates(period)
}

/// The condition "this override has the id `id`".
pub open spec fn override_with_id(id: u32) -> spec_fn((u32, TimePeriod)) -> bool {
    |e: (u32, TimePeriod)| e.0 == id
}

impl TimeSlotView {
    /// The invariant of a slot whose override ids were all given out below
    /// `next_id`: the base period and every override are valid, the override
    /// ids ascend strictly, and no two overrides share a day.
    pub open spec fn wf(self, next_id: int) -> bool {
        &&& self.time_period.spec_valid()
        &&& forall|i: int|
            0 <= i < self.overrides.len() ==> (#[trigger] self.overrides[i]).1.spec_valid()
                && self.overrides[i].0 < next_id
        &&& forall|i: int, j: int|
            0 <= i < j < self.overrides.len() ==> (#[trigger] self.overrides[i]).0 < (
            #[trigger] self.overrides[j]).0
        &&& forall|i: int, j: int|
            0 <= i < j < self.overrides.len() ==> !(#[trigger] self.overrides[i]).1.spec_overlaps_dates(
                (#[trigger] self.overrides[j]).1,
            )
    }

    /// The interval that the slot contributes on `date`, with the id of the
    /// override it comes from, if any: nothing where the slot is disabled;
    /// else the interval of the first override that is active on the date;
    /// else that of the base period, where it is active; else nothing.
    pub open spec fn time_interval_on(self, date: Date) -> Option<(TimeInterval, Option<u32>)> {
        if !self.enabled {
            None
        } else {
            match first_match(self.overrides, covering(date), self.overrides.len() as int) {
                Some(i) => Some(
                    (self.overrides[i].1.time_interval, Some(self.overrides[i].0)),
                ),
                None => if self.time_period.spec_covers(date) {
                    Some((self.time_period.time_interval, None))
                } else {
                    None
                },
            }
        }
    }

    /// The override with which `period` shares a day, if there is one (the
    /// first by id).
    pub open spec fn override_conflict(self, period: TimePeriod) -> Option<int> {
        first_match(self.overrides, sharing_a_day(period), self.overrides.len() as int)
    }

    /// The position of the override with the id `id`, if there is one.
    pub open spec fn override_index(self, id: u32) -> Option<int> {
        first_match(self.overrides, override_with_id(id), self.overrides.len() as int)
    }

    /// In a well-formed slot at most one override is active on any date.
    pub proof fn lemma_one_override_per_date(self, next_id: int, date: Date, i: int, j: int)
        requires
            self.wf(next_id),
            0 <= i < self.overrides.len(),
            0 <= j < self.overrides.len(),
            self.overrides[i].1.spec_covers(date),
            self.overrides[j].1.spec_covers(date),
        ensures
            i == j,
    {
        TimePeriod::lemma_common_date_overlaps(self.overrides[i].1, self.overrides[j].1, date);
        TimePeriod::lemma_overlap_symmetric(self.overrides[i].1, self.overrides[j].1);
    }
}

impl TimeSlot {
    /// A slot with no override.
    pub fn new(enabled: bool, actuator_state: ActuatorState, time_period: TimePeriod) -> (slot:
        TimeSlot)
        ensures
            slot@ == (TimeSlotView {
                enabled,
                actuator_state,
                time_period,
                overrides: Seq::empty(),
            }),
    {
        TimeSlot { enabled, actuator_state, time_period, time_override: Vec::new() }
    }

    /// Whether the base period of the slot overlaps `period`.
    pub fn overlaps(&self, period: &TimePeriod) -> (b: bool)
        ensures
            b == self@.time_period.spec_overlaps(*period),
    {
        self.time_period.overlaps(period)
    }

    /// The interval that the slot contributes on `date`, and the id of the
    /// override that gave it, if one did.
    pub fn time_interval_on(&self, date: &Date) -> (r: Option<(TimeInterval, Option<u32>)>)
        ensures
            r == self@.time_interval_on(*date),
    {
        if !self.enabled {
            return None;
        }
        let ghost ovs = self.time_override@;
        let ghost p = covering(*date);
        let n: usize = self.time_override.len();
        let mut i: usize = 0;
        while i < n
            invariant
                i <= n,
                n == ovs.len(),
                ovs == self.time_override@,
                p == covering(*date),
                self.enabled,
                first_match(ovs, p, i as int) is None,
            decreases n - i,
        {
            if self.time_override[i].1.covers(*date) {
                proof {
                    assert(p(ovs[i as int]));
                    assert(first_match(ovs, p, i + 1) == Some(i as int));
                    lemma_first_match_stays(ovs, p, i + 1, n as int);
                }
                return Some((self.time_override[i].1.time_interval, Some(self.time_override[i].0)));
            }
            proof {
                assert(!p(ovs[i as int]));
            }
            i += 1;
        }
        if self.time_period.covers(*date) {
            Some((self.time_period.time_interval, None))
        } else {
            None
        }
    }

    /// The id of the first override with which `period` shares a day.
    pub fn find_override_conflict(&self, period: &TimePeriod) -> (r: Option<u32>)
        ensures
            match self@.override_conflict(*period) {
                Some(k) => r == Some(self@.overrides[k].0),
                None => r is None,
            },
    {
        let ghost ovs = self.time_override@;
        let ghost p = sharing_a_day(*period);
        let n: usize = self.time_override.len();
        let mut i: usize = 0;
        while i < n
            invariant
                i <= n,
                n == ovs.len(),
                ovs == self.time_override@,
                p == sharing_a_day(*period),
                first_match(ovs, p, i as int) is None,
            decreases n - i,
        {
            if self.time_override[i].1.overlaps_dates(period) {
                proof {
                    assert(p(ovs[i as int]));
                    assert(first_match(ovs, p, i + 1) == Some(i as int));
                    lemma_first_match_stays(ovs, p, i + 1, n as int);
                }
                return Some(self.time_override[i].0);
            }
            proof {
                assert(!p(ovs[i as int]));
            }
            i += 1;
        }
        None
    }

    /// The position of the override with the id `id`.
    pub fn find_override(&self, id: u32) -> (r: Option<usize>)
        ensures
            match self@.override_index(id) {
                Some(k) => r is Some && r.unwrap() == k && 0 <= k < self@.overrides.len()
                    && self@.overrides[k].0 == id,
                None => r is None,
            },
    {
        let ghost ovs = self.time_override@;
        let ghost p = override_with_id(id);
        let n: usize = self.time_override.len();
        let mut i: usize = 0;
        while i < n
            invariant
                i <= n,
                n == ovs.len(),
                ovs == self.time_override@,
                p == override_with_id(id),
                first_match(ovs, p, i as int) is None,
            decreases n - i,
        {
            if self.time_override[i].0 == id {
                proof {
                    assert(p(ovs[i as int]));
                    assert(first_match(ovs, p, i + 1) == Some(i as int));
                    lemma_first_match_stays(ovs, p, i + 1, n as int);
                }
                return Some(i);
            }
            proof {
                assert(!p(ovs[i as int]));
            }
            i += 1;
        }
        None
    }
}

} // verus!
