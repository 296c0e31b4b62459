//! An actuator and its time slots, with the rules that keep the slots and
//! their overrides consistent.

use crate::error::{Error, InvalArgError};
use crate::scan::{
    first_match, lemma_first_match, lemma_first_match_agree, lemma_first_match_is,
    lemma_first_match_stays,
};
use crate::state::{ActuatorInfo, ActuatorState};
use crate::time_period::TimePeriod;
use crate::time_slot::{sharing_a_day, TimeSlot, TimeSlotView};
use vstd::prelude::*;

verus! {

/// An actuator: its description, its default state, and its time slots by
/// ascending id. The two counters hold the next id to give to a time slot and
/// to an override; an id is never given twice.
#[derive(Clone, Debug, PartialEq, Eq)]
pub struct Actuator {
    pub info: ActuatorInfo,
    pub timeslots: Vec<(u32, TimeSlot)>,
    pub default_state: ActuatorState,
    pub next_timeslot_id: u32,
    pub next_override_id: u32,
}

/// The mathematical value of an actuator.
pub struct ActuatorView {
    pub info: ActuatorInfo,
    pub default_state: ActuatorState,
    pub slots: Seq<(u32, TimeSlotView)>,
    pub next_timeslot_id: u32,
    pub next_override_id: u32,
}

/// The values of a list of time slots, each with its id.
pub open spec fn slots_view(v: Seq<(u32, TimeSlot)>) -> Seq<(u32, TimeSlotView)> {
    Seq::new(v.len(), |i: int| (v[i].0, v[i].1@))
}

impl View for Actuator {
    type V = ActuatorView;

    open spec fn view(&self) -> ActuatorView {
        ActuatorView {
            info: self.info,
            default_state: self.default_state,
            slots: slots_view(self.timeslots@),
            next_timeslot_id: self.next_timeslot_id,
            next_override_id: self.next_override_id,
        }
    }
}

/// The condition "this slot has the id `id`".
pub open spec fn slot_with_id(id: u32) -> spec_fn((u32, TimeSlotView)) -> bool {
    |e: (u32, TimeSlotView)| e.0 == id
}

/// The condition "the base period of this slot overlaps `period`, and the slot
/// is not the one that `skip` names".
pub open spec fn overlapping(skip: Option<u32>, period: TimePeriod) -> spec_fn(
    (u32, TimeSlotView),
) -> bool {
    |e: (u32, TimeSlotView)| skip != Some(e.0) && e.1.time_period.spec_overlaps(period)
}

impl ActuatorView {
    /// Valid: the type is valid and the default state is a state of that type.
    pub open spec fn valid(self) -> bool {
        self.info.spec_valid() && self.info.actuator_type.spec_accepts(self.default_state)
    }

    /// The invariant of the time slots. Their ids ascend strictly and lie below
    /// the counter; every slot is well-formed and holds a state of the
    /// actuator's type; no two base periods overlap.
    pub open spec fn wf(self) -> bool {
        &&& forall|i: int|
            0 <= i < self.slots.len() ==> {
                &&& (#[trigger] self.slots[i]).0 < self.next_timeslot_id
                &&& self.slots[i].1.wf(self.next_override_id as int)
                &&& self.info.actuator_type.spec_accepts(self.slots[i].1.actuator_state)
            }
        &&& forall|i: int, j: int|
            0 <= i < j < self.slots.len() ==> {
                &&& (#[trigger] self.slots[i]).0 < (#[trigger] self.slots[j]).0
                &&& !self.slots[i].1.time_period.spec_overlaps(self.slots[j].1.time_period)
            }
    }

    /// The position of the slot with the id `id`, if there is one.
    pub open spec fn slot_index(self, id: u32) -> Option<int> {
        first_match(self.slots, slot_with_id(id), self.slots.len() as int)
    }

    /// The position of the first slot, by id, whose base period overlaps
    /// `period`, the slot that `skip` names left aside.
    pub open spec fn conflict(self, skip: Option<u32>, period: TimePeriod) -> Option<int> {
        first_match(self.slots, overlapping(skip, period), self.slots.len() as int)
    }

    /// Why a new slot with this period and state is refused, if it is: an
    /// invalid period, a state that the type does not accept, or the first
    /// slot whose period overlaps the new one.
    pub open spec fn add_time_slot_error(self, period: TimePeriod, state: ActuatorState) -> Option<
        Error,
    > {
        if !period.spec_valid() {
            Some(Error::InvalidArgument(InvalArgError::TimePeriod))
        } else if !self.info.actuator_type.spec_accepts(state) {
            Some(Error::InvalidArgument(InvalArgError::ActuatorState))
        } else {
            match self.conflict(None, period) {
                Some(j) => Some(Error::TimeSlotOverlap(self.slots[j].0)),
                None => None,
            }
        }
    }

    /// The actuator after a slot was added under the next id.
    pub open spec fn with_time_slot(
        self,
        period: TimePeriod,
        state: ActuatorState,
        enabled: bool,
    ) -> ActuatorView {
        ActuatorView {
            slots: self.slots.push(
                (
                    self.next_timeslot_id,
                    TimeSlotView {
                        enabled,
                        actuator_state: state,
                        time_period: period,
                        overrides: Seq::empty(),
                    },
                ),
            ),
            next_timeslot_id: (self.next_timeslot_id + 1) as u32,
            ..self
        }
    }

    /// The actuator with the slot at position `i` replaced by `slot`, under
    /// the same id.
    pub open spec fn with_slot(self, i: int, slot: TimeSlotView) -> ActuatorView {
        ActuatorView { slots: self.slots.update(i, (self.slots[i].0, slot)), ..self }
    }

    /// The period that the slot at position `i` gets from the partial update
    /// `partial`.
    pub open spec fn merged_period(self, i: int, partial: TimePeriod) -> TimePeriod {
        self.slots[i].1.time_period.spec_merged(partial)
    }

    /// Why a partial update of the period of slot `id` is refused, if it is:
    /// no such slot; else the first other slot whose period overlaps the
    /// merged period; else a merged period that is invalid.
    pub open spec fn set_time_period_error(self, id: u32, partial: TimePeriod) -> Option<Error> {
        match self.slot_index(id) {
            None => Some(Error::InvalidArgument(InvalArgError::TimeSlotId)),
            Some(i) => match self.conflict(Some(id), self.merged_period(i, partial)) {
                Some(j) => Some(Error::TimeSlotOverlap(self.slots[j].0)),
                None => if !self.merged_period(i, partial).spec_valid() {
                    Some(Error::InvalidArgument(InvalArgError::TimePeriod))
                } else {
                    None
                },
            },
        }
    }

    /// Why a new override of slot `id` is refused, if it is: an invalid
    /// period; else the first other slot whose base period overlaps it; else
    /// no such slot; else the first override of the slot with which it shares
    /// a day.
    pub open spec fn add_time_override_error(self, id: u32, period: TimePeriod) -> Option<Error> {
        if !period.spec_valid() {
            Some(Error::InvalidArgument(InvalArgError::TimePeriod))
        } else {
            match self.conflict(Some(id), period) {
                Some(j) => Some(Error::TimeSlotOverlap(self.slots[j].0)),
                None => match self.slot_index(id) {
                    None => Some(Error::InvalidArgument(InvalArgError::TimeSlotId)),
                    Some(i) => match self.slots[i].1.override_conflict(period) {
                        Some(k) => Some(Error::TimeOverrideOverlap(self.slots[i].1.overrides[k].0)),
                        None => None,
                    },
                },
            }
        }
    }

    /// The actuator after slot `i` got the override `period` under the next
    /// override id.
    pub open spec fn with_time_override(self, i: int, period: TimePeriod) -> ActuatorView {
        ActuatorView {
            slots: self.slots.update(
                i,
                (
                    self.slots[i].0,
                    TimeSlotView {
                        overrides: self.slots[i].1.overrides.push((self.next_override_id, period)),
                        ..self.slots[i].1
                    },
                ),
            ),
            next_override_id: (self.next_override_id + 1) as u32,
            ..self
        }
    }
}

impl ActuatorView {
    /// Two periods that overlap cannot both become time slots, in whichever
    /// order they are added: once the first is in, the second is refused as
    /// overlapping a slot that is there. The slot named is the one just
    /// added, unless the second period already collided with an older slot.
    pub proof fn lemma_overlapping_slots_conflict(
        self,
        p: TimePeriod,
        p_state: ActuatorState,
        p_enabled: bool,
        q: TimePeriod,
        q_state: ActuatorState,
        q_enabled: bool,
    )
        requires
            p.spec_overlaps(q),
            p.spec_valid(),
            q.spec_valid(),
            self.info.actuator_type.spec_accepts(p_state),
            self.info.actuator_type.spec_accepts(q_state),
        ensures
            self.add_time_slot_error(p, p_state) is None ==> self.with_time_slot(
                p,
                p_state,
                p_enabled,
            ).add_time_slot_error(q, q_state) == Some(
                match self.add_time_slot_error(q, q_state) {
                    Some(e) => e,
                    None => Error::TimeSlotOverlap(self.next_timeslot_id),
                },
            ),
            self.add_time_slot_error(q, q_state) is None ==> self.with_time_slot(
                q,
                q_state,
                q_enabled,
            ).add_time_slot_error(p, p_state) == Some(
                match self.add_time_slot_error(p, p_state) {
                    Some(e) => e,
                    None => Error::TimeSlotOverlap(self.next_timeslot_id),
                },
            ),
    {
        TimePeriod::lemma_overlap_symmetric(p, q);
        self.lemma_second_is_refused(p, p_state, p_enabled, q, q_state);
        self.lemma_second_is_refused(q, q_state, q_enabled, p, p_state);
    }

    /// With a slot of period `p` added, a valid period `q` that `p` overlaps
    /// is refused: as it was before where an older slot collides with it, and
    /// else as overlapping the new slot.
    pub proof fn lemma_second_is_refused(
        self,
        p: TimePeriod,
        p_state: ActuatorState,
        p_enabled: bool,
        q: TimePeriod,
        q_state: ActuatorState,
    )
        requires
            p.spec_overlaps(q),
            q.spec_valid(),
            self.info.actuator_type.spec_accepts(q_state),
        ensures
            self.with_time_slot(p, p_state, p_enabled).add_time_slot_error(q, q_state) == Some(
                match self.add_time_slot_error(q, q_state) {
                    Some(e) => e,
                    None => Error::TimeSlotOverlap(self.next_timeslot_id),
                },
            ),
    {
        let after = self.with_time_slot(p, p_state, p_enabled);
        let n = self.slots.len() as int;
        let c = overlapping(None, q);
        lemma_first_match_agree(self.slots, after.slots, c, c, n);
        assert(c(after.slots[n]));
        match first_match(self.slots, c, n) {
            Some(j) => {
                lemma_first_match(self.slots, c, n);
                lemma_first_match_stays(after.slots, c, n, n + 1);
                assert(after.slots[j] == self.slots[j]);
            },
            None => {
                assert(first_match(after.slots, c, n + 1) == Some(n));
            },
        }
    }

    /// An override that shares a day with an override of the same slot is
    /// refused, whatever their times of day. Where the period is valid and
    /// collides with no other slot, the error names the first override that it
    /// shares a day with.
    pub proof fn lemma_override_sharing_a_day_is_refused(
        self,
        id: u32,
        period: TimePeriod,
        i: int,
        k: int,
    )
        requires
            self.slot_index(id) == Some(i),
            0 <= k < self.slots[i].1.overrides.len(),
            self.slots[i].1.overrides[k].1.spec_overlaps_dates(period),
        ensures
            self.add_time_override_error(id, period) is Some,
            period.spec_valid() && self.conflict(Some(id), period) is None ==> {
                let first = self.slots[i].1.override_conflict(period);
                &&& first is Some
                &&& 0 <= first.unwrap() <= k
                &&& self.add_time_override_error(id, period) == Some(
                    Error::TimeOverrideOverlap(self.slots[i].1.overrides[first.unwrap()].0),
                )
            },
    {
        let ovs = self.slots[i].1.overrides;
        let c = sharing_a_day(period);
        assert(c(ovs[k]));
        lemma_first_match(ovs, c, ovs.len() as int);
    }

    /// A partial update with no field given never fails on a slot that
    /// exists, and leaves the actuator as it was.
    pub proof fn lemma_unset_update_changes_nothing(self, id: u32, partial: TimePeriod)
        requires
            self.wf(),
            self.slot_index(id) is Some,
            partial.all_unset(),
        ensures
            self.set_time_period_error(id, partial) is None,
            ({
                let i = self.slot_index(id).unwrap();
                &&& self.merged_period(i, partial) == self.slots[i].1.time_period
                &&& self.with_slot(
                    i,
                    TimeSlotView {
                        time_period: self.merged_period(i, partial),
                        ..self.slots[i].1
                    },
                ) == self
            }),
    {
        let i = self.slot_index(id).unwrap();
        let n = self.slots.len() as int;
        lemma_first_match(self.slots, slot_with_id(id), n);
        let period = self.slots[i].1.time_period;
        TimePeriod::lemma_merge_unset(period, partial);
        let c = overlapping(Some(id), period);
        lemma_first_match(self.slots, c, n);
        match first_match(self.slots, c, n) {
            Some(j) => {
                assert(c(self.slots[j]));
                TimePeriod::lemma_overlap_symmetric(self.slots[j].1.time_period, period);
                assert(false);
            },
            None => {},
        }
        assert(self.slots.update(i, (self.slots[i].0, self.slots[i].1)) =~= self.slots);
    }

    /// In a well-formed actuator no two slots have the same id: the position
    /// of a slot is the position that its id is found at.
    pub proof fn lemma_ids_are_unique(self, i: int)
        requires
            self.wf(),
            0 <= i < self.slots.len(),
        ensures
            self.slot_index(self.slots[i].0) == Some(i),
    {
        let c = slot_with_id(self.slots[i].0);
        assert(c(self.slots[i]));
        assert forall|j: int| 0 <= j < i implies !c(#[trigger] self.slots[j]) by {
            assert(self.slots[j].0 < self.slots[i].0);
        }
        lemma_first_match_is(self.slots, c, self.slots.len() as int, i);
    }
}

impl Actuator {
    /// An actuator with no time slot, whose counters start at 0.
    pub fn new(info: ActuatorInfo, default_state: ActuatorState) -> (a: Actuator)
        ensures
            a@ == (ActuatorView {
                info,
                default_state,
                slots: Seq::empty(),
                next_timeslot_id: 0,
                next_override_id: 0,
            }),
            a@.wf(),
    {
        let a = Actuator {
            info,
            timeslots: Vec::new(),
            default_state,
            next_timeslot_id: 0,
            next_override_id: 0,
        };
        assert(a@.slots =~= Seq::empty());
        a
    }

    /// The time slots, by ascending id.
    pub fn timeslots(&self) -> (r: &Vec<(u32, TimeSlot)>)
        ensures
            *r == self.timeslots,
    {
        &self.timeslots
    }

    pub fn default_state(&self) -> (r: &ActuatorState)
        ensures
            *r == self.default_state,
    {
        &self.default_state
    }

    /// Whether `state` is a state of this actuator's type.
    pub fn valid_state(&self, state: &ActuatorState) -> (b: bool)
        ensures
            b == self.info.actuator_type.spec_accepts(*state),
    {
        self.info.actuator_type.accepts(state)
    }

    /// Whether the description is valid and the default state matches the type.
    pub fn valid(&self) -> (b: bool)
        ensures
            b == self@.valid(),
    {
        self.info.valid() && self.valid_state(&self.default_state)
    }

    /// The position of the slot with the id `id`.
    pub fn find_slot(&self, id: u32) -> (r: Option<usize>)
        ensures
            match self@.slot_index(id) {
                Some(i) => r is Some && r.unwrap() == i && 0 <= i < self.timeslots@.len()
                    && self.timeslots@.len() == self@.slots.len() && self.timeslots@[i].0 == id
                    && self@.slots[i] == (id, self.timeslots@[i].1@),
                None => r is None,
            },
    {
        let ghost s = self@.slots;
        let ghost p = slot_with_id(id);
        let n: usize = self.timeslots.len();
        let mut i: usize = 0;
        while i < n
            invariant
                i <= n,
                n == s.len(),
                s == self@.slots,
                p == slot_with_id(id),
                first_match(s, p, i as int) is None,
            decreases n - i,
        {
            if self.timeslots[i].0 == id {
                proof {
                    assert(p(s[i as int]));
                    assert(first_match(s, p, i + 1) == Some(i as int));
                    lemma_first_match_stays(s, p, i + 1, n as int);
                }
                return Some(i);
            }
            proof {
                assert(!p(s[i as int]));
            }
            i += 1;
        }
        None
    }

    /// The id of the first slot whose base period overlaps `period`, the slot
    /// that `skip` names left aside.
    pub fn find_conflict(&self, skip: Option<u32>, period: &TimePeriod) -> (r: Option<u32>)
        ensures
            match self@.conflict(skip, *period) {
                Some(j) => r == Some(self@.slots[j].0),
                None => r is None,
            },
    {
        let ghost s = self@.slots;
        let ghost p = overlapping(skip, *period);
        let n: usize = self.timeslots.len();
        let mut i: usize = 0;
        while i < n
            invariant
                i <= n,
                n == s.len(),
                s == self@.slots,
                p == overlapping(skip, *period),
                first_match(s, p, i as int) is None,
            decreases n - i,
        {
            let id: u32 = self.timeslots[i].0;
            let skipped = match skip {
                Some(k) => k == id,
                None => false,
            };
            if !skipped && self.timeslots[i].1.overlaps(period) {
                proof {
                    assert(p(s[i as int]));
                    assert(first_match(s, p, i + 1) == Some(i as int));
                    lemma_first_match_stays(s, p, i + 1, n as int);
                }
                return Some(id);
            }
            proof {
                assert(!p(s[i as int]));
            }
            i += 1;
        }
        None
    }

    fn take_slot(&mut self, idx: usize) -> (e: (u32, TimeSlot))
        requires
            idx < old(self)@.slots.len(),
        ensures
            e.0 == old(self)@.slots[idx as int].0,
            e.1@ == old(self)@.slots[idx as int].1,
            final(self)@ == (ActuatorView {
                slots: old(self)@.slots.remove(idx as int),
                ..old(self)@
            }),
    {
        let e = self.timeslots.remove(idx);
        assert(self@.slots =~= old(self)@.slots.remove(idx as int));
        e
    }

    fn put_slot(&mut self, idx: usize, id: u32, slot: TimeSlot)
        requires
            idx <= old(self)@.slots.len(),
        ensures
            final(self)@ == (ActuatorView {
                slots: old(self)@.slots.insert(idx as int, (id, slot@)),
                ..old(self)@
            }),
    {
        self.timeslots.insert(idx, (id, slot));
        assert(self@.slots =~= old(self)@.slots.insert(idx as int, (id, slot@)));
    }

    /// Sets the default state, if it is a state of the actuator's type.
    pub fn set_default_state(&mut self, default_state: ActuatorState) -> (r: Result<(), Error>)
        ensures
            match r {
                Ok(_) => old(self).info.actuator_type.spec_accepts(default_state) && final(self)@
                    == (ActuatorView { default_state, ..old(self)@ }),
                Err(e) => !old(self).info.actuator_type.spec_accepts(default_state) && e
                    == Error::InvalidArgument(InvalArgError::ActuatorState) && *final(self) == *old(
                    self,
                ),
            },
            old(self)@.wf() ==> final(self)@.wf(),
    {
        if !self.valid_state(&default_state) {
            return Err(Error::InvalidArgument(InvalArgError::ActuatorState));
        }
        self.default_state = default_state;
        Ok(())
    }

    /// Adds a time slot and returns its id, the next unused one. A refused
    /// call changes nothing.
    pub fn add_time_slot(
        &mut self,
        time_period: TimePeriod,
        actuator_state: ActuatorState,
        enabled: bool,
    ) -> (r: Result<u32, Error>)
        requires
            old(self).next_timeslot_id < u32::MAX,
        ensures
            match r {
                Ok(id) => old(self)@.add_time_slot_error(time_period, actuator_state) is None && id
                    == old(self).next_timeslot_id && final(self)@ == old(self)@.with_time_slot(
                    time_period,
                    actuator_state,
                    enabled,
                ),
                Err(e) => old(self)@.add_time_slot_error(time_period, actuator_state) == Some(e)
                    && *final(self) == *old(self),
            },
            old(self)@.wf() ==> final(self)@.wf(),
    {
        if !time_period.valid() {
            return Err(Error::InvalidArgument(InvalArgError::TimePeriod));
        }
        if !self.valid_state(&actuator_state) {
            return Err(Error::InvalidArgument(InvalArgError::ActuatorState));
        }
        match self.find_conflict(None, &time_period) {
            Some(id) => {
                return Err(Error::TimeSlotOverlap(id));
            },
            None => {},
        }
        let id: u32 = self.next_timeslot_id;
        self.timeslots.push((id, TimeSlot::new(enabled, actuator_state, time_period)));
        self.next_timeslot_id = id + 1;
        proof {
            let o = old(self)@;
            assert(self@.slots =~= o.with_time_slot(time_period, actuator_state, enabled).slots);
            if o.wf() {
                lemma_first_match(o.slots, overlapping(None, time_period), o.slots.len() as int);
                let n = o.slots.len() as int;
                assert forall|i: int, j: int| 0 <= i < j < self@.slots.len() implies {
                    &&& (#[trigger] self@.slots[i]).0 < (#[trigger] self@.slots[j]).0
                    &&& !self@.slots[i].1.time_period.spec_overlaps(self@.slots[j].1.time_period)
                } by {
                    assert(self@.slots[i] == o.slots[i]);
                    if j < n {
                        assert(self@.slots[j] == o.slots[j]);
                    } else {
                        assert(!overlapping(None, time_period)(o.slots[i]));
                    }
                }
                assert forall|i: int| 0 <= i < self@.slots.len() implies {
                    &&& (#[trigger] self@.slots[i]).0 < self@.next_timeslot_id
                    &&& self@.slots[i].1.wf(self@.next_override_id as int)
                    &&& self@.info.actuator_type.spec_accepts(self@.slots[i].1.actuator_state)
                } by {
                    if i < n {
                        assert(self@.slots[i] == o.slots[i]);
                    }
                }
            }
        }
        Ok(id)
    }

    /// Removes the time slot with the id `time_slot_id`, with its overrides.
    pub fn remove_time_slot(&mut self, time_slot_id: u32) -> (r: Result<(), Error>)
        ensures
            match old(self)@.slot_index(time_slot_id) {
                Some(i) => r is Ok && final(self)@ == (ActuatorView {
                    slots: old(self)@.slots.remove(i),
                    ..old(self)@
                }),
                None => r == Err::<(), Error>(Error::InvalidArgument(InvalArgError::TimeSlotId))
                    && *final(self) == *old(self),
            },
            old(self)@.wf() ==> final(self)@.wf(),
    {
        match self.find_slot(time_slot_id) {
            Some(idx) => {
                let _ = self.take_slot(idx);
                proof {
                    let o = old(self)@;
                    let k = idx as int;
                    assert forall|i: int| 0 <= i < self@.slots.len() implies #[trigger] self@.slots[i]
                        == o.slots[if i < k {
                        i
                    } else {
                        i + 1
                    }] by {}
                }
                Ok(())
            },
            None => Err(Error::InvalidArgument(InvalArgError::TimeSlotId)),
        }
    }

    /// Updates the period of a time slot: each field of `time_period` that is
    /// given replaces the slot's, the others stay. A refused call changes
    /// nothing.
    pub fn time_slot_set_time_period(&mut self, time_slot_id: u32, time_period: TimePeriod) -> (r:
        Result<(), Error>)
        ensures
            match r {
                Ok(_) => old(self)@.set_time_period_error(time_slot_id, time_period) is None && {
                    let i = old(self)@.slot_index(time_slot_id).unwrap();
                    final(self)@ == old(self)@.with_slot(
                        i,
                        TimeSlotView {
                            time_period: old(self)@.merged_period(i, time_period),
                            ..old(self)@.slots[i].1
                        },
                    )
                },
                Err(e) => old(self)@.set_time_period_error(time_slot_id, time_period) == Some(e)
                    && *final(self) == *old(self),
            },
            old(self)@.wf() ==> final(self)@.wf(),
    {
        let idx: usize = match self.find_slot(time_slot_id) {
            Some(idx) => idx,
            None => {
                return Err(Error::InvalidArgument(InvalArgError::TimeSlotId));
            },
        };
        let merged = self.timeslots[idx].1.time_period.merged(&time_period);
        match self.find_conflict(Some(time_slot_id), &merged) {
            Some(id) => {
                return Err(Error::TimeSlotOverlap(id));
            },
            None => {},
        }
        if !merged.valid() {
            return Err(Error::InvalidArgument(InvalArgError::TimePeriod));
        }
        let (id, mut slot) = self.take_slot(idx);
        slot.time_period = merged;
        self.put_slot(idx, id, slot);
        proof {
            let o = old(self)@;
            let k = idx as int;
            assert(self@.slots =~= o.slots.update(k, (id, slot@)));
            if o.wf() {
                lemma_first_match(
                    o.slots,
                    overlapping(Some(time_slot_id), merged),
                    o.slots.len() as int,
                );
                assert forall|i: int, j: int| 0 <= i < j < self@.slots.len() implies {
                    &&& (#[trigger] self@.slots[i]).0 < (#[trigger] self@.slots[j]).0
                    &&& !self@.slots[i].1.time_period.spec_overlaps(self@.slots[j].1.time_period)
                } by {
                    assert(self@.slots[i].0 == o.slots[i].0);
                    assert(self@.slots[j].0 == o.slots[j].0);
                    if i == k {
                        assert(!overlapping(Some(time_slot_id), merged)(o.slots[j]));
                        TimePeriod::lemma_overlap_symmetric(merged, o.slots[j].1.time_period);
                    } else if j == k {
                        assert(!overlapping(Some(time_slot_id), merged)(o.slots[i]));
                    }
                }
                assert forall|i: int| 0 <= i < self@.slots.len() implies {
                    &&& (#[trigger] self@.slots[i]).0 < self@.next_timeslot_id
                    &&& self@.slots[i].1.wf(self@.next_override_id as int)
                    &&& self@.info.actuator_type.spec_accepts(self@.slots[i].1.actuator_state)
                } by {
                    assert(self@.slots[i].0 == o.slots[i].0);
                }
            }
        }
        Ok(())
    }

    /// Enables or disables a time slot.
    pub fn time_slot_set_enabled(&mut self, time_slot_id: u32, enabled: bool) -> (r: Result<
        (),
        Error,
    >)
        ensures
            match old(self)@.slot_index(time_slot_id) {
                Some(i) => r is Ok && final(self)@ == old(self)@.with_slot(
                    i,
                    TimeSlotView { enabled, ..old(self)@.slots[i].1 },
                ),
                None => r == Err::<(), Error>(Error::InvalidArgument(InvalArgError::TimeSlotId))
                    && *final(self) == *old(self),
            },
            old(self)@.wf() ==> final(self)@.wf(),
    {
        let idx: usize = match self.find_slot(time_slot_id) {
            Some(idx) => idx,
            None => {
                return Err(Error::InvalidArgument(InvalArgError::TimeSlotId));
            },
        };
        let (id, mut slot) = self.take_slot(idx);
        slot.enabled = enabled;
        self.put_slot(idx, id, slot);
        proof {
            let o = old(self)@;
            assert(self@.slots =~= o.slots.update(idx as int, (id, slot@)));
            assert forall|i: int| 0 <= i < self@.slots.len() implies (#[trigger] self@.slots[i]).0
                == o.slots[i].0 && self@.slots[i].1.time_period == o.slots[i].1.time_period by {}
        }
        Ok(())
    }

    /// Sets the target state of a time slot, if it is a state of the
    /// actuator's type.
    pub fn time_slot_set_actuator_state(
        &mut self,
        time_slot_id: u32,
        actuator_state: ActuatorState,
    ) -> (r: Result<(), Error>)
        ensures
            match r {
                Ok(_) => old(self).info.actuator_type.spec_accepts(actuator_state) && old(
                    self,
                )@.slot_index(time_slot_id) is Some && {
                    let i = old(self)@.slot_index(time_slot_id).unwrap();
                    final(self)@ == old(self)@.with_slot(
                        i,
                        TimeSlotView { actuator_state, ..old(self)@.slots[i].1 },
                    )
                },
                Err(e) => *final(self) == *old(self) && if !old(
                    self,
                ).info.actuator_type.spec_accepts(actuator_state) {
                    e == Error::InvalidArgument(InvalArgError::ActuatorState)
                } else {
                    e == Error::InvalidArgument(InvalArgError::TimeSlotId) && old(
                        self,
                    )@.slot_index(time_slot_id) is None
                },
            },
            old(self)@.wf() ==> final(self)@.wf(),
    {
        if !self.valid_state(&actuator_state) {
            return Err(Error::InvalidArgument(InvalArgError::ActuatorState));
        }
        let idx: usize = match self.find_slot(time_slot_id) {
            Some(idx) => idx,
            None => {
                return Err(Error::InvalidArgument(InvalArgError::TimeSlotId));
            },
        };
        let (id, mut slot) = self.take_slot(idx);
        slot.actuator_state = actuator_state;
        self.put_slot(idx, id, slot);
        proof {
            let o = old(self)@;
            assert(self@.slots =~= o.slots.update(idx as int, (id, slot@)));
            assert forall|i: int| 0 <= i < self@.slots.len() implies (#[trigger] self@.slots[i]).0
                == o.slots[i].0 && self@.slots[i].1.time_period == o.slots[i].1.time_period by {}
        }
        Ok(())
    }

    /// Adds an override to a time slot and returns its id, the next unused
    /// one. The override may share no day with another override of the slot,
    /// and may not overlap the base period of another slot. A refused call
    /// changes nothing.
    pub fn time_slot_add_time_override(&mut self, time_slot_id: u32, time_period: TimePeriod) -> (r:
        Result<u32, Error>)
        requires
            old(self).next_override_id < u32::MAX,
        ensures
            match r {
                Ok(id) => old(self)@.add_time_override_error(time_slot_id, time_period) is None
                    && id == old(self).next_override_id && final(self)@ == old(
                    self,
                )@.with_time_override(old(self)@.slot_index(time_slot_id).unwrap(), time_period),
                Err(e) => old(self)@.add_time_override_error(time_slot_id, time_period) == Some(e)
                    && *final(self) == *old(self),
            },
            old(self)@.wf() ==> final(self)@.wf(),
    {
        if !time_period.valid() {
            return Err(Error::InvalidArgument(InvalArgError::TimePeriod));
        }
        match self.find_conflict(Some(time_slot_id), &time_period) {
            Some(id) => {
                return Err(Error::TimeSlotOverlap(id));
            },
            None => {},
        }
        let idx: usize = match self.find_slot(time_slot_id) {
            Some(idx) => idx,
            None => {
                return Err(Error::InvalidArgument(InvalArgError::TimeSlotId));
            },
        };
        match self.timeslots[idx].1.find_override_conflict(&time_period) {
            Some(id) => {
                return Err(Error::TimeOverrideOverlap(id));
            },
            None => {},
        }
        let oid: u32 = self.next_override_id;
        let (id, mut slot) = self.take_slot(idx);
        slot.time_override.push((oid, time_period));
        self.put_slot(idx, id, slot);
        self.next_override_id = oid + 1;
        proof {
            let o = old(self)@;
            let k = idx as int;
            assert(self@.slots =~= o.with_time_override(k, time_period).slots);
            if o.wf() {
                let ovs = o.slots[k].1.overrides;
                lemma_first_match(
                    ovs,
                    sharing_a_day(time_period),
                    ovs.len() as int,
                );
                assert forall|i: int| 0 <= i < self@.slots.len() implies (
                #[trigger] self@.slots[i]).0 == o.slots[i].0 && self@.slots[i].1.time_period
                    == o.slots[i].1.time_period && self@.slots[i].1.actuator_state
                    == o.slots[i].1.actuator_state && self@.slots[i].1.wf(
                    self@.next_override_id as int,
                ) by {
                    assert(o.slots[i].1.wf(o.next_override_id as int));
                    if i == k {
                        let nv = self@.slots[i].1.overrides;
                        assert(nv == ovs.push((oid, time_period)));
                        assert forall|a: int, b: int| 0 <= a < b < nv.len() implies !(
                        #[trigger] nv[a]).1.spec_overlaps_dates((#[trigger] nv[b]).1) by {
                            if b < ovs.len() {
                                assert(nv[a] == ovs[a] && nv[b] == ovs[b]);
                            } else {
                                assert(nv[a] == ovs[a]);
                                assert(!sharing_a_day(time_period)(ovs[a]));
                            }
                        }
                        assert forall|a: int, b: int| 0 <= a < b < nv.len() implies (
                        #[trigger] nv[a]).0 < (#[trigger] nv[b]).0 by {
                            assert(nv[a] == ovs[a]);
                            if b < ovs.len() {
                                assert(nv[b] == ovs[b]);
                            }
                        }
                        assert forall|a: int| 0 <= a < nv.len() implies (
                        #[trigger] nv[a]).1.spec_valid() && nv[a].0 < oid + 1 by {
                            if a < ovs.len() {
                                assert(nv[a] == ovs[a]);
                            }
                        }
                    } else {
                        assert(self@.slots[i] == o.slots[i]);
                    }
                }
            }
        }
        Ok(oid)
    }

    /// Removes an override from a time slot.
    pub fn time_slot_remove_time_override(&mut self, time_slot_id: u32, time_override_id: u32) -> (r:
        Result<(), Error>)
        ensures
            match old(self)@.slot_index(time_slot_id) {
                None => r == Err::<(), Error>(Error::InvalidArgument(InvalArgError::TimeSlotId))
                    && *final(self) == *old(self),
                Some(i) => match old(self)@.slots[i].1.override_index(time_override_id) {
                    None => r == Err::<(), Error>(
                        Error::InvalidArgument(InvalArgError::TimeOverrideId),
                    ) && *final(self) == *old(self),
                    Some(k) => r is Ok && final(self)@ == old(self)@.with_slot(
                        i,
                        TimeSlotView {
                            overrides: old(self)@.slots[i].1.overrides.remove(k),
                            ..old(self)@.slots[i].1
                        },
                    ),
                },
            },
            old(self)@.wf() ==> final(self)@.wf(),
    {
        let idx: usize = match self.find_slot(time_slot_id) {
            Some(idx) => idx,
            None => {
                return Err(Error::InvalidArgument(InvalArgError::TimeSlotId));
            },
        };
        let pos: usize = match self.timeslots[idx].1.find_override(time_override_id) {
            Some(pos) => pos,
            None => {
                return Err(Error::InvalidArgument(InvalArgError::TimeOverrideId));
            },
        };
        let (id, mut slot) = self.take_slot(idx);
        let _ = slot.time_override.remove(pos);
        self.put_slot(idx, id, slot);
        proof {
            let o = old(self)@;
            let k = idx as int;
            let ovs = o.slots[k].1.overrides;
            assert(self@.slots =~= o.slots.update(k, (id, slot@)));
            if o.wf() {
                assert forall|i: int| 0 <= i < self@.slots.len() implies (
                #[trigger] self@.slots[i]).0 == o.slots[i].0 && self@.slots[i].1.time_period
                    == o.slots[i].1.time_period && self@.slots[i].1.actuator_state
                    == o.slots[i].1.actuator_state && self@.slots[i].1.wf(
                    self@.next_override_id as int,
                ) by {
                    assert(o.slots[i].1.wf(o.next_override_id as int));
                    if i == k {
                        let nv = self@.slots[i].1.overrides;
                        assert(nv == ovs.remove(pos as int));
                        assert forall|a: int| 0 <= a < nv.len() implies #[trigger] nv[a] == ovs[if a
                            < pos {
                            a
                        } else {
                            a + 1
                        }] by {}
                    } else {
                        assert(self@.slots[i] == o.slots[i]);
                    }
                }
            }
        }
        Ok(())
    }
}

} // verus!
