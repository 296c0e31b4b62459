//! The timetable of an actuator: for each day of a range, the intervals that
//! its time slots and their overrides make effective, in the order they start.

use crate::actuator::{slots_view, ActuatorView};
use crate::state::ActuatorState;
use crate::time::{Date, TimeInterval};
use crate::time_period::TimePeriod;
use crate::time_slot::{TimeSlot, TimeSlotView};
use vstd::prelude::*;

verus! {

/// One effective interval of a day: the state to take, the time slot it comes
/// from, and the override of that slot that set the interval, if one did.
#[derive(Clone, Copy, Debug, PartialEq, Eq)]
pub struct ScheduleSlot {
    pub time_interval: TimeInterval,
    pub actuator_state: ActuatorState,
    pub timeslot_id: u32,
    pub override_id: Option<u32>,
}

/// A timetable: consecutive dates in ascending order, each with its list.
#[derive(Clone, Debug, PartialEq, Eq)]
pub struct Schedule {
    pub days: Vec<(Date, Vec<ScheduleSlot>)>,
}

/// What a time slot contributes to the list of `date`, if anything.
pub open spec fn entry(e: (u32, TimeSlotView), date: Date) -> Option<ScheduleSlot> {
    match e.1.time_interval_on(date) {
        Some((time_interval, override_id)) => Some(
            ScheduleSlot {
                time_interval,
                actuator_state: e.1.actuator_state,
                timeslot_id: e.0,
                override_id,
            },
        ),
        None => None,
    }
}

/// The contributions of the first `n` time slots on `date`, in the order of
/// the slots.
pub open spec fn entries(slots: Seq<(u32, TimeSlotView)>, date: Date, n: int) -> Seq<ScheduleSlot>
    decreases n,
{
    if n <= 0 {
        Seq::empty()
    } else {
        match entry(slots[n - 1], date) {
            Some(x) => entries(slots, date, n - 1).push(x),
            None => entries(slots, date, n - 1),
        }
    }
}

/// Whether `a` does not start after `b`.
pub open spec fn starts_by(a: ScheduleSlot, b: ScheduleSlot) -> bool {
    a.time_interval.start.minute <= b.time_interval.start.minute
}

/// The list `s` with `x` placed behind the last element that does not start
/// after it.
pub open spec fn placed(s: Seq<ScheduleSlot>, x: ScheduleSlot) -> Seq<ScheduleSlot>
    decreases s.len(),
{
    if s.len() == 0 {
        seq![x]
    } else if starts_by(s.last(), x) {
        s.push(x)
    } else {
        placed(s.drop_last(), x).push(s.last())
    }
}

/// The first `n` elements of `s` in the order of their start times; elements
/// that start together keep the order they have in `s`.
pub open spec fn ordered(s: Seq<ScheduleSlot>, n: int) -> Seq<ScheduleSlot>
    decreases n,
{
    if n <= 0 {
        Seq::empty()
    } else {
        placed(ordered(s, n - 1), s[n - 1])
    }
}

/// The list of `date`: what the slots contribute, by ascending start time,
/// ties by ascending slot id.
pub open spec fn day_list(slots: Seq<(u32, TimeSlotView)>, date: Date) -> Seq<ScheduleSlot> {
    let e = entries(slots, date, slots.len() as int);
    ordered(e, e.len() as int)
}

/// No element starts after one behind it.
pub open spec fn sorted_by_start(s: Seq<ScheduleSlot>) -> bool {
    forall|i: int, j: int| 0 <= i < j < s.len() ==> starts_by(#[trigger] s[i], #[trigger] s[j])
}

/// Placing `x` is inserting it at `pos`, where `pos` is behind every element
/// that does not start after `x` and before every other.
pub proof fn lemma_placed_at(s: Seq<ScheduleSlot>, x: ScheduleSlot, pos: int)
    requires
        0 <= pos <= s.len(),
        forall|j: int| pos <= j < s.len() ==> !starts_by(#[trigger] s[j], x),
        pos > 0 ==> starts_by(s[pos - 1], x),
    ensures
        placed(s, x) == s.insert(pos, x),
    decreases s.len(),
{
    if s.len() == 0 {
        assert(seq![x] =~= s.insert(pos, x));
    } else if pos == s.len() {
        assert(s.push(x) =~= s.insert(pos, x));
    } else {
        assert(!starts_by(s[s.len() - 1], x));
        let t = s.drop_last();
        assert forall|j: int| pos <= j < t.len() implies !starts_by(#[trigger] t[j], x) by {
            assert(t[j] == s[j]);
        }
        lemma_placed_at(t, x, pos);
        assert(t.insert(pos, x).push(s.last()) =~= s.insert(pos, x));
    }
}

/// In a sorted list, `x` is placed behind every element that does not start
/// after it and before every element that does: the elements keep their
/// order, and of two that start together the one that came first stays first.
pub proof fn lemma_placed_position(s: Seq<ScheduleSlot>, x: ScheduleSlot) -> (pos: int)
    requires
        sorted_by_start(s),
    ensures
        0 <= pos <= s.len(),
        placed(s, x) == s.insert(pos, x),
        forall|j: int| 0 <= j < pos ==> starts_by(#[trigger] s[j], x),
        forall|j: int| pos <= j < s.len() ==> !starts_by(#[trigger] s[j], x),
    decreases s.len(),
{
    if s.len() == 0 {
        lemma_placed_at(s, x, 0);
        0
    } else if starts_by(s.last(), x) {
        let n = s.len() as int;
        assert forall|j: int| 0 <= j < n implies starts_by(#[trigger] s[j], x) by {
            if j < n - 1 {
                assert(starts_by(s[j], s[n - 1]));
            }
        }
        lemma_placed_at(s, x, n);
        n
    } else {
        let t = s.drop_last();
        assert forall|i: int, j: int| 0 <= i < j < t.len() implies starts_by(
            #[trigger] t[i],
            #[trigger] t[j],
        ) by {
            assert(t[i] == s[i] && t[j] == s[j]);
        }
        let pos = lemma_placed_position(t, x);
        assert forall|j: int| 0 <= j < pos implies starts_by(#[trigger] s[j], x) by {
            assert(t[j] == s[j]);
        }
        assert forall|j: int| pos <= j < s.len() implies !starts_by(#[trigger] s[j], x) by {
            if j < t.len() {
                assert(t[j] == s[j]);
            }
        }
        if pos > 0 {
            assert(t[pos - 1] == s[pos - 1]);
        }
        lemma_placed_at(s, x, pos);
        pos
    }
}

/// Placing an element keeps every element, adds the one, and keeps a sorted
/// list sorted.
pub proof fn lemma_placed(s: Seq<ScheduleSlot>, x: ScheduleSlot)
    ensures
        placed(s, x).len() == s.len() + 1,
        placed(s, x).to_multiset() == s.to_multiset().insert(x),
        sorted_by_start(s) ==> sorted_by_start(placed(s, x)),
    decreases s.len(),
{
    broadcast use vstd::seq_lib::group_to_multiset_ensures;

    if s.len() == 0 {
        assert(seq![x] =~= s.push(x));
    } else if starts_by(s.last(), x) {
        if sorted_by_start(s) {
            let r = s.push(x);
            assert forall|i: int, j: int| 0 <= i < j < r.len() implies starts_by(
                #[trigger] r[i],
                #[trigger] r[j],
            ) by {
                if j == s.len() && i < s.len() - 1 {
                    assert(starts_by(s[i], s[s.len() - 1]));
                }
            }
        }
    } else {
        let t = s.drop_last();
        lemma_placed(t, x);
        let r = placed(t, x).push(s.last());
        assert(s =~= t.push(s.last()));
        assert(r.to_multiset() =~= s.to_multiset().insert(x));
        if sorted_by_start(s) {
            assert forall|i: int, j: int| 0 <= i < j < t.len() implies starts_by(
                #[trigger] t[i],
                #[trigger] t[j],
            ) by {
                assert(t[i] == s[i] && t[j] == s[j]);
            }
            let u = placed(t, x);
            // Every element of `u` is `x` or an element of `t`.
            assert forall|i: int, j: int| 0 <= i < j < r.len() implies starts_by(
                #[trigger] r[i],
                #[trigger] r[j],
            ) by {
                if j == u.len() {
                    assert(u.to_multiset().count(u[i]) > 0);
                    if u[i] != x {
                        assert(t.to_multiset().count(u[i]) > 0);
                        let k = choose|k: int| 0 <= k < t.len() && t[k] == u[i];
                        assert(s[k] == u[i]);
                        assert(starts_by(s[k], s[s.len() - 1]));
                    }
                } else {
                    assert(r[i] == u[i] && r[j] == u[j]);
                }
            }
        }
    }
}

/// The ordered list holds what the given one holds, and is sorted by start
/// time.
pub proof fn lemma_ordered(s: Seq<ScheduleSlot>, n: int)
    requires
        0 <= n <= s.len(),
    ensures
        ordered(s, n).len() == n,
        ordered(s, n).to_multiset() == s.take(n).to_multiset(),
        sorted_by_start(ordered(s, n)),
    decreases n,
{
    broadcast use vstd::seq_lib::group_to_multiset_ensures;

    if n > 0 {
        lemma_ordered(s, n - 1);
        lemma_placed(ordered(s, n - 1), s[n - 1]);
        assert(s.take(n) =~= s.take(n - 1).push(s[n - 1]));
    } else {
        assert(s.take(n) =~= Seq::empty());
    }
}

/// The list of every date is sorted by start time, and holds what the slots
/// contribute on that date, each contribution once.
pub proof fn lemma_day_list(slots: Seq<(u32, TimeSlotView)>, date: Date)
    ensures
        sorted_by_start(day_list(slots, date)),
        day_list(slots, date).to_multiset() == entries(
            slots,
            date,
            slots.len() as int,
        ).to_multiset(),
{
    let e = entries(slots, date, slots.len() as int);
    lemma_ordered(e, e.len() as int);
    assert(e.take(e.len() as int) =~= e);
}

/// A disabled slot contributes nothing, on any date.
pub proof fn lemma_disabled_contributes_nothing(e: (u32, TimeSlotView), date: Date)
    requires
        !e.1.enabled,
    ensures
        entry(e, date) is None,
{
}

/// On any date, two slots of a well-formed actuator that both contribute
/// their base interval contribute intervals that do not intersect.
pub proof fn lemma_base_intervals_are_disjoint(a: ActuatorView, date: Date, i: int, j: int)
    requires
        a.wf(),
        0 <= i < a.slots.len(),
        0 <= j < a.slots.len(),
        i != j,
        entry(a.slots[i], date) is Some,
        entry(a.slots[j], date) is Some,
        entry(a.slots[i], date).unwrap().override_id is None,
        entry(a.slots[j], date).unwrap().override_id is None,
    ensures
        !entry(a.slots[i], date).unwrap().time_interval.spec_intersects(
            entry(a.slots[j], date).unwrap().time_interval,
        ),
{
    let p = a.slots[i].1.time_period;
    let q = a.slots[j].1.time_period;
    TimePeriod::lemma_common_date_overlaps(p, q, date);
    TimePeriod::lemma_overlap_symmetric(p, q);
}

impl Schedule {
    /// What the time slots contribute on `date`, in the order of the slots.
    pub fn day_entries(timeslots: &Vec<(u32, TimeSlot)>, date: &Date) -> (r: Vec<ScheduleSlot>)
        ensures
            r@ == entries(slots_view(timeslots@), *date, timeslots@.len() as int),
    {
        let ghost slots = slots_view(timeslots@);
        let mut r: Vec<ScheduleSlot> = Vec::new();
        let n: usize = timeslots.len();
        let mut i: usize = 0;
        while i < n
            invariant
                i <= n,
                n == timeslots@.len(),
                slots == slots_view(timeslots@),
                r@ == entries(slots, *date, i as int),
            decreases n - i,
        {
            assert(slots[i as int] == (timeslots@[i as int].0, timeslots@[i as int].1@));
            match timeslots[i].1.time_interval_on(date) {
                Some((time_interval, override_id)) => {
                    r.push(
                        ScheduleSlot {
                            time_interval,
                            actuator_state: timeslots[i].1.actuator_state,
                            timeslot_id: timeslots[i].0,
                            override_id,
                        },
                    );
                },
                None => {},
            }
            i += 1;
        }
        r
    }

    /// Places `x` into `list` behind the last element that does not start
    /// after it.
    pub fn place(list: &mut Vec<ScheduleSlot>, x: ScheduleSlot)
        ensures
            final(list)@ == placed(old(list)@, x),
    {
        let mut pos: usize = list.len();
        while pos > 0 && list[pos - 1].time_interval.start.minute > x.time_interval.start.minute
            invariant
                pos <= list@.len(),
                list@ == old(list)@,
                forall|j: int| pos <= j < list@.len() ==> !starts_by(#[trigger] list@[j], x),
            decreases pos,
        {
            pos -= 1;
        }
        proof {
            lemma_placed_at(list@, x, pos as int);
        }
        list.insert(pos, x);
    }

    /// Orders a list by start time; elements that start together keep their
    /// order.
    pub fn sort_by_start(list: &Vec<ScheduleSlot>) -> (r: Vec<ScheduleSlot>)
        ensures
            r@ == ordered(list@, list@.len() as int),
            sorted_by_start(r@),
            r@.to_multiset() == list@.to_multiset(),
    {
        let mut r: Vec<ScheduleSlot> = Vec::new();
        let n: usize = list.len();
        let mut i: usize = 0;
        while i < n
            invariant
                i <= n,
                n == list@.len(),
                r@ == ordered(list@, i as int),
            decreases n - i,
        {
            Self::place(&mut r, list[i]);
            i += 1;
        }
        proof {
            lemma_ordered(list@, n as int);
            assert(list@.take(n as int) =~= list@);
        }
        r
    }

    /// The timetable of `nb_days` consecutive dates from `start_date` on. The
    /// list of each date holds, for every enabled slot that is active on it,
    /// the interval of the override that is active on that date, or else the
    /// slot's own; the list is ordered by start time, ties by slot id.
    pub fn compute(timeslots: &Vec<(u32, TimeSlot)>, start_date: &Date, nb_days: u32) -> (s:
        Schedule)
        requires
            start_date.day + nb_days <= u32::MAX,
        ensures
            s.days@.len() == nb_days,
            forall|d: int|
                0 <= d < nb_days ==> {
                    &&& (#[trigger] s.days@[d]).0.day == start_date.day + d
                    &&& s.days@[d].1@ == day_list(slots_view(timeslots@), s.days@[d].0)
                    &&& sorted_by_start(s.days@[d].1@)
                },
    {
        let mut days: Vec<(Date, Vec<ScheduleSlot>)> = Vec::new();
        let mut k: u32 = 0;
        while k < nb_days
            invariant
                k <= nb_days,
                start_date.day + nb_days <= u32::MAX,
                days@.len() == k,
                forall|d: int|
                    0 <= d < k ==> {
                        &&& (#[trigger] days@[d]).0.day == start_date.day + d
                        &&& days@[d].1@ == day_list(slots_view(timeslots@), days@[d].0)
                        &&& sorted_by_start(days@[d].1@)
                    },
            decreases nb_days - k,
        {
            let day = start_date.plus_days(k);
            let found = Self::day_entries(timeslots, &day);
            let slots = Self::sort_by_start(&found);
            days.push((day, slots));
            k += 1;
        }
        Schedule { days }
    }
}

} // verus!
