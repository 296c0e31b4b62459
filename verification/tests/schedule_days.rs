use actuator_schedule::actuator::Actuator;
use actuator_schedule::schedule::{Schedule, ScheduleSlot};
use actuator_schedule::state::{ActuatorInfo, ActuatorState, ActuatorType};
use actuator_schedule::time::{Date, DateRange, Days, Time, TimeInterval};
use actuator_schedule::time_period::TimePeriod;
use actuator_schedule::time_slot::TimeSlot;

const JAN_1: u32 = 19723; // Monday 2024-01-01
const JAN_30: u32 = 19752;
const JAN_31: u32 = 19753;

fn working_days() -> Days {
    Days {
        monday: true,
        tuesday: true,
        wednesday: true,
        thursday: true,
        friday: true,
        saturday: false,
        sunday: false,
    }
}

fn span(from: (u8, u8), to: (u8, u8)) -> TimeInterval {
    TimeInterval { start: Time::new(from.0, from.1), end: Time::new(to.0, to.1) }
}

fn rule(from: (u8, u8), to: (u8, u8), first: u32, last: u32, days: Days) -> TimePeriod {
    TimePeriod {
        time_interval: span(from, to),
        date_range: DateRange { start: Date { day: first }, end: Date { day: last } },
        days,
    }
}

fn radiator() -> Actuator {
    Actuator::new(
        ActuatorInfo {
            name: String::from("radiator"),
            actuator_type: ActuatorType::FloatValue { min: 0, max: 100 },
        },
        ActuatorState::FloatValue(0),
    )
}

#[test]
fn three_day_schedule_scenario() {
    let mut a = radiator();
    let slot_a = rule((8, 0), (10, 0), JAN_1, JAN_31, working_days());
    assert_eq!(a.add_time_slot(slot_a, ActuatorState::FloatValue(21), true), Ok(0));
    let narrowed = rule((8, 30), (9, 30), JAN_31, JAN_31, Days::none());
    assert_eq!(a.time_slot_add_time_override(0, narrowed), Ok(0));

    let s = Schedule::compute(a.timeslots(), &Date { day: JAN_30 }, 3);
    assert_eq!(s.days.len(), 3);
    assert_eq!(s.days[0].0, Date { day: JAN_30 });
    assert_eq!(s.days[1].0, Date { day: JAN_31 });
    assert_eq!(s.days[2].0, Date { day: JAN_31 + 1 });
    assert_eq!(
        s.days[0].1,
        vec![ScheduleSlot {
            time_interval: span((8, 0), (10, 0)),
            actuator_state: ActuatorState::FloatValue(21),
            timeslot_id: 0,
            override_id: None,
        }]
    );
    assert_eq!(
        s.days[1].1,
        vec![ScheduleSlot {
            time_interval: span((8, 30), (9, 30)),
            actuator_state: ActuatorState::FloatValue(21),
            timeslot_id: 0,
            override_id: Some(0),
        }]
    );
    assert!(s.days[2].1.is_empty());
}

#[test]
fn empty_schedule() {
    let a = radiator();
    let none = Schedule::compute(a.timeslots(), &Date { day: JAN_1 }, 0);
    assert!(none.days.is_empty());
    let two = Schedule::compute(a.timeslots(), &Date { day: JAN_1 }, 2);
    assert_eq!(two.days.len(), 2);
    assert!(two.days[0].1.is_empty() && two.days[1].1.is_empty());
}

#[test]
fn day_list_is_ordered_by_start() {
    let mut a = radiator();
    let evening = rule((18, 0), (20, 0), JAN_1, JAN_31, working_days());
    let morning = rule((6, 0), (8, 0), JAN_1, JAN_31, working_days());
    let noon = rule((12, 0), (13, 0), JAN_1, JAN_31, working_days());
    assert_eq!(a.add_time_slot(evening, ActuatorState::FloatValue(18), true), Ok(0));
    assert_eq!(a.add_time_slot(morning, ActuatorState::FloatValue(22), true), Ok(1));
    assert_eq!(a.add_time_slot(noon, ActuatorState::FloatValue(20), true), Ok(2));
    let s = Schedule::compute(a.timeslots(), &Date { day: JAN_1 }, 1);
    let ids: Vec<u32> = s.days[0].1.iter().map(|e| e.timeslot_id).collect();
    assert_eq!(ids, vec![1, 2, 0]);
    let states: Vec<ActuatorState> = s.days[0].1.iter().map(|e| e.actuator_state).collect();
    assert_eq!(
        states,
        vec![
            ActuatorState::FloatValue(22),
            ActuatorState::FloatValue(20),
            ActuatorState::FloatValue(18)
        ]
    );
}

#[test]
fn equal_starts_keep_slot_order() {
    let mut a = radiator();
    let base_0 = rule((9, 0), (10, 0), JAN_1, JAN_31, working_days());
    let base_1 = rule((11, 0), (12, 0), JAN_1, JAN_31, working_days());
    let base_2 = rule((7, 0), (8, 0), JAN_1, JAN_31, working_days());
    assert_eq!(a.add_time_slot(base_0, ActuatorState::FloatValue(1), true), Ok(0));
    assert_eq!(a.add_time_slot(base_1, ActuatorState::FloatValue(2), true), Ok(1));
    assert_eq!(a.add_time_slot(base_2, ActuatorState::FloatValue(3), true), Ok(2));
    // Overrides of different slots are not held against each other.
    let late_0 = rule((14, 0), (15, 0), JAN_1, JAN_1, Days::none());
    let late_1 = rule((14, 0), (14, 30), JAN_1, JAN_1, Days::none());
    assert_eq!(a.time_slot_add_time_override(1, late_1), Ok(0));
    assert_eq!(a.time_slot_add_time_override(0, late_0), Ok(1));
    let s = Schedule::compute(a.timeslots(), &Date { day: JAN_1 }, 1);
    let got: Vec<(u32, Option<u32>)> =
        s.days[0].1.iter().map(|e| (e.timeslot_id, e.override_id)).collect();
    assert_eq!(got, vec![(2, None), (0, Some(1)), (1, Some(0))]);
}

#[test]
fn disabled_slots_never_contribute() {
    let mut a = radiator();
    let p = rule((8, 0), (10, 0), JAN_1, JAN_31, working_days());
    assert_eq!(a.add_time_slot(p, ActuatorState::FloatValue(21), false), Ok(0));
    let o = rule((8, 30), (9, 30), JAN_1, JAN_1, Days::none());
    assert_eq!(a.time_slot_add_time_override(0, o), Ok(0));
    let s = Schedule::compute(a.timeslots(), &Date { day: JAN_1 }, 2);
    assert!(s.days[0].1.is_empty());
    assert!(s.days[1].1.is_empty());
    assert_eq!(a.time_slot_set_enabled(0, true), Ok(()));
    let s = Schedule::compute(a.timeslots(), &Date { day: JAN_1 }, 2);
    assert_eq!(s.days[0].1.len(), 1);
    assert_eq!(s.days[0].1[0].override_id, Some(0));
    assert_eq!(s.days[1].1.len(), 1);
    assert_eq!(s.days[1].1[0].override_id, None);
}

#[test]
fn weekdays_select_the_days() {
    let mut a = radiator();
    let p = rule((8, 0), (10, 0), JAN_1, JAN_31, working_days());
    assert_eq!(a.add_time_slot(p, ActuatorState::FloatValue(21), true), Ok(0));
    // Friday to Monday.
    let s = Schedule::compute(a.timeslots(), &Date { day: JAN_1 + 4 }, 4);
    let sizes: Vec<usize> = s.days.iter().map(|d| d.1.len()).collect();
    assert_eq!(sizes, vec![1, 0, 0, 1]);
}

#[test]
fn override_outside_base_days_applies() {
    let slot = TimeSlot {
        enabled: true,
        actuator_state: ActuatorState::Toggle(true),
        time_period: rule((8, 0), (10, 0), JAN_1, JAN_31, working_days()),
        time_override: vec![(4, rule((12, 0), (13, 0), JAN_1 + 5, JAN_1 + 5, Days::none()))],
    };
    assert_eq!(
        slot.time_interval_on(&Date { day: JAN_1 + 5 }),
        Some((span((12, 0), (13, 0)), Some(4)))
    );
    assert_eq!(slot.time_interval_on(&Date { day: JAN_1 + 6 }), None);
    assert_eq!(slot.time_interval_on(&Date { day: JAN_1 + 7 }), Some((span((8, 0), (10, 0)), None)));
    assert!(slot.overlaps(&rule((9, 0), (9, 30), JAN_1, JAN_1, Days::none())));
    assert!(!slot.overlaps(&rule((12, 0), (13, 0), JAN_1 + 5, JAN_1 + 5, Days::none())));
}

#[test]
fn sort_by_start_is_stable() {
    let e = |h: u8, id: u32| ScheduleSlot {
        time_interval: span((h, 0), (h + 1, 0)),
        actuator_state: ActuatorState::Toggle(true),
        timeslot_id: id,
        override_id: None,
    };
    let list = vec![e(9, 0), e(7, 1), e(9, 2), e(7, 3), e(8, 4)];
    let sorted = Schedule::sort_by_start(&list);
    let ids: Vec<u32> = sorted.iter().map(|s| s.timeslot_id).collect();
    assert_eq!(ids, vec![1, 3, 4, 0, 2]);
    let mut one = vec![e(7, 0), e(9, 1)];
    Schedule::place(&mut one, e(8, 2));
    let ids: Vec<u32> = one.iter().map(|s| s.timeslot_id).collect();
    assert_eq!(ids, vec![0, 2, 1]);
    assert!(Schedule::sort_by_start(&Vec::new()).is_empty());
}

#[test]
fn day_entries_follow_slot_order() {
    let mut a = radiator();
    let evening = rule((18, 0), (20, 0), JAN_1, JAN_31, Days::none());
    let morning = rule((6, 0), (8, 0), JAN_1, JAN_31, Days::none());
    assert_eq!(a.add_time_slot(evening, ActuatorState::FloatValue(18), true), Ok(0));
    assert_eq!(a.add_time_slot(morning, ActuatorState::FloatValue(22), true), Ok(1));
    let found = Schedule::day_entries(a.timeslots(), &Date { day: JAN_1 });
    let ids: Vec<u32> = found.iter().map(|e| e.timeslot_id).collect();
    assert_eq!(ids, vec![0, 1]);
}
