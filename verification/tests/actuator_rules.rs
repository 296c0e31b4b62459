use actuator_schedule::actuator::Actuator;
use actuator_schedule::error::{Error, InvalArgError};
use actuator_schedule::state::{ActuatorInfo, ActuatorState, ActuatorType};
use actuator_schedule::time::{Date, DateRange, Days, Time, TimeInterval, Weekday};
use actuator_schedule::time_period::TimePeriod;

const JAN_1: u32 = 19723; // Monday 2024-01-01
const JAN_31: u32 = 19753;

fn weekdays() -> Days {
    Days {
        monday: true,
        tuesday: true,
        wednesday: true,
        thursday: true,
        friday: true,
        saturday: false,
        sunday: false,
    }
}

fn weekend() -> Days {
    Days {
        monday: false,
        tuesday: false,
        wednesday: false,
        thursday: false,
        friday: false,
        saturday: true,
        sunday: true,
    }
}

fn period(from: (u8, u8), to: (u8, u8), first: u32, last: u32, days: Days) -> TimePeriod {
    TimePeriod {
        time_interval: TimeInterval { start: Time::new(from.0, from.1), end: Time::new(to.0, to.1) },
        date_range: DateRange { start: Date { day: first }, end: Date { day: last } },
        days,
    }
}

fn heater() -> Actuator {
    Actuator::new(
        ActuatorInfo {
            name: String::from("heater"),
            actuator_type: ActuatorType::FloatValue { min: 0, max: 100 },
        },
        ActuatorState::FloatValue(0),
    )
}

fn lamp() -> Actuator {
    Actuator::new(
        ActuatorInfo { name: String::from("lamp"), actuator_type: ActuatorType::Toggle },
        ActuatorState::Toggle(false),
    )
}

#[test]
fn float_type_needs_min_below_max() {
    assert!(ActuatorType::FloatValue { min: 0, max: 100 }.valid());
    assert!(!ActuatorType::FloatValue { min: 5, max: 5 }.valid());
    assert!(!ActuatorType::FloatValue { min: 6, max: 5 }.valid());
    assert!(ActuatorType::Toggle.valid());
    let info = ActuatorInfo {
        name: String::from("x"),
        actuator_type: ActuatorType::FloatValue { min: 1, max: 0 },
    };
    assert!(!info.valid());
}

#[test]
fn toggle_accepts_only_toggle_states() {
    let t = ActuatorType::Toggle;
    assert!(t.accepts(&ActuatorState::Toggle(true)));
    assert!(t.accepts(&ActuatorState::Toggle(false)));
    assert!(!t.accepts(&ActuatorState::FloatValue(0)));
    assert!(!t.accepts(&ActuatorState::FloatValue(-7)));
}

#[test]
fn float_accepts_exactly_its_range() {
    let t = ActuatorType::FloatValue { min: -10, max: 10 };
    assert!(t.accepts(&ActuatorState::FloatValue(-10)));
    assert!(t.accepts(&ActuatorState::FloatValue(0)));
    assert!(t.accepts(&ActuatorState::FloatValue(10)));
    assert!(!t.accepts(&ActuatorState::FloatValue(-11)));
    assert!(!t.accepts(&ActuatorState::FloatValue(11)));
    assert!(!t.accepts(&ActuatorState::Toggle(true)));
}

#[test]
fn actuator_valid_needs_matching_default() {
    assert!(heater().valid());
    let bad = Actuator::new(
        ActuatorInfo { name: String::from("lamp"), actuator_type: ActuatorType::Toggle },
        ActuatorState::FloatValue(1),
    );
    assert!(!bad.valid());
    assert!(!bad.valid_state(&ActuatorState::FloatValue(1)));
}

#[test]
fn new_actuator_is_empty() {
    let a = heater();
    assert!(a.timeslots().is_empty());
    assert_eq!(*a.default_state(), ActuatorState::FloatValue(0));
    assert_eq!(a.next_timeslot_id, 0);
    assert_eq!(a.next_override_id, 0);
}

#[test]
fn set_default_state_checks_the_type() {
    let mut a = heater();
    assert_eq!(a.set_default_state(ActuatorState::FloatValue(100)), Ok(()));
    assert_eq!(*a.default_state(), ActuatorState::FloatValue(100));
    let before = a.clone();
    assert_eq!(
        a.set_default_state(ActuatorState::FloatValue(101)),
        Err(Error::InvalidArgument(InvalArgError::ActuatorState))
    );
    assert_eq!(
        a.set_default_state(ActuatorState::Toggle(true)),
        Err(Error::InvalidArgument(InvalArgError::ActuatorState))
    );
    assert_eq!(a, before);
}

#[test]
fn january_slots_scenario() {
    let mut a = heater();
    let slot_a = period((8, 0), (10, 0), JAN_1, JAN_31, weekdays());
    let slot_b = period((9, 0), (11, 0), JAN_1, JAN_31, weekdays());
    let slot_c = period((8, 0), (10, 0), JAN_1, JAN_31, weekend());
    assert_eq!(a.add_time_slot(slot_a, ActuatorState::FloatValue(21), true), Ok(0));
    assert_eq!(
        a.add_time_slot(slot_b, ActuatorState::FloatValue(21), true),
        Err(Error::TimeSlotOverlap(0))
    );
    assert_eq!(a.add_time_slot(slot_c, ActuatorState::FloatValue(21), true), Ok(1));
    assert_eq!(a.timeslots().len(), 2);
    assert_eq!(a.timeslots()[0].0, 0);
    assert_eq!(a.timeslots()[0].1.time_period, slot_a);
    assert_eq!(a.timeslots()[1].0, 1);
    assert_eq!(a.timeslots()[1].1.time_period, slot_c);
}

#[test]
fn overlap_is_refused_in_either_order() {
    let p = period((8, 0), (10, 0), JAN_1, JAN_31, weekdays());
    let q = period((9, 0), (11, 0), JAN_1 + 10, JAN_31 + 10, Days { monday: true, ..Days::none() });
    let mut a = lamp();
    assert_eq!(a.add_time_slot(p, ActuatorState::Toggle(true), true), Ok(0));
    assert_eq!(
        a.add_time_slot(q, ActuatorState::Toggle(true), true),
        Err(Error::TimeSlotOverlap(0))
    );
    let mut b = lamp();
    assert_eq!(b.add_time_slot(q, ActuatorState::Toggle(true), true), Ok(0));
    assert_eq!(
        b.add_time_slot(p, ActuatorState::Toggle(true), true),
        Err(Error::TimeSlotOverlap(0))
    );
}

#[test]
fn adjacent_intervals_do_not_overlap() {
    let mut a = lamp();
    let p = period((8, 0), (10, 0), JAN_1, JAN_31, weekdays());
    let q = period((10, 0), (12, 0), JAN_1, JAN_31, weekdays());
    assert_eq!(a.add_time_slot(p, ActuatorState::Toggle(true), true), Ok(0));
    assert_eq!(a.add_time_slot(q, ActuatorState::Toggle(false), true), Ok(1));
}

#[test]
fn disjoint_date_ranges_do_not_overlap() {
    let mut a = lamp();
    let p = period((8, 0), (10, 0), JAN_1, JAN_31, weekdays());
    let q = period((8, 0), (10, 0), JAN_31 + 1, JAN_31 + 29, weekdays());
    assert_eq!(a.add_time_slot(p, ActuatorState::Toggle(true), true), Ok(0));
    assert_eq!(a.add_time_slot(q, ActuatorState::Toggle(true), true), Ok(1));
}

#[test]
fn empty_day_set_restricts_nothing() {
    let mut a = lamp();
    let p = period((8, 0), (10, 0), JAN_1, JAN_31, Days::none());
    let q = period((9, 0), (9, 30), JAN_1, JAN_1, weekend());
    assert_eq!(a.add_time_slot(p, ActuatorState::Toggle(true), true), Ok(0));
    assert_eq!(
        a.add_time_slot(q, ActuatorState::Toggle(true), true),
        Err(Error::TimeSlotOverlap(0))
    );
    assert!(p.covers(Date { day: JAN_1 + 5 }));
    assert!(Days::none().is_empty());
    assert!(Days::none().intersects(weekend()));
    assert!(!weekdays().intersects(weekend()));
}

#[test]
fn add_time_slot_reports_invalid_input() {
    let mut a = heater();
    let backwards = period((10, 0), (8, 0), JAN_1, JAN_31, weekdays());
    let no_dates = period((8, 0), (10, 0), JAN_31, JAN_1, weekdays());
    let good = period((8, 0), (10, 0), JAN_1, JAN_31, weekdays());
    let before = a.clone();
    assert_eq!(
        a.add_time_slot(backwards, ActuatorState::FloatValue(1), true),
        Err(Error::InvalidArgument(InvalArgError::TimePeriod))
    );
    assert_eq!(
        a.add_time_slot(no_dates, ActuatorState::FloatValue(1), true),
        Err(Error::InvalidArgument(InvalArgError::TimePeriod))
    );
    assert_eq!(
        a.add_time_slot(good, ActuatorState::FloatValue(101), true),
        Err(Error::InvalidArgument(InvalArgError::ActuatorState))
    );
    assert_eq!(
        a.add_time_slot(backwards, ActuatorState::FloatValue(101), true),
        Err(Error::InvalidArgument(InvalArgError::TimePeriod))
    );
    assert_eq!(a, before);
}

#[test]
fn first_conflicting_slot_is_named() {
    let mut a = lamp();
    let morning = period((8, 0), (10, 0), JAN_1, JAN_31, weekdays());
    let noon = period((11, 0), (13, 0), JAN_1, JAN_31, weekdays());
    let both = period((9, 0), (12, 0), JAN_1, JAN_31, weekdays());
    assert_eq!(a.add_time_slot(morning, ActuatorState::Toggle(true), true), Ok(0));
    assert_eq!(a.add_time_slot(noon, ActuatorState::Toggle(true), true), Ok(1));
    assert_eq!(
        a.add_time_slot(both, ActuatorState::Toggle(true), true),
        Err(Error::TimeSlotOverlap(0))
    );
    assert_eq!(a.find_conflict(Some(0), &both), Some(1));
    assert_eq!(a.find_conflict(None, &both), Some(0));
    assert_eq!(a.find_slot(1), Some(1));
    assert_eq!(a.find_slot(2), None);
}

#[test]
fn slot_ids_are_never_reused() {
    let mut a = lamp();
    let p = period((8, 0), (10, 0), JAN_1, JAN_31, weekdays());
    assert_eq!(a.add_time_slot(p, ActuatorState::Toggle(true), true), Ok(0));
    assert_eq!(a.remove_time_slot(0), Ok(()));
    assert!(a.timeslots().is_empty());
    assert_eq!(a.add_time_slot(p, ActuatorState::Toggle(true), true), Ok(1));
    assert_eq!(a.timeslots()[0].0, 1);
}

#[test]
fn disabled_slot_keeps_its_reservation() {
    let mut a = lamp();
    let p = period((8, 0), (10, 0), JAN_1, JAN_31, weekdays());
    assert_eq!(a.add_time_slot(p, ActuatorState::Toggle(true), false), Ok(0));
    assert_eq!(
        a.add_time_slot(p, ActuatorState::Toggle(true), true),
        Err(Error::TimeSlotOverlap(0))
    );
}

#[test]
fn removing_unknown_ids_changes_nothing() {
    let mut a = lamp();
    let p = period((8, 0), (10, 0), JAN_1, JAN_31, weekdays());
    let o = period((8, 30), (9, 30), JAN_1, JAN_1, Days::none());
    assert_eq!(a.add_time_slot(p, ActuatorState::Toggle(true), true), Ok(0));
    assert_eq!(a.time_slot_add_time_override(0, o), Ok(0));
    let before = a.clone();
    assert_eq!(a.remove_time_slot(7), Err(Error::InvalidArgument(InvalArgError::TimeSlotId)));
    assert_eq!(a, before);
    assert_eq!(
        a.time_slot_remove_time_override(7, 0),
        Err(Error::InvalidArgument(InvalArgError::TimeSlotId))
    );
    assert_eq!(a, before);
    assert_eq!(
        a.time_slot_remove_time_override(0, 7),
        Err(Error::InvalidArgument(InvalArgError::TimeOverrideId))
    );
    assert_eq!(a, before);
    assert_eq!(a.time_slot_remove_time_override(0, 0), Ok(()));
    assert!(a.timeslots()[0].1.time_override.is_empty());
    assert_eq!(a.remove_time_slot(0), Ok(()));
    assert!(a.timeslots().is_empty());
}

#[test]
fn unset_partial_period_is_a_no_op() {
    let mut a = lamp();
    let p = period((8, 0), (10, 0), JAN_1, JAN_31, weekdays());
    let q = period((10, 0), (12, 0), JAN_1, JAN_31, weekdays());
    assert_eq!(a.add_time_slot(p, ActuatorState::Toggle(true), true), Ok(0));
    assert_eq!(a.add_time_slot(q, ActuatorState::Toggle(true), true), Ok(1));
    let before = a.clone();
    assert_eq!(a.time_slot_set_time_period(0, TimePeriod::unset()), Ok(()));
    assert_eq!(a, before);
    assert_eq!(a.time_slot_set_time_period(1, TimePeriod::unset()), Ok(()));
    assert_eq!(a, before);
    assert_eq!(a.timeslots()[0].1.time_period, p);
}

#[test]
fn partial_period_replaces_given_fields_only() {
    let mut a = lamp();
    let p = period((8, 0), (10, 0), JAN_1, JAN_31, weekdays());
    assert_eq!(a.add_time_slot(p, ActuatorState::Toggle(true), true), Ok(0));
    let mut partial = TimePeriod::unset();
    partial.time_interval.end = Time::new(9, 15);
    partial.date_range.start = Date { day: JAN_1 + 2 };
    assert_eq!(a.time_slot_set_time_period(0, partial), Ok(()));
    let expected = period((8, 0), (9, 15), JAN_1 + 2, JAN_31, weekdays());
    assert_eq!(a.timeslots()[0].1.time_period, expected);
    let mut days_only = TimePeriod::unset();
    days_only.days = weekend();
    assert_eq!(a.time_slot_set_time_period(0, days_only), Ok(()));
    assert_eq!(
        a.timeslots()[0].1.time_period,
        period((8, 0), (9, 15), JAN_1 + 2, JAN_31, weekend())
    );
    assert_eq!(p.merged(&partial), expected);
}

#[test]
fn partial_period_failures_change_nothing() {
    let mut a = lamp();
    let p = period((8, 0), (10, 0), JAN_1, JAN_31, weekdays());
    let q = period((10, 0), (12, 0), JAN_1, JAN_31, weekdays());
    assert_eq!(a.add_time_slot(p, ActuatorState::Toggle(true), true), Ok(0));
    assert_eq!(a.add_time_slot(q, ActuatorState::Toggle(true), true), Ok(1));
    let before = a.clone();
    // The merged period of slot 1 would start inside slot 0.
    let mut earlier = TimePeriod::unset();
    earlier.time_interval.start = Time::new(9, 0);
    assert_eq!(a.time_slot_set_time_period(1, earlier), Err(Error::TimeSlotOverlap(0)));
    assert_eq!(a, before);
    // The partial period alone would overlap slot 1, the merged one does not.
    let mut later = TimePeriod::unset();
    later.time_interval.start = Time::new(7, 0);
    later.days = weekend();
    assert_eq!(a.time_slot_set_time_period(1, later), Ok(()));
    let before = a.clone();
    let mut inverted = TimePeriod::unset();
    inverted.time_interval.start = Time::new(11, 0);
    assert_eq!(
        a.time_slot_set_time_period(0, inverted),
        Err(Error::InvalidArgument(InvalArgError::TimePeriod))
    );
    assert_eq!(
        a.time_slot_set_time_period(9, TimePeriod::unset()),
        Err(Error::InvalidArgument(InvalArgError::TimeSlotId))
    );
    assert_eq!(a, before);
}

#[test]
fn set_enabled_and_state() {
    let mut a = heater();
    let p = period((8, 0), (10, 0), JAN_1, JAN_31, weekdays());
    assert_eq!(a.add_time_slot(p, ActuatorState::FloatValue(20), true), Ok(0));
    assert_eq!(a.time_slot_set_enabled(0, false), Ok(()));
    assert!(!a.timeslots()[0].1.enabled);
    assert_eq!(a.time_slot_set_actuator_state(0, ActuatorState::FloatValue(30)), Ok(()));
    assert_eq!(a.timeslots()[0].1.actuator_state, ActuatorState::FloatValue(30));
    let before = a.clone();
    assert_eq!(
        a.time_slot_set_enabled(3, true),
        Err(Error::InvalidArgument(InvalArgError::TimeSlotId))
    );
    assert_eq!(
        a.time_slot_set_actuator_state(0, ActuatorState::FloatValue(300)),
        Err(Error::InvalidArgument(InvalArgError::ActuatorState))
    );
    assert_eq!(
        a.time_slot_set_actuator_state(3, ActuatorState::FloatValue(300)),
        Err(Error::InvalidArgument(InvalArgError::ActuatorState))
    );
    assert_eq!(
        a.time_slot_set_actuator_state(3, ActuatorState::FloatValue(30)),
        Err(Error::InvalidArgument(InvalArgError::TimeSlotId))
    );
    assert_eq!(a, before);
}

#[test]
fn overrides_may_not_share_a_day() {
    let mut a = lamp();
    let p = period((8, 0), (10, 0), JAN_1, JAN_31, weekdays());
    assert_eq!(a.add_time_slot(p, ActuatorState::Toggle(true), true), Ok(0));
    let first = period((8, 0), (9, 0), JAN_1, JAN_1 + 6, Days::none());
    let same_days_other_time = period((12, 0), (13, 0), JAN_1 + 6, JAN_1 + 9, Days::none());
    let other_days = period((8, 0), (9, 0), JAN_1 + 7, JAN_1 + 9, Days::none());
    assert_eq!(a.time_slot_add_time_override(0, first), Ok(0));
    assert!(!first.overlaps(&same_days_other_time));
    assert!(first.overlaps_dates(&same_days_other_time));
    let before = a.clone();
    assert_eq!(
        a.time_slot_add_time_override(0, same_days_other_time),
        Err(Error::TimeOverrideOverlap(0))
    );
    assert_eq!(a, before);
    assert_eq!(a.time_slot_add_time_override(0, other_days), Ok(1));
    assert_eq!(a.timeslots()[0].1.time_override.len(), 2);
    assert_eq!(a.timeslots()[0].1.find_override_conflict(&same_days_other_time), Some(0));
    assert_eq!(a.timeslots()[0].1.find_override(1), Some(1));
    assert_eq!(a.timeslots()[0].1.find_override(5), None);
}

#[test]
fn override_competes_with_other_slots() {
    let mut a = lamp();
    let p = period((8, 0), (10, 0), JAN_1, JAN_31, weekdays());
    let q = period((10, 0), (12, 0), JAN_1, JAN_31, weekdays());
    assert_eq!(a.add_time_slot(p, ActuatorState::Toggle(true), true), Ok(0));
    assert_eq!(a.add_time_slot(q, ActuatorState::Toggle(true), true), Ok(1));
    let into_q = period((9, 0), (11, 0), JAN_1, JAN_1, Days::none());
    let before = a.clone();
    assert_eq!(a.time_slot_add_time_override(0, into_q), Err(Error::TimeSlotOverlap(1)));
    assert_eq!(a.time_slot_add_time_override(5, into_q), Err(Error::TimeSlotOverlap(0)));
    let free = period((13, 0), (14, 0), JAN_1, JAN_1, Days::none());
    assert_eq!(
        a.time_slot_add_time_override(5, free),
        Err(Error::InvalidArgument(InvalArgError::TimeSlotId))
    );
    let bad = period((14, 0), (13, 0), JAN_1, JAN_1, Days::none());
    assert_eq!(
        a.time_slot_add_time_override(0, bad),
        Err(Error::InvalidArgument(InvalArgError::TimePeriod))
    );
    assert_eq!(a, before);
    // Override ids are shared by the slots of the actuator.
    assert_eq!(a.time_slot_add_time_override(0, free), Ok(0));
    let free_too = period((14, 0), (15, 0), JAN_1, JAN_1, Days::none());
    assert_eq!(a.time_slot_add_time_override(1, free_too), Ok(1));
}

#[test]
fn parse_toggle_reads_on_and_off() {
    assert_eq!(ActuatorState::parse_toggle("On"), Some(ActuatorState::Toggle(true)));
    assert_eq!(ActuatorState::parse_toggle("on"), Some(ActuatorState::Toggle(true)));
    assert_eq!(ActuatorState::parse_toggle("off"), Some(ActuatorState::Toggle(false)));
    assert_eq!(ActuatorState::parse_toggle("OFF"), Some(ActuatorState::Toggle(false)));
    assert_eq!(ActuatorState::parse_toggle("21.5"), None);
    assert_eq!(ActuatorState::parse_toggle("onn"), None);
    assert_eq!(ActuatorState::parse_toggle("of"), None);
    assert_eq!(ActuatorState::parse_toggle(""), None);
    assert_eq!(ActuatorState::parse_toggle("maybe"), None);
}

#[test]
fn toggle_text_is_on_or_off() {
    assert_eq!(ActuatorState::Toggle(true).toggle_text(), Some("On"));
    assert_eq!(ActuatorState::Toggle(false).toggle_text(), Some("Off"));
    assert_eq!(ActuatorState::FloatValue(3).toggle_text(), None);
}

#[test]
fn dates_and_times() {
    assert_eq!(Date { day: JAN_1 }.weekday(), Weekday::Monday);
    assert_eq!(Date { day: 0 }.weekday(), Weekday::Thursday);
    assert_eq!(Date { day: JAN_1 + 6 }.weekday(), Weekday::Sunday);
    assert_eq!(Date { day: JAN_1 }.plus_days(30), Date { day: JAN_31 });
    assert_eq!(Time::new(8, 30).minute, 510);
    assert_eq!(Time::new(24, 0).minute, 1440);
    assert!(Time::empty().is_empty());
    assert!(!Time::new(0, 0).is_empty());
    assert!(Date::empty_date().is_empty());
    assert!(!Date { day: 0 }.is_empty());
    assert!(weekdays().has(Weekday::Friday));
    assert!(!weekdays().has(Weekday::Saturday));
    assert!(weekdays().applies_on(Weekday::Monday));
    assert!(!weekdays().applies_on(Weekday::Sunday));
    assert!(Days::none().applies_on(Weekday::Sunday));
}

#[test]
fn interval_and_range_rules() {
    let a = TimeInterval { start: Time::new(8, 0), end: Time::new(10, 0) };
    let b = TimeInterval { start: Time::new(9, 59), end: Time::new(11, 0) };
    let c = TimeInterval { start: Time::new(10, 0), end: Time::new(11, 0) };
    assert!(a.valid() && b.valid() && c.valid());
    assert!(a.intersects(b) && b.intersects(a));
    assert!(!a.intersects(c) && !c.intersects(a));
    assert!(!TimeInterval { start: Time::new(8, 0), end: Time::new(8, 0) }.valid());
    assert!(!TimeInterval { start: Time::new(8, 0), end: Time::empty() }.valid());
    assert!(!TimeInterval { start: Time::empty(), end: Time::new(8, 0) }.valid());
    let r = DateRange { start: Date { day: 10 }, end: Date { day: 20 } };
    let s = DateRange { start: Date { day: 20 }, end: Date { day: 20 } };
    let t = DateRange { start: Date { day: 21 }, end: Date { day: 30 } };
    assert!(r.valid() && s.valid() && t.valid());
    assert!(r.intersects(s) && s.intersects(r));
    assert!(!r.intersects(t) && !t.intersects(r));
    assert!(r.contains(Date { day: 10 }) && r.contains(Date { day: 20 }));
    assert!(!r.contains(Date { day: 9 }) && !r.contains(Date { day: 21 }));
    assert!(!DateRange { start: Date { day: 5 }, end: Date { day: 4 } }.valid());
    assert!(!DateRange { start: Date { day: 5 }, end: Date::empty_date() }.valid());
    assert!(!DateRange { start: Date::empty_date(), end: Date::empty_date() }.valid());
}
