//! Recurring target states for controllable actuators, and their resolution
//! into a day-by-day timetable.
//!
//! An [`actuator::Actuator`] owns time slots keyed by ascending id; each slot
//! holds a recurring [`time_period::TimePeriod`] and date-scoped overrides of it.
//! [`schedule::Schedule::compute`] resolves the slots of an actuator into the
//! ordered list of effective intervals of each requested day.

pub mod actuator;
pub mod error;
pub mod scan;
pub mod schedule;
pub mod state;
pub mod time;
pub mod time_period;
pub mod time_slot;
