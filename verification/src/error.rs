//! The errors that the engine reports. Every one is an error in the caller's
//! input.

use vstd::prelude::*;

verus! {

/// Which argument of a call was refused.
#[derive(Clone, Copy, Debug, PartialEq, Eq, Structural)]
pub enum InvalArgError {
    /// No actuator has the given id.
    ActuatorId,
    /// The state does not match the actuator's type or its bounds.
    ActuatorState,
    /// The time period is malformed, also as the outcome of a partial update.
    TimePeriod,
    /// No time slot has the given id.
    TimeSlotId,
    /// The time slot has no override with the given id.
    TimeOverrideId,
}

#[derive(Clone, Copy, Debug, PartialEq, Eq, Structural)]
pub enum Error {
    InvalidArgument(InvalArgError),
    /// The period collides with that of the time slot with this id.
    TimeSlotOverlap(u32),
    /// The period shares a day with the override with this id, on the same slot.
    TimeOverrideOverlap(u32),
}

} // verus!
