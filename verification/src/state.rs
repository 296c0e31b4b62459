//! What kind of control surface an actuator has, and the states it can take.

use vstd::prelude::*;
use vstd::string::StringSliceAdditionalSpecFns;

verus! {

/// The sign bit in the 64-bit pattern of a number (IEEE 754, double precision).
pub const SIGN_BIT: u64 = 0x8000_0000_0000_0000;

/// The magnitude of infinity in that format. A pattern with a greater
/// magnitude stands for no number.
pub const INFINITY_BITS: u64 = 0x7FF0_0000_0000_0000;

/// The magnitude of a 64-bit pattern: the pattern without its sign bit.
pub open spec fn magnitude(bits: u64) -> int {
    if bits < SIGN_BIT {
        bits as int
    } else {
        bits - SIGN_BIT
    }
}

/// The level of a 64-bit pattern that stands for a number: its magnitude,
/// taken with its sign. Both zeros have the level 0. Among such patterns a
/// greater number has the greater magnitude where the sign bit is clear and the
/// lesser where it is set, so levels are ordered as the numbers are.
pub open spec fn spec_level_of_bits(bits: u64) -> Option<i64> {
    if magnitude(bits) > INFINITY_BITS {
        None
    } else if bits < SIGN_BIT {
        Some(bits as i64)
    } else {
        Some((-magnitude(bits)) as i64)
    }
}

/// The 64-bit pattern of the number that a level stands for; a level beyond
/// those of the two infinities stands for none.
pub open spec fn spec_bits_of_level(level: i64) -> Option<u64> {
    if level > INFINITY_BITS || -level > INFINITY_BITS {
        None
    } else if level >= 0 {
        Some(level as u64)
    } else {
        Some((SIGN_BIT - level) as u64)
    }
}

/// The level of the number that `bits` is the pattern of, `None` where it is
/// the pattern of no number.
pub fn level_of_bits(bits: u64) -> (r: Option<i64>)
    ensures
        r == spec_level_of_bits(bits),
{
    if bits < SIGN_BIT {
        if bits > INFINITY_BITS {
            None
        } else {
            Some(bits as i64)
        }
    } else {
        let m: u64 = bits - SIGN_BIT;
        if m > INFINITY_BITS {
            None
        } else {
            Some(0 - (m as i64))
        }
    }
}

/// The pattern of the number that `level` stands for, `None` where it stands
/// for none.
pub fn bits_of_level(level: i64) -> (r: Option<u64>)
    ensures
        r == spec_bits_of_level(level),
{
    if level >= 0 {
        if level as u64 > INFINITY_BITS {
            None
        } else {
            Some(level as u64)
        }
    } else if level < -0x7FF0_0000_0000_0000i64 {
        None
    } else {
        Some(SIGN_BIT + ((0 - level) as u64))
    }
}

/// A level stands for the number it was made from: the pattern of a level is
/// the pattern that gave it, but for negative zero, which comes back as zero;
/// and every level that stands for a number is the level of its pattern.
pub proof fn lemma_level_round_trip(bits: u64, level: i64)
    ensures
        spec_level_of_bits(bits) == Some(level) ==> spec_bits_of_level(level) == Some(
            if bits == SIGN_BIT {
                0u64
            } else {
                bits
            },
        ),
        spec_bits_of_level(level) == Some(bits) ==> spec_level_of_bits(bits) == Some(level),
{
}

/// Levels are ordered as the patterns are by sign and magnitude: a pattern
/// with the sign bit set lies at or below every pattern without it, patterns
/// without it ascend with their magnitude, and patterns with it descend.
pub proof fn lemma_level_order(a: u64, b: u64)
    requires
        spec_level_of_bits(a) is Some,
        spec_level_of_bits(b) is Some,
    ensures
        a < SIGN_BIT && b < SIGN_BIT ==> (spec_level_of_bits(a).unwrap() <= spec_level_of_bits(
            b,
        ).unwrap() <==> a <= b),
        a >= SIGN_BIT && b >= SIGN_BIT ==> (spec_level_of_bits(a).unwrap() <= spec_level_of_bits(
            b,
        ).unwrap() <==> a >= b),
        a >= SIGN_BIT && b < SIGN_BIT ==> spec_level_of_bits(a).unwrap() <= spec_level_of_bits(
            b,
        ).unwrap(),
{
}

/// The control surface of an actuator. A continuous surface is bounded by two
/// levels. A level is an integer that stands for a point of the actuator's
/// scale: levels are ordered as the points they stand for.
#[derive(Clone, Copy, Debug, PartialEq, Eq, Structural)]
pub enum ActuatorType {
    Toggle,
    FloatValue { min: i64, max: i64 },
}

/// A target state: on or off, or a level of a continuous surface.
#[derive(Clone, Copy, Debug, PartialEq, Eq, Structural)]
pub enum ActuatorState {
    Toggle(bool),
    FloatValue(i64),
}

impl ActuatorType {
    /// A toggle is always valid; a continuous surface is valid iff its lower
    /// bound is strictly below its upper bound.
    pub open spec fn spec_valid(self) -> bool {
        match self {
            ActuatorType::Toggle => true,
            ActuatorType::FloatValue { min, max } => min < max,
        }
    }

    /// Whether `state` is a state of an actuator of this type: a toggle takes
    /// the two toggle states, a continuous surface the levels within its
    /// bounds, both included.
    pub open spec fn spec_accepts(self, state: ActuatorState) -> bool {
        match self {
            ActuatorType::Toggle => state is Toggle,
            ActuatorType::FloatValue { min, max } => match state {
                ActuatorState::FloatValue(value) => min <= value <= max,
                ActuatorState::Toggle(_) => false,
            },
        }
    }

    pub fn valid(&self) -> (b: bool)
        ensures
            b == self.spec_valid(),
    {
        match self {
            ActuatorType::Toggle => true,
            ActuatorType::FloatValue { min, max } => *min < *max,
        }
    }

    pub fn accepts(&self, state: &ActuatorState) -> (b: bool)
        ensures
            b == self.spec_accepts(*state),
    {
        match self {
            ActuatorType::Toggle => match state {
                ActuatorState::Toggle(_) => true,
                ActuatorState::FloatValue(_) => false,
            },
            ActuatorType::FloatValue { min, max } => match state {
                ActuatorState::FloatValue(value) => *min <= *value && *value <= *max,
                ActuatorState::Toggle(_) => false,
            },
        }
    }

    /// A toggle accepts both toggle states and no level; a continuous surface
    /// accepts no toggle state, and exactly the levels from `min` to `max`.
    pub proof fn lemma_accepts(on: bool, value: i64, min: i64, max: i64)
        ensures
            ActuatorType::Toggle.spec_accepts(ActuatorState::Toggle(on)),
            !ActuatorType::Toggle.spec_accepts(ActuatorState::FloatValue(value)),
            !(ActuatorType::FloatValue { min, max }).spec_accepts(ActuatorState::Toggle(on)),
            (ActuatorType::FloatValue { min, max }).spec_accepts(ActuatorState::FloatValue(value))
                <==> min <= value <= max,
    {
    }

    /// A continuous surface whose lower bound is not below its upper bound is
    /// invalid, and a valid one has `min < max`.
    pub proof fn lemma_valid_bounds(min: i64, max: i64)
        ensures
            (ActuatorType::FloatValue { min, max }).spec_valid() <==> min < max,
            min >= max ==> !(ActuatorType::FloatValue { min, max }).spec_valid(),
    {
    }
}

impl ActuatorState {
    /// The toggle state that a text names: `on` and `off`, in any mix of upper
    /// and lower case, and nothing else.
    pub open spec fn spec_parse_toggle(bytes: Seq<u8>) -> Option<ActuatorState> {
        if bytes.len() == 2 && (bytes[0] == 0x6f || bytes[0] == 0x4f) && (bytes[1] == 0x6e
            || bytes[1] == 0x4e) {
            Some(ActuatorState::Toggle(true))
        } else if bytes.len() == 3 && (bytes[0] == 0x6f || bytes[0] == 0x4f) && (bytes[1] == 0x66
            || bytes[1] == 0x46) && (bytes[2] == 0x66 || bytes[2] == 0x46) {
            Some(ActuatorState::Toggle(false))
        } else {
            None
        }
    }

    /// Reads a toggle state from text: `Some` for `on` and `off` in any case,
    /// `None` for every other text, which the caller may then read as a level.
    pub fn parse_toggle(s: &str) -> (r: Option<ActuatorState>)
        ensures
            r == Self::spec_parse_toggle(s.spec_bytes()),
    {
        let b = s.as_bytes();
        if b.len() == 2 && (b[0] == 0x6f || b[0] == 0x4f) && (b[1] == 0x6e || b[1] == 0x4e) {
            Some(ActuatorState::Toggle(true))
        } else if b.len() == 3 && (b[0] == 0x6f || b[0] == 0x4f) && (b[1] == 0x66 || b[1] == 0x46)
            && (b[2] == 0x66 || b[2] == 0x46) {
            Some(ActuatorState::Toggle(false))
        } else {
            None
        }
    }

    /// The text of a toggle state, `On` or `Off`; `None` for a level, whose
    /// text depends on the scale it stands on.
    pub fn toggle_text(&self) -> (r: Option<&'static str>)
        ensures
            match *self {
                ActuatorState::Toggle(true) => r is Some && r.unwrap()@ == "On"@,
                ActuatorState::Toggle(false) => r is Some && r.unwrap()@ == "Off"@,
                ActuatorState::FloatValue(_) => r is None,
            },
    {
        match self {
            ActuatorState::Toggle(true) => Some("On"),
            ActuatorState::Toggle(false) => Some("Off"),
            ActuatorState::FloatValue(_) => None,
        }
    }
}

/// The name and type of an actuator, fixed when it is created.
#[derive(Clone, Debug, PartialEq, Eq)]
pub struct ActuatorInfo {
    pub name: String,
    pub actuator_type: ActuatorType,
}

impl ActuatorInfo {
    pub open spec fn spec_valid(&self) -> bool {
        self.actuator_type.spec_valid()
    }

    /// Valid iff the actuator's type is.
    pub fn valid(&self) -> (b: bool)
        ensures
            b == self.spec_valid(),
    {
        self.actuator_type.valid()
    }
}

} // verus!
