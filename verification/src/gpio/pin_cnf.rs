//! The fields of a pin's configuration register, as plain values.

use vstd::prelude::*;

verus! {

/// Pin direction.
#[derive(Debug, Clone, Copy, PartialEq, Eq)]
pub enum Direction {
    Input,
    Output,
}

/// Whether the input path of the pin is connected.
#[derive(Debug, Clone, Copy, PartialEq, Eq)]
pub enum InputBuffer {
    Connect,
    Disconnect,
}

/// Pull-up or pull-down on the pin.
#[derive(Debug, Clone, Copy, PartialEq, Eq)]
pub enum Pull {
    Disabled,
    PullDown,
    PullUp,
}

/// How the pin drives a '0' and a '1': standard, high or disconnected.
#[derive(Debug, Clone, Copy, PartialEq, Eq)]
pub enum Drive {
    S0S1,
    H0S1,
    S0H1,
    H0H1,
    D0S1,
    D0H1,
    S0D1,
    H0D1,
}

/// Pin sensing mechanism.
#[derive(Debug, Clone, Copy, PartialEq, Eq)]
pub enum Sense {
    Disabled,
    High,
    Low,
}

/// A value to be written to a pin's configuration register, field by field.
#[derive(Debug, Clone, Copy, PartialEq, Eq)]
pub struct PinCnf {
    pub dir: Direction,
    pub input: InputBuffer,
    pub pull: Pull,
    pub drive: Drive,
    pub sense: Sense,
}

impl PinCnf {
    /// What the register holds after reset: an input pin with its input path
    /// disconnected, no pull, standard drive, no sensing.
    pub open spec fn reset_value() -> PinCnf {
        PinCnf {
            dir: Direction::Input,
            input: InputBuffer::Disconnect,
            pull: Pull::Disabled,
            drive: Drive::S0S1,
            sense: Sense::Disabled,
        }
    }

    /// The value that a write to the register starts from.
    pub fn reset() -> (w: Self)
        ensures
            w == PinCnf::reset_value(),
    {
        PinCnf {
            dir: Direction::Input,
            input: InputBuffer::Disconnect,
            pull: Pull::Disabled,
            drive: Drive::S0S1,
            sense: Sense::Disabled,
        }
    }
}

} // verus!
