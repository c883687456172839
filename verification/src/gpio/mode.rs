//! Pin modes as types: a value of a mode type stands for a pin whose
//! configuration register was written accordingly.

use vstd::prelude::*;
use crate::gpio::pin_cnf::{Direction, Drive, InputBuffer, PinCnf, Pull};

verus! {

/// A mode of an input pin: which pull it has.
pub trait InputMode: Sized {
    /// The pull that the mode stands for.
    spec fn pull() -> Pull;

    /// Writes the mode's pull into `w` and leaves the other fields alone.
    fn apply(w: &mut PinCnf) -> (mode: Self)
        ensures
            *final(w) == (PinCnf { pull: Self::pull(), ..*old(w) }),
    ;
}

/// A mode of an output pin: how it drives.
pub trait OutputMode: Sized {
    /// The drive that the mode stands for.
    spec fn drive() -> Drive;

    /// Writes the mode's drive into `w` and leaves the other fields alone.
    fn apply(w: &mut PinCnf) -> (mode: Self)
        ensures
            *final(w) == (PinCnf { drive: Self::drive(), ..*old(w) }),
    ;
}

/// A mode of a pin as a whole.
pub trait PinMode: Sized {
    /// The configuration that the mode makes of `before`.
    spec fn configured(before: PinCnf) -> PinCnf;

    /// Writes the mode into `w`.
    fn apply(w: &mut PinCnf) -> (mode: Self)
        ensures
            *final(w) == Self::configured(*old(w)),
    ;
}

/// An input without pull.
#[derive(Debug, Copy, Clone)]
pub struct Floating {
    _reserved: (),
}

/// An input pulled up.
#[derive(Debug, Copy, Clone)]
pub struct PullUp {
    _reserved: (),
}

/// An input pulled down.
#[derive(Debug, Copy, Clone)]
pub struct PullDown {
    _reserved: (),
}

/// An output that drives both levels.
#[derive(Debug, Copy, Clone)]
pub struct PushPull {
    _reserved: (),
}

/// An output that drives '0' and lets go of '1'.
#[derive(Debug, Copy, Clone)]
pub struct OpenDrain {
    _reserved: (),
}

/// An input or output whose mode has not been chosen yet.
#[derive(Debug, Copy, Clone)]
pub struct Unconfigured {
    _reserved: (),
}

/// A pin that is cut off.
#[derive(Debug, Copy, Clone)]
pub struct Disabled {
    _reserved: (),
}

/// An input pin in the given mode.
#[derive(Debug, Copy, Clone)]
pub struct Input<Mode> {
    mode: Mode,
}

/// An output pin in the given mode.
#[derive(Debug, Copy, Clone)]
pub struct Output<Mode> {
    mode: Mode,
}

impl InputMode for Floating {
    open spec fn pull() -> Pull {
        Pull::Disabled
    }

    fn apply(w: &mut PinCnf) -> (mode: Self) {
        w.pull = Pull::Disabled;
        Floating { _reserved: () }
    }
}

impl InputMode for PullUp {
    open spec fn pull() -> Pull {
        Pull::PullUp
    }

    fn apply(w: &mut PinCnf) -> (mode: Self) {
        w.pull = Pull::PullUp;
        PullUp { _reserved: () }
    }
}

impl InputMode for PullDown {
    open spec fn pull() -> Pull {
        Pull::PullDown
    }

    fn apply(w: &mut PinCnf) -> (mode: Self) {
        w.pull = Pull::PullDown;
        PullDown { _reserved: () }
    }
}

impl OutputMode for PushPull {
    open spec fn drive() -> Drive {
        Drive::S0S1
    }

    fn apply(w: &mut PinCnf) -> (mode: Self) {
        w.drive = Drive::S0S1;
        PushPull { _reserved: () }
    }
}

impl OutputMode for OpenDrain {
    open spec fn drive() -> Drive {
        Drive::S0D1
    }

    fn apply(w: &mut PinCnf) -> (mode: Self) {
        w.drive = Drive::S0D1;
        OpenDrain { _reserved: () }
    }
}

impl PinMode for Disabled {
    open spec fn configured(before: PinCnf) -> PinCnf {
        PinCnf { dir: Direction::Input, input: InputBuffer::Disconnect, ..before }
    }

    fn apply(w: &mut PinCnf) -> (mode: Self) {
        w.dir = Direction::Input;
        w.input = InputBuffer::Disconnect;
        Disabled { _reserved: () }
    }
}

impl<Mode: InputMode> PinMode for Input<Mode> {
    open spec fn configured(before: PinCnf) -> PinCnf {
        PinCnf {
            dir: Direction::Input,
            input: InputBuffer::Connect,
            pull: Mode::pull(),
            ..before
        }
    }

    fn apply(w: &mut PinCnf) -> (mode: Self) {
        w.dir = Direction::Input;
        w.input = InputBuffer::Connect;
        Input { mode: Mode::apply(w) }
    }
}

impl<Mode: OutputMode> PinMode for Output<Mode> {
    open spec fn configured(before: PinCnf) -> PinCnf {
        PinCnf { dir: Direction::Output, drive: Mode::drive(), ..before }
    }

    fn apply(w: &mut PinCnf) -> (mode: Self) {
        w.dir = Direction::Output;
        Output { mode: Mode::apply(w) }
    }
}

impl<Mode> Input<Mode> {
    /// The mode of the input.
    pub closed spec fn mode(self) -> Mode {
        self.mode
    }
}

impl<Mode> Output<Mode> {
    /// The mode of the output.
    pub closed spec fn mode(self) -> Mode {
        self.mode
    }
}

impl Unconfigured {
    /// The one value of the type.
    pub closed spec fn marker() -> Unconfigured {
        Unconfigured { _reserved: () }
    }

    /// The marker of a mode not chosen yet.
    pub fn new() -> (mode: Self)
        ensures
            mode == Unconfigured::marker(),
    {
        Unconfigured { _reserved: () }
    }
}

impl Input<Unconfigured> {
    /// An input whose mode has not been chosen yet.
    pub fn new() -> (input: Self)
        ensures
            input.mode() == Unconfigured::marker(),
    {
        Input { mode: Unconfigured { _reserved: () } }
    }
}

impl Output<Unconfigured> {
    /// An output whose mode has not been chosen yet.
    pub fn new() -> (output: Self)
        ensures
            output.mode() == Unconfigured::marker(),
    {
        Output { mode: Unconfigured { _reserved: () } }
    }
}

} // verus!
