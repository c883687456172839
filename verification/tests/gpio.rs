use core::mem;
use embrio::gpio::mode::{
    Disabled, Floating, Input, OpenDrain, Output, PullDown, PullUp, PushPull, Unconfigured,
};
use embrio::gpio::mode::{InputMode, OutputMode, PinMode};
use embrio::gpio::pin_cnf::{Direction, Drive, InputBuffer, PinCnf, Pull, Sense};

#[test]
fn zst() {
    assert!(mem::size_of::<Input<Unconfigured>>() == 0);
    assert!(mem::size_of::<Input<Floating>>() == 0);
    assert!(mem::size_of::<Input<PullUp>>() == 0);
    assert!(mem::size_of::<Input<PullDown>>() == 0);
    assert!(mem::size_of::<Output<Unconfigured>>() == 0);
    assert!(mem::size_of::<Output<PushPull>>() == 0);
    assert!(mem::size_of::<Output<OpenDrain>>() == 0);
    assert!(mem::size_of::<Disabled>() == 0);
    assert!(mem::size_of::<Unconfigured>() == 0);
}


fn other() -> PinCnf {
    PinCnf {
        dir: Direction::Output,
        input: InputBuffer::Connect,
        pull: Pull::PullDown,
        drive: Drive::H0H1,
        sense: Sense::High,
    }
}

#[test]
fn reset_value_of_the_register() {
    assert_eq!(
        PinCnf::reset(),
        PinCnf {
            dir: Direction::Input,
            input: InputBuffer::Disconnect,
            pull: Pull::Disabled,
            drive: Drive::S0S1,
            sense: Sense::Disabled,
        }
    );
}

#[test]
fn input_modes_write_the_pull_only() {
    let mut w = other();
    let _: Floating = InputMode::apply(&mut w);
    assert_eq!(w, PinCnf { pull: Pull::Disabled, ..other() });
    let mut w = other();
    let _: PullUp = InputMode::apply(&mut w);
    assert_eq!(w, PinCnf { pull: Pull::PullUp, ..other() });
    let mut w = PinCnf::reset();
    let _: PullDown = InputMode::apply(&mut w);
    assert_eq!(w, PinCnf { pull: Pull::PullDown, ..PinCnf::reset() });
}

#[test]
fn output_modes_write_the_drive_only() {
    let mut w = other();
    let _: PushPull = OutputMode::apply(&mut w);
    assert_eq!(w, PinCnf { drive: Drive::S0S1, ..other() });
    let mut w = other();
    let _: OpenDrain = OutputMode::apply(&mut w);
    assert_eq!(w, PinCnf { drive: Drive::S0D1, ..other() });
}

#[test]
fn disabled_disconnects_the_input() {
    let mut w = other();
    let _: Disabled = PinMode::apply(&mut w);
    assert_eq!(
        w,
        PinCnf { dir: Direction::Input, input: InputBuffer::Disconnect, ..other() }
    );
}

#[test]
fn input_connects_and_applies_its_mode() {
    let mut w = other();
    let _: Input<PullUp> = PinMode::apply(&mut w);
    assert_eq!(
        w,
        PinCnf {
            dir: Direction::Input,
            input: InputBuffer::Connect,
            pull: Pull::PullUp,
            ..other()
        }
    );
    let mut w = PinCnf::reset();
    let _: Input<Floating> = PinMode::apply(&mut w);
    assert_eq!(w, PinCnf { input: InputBuffer::Connect, ..PinCnf::reset() });
}

#[test]
fn output_sets_the_direction_and_applies_its_mode() {
    let mut w = PinCnf::reset();
    let _: Output<OpenDrain> = PinMode::apply(&mut w);
    assert_eq!(
        w,
        PinCnf { dir: Direction::Output, drive: Drive::S0D1, ..PinCnf::reset() }
    );
    let mut w = other();
    let _: Output<PushPull> = PinMode::apply(&mut w);
    assert_eq!(w, PinCnf { drive: Drive::S0S1, ..other() });
}

#[test]
fn unconfigured_markers() {
    let _: Unconfigured = Unconfigured::new();
    let _: Input<Unconfigured> = Input::<Unconfigured>::new();
    let _: Output<Unconfigured> = Output::<Unconfigured>::new();
}
