use embrio::block::{Block, Stmt};
use embrio::coroutine::{Coroutine, Step};
use embrio::protocol::{Event, Failure, ProtocolViolation, WakeHandle};

fn block(stmts: Vec<Stmt>) -> Block {
    Block { stmts }
}

#[test]
fn empty_block_completes_with_its_input() {
    let mut wake = WakeHandle::new();
    let mut coroutine = Coroutine::new(block(vec![]), 9);
    assert!(!coroutine.is_finished());
    assert_eq!(coroutine.resume(&mut wake), Ok(Step::Completed(Ok(9))));
    assert!(coroutine.is_finished());
    assert!(!wake.signalled());
}

#[test]
fn additions_accumulate() {
    let mut wake = WakeHandle::new();
    let mut coroutine = Coroutine::new(block(vec![Stmt::Add(2), Stmt::Add(3), Stmt::Add(4)]), 1);
    assert_eq!(coroutine.resume(&mut wake), Ok(Step::Completed(Ok(10))));
}

#[test]
fn suspension_keeps_the_accumulator() {
    let mut wake = WakeHandle::new();
    let mut coroutine =
        Coroutine::new(block(vec![Stmt::Add(2), Stmt::Suspend, Stmt::Add(3)]), 0);
    assert_eq!(coroutine.resume(&mut wake), Ok(Step::Yielded(Event::Pending)));
    assert!(wake.take());
    assert!(!coroutine.is_finished());
    assert_eq!(coroutine.resume(&mut wake), Ok(Step::Completed(Ok(5))));
    assert!(!wake.signalled());
}

#[test]
fn emit_hands_the_accumulator_over_and_clears_it() {
    let mut wake = WakeHandle::new();
    let mut coroutine = Coroutine::new(
        block(vec![Stmt::Add(5), Stmt::Emit, Stmt::Add(6), Stmt::Emit, Stmt::Add(1)]),
        0,
    );
    assert_eq!(coroutine.resume(&mut wake), Ok(Step::Yielded(Event::Item(5))));
    assert!(!wake.signalled());
    assert_eq!(coroutine.resume(&mut wake), Ok(Step::Yielded(Event::Item(6))));
    assert_eq!(coroutine.resume(&mut wake), Ok(Step::Completed(Ok(1))));
}

#[test]
fn awaited_block_starts_from_zero_and_adds_its_value() {
    let mut wake = WakeHandle::new();
    let inner = block(vec![Stmt::Add(4), Stmt::Suspend, Stmt::Add(6)]);
    let mut coroutine =
        Coroutine::new(block(vec![Stmt::Add(100), Stmt::Await(inner), Stmt::Add(1)]), 0);
    assert_eq!(coroutine.resume(&mut wake), Ok(Step::Yielded(Event::Pending)));
    assert_eq!(coroutine.resume(&mut wake), Ok(Step::Completed(Ok(111))));
}

#[test]
fn nested_awaits_pause_at_every_depth() {
    let mut wake = WakeHandle::new();
    let deepest = block(vec![Stmt::Suspend, Stmt::Add(1), Stmt::Suspend]);
    let middle = block(vec![Stmt::Await(deepest), Stmt::Suspend, Stmt::Add(2)]);
    let outer = block(vec![Stmt::Suspend, Stmt::Await(middle), Stmt::Add(4)]);
    let mut coroutine = Coroutine::new(outer, 0);
    for _ in 0..4 {
        assert_eq!(coroutine.resume(&mut wake), Ok(Step::Yielded(Event::Pending)));
        assert!(wake.take());
    }
    assert_eq!(coroutine.resume(&mut wake), Ok(Step::Completed(Ok(7))));
}

#[test]
fn emit_in_an_awaited_block_reaches_the_driver() {
    let mut wake = WakeHandle::new();
    let inner = block(vec![Stmt::Add(3), Stmt::Emit, Stmt::Add(4)]);
    let mut coroutine = Coroutine::new(block(vec![Stmt::Await(inner), Stmt::Emit]), 0);
    assert_eq!(coroutine.resume(&mut wake), Ok(Step::Yielded(Event::Item(3))));
    assert_eq!(coroutine.resume(&mut wake), Ok(Step::Yielded(Event::Item(4))));
    assert_eq!(coroutine.resume(&mut wake), Ok(Step::Completed(Ok(0))));
}

#[test]
fn failure_cuts_the_block_short() {
    let mut wake = WakeHandle::new();
    let mut coroutine = Coroutine::new(
        block(vec![Stmt::Add(1), Stmt::Fail(42), Stmt::Suspend, Stmt::Emit]),
        0,
    );
    assert_eq!(coroutine.resume(&mut wake), Ok(Step::Completed(Err(Failure::Code(42)))));
    assert!(!wake.signalled());
    assert!(coroutine.is_finished());
}

#[test]
fn failure_of_an_awaited_block_is_the_failure_of_the_outer() {
    let mut wake = WakeHandle::new();
    let inner = block(vec![Stmt::Suspend, Stmt::Fail(7)]);
    let mut coroutine =
        Coroutine::new(block(vec![Stmt::Await(inner), Stmt::Suspend, Stmt::Add(1)]), 0);
    assert_eq!(coroutine.resume(&mut wake), Ok(Step::Yielded(Event::Pending)));
    assert_eq!(coroutine.resume(&mut wake), Ok(Step::Completed(Err(Failure::Code(7)))));
}

#[test]
fn overflow_of_an_addition_fails_the_block() {
    let mut wake = WakeHandle::new();
    let mut coroutine = Coroutine::new(block(vec![Stmt::Add(1)]), u64::MAX);
    assert_eq!(coroutine.resume(&mut wake), Ok(Step::Completed(Err(Failure::Overflow))));
    let mut coroutine = Coroutine::new(block(vec![Stmt::Add(1)]), u64::MAX - 1);
    assert_eq!(coroutine.resume(&mut wake), Ok(Step::Completed(Ok(u64::MAX))));
}

#[test]
fn overflow_on_joining_an_awaited_value_fails_the_block() {
    let mut wake = WakeHandle::new();
    let inner = block(vec![Stmt::Add(2)]);
    let mut coroutine = Coroutine::new(block(vec![Stmt::Await(inner)]), u64::MAX - 1);
    assert_eq!(coroutine.resume(&mut wake), Ok(Step::Completed(Err(Failure::Overflow))));
}

#[test]
fn resuming_a_completed_coroutine_is_a_violation() {
    let mut wake = WakeHandle::new();
    let mut coroutine = Coroutine::new(block(vec![Stmt::Add(5)]), 0);
    assert_eq!(coroutine.resume(&mut wake), Ok(Step::Completed(Ok(5))));
    for _ in 0..3 {
        assert_eq!(coroutine.resume(&mut wake), Err(ProtocolViolation::Terminated));
        assert!(coroutine.is_finished());
        assert!(!wake.signalled());
    }
}

#[test]
fn resuming_a_failed_coroutine_is_a_violation() {
    let mut wake = WakeHandle::new();
    let mut coroutine = Coroutine::new(block(vec![Stmt::Fail(1)]), 0);
    assert_eq!(coroutine.resume(&mut wake), Ok(Step::Completed(Err(Failure::Code(1)))));
    assert_eq!(coroutine.resume(&mut wake), Err(ProtocolViolation::Terminated));
}

#[test]
fn restart_runs_the_block_again_from_its_start() {
    let mut wake = WakeHandle::new();
    let inner = block(vec![Stmt::Suspend, Stmt::Add(1)]);
    let mut coroutine = Coroutine::new(block(vec![Stmt::Await(inner), Stmt::Add(2)]), 0);
    assert_eq!(coroutine.resume(&mut wake), Ok(Step::Yielded(Event::Pending)));
    coroutine.restart(10);
    assert!(!coroutine.is_finished());
    assert_eq!(coroutine.resume(&mut wake), Ok(Step::Yielded(Event::Pending)));
    assert_eq!(coroutine.resume(&mut wake), Ok(Step::Completed(Ok(13))));
    coroutine.restart(20);
    assert_eq!(coroutine.resume(&mut wake), Ok(Step::Yielded(Event::Pending)));
    assert_eq!(coroutine.resume(&mut wake), Ok(Step::Completed(Ok(23))));
}

#[test]
fn shape_of_a_block() {
    assert!(block(vec![]).is_future_shaped());
    assert!(block(vec![Stmt::Add(1), Stmt::Suspend, Stmt::Fail(2)]).is_future_shaped());
    assert!(!block(vec![Stmt::Add(1), Stmt::Emit]).is_future_shaped());
    let emitting = block(vec![Stmt::Suspend, Stmt::Emit]);
    assert!(!block(vec![Stmt::Await(emitting)]).is_future_shaped());
    let quiet = block(vec![Stmt::Await(block(vec![Stmt::Suspend]))]);
    assert!(block(vec![Stmt::Await(quiet), Stmt::Add(1)]).is_future_shaped());
}

#[test]
fn a_handled_failure_lets_the_block_go_on() {
    let mut wake = WakeHandle::new();
    let failing = block(vec![Stmt::Add(50), Stmt::Suspend, Stmt::Fail(3), Stmt::Suspend]);
    let mut coroutine = Coroutine::new(
        block(vec![Stmt::Add(1), Stmt::Recover(failing, 10), Stmt::Suspend, Stmt::Add(100)]),
        0,
    );
    assert_eq!(coroutine.resume(&mut wake), Ok(Step::Yielded(Event::Pending)));
    assert_eq!(coroutine.resume(&mut wake), Ok(Step::Yielded(Event::Pending)));
    assert_eq!(coroutine.resume(&mut wake), Ok(Step::Completed(Ok(111))));
}

#[test]
fn recover_passes_a_value_on_as_await_does() {
    let mut wake = WakeHandle::new();
    let sound = block(vec![Stmt::Suspend, Stmt::Add(5)]);
    let mut coroutine = Coroutine::new(block(vec![Stmt::Recover(sound, 10), Stmt::Add(1)]), 0);
    assert_eq!(coroutine.resume(&mut wake), Ok(Step::Yielded(Event::Pending)));
    assert_eq!(coroutine.resume(&mut wake), Ok(Step::Completed(Ok(6))));
}

#[test]
fn recover_handles_an_overflow_of_the_inner_block() {
    let mut wake = WakeHandle::new();
    let overflowing = block(vec![Stmt::Add(u64::MAX), Stmt::Add(1)]);
    let mut coroutine = Coroutine::new(block(vec![Stmt::Recover(overflowing, 2)]), 40);
    assert_eq!(coroutine.resume(&mut wake), Ok(Step::Completed(Ok(42))));
}

#[test]
fn the_fallback_itself_may_not_fit() {
    let mut wake = WakeHandle::new();
    let failing = block(vec![Stmt::Fail(1)]);
    let mut coroutine = Coroutine::new(block(vec![Stmt::Recover(failing, 2)]), u64::MAX - 1);
    assert_eq!(coroutine.resume(&mut wake), Ok(Step::Completed(Err(Failure::Overflow))));
}

#[test]
fn an_unhandled_failure_inside_a_handled_one() {
    let mut wake = WakeHandle::new();
    let deepest = block(vec![Stmt::Fail(9)]);
    let middle = block(vec![Stmt::Add(1), Stmt::Await(deepest), Stmt::Add(1)]);
    let mut coroutine = Coroutine::new(block(vec![Stmt::Recover(middle, 7), Stmt::Add(1)]), 0);
    assert_eq!(coroutine.resume(&mut wake), Ok(Step::Completed(Ok(8))));
}

#[test]
fn shape_of_a_block_with_a_handled_await() {
    let emitting = block(vec![Stmt::Emit]);
    assert!(!block(vec![Stmt::Recover(emitting, 0)]).is_future_shaped());
    let quiet = block(vec![Stmt::Suspend, Stmt::Fail(1)]);
    assert!(block(vec![Stmt::Recover(quiet, 0)]).is_future_shaped());
}

/// Resumes a coroutine to its end and gathers what its driver saw.
fn observe(coroutine: &mut Coroutine) -> (Vec<Event>, Result<u64, Failure>) {
    let mut wake = WakeHandle::new();
    let mut events = Vec::new();
    loop {
        match coroutine.resume(&mut wake).unwrap() {
            Step::Yielded(event) => events.push(event),
            Step::Completed(end) => return (events, end),
        }
    }
}

#[test]
fn two_halves_of_a_block_run_one_after_the_other() {
    let first = || vec![Stmt::Add(3), Stmt::Suspend, Stmt::Emit, Stmt::Add(4)];
    let second = || vec![Stmt::Emit, Stmt::Add(5), Stmt::Suspend, Stmt::Add(6)];
    let mut whole = first();
    whole.extend(second());

    let (whole_events, whole_end) = observe(&mut Coroutine::new(block(whole), 1));
    let (first_events, first_end) = observe(&mut Coroutine::new(block(first()), 1));
    assert_eq!(first_end, Ok(4));
    let (second_events, second_end) = observe(&mut Coroutine::new(block(second()), 4));

    let mut in_turn = first_events;
    in_turn.extend(second_events);
    assert_eq!(whole_events, in_turn);
    assert_eq!(whole_end, second_end);
    assert_eq!(
        whole_events,
        vec![Event::Pending, Event::Item(4), Event::Item(4), Event::Pending]
    );
    assert_eq!(whole_end, Ok(11));
}
