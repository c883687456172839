//! The coroutine core: one pausable, resumable execution of a block.

use vstd::prelude::*;
use crate::block::{Block, Run, Stmt, resume_after, run_from, settle};
use crate::protocol::{Event, Failure, ProtocolViolation, WakeHandle};

verus! {

/// What one resumption of a coroutine came to.
#[derive(Debug, Clone, Copy, PartialEq, Eq)]
pub enum Step {
    /// The coroutine paused at a suspension point and may be resumed.
    Yielded(Event),
    /// The coroutine reached its end and must not be resumed again.
    Completed(Result<u64, Failure>),
}

/// The model of a computation that emits events and then ends: what is left
/// of its run, or that it has reported its end.
#[verifier::ext_equal]
pub enum Progress {
    Running(Run),
    Finished,
}

impl Progress {
    /// The model after one resumption, and what the resumption returns.
    pub open spec fn step(self) -> (Progress, Result<Step, ProtocolViolation>) {
        match self {
            Progress::Running(run) => if run.events.len() > 0 {
                (Progress::Running(run.tail()), Ok(Step::Yielded(run.events[0])))
            } else {
                (Progress::Finished, Ok(Step::Completed(run.end)))
            },
            Progress::Finished => (Progress::Finished, Err(ProtocolViolation::Terminated)),
        }
    }

    /// The model after `n` resumptions.
    pub open spec fn after(self, n: nat) -> Progress
        decreases n,
    {
        if n == 0 {
            self
        } else {
            self.step().0.after((n - 1) as nat)
        }
    }

    /// Whether a resumption signals the wake handle: it does exactly when the
    /// computation pauses with nothing to hand over.
    pub open spec fn wakes(self) -> bool {
        self.step().1 == Ok::<Step, ProtocolViolation>(Step::Yielded(Event::Pending))
    }
}

/// The state of one nesting level: the index of the statement to run next,
/// the accumulator, and the state of the awaited block while an await point is
/// paused.
struct Frame {
    pc: usize,
    acc: u64,
    inner: Option<Box<Frame>>,
}

/// Whether `step` is the first thing that happens in the run `before`, and
/// `after` is the run that is left once it has happened.
spec fn takes(step: Step, before: Run, after: Run) -> bool {
    match step {
        Step::Yielded(event) => {
            &&& before.events.len() > 0
            &&& event == before.events[0]
            &&& after == before.tail()
        },
        Step::Completed(end) => {
            &&& before.events.len() == 0
            &&& end == before.end
        },
    }
}

impl Frame {
    /// Whether the frame is a state of `stmts`: a paused inner frame stands
    /// at an await point, and is a state of the awaited block.
    spec fn fits(self, stmts: Seq<Stmt>) -> bool
        decreases self,
    {
        &&& self.pc <= stmts.len()
        &&& match self.inner {
            None => true,
            Some(child) => {
                &&& self.pc < stmts.len()
                &&& stmts[self.pc as int].awaited() is Some
                &&& child.fits(stmts[self.pc as int].awaited().unwrap().stmts@)
            },
        }
    }

    /// What is left to run of `stmts` in this state.
    spec fn remaining(self, stmts: Seq<Stmt>) -> Run
        decreases self,
    {
        match self.inner {
            None => run_from(stmts, self.pc as int, self.acc),
            Some(child) => resume_after(
                stmts[self.pc as int].handles(
                    child.remaining(stmts[self.pc as int].awaited().unwrap().stmts@),
                ),
                stmts,
                self.pc + 1,
                self.acc,
            ),
        }
    }

    /// The state before the first statement, with `input` in the accumulator.
    fn start(input: u64) -> (frame: Frame)
        ensures
            forall|stmts: Seq<Stmt>| #[trigger] frame.fits(stmts),
            forall|stmts: Seq<Stmt>| #[trigger] frame.remaining(stmts) == run_from(stmts, 0, input),
        no_unwind
    {
        Frame { pc: 0, acc: input, inner: None }
    }

    /// Runs the block `inner` that the current statement of `block` awaits,
    /// with `fallback` as what the statement adds where the block fails, if
    /// it handles failure.
    ///
    /// Returns the step at which this frame stops with it, or `None` where
    /// the awaited block has ended, its value was added, and the frame
    /// stands at the next statement.
    fn join(
        &mut self,
        block: &Block,
        inner: &Block,
        fallback: Option<u64>,
        wake: &mut WakeHandle,
    ) -> (stop: Option<Step>)
        requires
            old(self).fits(block.stmts@),
            old(self).pc < block.stmts.len(),
            block.stmts@[old(self).pc as int] == match fallback {
                None => Stmt::Await(*inner),
                Some(value) => Stmt::Recover(*inner, value),
            },
        ensures
            final(self).fits(block.stmts@),
            match stop {
                Some(step) => takes(
                    step,
                    old(self).remaining(block.stmts@),
                    final(self).remaining(block.stmts@),
                ),
                None => {
                    &&& final(self).pc == old(self).pc + 1
                    &&& final(self).remaining(block.stmts@) == old(self).remaining(block.stmts@)
                },
            },
            final(wake).is_signalled() == (old(wake).is_signalled() || stop == Some(
                Step::Yielded(Event::Pending),
            )),
        decreases block, 0int,
    {
        let ghost stmts = block.stmts@;
        let ghost stmt = stmts[self.pc as int];
        let ghost before = *self;
        let mut child = match self.inner.take() {
            Some(paused) => *paused,
            None => Frame::start(0),
        };
        let ghost awaited = child.remaining(inner.stmts@);
        assert(before.remaining(stmts) == resume_after(
            stmt.handles(awaited),
            stmts,
            self.pc + 1,
            self.acc,
        ));
        let end = match child.resume(inner, wake) {
            Step::Yielded(event) => {
                self.inner = Some(Box::new(child));
                assert(self.remaining(stmts) == before.remaining(stmts).tail()) by {
                    assert(self.remaining(stmts) == resume_after(
                        stmt.handles(awaited.tail()),
                        stmts,
                        self.pc + 1,
                        self.acc,
                    ));
                    if let Ok(sum) = settle(stmt.handles(awaited).end, self.acc) {
                        let rest = run_from(stmts, self.pc + 1, sum);
                        assert((awaited.events + rest.events).skip(1) =~= awaited.events.skip(1)
                            + rest.events);
                    }
                }
                return Some(Step::Yielded(event));
            },
            Step::Completed(end) => end,
        };
        let value = match (end, fallback) {
            (Ok(value), _) => value,
            (Err(_), Some(value)) => value,
            (Err(failure), None) => {
                return Some(Step::Completed(Err(failure)));
            },
        };
        match self.acc.checked_add(value) {
            Some(sum) => {
                self.acc = sum;
                self.pc = self.pc + 1;
                assert(awaited.events + self.remaining(stmts).events =~= self.remaining(
                    stmts,
                ).events);
                None
            },
            None => Some(Step::Completed(Err(Failure::Overflow))),
        }
    }

    /// Runs `block` from this state to its next suspension point or to its
    /// end.
    fn resume(&mut self, block: &Block, wake: &mut WakeHandle) -> (step: Step)
        requires
            old(self).fits(block.stmts@),
        ensures
            final(self).fits(block.stmts@),
            takes(step, old(self).remaining(block.stmts@), final(self).remaining(block.stmts@)),
            final(wake).is_signalled() == (old(wake).is_signalled() || step == Step::Yielded(
                Event::Pending,
            )),
        decreases block, 1int,
    {
        while self.pc < block.stmts.len()
            invariant
                self.fits(block.stmts@),
                self.remaining(block.stmts@) == old(self).remaining(block.stmts@),
                wake.is_signalled() == old(wake).is_signalled(),
            decreases block.stmts.len() - self.pc,
        {
            let ghost stmts = block.stmts@;
            let ghost before = *self;
            match &block.stmts[self.pc] {
                Stmt::Add(k) => {
                    match self.acc.checked_add(*k) {
                        Some(sum) => {
                            self.acc = sum;
                            self.pc = self.pc + 1;
                        },
                        None => {
                            return Step::Completed(Err(Failure::Overflow));
                        },
                    }
                },
                Stmt::Fail(code) => {
                    return Step::Completed(Err(Failure::Code(*code)));
                },
                Stmt::Suspend => {
                    self.pc = self.pc + 1;
                    wake.wake();
                    assert(before.remaining(stmts).tail() == self.remaining(stmts));
                    return Step::Yielded(Event::Pending);
                },
                Stmt::Emit => {
                    let value = self.acc;
                    self.acc = 0;
                    self.pc = self.pc + 1;
                    assert(before.remaining(stmts).tail() == self.remaining(stmts));
                    return Step::Yielded(Event::Item(value));
                },
                Stmt::Await(inner) => {
                    if let Some(step) = self.join(block, inner, None, wake) {
                        return step;
                    }
                },
                Stmt::Recover(inner, fallback) => {
                    if let Some(step) = self.join(block, inner, Some(*fallback), wake) {
                        return step;
                    }
                },
            }
        }
        Step::Completed(Ok(self.acc))
    }
}

/// One execution of a block, resumed by its driver until it completes.
///
/// Each nesting level of the block has its own state, and each level owns the
/// state of the block it awaits for as long as the await lasts.
pub struct Coroutine {
    block: Block,
    frame: Frame,
    finished: bool,
}

impl View for Coroutine {
    type V = Progress;

    closed spec fn view(&self) -> Progress {
        if self.finished {
            Progress::Finished
        } else {
            Progress::Running(self.frame.remaining(self.block.stmts@))
        }
    }
}

impl Coroutine {
    /// The invariant of the type: the state is a state of the block.
    #[verifier::type_invariant]
    spec fn sound(self) -> bool {
        self.frame.fits(self.block.stmts@)
    }

    /// The block that the coroutine runs.
    pub closed spec fn block(&self) -> Block {
        self.block
    }

    /// A coroutine at the start of `block`, with `input` in the accumulator.
    pub fn new(block: Block, input: u64) -> (coroutine: Self)
        ensures
            coroutine.block() == block,
            coroutine@ == Progress::Running(block.run(input)),
    {
        Coroutine { block, frame: Frame::start(input), finished: false }
    }

    /// Sets the coroutine back to the start of its block, with `input` in the
    /// accumulator. What it was doing is given up.
    pub fn restart(&mut self, input: u64)
        ensures
            final(self).block() == old(self).block(),
            final(self)@ == Progress::Running(old(self).block().run(input)),
        no_unwind
    {
        self.frame = Frame::start(input);
        self.finished = false;
    }

    /// A coroutine that has nothing to run, to stand in for one that is
    /// being worked on.
    pub(crate) fn parked() -> (coroutine: Self)
        ensures
            coroutine.block().stmts@.len() == 0,
            coroutine@ == Progress::Running(Run { events: Seq::empty(), end: Ok(0) }),
    {
        Coroutine { block: Block { stmts: Vec::new() }, frame: Frame::start(0), finished: false }
    }

    /// Whether the coroutine has completed.
    pub fn is_finished(&self) -> (finished: bool)
        ensures
            finished == (self@ is Finished),
    {
        self.finished
    }

    /// Runs the block to its next suspension point or to its end.
    ///
    /// A completed coroutine is not run again: resuming it is reported as a
    /// protocol violation, and changes nothing.
    pub fn resume(&mut self, wake: &mut WakeHandle) -> (result: Result<Step, ProtocolViolation>)
        ensures
            final(self).block() == old(self).block(),
            (final(self)@, result) == old(self)@.step(),
            final(wake).is_signalled() == (old(wake).is_signalled() || old(self)@.wakes()),
    {
        proof {
            use_type_invariant(&*self);
        }
        if self.finished {
            return Err(ProtocolViolation::Terminated);
        }
        // The frame is worked on outside `self`, which holds a fresh one
        // meanwhile.
        let mut frame = Frame::start(0);
        core::mem::swap(&mut frame, &mut self.frame);
        let step = frame.resume(&self.block, wake);
        self.frame = frame;
        match step {
            Step::Yielded(_) => {},
            Step::Completed(_) => {
                self.finished = true;
            },
        }
        Ok(step)
    }
}

} // verus!
