//! Blocks: the structured description of a computation, and what a block
//! means.

use vstd::prelude::*;
use crate::protocol::{Event, Failure};

verus! {

/// One statement of a block. Every block works on a single accumulator, which
/// survives suspension.
#[derive(Debug, PartialEq, Eq)]
pub enum Stmt {
    /// Adds a constant to the accumulator. A sum that does not fit in 64 bits
    /// fails the block with [`Failure::Overflow`].
    Add(u64),
    /// Fails the block with the given code.
    Fail(u64),
    /// A suspension point that waits for nothing: the block pauses once,
    /// asks to be polled again, and goes on when it is.
    Suspend,
    /// An await point: runs the inner block, from zero, to its end, pausing
    /// whenever it pauses, and adds its value to the accumulator. A failure of
    /// the inner block is a failure of this one.
    Await(Block),
    /// An await point that handles failure: as `Await`, but where the inner
    /// block fails, the failure ends there and the given constant is added in
    /// place of the inner block's value.
    Recover(Block, u64),
    /// An emit point: hands the accumulator to the driver and pauses; the
    /// accumulator starts again from zero.
    Emit,
}

/// A sequence of statements, run in order.
#[derive(Debug, PartialEq, Eq)]
pub struct Block {
    pub stmts: Vec<Stmt>,
}

/// Everything a block does from some point on: the events its driver will
/// observe, in order, and how it ends.
#[verifier::ext_equal]
pub struct Run {
    pub events: Seq<Event>,
    pub end: Result<u64, Failure>,
}

impl Run {
    /// The same run with one more event in front.
    pub open spec fn after_event(self, event: Event) -> Run {
        Run { events: seq![event] + self.events, end: self.end }
    }

    /// The same run with `events` in front.
    pub open spec fn after_events(self, events: Seq<Event>) -> Run {
        Run { events: events + self.events, end: self.end }
    }

    /// What is left of the run once its first event has been observed.
    pub open spec fn tail(self) -> Run {
        Run { events: self.events.skip(1), end: self.end }
    }

    /// The same run with its failure, if it ends in one, handled: it then
    /// ends with `fallback`.
    pub open spec fn recovered(self, fallback: u64) -> Run {
        Run {
            events: self.events,
            end: match self.end {
                Ok(value) => Ok(value),
                Err(_) => Ok(fallback),
            },
        }
    }
}

impl Stmt {
    /// The block that the statement awaits, if it is an await point.
    pub open spec fn awaited(self) -> Option<Block> {
        match self {
            Stmt::Await(inner) => Some(inner),
            Stmt::Recover(inner, _) => Some(inner),
            _ => None,
        }
    }

    /// What the statement makes of the run of the block that it awaits.
    pub open spec fn handles(self, run: Run) -> Run {
        match self {
            Stmt::Recover(_, fallback) => run.recovered(fallback),
            _ => run,
        }
    }
}

/// The accumulator after an awaited run that ended with `end` has been added
/// to `acc`.
pub open spec fn settle(end: Result<u64, Failure>, acc: u64) -> Result<u64, Failure> {
    match end {
        Err(failure) => Err(failure),
        Ok(value) => if acc + value > u64::MAX {
            Err(Failure::Overflow)
        } else {
            Ok((acc + value) as u64)
        },
    }
}

/// The run of `stmts` from statement `i` on, entered with `acc` in the
/// accumulator.
pub open spec fn run_from(stmts: Seq<Stmt>, i: int, acc: u64) -> Run
    decreases stmts, stmts.len() - i,
{
    if i < 0 || i >= stmts.len() {
        Run { events: Seq::empty(), end: Ok(acc) }
    } else {
        match stmts[i] {
            Stmt::Add(k) => match settle(Ok(k), acc) {
                Err(failure) => Run { events: Seq::empty(), end: Err(failure) },
                Ok(sum) => run_from(stmts, i + 1, sum),
            },
            Stmt::Fail(code) => Run { events: Seq::empty(), end: Err(Failure::Code(code)) },
            Stmt::Suspend => run_from(stmts, i + 1, acc).after_event(Event::Pending),
            Stmt::Emit => run_from(stmts, i + 1, 0).after_event(Event::Item(acc)),
            Stmt::Await(inner) | Stmt::Recover(inner, _) => {
                let awaited = stmts[i].handles(run_from(inner.stmts@, 0, 0));
                match settle(awaited.end, acc) {
                    Err(failure) => Run { events: awaited.events, end: Err(failure) },
                    Ok(sum) => run_from(stmts, i + 1, sum).after_events(awaited.events),
                }
            },
        }
    }
}

/// The run of a block that is waiting, with `acc` in its accumulator, for an
/// awaited run to end, and will then go on from statement `next`. The awaited
/// run is taken as its await point handles it.
pub open spec fn resume_after(awaited: Run, stmts: Seq<Stmt>, next: int, acc: u64) -> Run {
    match settle(awaited.end, acc) {
        Err(failure) => Run { events: awaited.events, end: Err(failure) },
        Ok(sum) => run_from(stmts, next, sum).after_events(awaited.events),
    }
}

/// Whether no statement of `stmts`, nor of a block awaited in it, is an emit
/// point.
pub open spec fn emits_nothing(stmts: Seq<Stmt>) -> bool
    decreases stmts,
{
    forall|j: int|
        0 <= j < stmts.len() ==> match #[trigger] stmts[j] {
            Stmt::Emit => false,
            Stmt::Await(inner) | Stmt::Recover(inner, _) => emits_nothing(inner.stmts@),
            _ => true,
        }
}

/// A run without emit points holds no item: its driver only ever sees it
/// pending.
pub proof fn lemma_run_without_emit(stmts: Seq<Stmt>, i: int, acc: u64)
    requires
        emits_nothing(stmts),
    ensures
        forall|k: int|
            0 <= k < run_from(stmts, i, acc).events.len() ==> #[trigger] run_from(
                stmts,
                i,
                acc,
            ).events[k] == Event::Pending,
    decreases stmts, stmts.len() - i,
{
    if 0 <= i < stmts.len() {
        match stmts[i] {
            Stmt::Add(k) => {
                if let Ok(sum) = settle(Ok(k), acc) {
                    lemma_run_without_emit(stmts, i + 1, sum);
                }
            },
            Stmt::Fail(_) => {},
            Stmt::Suspend => {
                lemma_run_without_emit(stmts, i + 1, acc);
            },
            Stmt::Emit => {},
            Stmt::Await(inner) | Stmt::Recover(inner, _) => {
                lemma_run_without_emit(inner.stmts@, 0, 0);
                if let Ok(sum) = settle(stmts[i].handles(inner.run(0)).end, acc) {
                    lemma_run_without_emit(stmts, i + 1, sum);
                }
            },
        }
    }
}

/// Whether no statement of `stmts`, nor of a block awaited in it, is a
/// suspension point.
pub open spec fn pauses_nowhere(stmts: Seq<Stmt>) -> bool
    decreases stmts,
{
    forall|j: int|
        0 <= j < stmts.len() ==> match #[trigger] stmts[j] {
            Stmt::Suspend => false,
            Stmt::Emit => false,
            Stmt::Await(inner) | Stmt::Recover(inner, _) => pauses_nowhere(inner.stmts@),
            _ => true,
        }
}

/// Whether `stmts` only adds constants, by itself or in blocks that it
/// awaits.
pub open spec fn adds_only(stmts: Seq<Stmt>) -> bool
    decreases stmts,
{
    forall|j: int|
        0 <= j < stmts.len() ==> match #[trigger] stmts[j] {
            Stmt::Add(_) => true,
            Stmt::Await(inner) => adds_only(inner.stmts@),
            _ => false,
        }
}

/// The sum of the constants that `stmts` adds from statement `i` on, those
/// of awaited blocks included.
pub open spec fn constants_from(stmts: Seq<Stmt>, i: int) -> nat
    decreases stmts, stmts.len() - i,
{
    if i < 0 || i >= stmts.len() {
        0
    } else {
        constants_from(stmts, i + 1) + match stmts[i] {
            Stmt::Add(k) => k as nat,
            Stmt::Await(inner) => constants_from(inner.stmts@, 0),
            _ => 0,
        }
    }
}

/// A run without suspension points shows its driver nothing before it ends.
pub proof fn lemma_run_without_pause(stmts: Seq<Stmt>, i: int, acc: u64)
    requires
        pauses_nowhere(stmts),
    ensures
        run_from(stmts, i, acc).events == Seq::<Event>::empty(),
    decreases stmts, stmts.len() - i,
{
    if 0 <= i < stmts.len() {
        match stmts[i] {
            Stmt::Add(k) => {
                if let Ok(sum) = settle(Ok(k), acc) {
                    lemma_run_without_pause(stmts, i + 1, sum);
                }
            },
            Stmt::Fail(_) => {},
            Stmt::Suspend => {},
            Stmt::Emit => {},
            Stmt::Await(inner) | Stmt::Recover(inner, _) => {
                lemma_run_without_pause(inner.stmts@, 0, 0);
                if let Ok(sum) = settle(stmts[i].handles(inner.run(0)).end, acc) {
                    lemma_run_without_pause(stmts, i + 1, sum);
                }
            },
        }
    }
}

/// A run that only adds constants shows its driver nothing, and ends with
/// the accumulator it was entered with plus those constants, if that fits in
/// 64 bits, and else with an overflow.
pub proof fn lemma_run_adds_up(stmts: Seq<Stmt>, i: int, acc: u64)
    requires
        adds_only(stmts),
    ensures
        run_from(stmts, i, acc) == (Run {
            events: Seq::empty(),
            end: if acc + constants_from(stmts, i) <= u64::MAX {
                Ok((acc + constants_from(stmts, i)) as u64)
            } else {
                Err(Failure::Overflow)
            },
        }),
    decreases stmts, stmts.len() - i,
{
    if 0 <= i < stmts.len() {
        match stmts[i] {
            Stmt::Add(k) => {
                if let Ok(sum) = settle(Ok(k), acc) {
                    lemma_run_adds_up(stmts, i + 1, sum);
                }
            },
            Stmt::Await(inner) => {
                lemma_run_adds_up(inner.stmts@, 0, 0);
                if let Ok(sum) = settle(run_from(inner.stmts@, 0, 0).end, acc) {
                    lemma_run_adds_up(stmts, i + 1, sum);
                }
            },
            _ => {},
        }
    }
}

impl Block {
    /// The whole run of the block, entered with `input` in the accumulator.
    pub open spec fn run(&self, input: u64) -> Run {
        run_from(self.stmts@, 0, input)
    }

    /// Whether the block has the shape of a future: a single exit, and no
    /// emit point on the way.
    pub open spec fn future_shaped(&self) -> bool {
        emits_nothing(self.stmts@)
    }

    /// Tests whether the block has the shape of a future.
    pub fn is_future_shaped(&self) -> (yes: bool)
        ensures
            yes == self.future_shaped(),
        decreases self,
    {
        let mut i: usize = 0;
        while i < self.stmts.len()
            invariant
                i <= self.stmts.len(),
                forall|j: int|
                    0 <= j < i ==> match #[trigger] self.stmts@[j] {
                        Stmt::Emit => false,
                        Stmt::Await(inner) | Stmt::Recover(inner, _) => emits_nothing(
                            inner.stmts@,
                        ),
                        _ => true,
                    },
            decreases self.stmts.len() - i,
        {
            match &self.stmts[i] {
                Stmt::Emit => {
                    return false;
                },
                Stmt::Await(inner) | Stmt::Recover(inner, _) => {
                    if !inner.is_future_shaped() {
                        return false;
                    }
                },
                _ => {},
            }
            i = i + 1;
        }
        true
    }
}

} // verus!
