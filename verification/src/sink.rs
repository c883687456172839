//! The sink transform: a coroutine presented as a consumer of supplied
//! values.

use vstd::prelude::*;
use crate::block::{Block, lemma_run_without_emit, settle};
use crate::coroutine::{Coroutine, Progress, Step};
use crate::protocol::{Event, Failure, Feed, ProtocolViolation, SinkPoll, WakeHandle};

verus! {

/// The model of a sink.
pub enum SinkModel {
    /// Waiting for input, with the sum of what was consumed so far.
    Accepting { sum: u64 },
    /// Working on an item: it will be found pending `suspensions` more times,
    /// and then either accept again with `outcome` as its sum, or fail.
    Processing { suspensions: nat, outcome: Result<u64, Failure> },
    /// Finalising after the end of input: it will be found pending
    /// `suspensions` more times, and then be ready with `outcome`.
    Finishing { suspensions: nat, outcome: Result<u64, Failure> },
    /// It has reported its terminal state.
    Terminated,
}

impl SinkModel {
    /// The model of a sink that takes up an item with `sum` as the new total.
    pub open spec fn processing(each: Block, sum: u64) -> SinkModel {
        SinkModel::Processing {
            suspensions: each.run(sum).events.len(),
            outcome: each.run(sum).end,
        }
    }

    /// The model of a sink that starts to finalise with `sum` as its total.
    pub open spec fn finishing(finish: Block, sum: u64) -> SinkModel {
        SinkModel::Finishing {
            suspensions: finish.run(sum).events.len(),
            outcome: finish.run(sum).end,
        }
    }

    /// Whether the sink is working on something it was given.
    pub open spec fn busy(self) -> bool {
        self is Processing || self is Finishing
    }

    /// One step of the work in hand.
    pub open spec fn work(self) -> (SinkModel, Result<SinkPoll, ProtocolViolation>) {
        match self {
            SinkModel::Processing { suspensions, outcome } => if suspensions > 0 {
                (
                    SinkModel::Processing { suspensions: (suspensions - 1) as nat, outcome },
                    Ok(SinkPoll::Pending),
                )
            } else {
                match outcome {
                    Ok(sum) => (SinkModel::Accepting { sum }, Ok(SinkPoll::Accepting)),
                    Err(failure) => (SinkModel::Terminated, Ok(SinkPoll::Ready(Err(failure)))),
                }
            },
            SinkModel::Finishing { suspensions, outcome } => if suspensions > 0 {
                (
                    SinkModel::Finishing { suspensions: (suspensions - 1) as nat, outcome },
                    Ok(SinkPoll::Pending),
                )
            } else {
                (SinkModel::Terminated, Ok(SinkPoll::Ready(outcome)))
            },
            SinkModel::Accepting { sum } => (self, Ok(SinkPoll::Accepting)),
            SinkModel::Terminated => (self, Err(ProtocolViolation::Terminated)),
        }
    }

    /// The model after one advance with `feed`, and what the advance returns,
    /// for a sink that runs `each` on every item and `finish` at the end of
    /// input.
    pub open spec fn step(self, each: Block, finish: Block, feed: Feed) -> (
        SinkModel,
        Result<SinkPoll, ProtocolViolation>,
    ) {
        match (self, feed) {
            (SinkModel::Terminated, _) => (self, Err(ProtocolViolation::Terminated)),
            (_, Feed::Continue) => self.work(),
            (SinkModel::Accepting { sum }, Feed::Item(item)) => match settle(Ok(item), sum) {
                Ok(total) => SinkModel::processing(each, total).work(),
                Err(failure) => (SinkModel::Terminated, Ok(SinkPoll::Ready(Err(failure)))),
            },
            (SinkModel::Accepting { sum }, Feed::End) => SinkModel::finishing(finish, sum).work(),
            (SinkModel::Processing { .. }, _) => (self, Err(ProtocolViolation::NotReady)),
            (SinkModel::Finishing { .. }, _) => (self, Err(ProtocolViolation::InputEnded)),
        }
    }
}

/// The sum of `items`.
pub open spec fn total(items: Seq<u64>) -> nat
    decreases items.len(),
{
    if items.len() == 0 {
        0
    } else {
        total(items.drop_last()) + items.last() as nat
    }
}

impl SinkModel {
    /// The model after each of `items` has been fed in turn, one advance
    /// each.
    pub open spec fn fed(self, each: Block, finish: Block, items: Seq<u64>) -> SinkModel
        decreases items.len(),
    {
        if items.len() == 0 {
            self
        } else {
            self.fed(each, finish, items.drop_last()).step(
                each,
                finish,
                Feed::Item(items.last()),
            ).0
        }
    }
}

/// Where a sink stands.
enum Phase {
    Accepting,
    Processing,
    Finishing,
    Terminated,
}

/// A coroutine that consumes items one at a time and ends with one value.
///
/// It keeps the sum of what it has consumed. An item is added to the sum and
/// the block `each` then runs on the sum; at the end of input the block
/// `finish` runs on it, and its result is the sink's. Either block may pause:
/// the sink then takes no further input until the block has run to its end,
/// so items are processed in the order in which they arrive, one at a time.
pub struct SinkTransform {
    each: Coroutine,
    finish: Coroutine,
    sum: u64,
    phase: Phase,
}

impl View for SinkTransform {
    type V = SinkModel;

    closed spec fn view(&self) -> SinkModel {
        match self.phase {
            Phase::Accepting => SinkModel::Accepting { sum: self.sum },
            Phase::Processing => match self.each@ {
                Progress::Running(run) => SinkModel::Processing {
                    suspensions: run.events.len(),
                    outcome: run.end,
                },
                Progress::Finished => SinkModel::Terminated,
            },
            Phase::Finishing => match self.finish@ {
                Progress::Running(run) => SinkModel::Finishing {
                    suspensions: run.events.len(),
                    outcome: run.end,
                },
                Progress::Finished => SinkModel::Terminated,
            },
            Phase::Terminated => SinkModel::Terminated,
        }
    }
}

/// Whether a coroutine in hand is still running and emits nothing.
spec fn only_pends(progress: Progress) -> bool {
    progress matches Progress::Running(run) && forall|k: int|
        0 <= k < run.events.len() ==> #[trigger] run.events[k] == Event::Pending
}

impl SinkTransform {
    /// The invariant of the type: both blocks have the shape of a future, and
    /// the coroutine in hand is running.
    #[verifier::type_invariant]
    spec fn sound(self) -> bool {
        &&& self.each.block().future_shaped()
        &&& self.finish.block().future_shaped()
        &&& self.phase is Processing ==> only_pends(self.each@)
        &&& self.phase is Finishing ==> only_pends(self.finish@)
    }

    /// The block that runs on every item.
    pub closed spec fn each(&self) -> Block {
        self.each.block()
    }

    /// The block that runs at the end of input.
    pub closed spec fn finish(&self) -> Block {
        self.finish.block()
    }

    /// A sink that runs `each` on every item and `finish` at the end of
    /// input, with an empty sum. Blocks that have not the shape of a future
    /// are refused.
    pub fn new(each: Block, finish: Block) -> (sink: Option<Self>)
        ensures
            sink is Some <==> each.future_shaped() && finish.future_shaped(),
            sink matches Some(s) ==> {
                &&& s.each() == each
                &&& s.finish() == finish
                &&& s@ == SinkModel::Accepting { sum: 0 }
            },
    {
        if !each.is_future_shaped() || !finish.is_future_shaped() {
            return None;
        }
        Some(
            SinkTransform {
                each: Coroutine::new(each, 0),
                finish: Coroutine::new(finish, 0),
                sum: 0,
                phase: Phase::Accepting,
            },
        )
    }

    /// Runs the coroutine in hand for one step.
    fn work(&mut self, wake: &mut WakeHandle) -> (result: Result<SinkPoll, ProtocolViolation>)
        requires
            old(self)@.busy(),
        ensures
            final(self).each() == old(self).each(),
            final(self).finish() == old(self).finish(),
            (final(self)@, result) == old(self)@.work(),
            final(wake).is_signalled() == (old(wake).is_signalled() || result == Ok::<
                SinkPoll,
                ProtocolViolation,
            >(SinkPoll::Pending)),
    {
        proof {
            use_type_invariant(&*self);
        }
        // The coroutine in hand is worked on outside `self`, which holds a
        // parked one meanwhile.
        match self.phase {
            Phase::Processing => {
                let mut each = Coroutine::parked();
                core::mem::swap(&mut each, &mut self.each);
                let result = match each.resume(wake) {
                    Ok(Step::Yielded(_)) => Ok(SinkPoll::Pending),
                    Ok(Step::Completed(Ok(sum))) => {
                        self.phase = Phase::Accepting;
                        self.sum = sum;
                        Ok(SinkPoll::Accepting)
                    },
                    Ok(Step::Completed(Err(failure))) => {
                        self.phase = Phase::Terminated;
                        Ok(SinkPoll::Ready(Err(failure)))
                    },
                    Err(violation) => Err(violation),
                };
                self.each = each;
                result
            },
            Phase::Finishing => {
                let mut finish = Coroutine::parked();
                core::mem::swap(&mut finish, &mut self.finish);
                let result = match finish.resume(wake) {
                    Ok(Step::Yielded(_)) => Ok(SinkPoll::Pending),
                    Ok(Step::Completed(outcome)) => {
                        self.phase = Phase::Terminated;
                        Ok(SinkPoll::Ready(outcome))
                    },
                    Err(violation) => Err(violation),
                };
                self.finish = finish;
                result
            },
            Phase::Accepting => Ok(SinkPoll::Accepting),
            Phase::Terminated => Err(ProtocolViolation::Terminated),
        }
    }

    /// Advances the sink with what the driver has for it.
    ///
    /// While it accepts, an item or the end of input starts the work on it,
    /// and `Feed::Continue` only asks again. While it works, only
    /// `Feed::Continue` is in order: the sink reports `Pending` until the
    /// work is done, then accepts again, or, after the end of input, is ready
    /// with its final value. Feeding a sink that is at work, or after the end
    /// of input, or advancing it after its terminal state, is a protocol
    /// violation and changes nothing.
    pub fn advance(&mut self, feed: Feed, wake: &mut WakeHandle) -> (result: Result<
        SinkPoll,
        ProtocolViolation,
    >)
        ensures
            final(self).each() == old(self).each(),
            final(self).finish() == old(self).finish(),
            (final(self)@, result) == old(self)@.step(old(self).each(), old(self).finish(), feed),
            final(wake).is_signalled() == (old(wake).is_signalled() || result == Ok::<
                SinkPoll,
                ProtocolViolation,
            >(SinkPoll::Pending)),
    {
        proof {
            use_type_invariant(&*self);
        }
        match self.phase {
            Phase::Terminated => Err(ProtocolViolation::Terminated),
            Phase::Accepting => match feed {
                Feed::Continue => Ok(SinkPoll::Accepting),
                Feed::Item(item) => match self.sum.checked_add(item) {
                    Some(total) => {
                        proof {
                            lemma_run_without_emit(self.each.block().stmts@, 0, total);
                        }
                        self.each.restart(total);
                        self.phase = Phase::Processing;
                        self.work(wake)
                    },
                    None => {
                        self.phase = Phase::Terminated;
                        Ok(SinkPoll::Ready(Err(Failure::Overflow)))
                    },
                },
                Feed::End => {
                    proof {
                        lemma_run_without_emit(self.finish.block().stmts@, 0, self.sum);
                    }
                    self.finish.restart(self.sum);
                    self.phase = Phase::Finishing;
                    self.work(wake)
                },
            },
            Phase::Processing => match feed {
                Feed::Continue => self.work(wake),
                _ => Err(ProtocolViolation::NotReady),
            },
            Phase::Finishing => match feed {
                Feed::Continue => self.work(wake),
                _ => Err(ProtocolViolation::InputEnded),
            },
        }
    }
}

} // verus!
