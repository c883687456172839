//! The future transform: a coroutine presented as a computation with a
//! single eventual result.

use vstd::prelude::*;
use crate::block::{Block, lemma_run_without_emit};
use crate::coroutine::{Coroutine, Progress, Step};
use crate::protocol::{Event, Failure, Poll, ProtocolViolation, WakeHandle};

verus! {

/// The model of a computation with a single result: how many more times it
/// will be found pending and what it will then be ready with, or that it has
/// already said so.
pub enum FutureModel {
    Running { suspensions: nat, outcome: Result<u64, Failure> },
    Terminated,
}

impl FutureModel {
    /// The model of a block run as a future.
    pub open spec fn of(block: Block) -> FutureModel {
        FutureModel::Running {
            suspensions: block.run(0).events.len(),
            outcome: block.run(0).end,
        }
    }

    /// The model after `n` advances.
    pub open spec fn after(self, n: nat) -> FutureModel
        decreases n,
    {
        if n == 0 {
            self
        } else {
            self.step().0.after((n - 1) as nat)
        }
    }

    /// The model after one advance, and what the advance returns.
    pub open spec fn step(self) -> (FutureModel, Result<Poll, ProtocolViolation>) {
        match self {
            FutureModel::Running { suspensions, outcome } => if suspensions > 0 {
                (
                    FutureModel::Running { suspensions: (suspensions - 1) as nat, outcome },
                    Ok(Poll::Pending),
                )
            } else {
                (FutureModel::Terminated, Ok(Poll::Ready(outcome)))
            },
            FutureModel::Terminated => (
                FutureModel::Terminated,
                Err(ProtocolViolation::Terminated),
            ),
        }
    }
}

/// A coroutine whose block has a single exit, advanced until it is ready.
pub struct FutureTransform {
    coroutine: Coroutine,
}

impl View for FutureTransform {
    type V = FutureModel;

    closed spec fn view(&self) -> FutureModel {
        match self.coroutine@ {
            Progress::Running(run) => FutureModel::Running {
                suspensions: run.events.len(),
                outcome: run.end,
            },
            Progress::Finished => FutureModel::Terminated,
        }
    }
}

impl FutureTransform {
    /// The invariant of the type: the coroutine emits nothing.
    #[verifier::type_invariant]
    spec fn sound(self) -> bool {
        self.coroutine@ matches Progress::Running(run) ==> forall|k: int|
            0 <= k < run.events.len() ==> #[trigger] run.events[k] == Event::Pending
    }

    /// Lifts `block` into a future. A block with an emit point, in itself or
    /// in a block that it awaits, has not the shape of a future and is
    /// refused.
    pub fn new(block: Block) -> (future: Option<Self>)
        ensures
            future is Some <==> block.future_shaped(),
            future matches Some(f) ==> f@ == FutureModel::of(block),
    {
        if !block.is_future_shaped() {
            return None;
        }
        proof {
            lemma_run_without_emit(block.stmts@, 0, 0);
        }
        Some(FutureTransform { coroutine: Coroutine::new(block, 0) })
    }

    /// Advances the computation: pending while its coroutine pauses, ready
    /// with the coroutine's result when it completes.
    ///
    /// The terminal state is reported once. Any later advance is a protocol
    /// violation and changes nothing.
    pub fn advance(&mut self, wake: &mut WakeHandle) -> (result: Result<Poll, ProtocolViolation>)
        ensures
            (final(self)@, result) == old(self)@.step(),
            final(wake).is_signalled() == (old(wake).is_signalled() || result == Ok::<
                Poll,
                ProtocolViolation,
            >(Poll::Pending)),
    {
        proof {
            use_type_invariant(&*self);
        }
        // The coroutine is worked on outside `self`, which holds a parked one
        // meanwhile.
        let mut coroutine = Coroutine::parked();
        core::mem::swap(&mut coroutine, &mut self.coroutine);
        let resumed = coroutine.resume(wake);
        self.coroutine = coroutine;
        match resumed {
            Err(violation) => Err(violation),
            Ok(Step::Yielded(_)) => Ok(Poll::Pending),
            Ok(Step::Completed(outcome)) => Ok(Poll::Ready(outcome)),
        }
    }
}

} // verus!
