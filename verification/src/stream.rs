//! The stream transform: a coroutine presented as a lazily produced
//! sequence.

use vstd::prelude::*;
use crate::block::Block;
use crate::coroutine::{Coroutine, Progress, Step};
use crate::protocol::{Event, ProtocolViolation, StreamPoll, WakeHandle};

verus! {

/// How a stream presents one step of its coroutine: a pause with nothing to
/// hand over is pending, an emitted value is the next item, the end of the
/// block is the end of the sequence, and a failure of the block ends the
/// sequence with that failure.
pub open spec fn present(step: Step) -> StreamPoll {
    match step {
        Step::Yielded(Event::Pending) => StreamPoll::Pending,
        Step::Yielded(Event::Item(value)) => StreamPoll::Item(value),
        Step::Completed(Ok(_)) => StreamPoll::End,
        Step::Completed(Err(failure)) => StreamPoll::Failed(failure),
    }
}

/// The model of a stream after one advance, and what the advance returns.
pub open spec fn stream_step(model: Progress) -> (Progress, Result<StreamPoll, ProtocolViolation>) {
    (
        model.step().0,
        match model.step().1 {
            Ok(step) => Ok(present(step)),
            Err(violation) => Err(violation),
        },
    )
}

/// A coroutine whose emit points produce the items of a sequence. The
/// sequence is produced on demand, once: a stream cannot be started again.
pub struct StreamTransform {
    coroutine: Coroutine,
}

impl View for StreamTransform {
    type V = Progress;

    closed spec fn view(&self) -> Progress {
        self.coroutine@
    }
}

impl StreamTransform {
    /// Lifts `block` into a stream of the values it emits.
    pub fn new(block: Block) -> (stream: Self)
        ensures
            stream@ == Progress::Running(block.run(0)),
    {
        StreamTransform { coroutine: Coroutine::new(block, 0) }
    }

    /// Advances the computation to its next item, to a pause, or to its end.
    ///
    /// After the end, or a failure, any further advance is a protocol
    /// violation and changes nothing.
    pub fn advance(&mut self, wake: &mut WakeHandle) -> (result: Result<
        StreamPoll,
        ProtocolViolation,
    >)
        ensures
            (final(self)@, result) == stream_step(old(self)@),
            final(wake).is_signalled() == (old(wake).is_signalled() || result == Ok::<
                StreamPoll,
                ProtocolViolation,
            >(StreamPoll::Pending)),
    {
        match self.coroutine.resume(wake) {
            Err(violation) => Err(violation),
            Ok(Step::Yielded(Event::Pending)) => Ok(StreamPoll::Pending),
            Ok(Step::Yielded(Event::Item(value))) => Ok(StreamPoll::Item(value)),
            Ok(Step::Completed(Ok(_))) => Ok(StreamPoll::End),
            Ok(Step::Completed(Err(failure))) => Ok(StreamPoll::Failed(failure)),
        }
    }
}

} // verus!
