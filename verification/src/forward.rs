//! The forward combinator: a stream pumped into a sink under backpressure.

use vstd::prelude::*;
use crate::block::{Block, settle};
use crate::coroutine::Progress;
use crate::future::FutureModel;
use crate::protocol::{
    Event, Failure, Feed, Poll, ProtocolViolation, SinkPoll, StreamPoll, WakeHandle,
};
use crate::sink::{SinkModel, SinkTransform};
use crate::stream::{StreamTransform, stream_step};

verus! {

/// How many events a stream still holds.
pub open spec fn events_left(stream: Progress) -> nat {
    match stream {
        Progress::Running(run) => run.events.len(),
        Progress::Finished => 0,
    }
}

/// How the combinator presents what the sink answered to an item or to the
/// end of input, when the sink does not simply accept again.
pub open spec fn relay(answer: Result<SinkPoll, ProtocolViolation>) -> Result<
    Poll,
    ProtocolViolation,
> {
    match answer {
        Ok(SinkPoll::Pending) => Ok(Poll::Pending),
        Ok(SinkPoll::Ready(outcome)) => Ok(Poll::Ready(outcome)),
        Ok(SinkPoll::Accepting) => Err(ProtocolViolation::NotReady),
        Err(violation) => Err(violation),
    }
}

/// One advance of the combinator over the models of its two sides: the two
/// models afterwards, and what the advance returns.
///
/// The sink is asked first whether it is ready. Only a sink that accepts has
/// the stream advanced for it: an item is fed to the sink, and the pumping
/// goes on if the sink took it at once; the end of the stream is fed to the
/// sink as the end of input; a pending stream leaves the sink alone; a failed
/// stream is the failure of the whole.
pub open spec fn pump(stream: Progress, sink: SinkModel, each: Block, finish: Block) -> (
    Progress,
    SinkModel,
    Result<Poll, ProtocolViolation>,
)
    decreases events_left(stream),
{
    let (ready_sink, ready) = sink.step(each, finish, Feed::Continue);
    if ready != Ok::<SinkPoll, ProtocolViolation>(SinkPoll::Accepting) {
        (stream, ready_sink, relay(ready))
    } else {
        let (pulled_stream, pulled) = stream_step(stream);
        match pulled {
            Ok(StreamPoll::Item(item)) => {
                let (fed_sink, fed) = ready_sink.step(each, finish, Feed::Item(item));
                if fed == Ok::<SinkPoll, ProtocolViolation>(SinkPoll::Accepting) {
                    pump(pulled_stream, fed_sink, each, finish)
                } else {
                    (pulled_stream, fed_sink, relay(fed))
                }
            },
            Ok(StreamPoll::End) => {
                let (fed_sink, fed) = ready_sink.step(each, finish, Feed::End);
                (pulled_stream, fed_sink, relay(fed))
            },
            Ok(StreamPoll::Pending) => (pulled_stream, ready_sink, Ok(Poll::Pending)),
            Ok(StreamPoll::Failed(failure)) => (
                pulled_stream,
                ready_sink,
                Ok(Poll::Ready(Err(failure))),
            ),
            Err(violation) => (pulled_stream, ready_sink, Err(violation)),
        }
    }
}

/// What a whole session comes to, seen from a sink that accepts with `sum`
/// as its sum and a stream that still holds `events` and will then end with
/// `end`: how often the session will be found pending, which is once for
/// every pause of the stream and of the sink's work on each item in turn, and
/// what it will then be ready with, which is the result of the sink's
/// finalisation, or the first failure on the way.
pub open spec fn forwarded(
    events: Seq<Event>,
    end: Result<u64, Failure>,
    sum: u64,
    each: Block,
    finish: Block,
) -> (nat, Result<u64, Failure>)
    decreases events.len(),
{
    if events.len() == 0 {
        match end {
            Err(failure) => (0, Err(failure)),
            Ok(_) => (finish.run(sum).events.len(), finish.run(sum).end),
        }
    } else {
        match events[0] {
            Event::Pending => {
                let (pauses, outcome) = forwarded(events.skip(1), end, sum, each, finish);
                (pauses + 1, outcome)
            },
            Event::Item(item) => match settle(Ok(item), sum) {
                Err(failure) => (0, Err(failure)),
                Ok(total) => match each.run(total).end {
                    Err(failure) => (each.run(total).events.len(), Err(failure)),
                    Ok(next) => {
                        let (pauses, outcome) = forwarded(events.skip(1), end, next, each, finish);
                        (each.run(total).events.len() + pauses, outcome)
                    },
                },
            },
        }
    }
}

/// How many of `events` are pauses.
pub open spec fn pauses_in(events: Seq<Event>) -> nat
    decreases events.len(),
{
    if events.len() == 0 {
        0
    } else {
        pauses_in(events.skip(1)) + match events[0] {
            Event::Pending => 1nat,
            Event::Item(_) => 0nat,
        }
    }
}

/// The sum of the items among `events`.
pub open spec fn items_total(events: Seq<Event>) -> nat
    decreases events.len(),
{
    if events.len() == 0 {
        0
    } else {
        items_total(events.skip(1)) + match events[0] {
            Event::Pending => 0nat,
            Event::Item(item) => item as nat,
        }
    }
}

/// The model of a forwarding session: the models of its two sides, or that
/// it has reported its terminal state.
#[verifier::ext_equal]
pub enum ForwardModel {
    Running { stream: Progress, sink: SinkModel },
    Terminated,
}

impl ForwardModel {
    /// Whether the session is one that a stream and a sink can be in
    /// together: a sink that accepts, or will accept again, has a stream
    /// that has not ended, and the sink has not ended on its own.
    pub open spec fn sound(self) -> bool {
        match self {
            ForwardModel::Running { stream, sink } => match sink {
                SinkModel::Accepting { .. } => stream is Running,
                SinkModel::Processing { outcome, .. } => outcome is Ok ==> stream is Running,
                SinkModel::Finishing { .. } => true,
                SinkModel::Terminated => false,
            },
            ForwardModel::Terminated => true,
        }
    }

    /// The session as the future that it is.
    pub open spec fn as_future(self, each: Block, finish: Block) -> FutureModel {
        match self {
            ForwardModel::Running { stream, sink } => {
                let run = stream->Running_0;
                match sink {
                    SinkModel::Accepting { sum } => FutureModel::Running {
                        suspensions: forwarded(run.events, run.end, sum, each, finish).0,
                        outcome: forwarded(run.events, run.end, sum, each, finish).1,
                    },
                    SinkModel::Processing { suspensions, outcome } => match outcome {
                        Ok(sum) => FutureModel::Running {
                            suspensions: suspensions + forwarded(
                                run.events,
                                run.end,
                                sum,
                                each,
                                finish,
                            ).0,
                            outcome: forwarded(run.events, run.end, sum, each, finish).1,
                        },
                        Err(failure) => FutureModel::Running { suspensions, outcome },
                    },
                    SinkModel::Finishing { suspensions, outcome } => FutureModel::Running {
                        suspensions,
                        outcome,
                    },
                    SinkModel::Terminated => FutureModel::Terminated,
                }
            },
            ForwardModel::Terminated => FutureModel::Terminated,
        }
    }

    /// The model after `n` advances.
    pub open spec fn after(self, each: Block, finish: Block, n: nat) -> ForwardModel
        decreases n,
    {
        if n == 0 {
            self
        } else {
            self.step(each, finish).0.after(each, finish, (n - 1) as nat)
        }
    }

    /// The model after one advance, and what the advance returns, for a sink
    /// that runs `each` on every item and `finish` at the end of input.
    pub open spec fn step(self, each: Block, finish: Block) -> (
        ForwardModel,
        Result<Poll, ProtocolViolation>,
    ) {
        match self {
            ForwardModel::Running { stream, sink } => {
                let (stream, sink, result) = pump(stream, sink, each, finish);
                if result is Ok && result->Ok_0 is Ready {
                    (ForwardModel::Terminated, result)
                } else {
                    (ForwardModel::Running { stream, sink }, result)
                }
            },
            ForwardModel::Terminated => (
                ForwardModel::Terminated,
                Err(ProtocolViolation::Terminated),
            ),
        }
    }
}

/// A stream and a sink, composed into a computation with a single result: the
/// final value of the sink once it has consumed the whole stream, or the
/// first failure of either side.
pub struct Forward {
    stream: StreamTransform,
    sink: SinkTransform,
    done: bool,
}

impl View for Forward {
    type V = ForwardModel;

    closed spec fn view(&self) -> ForwardModel {
        if self.done {
            ForwardModel::Terminated
        } else {
            ForwardModel::Running { stream: self.stream@, sink: self.sink@ }
        }
    }
}

impl Forward {
    /// The block that the sink runs on every item.
    pub closed spec fn each(&self) -> Block {
        self.sink.each()
    }

    /// The block that the sink runs at the end of input.
    pub closed spec fn finish(&self) -> Block {
        self.sink.finish()
    }

    /// Composes `stream` into `sink`.
    pub fn new(stream: StreamTransform, sink: SinkTransform) -> (forward: Self)
        ensures
            forward.each() == sink.each(),
            forward.finish() == sink.finish(),
            forward@ == (ForwardModel::Running { stream: stream@, sink: sink@ }),
    {
        Forward { stream, sink, done: false }
    }

    /// Pumps items from the stream into the sink until one of them pauses or
    /// the sink has its final value.
    ///
    /// The stream is advanced only while the sink accepts: no item is pulled
    /// before the sink is done with the one before. What the sink has
    /// consumed before a failure stays consumed. The terminal state is
    /// reported once; any later advance is a protocol violation and changes
    /// nothing.
    pub fn advance(&mut self, wake: &mut WakeHandle) -> (result: Result<Poll, ProtocolViolation>)
        ensures
            final(self).each() == old(self).each(),
            final(self).finish() == old(self).finish(),
            (final(self)@, result) == old(self)@.step(old(self).each(), old(self).finish()),
            final(wake).is_signalled() == (old(wake).is_signalled() || result == Ok::<
                Poll,
                ProtocolViolation,
            >(Poll::Pending)),
    {
        if self.done {
            return Err(ProtocolViolation::Terminated);
        }
        let ghost each = self.sink.each();
        let ghost finish = self.sink.finish();
        let ghost goal = pump(self.stream@, self.sink@, each, finish);
        loop
            invariant
                !self.done,
                !old(self).done,
                each == old(self).each(),
                finish == old(self).finish(),
                goal == pump(old(self).stream@, old(self).sink@, each, finish),
                self.sink.each() == each,
                self.sink.finish() == finish,
                pump(self.stream@, self.sink@, each, finish) == goal,
                wake.is_signalled() == old(wake).is_signalled(),
            decreases events_left(self.stream@),
        {
            match self.sink.advance(Feed::Continue, wake) {
                Ok(SinkPoll::Accepting) => {},
                Ok(SinkPoll::Pending) => {
                    return Ok(Poll::Pending);
                },
                Ok(SinkPoll::Ready(outcome)) => {
                    self.done = true;
                    return Ok(Poll::Ready(outcome));
                },
                Err(violation) => {
                    return Err(violation);
                },
            }
            let fed = match self.stream.advance(wake) {
                Ok(StreamPoll::Item(item)) => self.sink.advance(Feed::Item(item), wake),
                Ok(StreamPoll::End) => self.sink.advance(Feed::End, wake),
                Ok(StreamPoll::Pending) => {
                    return Ok(Poll::Pending);
                },
                Ok(StreamPoll::Failed(failure)) => {
                    self.done = true;
                    return Ok(Poll::Ready(Err(failure)));
                },
                Err(violation) => {
                    return Err(violation);
                },
            };
            match fed {
                Ok(SinkPoll::Accepting) => {},
                Ok(SinkPoll::Pending) => {
                    return Ok(Poll::Pending);
                },
                Ok(SinkPoll::Ready(outcome)) => {
                    self.done = true;
                    return Ok(Poll::Ready(outcome));
                },
                Err(violation) => {
                    return Err(violation);
                },
            }
        }
    }
}

} // verus!
