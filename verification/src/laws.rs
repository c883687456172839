//! What holds of every computation, whatever its block.

use vstd::prelude::*;
use crate::block::{
    Block, Run, Stmt, adds_only, constants_from, emits_nothing, lemma_run_adds_up,
    lemma_run_without_pause, pauses_nowhere, run_from, settle,
};
use crate::coroutine::{Progress, Step};
use crate::forward::{ForwardModel, forwarded, items_total, pauses_in, pump, relay};
use crate::future::FutureModel;
use crate::protocol::{Event, Failure, Feed, Poll, ProtocolViolation, SinkPoll, StreamPoll};
use crate::sink::{SinkModel, total};
use crate::stream::{present, stream_step};

verus! {

/// A future whose block has no suspension point is ready at its first
/// advance, with the result of the block.
pub proof fn law_single_completion(block: Block)
    requires
        pauses_nowhere(block.stmts@),
    ensures
        block.future_shaped(),
        FutureModel::of(block).step() == (
            FutureModel::Terminated,
            Ok::<Poll, ProtocolViolation>(Poll::Ready(block.run(0).end)),
        ),
{
    lemma_pauseless_is_future_shaped(block.stmts@);
    lemma_run_without_pause(block.stmts@, 0, 0);
}

/// A future whose block only adds constants, by itself or in blocks that it
/// awaits, is ready at its first advance with their sum, if the sum fits in
/// 64 bits.
pub proof fn law_completion_value(block: Block)
    requires
        adds_only(block.stmts@),
        constants_from(block.stmts@, 0) <= u64::MAX,
    ensures
        FutureModel::of(block).step() == (
            FutureModel::Terminated,
            Ok::<Poll, ProtocolViolation>(
                Poll::Ready(Ok(constants_from(block.stmts@, 0) as u64)),
            ),
        ),
{
    lemma_run_adds_up(block.stmts@, 0, 0);
}

/// A block without suspension points has the shape of a future.
pub proof fn lemma_pauseless_is_future_shaped(stmts: Seq<Stmt>)
    requires
        pauses_nowhere(stmts),
    ensures
        emits_nothing(stmts),
    decreases stmts,
{
    assert forall|j: int| 0 <= j < stmts.len() implies match #[trigger] stmts[j] {
        Stmt::Emit => false,
        Stmt::Await(inner) | Stmt::Recover(inner, _) => emits_nothing(inner.stmts@),
        _ => true,
    } by {
        if let Some(inner) = stmts[j].awaited() {
            lemma_pauseless_is_future_shaped(inner.stmts@);
        }
    }
}

/// Awaiting a block adds no suspension point and passes the result on: a
/// block that does nothing but await another, from zero, runs as the other
/// does.
pub proof fn law_await_is_transparent(outer: Block, inner: Block)
    requires
        outer.stmts@ == seq![Stmt::Await(inner)],
    ensures
        outer.run(0) == inner.run(0),
{
    let stmts = outer.stmts@;
    let awaited = inner.run(0);
    assert(stmts[0] == Stmt::Await(inner));
    if let Ok(sum) = settle(awaited.end, 0) {
        assert(run_from(stmts, 1, sum) == Run { events: Seq::<Event>::empty(), end: Ok(sum) });
        assert(awaited.events + Seq::<Event>::empty() =~= awaited.events);
    }
}

/// A future that will be found pending `suspensions` times is found pending
/// at each of its first `suspensions` advances, is ready with its outcome at
/// the next, and answers every advance after that with a protocol violation.
pub proof fn law_pending_until_ready(suspensions: nat, outcome: Result<u64, Failure>, k: nat)
    ensures
        ({
            let future = FutureModel::Running { suspensions, outcome };
            &&& k < suspensions ==> future.after(k).step() == (
                FutureModel::Running { suspensions: (suspensions - k - 1) as nat, outcome },
                Ok::<Poll, ProtocolViolation>(Poll::Pending),
            )
            &&& k == suspensions ==> future.after(k).step() == (
                FutureModel::Terminated,
                Ok::<Poll, ProtocolViolation>(Poll::Ready(outcome)),
            )
            &&& k > suspensions ==> future.after(k).step() == (
                FutureModel::Terminated,
                Err::<Poll, ProtocolViolation>(ProtocolViolation::Terminated),
            )
        }),
    decreases k,
{
    let future = FutureModel::Running { suspensions, outcome };
    if k > 0 {
        if suspensions > 0 {
            law_pending_until_ready((suspensions - 1) as nat, outcome, (k - 1) as nat);
        } else {
            lemma_terminated_future_stays(( k - 1) as nat);
        }
    }
}

/// A future that has reported its terminal state stays as it is, however
/// often it is advanced.
pub proof fn lemma_terminated_future_stays(n: nat)
    ensures
        FutureModel::Terminated.after(n) == FutureModel::Terminated,
    decreases n,
{
    if n > 0 {
        lemma_terminated_future_stays((n - 1) as nat);
    }
}

/// A future that awaits a block which pauses once is found pending once, and
/// is then ready with the result of that block.
pub proof fn law_suspension_round_trip(outer: Block, inner: Block)
    requires
        outer.stmts@ == seq![Stmt::Await(inner)],
        inner.run(0).events == seq![Event::Pending],
    ensures
        FutureModel::of(outer).step().1 == Ok::<Poll, ProtocolViolation>(Poll::Pending),
        FutureModel::of(outer).step().0.step() == (
            FutureModel::Terminated,
            Ok::<Poll, ProtocolViolation>(Poll::Ready(inner.run(0).end)),
        ),
{
    law_await_is_transparent(outer, inner);
}

/// A finished coroutine stays finished, however often it is resumed.
pub proof fn lemma_finished_stays(n: nat)
    ensures
        Progress::Finished.after(n) == Progress::Finished,
    decreases n,
{
    if n > 0 {
        lemma_finished_stays((n - 1) as nat);
    }
}

/// A coroutine hands its events to its driver in order, one for each
/// resumption, and then its end.
pub proof fn law_events_in_order(run: Run, k: nat)
    ensures
        k <= run.events.len() ==> Progress::Running(run).after(k) == Progress::Running(
            Run { events: run.events.skip(k as int), end: run.end },
        ),
        k > run.events.len() ==> Progress::Running(run).after(k) == Progress::Finished,
    decreases k,
{
    if k == 0 {
        assert(run.events.skip(0) =~= run.events);
    } else if run.events.len() > 0 {
        law_events_in_order(run.tail(), (k - 1) as nat);
        if k <= run.events.len() {
            assert(run.tail().events.skip(k - 1) =~= run.events.skip(k as int));
        }
    } else {
        lemma_finished_stays((k - 1) as nat);
    }
}

/// A stream yields what its block emits, in the order in which the block
/// emits it, then reports its end once, and answers every advance after that
/// with a protocol violation.
pub proof fn law_stream_order(run: Run, k: nat)
    ensures
        k < run.events.len() ==> stream_step(Progress::Running(run).after(k)).1 == Ok::<
            StreamPoll,
            ProtocolViolation,
        >(present(Step::Yielded(run.events[k as int]))),
        k == run.events.len() ==> stream_step(Progress::Running(run).after(k)) == (
            Progress::Finished,
            Ok::<StreamPoll, ProtocolViolation>(present(Step::Completed(run.end))),
        ),
        k > run.events.len() ==> stream_step(Progress::Running(run).after(k)) == (
            Progress::Finished,
            Err::<StreamPoll, ProtocolViolation>(ProtocolViolation::Terminated),
        ),
{
    law_events_in_order(run, k);
}

/// A sink that only sums, fed any items and then the end of input, is ready
/// with the sum of the items and of the constant that its finalisation adds,
/// if that fits in 64 bits.
pub proof fn law_sink_accumulates(each: Block, finish: Block, items: Seq<u64>, constant: u64)
    requires
        each.stmts@.len() == 0,
        finish.stmts@ == seq![Stmt::Add(constant)],
        total(items) + constant <= u64::MAX,
    ensures
        (SinkModel::Accepting { sum: 0 }).fed(each, finish, items) == (SinkModel::Accepting {
            sum: total(items) as u64,
        }),
        (SinkModel::Accepting { sum: 0 }).fed(each, finish, items).step(each, finish, Feed::End)
            == (
            SinkModel::Terminated,
            Ok::<SinkPoll, ProtocolViolation>(
                SinkPoll::Ready(Ok((total(items) + constant) as u64)),
            ),
        ),
{
    lemma_items_add_up(each, finish, items);
    lemma_finish_adds(finish, constant, total(items) as u64);
}

/// A sink whose work on an item is only to add it holds, after any items
/// whose sum fits in 64 bits, that sum, and accepts.
pub proof fn lemma_items_add_up(each: Block, finish: Block, items: Seq<u64>)
    requires
        each.stmts@.len() == 0,
        total(items) <= u64::MAX,
    ensures
        (SinkModel::Accepting { sum: 0 }).fed(each, finish, items) == (SinkModel::Accepting {
            sum: total(items) as u64,
        }),
    decreases items.len(),
{
    if items.len() > 0 {
        lemma_items_add_up(each, finish, items.drop_last());
    }
}

/// The run of a block that only adds one constant.
proof fn lemma_finish_adds(finish: Block, constant: u64, sum: u64)
    requires
        finish.stmts@ == seq![Stmt::Add(constant)],
    ensures
        finish.run(sum) == if sum + constant <= u64::MAX {
            Run { events: Seq::<Event>::empty(), end: Ok((sum + constant) as u64) }
        } else {
            Run { events: Seq::<Event>::empty(), end: Err(Failure::Overflow) }
        },
{
    let stmts = finish.stmts@;
    assert(stmts[0] == Stmt::Add(constant));
    if let Ok(total) = settle(Ok(constant), sum) {
        assert(run_from(stmts, 1, total) == Run { events: Seq::<Event>::empty(), end: Ok(total) });
    }
}

/// Backpressure: while the sink is at work on what it was given, an advance
/// of the combinator leaves the stream as it is. No item is pulled before the
/// sink is done with the one before.
pub proof fn law_backpressure(stream: Progress, sink: SinkModel, each: Block, finish: Block)
    requires
        sink.step(each, finish, Feed::Continue).1 != Ok::<SinkPoll, ProtocolViolation>(
            SinkPoll::Accepting,
        ),
    ensures
        pump(stream, sink, each, finish).0 == stream,
        pump(stream, sink, each, finish).1 == sink.step(each, finish, Feed::Continue).0,
        pump(stream, sink, each, finish).2 == relay(sink.step(each, finish, Feed::Continue).1),
{
}

/// A sink that is still to be found pending keeps the combinator pending and
/// the stream untouched.
pub proof fn law_busy_sink_holds_stream(
    stream: Progress,
    suspensions: nat,
    outcome: Result<u64, Failure>,
    each: Block,
    finish: Block,
)
    requires
        suspensions > 0,
    ensures
        (ForwardModel::Running {
            stream,
            sink: SinkModel::Processing { suspensions, outcome },
        }).step(each, finish) == (
            ForwardModel::Running {
                stream,
                sink: SinkModel::Processing { suspensions: (suspensions - 1) as nat, outcome },
            },
            Ok::<Poll, ProtocolViolation>(Poll::Pending),
        ),
{
}

/// One advance of a session whose sink accepts: it is found pending if the
/// rest of the session holds a pause, and is left one pause shorter; else it
/// is ready with what the session comes to.
proof fn lemma_pump_while_accepting(run: Run, sum: u64, each: Block, finish: Block)
    ensures
        ({
            let (stream, sink, result) = pump(
                Progress::Running(run),
                SinkModel::Accepting { sum },
                each,
                finish,
            );
            let (pauses, outcome) = forwarded(run.events, run.end, sum, each, finish);
            let left = ForwardModel::Running { stream, sink };
            if pauses > 0 {
                &&& result == Ok::<Poll, ProtocolViolation>(Poll::Pending)
                &&& left.sound()
                &&& left.as_future(each, finish) == FutureModel::Running {
                    suspensions: (pauses - 1) as nat,
                    outcome,
                }
            } else {
                result == Ok::<Poll, ProtocolViolation>(Poll::Ready(outcome))
            }
        }),
    decreases run.events.len(),
{
    let accepting = SinkModel::Accepting { sum };
    assert(accepting.step(each, finish, Feed::Continue) == (
        accepting,
        Ok::<SinkPoll, ProtocolViolation>(SinkPoll::Accepting),
    ));
    if run.events.len() == 0 {
        assert(stream_step(Progress::Running(run)).0 == Progress::Finished);
    } else {
        let rest = run.tail();
        assert(stream_step(Progress::Running(run)).0 == Progress::Running(rest));
        match run.events[0] {
            Event::Pending => {},
            Event::Item(item) => {
                assert(stream_step(Progress::Running(run)).1 == Ok::<
                    StreamPoll,
                    ProtocolViolation,
                >(StreamPoll::Item(item)));
                if let Ok(total) = settle(Ok(item), sum) {
                    let work = each.run(total);
                    assert(accepting.step(each, finish, Feed::Item(item)) == SinkModel::processing(
                        each,
                        total,
                    ).work());
                    if work.events.len() == 0 {
                        if let Ok(next) = work.end {
                            lemma_pump_while_accepting(rest, next, each, finish);
                        }
                    }
                }
            },
        }
    }
}

/// One advance of a session moves it as one advance moves the future that
/// it is.
pub proof fn lemma_forward_steps_as_future(forward: ForwardModel, each: Block, finish: Block)
    requires
        forward.sound(),
    ensures
        forward.step(each, finish).0.sound(),
        forward.as_future(each, finish).step() == (
            forward.step(each, finish).0.as_future(each, finish),
            forward.step(each, finish).1,
        ),
{
    if let ForwardModel::Running { stream, sink } = forward {
        let (ready_sink, ready) = sink.step(each, finish, Feed::Continue);
        if ready == Ok::<SinkPoll, ProtocolViolation>(SinkPoll::Accepting) {
            let sum = ready_sink->sum;
            let run = stream->Running_0;
            assert(pump(stream, sink, each, finish) == pump(stream, ready_sink, each, finish));
            lemma_pump_while_accepting(run, sum, each, finish);
        }
    }
}

/// Forwarding a stream into a sink is a future: advance for advance, a
/// session returns what the future returns that is found pending once for
/// every pause of the stream and of the sink, in the order in which they
/// come, and is then ready with the result of the sink's finalisation on the
/// sum of all items, or with the first failure of either side.
pub proof fn law_forward_is_a_future(forward: ForwardModel, each: Block, finish: Block, k: nat)
    requires
        forward.sound(),
    ensures
        forward.after(each, finish, k).sound(),
        forward.after(each, finish, k).as_future(each, finish) == forward.as_future(
            each,
            finish,
        ).after(k),
        forward.after(each, finish, k).step(each, finish).1 == forward.as_future(
            each,
            finish,
        ).after(k).step().1,
    decreases k,
{
    if k > 0 {
        lemma_forward_steps_as_future(forward, each, finish);
        law_forward_is_a_future(forward.step(each, finish).0, each, finish, (k - 1) as nat);
    }
    lemma_forward_steps_as_future(forward.after(each, finish, k), each, finish);
}

/// A session that starts with a stream not yet ended and a sink that accepts
/// is found pending at each of its first advances, as many as the session
/// holds pauses, is ready at the next with what the session comes to, and
/// answers every advance after that with a protocol violation.
pub proof fn law_forward_result(run: Run, sum: u64, each: Block, finish: Block, k: nat)
    ensures
        ({
            let session = ForwardModel::Running {
                stream: Progress::Running(run),
                sink: SinkModel::Accepting { sum },
            };
            let (pauses, outcome) = forwarded(run.events, run.end, sum, each, finish);
            let result = session.after(each, finish, k).step(each, finish).1;
            &&& k < pauses ==> result == Ok::<Poll, ProtocolViolation>(Poll::Pending)
            &&& k == pauses ==> result == Ok::<Poll, ProtocolViolation>(Poll::Ready(outcome))
            &&& k > pauses ==> result == Err::<Poll, ProtocolViolation>(
                ProtocolViolation::Terminated,
            )
        }),
{
    let session = ForwardModel::Running {
        stream: Progress::Running(run),
        sink: SinkModel::Accepting { sum },
    };
    let (pauses, outcome) = forwarded(run.events, run.end, sum, each, finish);
    law_forward_is_a_future(session, each, finish, k);
    law_pending_until_ready(pauses, outcome, k);
}

/// Forwarded into a sink that only sums, a stream that ends without failure
/// comes to the sum of its items and of the constant that the sink's
/// finalisation adds, after as many pauses as the stream holds, if that sum
/// fits in 64 bits.
pub proof fn law_forward_sums(
    events: Seq<Event>,
    end: u64,
    sum: u64,
    each: Block,
    finish: Block,
    constant: u64,
)
    requires
        each.stmts@.len() == 0,
        finish.stmts@ == seq![Stmt::Add(constant)],
        sum + items_total(events) + constant <= u64::MAX,
    ensures
        forwarded(events, Ok(end), sum, each, finish) == (
            pauses_in(events),
            Ok::<u64, Failure>((sum + items_total(events) + constant) as u64),
        ),
    decreases events.len(),
{
    if events.len() == 0 {
        lemma_finish_adds(finish, constant, sum);
    } else {
        match events[0] {
            Event::Pending => {
                law_forward_sums(events.skip(1), end, sum, each, finish, constant);
            },
            Event::Item(item) => {
                let total = (sum + item) as u64;
                law_forward_sums(events.skip(1), end, total, each, finish, constant);
            },
        }
    }
}

/// What is left of a run once `first` has been run to its end: the run of
/// `second` after it, unless `first` failed.
pub open spec fn followed_by(first: Run, second: Seq<Stmt>) -> Run {
    match first.end {
        Err(_) => first,
        Ok(acc) => run_from(second, 0, acc).after_events(first.events),
    }
}

/// Within the second of two sequences of statements put one after the other,
/// the run is that of the second sequence alone.
pub proof fn lemma_run_of_suffix(first: Seq<Stmt>, second: Seq<Stmt>, j: int, acc: u64)
    requires
        0 <= j,
    ensures
        run_from(first + second, first.len() + j, acc) == run_from(second, j, acc),
    decreases second.len() - j,
{
    let both = first + second;
    let i = first.len() + j;
    if j < second.len() {
        assert(both[i] == second[j]);
        match second[j] {
            Stmt::Add(k) => {
                if let Ok(sum) = settle(Ok(k), acc) {
                    lemma_run_of_suffix(first, second, j + 1, sum);
                }
            },
            Stmt::Fail(_) => {},
            Stmt::Suspend => {
                lemma_run_of_suffix(first, second, j + 1, acc);
            },
            Stmt::Emit => {
                lemma_run_of_suffix(first, second, j + 1, 0);
            },
            Stmt::Await(inner) | Stmt::Recover(inner, _) => {
                if let Ok(sum) = settle(second[j].handles(inner.run(0)).end, acc) {
                    lemma_run_of_suffix(first, second, j + 1, sum);
                }
            },
        }
    }
}

/// Statements run in the order in which they are written: the run of two
/// sequences of statements put one after the other is the run of the first,
/// followed, unless the first fails, by the run of the second on what the
/// first has left in the accumulator.
pub proof fn law_sequence(first: Seq<Stmt>, second: Seq<Stmt>, i: int, acc: u64)
    requires
        0 <= i <= first.len(),
    ensures
        run_from(first + second, i, acc) == followed_by(run_from(first, i, acc), second),
    decreases first.len() - i,
{
    let both = first + second;
    if i == first.len() {
        lemma_run_of_suffix(first, second, 0, acc);
        assert(Seq::<Event>::empty() + run_from(second, 0, acc).events =~= run_from(
            second,
            0,
            acc,
        ).events);
    } else {
        assert(both[i] == first[i]);
        match first[i] {
            Stmt::Add(k) => {
                if let Ok(sum) = settle(Ok(k), acc) {
                    law_sequence(first, second, i + 1, sum);
                }
            },
            Stmt::Fail(_) => {},
            Stmt::Suspend => {
                law_sequence(first, second, i + 1, acc);
                lemma_sequence_after(
                    seq![Event::Pending],
                    run_from(first, i + 1, acc),
                    second,
                );
            },
            Stmt::Emit => {
                law_sequence(first, second, i + 1, 0);
                lemma_sequence_after(
                    seq![Event::Item(acc)],
                    run_from(first, i + 1, 0),
                    second,
                );
            },
            Stmt::Await(inner) | Stmt::Recover(inner, _) => {
                if let Ok(sum) = settle(first[i].handles(inner.run(0)).end, acc) {
                    law_sequence(first, second, i + 1, sum);
                    lemma_sequence_after(
                        inner.run(0).events,
                        run_from(first, i + 1, sum),
                        second,
                    );
                }
            },
        }
    }
}

/// Events in front of a run stay in front of what follows it.
proof fn lemma_sequence_after(events: Seq<Event>, first: Run, second: Seq<Stmt>)
    ensures
        followed_by(first.after_events(events), second) == followed_by(
            first,
            second,
        ).after_events(events),
{
    if let Ok(acc) = first.end {
        let rest = run_from(second, 0, acc);
        assert((events + first.events) + rest.events =~= events + (first.events + rest.events));
    }
}

/// A block that fails at some statement ends there: nothing after that
/// statement runs, and no suspension point after it is reached.
pub proof fn law_failure_cuts_short(stmts: Seq<Stmt>, i: int, acc: u64, code: u64)
    requires
        0 <= i < stmts.len(),
        stmts[i] == Stmt::Fail(code),
    ensures
        run_from(stmts, i, acc) == (Run {
            events: Seq::empty(),
            end: Err(Failure::Code(code)),
        }),
{
}

/// The failure of an awaited block is the failure of the block that awaits
/// it: the outer block ends where the inner one does.
pub proof fn law_failure_passes_outward(stmts: Seq<Stmt>, i: int, acc: u64, inner: Block)
    requires
        0 <= i < stmts.len(),
        stmts[i] == Stmt::Await(inner),
        inner.run(0).end is Err,
    ensures
        run_from(stmts, i, acc) == inner.run(0),
{
}

/// A failure that its await point handles does not end the outer block: the
/// block goes on after the await point with the fallback added.
pub proof fn law_handled_failure_goes_on(
    stmts: Seq<Stmt>,
    i: int,
    acc: u64,
    inner: Block,
    fallback: u64,
)
    requires
        0 <= i < stmts.len(),
        stmts[i] == Stmt::Recover(inner, fallback),
        inner.run(0).end is Err,
        acc + fallback <= u64::MAX,
    ensures
        run_from(stmts, i, acc) == run_from(stmts, i + 1, (acc + fallback) as u64).after_events(
            inner.run(0).events,
        ),
{
}

/// Once a sink has been told that no more input will come, it never asks for
/// input again: it works on its finalisation until it is ready, and is then
/// in its terminal state.
pub proof fn law_no_request_after_end(sink: SinkModel, each: Block, finish: Block, feed: Feed)
    ensures
        sink is Accepting ==> !(sink.step(each, finish, Feed::End).0 is Accepting) && !(sink.step(
            each,
            finish,
            Feed::End,
        ).0 is Processing),
        sink is Finishing || sink is Terminated ==> {
            &&& sink.step(each, finish, feed).0 is Finishing || sink.step(each, finish, feed).0
                is Terminated
            &&& sink.step(each, finish, feed).1 != Ok::<SinkPoll, ProtocolViolation>(
                SinkPoll::Accepting,
            )
        },
{
}

/// The terminal state is final: a computation that has reported it answers
/// every further advance with a protocol violation and stays as it is, and a
/// computation that reports the end of its run is from then on in that state.
pub proof fn law_terminal_is_final(
    run: Run,
    future: FutureModel,
    sink: SinkModel,
    forward: ForwardModel,
    each: Block,
    finish: Block,
    feed: Feed,
)
    ensures
        Progress::Finished.step() == (
            Progress::Finished,
            Err::<Step, ProtocolViolation>(ProtocolViolation::Terminated),
        ),
        Progress::Running(run).step().1 is Ok && Progress::Running(run).step().1->Ok_0
            is Completed ==> Progress::Running(run).step().0 == Progress::Finished,
        stream_step(Progress::Finished) == (
            Progress::Finished,
            Err::<StreamPoll, ProtocolViolation>(ProtocolViolation::Terminated),
        ),
        FutureModel::Terminated.step() == (
            FutureModel::Terminated,
            Err::<Poll, ProtocolViolation>(ProtocolViolation::Terminated),
        ),
        future.step().1 is Ok && future.step().1->Ok_0 is Ready ==> future.step().0
            == FutureModel::Terminated,
        SinkModel::Terminated.step(each, finish, feed) == (
            SinkModel::Terminated,
            Err::<SinkPoll, ProtocolViolation>(ProtocolViolation::Terminated),
        ),
        sink.step(each, finish, feed).1 is Ok && sink.step(each, finish, feed).1->Ok_0
            is Ready ==> sink.step(each, finish, feed).0 == SinkModel::Terminated,
        ForwardModel::Terminated.step(each, finish) == (
            ForwardModel::Terminated,
            Err::<Poll, ProtocolViolation>(ProtocolViolation::Terminated),
        ),
        forward.step(each, finish).1 is Ok && forward.step(each, finish).1->Ok_0
            is Ready ==> forward.step(each, finish).0 == ForwardModel::Terminated,
{
}

} // verus!
