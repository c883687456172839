use embrio::block::{Block, Stmt};
use embrio::protocol::{Failure, ProtocolViolation, StreamPoll, WakeHandle};
use embrio::stream::StreamTransform;

fn block(stmts: Vec<Stmt>) -> Block {
    Block { stmts }
}

#[test]
fn items_in_order_then_end() {
    let mut wake = WakeHandle::new();
    let mut stream =
        StreamTransform::new(block(vec![Stmt::Add(5), Stmt::Emit, Stmt::Add(6), Stmt::Emit]));
    assert_eq!(stream.advance(&mut wake), Ok(StreamPoll::Item(5)));
    assert_eq!(stream.advance(&mut wake), Ok(StreamPoll::Item(6)));
    assert_eq!(stream.advance(&mut wake), Ok(StreamPoll::End));
    assert!(!wake.signalled());
    assert_eq!(stream.advance(&mut wake), Err(ProtocolViolation::Terminated));
    assert_eq!(stream.advance(&mut wake), Err(ProtocolViolation::Terminated));
}

#[test]
fn pauses_between_items() {
    let mut wake = WakeHandle::new();
    let five = block(vec![Stmt::Suspend, Stmt::Add(5)]);
    let six = block(vec![Stmt::Suspend, Stmt::Add(6)]);
    let mut stream = StreamTransform::new(block(vec![
        Stmt::Await(five),
        Stmt::Emit,
        Stmt::Await(six),
        Stmt::Emit,
        Stmt::Suspend,
    ]));
    assert_eq!(stream.advance(&mut wake), Ok(StreamPoll::Pending));
    assert!(wake.take());
    assert_eq!(stream.advance(&mut wake), Ok(StreamPoll::Item(5)));
    assert!(!wake.signalled());
    assert_eq!(stream.advance(&mut wake), Ok(StreamPoll::Pending));
    assert!(wake.take());
    assert_eq!(stream.advance(&mut wake), Ok(StreamPoll::Item(6)));
    assert_eq!(stream.advance(&mut wake), Ok(StreamPoll::Pending));
    assert!(wake.take());
    assert_eq!(stream.advance(&mut wake), Ok(StreamPoll::End));
}

#[test]
fn empty_stream_ends_at_once() {
    let mut wake = WakeHandle::new();
    let mut stream = StreamTransform::new(block(vec![]));
    assert_eq!(stream.advance(&mut wake), Ok(StreamPoll::End));
    assert_eq!(stream.advance(&mut wake), Err(ProtocolViolation::Terminated));
}

#[test]
fn failure_ends_the_stream() {
    let mut wake = WakeHandle::new();
    let mut stream = StreamTransform::new(block(vec![
        Stmt::Add(1),
        Stmt::Emit,
        Stmt::Fail(9),
        Stmt::Add(2),
        Stmt::Emit,
    ]));
    assert_eq!(stream.advance(&mut wake), Ok(StreamPoll::Item(1)));
    assert_eq!(stream.advance(&mut wake), Ok(StreamPoll::Failed(Failure::Code(9))));
    assert_eq!(stream.advance(&mut wake), Err(ProtocolViolation::Terminated));
}
