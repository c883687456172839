//! The contract between a resumable computation and its driver.

use vstd::prelude::*;

verus! {

/// Why a computation ended without a value.
#[derive(Debug, Clone, Copy, PartialEq, Eq)]
pub enum Failure {
    /// The block gave up with this code.
    Code(u64),
    /// An addition did not fit in 64 bits.
    Overflow,
}

/// A misuse of a computation by its driver. It is never recoverable: the
/// computation that reports it stays as it was.
#[derive(Debug, Clone, Copy, PartialEq, Eq)]
pub enum ProtocolViolation {
    /// The computation was advanced after it had reported a terminal state.
    Terminated,
    /// A sink was fed while it was still working on what it had.
    NotReady,
    /// A sink was fed after it had been told that no more input would come.
    InputEnded,
}

/// What a driver observes when a computation pauses.
#[derive(Debug, Clone, Copy, PartialEq, Eq)]
pub enum Event {
    /// Nothing to hand over yet; the wake handle was signalled.
    Pending,
    /// A value emitted to the driver.
    Item(u64),
}

/// What advancing a computation with a single result returns.
#[derive(Debug, Clone, Copy, PartialEq, Eq)]
pub enum Poll {
    /// Not finished; the wake handle was signalled.
    Pending,
    /// Finished, with its value or with its failure. Terminal.
    Ready(Result<u64, Failure>),
}

/// What advancing a computation that produces a sequence returns.
#[derive(Debug, Clone, Copy, PartialEq, Eq)]
pub enum StreamPoll {
    /// No item yet; the wake handle was signalled.
    Pending,
    /// The next item of the sequence.
    Item(u64),
    /// The sequence is over. Terminal.
    End,
    /// The computation failed; no further item will come. Terminal.
    Failed(Failure),
}

/// What a driver hands to a sink when it advances it.
#[derive(Debug, Clone, Copy, PartialEq, Eq)]
pub enum Feed {
    /// Nothing: go on with what you have.
    Continue,
    /// The next item.
    Item(u64),
    /// No more items will come.
    End,
}

/// What advancing a computation that consumes a sequence returns.
#[derive(Debug, Clone, Copy, PartialEq, Eq)]
pub enum SinkPoll {
    /// Still working on what it was given; the wake handle was signalled.
    Pending,
    /// Ready for the next item, or for the end of input.
    Accepting,
    /// Finished, with its final value or with its failure. Terminal.
    Ready(Result<u64, Failure>),
}

/// The signal by which a paused computation asks to be polled again.
///
/// Signalling is idempotent: any number of signals before the driver next
/// looks collapse into one.
#[derive(Debug)]
pub struct WakeHandle {
    signalled: bool,
}

impl WakeHandle {
    /// Whether a poll has been asked for since the driver last looked.
    pub closed spec fn is_signalled(&self) -> bool {
        self.signalled
    }

    /// A handle on which nothing has been signalled.
    pub fn new() -> (handle: Self)
        ensures
            !handle.is_signalled(),
    {
        WakeHandle { signalled: false }
    }

    /// Asks the driver to poll again.
    pub fn wake(&mut self)
        ensures
            final(self).is_signalled(),
    {
        self.signalled = true;
    }

    /// Reads the signal without clearing it.
    pub fn signalled(&self) -> (set: bool)
        ensures
            set == self.is_signalled(),
    {
        self.signalled
    }

    /// The driver's side: reads the signal and clears it.
    pub fn take(&mut self) -> (was_set: bool)
        ensures
            was_set == old(self).is_signalled(),
            !final(self).is_signalled(),
    {
        let was_set = self.signalled;
        self.signalled = false;
        was_set
    }
}

} // verus!
