//! The per-stream copy loop, as a state machine.
//!
//! A forwarder pulls chunks from one byte source, normalizes their line
//! endings, and hands the bytes to one sink, reporting a completion signal
//! when the stream ends.  The reading and writing themselves happen outside;
//! the forwarder here is the verified part: from its rolling state and the
//! event that just happened, it decides what is written next, whether the
//! read is retried, or with which signal the stream is finished.

use vstd::prelude::*;

use crate::normalize::{CR, LF, last_seen, normalize_bytes};

verus! {

/// The terminal status a forwarder reports exactly once when it stops.
#[derive(Clone, Copy, Debug, PartialEq, Eq, Structural)]
pub enum Completion {
    /// The stream ended cleanly (end of stream, or either side closed its
    /// pipe).
    Success,
    /// An unrecoverable read or write error ended the stream.
    Failure,
}

/// The reason a read or write on a stream failed, as far as the forwarder's
/// decisions depend on it.
#[derive(Clone, Copy, Debug, PartialEq, Eq, Structural)]
pub enum StreamErrorKind {
    /// The operation was interrupted and may simply be retried.
    Interrupted,
    /// The source ended in the middle of an expected read.
    UnexpectedEof,
    /// The other end of the pipe was closed.
    BrokenPipe,
    /// Any other operating-system error.
    Other,
}

/// What just happened on the stream the forwarder drives.
#[derive(Debug, PartialEq, Eq)]
pub enum StreamEvent {
    /// A read delivered these bytes.
    Data(Vec<u8>),
    /// A read returned zero bytes: clean end of stream.
    ReadEof,
    /// A read failed with this kind of error.
    ReadFailed(StreamErrorKind),
    /// A write or flush of earlier output failed with this kind of error.
    WriteFailed(StreamErrorKind),
}

/// What the surrounding copy loop must do next.
#[derive(Debug, PartialEq, Eq)]
pub enum StreamAction {
    /// Write these bytes to the sink, flushing after each one.
    Write(Vec<u8>),
    /// Retry the read that was interrupted.
    RetryRead,
    /// Flush once more, report this signal, and stop.
    Finish(Completion),
}

/// How a failed read ends or continues the loop: an interrupted read is
/// retried; the source ending or either pipe closing is a clean finish; any
/// other error is a failure.
pub open spec fn read_failure_action(k: StreamErrorKind) -> StreamAction {
    match k {
        StreamErrorKind::Interrupted => StreamAction::RetryRead,
        StreamErrorKind::UnexpectedEof => StreamAction::Finish(Completion::Success),
        StreamErrorKind::BrokenPipe => StreamAction::Finish(Completion::Success),
        StreamErrorKind::Other => StreamAction::Finish(Completion::Failure),
    }
}

/// How a failed write finishes the loop: the consumer closing its end is a
/// clean finish, anything else a failure.
pub open spec fn write_failure_completion(k: StreamErrorKind) -> Completion {
    if k == StreamErrorKind::BrokenPipe {
        Completion::Success
    } else {
        Completion::Failure
    }
}

/// One forwarder's state: the last byte seen on its stream, carried across
/// chunks and reads, or `None` before the first byte.
pub struct Forwarder {
    prev: Option<u8>,
}

impl View for Forwarder {
    type V = Option<u8>;

    closed spec fn view(&self) -> Option<u8> {
        self.prev
    }
}

impl Forwarder {
    /// A forwarder that has seen no byte yet.
    pub fn new() -> (f: Forwarder)
        ensures
            f@ == None::<u8>,
    {
        Forwarder { prev: None }
    }

    /// Normalizes one chunk of input, rolling the previous-byte state along,
    /// and returns exactly the bytes to write for it.
    pub fn push_chunk(&mut self, chunk: &[u8]) -> (out: Vec<u8>)
        ensures
            out@ == normalize_bytes(old(self)@, chunk@),
            final(self)@ == last_seen(old(self)@, chunk@),
    {
        let mut prev: Option<u8> = self.prev;
        let mut out: Vec<u8> = Vec::new();
        let mut i: usize = 0;
        while i < chunk.len()
            invariant
                i <= chunk@.len(),
                out@ == normalize_bytes(old(self)@, chunk@.take(i as int)),
                prev == last_seen(old(self)@, chunk@.take(i as int)),
            decreases chunk@.len() - i,
        {
            let b = chunk[i];
            let was_cr = match prev {
                Some(p) => p == CR,
                None => false,
            };
            if b == LF && !was_cr {
                out.push(CR);
            }
            out.push(b);
            proof {
                crate::normalize::lemma_normalize_snoc(old(self)@, chunk@.take(i as int), b);
                assert(chunk@.take(i + 1) =~= chunk@.take(i as int).push(b));
            }
            prev = Some(b);
            i = i + 1;
        }
        proof {
            assert(chunk@.take(chunk@.len() as int) =~= chunk@);
        }
        self.prev = prev;
        out
    }

    /// One step of the copy loop: from the event that just happened, the
    /// action to take next.  Only delivered data advances the previous-byte
    /// state.
    pub fn step(&mut self, event: StreamEvent) -> (action: StreamAction)
        ensures
            match event {
                StreamEvent::Data(bytes) => {
                    &&& action matches StreamAction::Write(out) && out@ == normalize_bytes(
                        old(self)@,
                        bytes@,
                    )
                    &&& final(self)@ == last_seen(old(self)@, bytes@)
                },
                StreamEvent::ReadEof => {
                    &&& action == StreamAction::Finish(Completion::Success)
                    &&& final(self)@ == old(self)@
                },
                StreamEvent::ReadFailed(k) => {
                    &&& action == read_failure_action(k)
                    &&& final(self)@ == old(self)@
                },
                StreamEvent::WriteFailed(k) => {
                    &&& action == StreamAction::Finish(write_failure_completion(k))
                    &&& final(self)@ == old(self)@
                },
            },
    {
        match event {
            StreamEvent::Data(bytes) => {
                let out = self.push_chunk(bytes.as_slice());
                StreamAction::Write(out)
            },
            StreamEvent::ReadEof => StreamAction::Finish(Completion::Success),
            StreamEvent::ReadFailed(k) => match k {
                StreamErrorKind::Interrupted => StreamAction::RetryRead,
                StreamErrorKind::UnexpectedEof => StreamAction::Finish(Completion::Success),
                StreamErrorKind::BrokenPipe => StreamAction::Finish(Completion::Success),
                StreamErrorKind::Other => StreamAction::Finish(Completion::Failure),
            },
            StreamEvent::WriteFailed(k) => match k {
                StreamErrorKind::BrokenPipe => StreamAction::Finish(Completion::Success),
                _ => StreamAction::Finish(Completion::Failure),
            },
        }
    }
}

/// The exit coordinator's rule: the first signal to arrive decides the
/// program's outcome, and only a clean `Success` counts as success.
pub fn completion_is_success(c: Completion) -> (r: bool)
    ensures
        r <==> c == Completion::Success,
{
    match c {
        Completion::Success => true,
        Completion::Failure => false,
    }
}

} // verus!
