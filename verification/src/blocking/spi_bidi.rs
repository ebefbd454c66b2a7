//! Blocking Bidirectional SPI API: buffer and sequence transfers that poll
//! a non-blocking peripheral until every step completes or hard-fails.

use crate::spi_bidi::{read_aborted, read_ok_log, write_aborted, write_ok_log, Event};
use vstd::prelude::*;

verus! {

/// Blocking read
pub trait Read<W>: Sized {
    /// Error type
    type Error;

    /// The calls the underlying peripheral has observed so far.
    spec fn log(&self) -> Seq<Event<W, Self::Error>>;

    /// Reads `words` from the responder, blocking until the whole buffer is
    /// filled or the peripheral reports a hard error. On success the log
    /// grew by one direction setup and one read per position, in order,
    /// with the last read flagged; on an error the call that failed is the
    /// log's last entry, it carries the very error value handed back, and
    /// every position filled before it keeps the word fetched for it. An
    /// empty buffer is defined here to issue the direction setup, no reads,
    /// and succeed.
    fn try_read(&mut self, words: &mut Vec<W>) -> (r: Result<(), Self::Error>)
        ensures
            final(words).len() == old(words).len(),
            r is Ok ==> final(self).log() == read_ok_log(old(self).log(), final(words)@),
            r matches Err(e) ==> read_aborted(
                old(self).log(),
                final(self).log(),
                old(words)@,
                final(words)@,
                e,
            ),
    ;
}

/// Blocking write
pub trait Write<W>: Sized {
    /// Error type
    type Error;

    /// The calls the underlying peripheral has observed so far.
    spec fn log(&self) -> Seq<Event<W, Self::Error>>;

    /// Sends `words` to the responder, blocking until every word and the
    /// finish step completed or the peripheral reports a hard error. On
    /// success the log grew by one direction setup, the sends in order and
    /// exactly one finish step, the empty buffer included; on an error the
    /// call that failed is the log's last entry, carrying the very error
    /// value handed back, and nothing was issued after it.
    fn try_write(&mut self, words: &Vec<W>) -> (r: Result<(), Self::Error>)
        ensures
            r is Ok ==> final(self).log() == write_ok_log(old(self).log(), words@),
            r matches Err(e) ==> write_aborted(old(self).log(), final(self).log(), words@, e),
    ;
}

/// Blocking iter-read
pub trait ReadIter<W>: Sized {
    /// Error type
    type Error;

    /// The calls the underlying peripheral has observed so far.
    spec fn log(&self) -> Seq<Event<W, Self::Error>>;

    /// Reads `words` from the responder, filling the sequence in order by a
    /// one-slot lookahead, so the final read is flagged without the length
    /// being inspected ahead of the walk. The contract is that of
    /// `Read::try_read`: an empty sequence issues the direction setup and
    /// no reads.
    fn try_read_iter(&mut self, words: &mut Vec<W>) -> (r: Result<(), Self::Error>)
        ensures
            final(words).len() == old(words).len(),
            r is Ok ==> final(self).log() == read_ok_log(old(self).log(), final(words)@),
            r matches Err(e) ==> read_aborted(
                old(self).log(),
                final(self).log(),
                old(words)@,
                final(words)@,
                e,
            ),
    ;
}

/// Blocking iter-write
pub trait WriteIter<W>: Sized {
    /// Error type
    type Error;

    /// The calls the underlying peripheral has observed so far.
    spec fn log(&self) -> Seq<Event<W, Self::Error>>;

    /// Sends `words` to the responder, consuming the sequence. The contract
    /// is that of `Write::try_write`: the finish step runs even for an
    /// empty sequence.
    fn try_write_iter(&mut self, words: Vec<W>) -> (r: Result<(), Self::Error>)
        ensures
            r is Ok ==> final(self).log() == write_ok_log(old(self).log(), words@),
            r matches Err(e) ==> write_aborted(old(self).log(), final(self).log(), words@, e),
    ;
}

} // verus!
