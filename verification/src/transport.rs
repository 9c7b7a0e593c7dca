//! The two halves of a transport as the connection needs them, and the
//! in-memory halves that stand in for a socket.

use vstd::prelude::*;
use vstd::string::*;
use crate::error::ConnError;

verus! {

/// An account of what a writer has done with the bytes given to it.
pub struct Traffic {
    /// Every byte that has reached the transport, oldest first.
    pub sent: Seq<u8>,
    /// The bytes that were accepted and are still held back in a buffer.
    pub pending: Seq<u8>,
    /// Whether writing to and flushing the writer cannot fail.
    pub reliable: bool,
}

impl Traffic {
    /// What becomes of the account when `data` is accepted: it stands behind
    /// everything accepted before, and what was sent stays sent.
    pub open spec fn accepts(self, data: Seq<u8>, after: Traffic) -> bool {
        &&& after.sent + after.pending == self.sent + self.pending + data
        &&& self.sent.is_prefix_of(after.sent)
        &&& after.reliable == self.reliable
    }

    /// The account after a flush: what was pending has been sent.
    pub open spec fn flushed(self) -> Traffic {
        Traffic { sent: self.sent + self.pending, pending: Seq::empty(), reliable: self.reliable }
    }

    /// The account after `bytes` were written and flushed: what was pending
    /// and then `bytes` have been sent, and nothing is held back.
    pub open spec fn delivered(self, bytes: Seq<u8>) -> Traffic {
        Traffic {
            sent: self.sent + self.pending + bytes,
            pending: Seq::empty(),
            reliable: self.reliable,
        }
    }
}

/// The write half of a transport: a byte sink that may buffer and can be
/// flushed.
///
/// A writer may keep an account of its traffic. Where it does, every call
/// that succeeds moves the account as stated here, and a reliable writer
/// never fails. A failed call leaves the account unspecified. A writer
/// without an account promises nothing.
pub trait IrcWriter {
    /// The writer's account of its traffic; `None` where it keeps none.
    open spec fn traffic(&self) -> Option<Traffic> {
        None
    }

    /// Accepts all of `data`.
    fn write_all(&mut self, data: &[u8]) -> (r: Result<(), std::io::Error>)
        ensures
            old(self).traffic() matches Some(before) ==> {
                &&& before.reliable ==> r is Ok
                &&& r is Ok ==> (final(self).traffic() matches Some(after) && before.accepts(
                    data@,
                    after,
                ))
            },
    ;

    /// Hands everything that is pending to the transport.
    fn flush(&mut self) -> (r: Result<(), std::io::Error>)
        ensures
            old(self).traffic() matches Some(before) ==> {
                &&& before.reliable ==> r is Ok
                &&& r is Ok ==> final(self).traffic() == Some(before.flushed())
            },
    ;
}

/// The read half of a transport: a source of lines.
pub trait IrcReader {
    /// The next line with its terminator as it was received, or `None` once
    /// the stream has ended.
    fn read_line(&mut self) -> (r: Result<Option<String>, std::io::Error>);
}

/// What a caller gets for the outcome of a write or a flush: success stays
/// success, and a failure is the transport's own error, unchanged.
pub fn surfaced(outcome: Result<(), std::io::Error>) -> (r: Result<(), ConnError>)
    ensures
        outcome is Ok ==> r is Ok,
        outcome matches Err(e) ==> r matches Err(ConnError::Io(f)) && f == e,
{
    match outcome {
        Ok(()) => Ok(()),
        Err(e) => Err(ConnError::Io(e)),
    }
}

/// Writes `text` as it is, with nothing added, and flushes at once, so that
/// nothing written here is still buffered when the call returns. The only
/// failure is the transport's.
pub fn transmit<W: IrcWriter>(writer: &mut W, text: &str) -> (r: Result<(), ConnError>)
    ensures
        r matches Err(e) ==> e is Io,
        old(writer).traffic() matches Some(before) ==> {
            &&& before.reliable ==> r is Ok
            &&& r is Ok ==> final(writer).traffic() == Some(before.delivered(text.spec_bytes()))
        },
{
    match surfaced(writer.write_all(text.as_bytes())) {
        Ok(()) => surfaced(writer.flush()),
        Err(e) => Err(e),
    }
}

/// Two transmissions in a row put both texts on the wire whole and in call
/// order: the account is the same as after one transmission of the first
/// text's bytes followed by the second's.
pub proof fn lemma_delivered_twice(before: Traffic, first: Seq<u8>, second: Seq<u8>)
    ensures
        before.delivered(first).delivered(second) == before.delivered(first + second),
        before.delivered(first).delivered(second).sent == before.sent + before.pending + first
            + second,
{
    assert(before.delivered(first).delivered(second).sent =~= before.delivered(
        first + second,
    ).sent);
}

/// A writer that keeps everything in memory. It never buffers and never
/// fails: what is written is sent.
pub struct MemWriter {
    buf: Vec<u8>,
}

impl View for MemWriter {
    type V = Seq<u8>;

    closed spec fn view(&self) -> Seq<u8> {
        self.buf@
    }
}

impl MemWriter {
    /// A writer that holds nothing yet.
    pub fn new() -> (w: MemWriter)
        ensures
            w@ == Seq::<u8>::empty(),
    {
        MemWriter { buf: Vec::new() }
    }

    /// Everything written so far.
    pub fn get_ref(&self) -> (bytes: &[u8])
        ensures
            bytes@ == self@,
    {
        self.buf.as_slice()
    }

    /// Gives up the writer for what was written to it.
    pub fn into_inner(self) -> (bytes: Vec<u8>)
        ensures
            bytes@ == self@,
    {
        self.buf
    }
}

impl IrcWriter for MemWriter {
    open spec fn traffic(&self) -> Option<Traffic> {
        Some(Traffic { sent: self@, pending: Seq::empty(), reliable: true })
    }

    fn write_all(&mut self, data: &[u8]) -> (r: Result<(), std::io::Error>)
        ensures
            r is Ok,
            final(self)@ == old(self)@ + data@,
    {
        self.buf.extend_from_slice(data);
        assert(self.buf@ =~= old(self).buf@ + data@);
        Ok(())
    }

    fn flush(&mut self) -> (r: Result<(), std::io::Error>)
        ensures
            r is Ok,
            final(self)@ == old(self)@,
    {
        Ok(())
    }
}

/// A reader with nothing to read: the stream has already ended.
pub struct NullReader;

impl IrcReader for NullReader {
    fn read_line(&mut self) -> (r: Result<Option<String>, std::io::Error>)
        ensures
            r matches Ok(None),
    {
        Ok(None)
    }
}

} // verus!
