//! The connection: a write half and a read half of one transport, each behind
//! a cell so that many senders can share the connection by reference.

use vstd::prelude::*;
use std::cell::{BorrowMutError, RefCell, RefMut};
use crate::error::ConnError;
use crate::message::Message;
use crate::shared::{content, granted};
use crate::transport::{transmit, IrcReader, IrcWriter};

verus! {

/// One transport, owned for as long as the connection lives. Each half can be
/// handed out to one user at a time; the two halves do not contend.
#[verifier::reject_recursive_types(T)]
#[verifier::reject_recursive_types(U)]
pub struct Connection<T: IrcWriter, U: IrcReader> {
    writer: RefCell<T>,
    reader: RefCell<U>,
    /// The two halves as they were handed over when the connection was made.
    made_of: Ghost<(T, U)>,
}

impl<T: IrcWriter, U: IrcReader> Connection<T, U> {
    /// The write half as it was when the connection was made. What the half
    /// becomes later happens behind its cell and is not told here.
    pub closed spec fn initial_writer(&self) -> T {
        self.made_of@.0
    }

    /// The read half as it was when the connection was made.
    pub closed spec fn initial_reader(&self) -> U {
        self.made_of@.1
    }

    /// A connection over the two halves of an established transport, which it
    /// takes as they are: nothing is written or read on the way. This cannot
    /// fail.
    pub fn new(writer: T, reader: U) -> (r: Result<Connection<T, U>, std::io::Error>)
        ensures
            r matches Ok(c) && c.initial_writer() == writer && c.initial_reader() == reader,
    {
        let made_of = Ghost((writer, reader));
        Ok(Connection { writer: RefCell::new(writer), reader: RefCell::new(reader), made_of })
    }

    /// Sends `msg` as it is, with nothing added, and flushes.
    pub fn send_internal(&self, msg: &str) -> (r: Result<(), ConnError>)
        ensures
            r matches Err(e) ==> e is Busy || e is Io,
    {
        sent_through(self.writer.try_borrow_mut(), msg)
    }

    /// Encodes `msg` and sends the line. A message without parameters is
    /// refused before the writer is touched.
    pub fn send(&self, msg: Message) -> (r: Result<(), ConnError>)
        ensures
            (r matches Err(e) && e is NoArguments) <==> msg@.args.len() == 0,
    {
        match msg.to_line() {
            Ok(line) => self.send_internal(line.as_str()),
            Err(e) => Err(e),
        }
    }

    /// Exclusive access to the write half, until the handle goes out of use.
    pub fn writer<'a>(&'a self) -> (r: Result<RefMut<'a, T>, ConnError>)
        ensures
            r matches Err(e) ==> e is Busy,
    {
        granted(self.writer.try_borrow_mut())
    }

    /// Exclusive access to the read half, until the handle goes out of use.
    pub fn reader<'a>(&'a self) -> (r: Result<RefMut<'a, U>, ConnError>)
        ensures
            r matches Err(e) ==> e is Busy,
    {
        granted(self.reader.try_borrow_mut())
    }
}

/// What becomes of `text` for an attempt to borrow the write half. While the
/// half is with someone else the answer is `Busy` and nothing is written.
/// With the handle, `text` is transmitted to what the handle gives access to,
/// and the only failure is the transport's.
pub fn sent_through<'a, W: IrcWriter>(
    attempt: Result<RefMut<'a, W>, BorrowMutError>,
    text: &str,
) -> (r: Result<(), ConnError>)
    ensures
        attempt is Err ==> r matches Err(ConnError::Busy),
        attempt is Ok ==> (r matches Err(e) ==> e is Io),
{
    match granted(attempt) {
        Ok(mut handle) => transmit(content(&mut handle), text),
        Err(e) => Err(e),
    }
}

} // verus!
