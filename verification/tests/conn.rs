use std::io::{Error, ErrorKind};

use irc::conn::Connection;
use irc::error::ConnError;
use irc::message::Message;
use irc::transport::{IrcReader, IrcWriter, MemWriter, NullReader};

fn data<U: IrcReader>(conn: Connection<MemWriter, U>) -> String {
    let bytes = conn.writer().unwrap().get_ref().to_vec();
    String::from_utf8(bytes).unwrap()
}

/// A writer that holds back what it is given until it is flushed, and that
/// can be told to fail.
struct Buffered {
    sent: Vec<u8>,
    pending: Vec<u8>,
    flushes: usize,
    fail_write: bool,
    fail_flush: bool,
}

impl Buffered {
    fn new() -> Buffered {
        Buffered { sent: Vec::new(), pending: Vec::new(), flushes: 0, fail_write: false, fail_flush: false }
    }
}

impl IrcWriter for Buffered {
    fn write_all(&mut self, data: &[u8]) -> Result<(), Error> {
        if self.fail_write {
            return Err(Error::new(ErrorKind::BrokenPipe, "write refused"));
        }
        self.pending.extend_from_slice(data);
        Ok(())
    }

    fn flush(&mut self) -> Result<(), Error> {
        if self.fail_flush {
            return Err(Error::new(ErrorKind::ConnectionReset, "flush refused"));
        }
        self.flushes += 1;
        let held = std::mem::take(&mut self.pending);
        self.sent.extend_from_slice(&held);
        Ok(())
    }
}

#[test]
fn new_connection() {
    assert!(Connection::new(MemWriter::new(), NullReader).is_ok());
}

#[test]
fn send_internal() {
    let c = Connection::new(MemWriter::new(), NullReader).unwrap();
    c.send_internal("string of text").unwrap();
    assert_eq!(data(c), format!("string of text"));
}

#[test]
fn send() {
    let c = Connection::new(MemWriter::new(), NullReader).unwrap();
    let args = ["flare.to.ca.fyrechat.net"];
    c.send(Message::new("PING", &args, true)).unwrap();
    assert_eq!(data(c), format!("PING :flare.to.ca.fyrechat.net\r\n"));
}

#[test]
fn writer_is_empty_before_the_first_send() {
    let c = Connection::new(MemWriter::new(), NullReader).unwrap();
    assert_eq!(data(c), "");
}

#[test]
fn two_sends_append_two_lines_in_call_order() {
    let c = Connection::new(MemWriter::new(), NullReader).unwrap();
    c.send(Message::new("NICK", &["alice"], false)).unwrap();
    c.send(Message::new("PRIVMSG", &["#rust", "hello there"], true)).unwrap();
    assert_eq!(data(c), "NICK alice\r\nPRIVMSG #rust :hello there\r\n");
}

#[test]
fn send_without_arguments_is_refused_and_writes_nothing() {
    let c = Connection::new(MemWriter::new(), NullReader).unwrap();
    let r = c.send(Message::new("QUIT", &[], false));
    assert!(matches!(r, Err(ConnError::NoArguments)));
    let r = c.send(Message::new("QUIT", &[], true));
    assert!(matches!(r, Err(ConnError::NoArguments)));
    assert_eq!(data(c), "");
}

#[test]
fn send_is_busy_while_the_writer_is_handed_out() {
    let c = Connection::new(MemWriter::new(), NullReader).unwrap();
    {
        let _held = c.writer().unwrap();
        let r = c.send(Message::new("PING", &["x"], true));
        assert!(matches!(r, Err(ConnError::Busy)));
        let r = c.send_internal("raw");
        assert!(matches!(r, Err(ConnError::Busy)));
    }
    assert_eq!(data(c), "");
}

#[test]
fn missing_arguments_are_reported_before_the_writer_is_asked_for() {
    let c = Connection::new(MemWriter::new(), NullReader).unwrap();
    let _held = c.writer().unwrap();
    let r = c.send(Message::new("QUIT", &[], false));
    assert!(matches!(r, Err(ConnError::NoArguments)));
}

#[test]
fn a_half_is_handed_out_to_one_user_at_a_time() {
    let c = Connection::new(MemWriter::new(), NullReader).unwrap();
    let first = c.writer();
    assert!(first.is_ok());
    assert!(matches!(c.writer(), Err(ConnError::Busy)));
    let reading = c.reader();
    assert!(reading.is_ok());
    assert!(matches!(c.reader(), Err(ConnError::Busy)));
}

#[test]
fn the_two_halves_do_not_contend() {
    let c = Connection::new(MemWriter::new(), NullReader).unwrap();
    {
        let _reading = c.reader().unwrap();
        c.send(Message::new("PING", &["x"], false)).unwrap();
        assert!(c.writer().is_ok());
    }
    assert_eq!(data(c), "PING x\r\n");
}

#[test]
fn a_released_handle_frees_its_half() {
    let c = Connection::new(MemWriter::new(), NullReader).unwrap();
    {
        let _held = c.writer().unwrap();
        assert!(c.send_internal("a").is_err());
    }
    c.send_internal("b").unwrap();
    {
        let _held = c.reader().unwrap();
    }
    assert!(c.reader().is_ok());
    assert_eq!(data(c), "b");
}

#[test]
fn raw_write_through_the_writer_handle_adds_nothing() {
    let c = Connection::new(MemWriter::new(), NullReader).unwrap();
    {
        let mut w = c.writer().unwrap();
        w.write_all("string of text".as_bytes()).unwrap();
        w.flush().unwrap();
    }
    assert_eq!(data(c), "string of text");
}

#[test]
fn raw_writes_and_sends_share_one_stream() {
    let c = Connection::new(MemWriter::new(), NullReader).unwrap();
    c.writer().unwrap().write_all(b"CAP LS\r\n").unwrap();
    c.send(Message::new("NICK", &["bob"], false)).unwrap();
    c.send_internal("tail").unwrap();
    assert_eq!(data(c), "CAP LS\r\nNICK bob\r\ntail");
}

#[test]
fn the_reader_handle_reads_from_the_read_half() {
    let c = Connection::new(MemWriter::new(), NullReader).unwrap();
    let line = c.reader().unwrap().read_line().unwrap();
    assert_eq!(line, None);
}

#[test]
fn send_flushes_before_it_returns() {
    let c = Connection::new(Buffered::new(), NullReader).unwrap();
    c.send(Message::new("PING", &["x"], true)).unwrap();
    {
        let w = c.writer().unwrap();
        assert_eq!(w.sent, b"PING :x\r\n".to_vec());
        assert!(w.pending.is_empty());
        assert_eq!(w.flushes, 1);
    }
    c.send_internal("raw").unwrap();
    let w = c.writer().unwrap();
    assert_eq!(w.sent, b"PING :x\r\nraw".to_vec());
    assert!(w.pending.is_empty());
    assert_eq!(w.flushes, 2);
}

#[test]
fn send_flushes_what_a_raw_write_left_pending() {
    let c = Connection::new(Buffered::new(), NullReader).unwrap();
    c.writer().unwrap().write_all(b"held ").unwrap();
    assert!(c.writer().unwrap().sent.is_empty());
    c.send_internal("back").unwrap();
    let w = c.writer().unwrap();
    assert_eq!(w.sent, b"held back".to_vec());
    assert!(w.pending.is_empty());
}

#[test]
fn a_write_failure_is_surfaced_unchanged() {
    let mut w = Buffered::new();
    w.fail_write = true;
    let c = Connection::new(w, NullReader).unwrap();
    match c.send(Message::new("PING", &["x"], true)) {
        Err(ConnError::Io(e)) => {
            assert_eq!(e.kind(), ErrorKind::BrokenPipe);
            assert_eq!(e.to_string(), "write refused");
        }
        other => panic!("unexpected outcome: {:?}", other),
    }
    let w = c.writer().unwrap();
    assert!(w.sent.is_empty());
    assert_eq!(w.flushes, 0);
}

#[test]
fn a_flush_failure_is_surfaced_unchanged() {
    let mut w = Buffered::new();
    w.fail_flush = true;
    let c = Connection::new(w, NullReader).unwrap();
    match c.send_internal("text") {
        Err(ConnError::Io(e)) => {
            assert_eq!(e.kind(), ErrorKind::ConnectionReset);
            assert_eq!(e.to_string(), "flush refused");
        }
        other => panic!("unexpected outcome: {:?}", other),
    }
}

#[test]
fn text_goes_out_as_utf8() {
    let c = Connection::new(MemWriter::new(), NullReader).unwrap();
    c.send(Message::new("PRIVMSG", &["#caf\u{e9}", "na\u{ef}ve \u{2603}"], true)).unwrap();
    let bytes = c.writer().unwrap().get_ref().to_vec();
    let mut expected: Vec<u8> = Vec::new();
    expected.extend_from_slice(b"PRIVMSG #caf");
    expected.extend_from_slice(&[0xc3, 0xa9]);
    expected.extend_from_slice(b" :na");
    expected.extend_from_slice(&[0xc3, 0xaf]);
    expected.extend_from_slice(b"ve ");
    expected.extend_from_slice(&[0xe2, 0x98, 0x83]);
    expected.extend_from_slice(&[0x0d, 0x0a]);
    assert_eq!(bytes, expected);
}

#[test]
fn every_line_ends_in_the_two_terminator_bytes() {
    let c = Connection::new(MemWriter::new(), NullReader).unwrap();
    c.send(Message::new("PING", &["x"], false)).unwrap();
    let bytes = c.writer().unwrap().get_ref().to_vec();
    assert_eq!(&bytes[bytes.len() - 2..], &[0x0d, 0x0a]);
    assert_eq!(bytes.iter().filter(|b| **b == 0x0a).count(), 1);
}
