//! One outbound protocol line, as data, and its wire form.

use vstd::prelude::*;
use vstd::utf8::{encode_utf8, is_ascii_chars, is_ascii_chars_encode_utf8};
use crate::error::ConnError;

verus! {

/// A protocol line to send: a command, its parameters in order, and whether
/// the last parameter carries the colon that marks a trailing parameter.
///
/// Nothing here is validated or escaped: a command or a parameter goes on the
/// wire exactly as it is given.
#[derive(Debug, PartialEq, Eq)]
pub struct Message {
    pub command: String,
    pub args: Vec<String>,
    pub colon_flag: bool,
}

/// The mathematical content of a [`Message`].
pub struct MessageView {
    pub command: Seq<char>,
    pub args: Seq<Seq<char>>,
    pub colon_flag: bool,
}

/// The parts in order, with exactly one space between neighbours.
pub open spec fn joined(parts: Seq<Seq<char>>) -> Seq<char>
    decreases parts.len(),
{
    if parts.len() == 0 {
        Seq::empty()
    } else if parts.len() == 1 {
        parts[0]
    } else {
        joined(parts.drop_last()) + seq![' '] + parts.last()
    }
}

/// The two characters that end every line.
pub open spec fn crlf() -> Seq<char> {
    seq!['\r', '\n']
}

impl MessageView {
    /// The last parameter as it is written: behind a colon if the flag is set.
    pub open spec fn trailing(self) -> Seq<char>
        recommends
            self.args.len() > 0,
    {
        if self.colon_flag {
            seq![':'] + self.args.last()
        } else {
            self.args.last()
        }
    }

    /// The words of the line: the command, every parameter but the last, and
    /// the trailing parameter.
    pub open spec fn words(self) -> Seq<Seq<char>>
        recommends
            self.args.len() > 0,
    {
        (seq![self.command] + self.args.drop_last()).push(self.trailing())
    }

    /// The line that goes on the wire: the words with single spaces between
    /// them, then CR LF.
    pub open spec fn line(self) -> Seq<char>
        recommends
            self.args.len() > 0,
    {
        joined(self.words()) + crlf()
    }

    /// The bytes of the line: its text in UTF-8.
    pub open spec fn wire(self) -> Seq<u8>
        recommends
            self.args.len() > 0,
    {
        encode_utf8(self.line())
    }
}

impl View for Message {
    type V = MessageView;

    open spec fn view(&self) -> MessageView {
        MessageView {
            command: self.command@,
            args: self.args.deep_view(),
            colon_flag: self.colon_flag,
        }
    }
}

impl Clone for Message {
    /// A second message with the same content.
    fn clone(&self) -> (m: Message)
        ensures
            m@ == self@,
    {
        let m = Message {
            command: self.command.clone(),
            args: self.args.clone(),
            colon_flag: self.colon_flag,
        };
        assert(m@.args =~= self@.args);
        m
    }
}

impl Message {
    /// A message with the given command and parameters.
    pub fn new(command: &str, args: &[&str], colon_flag: bool) -> (m: Message)
        ensures
            m@.command == command@,
            m@.args == args.deep_view(),
            m@.colon_flag == colon_flag,
    {
        let mut owned: Vec<String> = Vec::new();
        let mut i: usize = 0;
        while i < args.len()
            invariant
                i <= args.len(),
                owned.len() == i,
                forall|k: int| 0 <= k < i ==> #[trigger] owned@[k]@ == args@[k]@,
            decreases args.len() - i,
        {
            owned.push(String::from_str(args[i]));
            i += 1;
        }
        let m = Message { command: String::from_str(command), args: owned, colon_flag };
        assert(m@.args =~= args.deep_view());
        m
    }

    /// Encodes the message as one wire line. A message without parameters has
    /// no trailing parameter and is refused.
    pub fn to_line(&self) -> (r: Result<String, ConnError>)
        ensures
            r is Err <==> self@.args.len() == 0,
            r matches Err(e) ==> e is NoArguments,
            r matches Ok(s) ==> s@ == self@.line(),
    {
        let n: usize = self.args.len();
        if n == 0 {
            return Err(ConnError::NoArguments);
        }
        let ghost head = seq![self.command@];
        let ghost parts = self.args.deep_view();
        let mut out = String::from_str(self.command.as_str());
        let mut i: usize = 0;
        assert(head + parts.take(0) =~= head);
        while i < n - 1
            invariant
                n == self.args.len(),
                n > 0,
                i <= n - 1,
                head == seq![self.command@],
                parts == self.args.deep_view(),
                out@ == joined(head + parts.take(i as int)),
            decreases n - i,
        {
            proof {
                reveal_strlit(" ");
                lemma_joined_push(head + parts.take(i as int), parts[i as int]);
                assert((head + parts.take(i as int)).push(parts[i as int]) =~= head + parts.take(
                    i + 1,
                ));
            }
            out.append(" ");
            out.append(self.args[i].as_str());
            i += 1;
        }
        proof {
            reveal_strlit(" ");
            reveal_strlit(":");
            reveal_strlit("\r\n");
            assert(parts.take(n - 1) =~= parts.drop_last());
            lemma_joined_push(head + parts.drop_last(), self@.trailing());
        }
        out.append(" ");
        if self.colon_flag {
            out.append(":");
        }
        out.append(self.args[n - 1].as_str());
        out.append("\r\n");
        assert(out@ =~= self@.line());
        Ok(out)
    }
}


/// One more part behind a sequence that is not empty adds a space and the part.
pub proof fn lemma_joined_push(parts: Seq<Seq<char>>, part: Seq<char>)
    requires
        parts.len() > 0,
    ensures
        joined(parts.push(part)) == joined(parts) + seq![' '] + part,
{
    assert(parts.push(part).drop_last() =~= parts);
}

/// A part in front of a sequence that is not empty is that part, a space,
/// and the rest joined.
pub proof fn lemma_joined_front(part: Seq<char>, rest: Seq<Seq<char>>)
    requires
        rest.len() > 0,
    ensures
        joined(seq![part] + rest) == part + seq![' '] + joined(rest),
    decreases rest.len(),
{
    let all = seq![part] + rest;
    assert(all.drop_last() =~= seq![part] + rest.drop_last());
    assert(all.last() == rest.last());
    if rest.len() == 1 {
        assert(all.drop_last() =~= seq![part]);
        assert(joined(all.drop_last()) == part);
        assert(joined(all) =~= part + seq![' '] + joined(rest));
    } else {
        lemma_joined_front(part, rest.drop_last());
        assert(joined(all) =~= part + seq![' '] + joined(rest));
    }
}

/// With exactly one parameter and no colon flag, the line is the command, a
/// space, the parameter, CR LF.
pub proof fn lemma_line_one_plain(m: MessageView)
    requires
        m.args.len() == 1,
        !m.colon_flag,
    ensures
        m.line() == m.command + seq![' '] + m.args[0] + crlf(),
{
    assert(m.args.drop_last() =~= Seq::<Seq<char>>::empty());
    assert(m.words() =~= seq![m.command].push(m.args[0]));
    lemma_joined_push(seq![m.command], m.args[0]);
}

/// With exactly one parameter and the colon flag, the line is the command, a
/// space, a colon, the parameter, CR LF.
pub proof fn lemma_line_one_colon(m: MessageView)
    requires
        m.args.len() == 1,
        m.colon_flag,
    ensures
        m.line() == m.command + seq![' ', ':'] + m.args[0] + crlf(),
{
    assert(m.args.drop_last() =~= Seq::<Seq<char>>::empty());
    assert(m.words() =~= seq![m.command].push(m.trailing()));
    lemma_joined_push(seq![m.command], m.trailing());
    assert(m.line() =~= m.command + seq![' ', ':'] + m.args[0] + crlf());
}

/// With two or more parameters, the line is the command, a space, the
/// parameters before the last with single spaces between them, a space, the
/// last parameter behind its colon if the flag is set, CR LF: nothing stands
/// between the last parameter and the end of the line.
pub proof fn lemma_line_many(m: MessageView)
    requires
        m.args.len() >= 2,
    ensures
        m.line() == m.command + seq![' '] + joined(m.args.drop_last()) + seq![' '] + m.trailing()
            + crlf(),
{
    lemma_joined_push(seq![m.command] + m.args.drop_last(), m.trailing());
    lemma_joined_front(m.command, m.args.drop_last());
}

/// The UTF-8 bytes of two texts in a row are the bytes of the first, then the
/// bytes of the second.
pub proof fn lemma_utf8_concat(a: Seq<char>, b: Seq<char>)
    ensures
        encode_utf8(a + b) == encode_utf8(a) + encode_utf8(b),
    decreases a.len(),
{
    if a.len() == 0 {
        assert(a + b =~= b);
        assert(encode_utf8(a + b) =~= encode_utf8(a) + encode_utf8(b));
    } else {
        assert((a + b).drop_first() =~= a.drop_first() + b);
        lemma_utf8_concat(a.drop_first(), b);
        assert(encode_utf8(a + b) =~= encode_utf8(a) + encode_utf8(b));
    }
}

/// On the wire every line ends in the two bytes CR LF, behind the bytes of
/// its words.
pub proof fn lemma_wire_ends_in_crlf(m: MessageView)
    ensures
        m.wire() == encode_utf8(joined(m.words())) + seq![0x0du8, 0x0au8],
{
    lemma_utf8_concat(joined(m.words()), crlf());
    assert(is_ascii_chars(crlf()));
    is_ascii_chars_encode_utf8(crlf());
    assert(encode_utf8(crlf()) =~= seq![0x0du8, 0x0au8]);
}

/// Encoding is a function of the message alone: whatever `to_line` returns
/// for two messages with the same content, both runs succeed or both refuse,
/// and two lines are the same text and the same bytes.
pub proof fn lemma_encoding_is_a_function(
    a: Message,
    b: Message,
    x: Result<String, ConnError>,
    y: Result<String, ConnError>,
)
    requires
        a@ == b@,
        x is Err <==> a@.args.len() == 0,
        x matches Err(e) ==> e is NoArguments,
        x matches Ok(s) ==> s@ == a@.line(),
        y is Err <==> b@.args.len() == 0,
        y matches Err(e) ==> e is NoArguments,
        y matches Ok(s) ==> s@ == b@.line(),
    ensures
        x is Ok <==> y is Ok,
        x is Err ==> x->Err_0 is NoArguments && y->Err_0 is NoArguments,
        x is Ok ==> x->Ok_0@ == y->Ok_0@ && encode_utf8(x->Ok_0@) == encode_utf8(y->Ok_0@),
{
}

} // verus!
