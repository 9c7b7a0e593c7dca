//! The line grammar as a receiver reads it, and the law that the messages
//! which keep to the grammar are exactly those that read back from their
//! lines unchanged.
//!
//! Nothing here runs: the library sends and never parses. The reading rules
//! are stated so that the encoder can be held to them.

use vstd::prelude::*;
use vstd::utf8::{decode_utf8, encode_utf8_decode_utf8};
use crate::message::{crlf, joined, lemma_joined_front, MessageView};

verus! {

/// No character of `s` ends a line.
pub open spec fn one_line(s: Seq<char>) -> bool {
    forall|i: int| 0 <= i < s.len() ==> s[i] != '\r' && s[i] != '\n'
}

/// No character of `s` is a space.
pub open spec fn spaceless(s: Seq<char>) -> bool {
    forall|i: int| 0 <= i < s.len() ==> s[i] != ' '
}

/// A word that can stand anywhere in a line: not empty, without a space or a
/// line end, and not beginning with a colon.
pub open spec fn is_middle(w: Seq<char>) -> bool {
    &&& w.len() > 0
    &&& w[0] != ':'
    &&& spaceless(w)
    &&& one_line(w)
}

impl MessageView {
    /// The message keeps to the grammar: there is a last parameter, the
    /// command and every parameter before the last are words, and the last
    /// parameter is a word too unless the colon flag is set, in which case it
    /// may be any text without a line end.
    pub open spec fn conformant(self) -> bool {
        &&& self.args.len() > 0
        &&& is_middle(self.command)
        &&& forall|i: int| 0 <= i < self.args.len() - 1 ==> is_middle(#[trigger] self.args[i])
        &&& if self.colon_flag {
            one_line(self.args.last())
        } else {
            is_middle(self.args.last())
        }
    }
}

/// The characters of `s` before its first space; all of `s` where it has none.
pub open spec fn first_word(s: Seq<char>) -> Seq<char>
    decreases s.len(),
{
    if s.len() == 0 || s[0] == ' ' {
        Seq::empty()
    } else {
        seq![s[0]] + first_word(s.skip(1))
    }
}

/// A first word is never longer than the text it is taken from.
pub proof fn lemma_first_word_len(s: Seq<char>)
    ensures
        first_word(s).len() <= s.len(),
    decreases s.len(),
{
    if s.len() > 0 && s[0] != ' ' {
        lemma_first_word_len(s.skip(1));
    }
}

/// The parameters read from what follows the command. Each stands behind one
/// space. One that begins with a colon is the last: it is the rest of the
/// line behind the colon. `None` where the text is not of that form.
pub open spec fn parse_params(rest: Seq<char>) -> Option<Seq<Seq<char>>>
    decreases rest.len(),
{
    if rest.len() == 0 {
        Some(Seq::empty())
    } else if rest[0] != ' ' {
        None
    } else if rest.len() > 1 && rest[1] == ':' {
        Some(seq![rest.skip(2)])
    } else {
        let word = first_word(rest.skip(1));
        if word.len() == 0 {
            None
        } else {
            proof {
                lemma_first_word_len(rest.skip(1));
            }
            match parse_params(rest.skip(1 + word.len() as int)) {
                Some(more) => Some(seq![word] + more),
                None => None,
            }
        }
    }
}

/// The command and the parameters read from one line: the line ends in CR LF
/// and holds no other line end, the command is its first word, and the
/// parameters follow. `None` where the line is not of that form.
pub open spec fn parse_line(line: Seq<char>) -> Option<(Seq<char>, Seq<Seq<char>>)> {
    if line.len() >= 2 && line.skip(line.len() - 2) == crlf() && one_line(
        line.take(line.len() - 2),
    ) {
        let body = line.take(line.len() - 2);
        let command = first_word(body);
        if command.len() == 0 || command[0] == ':' {
            None
        } else {
            match parse_params(body.skip(command.len() as int)) {
                Some(args) => Some((command, args)),
                None => None,
            }
        }
    } else {
        None
    }
}

/// The parts in order, each one behind a single space.
pub open spec fn spaced(parts: Seq<Seq<char>>) -> Seq<char>
    decreases parts.len(),
{
    if parts.len() == 0 {
        Seq::empty()
    } else {
        seq![' '] + parts[0] + spaced(parts.skip(1))
    }
}

/// The parameters of a message as they are written: every one but the last,
/// then the trailing parameter.
pub open spec fn written(mids: Seq<Seq<char>>, last: Seq<char>, colon_flag: bool) -> Seq<Seq<char>> {
    mids.push(
        if colon_flag {
            seq![':'] + last
        } else {
            last
        },
    )
}

/// Parts joined are the first part and the others behind a space each.
pub proof fn lemma_joined_is_spaced(parts: Seq<Seq<char>>)
    requires
        parts.len() > 0,
    ensures
        joined(parts) == parts[0] + spaced(parts.skip(1)),
    decreases parts.len(),
{
    let rest = parts.skip(1);
    if rest.len() == 0 {
        assert(joined(parts) =~= parts[0] + spaced(rest));
    } else {
        assert(parts =~= seq![parts[0]] + rest);
        lemma_joined_front(parts[0], rest);
        lemma_joined_is_spaced(rest);
        assert(joined(parts) =~= parts[0] + spaced(rest));
    }
}

/// The first word of a spaceless text, followed by nothing or by a space and
/// more, is that text.
pub proof fn lemma_first_word_of(word: Seq<char>, more: Seq<char>)
    requires
        spaceless(word),
        more.len() == 0 || more[0] == ' ',
    ensures
        first_word(word + more) == word,
    decreases word.len(),
{
    let s = word + more;
    if word.len() == 0 {
        assert(s =~= more);
    } else {
        assert(s[0] == word[0]);
        assert(s.skip(1) =~= word.skip(1) + more);
        lemma_first_word_of(word.skip(1), more);
        assert(first_word(s) =~= word);
    }
}

/// A first word holds no space.
pub proof fn lemma_first_word_spaceless(s: Seq<char>)
    ensures
        spaceless(first_word(s)),
    decreases s.len(),
{
    if s.len() > 0 && s[0] != ' ' {
        lemma_first_word_spaceless(s.skip(1));
    }
}

/// Parts behind a space each make a text without a line end exactly where no
/// part holds a line end.
pub proof fn lemma_spaced_one_line(parts: Seq<Seq<char>>)
    ensures
        one_line(spaced(parts)) <==> forall|i: int|
            0 <= i < parts.len() ==> one_line(#[trigger] parts[i]),
    decreases parts.len(),
{
    if parts.len() > 0 {
        let text = spaced(parts);
        let rest = spaced(parts.skip(1));
        lemma_spaced_one_line(parts.skip(1));
        assert(text =~= seq![' '] + parts[0] + rest);
        if one_line(text) {
            assert forall|k: int| 0 <= k < parts[0].len() implies parts[0][k] != '\r' && parts[0][k]
                != '\n' by {
                assert(text[1 + k] == parts[0][k]);
            }
            assert forall|k: int| 0 <= k < rest.len() implies rest[k] != '\r' && rest[k] != '\n' by {
                assert(text[1 + parts[0].len() + k] == rest[k]);
            }
            assert forall|i: int| 0 <= i < parts.len() implies one_line(#[trigger] parts[i]) by {
                if i > 0 {
                    assert(parts[i] == parts.skip(1)[i - 1]);
                }
            }
        }
        if forall|i: int| 0 <= i < parts.len() ==> one_line(#[trigger] parts[i]) {
            assert(one_line(parts[0]));
            assert forall|i: int| 0 <= i < parts.skip(1).len() implies one_line(
                #[trigger] parts.skip(1)[i],
            ) by {
                assert(parts.skip(1)[i] == parts[i + 1]);
            }
        }
    }
}

/// Words and a last parameter, written behind a space each: the parameters
/// read from that are the words and the last parameter, without the colon.
pub proof fn lemma_params_read_back(mids: Seq<Seq<char>>, last: Seq<char>, colon_flag: bool)
    requires
        forall|i: int| 0 <= i < mids.len() ==> is_middle(#[trigger] mids[i]),
        colon_flag || is_middle(last),
    ensures
        parse_params(spaced(written(mids, last, colon_flag))) == Some(mids.push(last)),
    decreases mids.len(),
{
    let parts = written(mids, last, colon_flag);
    let rest = spaced(parts);
    let tail = spaced(parts.skip(1));
    assert(rest =~= seq![' '] + parts[0] + tail);
    if mids.len() == 0 {
        assert(parts.skip(1) =~= Seq::<Seq<char>>::empty());
        if colon_flag {
            // The colon is found at once, and all behind it is the parameter.
            assert(rest[1] == ':');
            assert(rest.skip(2) =~= last);
            assert(mids.push(last) =~= seq![last]);
        } else {
            // The parameter is the one word that is left.
            assert(rest[1] == last[0]);
            assert(rest.skip(1) =~= last + Seq::<char>::empty());
            lemma_first_word_of(last, Seq::empty());
            assert(rest.skip(1 + last.len() as int) =~= Seq::<char>::empty());
            assert(seq![last] + Seq::<Seq<char>>::empty() =~= mids.push(last));
        }
    } else {
        // The first word is read, and the others are read from what follows.
        let word = mids[0];
        assert(is_middle(word));
        assert(parts.skip(1) =~= written(mids.skip(1), last, colon_flag));
        assert(tail =~= seq![' '] + parts.skip(1)[0] + spaced(parts.skip(1).skip(1)));
        assert(rest[1] == word[0]);
        assert(rest.skip(1) =~= word + tail);
        lemma_first_word_of(word, tail);
        assert(rest.skip(1 + word.len() as int) =~= tail);
        lemma_params_read_back(mids.skip(1), last, colon_flag);
        assert(seq![word] + mids.skip(1).push(last) =~= mids.push(last));
    }
}

/// Only words read back as parameters: where the parameters read from words
/// and a last parameter, written behind a space each, are those words and
/// that parameter, every word is a word of the grammar, and the last
/// parameter is one too unless it stands behind the colon.
pub proof fn lemma_params_read_back_only(mids: Seq<Seq<char>>, last: Seq<char>, colon_flag: bool)
    requires
        parse_params(spaced(written(mids, last, colon_flag))) == Some(mids.push(last)),
        one_line(last),
        forall|i: int| 0 <= i < mids.len() ==> one_line(#[trigger] mids[i]),
    ensures
        forall|i: int| 0 <= i < mids.len() ==> is_middle(#[trigger] mids[i]),
        colon_flag || is_middle(last),
    decreases mids.len(),
{
    let parts = written(mids, last, colon_flag);
    let rest = spaced(parts);
    let tail = spaced(parts.skip(1));
    assert(rest =~= seq![' '] + parts[0] + tail);
    if mids.len() == 0 {
        assert(parts.skip(1) =~= Seq::<Seq<char>>::empty());
        if !colon_flag {
            if last.len() == 0 {
                // Nothing stands behind the space, so nothing is read.
                assert(rest.skip(1) =~= Seq::<char>::empty());
                assert(false);
            }
            assert(rest[1] == last[0]);
            if last[0] == ':' {
                // The colon is taken for the marker and is lost.
                assert(rest.skip(2) =~= last.skip(1));
                assert(seq![rest.skip(2)][0] == mids.push(last)[0]);
                assert(false);
            }
            // What is read is the first word of the parameter, and it is the
            // parameter, which therefore holds no space.
            assert(rest.skip(1) =~= last);
            lemma_first_word_spaceless(last);
            lemma_first_word_len(last);
            let word = first_word(last);
            let more = parse_params(rest.skip(1 + word.len() as int));
            assert(more is Some);
            assert((seq![word] + more->0)[0] == mids.push(last)[0]);
            assert(word == last);
        }
    } else {
        let w = mids[0];
        assert(parts[0] == w);
        assert(parts.skip(1) =~= written(mids.skip(1), last, colon_flag));
        assert(tail =~= seq![' '] + parts.skip(1)[0] + spaced(parts.skip(1).skip(1)));
        assert(mids.push(last).len() >= 2);
        if w.len() == 0 {
            // Two spaces in a row: the word between them is missing.
            assert(rest.skip(1) =~= tail);
            assert(first_word(tail) =~= Seq::<char>::empty());
            assert(false);
        }
        assert(rest[1] == w[0]);
        if w[0] == ':' {
            // The colon ends the parameters here, and the later ones are lost.
            assert(seq![rest.skip(2)].len() == 1);
            assert(false);
        }
        // What is read first is the first word of `w` and what follows, and
        // it is `w`, which therefore holds no space.
        assert(rest.skip(1) =~= w + tail);
        lemma_first_word_spaceless(w + tail);
        lemma_first_word_len(w + tail);
        let word = first_word(w + tail);
        let more = parse_params(rest.skip(1 + word.len() as int));
        assert(more is Some);
        let got = seq![word] + more->0;
        assert(got == mids.push(last));
        assert(got[0] == mids.push(last)[0]);
        assert(word == w);
        assert(is_middle(w));
        // The other words are read from what follows `w`.
        assert(rest.skip(1 + w.len() as int) =~= tail);
        assert(more->0 =~= mids.skip(1).push(last)) by {
            assert(more->0.len() == mids.len());
            assert forall|k: int| 0 <= k < more->0.len() implies more->0[k] == mids.skip(1).push(
                last,
            )[k] by {
                assert(got[k + 1] == more->0[k]);
            }
        }
        assert forall|i: int| 0 <= i < mids.skip(1).len() implies one_line(
            #[trigger] mids.skip(1)[i],
        ) by {
            assert(mids.skip(1)[i] == mids[i + 1]);
        }
        lemma_params_read_back_only(mids.skip(1), last, colon_flag);
        assert forall|i: int| 0 <= i < mids.len() implies is_middle(#[trigger] mids[i]) by {
            if i > 0 {
                assert(mids[i] == mids.skip(1)[i - 1]);
            }
        }
    }
}

/// The line of a message is its command, then its parameters as they are
/// written, behind a space each, then CR LF.
pub proof fn lemma_line_is_spaced(m: MessageView)
    requires
        m.args.len() > 0,
    ensures
        m.line() == m.command + spaced(written(m.args.drop_last(), m.args.last(), m.colon_flag))
            + crlf(),
{
    let params = written(m.args.drop_last(), m.args.last(), m.colon_flag);
    assert(m.words() =~= seq![m.command] + params);
    assert(m.words().skip(1) =~= params);
    lemma_joined_is_spaced(m.words());
}

/// A message that keeps to the grammar reads back from its line, as text and
/// as bytes: the command and the parameters that a receiver reads are the
/// ones that were encoded, the last one without the colon that marked it.
pub proof fn lemma_line_reads_back(m: MessageView)
    requires
        m.conformant(),
    ensures
        parse_line(m.line()) == Some((m.command, m.args)),
        parse_line(decode_utf8(m.wire())) == Some((m.command, m.args)),
{
    lemma_reads_back_iff_conformant(m);
    encode_utf8_decode_utf8(m.line());
}

/// The messages that read back from their lines are exactly those that keep
/// to the grammar.
pub proof fn lemma_reads_back_iff_conformant(m: MessageView)
    requires
        m.args.len() > 0,
    ensures
        parse_line(m.line()) == Some((m.command, m.args)) <==> m.conformant(),
{
    let mids = m.args.drop_last();
    let last = m.args.last();
    let params = written(mids, last, m.colon_flag);
    let tail = spaced(params);
    let body = m.command + tail;
    let line = m.line();
    lemma_line_is_spaced(m);
    assert(line.take(line.len() - 2) =~= body);
    assert(line.skip(line.len() - 2) =~= crlf());
    assert(mids.push(last) =~= m.args);
    assert(tail =~= seq![' '] + params[0] + spaced(params.skip(1)));
    assert(tail[0] == ' ');
    // The body is one line exactly where the command and every parameter are.
    lemma_spaced_one_line(params);
    assert(one_line(body) <==> one_line(m.command) && one_line(tail)) by {
        if one_line(body) {
            assert forall|k: int| 0 <= k < m.command.len() implies m.command[k] != '\r'
                && m.command[k] != '\n' by {
                assert(body[k] == m.command[k]);
            }
            assert forall|k: int| 0 <= k < tail.len() implies tail[k] != '\r' && tail[k] != '\n' by {
                assert(body[m.command.len() + k] == tail[k]);
            }
        }
    }
    assert(one_line(params[mids.len() as int]) <==> one_line(last)) by {
        let t = params[mids.len() as int];
        if m.colon_flag {
            if one_line(t) {
                assert forall|k: int| 0 <= k < last.len() implies last[k] != '\r' && last[k]
                    != '\n' by {
                    assert(t[k + 1] == last[k]);
                }
            }
        }
    }
    assert forall|i: int| 0 <= i < mids.len() implies params[i] == mids[i] && mids[i]
        == m.args[i] by {}
    if m.conformant() {
        assert forall|i: int| 0 <= i < params.len() implies one_line(#[trigger] params[i]) by {
            if i < mids.len() {
                assert(is_middle(m.args[i]));
            }
        }
        lemma_first_word_of(m.command, tail);
        assert(body.skip(m.command.len() as int) =~= tail);
        assert forall|i: int| 0 <= i < mids.len() implies is_middle(#[trigger] mids[i]) by {
            assert(is_middle(m.args[i]));
        }
        lemma_params_read_back(mids, last, m.colon_flag);
    }
    if parse_line(line) == Some((m.command, m.args)) {
        // The command was read as a first word, so it holds no space, and
        // the parameters were read from what follows it.
        assert(one_line(body));
        lemma_first_word_spaceless(body);
        assert(first_word(body) == m.command);
        lemma_first_word_of(m.command, tail);
        assert(body.skip(m.command.len() as int) =~= tail);
        assert(parse_params(tail) == Some(m.args));
        assert forall|i: int| 0 <= i < mids.len() implies one_line(#[trigger] mids[i]) by {
            assert(one_line(params[i]));
        }
        lemma_params_read_back_only(mids, last, m.colon_flag);
        assert forall|i: int| 0 <= i < m.args.len() - 1 implies is_middle(#[trigger] m.args[i]) by {
            assert(is_middle(mids[i]));
        }
    }
}

} // verus!
