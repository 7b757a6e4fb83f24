//! A framed message survives the connection: what one side encodes, the
//! other side decodes to the same name and the same body.
use vstd::prelude::*;
use vstd::string::*;
use crate::protocol::{
    argument_of, carries_body, command_line, decode_step, document_message, verb_of, wire_line,
    FrameView,
    UnitView, DOCUMENT_CONTENT_MSG, DOCUMENT_UPDATED_MSG, END_OF_MESSAGE_DELIMITER,
    UPDATE_DOCUMENT_CMD,
};
use crate::text::{
    after_first, before_first, chars_of, find_from, first_index_of, is_space,
    lemma_first_index_of, lemma_first_index_of_unique, trim_back, trim_front, trimmed,
    without_final_newline,
};

verus! {

/// The lines of a stream as a reader hands them out: each with its line
/// feed. What follows the last line feed is a line without one, unless it is
/// empty.
pub open spec fn stream_lines(text: Seq<char>) -> Seq<Seq<char>>
    decreases text.len(),
{
    let k = first_index_of(text, '\n');
    if text.len() == 0 {
        Seq::empty()
    } else if 0 <= k < text.len() {
        seq![text.subrange(0, k + 1)] + stream_lines(text.subrange(k + 1, text.len() as int))
    } else {
        seq![text]
    }
}

/// Cuts a text into the lines that a reader would hand out.
pub fn split_stream(text: &str) -> (lines: Vec<String>)
    ensures
        lines.deep_view() == stream_lines(text@),
{
    let v = chars_of(text);
    let n = v.len();
    let mut lines: Vec<String> = Vec::new();
    let mut start: usize = 0;
    assert(text@.subrange(0, n as int) =~= text@);
    assert(lines.deep_view() =~= Seq::<Seq<char>>::empty());
    while start < n
        invariant
            start <= n,
            n == v.len(),
            v@ == text@,
            stream_lines(text@) == lines.deep_view() + stream_lines(
                text@.subrange(start as int, n as int),
            ),
        decreases n - start,
    {
        let ghost rest = text@.subrange(start as int, n as int);
        let ghost before = lines.deep_view();
        let k = find_from(&v, start, '\n');
        let end = if k < n {
            k + 1
        } else {
            n
        };
        let line = String::from_str(text.substring_char(start, end));
        lines.push(line);
        assert(lines.deep_view() =~= before.push(line@));
        proof {
            let tail = text@.subrange(end as int, n as int);
            if k < n {
                assert(line@ =~= rest.subrange(0, k - start + 1));
                assert(rest.subrange(k - start + 1, rest.len() as int) =~= tail);
            } else {
                assert(line@ =~= rest);
                assert(tail =~= Seq::<char>::empty());
            }
            assert(before + (seq![line@] + stream_lines(tail)) =~= before.push(line@)
                + stream_lines(tail));
        }
        start = end;
    }
    assert(text@.subrange(n as int, n as int) =~= Seq::<char>::empty());
    assert(lines.deep_view() + Seq::<Seq<char>>::empty() =~= lines.deep_view());
    lines
}

/// The decoder after `lines`, and the units that they complete, in their
/// order.
pub open spec fn decode_lines(pending: Option<FrameView>, lines: Seq<Seq<char>>) -> (
    Option<FrameView>,
    Seq<UnitView>,
)
    decreases lines.len(),
{
    if lines.len() == 0 {
        (pending, Seq::empty())
    } else {
        let (next, unit) = decode_step(pending, lines.first());
        let (last, units) = decode_lines(next, lines.drop_first());
        (
            last,
            match unit {
                Some(unit) => seq![unit] + units,
                None => units,
            },
        )
    }
}

/// No line of `body` is the delimiter, or the delimiter with white space
/// around it.
pub open spec fn free_of_delimiter(body: Seq<char>) -> bool {
    forall|i: int|
        0 <= i < stream_lines(body).len() ==> trimmed(#[trigger] stream_lines(body)[i])
            != END_OF_MESSAGE_DELIMITER@
}

/// A name that a header line can carry: it has no line feed and does not end
/// in white space.
pub open spec fn fits_header(name: Seq<char>) -> bool {
    &&& forall|i: int| 0 <= i < name.len() ==> name[i] != '\n'
    &&& name.len() > 0 ==> !is_space(name.last())
}

/// No character of `s` is white space.
pub open spec fn solid(s: Seq<char>) -> bool {
    forall|i: int| 0 <= i < s.len() ==> !is_space(#[trigger] s[i])
}

/// The verbs of framed units and the delimiter are words without white
/// space.
pub proof fn lemma_words_are_solid()
    ensures
        solid(UPDATE_DOCUMENT_CMD@) && UPDATE_DOCUMENT_CMD@.len() > 0,
        solid(DOCUMENT_CONTENT_MSG@) && DOCUMENT_CONTENT_MSG@.len() > 0,
        solid(DOCUMENT_UPDATED_MSG@) && DOCUMENT_UPDATED_MSG@.len() > 0,
        solid(END_OF_MESSAGE_DELIMITER@) && END_OF_MESSAGE_DELIMITER@.len() > 0,
{
    reveal_strlit("UPDATE_DOCUMENT");
    reveal_strlit("DOCUMENT_CONTENT");
    reveal_strlit("DOCUMENT_UPDATED");
    reveal_strlit("END_OF_MESSAGE");
}

/// Trimming a word that is closed by a line feed gives the word.
pub proof fn lemma_trimmed_word_line(word: Seq<char>)
    requires
        solid(word),
        word.len() > 0,
    ensures
        trimmed(word + seq!['\n']) == word,
{
    let line = word + seq!['\n'];
    assert(!is_space(word[0]));
    assert(line[0] == word[0]);
    assert(trim_front(line) == line);
    assert(line.drop_last() =~= word);
    assert(!is_space(word[word.len() - 1]));
    assert(trim_back(word) == word);
    assert(trim_back(line) == trim_back(line.drop_last()));
}

/// A header line gives back its verb and its name.
pub proof fn lemma_header_line(verb: Seq<char>, name: Seq<char>)
    requires
        solid(verb),
        verb.len() > 0,
        fits_header(name),
    ensures
        trimmed(verb + seq![' '] + name + seq!['\n']).len() > 0,
        verb_of(verb + seq![' '] + name + seq!['\n']) == verb,
        argument_of(verb + seq![' '] + name + seq!['\n']) == name,
{
    let line = verb + seq![' '] + name + seq!['\n'];
    let inner = verb + seq![' '] + name;
    assert(!is_space(verb[0]));
    assert(line[0] == verb[0]);
    assert(trim_front(line) == line);
    assert(line.drop_last() =~= inner);
    assert(trim_back(line) == trim_back(inner));
    assert forall|i: int| 0 <= i < verb.len() implies verb[i] != ' ' by {
        assert(!is_space(verb[i]));
    }
    if name.len() > 0 {
        assert(inner.last() == name.last());
        assert(trim_back(inner) == inner);
        assert(inner[verb.len() as int] == ' ');
        assert forall|i: int| 0 <= i < verb.len() implies inner[i] != ' ' by {
            assert(inner[i] == verb[i]);
        }
        lemma_first_index_of_unique(inner, ' ', verb.len() as int);
        assert(before_first(inner, ' ') =~= verb);
        assert(after_first(inner, ' ') =~= name);
    } else {
        assert(inner.last() == ' ');
        assert(inner.drop_last() =~= verb);
        assert(!is_space(verb[verb.len() - 1]));
        assert(trim_back(verb) == verb);
        assert(trim_back(inner) == trim_back(inner.drop_last()));
        lemma_first_index_of_unique(verb, ' ', verb.len() as int);
        assert(before_first(verb, ' ') =~= verb);
        assert(after_first(verb, ' ') =~= name);
    }
}

/// The lines of a text that ends in a line feed, followed by one more line:
/// the first line of the text comes first.
proof fn lemma_first_line(text: Seq<char>, last: Seq<char>)
    requires
        text.len() > 0,
        text.last() == '\n',
        forall|i: int| 0 <= i < last.len() - 1 ==> last[i] != '\n',
        last.len() > 0,
        last.last() == '\n',
    ensures
        ({
            let k = first_index_of(text, '\n');
            &&& 0 <= k < text.len()
            &&& stream_lines(text) == seq![text.subrange(0, k + 1)] + stream_lines(
                text.subrange(k + 1, text.len() as int),
            )
            &&& stream_lines(text + last) == seq![text.subrange(0, k + 1)] + stream_lines(
                text.subrange(k + 1, text.len() as int) + last,
            )
        }),
{
    lemma_first_index_of(text, '\n');
    let k = first_index_of(text, '\n');
    if k >= text.len() {
        assert(text[text.len() - 1] != '\n');
    }
    let whole = text + last;
    assert forall|i: int| 0 <= i < k implies whole[i] != '\n' by {
        assert(whole[i] == text[i]);
    }
    assert(whole[k] == text[k]);
    lemma_first_index_of_unique(whole, '\n', k);
    assert(whole.subrange(0, k + 1) =~= text.subrange(0, k + 1));
    assert(whole.subrange(k + 1, whole.len() as int) =~= text.subrange(k + 1, text.len() as int)
        + last);
}

/// Inside a frame, a body without a delimiter line is taken up whole, and
/// the delimiter that follows closes the frame.
proof fn lemma_body_is_taken(frame: FrameView, text: Seq<char>)
    requires
        text.len() == 0 || text.last() == '\n',
        free_of_delimiter(text),
    ensures
        decode_lines(
            Some(frame),
            stream_lines(text + wire_line(END_OF_MESSAGE_DELIMITER@)),
        ) == (
            None::<FrameView>,
            seq![
                UnitView::Framed {
                    verb: frame.verb,
                    name: frame.name,
                    body: without_final_newline(frame.body + text),
                },
            ],
        ),
    decreases text.len(),
{
    lemma_words_are_solid();
    let word = END_OF_MESSAGE_DELIMITER@;
    let last = wire_line(word);
    assert forall|i: int| 0 <= i < last.len() - 1 implies last[i] != '\n' by {
        assert(!is_space(word[i]));
    }
    if text.len() == 0 {
        assert(text + last =~= last);
        assert(frame.body + text =~= frame.body);
        lemma_first_index_of_unique(last, '\n', word.len() as int);
        assert(last.subrange(0, word.len() as int + 1) =~= last);
        assert(last.subrange(word.len() as int + 1, last.len() as int) =~= Seq::<char>::empty());
        let empty = Seq::<char>::empty();
        assert(stream_lines(empty) =~= Seq::<Seq<char>>::empty());
        assert(stream_lines(last) =~= seq![last]);
        lemma_trimmed_word_line(word);
        let lines = seq![last];
        assert(lines.drop_first() =~= Seq::<Seq<char>>::empty());
        assert(decode_lines(None::<FrameView>, lines.drop_first()).1 =~= Seq::<UnitView>::empty());
        let unit = UnitView::Framed {
            verb: frame.verb,
            name: frame.name,
            body: without_final_newline(frame.body),
        };
        assert(decode_step(Some(frame), last) == (None::<FrameView>, Some(unit)));
        assert(seq![unit] + Seq::<UnitView>::empty() =~= seq![unit]);
    } else {
        lemma_first_line(text, last);
        let k = first_index_of(text, '\n');
        let line = text.subrange(0, k + 1);
        let rest = text.subrange(k + 1, text.len() as int);
        assert(stream_lines(text)[0] == line);
        assert(trimmed(line) != word);
        assert forall|i: int| 0 <= i < stream_lines(rest).len() implies trimmed(
            #[trigger] stream_lines(rest)[i],
        ) != word by {
            assert(stream_lines(text)[i + 1] == stream_lines(rest)[i]);
        }
        let grown = FrameView { verb: frame.verb, name: frame.name, body: frame.body + line };
        lemma_body_is_taken(grown, rest);
        assert(frame.body + line + rest =~= frame.body + text);
        let lines = stream_lines(text + last);
        assert(lines.first() == line);
        assert(lines.drop_first() =~= stream_lines(rest + last));
        assert(decode_step(Some(frame), line) == (Some(grown), None::<UnitView>));
    }
}

/// A framed message for the document `name` with the body `body`, sent as
/// one message, is decoded by the peer as exactly that name and that body,
/// the body without its final line feed if it had one.
///
/// The name must fit a header line, and no line of the body may be the
/// delimiter.
pub proof fn lemma_framed_round_trip(verb: Seq<char>, name: Seq<char>, body: Seq<char>)
    requires
        carries_body(verb),
        fits_header(name),
        free_of_delimiter(wire_line(without_final_newline(body))),
    ensures
        decode_lines(None, stream_lines(wire_line(document_message(verb, name, body)))) == (
            None::<FrameView>,
            seq![UnitView::Framed { verb, name, body: without_final_newline(body) }],
        ),
{
    lemma_words_are_solid();
    let head = verb + seq![' '] + name;
    let header = head + seq!['\n'];
    let content = wire_line(without_final_newline(body));
    let last = wire_line(END_OF_MESSAGE_DELIMITER@);
    let whole = wire_line(document_message(verb, name, body));
    assert(whole =~= header + (content + last));
    assert forall|i: int| 0 <= i < head.len() implies head[i] != '\n' by {
        if i < verb.len() {
            assert(!is_space(verb[i]));
        }
    }
    assert(whole[head.len() as int] == '\n');
    assert forall|i: int| 0 <= i < head.len() implies whole[i] != '\n' by {
        assert(whole[i] == head[i]);
    }
    lemma_first_index_of_unique(whole, '\n', head.len() as int);
    assert(whole.subrange(0, head.len() as int + 1) =~= header);
    assert(whole.subrange(head.len() as int + 1, whole.len() as int) =~= content + last);
    let lines = stream_lines(whole);
    assert(lines =~= seq![header] + stream_lines(content + last));
    assert(lines.first() == header);
    assert(lines.drop_first() =~= stream_lines(content + last));
    lemma_header_line(verb, name);
    let frame = FrameView { verb, name, body: Seq::empty() };
    assert(decode_step(None, header) == (Some(frame), None::<UnitView>));
    lemma_body_is_taken(frame, content);
    assert(frame.body + content =~= content);
    assert(content.drop_last() =~= without_final_newline(body));
}

/// A simple message, sent as one line, is decoded by the peer as the same
/// verb and the same argument. The verb must be a word that carries no body,
/// and the argument must fit a header line.
pub proof fn lemma_simple_round_trip(verb: Seq<char>, argument: Seq<char>)
    requires
        solid(verb),
        verb.len() > 0,
        !carries_body(verb),
        fits_header(argument),
    ensures
        decode_step(None, wire_line(command_line(verb, argument))) == (
            None::<FrameView>,
            Some(UnitView::Simple { verb, argument }),
        ),
{
    lemma_header_line(verb, argument);
    if argument.len() == 0 {
        lemma_trimmed_word_line(verb);
        assert forall|i: int| 0 <= i < verb.len() implies verb[i] != ' ' by {
            assert(!is_space(verb[i]));
        }
        lemma_first_index_of_unique(verb, ' ', verb.len() as int);
        assert(before_first(verb, ' ') =~= verb);
        assert(after_first(verb, ' ') =~= argument);
    }
}

} // verus!
