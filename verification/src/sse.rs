//! Framing of server-sent events.
//!
//! An event is written as `event: <name>`, then one `data: <line>` field for
//! each line of the payload, then an empty line that ends the event.

use crate::text::{chars_of, push_range, push_str, string_of};
use vstd::prelude::*;

verus! {

/// Index of the first `'\n'` in `s`, or `s.len()` when it has none.
pub open spec fn first_newline(s: Seq<char>) -> int
    decreases s.len(),
{
    if s.len() == 0 {
        0
    } else if s[0] == '\n' {
        0
    } else {
        1 + first_newline(s.skip(1))
    }
}

/// `first_newline` points at a `'\n'` or at the end, past characters that are
/// not `'\n'`.
pub proof fn lemma_first_newline(s: Seq<char>)
    ensures
        0 <= first_newline(s) <= s.len(),
        first_newline(s) < s.len() ==> s[first_newline(s)] == '\n',
        forall|k: int| 0 <= k < first_newline(s) ==> s[k] != '\n',
    decreases s.len(),
{
    if s.len() > 0 && s[0] != '\n' {
        lemma_first_newline(s.skip(1));
        assert forall|k: int| 0 <= k < first_newline(s) implies s[k] != '\n' by {
            if k > 0 {
                assert(s[k] == s.skip(1)[k - 1]);
            }
        }
    }
}

/// `line` without the `'\r'` that a `"\r\n"` ending leaves behind.
pub open spec fn without_carriage_return(line: Seq<char>) -> Seq<char> {
    if line.len() > 0 && line.last() == '\r' {
        line.drop_last()
    } else {
        line
    }
}

/// The lines of `s`. A line ends at `"\n"` or `"\r\n"`, and the ending is not
/// part of the line. What follows the last ending is a line only if it is not
/// empty, and it keeps a `'\r'` at its end.
pub open spec fn lines(s: Seq<char>) -> Seq<Seq<char>>
    decreases s.len(),
{
    let end = first_newline(s);
    if s.len() == 0 {
        Seq::empty()
    } else if end < 0 || end >= s.len() {
        seq![s]
    } else {
        seq![without_carriage_return(s.take(end))] + lines(s.skip(end + 1))
    }
}

/// One `data` field for each line, each after a line break.
pub open spec fn data_fields(lines: Seq<Seq<char>>) -> Seq<char>
    decreases lines.len(),
{
    if lines.len() == 0 {
        Seq::empty()
    } else {
        "\ndata: "@ + lines[0] + data_fields(lines.skip(1))
    }
}

/// The event named `kind` that carries `data`. An empty payload is sent as
/// one empty `data` field, so that the event is not dropped by the receiver.
pub open spec fn event_text(kind: Seq<char>, data: Seq<char>) -> Seq<char> {
    "event: "@ + kind + (if data.len() == 0 {
        "\ndata: "@
    } else {
        data_fields(lines(data))
    }) + "\n\n"@
}

/// No line of a text holds a line break, so every `data` field of an event
/// stays on its own line.
pub proof fn lemma_lines_hold_no_newline(s: Seq<char>, i: int, k: int)
    requires
        0 <= i < lines(s).len(),
        0 <= k < lines(s)[i].len(),
    ensures
        lines(s)[i][k] != '\n',
    decreases s.len(),
{
    lemma_first_newline(s);
    let end = first_newline(s);
    if end >= s.len() {
        assert(lines(s)[0] == s);
    } else if i == 0 {
        assert(lines(s)[0] == without_carriage_return(s.take(end)));
        assert(lines(s)[0][k] == s[k]);
    } else {
        assert(lines(s)[i] == lines(s.skip(end + 1))[i - 1]);
        lemma_lines_hold_no_newline(s.skip(end + 1), i - 1, k);
    }
}

/// In the `data` fields of lines that hold no line break, every line break
/// is followed by the `d` of a field name, and the last character is none.
proof fn lemma_data_fields_shape(lines: Seq<Seq<char>>)
    requires
        forall|i: int, k: int|
            0 <= i < lines.len() && 0 <= k < lines[i].len() ==> #[trigger] lines[i][k] != '\n',
    ensures
        forall|j: int|
            0 <= j < data_fields(lines).len() && #[trigger] data_fields(lines)[j] == '\n' ==> j + 1
                < data_fields(lines).len() && data_fields(lines)[j + 1] == 'd',
        data_fields(lines).len() > 0 ==> data_fields(lines).last() != '\n',
        lines.len() > 0 ==> data_fields(lines).len() > 0,
    decreases lines.len(),
{
    reveal_strlit("\ndata: ");
    if lines.len() > 0 {
        let name = "\ndata: "@;
        let first = lines[0];
        let rest = data_fields(lines.skip(1));
        let all = data_fields(lines);
        assert forall|i: int, k: int|
            0 <= i < lines.skip(1).len() && 0 <= k < lines.skip(1)[i].len() implies #[trigger] lines.skip(
            1,
        )[i][k] != '\n' by {
            assert(lines.skip(1)[i] == lines[i + 1]);
        }
        lemma_data_fields_shape(lines.skip(1));
        assert(all == name + first + rest);
        assert forall|j: int| 0 <= j < all.len() && #[trigger] all[j] == '\n' implies j + 1
            < all.len() && all[j + 1] == 'd' by {
            if j < 7 {
                assert(all[j] == name[j]);
                assert(j == 0);
                assert(all[1] == name[1]);
            } else if j < 7 + first.len() {
                assert(all[j] == first[j - 7]);
                assert(lines[0][j - 7] != '\n');
            } else {
                let at = j - 7 - first.len();
                assert(all[j] == rest[at]);
                assert(rest[at + 1] == 'd');
                assert(all[j + 1] == rest[at + 1]);
            }
        }
        if rest.len() > 0 {
            assert(all.last() == rest.last());
        } else if first.len() > 0 {
            assert(all.last() == first.last());
            assert(lines[0][first.len() - 1] != '\n');
        } else {
            assert(all.last() == name[6]);
        }
    }
}

/// An event is one block: as long as its name holds no line break, the empty
/// line at its end is the only one in it. A reader that cuts the stream at
/// empty lines gets the events as they were written, whatever the payload.
pub proof fn law_event_is_one_block(kind: Seq<char>, data: Seq<char>, i: int)
    requires
        forall|k: int| 0 <= k < kind.len() ==> kind[k] != '\n',
        0 <= i < event_text(kind, data).len() - 1,
        event_text(kind, data)[i] == '\n',
        event_text(kind, data)[i + 1] == '\n',
    ensures
        i == event_text(kind, data).len() - 2,
{
    reveal_strlit("event: ");
    reveal_strlit("\ndata: ");
    reveal_strlit("\n\n");
    let shown = if data.len() == 0 {
        seq![Seq::<char>::empty()]
    } else {
        lines(data)
    };
    assert forall|a: int, k: int| 0 <= a < shown.len() && 0 <= k < shown[a].len() implies #[trigger] shown[a][k]
        != '\n' by {
        if data.len() > 0 {
            lemma_lines_hold_no_newline(data, a, k);
        }
    }
    lemma_data_fields_shape(shown);
    let fields = data_fields(shown);
    if data.len() == 0 {
        assert(shown.skip(1) == Seq::<Seq<char>>::empty());
        assert(data_fields(Seq::<Seq<char>>::empty()) == Seq::<char>::empty());
        assert(fields == "\ndata: "@);
    }
    let head = "event: "@ + kind;
    let body = head + fields;
    let event = event_text(kind, data);
    assert(event == body + "\n\n"@);
    assert(body.len() > 0);
    if i < body.len() {
        assert(event[i] == body[i]);
        if i < head.len() {
            if i < 7 {
                assert(body[i] == "event: "@[i]);
            } else {
                assert(body[i] == kind[i - 7]);
            }
        } else {
            let at = i - head.len();
            assert(body[i] == fields[at]);
            if i == body.len() - 1 {
                assert(fields.last() == fields[at]);
            } else {
                assert(fields[at + 1] == 'd');
                assert(event[i + 1] == body[i + 1]);
                assert(body[i + 1] == fields[at + 1]);
            }
        }
    }
}

/// Frames one server-sent event.
pub fn sse(kind: &str, data: &str) -> (event: String)
    ensures
        event@ == event_text(kind@, data@),
{
    let text = chars_of(data);
    let mut out: Vec<char> = Vec::new();
    push_str(&mut out, "event: ");
    push_str(&mut out, kind);
    let ghost head = out@;
    assert(head == "event: "@ + kind@);
    if text.len() == 0 {
        push_str(&mut out, "\ndata: ");
    } else {
        let mut pos: usize = 0;
        assert(text@.skip(0) == text@);
        while pos < text.len()
            invariant
                pos <= text.len(),
                text@ == data@,
                out@ + data_fields(lines(text@.skip(pos as int))) == head + data_fields(
                    lines(text@),
                ),
            decreases text.len() - pos,
        {
            let ghost rest = text@.skip(pos as int);
            let ghost before = out@;
            let mut end: usize = pos;
            while end < text.len() && text[end] != '\n'
                invariant
                    pos <= end <= text.len(),
                    rest == text@.skip(pos as int),
                    first_newline(rest) == (end - pos) + first_newline(text@.skip(end as int)),
                decreases text.len() - end,
            {
                assert(text@.skip(end as int).skip(1) == text@.skip(end + 1));
                end += 1;
            }
            assert(first_newline(rest) == end - pos);
            assert(rest.take(end - pos) == text@.subrange(pos as int, end as int));
            push_str(&mut out, "\ndata: ");
            if end == text.len() {
                push_range(&mut out, &text, pos, end);
                assert(rest.take(end - pos) == rest);
                assert(lines(rest) == seq![rest]);
                assert(seq![rest].skip(1) == Seq::<Seq<char>>::empty());
                assert(data_fields(Seq::<Seq<char>>::empty()) == Seq::<char>::empty());
                assert(data_fields(seq![rest]) == "\ndata: "@ + rest + Seq::<char>::empty());
                assert(text@.skip(end as int).len() == 0);
                assert(out@ + data_fields(lines(text@.skip(end as int))) == before + data_fields(
                    lines(rest),
                ));
                pos = end;
            } else {
                let stop: usize = if end > pos && text[end - 1] == '\r' {
                    end - 1
                } else {
                    end
                };
                push_range(&mut out, &text, pos, stop);
                let ghost line = without_carriage_return(rest.take(end - pos));
                assert(line == text@.subrange(pos as int, stop as int));
                let ghost tail = lines(rest.skip(end - pos + 1));
                assert(rest.skip(end - pos + 1) == text@.skip(end + 1));
                assert(lines(rest) == seq![line] + tail);
                assert((seq![line] + tail).skip(1) == tail);
                assert(data_fields(lines(rest)) == "\ndata: "@ + line + data_fields(tail));
                assert(out@ + data_fields(tail) == before + data_fields(lines(rest)));
                pos = end + 1;
            }
        }
        assert(text@.skip(pos as int).len() == 0);
    }
    push_str(&mut out, "\n\n");
    string_of(&out)
}

} // verus!
