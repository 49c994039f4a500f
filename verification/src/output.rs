//! The ordinary output of an operation as a whole: how it is read piece by piece, and
//! what of it is passed on.
#[allow(unused_imports)]
use crate::events::StdoutEvent;
#[allow(unused_imports)]
use crate::runner::{relays_line, Relay};
#[allow(unused_imports)]
use crate::standard::{
    is_white_space, law_trimmed_is_clean, trimmed, trimmed_start,
};
use vstd::prelude::*;

verus! {

/// The position of the first line feed in `text`, or its length.
pub open spec fn first_line_feed(text: Seq<char>) -> int
    decreases text.len(),
{
    if text.len() == 0 || text[0] == '\n' {
        0
    } else {
        1 + first_line_feed(text.skip(1))
    }
}

/// The first line feed lies in the text or at its end, and none stands before it.
pub proof fn lemma_first_line_feed(text: Seq<char>)
    ensures
        0 <= first_line_feed(text) <= text.len(),
        first_line_feed(text) < text.len() ==> text[first_line_feed(text)] == '\n',
        forall|i: int| 0 <= i < first_line_feed(text) ==> #[trigger] text[i] != '\n',
    decreases text.len(),
{
    if text.len() > 0 && text[0] != '\n' {
        let rest = text.skip(1);
        lemma_first_line_feed(rest);
        assert forall|i: int| 0 <= i < first_line_feed(text) implies #[trigger] text[i] != '\n' by {
            if i > 0 {
                assert(rest[i - 1] != '\n');
            }
        }
    }
}

/// The pieces in which a text is read line by line: each goes up to and with a line
/// feed, the last up to the end of the text.
pub open spec fn pieces(text: Seq<char>) -> Seq<Seq<char>>
    decreases text.len(),
{
    let at = first_line_feed(text);
    proof {
        lemma_first_line_feed(text);
    }
    if text.len() == 0 {
        Seq::empty()
    } else if at >= text.len() {
        seq![text]
    } else {
        seq![text.take(at + 1)] + pieces(text.skip(at + 1))
    }
}

/// The lines of a text: what stands between its line feeds.
pub open spec fn lines(text: Seq<char>) -> Seq<Seq<char>>
    decreases text.len(),
{
    let at = first_line_feed(text);
    proof {
        lemma_first_line_feed(text);
    }
    if at >= text.len() {
        seq![text]
    } else {
        seq![text.take(at)] + lines(text.skip(at + 1))
    }
}

/// The lines of a text without white space around them, but for those of which
/// nothing is left.
pub open spec fn visible_lines(text: Seq<char>) -> Seq<Seq<char>> {
    lines(text).map_values(|line: Seq<char>| trimmed(line)).filter(
        |line: Seq<char>| line.len() > 0,
    )
}

/// What is passed on by the given relays, in order.
pub open spec fn emitted(relays: Seq<Relay<StdoutEvent>>) -> Seq<StdoutEvent>
    decreases relays.len(),
{
    if relays.len() == 0 {
        Seq::empty()
    } else {
        match relays[0] {
            Relay::Emit(event) => seq![event] + emitted(relays.skip(1)),
            _ => emitted(relays.skip(1)),
        }
    }
}

/// The lines that events carry.
pub open spec fn lines_of(events: Seq<StdoutEvent>) -> Seq<Seq<char>> {
    Seq::new(events.len(), |i: int| events[i].line@)
}

/// The pieces of a text make it up, none is empty, and a line feed stands at the end
/// of a piece only: they are what is read from the text line by line.
pub proof fn law_pieces_make_up_text(text: Seq<char>)
    ensures
        pieces(text).flatten() == text,
        forall|i: int|
            0 <= i < pieces(text).len() ==> {
                let piece = #[trigger] pieces(text)[i];
                &&& piece.len() > 0
                &&& forall|j: int| 0 <= j < piece.len() - 1 ==> #[trigger] piece[j] != '\n'
                &&& i < pieces(text).len() - 1 ==> piece.last() == '\n'
            },
    decreases text.len(),
{
    lemma_first_line_feed(text);
    let at = first_line_feed(text);
    if text.len() == 0 {
        assert(pieces(text).flatten() =~= text);
    } else if at >= text.len() {
        assert(seq![text].drop_first() =~= Seq::<Seq<char>>::empty());
        reveal_with_fuel(Seq::flatten, 2);
        assert(pieces(text).flatten() =~= text);
    } else {
        let first = text.take(at + 1);
        let rest = text.skip(at + 1);
        law_pieces_make_up_text(rest);
        assert(pieces(text).drop_first() =~= pieces(rest));
        assert(pieces(text).first() == first);
        assert(pieces(text).flatten() =~= first + rest);
        assert(first + rest =~= text);
        assert forall|i: int| 0 <= i < pieces(text).len() implies {
            let piece = #[trigger] pieces(text)[i];
            &&& piece.len() > 0
            &&& forall|j: int| 0 <= j < piece.len() - 1 ==> #[trigger] piece[j] != '\n'
            &&& i < pieces(text).len() - 1 ==> piece.last() == '\n'
        } by {
            if i > 0 {
                assert(pieces(text)[i] == pieces(rest)[i - 1]);
            }
        }
    }
}

proof fn lemma_trimmed_start_push(text: Seq<char>, c: char)
    requires
        is_white_space(c),
    ensures
        trimmed_start(text.push(c)) == if trimmed_start(text).len() == 0 {
            Seq::empty()
        } else {
            trimmed_start(text).push(c)
        },
    decreases text.len(),
{
    assert(text.len() > 0 ==> text.push(c)[0] == text[0]);
    if text.len() == 0 {
        reveal_with_fuel(trimmed_start, 2);
        assert(text.push(c).skip(1) =~= Seq::<char>::empty());
    } else if is_white_space(text[0]) {
        assert(text.push(c).skip(1) =~= text.skip(1).push(c));
        lemma_trimmed_start_push(text.skip(1), c);
    }
}

proof fn lemma_trimmed_push(text: Seq<char>, c: char)
    requires
        is_white_space(c),
    ensures
        trimmed(text.push(c)) == trimmed(text),
{
    lemma_trimmed_start_push(text, c);
    let start = trimmed_start(text);
    if start.len() == 0 {
        assert(start =~= Seq::<char>::empty());
    } else {
        assert(start.push(c).drop_last() =~= start);
    }
}

/// What is passed on of a text that was read to its end line by line is its lines,
/// trimmed, without the blank ones, in order, none lost or repeated; every event
/// belongs to the operation, and no line is empty or has white space around it.
pub proof fn law_output_is_passed_on(
    op: Seq<char>,
    text: Seq<char>,
    counts: Seq<usize>,
    relays: Seq<Relay<StdoutEvent>>,
)
    requires
        counts.len() == pieces(text).len(),
        relays.len() == pieces(text).len(),
        forall|i: int| 0 <= i < counts.len() ==> #[trigger] counts[i] > 0,
        forall|i: int|
            0 <= i < relays.len() ==> relays_line(
                op,
                Some(counts[i]),
                pieces(text)[i],
                #[trigger] relays[i],
            ),
    ensures
        lines_of(emitted(relays)) == visible_lines(text),
        forall|i: int|
            0 <= i < emitted(relays).len() ==> {
                let event = #[trigger] emitted(relays)[i];
                &&& event.op@ == op
                &&& event.line@.len() > 0
                &&& !is_white_space(event.line@[0])
                &&& !is_white_space(event.line@.last())
            },
    decreases text.len(),
{
    let trim = |line: Seq<char>| trimmed(line);
    let visible = |line: Seq<char>| line.len() > 0;
    lemma_first_line_feed(text);
    let at = first_line_feed(text);
    if text.len() == 0 {
        assert(lines(text) =~= seq![text]);
        assert(lines(text).map_values(trim) =~= seq![trimmed(text)]);
        assert(trimmed(text).len() == 0);
        lemma_filter_one(trimmed(text), visible);
        assert(lines_of(emitted(relays)) =~= visible_lines(text));
    } else {
        let (line, tail) = if at >= text.len() {
            (text, Seq::<Seq<char>>::empty())
        } else {
            (text.take(at), lines(text.skip(at + 1)))
        };
        assert(lines(text) =~= seq![line] + tail);
        assert(lines(text).map_values(trim) =~= seq![trimmed(line)] + tail.map_values(trim));
        Seq::filter_distributes_over_add(seq![trimmed(line)], tail.map_values(trim), visible);
        lemma_filter_one(trimmed(line), visible);
        assert(trimmed(pieces(text)[0]) == trimmed(line)) by {
            if at < text.len() {
                assert(text.take(at + 1) =~= text.take(at).push('\n'));
                lemma_trimmed_push(text.take(at), '\n');
            }
        }
        law_trimmed_is_clean(line);
        let rest = relays.skip(1);
        assert(relays_line(op, Some(counts[0]), pieces(text)[0], relays[0]));
        if at >= text.len() {
            assert(rest =~= Seq::<Relay<StdoutEvent>>::empty());
            assert(tail.map_values(trim) =~= Seq::<Seq<char>>::empty());
            reveal(Seq::filter);
        } else {
            let after = text.skip(at + 1);
            assert(pieces(text).skip(1) =~= pieces(after));
            let later = counts.skip(1);
            assert forall|i: int| 0 <= i < rest.len() implies relays_line(
                op,
                Some(later[i]),
                pieces(after)[i],
                #[trigger] rest[i],
            ) by {
                assert(pieces(after)[i] == pieces(text)[i + 1]);
                assert(relays_line(op, Some(counts[i + 1]), pieces(text)[i + 1], relays[i + 1]));
            }
            law_output_is_passed_on(op, after, later, rest);
        }
        match relays[0] {
            Relay::Emit(event) => {
                assert(emitted(relays) =~= seq![event] + emitted(rest));
                assert forall|i: int| 0 <= i < emitted(relays).len() implies {
                    let event = #[trigger] emitted(relays)[i];
                    &&& event.op@ == op
                    &&& event.line@.len() > 0
                    &&& !is_white_space(event.line@[0])
                    &&& !is_white_space(event.line@.last())
                } by {
                    if i > 0 {
                        assert(emitted(relays)[i] == emitted(rest)[i - 1]);
                    }
                }
            },
            _ => {},
        }
        assert(lines_of(emitted(relays)) =~= visible_lines(text));
    }
}

proof fn lemma_filter_one(line: Seq<char>, keep: spec_fn(Seq<char>) -> bool)
    ensures
        seq![line].filter(keep) == if keep(line) {
            seq![line]
        } else {
            Seq::empty()
        },
{
    reveal(Seq::filter);
    assert(seq![line].drop_last() =~= Seq::<Seq<char>>::empty());
    assert(Seq::<Seq<char>>::empty().filter(keep) =~= Seq::<Seq<char>>::empty());
    assert(Seq::<Seq<char>>::empty().push(line) =~= seq![line]);
}

} // verus!
