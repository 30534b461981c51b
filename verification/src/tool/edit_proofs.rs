//! What holds of the edit engine for every content: how exact matching
//! treats a target that occurs once or several times, that a window of lines
//! is replaced where it stands, and when normalizing line endings a second
//! time changes nothing.

use crate::text::{
    contains, lemma_first_occurrence, lemma_line_spans_from, line_spans, lines, occurs_at,
    replace_from, splice,
};
use crate::tool::edit::{
    crlf, exact_outcome, lf, matched_outcome, normalized_line_endings, replace_outcome,
    replaced_backward, replaced_forward, window_span, window_spans, Outcome,
};
use vstd::prelude::*;

verus! {

/// A target that stands in the content exactly once is replaced where it
/// stands, and exact matching alone decides the edit.
pub proof fn lemma_single_occurrence(c: Seq<char>, o: Seq<char>, n: Seq<char>, i: int)
    requires
        o.len() > 0,
        occurs_at(c, o, i),
        forall|j: int| occurs_at(c, o, j) ==> j == i,
    ensures
        exact_outcome(c, o, n, false) == Outcome::Replaced(splice(c, i, o.len() as int, n)),
        replace_outcome(c, o, n, false) == exact_outcome(c, o, n, false),
{
    lemma_first_occurrence(c, o, i);
}

/// Whether `ps` lists, from left to right, every position at which `o` stands
/// in `c`, and no two of these occurrences overlap.
pub open spec fn disjoint_occurrences(c: Seq<char>, o: Seq<char>, ps: Seq<int>) -> bool {
    &&& forall|k: int| 0 <= k < ps.len() ==> occurs_at(c, o, #[trigger] ps[k])
    &&& forall|j: int, k: int| 0 <= j < k < ps.len() ==> #[trigger] ps[j] + o.len() <= #[trigger] ps[k]
    &&& forall|i: int| occurs_at(c, o, i) ==> ps.contains(i)
}

/// The part of `c` from `from` on, with `n` in place of the `len` characters
/// at each of the positions `ps`.
pub open spec fn substituted_from(c: Seq<char>, ps: Seq<int>, len: int, n: Seq<char>, from: int) -> Seq<char>
    decreases ps.len(),
{
    if ps.len() == 0 {
        c.skip(from)
    } else {
        c.subrange(from, ps[0]) + n + substituted_from(c, ps.drop_first(), len, n, ps[0] + len)
    }
}

proof fn lemma_replace_from_substitutes(
    c: Seq<char>,
    o: Seq<char>,
    n: Seq<char>,
    ps: Seq<int>,
    from: int,
)
    requires
        o.len() > 0,
        0 <= from <= c.len(),
        forall|k: int| 0 <= k < ps.len() ==> occurs_at(c, o, #[trigger] ps[k]),
        forall|j: int, k: int|
            0 <= j < k < ps.len() ==> #[trigger] ps[j] + o.len() <= #[trigger] ps[k],
        ps.len() > 0 ==> from <= ps[0],
        forall|i: int| from <= i && occurs_at(c, o, i) ==> ps.contains(i),
    ensures
        replace_from(c, o, n, from) == substituted_from(c, ps, o.len() as int, n, from),
    decreases c.len() - from,
{
    let m = o.len() as int;
    if from + m > c.len() {
        if ps.len() > 0 {
            assert(occurs_at(c, o, ps[0]));
        }
    } else if occurs_at(c, o, from) {
        assert(ps.contains(from));
        let k = choose|k: int| 0 <= k < ps.len() && ps[k] == from;
        if k > 0 {
            assert(ps[0] + o.len() <= ps[k]);
        }
        let rest = ps.drop_first();
        assert forall|i: int| from + m <= i && occurs_at(c, o, i) implies rest.contains(i) by {
            assert(ps.contains(i));
            let k = choose|k: int| 0 <= k < ps.len() && ps[k] == i;
            assert(rest[k - 1] == i);
        }
        assert forall|j: int, k: int| 0 <= j < k < rest.len() implies #[trigger] rest[j] + o.len()
            <= #[trigger] rest[k] by {
            assert(ps[j + 1] + o.len() <= ps[k + 1]);
        }
        if rest.len() > 0 {
            assert(ps[0] + o.len() <= ps[1]);
        }
        lemma_replace_from_substitutes(c, o, n, rest, from + m);
        assert(c.subrange(from, from) =~= Seq::<char>::empty());
        assert(n + replace_from(c, o, n, from + m) =~= c.subrange(from, ps[0]) + n
            + substituted_from(c, rest, m, n, ps[0] + m));
    } else {
        if ps.len() > 0 {
            assert(occurs_at(c, o, ps[0]));
        }
        lemma_replace_from_substitutes(c, o, n, ps, from + 1);
        if ps.len() == 0 {
            assert(seq![c[from]] + c.skip(from + 1) =~= c.skip(from));
        } else {
            assert(seq![c[from]] + c.subrange(from + 1, ps[0]) =~= c.subrange(from, ps[0]));
            assert(seq![c[from]] + (c.subrange(from + 1, ps[0]) + n + substituted_from(
                c,
                ps.drop_first(),
                m,
                n,
                ps[0] + m,
            )) =~= c.subrange(from, ps[0]) + n + substituted_from(
                c,
                ps.drop_first(),
                m,
                n,
                ps[0] + m,
            ));
        }
    }
}

/// A target that stands in the content at several places, no two of them
/// overlapping, makes the edit of one occurrence fail as ambiguous; the edit
/// of all occurrences replaces every one of them.
pub proof fn lemma_several_occurrences(c: Seq<char>, o: Seq<char>, n: Seq<char>, ps: Seq<int>)
    requires
        o.len() > 0,
        ps.len() > 1,
        disjoint_occurrences(c, o, ps),
    ensures
        replace_outcome(c, o, n, false) == Outcome::Ambiguous,
        replace_outcome(c, o, n, true) == Outcome::Replaced(
            substituted_from(c, ps, o.len() as int, n, 0),
        ),
{
    assert(occurs_at(c, o, ps[0]));
    assert(occurs_at(c, o, ps[1]));
    assert(ps[0] + o.len() <= ps[1]);
    lemma_replace_from_substitutes(c, o, n, ps, 0);
}

/// Whether a carriage return stands at position `i` of `t` with a line feed
/// directly after it.
pub open spec fn line_break_at(t: Seq<char>, i: int) -> bool {
    0 <= i && i + 1 < t.len() && t[i] == '\r' && t[i + 1] == '\n'
}

proof fn lemma_line_break_occurs(t: Seq<char>, i: int)
    ensures
        occurs_at(t, crlf(), i) == line_break_at(t, i),
{
    if line_break_at(t, i) {
        assert(t.subrange(i, i + 2) =~= crlf());
    }
    if occurs_at(t, crlf(), i) {
        assert(t.subrange(i, i + 2)[0] == '\r');
        assert(t.subrange(i, i + 2)[1] == '\n');
    }
}

/// Whether two carriage returns and a line feed stand in `t` from position
/// `i` on.
pub open spec fn doubled_return_at(t: Seq<char>, i: int) -> bool {
    0 <= i && i + 2 < t.len() && t[i] == '\r' && t[i + 1] == '\r' && t[i + 2] == '\n'
}

proof fn lemma_normalized_has_no_line_break(c: Seq<char>, from: int)
    requires
        0 <= from <= c.len(),
        forall|i: int| from <= i ==> !doubled_return_at(c, i),
    ensures
        forall|k: int| !line_break_at(replace_from(c, crlf(), lf(), from), k),
        ({
            let r = replace_from(c, crlf(), lf(), from);
            r.len() > 0 && r[0] == '\n' ==> from < c.len() && (c[from] == '\n' || line_break_at(
                c,
                from,
            ))
        }),
    decreases c.len() - from,
{
    let r = replace_from(c, crlf(), lf(), from);
    lemma_line_break_occurs(c, from);
    if from + 2 > c.len() {
    } else if occurs_at(c, crlf(), from) {
        lemma_normalized_has_no_line_break(c, from + 2);
        let rest = replace_from(c, crlf(), lf(), from + 2);
        assert(r == lf() + rest);
        assert forall|k: int| !line_break_at(r, k) by {
            if line_break_at(r, k) {
                assert(k >= 1);
                assert(line_break_at(rest, k - 1));
            }
        }
    } else {
        lemma_normalized_has_no_line_break(c, from + 1);
        let rest = replace_from(c, crlf(), lf(), from + 1);
        assert(r == seq![c[from]] + rest);
        assert forall|k: int| !line_break_at(r, k) by {
            if line_break_at(r, k) {
                if k == 0 {
                    assert(rest[0] == '\n');
                    assert(!doubled_return_at(c, from));
                } else {
                    assert(line_break_at(rest, k - 1));
                }
            }
        }
    }
}

proof fn lemma_replace_without_occurrence(t: Seq<char>, o: Seq<char>, n: Seq<char>, from: int)
    requires
        o.len() > 0,
        0 <= from <= t.len(),
        forall|i: int| from <= i ==> !occurs_at(t, o, i),
    ensures
        replace_from(t, o, n, from) == t.skip(from),
    decreases t.len() - from,
{
    if from + o.len() <= t.len() {
        lemma_replace_without_occurrence(t, o, n, from + 1);
        assert(seq![t[from]] + t.skip(from + 1) =~= t.skip(from));
    }
}

/// Normalizing line endings a second time changes nothing, for every text in
/// which no carriage return stands directly before a carriage return and a
/// line feed.
pub proof fn lemma_normalizing_twice(text: Seq<char>)
    requires
        !contains(text, seq!['\r', '\r', '\n']),
    ensures
        normalized_line_endings(normalized_line_endings(text)) == normalized_line_endings(text),
{
    assert forall|i: int| 0 <= i implies !doubled_return_at(text, i) by {
        if doubled_return_at(text, i) {
            assert(text.subrange(i, i + 3) =~= seq!['\r', '\r', '\n']);
            assert(occurs_at(text, seq!['\r', '\r', '\n'], i));
        }
    }
    lemma_normalized_has_no_line_break(text, 0);
    let once = normalized_line_endings(text);
    assert forall|i: int| 0 <= i implies !occurs_at(once, crlf(), i) by {
        lemma_line_break_occurs(once, i);
    }
    lemma_replace_without_occurrence(once, crlf(), lf(), 0);
    assert(once.skip(0) =~= once);
}


/// A strategy that has found one window of lines replaces this window where
/// it stands in the content, and leaves all else as it is: what stands
/// there before the first line of the window and after its last line is
/// kept, whether or not the text of the window occurs there too.
pub proof fn lemma_one_window(c: Seq<char>, w: (int, int), n: Seq<char>, all: bool, backwards: bool)
    requires
        0 <= w.0 < w.1 <= lines(c).len(),
    ensures
        ({
            let span = window_span(line_spans(c), w);
            &&& 0 <= span.0 <= span.1 <= c.len()
            &&& matched_outcome(c, seq![w], n, all, backwards) == Outcome::Replaced(
                splice(c, span.0, span.1 - span.0, n),
            )
        }),
{
    lemma_line_spans_from(c, 0);
    let spans = line_spans(c);
    let span = window_span(spans, w);
    if w.0 < w.1 - 1 {
        assert(spans[w.0].1 < spans[w.1 - 1].0);
    }
    let all_spans = window_spans(c, seq![w]);
    assert(all_spans =~= seq![span]);
    assert(all_spans.drop_first() =~= Seq::<(int, int)>::empty());
    assert(all_spans.drop_last() =~= Seq::<(int, int)>::empty());
    assert(replaced_forward(c, all_spans, n, 0) == c.subrange(0, span.0) + n + replaced_forward(
        c,
        all_spans.drop_first(),
        n,
        span.1,
    ));
    assert(replaced_backward(c, all_spans, n, c.len() as int) == replaced_backward(
        c,
        all_spans.drop_last(),
        n,
        span.0,
    ) + n + c.subrange(span.1, c.len() as int));
    assert(c.subrange(0, span.0) =~= c.take(span.0));
    assert(c.subrange(span.1, c.len() as int) =~= c.skip(span.1));
}

/// A window of one line covers exactly that line.
pub proof fn lemma_window_of_one_line(c: Seq<char>, i: int)
    requires
        0 <= i < lines(c).len(),
    ensures
        ({
            let span = window_span(line_spans(c), (i, i + 1));
            c.subrange(span.0, span.1) == lines(c)[i]
        }),
{
    lemma_line_spans_from(c, 0);
}


/// Whether the spans `spans` lie between `from` and `upto`, one after the
/// other, and no two of them overlap.
pub open spec fn spans_apart(spans: Seq<(int, int)>, from: int, upto: int) -> bool {
    &&& forall|i: int| 0 <= i < spans.len() ==> from <= (#[trigger] spans[i]).0 <= spans[i].1 <= upto
    &&& forall|i: int, j: int|
        0 <= i < j < spans.len() ==> (#[trigger] spans[i]).1 <= (#[trigger] spans[j]).0
}

proof fn lemma_forward_last(
    c: Seq<char>,
    init: Seq<(int, int)>,
    last: (int, int),
    n: Seq<char>,
    from: int,
)
    requires
        0 <= from,
        spans_apart(init.push(last), from, c.len() as int),
    ensures
        replaced_forward(c, init.push(last), n, from) == replaced_forward(
            c.take(last.0),
            init,
            n,
            from,
        ) + n + c.skip(last.1),
    decreases init.len(),
{
    let spans = init.push(last);
    assert(spans[spans.len() - 1] == last);
    if init.len() == 0 {
        assert(spans.drop_first() =~= Seq::<(int, int)>::empty());
        assert(replaced_forward(c, spans.drop_first(), n, last.1) == c.skip(last.1));
        assert(c.take(last.0).skip(from) =~= c.subrange(from, last.0));
    } else {
        let first = init[0];
        assert(spans[0] == first);
        assert(first.1 <= last.0);
        let rest = init.drop_first();
        assert(spans.drop_first() =~= rest.push(last));
        assert(spans_apart(rest.push(last), first.1, c.len() as int)) by {
            assert forall|i: int| 0 <= i < rest.push(last).len() implies first.1 <= (
            #[trigger] rest.push(last)[i]).0 <= rest.push(last)[i].1 <= c.len() by {
                assert(rest.push(last)[i] == spans[i + 1]);
            }
            assert forall|i: int, j: int| 0 <= i < j < rest.push(last).len() implies (
            #[trigger] rest.push(last)[i]).1 <= (#[trigger] rest.push(last)[j]).0 by {
                assert(rest.push(last)[i] == spans[i + 1]);
                assert(rest.push(last)[j] == spans[j + 1]);
            }
        }
        lemma_forward_last(c, rest, last, n, first.1);
        assert(c.take(last.0).subrange(from, first.0) =~= c.subrange(from, first.0));
        assert(replaced_forward(c, spans, n, from) =~= c.subrange(from, first.0) + n + (
        replaced_forward(c.take(last.0), rest, n, first.1) + n + c.skip(last.1)));
    }
}

proof fn lemma_backward_is_forward(c: Seq<char>, spans: Seq<(int, int)>, n: Seq<char>, upto: int)
    requires
        0 <= upto <= c.len(),
        spans_apart(spans, 0, upto),
    ensures
        replaced_backward(c, spans, n, upto) == replaced_forward(c.take(upto), spans, n, 0),
    decreases spans.len(),
{
    if spans.len() == 0 {
        assert(c.take(upto).skip(0) =~= c.take(upto));
    } else {
        let last = spans.last();
        let init = spans.drop_last();
        assert(spans[spans.len() - 1] == last);
        assert(init.push(last) =~= spans);
        assert(spans_apart(init, 0, last.0)) by {
            assert forall|i: int| 0 <= i < init.len() implies 0 <= (#[trigger] init[i]).0
                <= init[i].1 <= last.0 by {
                assert(init[i] == spans[i]);
            }
            assert forall|i: int, j: int| 0 <= i < j < init.len() implies (#[trigger] init[i]).1
                <= (#[trigger] init[j]).0 by {
                assert(init[i] == spans[i] && init[j] == spans[j]);
            }
        }
        lemma_backward_is_forward(c, init, n, last.0);
        let cut = c.take(upto);
        lemma_forward_last(cut, init, last, n, 0);
        assert(cut.take(last.0) =~= c.take(last.0));
        assert(cut.skip(last.1) =~= c.subrange(last.1, upto));
    }
}

/// Where no two of the spans overlap, it makes no difference whether they
/// are replaced from the first to the last or from the last to the first.
pub proof fn lemma_spans_apart(c: Seq<char>, spans: Seq<(int, int)>, n: Seq<char>)
    requires
        spans_apart(spans, 0, c.len() as int),
    ensures
        replaced_backward(c, spans, n, c.len() as int) == replaced_forward(c, spans, n, 0),
{
    lemma_backward_is_forward(c, spans, n, c.len() as int);
    assert(c.take(c.len() as int) =~= c);
}

} // verus!
