//! The edit tool: replaces a target text in a file's content, and falls back
//! from exact matching to more tolerant matching when the target has drifted
//! from the content in whitespace or line boundaries.
//!
//! The tolerant strategies match whole lines. What they find is a window of
//! lines of the content, and what they replace is that window, where it
//! stands: from the first character of its first line to the last character
//! of its last line. The same text elsewhere in the content is not touched.

use crate::error::AgentError;
use crate::json::{member, members_view, Json, JsonValue, Member};
use crate::text::{
    append, contains, find_from, from_chars, lemma_line_spans_from, line_spans, line_spans_of,
    lines, normalize_chars, normalize_whitespace, occurs_at, occurs_once, replace_all,
    replace_all_in, replace_first, replace_first_in, same, slice, spans_view, split_lines,
    strings_view, texts, to_chars, trim, trim_chars,
};
use crate::tool::context::ToolContext;
use crate::tool::diff::{
    count_changes, count_kind, create_diff, diff_lines, grouped_changes, render_diff, unified,
    ChangeKind, CONTEXT_LINES,
};
use crate::tool::{make_property, make_schema, property, schema, strings, ToolResult};
use vstd::prelude::*;

verus! {

/// What the edit tool says of itself.
pub const DESCRIPTION: &'static str = "Performs exact string replacements in files.\n\nUsage:\n- The filePath parameter must be an absolute path\n- oldString must exist in the file (exact match or fuzzy match fallback)\n- newString must be different from oldString\n- Use replaceAll=true to replace all occurrences\n- The edit will fail if oldString matches multiple locations (use more context)";

/// How one matching strategy ends.
pub enum Outcome {
    /// The strategy found what to replace; this is the new content.
    Replaced(Seq<char>),
    /// The strategy found several candidates where one was asked for.
    Ambiguous,
    /// The strategy found no candidate.
    NoMatch,
}

/// How one matching strategy ends, as a value at run time.
pub enum Attempt {
    Replaced(Vec<char>),
    Ambiguous,
    NoMatch,
}

impl View for Attempt {
    type V = Outcome;

    open spec fn view(&self) -> Outcome {
        match self {
            Attempt::Replaced(text) => Outcome::Replaced(text@),
            Attempt::Ambiguous => Outcome::Ambiguous,
            Attempt::NoMatch => Outcome::NoMatch,
        }
    }
}

impl Outcome {
    /// The new content, where there is one.
    pub open spec fn replaced(self) -> Option<Seq<char>> {
        match self {
            Outcome::Replaced(text) => Some(text),
            _ => None,
        }
    }
}

/// The carriage return followed by a line feed.
pub open spec fn crlf() -> Seq<char> {
    seq!['\r', '\n']
}

/// The line feed alone.
pub open spec fn lf() -> Seq<char> {
    seq!['\n']
}

/// `text` with every carriage return that a line feed follows taken out.
pub open spec fn normalized_line_endings(text: Seq<char>) -> Seq<char> {
    replace_all(text, crlf(), lf())
}

/// Turns line endings of two characters into line feeds.
pub fn normalize_line_endings(text: &str) -> (r: String)
    ensures
        r@ == normalized_line_endings(text@),
{
    let c = to_chars(text);
    let mut o: Vec<char> = Vec::new();
    o.push('\r');
    o.push('\n');
    let mut n: Vec<char> = Vec::new();
    n.push('\n');
    assert(o@ =~= crlf());
    assert(n@ =~= lf());
    let r = replace_all_in(&c, &o, &n);
    from_chars(&r)
}

/// Exact matching: `old` is searched as it stands. One occurrence is
/// replaced; with `replace_all`, every occurrence from left to right.
pub open spec fn exact_outcome(c: Seq<char>, o: Seq<char>, n: Seq<char>, all: bool) -> Outcome {
    if !contains(c, o) {
        Outcome::NoMatch
    } else if all {
        Outcome::Replaced(replace_all(c, o, n))
    } else if occurs_once(c, o) {
        Outcome::Replaced(replace_first(c, o, n))
    } else {
        Outcome::Ambiguous
    }
}

/// Exact matching, on characters.
pub fn exact_attempt(c: &Vec<char>, o: &Vec<char>, n: &Vec<char>, all: bool) -> (a: Attempt)
    requires
        o@.len() > 0,
    ensures
        a@ == exact_outcome(c@, o@, n@, all),
{
    match find_from(c, o, 0) {
        None => Attempt::NoMatch,
        Some(i) => {
            assert(occurs_at(c@, o@, i as int) && i < c.len());
            if all {
                Attempt::Replaced(replace_all_in(c, o, n))
            } else {
                match find_from(c, o, i + 1) {
                    None => {
                        assert(forall|j: int| occurs_at(c@, o@, j) ==> j == i);
                        Attempt::Replaced(replace_first_in(c, o, n))
                    },
                    Some(k) => {
                        assert(occurs_at(c@, o@, k as int));
                        Attempt::Ambiguous
                    },
                }
            }
        },
    }
}

/// Whether each of the windows `ws` is a run of at least one line among
/// `count` lines: it names its first line and the line after its last.
pub open spec fn windows_within(ws: Seq<(int, int)>, count: int) -> bool {
    forall|k: int| 0 <= k < ws.len() ==> 0 <= (#[trigger] ws[k]).0 < ws[k].1 <= count
}

/// Where the window `w` of lines stands in the content whose lines stand
/// at `spans`: from the first character of its first line to the last
/// character of its last line. The line ending after the window is no part
/// of it.
pub open spec fn window_span(spans: Seq<(int, int)>, w: (int, int)) -> (int, int) {
    (spans[w.0].0, spans[w.1 - 1].1)
}

/// Where the windows `ws` stand in `c`.
pub open spec fn window_spans(c: Seq<char>, ws: Seq<(int, int)>) -> Seq<(int, int)> {
    ws.map_values(|w: (int, int)| window_span(line_spans(c), w))
}

/// The part of `c` from `from` on, with `n` in place of what stands at each
/// of the spans `spans`, taken from the first to the last. A span that
/// begins in what a span before it covered stays as it is.
pub open spec fn replaced_forward(
    c: Seq<char>,
    spans: Seq<(int, int)>,
    n: Seq<char>,
    from: int,
) -> Seq<char>
    decreases spans.len(),
{
    if spans.len() == 0 {
        c.skip(from)
    } else if spans[0].0 < from {
        replaced_forward(c, spans.drop_first(), n, from)
    } else {
        c.subrange(from, spans[0].0) + n + replaced_forward(
            c,
            spans.drop_first(),
            n,
            spans[0].1,
        )
    }
}

/// The part of `c` up to `upto`, with `n` in place of what stands at each of
/// the spans `spans`, taken from the last to the first. A span that ends in
/// what a span after it covered stays as it is.
pub open spec fn replaced_backward(
    c: Seq<char>,
    spans: Seq<(int, int)>,
    n: Seq<char>,
    upto: int,
) -> Seq<char>
    decreases spans.len(),
{
    if spans.len() == 0 {
        c.take(upto)
    } else if spans.last().1 > upto {
        replaced_backward(c, spans.drop_last(), n, upto)
    } else {
        replaced_backward(c, spans.drop_last(), n, spans.last().0) + n + c.subrange(
            spans.last().1,
            upto,
        )
    }
}

/// `c` with `n` in place of each of the windows `ws`, every window where it
/// stands in `c`.
pub open spec fn replaced_windows(
    c: Seq<char>,
    ws: Seq<(int, int)>,
    n: Seq<char>,
    backwards: bool,
) -> Seq<char> {
    if backwards {
        replaced_backward(c, window_spans(c, ws), n, c.len() as int)
    } else {
        replaced_forward(c, window_spans(c, ws), n, 0)
    }
}

/// How a strategy ends that has collected the candidate windows `ws`, from
/// the top of `c` down: with nothing found, with a refusal where several
/// were found and one was asked for, or with the content in which each
/// window has given way to `n`.
pub open spec fn matched_outcome(
    c: Seq<char>,
    ws: Seq<(int, int)>,
    n: Seq<char>,
    all: bool,
    backwards: bool,
) -> Outcome {
    if ws.len() == 0 {
        Outcome::NoMatch
    } else if !all && ws.len() > 1 {
        Outcome::Ambiguous
    } else {
        Outcome::Replaced(replaced_windows(c, ws, n, backwards))
    }
}

/// Where the windows `ws` stand in `c`.
fn spans_of_windows(c: &Vec<char>, ws: &Vec<(usize, usize)>) -> (r: Vec<(usize, usize)>)
    requires
        windows_within(spans_view(ws@), lines(c@).len() as int),
    ensures
        spans_view(r@) == window_spans(c@, spans_view(ws@)),
        forall|k: int| 0 <= k < r@.len() ==> (#[trigger] r@[k]).0 <= r@[k].1 <= c@.len(),
{
    let spans = line_spans_of(c);
    proof {
        lemma_line_spans_from(c@, 0);
    }
    let ghost all = line_spans(c@);
    let mut r: Vec<(usize, usize)> = Vec::new();
    let mut k: usize = 0;
    assert(spans_view(r@) =~= window_spans(c@, spans_view(ws@)).take(0));
    while k < ws.len()
        invariant
            k <= ws.len(),
            all == line_spans(c@),
            spans_view(spans@) == all,
            all.len() == lines(c@).len(),
            windows_within(spans_view(ws@), lines(c@).len() as int),
            forall|i: int| 0 <= i < all.len() ==> 0 <= (#[trigger] all[i]).0 <= all[i].1 <= c@.len(),
            forall|i: int, j: int|
                0 <= i < j < all.len() ==> (#[trigger] all[i]).1 < (#[trigger] all[j]).0,
            spans_view(r@) == window_spans(c@, spans_view(ws@)).take(k as int),
            forall|i: int| 0 <= i < r@.len() ==> (#[trigger] r@[i]).0 <= r@[i].1 <= c@.len(),
        decreases ws.len() - k,
    {
        let ghost before = spans_view(r@);
        let w = ws[k];
        assert(spans_view(ws@)[k as int] == (w.0 as int, w.1 as int));
        assert(0 <= w.0 < w.1 <= all.len());
        assert(all[w.0 as int] == (spans@[w.0 as int].0 as int, spans@[w.0 as int].1 as int));
        assert(all[w.1 - 1] == (spans@[w.1 - 1].0 as int, spans@[w.1 - 1].1 as int));
        let start: usize = spans[w.0].0;
        let stop: usize = spans[w.1 - 1].1;
        assert(start <= stop) by {
            if w.0 < w.1 - 1 {
                assert(all[w.0 as int].1 < all[w.1 - 1].0);
            }
        }
        r.push((start, stop));
        assert(spans_view(r@) =~= before.push((start as int, stop as int)));
        assert(before.push((start as int, stop as int)) =~= window_spans(
            c@,
            spans_view(ws@),
        ).take(k + 1));
        k += 1;
    }
    assert(window_spans(c@, spans_view(ws@)).take(ws@.len() as int) =~= window_spans(
        c@,
        spans_view(ws@),
    ));
    r
}

/// `c` with `n` in place of what stands at each of the spans, taken from the
/// first to the last.
fn replace_forward(c: &Vec<char>, spans: &Vec<(usize, usize)>, n: &Vec<char>) -> (r: Vec<char>)
    requires
        forall|k: int| 0 <= k < spans@.len() ==> (#[trigger] spans@[k]).0 <= spans@[k].1 <= c@.len(),
    ensures
        r@ == replaced_forward(c@, spans_view(spans@), n@, 0),
{
    let ghost all = spans_view(spans@);
    let mut r: Vec<char> = Vec::new();
    let mut from: usize = 0;
    let mut k: usize = 0;
    assert(all.skip(0) =~= all);
    while k < spans.len()
        invariant
            k <= spans.len(),
            from <= c.len(),
            all == spans_view(spans@),
            forall|i: int|
                0 <= i < spans@.len() ==> (#[trigger] spans@[i]).0 <= spans@[i].1 <= c@.len(),
            r@ + replaced_forward(c@, all.skip(k as int), n@, from as int) == replaced_forward(
                c@,
                all,
                n@,
                0,
            ),
        decreases spans.len() - k,
    {
        let span = spans[k];
        let ghost rest = all.skip(k as int);
        assert(rest[0] == (span.0 as int, span.1 as int));
        assert(rest.drop_first() =~= all.skip(k + 1));
        if span.0 >= from {
            let ghost before = r@;
            let kept = slice(c, from, span.0);
            append(&mut r, &kept);
            append(&mut r, n);
            assert(r@ + replaced_forward(c@, all.skip(k + 1), n@, span.1 as int) =~= before
                + replaced_forward(c@, rest, n@, from as int));
            from = span.1;
        }
        k += 1;
    }
    let ghost before = r@;
    let kept = slice(c, from, c.len());
    append(&mut r, &kept);
    assert(c@.skip(from as int) =~= c@.subrange(from as int, c@.len() as int));
    assert(r@ =~= before + replaced_forward(c@, all.skip(spans@.len() as int), n@, from as int));
    r
}

/// `c` with `n` in place of what stands at each of the spans, taken from the
/// last to the first.
fn replace_backward(c: &Vec<char>, spans: &Vec<(usize, usize)>, n: &Vec<char>) -> (r: Vec<char>)
    requires
        forall|k: int| 0 <= k < spans@.len() ==> (#[trigger] spans@[k]).0 <= spans@[k].1 <= c@.len(),
    ensures
        r@ == replaced_backward(c@, spans_view(spans@), n@, c@.len() as int),
{
    let ghost all = spans_view(spans@);
    let mut tail: Vec<char> = Vec::new();
    let mut upto: usize = c.len();
    let mut k: usize = spans.len();
    assert(all.take(k as int) =~= all);
    while k > 0
        invariant
            k <= spans.len(),
            upto <= c.len(),
            all == spans_view(spans@),
            forall|i: int|
                0 <= i < spans@.len() ==> (#[trigger] spans@[i]).0 <= spans@[i].1 <= c@.len(),
            replaced_backward(c@, all.take(k as int), n@, upto as int) + tail@
                == replaced_backward(c@, all, n@, c@.len() as int),
        decreases k,
    {
        let span = spans[k - 1];
        let ghost front = all.take(k as int);
        assert(front.last() == (span.0 as int, span.1 as int));
        assert(front.drop_last() =~= all.take(k - 1));
        if span.1 <= upto {
            let ghost after = tail@;
            let mut longer = slice(n, 0, n.len());
            assert(longer@ =~= n@);
            let kept = slice(c, span.1, upto);
            append(&mut longer, &kept);
            append(&mut longer, &tail);
            assert(replaced_backward(c@, all.take(k - 1), n@, span.0 as int) + longer@
                =~= replaced_backward(c@, front, n@, upto as int) + after);
            tail = longer;
            upto = span.0;
        }
        k -= 1;
    }
    let mut r = slice(c, 0, upto);
    assert(r@ =~= replaced_backward(c@, all.take(0), n@, upto as int));
    append(&mut r, &tail);
    r
}

/// What a strategy comes to that has collected the candidate windows `ws`.
fn matched_attempt(
    c: &Vec<char>,
    ws: &Vec<(usize, usize)>,
    n: &Vec<char>,
    all: bool,
    backwards: bool,
) -> (a: Attempt)
    requires
        windows_within(spans_view(ws@), lines(c@).len() as int),
    ensures
        a@ == matched_outcome(c@, spans_view(ws@), n@, all, backwards),
{
    let count: usize = ws.len();
    assert(spans_view(ws@).len() == count);
    if count == 0 {
        return Attempt::NoMatch;
    }
    if !all && count > 1 {
        return Attempt::Ambiguous;
    }
    let spans = spans_of_windows(c, ws);
    if backwards {
        Attempt::Replaced(replace_backward(c, &spans, n))
    } else {
        Attempt::Replaced(replace_forward(c, &spans, n))
    }
}

/// Whether the lines of `sl` equal the lines of `cl` from line `i` on, line
/// by line, once the whitespace at the ends of each line is set aside.
pub open spec fn window_matches(cl: Seq<Seq<char>>, sl: Seq<Seq<char>>, i: int) -> bool {
    &&& 0 <= i
    &&& i + sl.len() <= cl.len()
    &&& forall|j: int| 0 <= j < sl.len() ==> trim(#[trigger] cl[i + j]) == trim(sl[j])
}

/// The windows of `cl` that start before line `k` and match `sl`.
pub open spec fn trimmed_windows(cl: Seq<Seq<char>>, sl: Seq<Seq<char>>, k: int) -> Seq<(int, int)>
    decreases k,
{
    if k <= 0 {
        Seq::empty()
    } else if window_matches(cl, sl, k - 1) {
        trimmed_windows(cl, sl, k - 1).push((k - 1, k - 1 + sl.len()))
    } else {
        trimmed_windows(cl, sl, k - 1)
    }
}

/// The candidates of line-trimmed matching, from the top of `c` down.
pub open spec fn line_trimmed_matches(c: Seq<char>, o: Seq<char>) -> Seq<(int, int)> {
    let cl = lines(c);
    let sl = lines(o);
    if sl.len() == 0 {
        Seq::empty()
    } else {
        trimmed_windows(cl, sl, cl.len() - sl.len() + 1)
    }
}

/// Line-trimmed matching: a window of as many lines as `o` has slides over
/// the lines of `c`; it is a candidate where each of its lines equals the
/// line of `o` beside it, whitespace at the ends set aside. A candidate is
/// replaced where it stands; where all are asked for, they are taken from
/// the last one up.
pub open spec fn line_trimmed_outcome(c: Seq<char>, o: Seq<char>, n: Seq<char>, all: bool) -> Outcome {
    matched_outcome(c, line_trimmed_matches(c, o), n, all, true)
}

/// Each line with the whitespace at its ends taken away.
pub fn trim_each(ls: &Vec<Vec<char>>) -> (r: Vec<Vec<char>>)
    ensures
        r.len() == ls.len(),
        forall|i: int| 0 <= i < ls.len() ==> (#[trigger] r@[i])@ == trim(ls@[i]@),
{
    let mut r: Vec<Vec<char>> = Vec::new();
    let mut i: usize = 0;
    while i < ls.len()
        invariant
            i <= ls.len(),
            r.len() == i,
            forall|k: int| 0 <= k < i ==> (#[trigger] r@[k])@ == trim(ls@[k]@),
        decreases ls.len() - i,
    {
        r.push(trim_chars(&ls[i]));
        i += 1;
    }
    r
}

/// The candidates of line-trimmed matching, from the top of `c` down.
pub fn line_trimmed_candidates(c: &Vec<char>, o: &Vec<char>) -> (m: Vec<(usize, usize)>)
    ensures
        spans_view(m@) == line_trimmed_matches(c@, o@),
        windows_within(spans_view(m@), lines(c@).len() as int),
{
    let cl = split_lines(c);
    let sl = split_lines(o);
    let mut m: Vec<(usize, usize)> = Vec::new();
    assert(spans_view(m@) =~= Seq::<(int, int)>::empty());
    if sl.len() == 0 || cl.len() < sl.len() {
        return m;
    }
    let ct = trim_each(&cl);
    let st = trim_each(&sl);
    let last: usize = cl.len() - sl.len();
    let mut i: usize = 0;
    while i <= last
        invariant
            i <= last + 1,
            last == cl.len() - sl.len(),
            sl.len() > 0,
            ct.len() == cl.len(),
            st.len() == sl.len(),
            forall|k: int| 0 <= k < cl.len() ==> (#[trigger] ct@[k])@ == trim(cl@[k]@),
            forall|k: int| 0 <= k < sl.len() ==> (#[trigger] st@[k])@ == trim(sl@[k]@),
            spans_view(m@) == trimmed_windows(texts(cl@), texts(sl@), i as int),
            windows_within(spans_view(m@), cl@.len() as int),
        decreases last + 1 - i,
    {
        let mut j: usize = 0;
        let mut ok: bool = true;
        while ok && j < sl.len()
            invariant
                j <= sl.len(),
                i <= last,
                last == cl.len() - sl.len(),
                ct.len() == cl.len(),
                st.len() == sl.len(),
                forall|k: int| 0 <= k < cl.len() ==> (#[trigger] ct@[k])@ == trim(cl@[k]@),
                forall|k: int| 0 <= k < sl.len() ==> (#[trigger] st@[k])@ == trim(sl@[k]@),
                ok ==> forall|k: int|
                    0 <= k < j ==> trim(#[trigger] texts(cl@)[i + k]) == trim(texts(sl@)[k]),
                !ok ==> !window_matches(texts(cl@), texts(sl@), i as int),
            decreases sl.len() - j + if ok { 1int } else { 0int },
        {
            if same(&ct[i + j], &st[j]) {
                j += 1;
            } else {
                assert(trim(texts(cl@)[i + j]) != trim(texts(sl@)[j as int]));
                ok = false;
            }
        }
        if ok {
            let ghost before = spans_view(m@);
            m.push((i, i + sl.len()));
            assert(spans_view(m@) =~= before.push((i as int, i + sl@.len())));
        }
        i += 1;
    }
    m
}

/// The lines among the first `k` of `cl` whose words, joined by single spaces,
/// give `target`, each as a window of one line.
pub open spec fn normalized_lines(cl: Seq<Seq<char>>, target: Seq<char>, k: int) -> Seq<(int, int)>
    decreases k,
{
    if k <= 0 || k > cl.len() {
        Seq::empty()
    } else if normalize_whitespace(cl[k - 1]) == target {
        normalized_lines(cl, target, k - 1).push((k - 1, k))
    } else {
        normalized_lines(cl, target, k - 1)
    }
}

/// The candidates of whitespace-normalized matching, from the top of `c` down.
pub open spec fn whitespace_matches(c: Seq<char>, o: Seq<char>) -> Seq<(int, int)> {
    normalized_lines(lines(c), normalize_whitespace(o), lines(c).len() as int)
}

/// Whitespace-normalized matching: a line of `c` is a candidate where it
/// equals `o` once every run of whitespace in both has become one space and
/// the whitespace at their ends is gone. A candidate is replaced where it
/// stands.
pub open spec fn whitespace_outcome(c: Seq<char>, o: Seq<char>, n: Seq<char>, all: bool) -> Outcome {
    matched_outcome(c, whitespace_matches(c, o), n, all, false)
}

/// The candidates of whitespace-normalized matching, from the top of `c` down.
pub fn whitespace_candidates(c: &Vec<char>, o: &Vec<char>) -> (m: Vec<(usize, usize)>)
    ensures
        spans_view(m@) == whitespace_matches(c@, o@),
        windows_within(spans_view(m@), lines(c@).len() as int),
{
    let cl = split_lines(c);
    let target = normalize_chars(o);
    let mut m: Vec<(usize, usize)> = Vec::new();
    assert(spans_view(m@) =~= Seq::<(int, int)>::empty());
    let mut i: usize = 0;
    while i < cl.len()
        invariant
            i <= cl.len(),
            target@ == normalize_whitespace(o@),
            spans_view(m@) == normalized_lines(texts(cl@), target@, i as int),
            windows_within(spans_view(m@), cl@.len() as int),
        decreases cl.len() - i,
    {
        let line = normalize_chars(&cl[i]);
        if same(&line, &target) {
            let ghost before = spans_view(m@);
            m.push((i, i + 1));
            assert(spans_view(m@) =~= before.push((i as int, i + 1)));
        }
        i += 1;
    }
    m
}

/// The number of lines of `cl` from line `from` on that come before the next
/// line that equals `last` once trimmed, or before the end of `cl`.
pub open spec fn lines_before(cl: Seq<Seq<char>>, last: Seq<char>, from: int) -> nat
    decreases cl.len() - from,
{
    if from < 0 || from >= cl.len() || trim(cl[from]) == last {
        0
    } else {
        1 + lines_before(cl, last, from + 1)
    }
}

/// The line that closes the block opened at line `i`: the nearest line at
/// least two below `i` that equals `last` once trimmed. It is `cl.len()` or
/// more where no line closes the block.
pub open spec fn block_end(cl: Seq<Seq<char>>, last: Seq<char>, i: int) -> int {
    i + 2 + lines_before(cl, last, i + 2)
}

/// The blocks that open before line `k`, each as a window from its first
/// line to its last.
pub open spec fn anchored_blocks(
    cl: Seq<Seq<char>>,
    first: Seq<char>,
    last: Seq<char>,
    k: int,
) -> Seq<(int, int)>
    decreases k,
{
    if k <= 0 || k > cl.len() {
        Seq::empty()
    } else if trim(cl[k - 1]) == first && block_end(cl, last, k - 1) < cl.len() {
        anchored_blocks(cl, first, last, k - 1).push((k - 1, block_end(cl, last, k - 1) + 1))
    } else {
        anchored_blocks(cl, first, last, k - 1)
    }
}

/// The candidates of block-anchor matching, from the top of `c` down.
pub open spec fn block_anchor_matches(c: Seq<char>, o: Seq<char>) -> Seq<(int, int)> {
    let cl = lines(c);
    let sl = lines(o);
    if sl.len() < 3 {
        Seq::empty()
    } else {
        anchored_blocks(cl, trim(sl.first()), trim(sl.last()), cl.len() as int)
    }
}

/// Block-anchor matching, for an `o` of three lines or more: a candidate is a
/// run of lines of `c` whose first line equals the first line of `o` and
/// whose last line equals the last line of `o`, whitespace at the ends set
/// aside, with at least one line between them; the run ends at the nearest
/// such last line. A candidate is replaced where it stands; where all are
/// asked for, a block that opens inside a block before it stays as it is.
pub open spec fn block_anchor_outcome(c: Seq<char>, o: Seq<char>, n: Seq<char>, all: bool) -> Outcome {
    matched_outcome(c, block_anchor_matches(c, o), n, all, false)
}

/// The candidates of block-anchor matching, from the top of `c` down.
pub fn block_anchor_candidates(c: &Vec<char>, o: &Vec<char>) -> (m: Vec<(usize, usize)>)
    ensures
        spans_view(m@) == block_anchor_matches(c@, o@),
        windows_within(spans_view(m@), lines(c@).len() as int),
{
    let cl = split_lines(c);
    let sl = split_lines(o);
    let mut m: Vec<(usize, usize)> = Vec::new();
    assert(spans_view(m@) =~= Seq::<(int, int)>::empty());
    if sl.len() < 3 {
        return m;
    }
    let ct = trim_each(&cl);
    let first = trim_chars(&sl[0]);
    let last = trim_chars(&sl[sl.len() - 1]);
    let count: usize = cl.len();
    let mut i: usize = 0;
    while i < count
        invariant
            i <= count,
            count == cl.len(),
            ct.len() == cl.len(),
            forall|k: int| 0 <= k < cl.len() ==> (#[trigger] ct@[k])@ == trim(cl@[k]@),
            spans_view(m@) == anchored_blocks(texts(cl@), first@, last@, i as int),
            windows_within(spans_view(m@), count as int),
        decreases count - i,
    {
        if same(&ct[i], &first) && count - i > 2 {
            let mut j: usize = i + 2;
            while j < count && !same(&ct[j], &last)
                invariant
                    i + 2 <= j <= count,
                    count == cl.len(),
                    ct.len() == cl.len(),
                    forall|k: int| 0 <= k < cl.len() ==> (#[trigger] ct@[k])@ == trim(cl@[k]@),
                    lines_before(texts(cl@), last@, i + 2) == (j - (i + 2)) + lines_before(
                        texts(cl@),
                        last@,
                        j as int,
                    ),
                decreases count - j,
            {
                assert(trim(texts(cl@)[j as int]) != last@);
                j += 1;
            }
            if j < count {
                assert(trim(texts(cl@)[j as int]) == last@);
                let ghost before = spans_view(m@);
                m.push((i, j + 1));
                assert(spans_view(m@) =~= before.push((i as int, j + 1)));
            }
        }
        i += 1;
    }
    m
}

/// The edit as a whole: the four strategies in order, from exact to most
/// tolerant. The first strategy that finds a candidate decides: it gives the
/// new content, or it fails as ambiguous where it found several candidates
/// and one was asked for. A later strategy is tried only where the ones
/// before it found nothing.
pub open spec fn replace_outcome(c: Seq<char>, o: Seq<char>, n: Seq<char>, all: bool) -> Outcome {
    if !(exact_outcome(c, o, n, all) is NoMatch) {
        exact_outcome(c, o, n, all)
    } else if !(line_trimmed_outcome(c, o, n, all) is NoMatch) {
        line_trimmed_outcome(c, o, n, all)
    } else if !(whitespace_outcome(c, o, n, all) is NoMatch) {
        whitespace_outcome(c, o, n, all)
    } else {
        block_anchor_outcome(c, o, n, all)
    }
}

/// What a caller of a single strategy gets: the new content, or nothing.
pub open spec fn delivers(r: Option<String>, outcome: Outcome) -> bool {
    match outcome.replaced() {
        Some(text) => r matches Some(s) && s@ == text,
        None => r is None,
    }
}

fn deliver(a: Attempt) -> (r: Option<String>)
    ensures
        delivers(r, a@),
{
    match a {
        Attempt::Replaced(text) => Some(from_chars(&text)),
        _ => None,
    }
}

/// Exact matching alone.
pub fn try_exact_replace(content: &str, old: &str, new: &str, replace_all: bool) -> (r: Option<
    String,
>)
    requires
        old@.len() > 0,
    ensures
        delivers(r, exact_outcome(content@, old@, new@, replace_all)),
{
    let c = to_chars(content);
    let o = to_chars(old);
    let n = to_chars(new);
    deliver(exact_attempt(&c, &o, &n, replace_all))
}

/// Line-trimmed matching alone.
pub fn try_line_trimmed_replace(content: &str, old: &str, new: &str, replace_all: bool) -> (r:
    Option<String>)
    ensures
        delivers(r, line_trimmed_outcome(content@, old@, new@, replace_all)),
{
    let c = to_chars(content);
    let o = to_chars(old);
    let n = to_chars(new);
    let m = line_trimmed_candidates(&c, &o);
    deliver(matched_attempt(&c, &m, &n, replace_all, true))
}

/// Whitespace-normalized matching alone.
pub fn try_whitespace_normalized_replace(
    content: &str,
    old: &str,
    new: &str,
    replace_all: bool,
) -> (r: Option<String>)
    ensures
        delivers(r, whitespace_outcome(content@, old@, new@, replace_all)),
{
    let c = to_chars(content);
    let o = to_chars(old);
    let n = to_chars(new);
    let m = whitespace_candidates(&c, &o);
    deliver(matched_attempt(&c, &m, &n, replace_all, false))
}

/// Block-anchor matching alone.
pub fn try_block_anchor_replace(content: &str, old: &str, new: &str, replace_all: bool) -> (r:
    Option<String>)
    ensures
        delivers(r, block_anchor_outcome(content@, old@, new@, replace_all)),
{
    let c = to_chars(content);
    let o = to_chars(old);
    let n = to_chars(new);
    let m = block_anchor_candidates(&c, &o);
    deliver(matched_attempt(&c, &m, &n, replace_all, false))
}

/// What `replace` returns for each way in which the strategies can end.
pub open spec fn reports(r: Result<String, AgentError>, outcome: Outcome) -> bool {
    match outcome {
        Outcome::Replaced(text) => r matches Ok(s) && s@ == text,
        Outcome::Ambiguous => r matches Err(e) && e.is_tool_execution(
            "edit"@,
            "oldString found multiple times in content"@,
        ),
        Outcome::NoMatch => r matches Err(e) && e.is_tool_execution(
            "edit"@,
            "oldString not found in content"@,
        ),
    }
}

/// Replaces `old_string` by `new_string` in `content`, one occurrence or,
/// with `replace_all`, all of them, by the first strategy that finds a
/// candidate.
pub fn replace(content: &str, old_string: &str, new_string: &str, replace_all: bool) -> (r: Result<
    String,
    AgentError,
>)
    requires
        old_string@.len() > 0,
    ensures
        reports(r, replace_outcome(content@, old_string@, new_string@, replace_all)),
{
    let c = to_chars(content);
    let o = to_chars(old_string);
    let n = to_chars(new_string);
    let mut attempt = exact_attempt(&c, &o, &n, replace_all);
    if let Attempt::NoMatch = attempt {
        let m = line_trimmed_candidates(&c, &o);
        attempt = matched_attempt(&c, &m, &n, replace_all, true);
    }
    if let Attempt::NoMatch = attempt {
        let m = whitespace_candidates(&c, &o);
        attempt = matched_attempt(&c, &m, &n, replace_all, false);
    }
    if let Attempt::NoMatch = attempt {
        let m = block_anchor_candidates(&c, &o);
        attempt = matched_attempt(&c, &m, &n, replace_all, false);
    }
    match attempt {
        Attempt::Replaced(text) => Ok(from_chars(&text)),
        Attempt::Ambiguous => Err(
            AgentError::tool_execution("edit", "oldString found multiple times in content"),
        ),
        Attempt::NoMatch => Err(AgentError::tool_execution("edit", "oldString not found in content")),
    }
}

/// What the edit tool is asked to do.
#[derive(Debug)]
pub struct EditParams {
    /// The file to change.
    pub file_path: String,
    /// The text to replace; empty to make a new file.
    pub old_string: String,
    /// The text to put in its place.
    pub new_string: String,
    /// Whether every occurrence is to be replaced.
    pub replace_all: bool,
}

/// The edit tool.
pub struct EditTool;

/// What the edit tool has decided before it looks at the file.
#[derive(Debug)]
pub struct EditPlan {
    /// The file to change, resolved against the working directory.
    pub path: String,
    /// The file as the result of the call shows it.
    pub title: String,
    /// Whether the file is to be made anew rather than changed.
    pub create: bool,
}

/// What the edit tool has decided once it has seen the file.
#[derive(Debug)]
pub struct Edited {
    /// What the file is to hold from now on.
    pub content: String,
    /// What the call returns.
    pub result: ToolResult,
}

/// What the edit tool tells about an edit beside its text.
pub open spec fn edit_metadata(
    diff: Seq<char>,
    file: Seq<char>,
    before: Seq<char>,
    after: Seq<char>,
    additions: int,
    deletions: int,
) -> JsonValue {
    JsonValue::Object(
        seq![
            ("diagnostics"@, JsonValue::Object(Seq::empty())),
            ("diff"@, JsonValue::Text(diff)),
            (
                "filediff"@,
                JsonValue::Object(
                    seq![
                        ("file"@, JsonValue::Text(file)),
                        ("before"@, JsonValue::Text(before)),
                        ("after"@, JsonValue::Text(after)),
                        ("additions"@, JsonValue::Number(additions)),
                        ("deletions"@, JsonValue::Number(deletions)),
                    ],
                ),
            ),
        ],
    )
}

/// The result of an edit of the file `path`, shown as `title`, that turned
/// `before` into `after`.
pub open spec fn edit_result(
    r: ToolResult,
    title: Seq<char>,
    path: Seq<char>,
    before: Seq<char>,
    after: Seq<char>,
    additions: int,
    deletions: int,
) -> bool {
    &&& r.title@ == title
    &&& r.output@ == Seq::<char>::empty()
    &&& r.attachments is None
    &&& r.metadata@ == edit_metadata(
        unified(grouped_changes(before, after, 3), path),
        path,
        before,
        after,
        additions,
        deletions,
    )
}

fn make_edit_result(
    title: &str,
    path: &str,
    before: &str,
    after: &str,
    diff: &str,
    additions: usize,
    deletions: usize,
) -> (r: ToolResult)
    ensures
        r.title@ == title@,
        r.output@ == Seq::<char>::empty(),
        r.attachments is None,
        r.metadata@ == edit_metadata(
            diff@,
            path@,
            before@,
            after@,
            additions as int,
            deletions as int,
        ),
{
    let mut filediff: Vec<Member> = Vec::new();
    filediff.push(member("file", Json::text(path)));
    filediff.push(member("before", Json::text(before)));
    filediff.push(member("after", Json::text(after)));
    filediff.push(member("additions", Json::number(additions as i128)));
    filediff.push(member("deletions", Json::number(deletions as i128)));
    assert(members_view(filediff@) =~= seq![
        ("file"@, JsonValue::Text(path@)),
        ("before"@, JsonValue::Text(before@)),
        ("after"@, JsonValue::Text(after@)),
        ("additions"@, JsonValue::Number(additions as int)),
        ("deletions"@, JsonValue::Number(deletions as int)),
    ]);
    let none: Vec<Member> = Vec::new();
    assert(members_view(none@) =~= Seq::empty());
    let mut top: Vec<Member> = Vec::new();
    top.push(member("diagnostics", Json::object(none)));
    top.push(member("diff", Json::text(diff)));
    top.push(member("filediff", Json::object(filediff)));
    assert(members_view(top@) =~= seq![
        ("diagnostics"@, JsonValue::Object(Seq::empty())),
        ("diff"@, JsonValue::Text(diff@)),
        (
            "filediff"@,
            JsonValue::Object(
                seq![
                    ("file"@, JsonValue::Text(path@)),
                    ("before"@, JsonValue::Text(before@)),
                    ("after"@, JsonValue::Text(after@)),
                    ("additions"@, JsonValue::Number(additions as int)),
                    ("deletions"@, JsonValue::Number(deletions as int)),
                ],
            ),
        ),
    ]);
    ToolResult {
        title: title.to_owned(),
        output: String::new(),
        metadata: Json::object(top),
        attachments: None,
    }
}

impl EditTool {
    /// The name by which the tool is called.
    pub fn id(&self) -> (s: &'static str)
        ensures
            s@ == "edit"@,
    {
        "edit"
    }

    /// What the tool says of itself.
    pub fn description(&self) -> (s: &'static str)
        ensures
            s@ == DESCRIPTION@,
    {
        DESCRIPTION
    }

    /// The parameters of the edit tool.
    pub open spec fn parameters() -> JsonValue {
        schema(
            seq![
                property("filePath"@, "string"@, "The absolute path to the file to modify"@),
                property("oldString"@, "string"@, "The text to replace"@),
                property(
                    "newString"@,
                    "string"@,
                    "The text to replace it with (must be different from oldString)"@,
                ),
                property(
                    "replaceAll"@,
                    "boolean"@,
                    "Replace all occurrences of oldString (default false)"@,
                ),
            ],
            seq!["filePath"@, "oldString"@, "newString"@],
        )
    }

    /// The description of the tool's parameters as a JSON Schema.
    pub fn parameters_schema(&self) -> (j: Json)
        ensures
            j@ == Self::parameters(),
    {
        let mut properties: Vec<Member> = Vec::new();
        properties.push(
            make_property("filePath", "string", "The absolute path to the file to modify"),
        );
        properties.push(make_property("oldString", "string", "The text to replace"));
        properties.push(
            make_property(
                "newString",
                "string",
                "The text to replace it with (must be different from oldString)",
            ),
        );
        properties.push(
            make_property(
                "replaceAll",
                "boolean",
                "Replace all occurrences of oldString (default false)",
            ),
        );
        let required = strings(&vec!["filePath", "oldString", "newString"]);
        assert(members_view(properties@) =~= seq![
            property("filePath"@, "string"@, "The absolute path to the file to modify"@),
            property("oldString"@, "string"@, "The text to replace"@),
            property(
                "newString"@,
                "string"@,
                "The text to replace it with (must be different from oldString)"@,
            ),
            property(
                "replaceAll"@,
                "boolean"@,
                "Replace all occurrences of oldString (default false)"@,
            ),
        ]);
        assert(strings_view(required@) =~= seq![
            "filePath"@,
            "oldString"@,
            "newString"@,
        ]);
        make_schema(properties, &required)
    }

    /// Checks the parameters and finds the file: an edit that would change
    /// nothing is refused; an empty `old_string` asks for a new file.
    pub fn plan(&self, params: &EditParams, ctx: &ToolContext) -> (r: Result<EditPlan, AgentError>)
        ensures
            if params.old_string@ == params.new_string@ {
                r matches Err(e) && e.is_invalid_arguments(
                    "edit"@,
                    "oldString and newString must be different"@,
                )
            } else {
                r matches Ok(p) && p.path@ == ctx.resolved(params.file_path@) && p.title@
                    == ctx.shown(p.path@) && p.create == (params.old_string@.len() == 0)
            },
    {
        if params.old_string == params.new_string {
            return Err(
                AgentError::invalid_arguments("edit", "oldString and newString must be different"),
            );
        }
        let path = ctx.resolve_path(params.file_path.as_str());
        let title = ctx.relative_path(path.as_str());
        let create = params.old_string.as_str().is_empty();
        Ok(EditPlan { path, title, create })
    }

    /// What the planned edit comes to. `existing` is what the file holds,
    /// where there is such a file; it is not looked at where `old_string`
    /// is empty, which asks for a new file.
    ///
    /// A new file gets `new_string` as its content, and every line of it
    /// counts as added. A file that is missing cannot be changed. Else the
    /// content, with its line endings normalized, goes through the
    /// replacement, and the result tells the diff and how many lines came
    /// and went.
    pub fn finish(&self, params: &EditParams, plan: &EditPlan, existing: Option<&str>) -> (r: Result<
        Edited,
        AgentError,
    >)
        ensures
            if params.old_string@.len() == 0 {
                r matches Ok(e) && e.content@ == params.new_string@ && edit_result(
                    e.result,
                    plan.title@,
                    plan.path@,
                    Seq::empty(),
                    params.new_string@,
                    lines(params.new_string@).len() as int,
                    0,
                )
            } else {
                match existing {
                    None => r matches Err(AgentError::FileNotFound { path, suggestions })
                        && path@ == plan.path@ && suggestions@.len() == 0,
                    Some(raw) => {
                        let before = normalized_line_endings(raw@);
                        match replace_outcome(
                            before,
                            params.old_string@,
                            params.new_string@,
                            params.replace_all,
                        ) {
                            Outcome::Replaced(after) => r matches Ok(e) && e.content@ == after
                                && edit_result(
                                e.result,
                                plan.title@,
                                plan.path@,
                                before,
                                after,
                                count_kind(grouped_changes(before, after, 3), ChangeKind::Insert)
                                    as int,
                                count_kind(grouped_changes(before, after, 3), ChangeKind::Delete)
                                    as int,
                            ),
                            failed => r matches Err(e) && reports(Err(e), failed),
                        }
                    },
                }
            },
    {
        if params.old_string.as_str().is_empty() {
            let diff = create_diff("", params.new_string.as_str(), plan.path.as_str());
            let added = split_lines(&to_chars(params.new_string.as_str())).len();
            proof {
                reveal_strlit("");
                assert(""@ =~= Seq::<char>::empty());
            }
            let result = make_edit_result(
                plan.title.as_str(),
                plan.path.as_str(),
                "",
                params.new_string.as_str(),
                diff.as_str(),
                added,
                0,
            );
            return Ok(Edited { content: params.new_string.clone(), result });
        }
        let raw = match existing {
            Some(raw) => raw,
            None => {
                return Err(AgentError::file_not_found(plan.path.as_str(), Vec::new()));
            },
        };
        let before = normalize_line_endings(raw);
        let after = match replace(
            before.as_str(),
            params.old_string.as_str(),
            params.new_string.as_str(),
            params.replace_all,
        ) {
            Ok(after) => after,
            Err(e) => {
                return Err(e);
            },
        };
        let changes = diff_lines(before.as_str(), after.as_str(), CONTEXT_LINES);
        let diff = render_diff(&changes, plan.path.as_str());
        let additions = count_changes(&changes, ChangeKind::Insert);
        let deletions = count_changes(&changes, ChangeKind::Delete);
        let result = make_edit_result(
            plan.title.as_str(),
            plan.path.as_str(),
            before.as_str(),
            after.as_str(),
            diff.as_str(),
            additions,
            deletions,
        );
        Ok(Edited { content: after, result })
    }
}

} // verus!
