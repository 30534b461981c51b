//! Line diffs between two texts, as the crate `similar` finds them, and
//! their form as a unified diff.

use crate::text::{append, from_chars, to_chars};
use similar::{ChangeTag, TextDiff};
use vstd::prelude::*;

verus! {

/// What a line of a diff says of its text.
#[derive(Debug, Clone, Copy, PartialEq, Eq, Structural)]
pub enum ChangeKind {
    /// The line stands in both texts.
    Equal,
    /// The line stands in the old text only.
    Delete,
    /// The line stands in the new text only.
    Insert,
}

/// One line of a diff.
#[derive(Debug)]
pub struct LineChange {
    /// The number of the hunk that the line belongs to, counted from zero.
    pub group: usize,
    pub kind: ChangeKind,
    /// The line, with the line ending that it has in its text.
    pub text: String,
    /// Whether the line has no line ending of its own.
    pub missing_newline: bool,
}

/// What the line changes `cs` hold.
pub open spec fn changes_view(cs: Seq<LineChange>) -> Seq<(int, ChangeKind, Seq<char>, bool)> {
    cs.map_values(|c: LineChange| (c.group as int, c.kind, c.text@, c.missing_newline))
}

/// The line diff that the crate `similar` finds between `old` and `new`:
/// the lines of its hunks in order, each hunk with up to `radius` equal lines
/// around its changes.
pub uninterp spec fn grouped_changes(old: Seq<char>, new: Seq<char>, radius: int) -> Seq<
    (int, ChangeKind, Seq<char>, bool),
>;

/// `similar::TextDiff::from_lines`, grouped by `grouped_ops` and read line
/// by line through `iter_changes`: the result holds, for every line of every
/// hunk in order, the number of the hunk, the tag, the value and whether a
/// line ending is missing, as `similar` reports them.
#[verifier::external_body]
pub(crate) fn diff_lines(old: &str, new: &str, radius: usize) -> (r: Vec<LineChange>)
    requires
        radius <= 0x3fff_ffff,
    ensures
        changes_view(r@) == grouped_changes(old@, new@, radius as int),
{
    let diff = TextDiff::from_lines(old, new);
    let groups = diff.grouped_ops(radius);
    let ops = groups.iter().enumerate().flat_map(|(g, ops)| ops.iter().map(move |op| (g, op)));
    let lines = ops.flat_map(|(g, op)| diff.iter_changes(op).map(move |c| (g, c)));
    let kind = |tag| match tag {
        ChangeTag::Equal => ChangeKind::Equal,
        ChangeTag::Delete => ChangeKind::Delete,
        ChangeTag::Insert => ChangeKind::Insert,
    };
    lines.map(|(g, c)| LineChange::new(g, kind(c.tag()), c.value(), c.missing_newline())).collect()
}

impl LineChange {
    /// A line of a diff.
    pub fn new(group: usize, kind: ChangeKind, text: &str, missing_newline: bool) -> (c: LineChange)
        ensures
            c.group == group,
            c.kind == kind,
            c.text@ == text@,
            c.missing_newline == missing_newline,
    {
        LineChange { group, kind, text: text.to_owned(), missing_newline }
    }
}

/// The sign that a line of a unified diff begins with.
pub open spec fn sign(kind: ChangeKind) -> char {
    match kind {
        ChangeKind::Delete => '-',
        ChangeKind::Insert => '+',
        ChangeKind::Equal => ' ',
    }
}

/// One line of a unified diff: the sign, the text, and a line feed where
/// the text has no line ending.
pub open spec fn change_line(c: (int, ChangeKind, Seq<char>, bool)) -> Seq<char> {
    seq![sign(c.1)] + c.2 + if c.3 {
        seq!['\n']
    } else {
        Seq::empty()
    }
}

/// The lines of a unified diff for the changes `cs`, with a line of three
/// dots where one hunk ends and the next begins.
pub open spec fn change_lines(cs: Seq<(int, ChangeKind, Seq<char>, bool)>) -> Seq<char>
    decreases cs.len(),
{
    if cs.len() == 0 {
        Seq::empty()
    } else if cs.len() >= 2 && cs[cs.len() - 2].0 != cs.last().0 {
        change_lines(cs.drop_last()) + "...\n"@ + change_line(cs.last())
    } else {
        change_lines(cs.drop_last()) + change_line(cs.last())
    }
}

/// The unified diff of the file `path` for the changes `cs`.
pub open spec fn unified(cs: Seq<(int, ChangeKind, Seq<char>, bool)>, path: Seq<char>) -> Seq<char> {
    "--- "@ + path + "\n+++ "@ + path + "\n"@ + change_lines(cs)
}

/// The number of lines of the kind `kind` among the changes `cs`.
pub open spec fn count_kind(cs: Seq<(int, ChangeKind, Seq<char>, bool)>, kind: ChangeKind) -> nat
    decreases cs.len(),
{
    if cs.len() == 0 {
        0
    } else {
        count_kind(cs.drop_last(), kind) + if cs.last().1 == kind {
            1nat
        } else {
            0nat
        }
    }
}

/// What the next change adds to the lines of a unified diff.
proof fn lemma_change_lines_step(cs: Seq<(int, ChangeKind, Seq<char>, bool)>, i: int)
    requires
        0 <= i < cs.len(),
    ensures
        change_lines(cs.take(i + 1)) == change_lines(cs.take(i)) + (if i >= 1 && cs[i - 1].0
            != cs[i].0 {
            "...\n"@
        } else {
            Seq::empty()
        }) + change_line(cs[i]),
{
    let upto = cs.take(i + 1);
    assert(upto.drop_last() =~= cs.take(i));
    assert(upto.last() == cs[i]);
    if i >= 1 {
        assert(upto[upto.len() - 2] == cs[i - 1]);
    }
    if i >= 1 && cs[i - 1].0 != cs[i].0 {
    } else {
        assert(change_lines(cs.take(i)) + Seq::<char>::empty() =~= change_lines(cs.take(i)));
    }
}

/// Appends one line of a unified diff.
fn push_change_line(out: &mut Vec<char>, c: &LineChange)
    ensures
        final(out)@ == old(out)@ + change_line(
            (c.group as int, c.kind, c.text@, c.missing_newline),
        ),
{
    let mark: char = match c.kind {
        ChangeKind::Delete => '-',
        ChangeKind::Insert => '+',
        ChangeKind::Equal => ' ',
    };
    out.push(mark);
    append(out, &to_chars(c.text.as_str()));
    if c.missing_newline {
        out.push('\n');
    }
    assert(out@ =~= old(out)@ + change_line(
        (c.group as int, c.kind, c.text@, c.missing_newline),
    ));
}

/// Writes the changes `changes` as the unified diff of the file `path`.
pub fn render_diff(changes: &Vec<LineChange>, path: &str) -> (r: String)
    ensures
        r@ == unified(changes_view(changes@), path@),
{
    let ghost cs = changes_view(changes@);
    let mut out = to_chars("--- ");
    append(&mut out, &to_chars(path));
    append(&mut out, &to_chars("\n+++ "));
    append(&mut out, &to_chars(path));
    append(&mut out, &to_chars("\n"));
    let ghost head = out@;
    let dots = to_chars("...\n");
    let mut i: usize = 0;
    assert(head + change_lines(cs.take(0)) =~= head);
    while i < changes.len()
        invariant
            i <= changes.len(),
            cs == changes_view(changes@),
            dots@ == "...\n"@,
            out@ == head + change_lines(cs.take(i as int)),
        decreases changes.len() - i,
    {
        proof {
            lemma_change_lines_step(cs, i as int);
        }
        let ghost before = out@;
        let ghost gap = if i >= 1 && cs[i - 1].0 != cs[i as int].0 {
            "...\n"@
        } else {
            Seq::<char>::empty()
        };
        if i > 0 && changes[i - 1].group != changes[i].group {
            append(&mut out, &dots);
        }
        assert(out@ =~= before + gap);
        push_change_line(&mut out, &changes[i]);
        assert(out@ == before + gap + change_line(cs[i as int]));
        assert(before + gap + change_line(cs[i as int]) =~= head + (change_lines(
            cs.take(i as int),
        ) + gap + change_line(cs[i as int])));
        i += 1;
    }
    assert(cs.take(changes@.len() as int) =~= cs);
    from_chars(&out)
}

/// Counts the lines of the kind `kind` among `changes`.
pub fn count_changes(changes: &Vec<LineChange>, kind: ChangeKind) -> (n: usize)
    ensures
        n == count_kind(changes_view(changes@), kind),
{
    let ghost cs = changes_view(changes@);
    let mut n: usize = 0;
    let mut i: usize = 0;
    while i < changes.len()
        invariant
            i <= changes.len(),
            cs == changes_view(changes@),
            n == count_kind(cs.take(i as int), kind),
            n <= i,
        decreases changes.len() - i,
    {
        assert(cs.take(i + 1).drop_last() =~= cs.take(i as int));
        assert(cs.take(i + 1).last().1 == changes@[i as int].kind);
        if changes[i].kind == kind {
            n += 1;
        }
        i += 1;
    }
    assert(cs.take(changes@.len() as int) =~= cs);
    n
}

/// The number of equal lines that a hunk shows around its changes.
pub const CONTEXT_LINES: usize = 3;

/// The unified diff between `old` and `new` for the file `path`, with three
/// lines of context around each hunk.
pub fn create_diff(old: &str, new: &str, path: &str) -> (r: String)
    ensures
        r@ == unified(grouped_changes(old@, new@, 3), path@),
{
    let changes = diff_lines(old, new, CONTEXT_LINES);
    render_diff(&changes, path)
}

} // verus!
