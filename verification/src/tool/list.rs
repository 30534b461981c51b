//! The list tool: the entries of one directory, directories marked with a
//! slash, files with their size, in lexicographic order.

use crate::error::AgentError;
use crate::json::{member, members_view, Json, JsonValue, Member};
use crate::text::{
    append, combine, comes_before, decimal, digit, from_chars, join, join_strings,
    lemma_precedes_asymmetric, lemma_precedes_total, lemma_precedes_transitive, precedes,
    push_decimal, strings_view, texts, to_chars,
};
use crate::tool::context::ToolContext;
use crate::tool::{make_property, make_schema, property, schema, ToolResult};
use vstd::prelude::*;

verus! {

/// What the list tool says of itself.
pub const DESCRIPTION: &'static str = "Lists files and directories in a given path.\n\nUsage:\n- If no path is specified, lists the current working directory\n- Returns file names, sizes, and modification times\n- Directories are marked with a trailing slash";

/// What the list tool is asked to do.
#[derive(Debug)]
pub struct ListParams {
    /// The directory to list; the working directory where none is given.
    pub path: Option<String>,
}

/// The list tool.
pub struct ListTool;

/// One entry of a directory, as the file system reports it.
#[derive(Debug)]
pub struct DirEntry {
    pub name: String,
    pub is_dir: bool,
    /// The size of the file in bytes.
    pub size: u64,
}

/// What the file system has told about the path to list.
#[derive(Debug)]
pub enum Listing {
    /// Nothing exists at the path.
    Missing,
    /// What exists at the path is no directory.
    NotDirectory,
    /// The entries of the directory, in any order.
    Entries(Vec<DirEntry>),
}

/// The quotient of `num` by `den`, rounded to the nearest whole number, and
/// to the even one of two that are equally near.
pub open spec fn rounded_quotient(num: nat, den: nat) -> nat
    recommends
        den > 0,
{
    let q = num / den;
    let r = num % den;
    if 2 * r > den || (2 * r == den && q % 2 == 1) {
        q + 1
    } else {
        q
    }
}

/// The distance between two neighbouring double-precision numbers near `n`,
/// where it is more than one: doubles hold 53 bits.
pub open spec fn double_spacing(n: nat) -> nat {
    if n < 0x20_0000_0000_0000 {
        1
    } else if n < 0x40_0000_0000_0000 {
        2
    } else if n < 0x80_0000_0000_0000 {
        4
    } else if n < 0x100_0000_0000_0000 {
        8
    } else if n < 0x200_0000_0000_0000 {
        16
    } else if n < 0x400_0000_0000_0000 {
        32
    } else if n < 0x800_0000_0000_0000 {
        64
    } else if n < 0x1000_0000_0000_0000 {
        128
    } else if n < 0x2000_0000_0000_0000 {
        256
    } else if n < 0x4000_0000_0000_0000 {
        512
    } else if n < 0x8000_0000_0000_0000 {
        1024
    } else {
        2048
    }
}

/// The whole number that the double-precision number nearest to `n` holds.
pub open spec fn nearest_double(n: nat) -> nat {
    rounded_quotient(n, double_spacing(n)) * double_spacing(n)
}

/// The number of tenths of `unit` in `bytes`, as it comes out when `bytes`
/// is divided by `unit` in double precision and the quotient is rounded to
/// one decimal.
pub open spec fn size_tenths(bytes: nat, unit: nat) -> nat {
    rounded_quotient(nearest_double(bytes) * 10, unit)
}

/// `tenths` tenths, written with one decimal.
pub open spec fn one_decimal(tenths: nat) -> Seq<char> {
    decimal(tenths / 10) + seq!['.', digit((tenths % 10) as int)]
}

/// The size `bytes` for a reader: in bytes below 1024, else with one decimal
/// in the largest of the units KB, MB and GB that it reaches.
pub open spec fn size_text(bytes: nat) -> Seq<char> {
    if bytes >= 0x4000_0000 {
        one_decimal(size_tenths(bytes, 0x4000_0000)) + "GB"@
    } else if bytes >= 0x10_0000 {
        one_decimal(size_tenths(bytes, 0x10_0000)) + "MB"@
    } else if bytes >= 0x400 {
        one_decimal(size_tenths(bytes, 0x400)) + "KB"@
    } else {
        decimal(bytes) + "B"@
    }
}

fn spacing(n: u64) -> (s: u128)
    ensures
        s == double_spacing(n as nat),
        1 <= s <= 2048,
{
    if n < 0x20_0000_0000_0000 {
        1
    } else if n < 0x40_0000_0000_0000 {
        2
    } else if n < 0x80_0000_0000_0000 {
        4
    } else if n < 0x100_0000_0000_0000 {
        8
    } else if n < 0x200_0000_0000_0000 {
        16
    } else if n < 0x400_0000_0000_0000 {
        32
    } else if n < 0x800_0000_0000_0000 {
        64
    } else if n < 0x1000_0000_0000_0000 {
        128
    } else if n < 0x2000_0000_0000_0000 {
        256
    } else if n < 0x4000_0000_0000_0000 {
        512
    } else if n < 0x8000_0000_0000_0000 {
        1024
    } else {
        2048
    }
}

fn round_quotient(num: u128, den: u128) -> (q: u128)
    requires
        0 < den <= 0x4000_0000,
        num <= 0x1000_0000_0000_0000_0000,
    ensures
        q == rounded_quotient(num as nat, den as nat),
        q <= num + 1,
{
    let q: u128 = num / den;
    let r: u128 = num % den;
    if 2 * r > den || (2 * r == den && q % 2 == 1) {
        q + 1
    } else {
        q
    }
}

fn tenths_of(bytes: u64, unit: u128) -> (t: u128)
    requires
        0 < unit <= 0x4000_0000,
    ensures
        t == size_tenths(bytes as nat, unit as nat),
{
    let step = spacing(bytes);
    let steps = round_quotient(bytes as u128, step);
    let nearest: u128 = steps * step;
    round_quotient(nearest * 10, unit)
}

fn push_one_decimal(out: &mut Vec<char>, tenths: u128)
    ensures
        final(out)@ == old(out)@ + one_decimal(tenths as nat),
{
    push_decimal(out, tenths / 10);
    out.push('.');
    let d: u8 = (tenths % 10) as u8;
    out.push((48 + d) as char);
    assert(final(out)@ =~= old(out)@ + one_decimal(tenths as nat));
}

/// Writes a size in bytes for a reader.
pub fn format_size(bytes: u64) -> (r: String)
    ensures
        r@ == size_text(bytes as nat),
{
    let mut out: Vec<char> = Vec::new();
    let unit: &str;
    if bytes >= 0x4000_0000 {
        push_one_decimal(&mut out, tenths_of(bytes, 0x4000_0000));
        unit = "GB";
    } else if bytes >= 0x10_0000 {
        push_one_decimal(&mut out, tenths_of(bytes, 0x10_0000));
        unit = "MB";
    } else if bytes >= 0x400 {
        push_one_decimal(&mut out, tenths_of(bytes, 0x400));
        unit = "KB";
    } else {
        push_decimal(&mut out, bytes as u128);
        unit = "B";
    }
    append(&mut out, &to_chars(unit));
    from_chars(&out)
}

/// The line that stands for an entry: the name and a slash for a directory,
/// the name and the size in brackets for a file.
pub open spec fn entry_line(name: Seq<char>, is_dir: bool, size: nat) -> Seq<char> {
    if is_dir {
        name + "/"@
    } else {
        name + " ("@ + size_text(size) + ")"@
    }
}

/// The lines that stand for the entries `entries`, in their order.
pub open spec fn entry_lines(entries: Seq<DirEntry>) -> Seq<Seq<char>> {
    entries.map_values(|e: DirEntry| entry_line(e.name@, e.is_dir, e.size as nat))
}

/// `s`, which is in order, with `x` put where it belongs: before the texts
/// at the end of `s` that come after it.
pub open spec fn inserted(s: Seq<Seq<char>>, x: Seq<char>) -> Seq<Seq<char>>
    decreases s.len(),
{
    if s.len() > 0 && precedes(x, s.last()) {
        inserted(s.drop_last(), x).push(s.last())
    } else {
        s.push(x)
    }
}

/// The texts of `s` in lexicographic order.
pub open spec fn sorted(s: Seq<Seq<char>>) -> Seq<Seq<char>>
    decreases s.len(),
{
    if s.len() == 0 {
        s
    } else {
        inserted(sorted(s.drop_last()), s.last())
    }
}

/// Puts the lines `lines` in lexicographic order.
pub fn sort_lines(lines: Vec<Vec<char>>) -> (r: Vec<Vec<char>>)
    ensures
        texts(r@) == sorted(texts(lines@)),
{
    let mut r: Vec<Vec<char>> = Vec::new();
    let mut lines = lines;
    let ghost all = texts(lines@);
    let ghost mut done: int = 0;
    assert(texts(r@) =~= sorted(all.take(0)));
    let mut rest: Vec<Vec<char>> = Vec::new();
    // Take the lines from the back, so that each can be moved out.
    while lines.len() > 0
        invariant
            all == texts(lines@) + texts(rest@).reverse(),
        decreases lines.len(),
    {
        let ghost before = texts(lines@);
        let ghost moved = texts(rest@);
        let line = lines.pop().unwrap();
        rest.push(line);
        assert(texts(lines@) =~= before.drop_last());
        assert(texts(rest@) =~= moved.push(before.last()));
        assert(texts(rest@).reverse() =~= seq![before.last()] + moved.reverse());
        assert(before =~= before.drop_last() + seq![before.last()]);
        assert(texts(lines@) + texts(rest@).reverse() =~= before + moved.reverse());
    }
    assert(all =~= texts(rest@).reverse());
    while rest.len() > 0
        invariant
            0 <= done <= all.len(),
            done + rest.len() == all.len(),
            all.skip(done) == texts(rest@).reverse(),
            texts(r@) == sorted(all.take(done)),
        decreases rest.len(),
    {
        let ghost queue = texts(rest@);
        let ghost placed = texts(r@);
        let line = rest.pop().unwrap();
        assert(texts(rest@) =~= queue.drop_last());
        assert(line@ == all[done]) by {
            assert(queue.reverse()[0] == queue.last());
            assert(all.skip(done)[0] == all[done]);
        }
        let mut at: usize = r.len();
        assert(inserted(placed.take(at as int), line@) + placed.skip(at as int) =~= inserted(
            placed,
            line@,
        )) by {
            assert(placed.take(at as int) =~= placed);
        }
        while at > 0 && comes_before(&line, &r[at - 1])
            invariant
                at <= r.len(),
                placed == texts(r@),
                inserted(placed, line@) == inserted(placed.take(at as int), line@) + placed.skip(
                    at as int,
                ),
            decreases at,
        {
            assert(placed.take(at as int).drop_last() =~= placed.take(at - 1));
            assert(placed.take(at as int).last() == placed[at - 1]);
            assert(inserted(placed.take(at - 1), line@).push(placed[at - 1]) + placed.skip(
                at as int,
            ) =~= inserted(placed.take(at - 1), line@) + placed.skip(at - 1));
            at -= 1;
        }
        assert(inserted(placed.take(at as int), line@) == placed.take(at as int).push(line@)) by {
            if at > 0 {
                assert(placed.take(at as int).last() == placed[at - 1]);
            }
        }
        r.insert(at, line);
        assert(texts(r@) =~= placed.take(at as int).push(line@) + placed.skip(at as int));
        proof {
            assert(all.take(done + 1).drop_last() =~= all.take(done));
            assert(all.take(done + 1).last() == all[done]);
            assert(all.skip(done + 1) =~= queue.drop_last().reverse()) by {
                assert(all.skip(done + 1) =~= all.skip(done).skip(1));
                assert(queue.reverse().skip(1) =~= queue.drop_last().reverse());
            }
            done = done + 1;
        }
    }
    assert(all.take(done) =~= all);
    r
}

/// The line that stands for the entry `entry`.
pub fn format_entry(entry: &DirEntry) -> (r: Vec<char>)
    ensures
        r@ == entry_line(entry.name@, entry.is_dir, entry.size as nat),
{
    let mut r = to_chars(entry.name.as_str());
    if entry.is_dir {
        append(&mut r, &to_chars("/"));
    } else {
        append(&mut r, &to_chars(" ("));
        append(&mut r, &to_chars(format_size(entry.size).as_str()));
        append(&mut r, &to_chars(")"));
    }
    r
}

/// The lines that stand for the entries `entries`, in lexicographic order.
pub fn list_directory(entries: &Vec<DirEntry>) -> (r: Vec<String>)
    ensures
        strings_view(r@) == sorted(entry_lines(entries@)),
{
    let mut lines: Vec<Vec<char>> = Vec::new();
    let mut i: usize = 0;
    while i < entries.len()
        invariant
            i <= entries.len(),
            texts(lines@) == entry_lines(entries@).take(i as int),
        decreases entries.len() - i,
    {
        let ghost before = texts(lines@);
        let line = format_entry(&entries[i]);
        lines.push(line);
        assert(texts(lines@) =~= before.push(line@));
        assert(before.push(line@) =~= entry_lines(entries@).take(i + 1));
        i += 1;
    }
    assert(entry_lines(entries@).take(entries@.len() as int) =~= entry_lines(entries@));
    let ordered = sort_lines(lines);
    let mut r: Vec<String> = Vec::new();
    let mut k: usize = 0;
    while k < ordered.len()
        invariant
            k <= ordered.len(),
            strings_view(r@) == texts(ordered@).take(k as int),
        decreases ordered.len() - k,
    {
        let ghost before = strings_view(r@);
        let line = from_chars(&ordered[k]);
        r.push(line);
        assert(strings_view(r@) =~= before.push(ordered@[k as int]@));
        assert(before.push(ordered@[k as int]@) =~= texts(ordered@).take(k + 1));
        k += 1;
    }
    assert(texts(ordered@).take(ordered@.len() as int) =~= texts(ordered@));
    r
}

/// What the list tool has decided before it looks at the directory.
#[derive(Debug)]
pub struct ListPlan {
    /// The directory to list, resolved against the working directory.
    pub path: String,
    /// The directory as the result of the call shows it.
    pub title: String,
}

/// What the list tool tells beside the lines: how many there are.
pub open spec fn count_metadata(count: int) -> JsonValue {
    JsonValue::Object(seq![("count"@, JsonValue::Number(count))])
}

/// Metadata that holds a count.
pub fn make_count_metadata(count: usize) -> (j: Json)
    ensures
        j@ == count_metadata(count as int),
{
    let mut top: Vec<Member> = Vec::new();
    top.push(member("count", Json::number(count as i128)));
    assert(members_view(top@) =~= seq![("count"@, JsonValue::Number(count as int))]);
    Json::object(top)
}

impl ListTool {
    /// The name by which the tool is called.
    pub fn id(&self) -> (s: &'static str)
        ensures
            s@ == "list"@,
    {
        "list"
    }

    /// What the tool says of itself.
    pub fn description(&self) -> (s: &'static str)
        ensures
            s@ == DESCRIPTION@,
    {
        DESCRIPTION
    }

    /// The parameters of the list tool.
    pub open spec fn parameters() -> JsonValue {
        schema(
            seq![
                property(
                    "path"@,
                    "string"@,
                    "The path to list (defaults to current directory)"@,
                ),
            ],
            Seq::empty(),
        )
    }

    /// The description of the tool's parameters as a JSON Schema.
    pub fn parameters_schema(&self) -> (j: Json)
        ensures
            j@ == Self::parameters(),
    {
        let mut properties: Vec<Member> = Vec::new();
        properties.push(
            make_property("path", "string", "The path to list (defaults to current directory)"),
        );
        let required: Vec<String> = Vec::new();
        assert(members_view(properties@) =~= seq![
            property("path"@, "string"@, "The path to list (defaults to current directory)"@),
        ]);
        assert(strings_view(required@) =~= Seq::<Seq<char>>::empty());
        make_schema(properties, &required)
    }

    /// Finds the directory to list: the given path, resolved, or the working
    /// directory.
    pub fn plan(&self, params: &ListParams, ctx: &ToolContext) -> (p: ListPlan)
        ensures
            p.path@ == match params.path {
                Some(path) => ctx.resolved(path@),
                None => ctx.working_directory@,
            },
            p.title@ == ctx.shown(p.path@),
    {
        let path = match &params.path {
            Some(path) => ctx.resolve_path(path.as_str()),
            None => ctx.working_directory.clone(),
        };
        let title = ctx.relative_path(path.as_str());
        ListPlan { path, title }
    }

    /// What the call returns, once the file system has told what stands at
    /// the path: the lines of the entries in order, one to a line, under the
    /// title of the directory, or a dot where that is empty.
    pub fn finish(&self, plan: &ListPlan, listing: &Listing) -> (r: Result<ToolResult, AgentError>)
        ensures
            match listing {
                Listing::Missing => r matches Err(AgentError::FileNotFound { path, suggestions })
                    && path@ == plan.path@ && suggestions@.len() == 0,
                Listing::NotDirectory => r matches Err(e) && e.is_tool_execution(
                    "list"@,
                    "Not a directory: "@ + plan.path@,
                ),
                Listing::Entries(entries) => r matches Ok(result) && result.title@ == (if plan.title@.len()
                    == 0 {
                    "."@
                } else {
                    plan.title@
                }) && result.output@ == join(sorted(entry_lines(entries@)), "\n"@)
                    && result.metadata@ == count_metadata(entries@.len() as int)
                    && result.attachments is None,
            },
    {
        match listing {
            Listing::Missing => Err(AgentError::file_not_found(plan.path.as_str(), Vec::new())),
            Listing::NotDirectory => {
                let message = combine("Not a directory: ", plan.path.as_str());
                Err(AgentError::tool_execution("list", message.as_str()))
            },
            Listing::Entries(entries) => {
                let lines = list_directory(entries);
                proof {
                    lemma_sorted_len(entry_lines(entries@));
                }
                let title = if plan.title.as_str().is_empty() {
                    ".".to_owned()
                } else {
                    plan.title.clone()
                };
                Ok(
                    ToolResult {
                        title,
                        output: join_strings(&lines, "\n"),
                        metadata: make_count_metadata(lines.len()),
                        attachments: None,
                    },
                )
            },
        }
    }
}

proof fn lemma_inserted_len(s: Seq<Seq<char>>, x: Seq<char>)
    ensures
        inserted(s, x).len() == s.len() + 1,
    decreases s.len(),
{
    if s.len() > 0 && precedes(x, s.last()) {
        lemma_inserted_len(s.drop_last(), x);
    }
}

/// Ordering texts neither adds nor loses one.
pub proof fn lemma_sorted_len(s: Seq<Seq<char>>)
    ensures
        sorted(s).len() == s.len(),
    decreases s.len(),
{
    if s.len() > 0 {
        lemma_sorted_len(s.drop_last());
        lemma_inserted_len(sorted(s.drop_last()), s.last());
    }
}

/// Whether no text of `s` comes before one that stands earlier in `s`.
pub open spec fn in_order(s: Seq<Seq<char>>) -> bool {
    forall|i: int, j: int| 0 <= i < j < s.len() ==> !precedes(#[trigger] s[j], #[trigger] s[i])
}

proof fn lemma_inserted_below(s: Seq<Seq<char>>, x: Seq<char>, top: Seq<char>)
    requires
        forall|i: int| 0 <= i < s.len() ==> !precedes(top, #[trigger] s[i]),
        !precedes(top, x),
    ensures
        forall|i: int|
            0 <= i < inserted(s, x).len() ==> !precedes(top, #[trigger] inserted(s, x)[i]),
    decreases s.len(),
{
    if s.len() > 0 && precedes(x, s.last()) {
        let rest = s.drop_last();
        assert forall|i: int| 0 <= i < rest.len() implies !precedes(top, #[trigger] rest[i]) by {
            assert(rest[i] == s[i]);
        }
        lemma_inserted_below(rest, x, top);
        assert forall|i: int| 0 <= i < inserted(s, x).len() implies !precedes(
            top,
            #[trigger] inserted(s, x)[i],
        ) by {
            if i < inserted(rest, x).len() {
                assert(inserted(s, x)[i] == inserted(rest, x)[i]);
            } else {
                assert(inserted(s, x)[i] == s.last());
            }
        }
    }
}

proof fn lemma_inserted_in_order(s: Seq<Seq<char>>, x: Seq<char>)
    requires
        in_order(s),
    ensures
        in_order(inserted(s, x)),
    decreases s.len(),
{
    let r = inserted(s, x);
    if s.len() > 0 && precedes(x, s.last()) {
        let rest = s.drop_last();
        assert(in_order(rest)) by {
            assert forall|i: int, j: int| 0 <= i < j < rest.len() implies !precedes(
                #[trigger] rest[j],
                #[trigger] rest[i],
            ) by {
                assert(rest[i] == s[i] && rest[j] == s[j]);
            }
        }
        lemma_inserted_in_order(rest, x);
        lemma_precedes_asymmetric(x, s.last());
        assert forall|i: int| 0 <= i < rest.len() implies !precedes(
            s.last(),
            #[trigger] rest[i],
        ) by {
            assert(rest[i] == s[i]);
            assert(s.last() == s[s.len() - 1]);
        }
        lemma_inserted_below(rest, x, s.last());
        let front = inserted(rest, x);
        assert forall|i: int, j: int| 0 <= i < j < r.len() implies !precedes(
            #[trigger] r[j],
            #[trigger] r[i],
        ) by {
            assert(r[i] == front[i]);
            if j < front.len() {
                assert(r[j] == front[j]);
            } else {
                assert(r[j] == s.last());
            }
        }
    } else {
        assert forall|i: int, j: int| 0 <= i < j < r.len() implies !precedes(
            #[trigger] r[j],
            #[trigger] r[i],
        ) by {
            if j < s.len() {
                assert(r[i] == s[i] && r[j] == s[j]);
            } else {
                assert(r[j] == x);
                assert(r[i] == s[i]);
                if precedes(x, s[i]) {
                    let last = s.last();
                    assert(last == s[s.len() - 1]);
                    if i < s.len() - 1 {
                        assert(!precedes(last, s[i]));
                        lemma_precedes_total(s[i], last);
                        if precedes(s[i], last) {
                            lemma_precedes_transitive(x, s[i], last);
                        }
                    }
                }
            }
        }
    }
}

/// The texts that `sorted` gives stand in lexicographic order.
pub proof fn lemma_sorted_in_order(s: Seq<Seq<char>>)
    ensures
        in_order(sorted(s)),
    decreases s.len(),
{
    if s.len() > 0 {
        lemma_sorted_in_order(s.drop_last());
        lemma_inserted_in_order(sorted(s.drop_last()), s.last());
    }
}

proof fn lemma_inserted_same_texts(s: Seq<Seq<char>>, x: Seq<char>)
    ensures
        inserted(s, x).to_multiset() == s.to_multiset().insert(x),
    decreases s.len(),
{
    broadcast use vstd::seq_lib::to_multiset_build;

    if s.len() > 0 && precedes(x, s.last()) {
        lemma_inserted_same_texts(s.drop_last(), x);
        assert(s.drop_last().push(s.last()) =~= s);
        assert(inserted(s, x).to_multiset() =~= s.drop_last().to_multiset().insert(x).insert(
            s.last(),
        ));
        assert(s.to_multiset() =~= s.drop_last().to_multiset().insert(s.last()));
        assert(s.drop_last().to_multiset().insert(x).insert(s.last())
            =~= s.drop_last().to_multiset().insert(s.last()).insert(x));
    }
}

/// The texts that `sorted` gives are those that it was given, each as many
/// times.
pub proof fn lemma_sorted_same_texts(s: Seq<Seq<char>>)
    ensures
        sorted(s).to_multiset() == s.to_multiset(),
    decreases s.len(),
{
    broadcast use vstd::seq_lib::to_multiset_build;

    if s.len() > 0 {
        lemma_sorted_same_texts(s.drop_last());
        lemma_inserted_same_texts(sorted(s.drop_last()), s.last());
        assert(s.drop_last().push(s.last()) =~= s);
    }
}

} // verus!
