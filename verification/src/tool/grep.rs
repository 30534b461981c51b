//! The grep tool: which lines of a file a pattern matches, and how to show
//! them.

use crate::json::{members_view, Json, JsonValue, Member};
use crate::text::{
    append, combine, decimal, decimal_text, ends_with, from_chars, has_prefix, has_suffix, join,
    join_strings, lines, same, slice, split_lines, starts_with, strings_view, texts, to_chars,
};
use crate::tool::context::ToolContext;
use crate::tool::list::count_metadata;
use crate::tool::{
    choice, make_choice, make_property, make_schema, property, schema, strings, ToolResult,
};
use crate::tool::matcher::{regex_matches, Matcher};
use vstd::prelude::*;

verus! {

/// What the grep tool says of itself.
pub const DESCRIPTION: &'static str = "A powerful search tool for finding text patterns in files.\n\nUsage:\n- Supports full regex syntax (e.g., \"log.*Error\", \"function\\s+\\w+\")\n- Filter files with glob parameter (e.g., \"*.js\", \"**/*.tsx\")\n- Output modes: \"content\" shows matching lines, \"files_with_matches\" shows only file paths\n- Use -C/-A/-B for context lines around matches";

/// What the grep tool is asked to do.
#[derive(Debug)]
pub struct GrepParams {
    /// The regular expression to search for.
    pub pattern: String,
    /// The file or directory to search; the working directory where none
    /// is given.
    pub path: Option<String>,
    /// The pattern that the names of the searched files must match.
    pub glob: Option<String>,
    /// What to show: `content`, `files_with_matches` or `count`.
    pub output_mode: String,
    /// Whether capital and small letters count as the same.
    pub case_insensitive: bool,
    /// Whether the shown lines carry their numbers.
    pub line_numbers: bool,
    /// The number of lines to show before each matching line.
    pub context_before: Option<usize>,
    /// The number of lines to show after each matching line.
    pub context_after: Option<usize>,
    /// The number of lines to show on both sides; it goes before the two
    /// above.
    pub context: Option<usize>,
    /// The number of results after which the search stops.
    pub head_limit: Option<usize>,
}

/// The output mode of a call that names none.
pub fn default_output_mode() -> (s: String)
    ensures
        s@ == "files_with_matches"@,
{
    "files_with_matches".to_owned()
}

/// The value of a switch that is on where the call does not name it.
pub fn default_true() -> (b: bool)
    ensures
        b,
{
    true
}

/// The grep tool.
pub struct GrepTool;

/// Whether a file or directory of the name `name` is hidden: the name
/// begins with a dot and is neither one dot nor two.
pub open spec fn hidden(name: Seq<char>) -> bool {
    starts_with(name, "."@) && name != "."@ && name != ".."@
}

/// Whether the entry called `name` is left out of a search.
pub fn is_hidden(name: &str) -> (b: bool)
    ensures
        b == hidden(name@),
{
    let n = to_chars(name);
    has_prefix(&n, &to_chars(".")) && !same(&n, &to_chars(".")) && !same(&n, &to_chars(".."))
}

/// Whether the file name `name` fits the pattern `pattern`. A pattern that
/// begins with `*.` or with `**/*.` asks for the ending that follows its
/// star; any other pattern asks for the very name.
pub open spec fn glob_fits(name: Seq<char>, pattern: Seq<char>) -> bool {
    if starts_with(pattern, "*."@) {
        ends_with(name, pattern.skip(1))
    } else if starts_with(pattern, "**/*."@) {
        ends_with(name, pattern.skip(4))
    } else {
        name == pattern
    }
}

/// Whether the file name `name` fits the pattern `pattern`.
pub fn matches_glob(name: &str, pattern: &str) -> (b: bool)
    ensures
        b == glob_fits(name@, pattern@),
{
    let n = to_chars(name);
    let p = to_chars(pattern);
    proof {
        reveal_strlit("*.");
        reveal_strlit("**/*.");
    }
    if has_prefix(&p, &to_chars("*.")) {
        has_suffix(&n, &slice(&p, 1, p.len()))
    } else if has_prefix(&p, &to_chars("**/*.")) {
        has_suffix(&n, &slice(&p, 4, p.len()))
    } else {
        same(&n, &p)
    }
}

/// Whether line `i` is marked in `hits`.
pub open spec fn hit(hits: Seq<bool>, i: int) -> bool {
    0 <= i < hits.len() && hits[i]
}

/// The number of lines before line `upto` that are marked in `hits`.
pub open spec fn hit_count(hits: Seq<bool>, upto: int) -> nat
    decreases upto,
{
    if upto <= 0 {
        0
    } else {
        hit_count(hits, upto - 1) + if hit(hits, upto - 1) {
            1nat
        } else {
            0nat
        }
    }
}

/// One line as a search shows it: the file, the number of the line where
/// numbers are asked for, and the line.
pub open spec fn shown_line(file: Seq<char>, number: nat, line: Seq<char>, numbered: bool) -> Seq<
    char,
> {
    if numbered {
        file + ":"@ + decimal(number) + ": "@ + line
    } else {
        file + ": "@ + line
    }
}

/// The first line that is shown with the matching line `i`.
pub open spec fn context_start(i: int, before: int) -> int {
    if i >= before {
        i - before
    } else {
        0
    }
}

/// The line after the last one that is shown with the matching line `i`.
pub open spec fn context_end(i: int, after: int, count: int) -> int {
    if i + after + 1 <= count {
        i + after + 1
    } else {
        count
    }
}

/// The lines of `ls` from line `from` up to, not including, line `to`, as
/// the search shows them.
pub open spec fn shown_range(
    file: Seq<char>,
    ls: Seq<Seq<char>>,
    numbered: bool,
    from: int,
    to: int,
) -> Seq<Seq<char>>
    decreases to - from,
{
    if to <= from {
        Seq::empty()
    } else {
        shown_range(file, ls, numbered, from, to - 1).push(
            shown_line(file, to as nat, ls[to - 1], numbered),
        )
    }
}

/// What the mode `content` shows for the matching lines before line `upto`:
/// each with the lines around it, in the order of the lines. A line that
/// lies around two matching lines is shown with both.
pub open spec fn content_lines(
    file: Seq<char>,
    ls: Seq<Seq<char>>,
    hits: Seq<bool>,
    numbered: bool,
    before: int,
    after: int,
    upto: int,
) -> Seq<Seq<char>>
    decreases upto,
{
    if upto <= 0 {
        Seq::empty()
    } else if hit(hits, upto - 1) {
        content_lines(file, ls, hits, numbered, before, after, upto - 1) + shown_range(
            file,
            ls,
            numbered,
            context_start(upto - 1, before),
            context_end(upto - 1, after, ls.len() as int),
        )
    } else {
        content_lines(file, ls, hits, numbered, before, after, upto - 1)
    }
}

/// What a search shows for one file with the lines `ls`, of which those
/// marked in `hits` match: nothing where no line matches; else the file, or
/// the file with the number of matching lines, or the matching lines with
/// the lines around them, as the mode asks; and nothing for any other mode.
pub open spec fn search_result(
    file: Seq<char>,
    ls: Seq<Seq<char>>,
    hits: Seq<bool>,
    mode: Seq<char>,
    numbered: bool,
    before: int,
    after: int,
) -> Seq<Seq<char>> {
    let count = hit_count(hits, ls.len() as int);
    if count == 0 {
        Seq::empty()
    } else if mode == "files_with_matches"@ {
        seq![file]
    } else if mode == "count"@ {
        seq![file + ":"@ + decimal(count)]
    } else if mode == "content"@ {
        content_lines(file, ls, hits, numbered, before, after, ls.len() as int)
    } else {
        Seq::empty()
    }
}

fn show_line(file: &Vec<char>, number: usize, line: &Vec<char>, numbered: bool) -> (r: String)
    ensures
        r@ == shown_line(file@, number as nat, line@, numbered),
{
    let mut out: Vec<char> = Vec::new();
    append(&mut out, file);
    if numbered {
        append(&mut out, &to_chars(":"));
        append(&mut out, &decimal_text(number as u128));
    }
    append(&mut out, &to_chars(": "));
    append(&mut out, line);
    assert(out@ =~= shown_line(file@, number as nat, line@, numbered));
    from_chars(&out)
}

/// What a search shows for one file, given its lines and which of them
/// match.
pub fn search_lines(
    file: &str,
    ls: &Vec<Vec<char>>,
    hits: &Vec<bool>,
    output_mode: &str,
    show_line_numbers: bool,
    context_before: usize,
    context_after: usize,
) -> (r: Vec<String>)
    ensures
        strings_view(r@) == search_result(
            file@,
            texts(ls@),
            hits@,
            output_mode@,
            show_line_numbers,
            context_before as int,
            context_after as int,
        ),
{
    let name = to_chars(file);
    let mode = to_chars(output_mode);
    let count: usize = ls.len();
    let mut found: usize = 0;
    let mut i: usize = 0;
    while i < count
        invariant
            i <= count,
            count == ls.len(),
            found == hit_count(hits@, i as int),
            found <= i,
        decreases count - i,
    {
        if i < hits.len() && hits[i] {
            found += 1;
        }
        i += 1;
    }
    let mut r: Vec<String> = Vec::new();
    assert(strings_view(r@) =~= Seq::<Seq<char>>::empty());
    if found == 0 {
        return r;
    }
    if same(&mode, &to_chars("files_with_matches")) {
        r.push(from_chars(&name));
        assert(strings_view(r@) =~= seq![file@]);
        return r;
    }
    if same(&mode, &to_chars("count")) {
        let mut line: Vec<char> = Vec::new();
        append(&mut line, &name);
        append(&mut line, &to_chars(":"));
        append(&mut line, &decimal_text(found as u128));
        r.push(from_chars(&line));
        assert(strings_view(r@) =~= seq![file@ + ":"@ + decimal(found as nat)]);
        return r;
    }
    if !same(&mode, &to_chars("content")) {
        return r;
    }
    let mut at: usize = 0;
    while at < count
        invariant
            at <= count,
            count == ls.len(),
            name@ == file@,
            strings_view(r@) == content_lines(
                file@,
                texts(ls@),
                hits@,
                show_line_numbers,
                context_before as int,
                context_after as int,
                at as int,
            ),
        decreases count - at,
    {
        if at < hits.len() && hits[at] {
            let start: usize = if at >= context_before {
                at - context_before
            } else {
                0
            };
            let end: usize = if context_after < count - at - 1 {
                at + context_after + 1
            } else {
                count
            };
            let ghost before = strings_view(r@);
            let mut j: usize = start;
            assert(before + shown_range(
                file@,
                texts(ls@),
                show_line_numbers,
                start as int,
                start as int,
            ) =~= before);
            while j < end
                invariant
                    start <= j <= end <= count,
                    count == ls.len(),
                    name@ == file@,
                    strings_view(r@) == before + shown_range(
                        file@,
                        texts(ls@),
                        show_line_numbers,
                        start as int,
                        j as int,
                    ),
                decreases end - j,
            {
                let ghost sofar = strings_view(r@);
                let line = show_line(&name, j + 1, &ls[j], show_line_numbers);
                r.push(line);
                assert(strings_view(r@) =~= sofar.push(line@));
                assert(sofar.push(line@) =~= before + shown_range(
                    file@,
                    texts(ls@),
                    show_line_numbers,
                    start as int,
                    j + 1,
                ));
                j += 1;
            }
        }
        at += 1;
    }
    r
}

/// Which of the lines `ls` the pattern `pattern` matches.
pub open spec fn line_hits(pattern: Seq<char>, ls: Seq<Seq<char>>) -> Seq<bool> {
    ls.map_values(|l: Seq<char>| regex_matches(pattern, l))
}

/// What a search for `matcher` shows for the file `file_path` with the
/// content `content`.
pub fn search_file(
    content: &str,
    matcher: &Matcher,
    file_path: &str,
    ctx: &ToolContext,
    output_mode: &str,
    show_line_numbers: bool,
    context_before: usize,
    context_after: usize,
) -> (r: Vec<String>)
    ensures
        strings_view(r@) == search_result(
            ctx.shown(file_path@),
            lines(content@),
            line_hits(matcher.pattern(), lines(content@)),
            output_mode@,
            show_line_numbers,
            context_before as int,
            context_after as int,
        ),
{
    let file = ctx.relative_path(file_path);
    let ls = split_lines(&to_chars(content));
    let mut hits: Vec<bool> = Vec::new();
    let mut i: usize = 0;
    while i < ls.len()
        invariant
            i <= ls.len(),
            hits@ == line_hits(matcher.pattern(), texts(ls@)).take(i as int),
        decreases ls.len() - i,
    {
        let line = from_chars(&ls[i]);
        hits.push(matcher.is_match(line.as_str()));
        assert(hits@ =~= line_hits(matcher.pattern(), texts(ls@)).take(i + 1));
        i += 1;
    }
    assert(hits@ =~= line_hits(matcher.pattern(), texts(ls@)));
    search_lines(
        file.as_str(),
        &ls,
        &hits,
        output_mode,
        show_line_numbers,
        context_before,
        context_after,
    )
}

/// What the grep tool has decided before it looks at files.
#[derive(Debug)]
pub struct GrepPlan {
    /// The file or directory to search, resolved against the working
    /// directory.
    pub search_path: String,
    /// The pattern to compile.
    pub pattern: String,
    /// The pattern as it was given.
    pub title: String,
    /// The number of lines to show before each matching line.
    pub context_before: usize,
    /// The number of lines to show after each matching line.
    pub context_after: usize,
}

/// The number of lines to show on one side of a matching line: what is
/// asked for both sides, else what is asked for that side, else none.
pub open spec fn context_lines(both: Option<usize>, side: Option<usize>) -> int {
    match both {
        Some(n) => n as int,
        None => match side {
            Some(n) => n as int,
            None => 0,
        },
    }
}

fn context_of(both: Option<usize>, side: Option<usize>) -> (n: usize)
    ensures
        n == context_lines(both, side),
{
    match both {
        Some(n) => n,
        None => match side {
            Some(n) => n,
            None => 0,
        },
    }
}

/// What a search has gathered so far.
#[derive(Debug)]
pub struct GrepRun {
    /// The lines to show.
    pub results: Vec<String>,
    /// The number of lines that the searched files have given, also those
    /// that were cut off; it stops at the largest number that it can hold.
    pub match_count: u64,
    /// Whether the search has reached its limit, so that no more files need
    /// to be searched.
    pub done: bool,
}

/// `a + b`, or the largest 64-bit number where the sum is larger.
pub open spec fn capped_sum(a: int, b: int) -> int {
    if a + b > u64::MAX {
        u64::MAX as int
    } else {
        a + b
    }
}

impl GrepRun {
    /// A search that has seen no file yet.
    pub fn new() -> (run: GrepRun)
        ensures
            run.results@.len() == 0,
            run.match_count == 0,
            !run.done,
    {
        GrepRun { results: Vec::new(), match_count: 0, done: false }
    }

    /// Takes in what one file has given. Where the file has given
    /// something, its lines are counted and go after those gathered before;
    /// where that reaches the limit, what lies beyond the limit is cut off
    /// and the search is done. A file that has given nothing changes
    /// nothing.
    pub fn add(&mut self, file_matches: Vec<String>, head_limit: Option<usize>)
        ensures
            file_matches@.len() == 0 ==> *final(self) == *old(self),
            file_matches@.len() > 0 ==> {
                let all = strings_view(old(self).results@) + strings_view(file_matches@);
                &&& final(self).match_count == capped_sum(
                    old(self).match_count as int,
                    file_matches@.len() as int,
                )
                &&& match head_limit {
                    Some(limit) if all.len() >= limit => strings_view(final(self).results@)
                        == all.take(limit as int) && final(self).done,
                    _ => strings_view(final(self).results@) == all && final(self).done == old(
                        self,
                    ).done,
                }
            },
    {
        if file_matches.len() == 0 {
            return ;
        }
        let added: usize = file_matches.len();
        self.match_count = if added as u128 + self.match_count as u128 > u64::MAX as u128 {
            u64::MAX
        } else {
            self.match_count + added as u64
        };
        let ghost all = strings_view(old(self).results@) + strings_view(file_matches@);
        let mut incoming = file_matches;
        self.results.append(&mut incoming);
        assert(strings_view(self.results@) =~= all);
        match head_limit {
            Some(limit) => {
                if self.results.len() >= limit {
                    self.results.truncate(limit);
                    assert(strings_view(self.results@) =~= all.take(limit as int));
                    self.done = true;
                }
            },
            None => {},
        }
    }
}

impl GrepTool {
    /// The name by which the tool is called.
    pub fn id(&self) -> (s: &'static str)
        ensures
            s@ == "grep"@,
    {
        "grep"
    }

    /// What the tool says of itself.
    pub fn description(&self) -> (s: &'static str)
        ensures
            s@ == DESCRIPTION@,
    {
        DESCRIPTION
    }

    /// The parameters of the grep tool.
    pub open spec fn parameters() -> JsonValue {
        schema(
            seq![
                property(
                    "pattern"@,
                    "string"@,
                    "The regular expression pattern to search for"@,
                ),
                property("path"@, "string"@, "File or directory to search in"@),
                property("glob"@, "string"@, "Glob pattern to filter files"@),
                choice(
                    "output_mode"@,
                    "string"@,
                    seq!["content"@, "files_with_matches"@, "count"@],
                    "Output mode"@,
                ),
                property("-i"@, "boolean"@, "Case insensitive search"@),
                property("-n"@, "boolean"@, "Show line numbers"@),
                property("-B"@, "number"@, "Lines of context before match"@),
                property("-A"@, "number"@, "Lines of context after match"@),
                property("-C"@, "number"@, "Lines of context around match"@),
            ],
            seq!["pattern"@],
        )
    }

    /// The description of the tool's parameters as a JSON Schema.
    pub fn parameters_schema(&self) -> (j: Json)
        ensures
            j@ == Self::parameters(),
    {
        let modes = strings(&vec!["content", "files_with_matches", "count"]);
        assert(strings_view(modes@) =~= seq!["content"@, "files_with_matches"@, "count"@]);
        let mut properties: Vec<Member> = Vec::new();
        properties.push(
            make_property("pattern", "string", "The regular expression pattern to search for"),
        );
        properties.push(make_property("path", "string", "File or directory to search in"));
        properties.push(make_property("glob", "string", "Glob pattern to filter files"));
        properties.push(make_choice("output_mode", "string", &modes, "Output mode"));
        properties.push(make_property("-i", "boolean", "Case insensitive search"));
        properties.push(make_property("-n", "boolean", "Show line numbers"));
        properties.push(make_property("-B", "number", "Lines of context before match"));
        properties.push(make_property("-A", "number", "Lines of context after match"));
        properties.push(make_property("-C", "number", "Lines of context around match"));
        let required = strings(&vec!["pattern"]);
        assert(members_view(properties@) =~= seq![
            property("pattern"@, "string"@, "The regular expression pattern to search for"@),
            property("path"@, "string"@, "File or directory to search in"@),
            property("glob"@, "string"@, "Glob pattern to filter files"@),
            choice(
                "output_mode"@,
                "string"@,
                seq!["content"@, "files_with_matches"@, "count"@],
                "Output mode"@,
            ),
            property("-i"@, "boolean"@, "Case insensitive search"@),
            property("-n"@, "boolean"@, "Show line numbers"@),
            property("-B"@, "number"@, "Lines of context before match"@),
            property("-A"@, "number"@, "Lines of context after match"@),
            property("-C"@, "number"@, "Lines of context around match"@),
        ]);
        assert(strings_view(required@) =~= seq!["pattern"@]);
        make_schema(properties, &required)
    }

    /// Finds where to search and what for. A search that is to take capital
    /// and small letters for the same gets the flag for it in front of its
    /// pattern.
    pub fn plan(&self, params: &GrepParams, ctx: &ToolContext) -> (p: GrepPlan)
        ensures
            p.search_path@ == match params.path {
                Some(path) => ctx.resolved(path@),
                None => ctx.working_directory@,
            },
            p.pattern@ == if params.case_insensitive {
                "(?i)"@ + params.pattern@
            } else {
                params.pattern@
            },
            p.title@ == params.pattern@,
            p.context_before == context_lines(params.context, params.context_before),
            p.context_after == context_lines(params.context, params.context_after),
    {
        let search_path = match &params.path {
            Some(path) => ctx.resolve_path(path.as_str()),
            None => ctx.working_directory.clone(),
        };
        let pattern = if params.case_insensitive {
            combine("(?i)", params.pattern.as_str())
        } else {
            params.pattern.clone()
        };
        GrepPlan {
            search_path,
            pattern,
            title: params.pattern.clone(),
            context_before: context_of(params.context, params.context_before),
            context_after: context_of(params.context, params.context_after),
        }
    }

    /// What the call returns for what the search has gathered.
    pub fn finish(&self, plan: &GrepPlan, run: &GrepRun) -> (r: ToolResult)
        ensures
            r.title@ == plan.title@,
            r.output@ == join(strings_view(run.results@), "\n"@),
            r.metadata@ == count_metadata(run.match_count as int),
            r.attachments is None,
    {
        let mut top: Vec<Member> = Vec::new();
        top.push(crate::json::member("count", Json::number(run.match_count as i128)));
        assert(members_view(top@) =~= seq![("count"@, JsonValue::Number(run.match_count as int))]);
        ToolResult {
            title: plan.title.clone(),
            output: join_strings(&run.results, "\n"),
            metadata: Json::object(top),
            attachments: None,
        }
    }
}

} // verus!
