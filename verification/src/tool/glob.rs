//! The glob tool: which pattern to expand, and how to show what it found,
//! the file changed last first.

use crate::error::AgentError;
use crate::json::{members_view, Json, JsonValue, Member};
use crate::text::{combine, has_prefix, join, join_strings, starts_with, strings_view, to_chars};
use crate::tool::context::ToolContext;
use crate::tool::list::{count_metadata, make_count_metadata};
use crate::tool::{make_property, make_schema, property, schema, strings, ToolResult};
use crate::util::path::{join as join_path, path_join};
use vstd::prelude::*;

verus! {

/// What the glob tool says of itself.
pub const DESCRIPTION: &'static str = "Fast file pattern matching tool.\n\nUsage:\n- Supports glob patterns like \"**/*.js\" or \"src/**/*.ts\"\n- Returns matching file paths sorted by modification time\n- Use for finding files by name patterns";

/// What the glob tool is asked to do.
#[derive(Debug)]
pub struct GlobParams {
    /// The pattern that the files are to match.
    pub pattern: String,
    /// The directory to search; the working directory where none is given.
    pub path: Option<String>,
}

/// The glob tool.
pub struct GlobTool;

/// What the glob tool has decided before it looks for files.
#[derive(Debug)]
pub struct GlobPlan {
    /// The pattern to expand, with the directory in front where the pattern
    /// does not begin at the root.
    pub pattern: String,
    /// The pattern as it was given.
    pub title: String,
}

/// A file that the pattern has matched.
#[derive(Debug)]
pub struct GlobMatch {
    pub path: String,
    /// When the file was changed last, as a count of time units from a
    /// fixed moment, negative before that moment.
    pub modified: i128,
}

/// The order `order`, which lists positions of `keys` with the larger key
/// first, with the position `x` put where it belongs: before the positions
/// at the end of `order` whose key is smaller.
pub open spec fn placed(keys: Seq<int>, order: Seq<int>, x: int) -> Seq<int>
    decreases order.len(),
{
    if order.len() > 0 && keys[order.last()] < keys[x] {
        placed(keys, order.drop_last(), x).push(order.last())
    } else {
        order.push(x)
    }
}

/// The first `n` positions of `keys`, the position of the larger key first,
/// and of two equal keys the earlier position first.
pub open spec fn by_recency(keys: Seq<int>, n: int) -> Seq<int>
    decreases n,
{
    if n <= 0 {
        Seq::empty()
    } else {
        placed(keys, by_recency(keys, n - 1), n - 1)
    }
}

/// When each of the matches `ms` was changed last.
pub open spec fn change_times(ms: Seq<GlobMatch>) -> Seq<int> {
    ms.map_values(|m: GlobMatch| m.modified as int)
}

/// The positions of `ms`, the match changed last first.
pub fn recency_order(ms: &Vec<GlobMatch>) -> (order: Vec<usize>)
    ensures
        order@.map_values(|i: usize| i as int) == by_recency(change_times(ms@), ms@.len() as int),
        forall|k: int| 0 <= k < order.len() ==> #[trigger] order@[k] < ms.len(),
{
    let ghost keys = change_times(ms@);
    let mut order: Vec<usize> = Vec::new();
    let mut n: usize = 0;
    assert(order@.map_values(|i: usize| i as int) =~= by_recency(keys, 0));
    while n < ms.len()
        invariant
            n <= ms.len(),
            keys == change_times(ms@),
            order@.map_values(|i: usize| i as int) == by_recency(keys, n as int),
            forall|k: int| 0 <= k < order.len() ==> #[trigger] order@[k] < n,
        decreases ms.len() - n,
    {
        let ghost sofar = order@.map_values(|i: usize| i as int);
        let mut at: usize = order.len();
        assert(placed(keys, sofar.take(at as int), n as int) + sofar.skip(at as int) =~= placed(
            keys,
            sofar,
            n as int,
        )) by {
            assert(sofar.take(at as int) =~= sofar);
        }
        while at > 0 && ms[order[at - 1]].modified < ms[n].modified
            invariant
                at <= order.len(),
                n < ms.len(),
                keys == change_times(ms@),
                sofar == order@.map_values(|i: usize| i as int),
                forall|k: int| 0 <= k < order.len() ==> #[trigger] order@[k] < n,
                placed(keys, sofar, n as int) == placed(keys, sofar.take(at as int), n as int)
                    + sofar.skip(at as int),
            decreases at,
        {
            assert(sofar.take(at as int).drop_last() =~= sofar.take(at - 1));
            assert(sofar.take(at as int).last() == sofar[at - 1]);
            assert(placed(keys, sofar.take(at - 1), n as int).push(sofar[at - 1]) + sofar.skip(
                at as int,
            ) =~= placed(keys, sofar.take(at - 1), n as int) + sofar.skip(at - 1));
            at -= 1;
        }
        assert(placed(keys, sofar.take(at as int), n as int) == sofar.take(at as int).push(
            n as int,
        )) by {
            if at > 0 {
                assert(sofar.take(at as int).last() == sofar[at - 1]);
                assert(keys[sofar[at - 1]] == ms@[order@[at - 1] as int].modified);
            }
            assert(keys[n as int] == ms@[n as int].modified);
        }
        order.insert(at, n);
        assert(order@.map_values(|i: usize| i as int) =~= sofar.take(at as int).push(n as int)
            + sofar.skip(at as int));
        n += 1;
    }
    order
}

/// The lines that the call returns: each match as the context shows it, the
/// match changed last first.
pub open spec fn match_lines(ctx: &ToolContext, ms: Seq<GlobMatch>) -> Seq<Seq<char>> {
    by_recency(change_times(ms), ms.len() as int).map_values(|i: int| ctx.shown(ms[i].path@))
}

impl GlobTool {
    /// The name by which the tool is called.
    pub fn id(&self) -> (s: &'static str)
        ensures
            s@ == "glob"@,
    {
        "glob"
    }

    /// What the tool says of itself.
    pub fn description(&self) -> (s: &'static str)
        ensures
            s@ == DESCRIPTION@,
    {
        DESCRIPTION
    }

    /// The parameters of the glob tool.
    pub open spec fn parameters() -> JsonValue {
        schema(
            seq![
                property("pattern"@, "string"@, "The glob pattern to match files against"@),
                property(
                    "path"@,
                    "string"@,
                    "The directory to search in (defaults to working directory)"@,
                ),
            ],
            seq!["pattern"@],
        )
    }

    /// The description of the tool's parameters as a JSON Schema.
    pub fn parameters_schema(&self) -> (j: Json)
        ensures
            j@ == Self::parameters(),
    {
        let mut properties: Vec<Member> = Vec::new();
        properties.push(
            make_property("pattern", "string", "The glob pattern to match files against"),
        );
        properties.push(
            make_property(
                "path",
                "string",
                "The directory to search in (defaults to working directory)",
            ),
        );
        let required = strings(&vec!["pattern"]);
        assert(members_view(properties@) =~= seq![
            property("pattern"@, "string"@, "The glob pattern to match files against"@),
            property(
                "path"@,
                "string"@,
                "The directory to search in (defaults to working directory)"@,
            ),
        ]);
        assert(strings_view(required@) =~= seq!["pattern"@]);
        make_schema(properties, &required)
    }

    /// The pattern to expand: the given one where it begins with a slash,
    /// else the given one adjoined to the directory to search.
    pub open spec fn full_pattern(params: &GlobParams, ctx: &ToolContext) -> Seq<char> {
        if starts_with(params.pattern@, "/"@) {
            params.pattern@
        } else {
            path_join(
                match params.path {
                    Some(path) => ctx.resolved(path@),
                    None => ctx.working_directory@,
                },
                params.pattern@,
            )
        }
    }

    /// Finds the pattern to expand.
    pub fn plan(&self, params: &GlobParams, ctx: &ToolContext) -> (p: GlobPlan)
        ensures
            p.pattern@ == Self::full_pattern(params, ctx),
            p.title@ == params.pattern@,
    {
        let base = match &params.path {
            Some(path) => ctx.resolve_path(path.as_str()),
            None => ctx.working_directory.clone(),
        };
        let given = to_chars(params.pattern.as_str());
        let pattern = if has_prefix(&given, &to_chars("/")) {
            params.pattern.clone()
        } else {
            join_path(base.as_str(), params.pattern.as_str())
        };
        GlobPlan { pattern, title: params.pattern.clone() }
    }

    /// The failure of a call whose pattern cannot be expanded; `reason`
    /// says why.
    pub fn invalid_pattern(&self, reason: &str) -> (e: AgentError)
        ensures
            e.is_tool_execution("glob"@, "Invalid pattern: "@ + reason@),
    {
        AgentError::tool_execution("glob", combine("Invalid pattern: ", reason).as_str())
    }

    /// What the call returns for the files that the pattern has matched.
    pub fn finish(&self, plan: &GlobPlan, ctx: &ToolContext, matches: &Vec<GlobMatch>) -> (r:
        ToolResult)
        ensures
            r.title@ == plan.title@,
            r.output@ == join(match_lines(ctx, matches@), "\n"@),
            r.metadata@ == count_metadata(matches@.len() as int),
            r.attachments is None,
    {
        let order = recency_order(matches);
        let ghost positions = by_recency(change_times(matches@), matches@.len() as int);
        let mut lines: Vec<String> = Vec::new();
        let mut k: usize = 0;
        assert(strings_view(lines@) =~= match_lines(ctx, matches@).take(0));
        while k < order.len()
            invariant
                k <= order.len(),
                positions == by_recency(change_times(matches@), matches@.len() as int),
                order@.map_values(|i: usize| i as int) == positions,
                forall|j: int| 0 <= j < order.len() ==> #[trigger] order@[j] < matches.len(),
                strings_view(lines@) == match_lines(ctx, matches@).take(k as int),
            decreases order.len() - k,
        {
            let ghost before = strings_view(lines@);
            assert(positions[k as int] == order@[k as int] as int);
            let line = ctx.relative_path(matches[order[k]].path.as_str());
            lines.push(line);
            assert(strings_view(lines@) =~= before.push(line@));
            assert(before.push(line@) =~= match_lines(ctx, matches@).take(k + 1));
            k += 1;
        }
        assert(positions.len() == order@.len());
        assert(match_lines(ctx, matches@).take(order@.len() as int) =~= match_lines(
            ctx,
            matches@,
        ));
        proof {
            lemma_by_recency_well_ordered(change_times(matches@), matches@.len() as int);
        }
        ToolResult {
            title: plan.title.clone(),
            output: join_strings(&lines, "\n"),
            metadata: make_count_metadata(lines.len()),
            attachments: None,
        }
    }
}

/// Whether the match at position `a` is shown before the one at position
/// `b`: it was changed later, or at the same time and was found earlier.
pub open spec fn shown_before(keys: Seq<int>, a: int, b: int) -> bool {
    keys[a] > keys[b] || (keys[a] == keys[b] && a < b)
}

/// Whether `order` lists positions below `bound`, each shown before those
/// that follow it.
pub open spec fn well_ordered(keys: Seq<int>, order: Seq<int>, bound: int) -> bool {
    &&& forall|i: int| 0 <= i < order.len() ==> 0 <= #[trigger] order[i] < bound
    &&& forall|i: int, j: int|
        0 <= i < j < order.len() ==> shown_before(keys, #[trigger] order[i], #[trigger] order[j])
}

proof fn lemma_placed_before(keys: Seq<int>, order: Seq<int>, x: int, last: int)
    requires
        forall|i: int| 0 <= i < order.len() ==> shown_before(keys, #[trigger] order[i], last),
        shown_before(keys, x, last),
    ensures
        forall|i: int|
            0 <= i < placed(keys, order, x).len() ==> shown_before(
                keys,
                #[trigger] placed(keys, order, x)[i],
                last,
            ),
    decreases order.len(),
{
    if order.len() > 0 && keys[order.last()] < keys[x] {
        let rest = order.drop_last();
        assert forall|i: int| 0 <= i < rest.len() implies shown_before(
            keys,
            #[trigger] rest[i],
            last,
        ) by {
            assert(rest[i] == order[i]);
        }
        lemma_placed_before(keys, rest, x, last);
        let r = placed(keys, order, x);
        assert forall|i: int| 0 <= i < r.len() implies shown_before(keys, #[trigger] r[i], last) by {
            if i < placed(keys, rest, x).len() {
                assert(r[i] == placed(keys, rest, x)[i]);
            } else {
                assert(r[i] == order[order.len() - 1]);
            }
        }
    }
}

proof fn lemma_placed_well_ordered(keys: Seq<int>, order: Seq<int>, x: int)
    requires
        well_ordered(keys, order, x),
        0 <= x,
    ensures
        well_ordered(keys, placed(keys, order, x), x + 1),
        placed(keys, order, x).len() == order.len() + 1,
        placed(keys, order, x).contains(x),
        forall|k: int| order.contains(k) ==> placed(keys, order, x).contains(k),
    decreases order.len(),
{
    let r = placed(keys, order, x);
    if order.len() > 0 && keys[order.last()] < keys[x] {
        let rest = order.drop_last();
        let last = order[order.len() - 1];
        assert(well_ordered(keys, rest, x)) by {
            assert forall|i: int| 0 <= i < rest.len() implies 0 <= #[trigger] rest[i] < x by {
                assert(rest[i] == order[i]);
            }
            assert forall|i: int, j: int| 0 <= i < j < rest.len() implies shown_before(
                keys,
                #[trigger] rest[i],
                #[trigger] rest[j],
            ) by {
                assert(rest[i] == order[i] && rest[j] == order[j]);
            }
        }
        lemma_placed_well_ordered(keys, rest, x);
        assert forall|i: int| 0 <= i < rest.len() implies shown_before(
            keys,
            #[trigger] rest[i],
            last,
        ) by {
            assert(rest[i] == order[i]);
        }
        lemma_placed_before(keys, rest, x, last);
        let front = placed(keys, rest, x);
        assert(r == front.push(last));
        assert forall|i: int| 0 <= i < r.len() implies 0 <= #[trigger] r[i] < x + 1 by {
            if i < front.len() {
                assert(r[i] == front[i]);
            }
        }
        assert forall|i: int, j: int| 0 <= i < j < r.len() implies shown_before(
            keys,
            #[trigger] r[i],
            #[trigger] r[j],
        ) by {
            assert(r[i] == front[i]);
            if j < front.len() {
                assert(r[j] == front[j]);
            }
        }
        let at = choose|at: int| 0 <= at < front.len() && front[at] == x;
        assert(r[at] == x);
        assert forall|k: int| order.contains(k) implies r.contains(k) by {
            let i = choose|i: int| 0 <= i < order.len() && order[i] == k;
            if i < rest.len() {
                assert(rest[i] == k);
                assert(rest.contains(k));
                let j = choose|j: int| 0 <= j < front.len() && front[j] == k;
                assert(r[j] == k);
            } else {
                assert(r[r.len() - 1] == k);
            }
        }
    } else {
        assert(r == order.push(x));
        assert(r[r.len() - 1] == x);
        assert forall|i: int, j: int| 0 <= i < j < r.len() implies shown_before(
            keys,
            #[trigger] r[i],
            #[trigger] r[j],
        ) by {
            assert(r[i] == order[i]);
            if j < order.len() {
                assert(r[j] == order[j]);
            } else if i < order.len() - 1 {
                assert(shown_before(keys, order[i], order[order.len() - 1]));
            }
        }
        assert forall|k: int| order.contains(k) implies r.contains(k) by {
            let i = choose|i: int| 0 <= i < order.len() && order[i] == k;
            assert(r[i] == k);
        }
        assert forall|i: int| 0 <= i < r.len() implies 0 <= #[trigger] r[i] < x + 1 by {
            if i < order.len() {
                assert(r[i] == order[i]);
            }
        }
    }
}

/// The order by recency lists every position below `n` once: the position
/// of a match changed later before that of one changed earlier, and of two
/// changed at the same time the one found earlier first.
pub proof fn lemma_by_recency_well_ordered(keys: Seq<int>, n: int)
    requires
        0 <= n,
    ensures
        well_ordered(keys, by_recency(keys, n), n),
        by_recency(keys, n).len() == n,
        forall|k: int| 0 <= k < n ==> by_recency(keys, n).contains(k),
    decreases n,
{
    if n > 0 {
        lemma_by_recency_well_ordered(keys, n - 1);
        lemma_placed_well_ordered(keys, by_recency(keys, n - 1), n - 1);
        assert forall|k: int| 0 <= k < n implies by_recency(keys, n).contains(k) by {
            if k < n - 1 {
                assert(by_recency(keys, n - 1).contains(k));
            }
        }
    }
}

} // verus!
