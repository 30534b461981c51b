//! Relations between paths: where one lies from another, and what lies
//! above a directory.

use crate::text::{has_prefix, strings_view, to_chars};
use crate::util::path::{
    components, join, parent, parts_view, path_components, path_eq, path_join, path_parent,
    path_starts_with, same_path, starts_with, PartKind, PathPart,
};
use vstd::prelude::*;

verus! {

/// The number of components from index `k` on that `t` and `b` have in
/// common, one beside the other.
pub open spec fn common_from(
    t: Seq<(PartKind, Seq<char>)>,
    b: Seq<(PartKind, Seq<char>)>,
    k: int,
) -> nat
    decreases t.len() - k,
{
    if 0 <= k < t.len() && k < b.len() && t[k] == b[k] {
        1 + common_from(t, b, k + 1)
    } else {
        0
    }
}

/// The path `acc` after one step up has been adjoined for each name among
/// the components of `b` from index `from` up to, not including, `upto`.
pub open spec fn ascended(acc: Seq<char>, b: Seq<(PartKind, Seq<char>)>, from: int, upto: int) -> Seq<char>
    decreases upto - from,
{
    if upto <= from {
        acc
    } else if b[upto - 1].0 == PartKind::Normal {
        path_join(ascended(acc, b, from, upto - 1), ".."@)
    } else {
        ascended(acc, b, from, upto - 1)
    }
}

/// The path `acc` after the components of `t` from index `from` up to, not
/// including, `upto` have been adjoined in order.
pub open spec fn descended(acc: Seq<char>, t: Seq<(PartKind, Seq<char>)>, from: int, upto: int) -> Seq<char>
    decreases upto - from,
{
    if upto <= from {
        acc
    } else {
        path_join(descended(acc, t, from, upto - 1), t[upto - 1].1)
    }
}

/// The way from the path with the components `b` to the path with the
/// components `t`: past what they have in common, one step up for each
/// name left in `b`, then down the components left in `t`; a single dot
/// where nothing is left.
pub open spec fn difference(t: Seq<(PartKind, Seq<char>)>, b: Seq<(PartKind, Seq<char>)>) -> Seq<
    char,
> {
    let k = common_from(t, b, 0) as int;
    let way = descended(
        ascended(Seq::empty(), b, k, b.len() as int),
        t,
        k,
        t.len() as int,
    );
    if way.len() == 0 {
        "."@
    } else {
        way
    }
}

/// The way from `base` to `target`.
pub open spec fn path_difference(target: Seq<char>, base: Seq<char>) -> Seq<char> {
    difference(path_components(target), path_components(base))
}

fn same_part(a: &PathPart, b: &PathPart) -> (r: bool)
    ensures
        r == ((a.kind, a.text@) == (b.kind, b.text@)),
{
    a.kind == b.kind && a.text == b.text
}

/// The way from the components `b` to the components `t`.
pub fn difference_of(t: &Vec<PathPart>, b: &Vec<PathPart>) -> (r: String)
    ensures
        r@ == difference(parts_view(t@), parts_view(b@)),
{
    let ghost tv = parts_view(t@);
    let ghost bv = parts_view(b@);
    let mut k: usize = 0;
    while k < t.len() && k < b.len() && same_part(&t[k], &b[k])
        invariant
            k <= t.len(),
            k <= b.len(),
            tv == parts_view(t@),
            bv == parts_view(b@),
            common_from(tv, bv, 0) == k + common_from(tv, bv, k as int),
        decreases t.len() - k,
    {
        assert(tv[k as int] == bv[k as int]);
        k += 1;
    }
    assert(common_from(tv, bv, k as int) == 0) by {
        if k < t.len() && k < b.len() {
            assert(tv[k as int] == (t@[k as int].kind, t@[k as int].text@));
            assert(bv[k as int] == (b@[k as int].kind, b@[k as int].text@));
        }
    }
    let mut way = String::new();
    let mut i: usize = k;
    while i < b.len()
        invariant
            k <= i <= b.len(),
            bv == parts_view(b@),
            way@ == ascended(Seq::empty(), bv, k as int, i as int),
        decreases b.len() - i,
    {
        assert(bv[i as int].0 == b@[i as int].kind);
        if b[i].kind == PartKind::Normal {
            way = join(way.as_str(), "..");
        }
        i += 1;
    }
    let ghost up = way@;
    let mut j: usize = k;
    while j < t.len()
        invariant
            k <= j <= t.len(),
            tv == parts_view(t@),
            way@ == descended(up, tv, k as int, j as int),
        decreases t.len() - j,
    {
        assert(tv[j as int].1 == t@[j as int].text@);
        way = join(way.as_str(), t[j].text.as_str());
        j += 1;
    }
    if way.as_str().is_empty() {
        ".".to_owned()
    } else {
        way
    }
}

/// The relative path that leads from `base` to `target`. It always exists.
pub fn diff_paths(target: &str, base: &str) -> (r: Result<String, ()>)
    ensures
        r matches Ok(way) && way@ == path_difference(target@, base@),
{
    let t = components(target);
    let b = components(base);
    Ok(difference_of(&t, &b))
}

/// The paths in which `target` is looked for, from the directory `start`
/// upwards: `target` adjoined to `dir` and to each directory above it, up
/// to the directory that equals `stop` or has nothing above it.
pub open spec fn places_above(target: Seq<char>, dir: Seq<char>, stop: Option<Seq<char>>) -> Seq<
    Seq<char>,
>
    decreases dir.len(),
{
    let here = seq![path_join(dir, target)];
    if stop matches Some(s) && path_eq(s, dir) {
        here
    } else {
        match path_parent(dir) {
            Some(above) => if above.len() < dir.len() && !path_eq(above, dir) {
                here + places_above(target, above, stop)
            } else {
                here
            },
            None => here,
        }
    }
}

/// The text of an optional string slice.
pub open spec fn opt_str(o: Option<&str>) -> Option<Seq<char>> {
    match o {
        Some(s) => Some(s@),
        None => None,
    }
}

/// Path relations, gathered under one name.
pub struct Filesystem;

impl Filesystem {
    /// Whether `child` lies in `parent`. `resolved` holds both paths, in
    /// this order, in the canonical form that the file system gives them,
    /// where it could give one to both; they are then compared component by
    /// component, else the two paths are compared as texts.
    pub open spec fn lies_in(
        parent: Seq<char>,
        child: Seq<char>,
        resolved: Option<(Seq<char>, Seq<char>)>,
    ) -> bool {
        match resolved {
            Some((p, c)) => path_starts_with(c, p),
            None => crate::text::starts_with(child, parent),
        }
    }

    /// Whether `child` lies in `parent`.
    pub fn contains(parent: &str, child: &str, resolved: Option<(&str, &str)>) -> (r: bool)
        ensures
            r == Self::lies_in(
                parent@,
                child@,
                match resolved {
                    Some((p, c)) => Some((p@, c@)),
                    None => None,
                },
            ),
    {
        match resolved {
            Some((p, c)) => starts_with(c, p),
            None => {
                let whole = to_chars(child);
                let start = to_chars(parent);
                has_prefix(&whole, &start)
            },
        }
    }

    /// Whether one of the paths `a` and `b` lies in the other: the way from
    /// one to the other does not begin with a step up, or one contains the
    /// other.
    pub open spec fn overlap(a: Seq<char>, b: Seq<char>, resolved: Option<(Seq<char>, Seq<char>)>) -> bool {
        ||| !path_starts_with(path_difference(b, a), ".."@)
        ||| !path_starts_with(path_difference(a, b), ".."@)
        ||| Self::lies_in(a, b, resolved)
        ||| Self::lies_in(
            b,
            a,
            match resolved {
                Some((x, y)) => Some((y, x)),
                None => None,
            },
        )
    }

    /// Whether one of the paths `a` and `b` lies in the other. `resolved`
    /// holds the canonical forms of `a` and `b`, in this order, where the
    /// file system could give both.
    pub fn overlaps(a: &str, b: &str, resolved: Option<(&str, &str)>) -> (r: bool)
        ensures
            r == Self::overlap(
                a@,
                b@,
                match resolved {
                    Some((x, y)) => Some((x@, y@)),
                    None => None,
                },
            ),
    {
        let ta = components(a);
        let tb = components(b);
        let from_a = difference_of(&tb, &ta);
        if !starts_with(from_a.as_str(), "..") {
            return true;
        }
        let from_b = difference_of(&ta, &tb);
        if !starts_with(from_b.as_str(), "..") {
            return true;
        }
        let swapped: Option<(&str, &str)> = match resolved {
            Some((x, y)) => Some((y, x)),
            None => None,
        };
        Self::contains(a, b, resolved) || Self::contains(b, a, swapped)
    }

    /// The relative path that leads from `base` to `target`.
    pub fn relative(base: &str, target: &str) -> (r: String)
        ensures
            r@ == path_difference(target@, base@),
    {
        match diff_paths(target, base) {
            Ok(way) => way,
            Err(_) => target.to_owned(),
        }
    }

    /// The paths in which `target` is to be looked for, from `start`
    /// upwards, nearest first. Which of them exist is for the caller to
    /// find out.
    pub fn find_up(target: &str, start: &str, stop: Option<&str>) -> (r: Vec<String>)
        ensures
            strings_view(r@) == places_above(target@, start@, opt_str(stop)),
    {
        let mut r: Vec<String> = Vec::new();
        let mut current: String = start.to_owned();
        let mut done: bool = false;
        assert(strings_view(r@) =~= Seq::<Seq<char>>::empty());
        while !done
            invariant
                !done ==> strings_view(r@) + places_above(
                    target@,
                    current@,
                    opt_str(stop),
                ) == places_above(target@, start@, opt_str(stop)),
                done ==> strings_view(r@) == places_above(
                    target@,
                    start@,
                    opt_str(stop),
                ),
            decreases current@.len() + if done { 0int } else { 1int },
        {
            let ghost before = strings_view(r@);
            let ghost rest = places_above(target@, current@, opt_str(stop));
            let place = join(current.as_str(), target);
            r.push(place);
            assert(strings_view(r@) =~= before.push(path_join(current@, target@)));
            let at_stop: bool = match stop {
                Some(s) => same_path(s, current.as_str()),
                None => false,
            };
            if at_stop {
                assert(before.push(path_join(current@, target@)) =~= before + rest);
                done = true;
            } else {
                match parent(current.as_str()) {
                    Some(above) => {
                        if same_path(above.as_str(), current.as_str()) {
                            assert(before.push(path_join(current@, target@)) =~= before + rest);
                            done = true;
                        } else {
                            assert(before.push(path_join(current@, target@)) + places_above(
                                target@,
                                above@,
                                opt_str(stop),
                            ) =~= before + rest);
                            current = above;
                        }
                    },
                    None => {
                        assert(before.push(path_join(current@, target@)) =~= before + rest);
                        done = true;
                    },
                }
            }
        }
        r
    }
}

} // verus!
