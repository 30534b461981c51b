//! Paths as text. What a path means is decided by `std::path`, for the
//! platform that the library is built for; this module hands its answers on
//! as plain text. Each answer has a name here, and the contracts of the
//! functions that ask speak of these names: they say which question was
//! asked of which paths, not how `std::path` answers it.

use crate::text::opt_text;
use std::path::{Component, Path};
use vstd::prelude::*;

verus! {

/// What `Path::extension` gives for the path `path`: the part of the file
/// name after its last dot, where the file name has one that is not its
/// first character.
pub uninterp spec fn path_extension(path: Seq<char>) -> Option<Seq<char>>;

/// What `Path::is_absolute` gives for the path `path`.
pub uninterp spec fn path_is_absolute(path: Seq<char>) -> bool;

/// What `Path::join` gives for the path `base` and the path `path`: `path`
/// adjoined to `base`, or `path` alone where it is absolute.
pub uninterp spec fn path_join(base: Seq<char>, path: Seq<char>) -> Seq<char>;

/// What `Path::strip_prefix` gives for the path `path` and the path `base`:
/// the rest of `path` after the components of `base`, where `path` begins
/// with them.
pub uninterp spec fn path_strip_prefix(path: Seq<char>, base: Seq<char>) -> Option<Seq<char>>;

/// `Path::extension`, read as text: the result is the extension that
/// `std::path` finds in `path`.
#[verifier::external_body]
pub(crate) fn extension(path: &str) -> (r: Option<String>)
    ensures
        opt_text(r) == path_extension(path@),
{
    Path::new(path).extension().map(|e| e.to_string_lossy().into_owned())
}

/// `Path::is_absolute`: the result tells whether `std::path` takes `path`
/// for absolute.
#[verifier::external_body]
pub(crate) fn is_absolute(path: &str) -> (r: bool)
    ensures
        r == path_is_absolute(path@),
{
    Path::new(path).is_absolute()
}

/// `Path::join`, read as text: the result is `path` adjoined to `base` as
/// `std::path` does it.
#[verifier::external_body]
pub(crate) fn join(base: &str, path: &str) -> (r: String)
    ensures
        r@ == path_join(base@, path@),
{
    Path::new(base).join(path).to_string_lossy().into_owned()
}

/// `Path::strip_prefix`, read as text: the result is what `std::path`
/// leaves of `path` after `base`, and nothing where `base` is no prefix of
/// `path`.
#[verifier::external_body]
pub(crate) fn strip_prefix(path: &str, base: &str) -> (r: Option<String>)
    ensures
        opt_text(r) == path_strip_prefix(path@, base@),
{
    Path::new(path).strip_prefix(base).ok().map(|p| p.to_string_lossy().into_owned())
}

/// The kinds of components that `std::path` tells apart.
#[derive(Debug, Clone, Copy, PartialEq, Eq, Structural)]
pub enum PartKind {
    /// A drive or share, on systems that have them.
    Prefix,
    /// The root directory.
    Root,
    /// A reference to the directory itself.
    Current,
    /// A reference to the directory above.
    Parent,
    /// A name.
    Normal,
}

/// One component of a path, with its text.
#[derive(Debug)]
pub struct PathPart {
    pub kind: PartKind,
    pub text: String,
}

/// What the components `parts` hold.
pub open spec fn parts_view(parts: Seq<PathPart>) -> Seq<(PartKind, Seq<char>)> {
    parts.map_values(|p: PathPart| (p.kind, p.text@))
}

/// What `Path::components` gives for the path `path`: its components in
/// order, each with the text that `Component::as_os_str` gives for it.
pub uninterp spec fn path_components(path: Seq<char>) -> Seq<(PartKind, Seq<char>)>;

/// What `Path::starts_with` gives for the path `path` and the path `base`:
/// whether the components of `path` begin with those of `base`.
pub uninterp spec fn path_starts_with(path: Seq<char>, base: Seq<char>) -> bool;

/// What `Path::parent` gives for the path `path`: the path without its last
/// component, where it has one that can be left out.
pub uninterp spec fn path_parent(path: Seq<char>) -> Option<Seq<char>>;

/// What `Path::file_name` gives for the path `path`: its last component,
/// where that is a name.
pub uninterp spec fn path_file_name(path: Seq<char>) -> Option<Seq<char>>;

/// What `==` gives for the paths `a` and `b`: whether they have the same
/// components.
pub uninterp spec fn path_eq(a: Seq<char>, b: Seq<char>) -> bool;

/// `Path::components`, read as plain values: the result holds the kind and
/// the text of each component, in order.
#[verifier::external_body]
pub(crate) fn components(path: &str) -> (r: Vec<PathPart>)
    ensures
        parts_view(r@) == path_components(path@),
{
    let kind = |c: &Component| match c {
        Component::Prefix(_) => PartKind::Prefix,
        Component::RootDir => PartKind::Root,
        Component::CurDir => PartKind::Current,
        Component::ParentDir => PartKind::Parent,
        Component::Normal(_) => PartKind::Normal,
    };
    let text = |c: &Component| c.as_os_str().to_string_lossy().into_owned();
    Path::new(path).components().map(|c| PathPart { kind: kind(&c), text: text(&c) }).collect()
}

/// `Path::starts_with`: the result tells whether `std::path` finds the
/// components of `base` at the start of `path`.
#[verifier::external_body]
pub(crate) fn starts_with(path: &str, base: &str) -> (r: bool)
    ensures
        r == path_starts_with(path@, base@),
{
    Path::new(path).starts_with(base)
}

/// `Path::parent`, read as text: the result is the path that `std::path`
/// leaves when the last component goes; it is shorter than `path`.
#[verifier::external_body]
pub(crate) fn parent(path: &str) -> (r: Option<String>)
    ensures
        opt_text(r) == path_parent(path@),
        r matches Some(p) ==> p@.len() < path@.len(),
{
    Path::new(path).parent().map(|p| p.to_string_lossy().into_owned())
}

/// `Path::file_name`, read as text: the result is the last component of
/// `path` as `std::path` finds it, and nothing where the path ends in no
/// name.
#[verifier::external_body]
pub(crate) fn file_name(path: &str) -> (r: Option<String>)
    ensures
        opt_text(r) == path_file_name(path@),
{
    Path::new(path).file_name().map(|n| n.to_string_lossy().into_owned())
}

/// The comparison of two paths by `==`: the result tells whether
/// `std::path` takes them for equal.
#[verifier::external_body]
pub(crate) fn same_path(a: &str, b: &str) -> (r: bool)
    ensures
        r == path_eq(a@, b@),
{
    Path::new(a) == Path::new(b)
}

} // verus!
