//! The host's check that a path it is asked to open lies within a root.
//!
//! The caller walks the filesystem: it resolves the root, finds how much of
//! the target exists and resolves that part. The rule here takes what the
//! walk found and decides whether the target is safe, and under which
//! resolved path it is to be used.

use crate::paths::joined;
use crate::text::{
    concat, debug_quoted, from_chars, has_prefix, push_chars, quoted, starts_with, to_chars,
};
use vstd::prelude::*;

verus! {

/// Whether `target` is `root` or lies beneath it, component by component.
/// Both are resolved paths: absolute, with single slashes and without `.`
/// or `..`.
pub open spec fn lies_within(target: Seq<char>, root: Seq<char>) -> bool {
    &&& has_prefix(target, root)
    &&& (target.len() == root.len() || (root.len() > 0 && root.last() == '/')
        || target[root.len() as int] == '/')
}

/// Whether the resolved path `target` is `root` or lies beneath it.
pub fn is_within(target: &str, root: &str) -> (b: bool)
    ensures
        b == lies_within(target@, root@),
{
    let t = to_chars(target);
    let r = to_chars(root);
    if !starts_with(t.as_slice(), r.as_slice()) {
        return false;
    }
    t.len() == r.len() || (r.len() > 0 && r[r.len() - 1] == '/') || t[r.len()] == '/'
}

/// The path to check: `path` itself where it is absolute, else `path`
/// beneath `root`.
pub open spec fn target_of(path: Seq<char>, root: Seq<char>) -> Seq<char> {
    if path.len() > 0 && path[0] == '/' {
        path
    } else {
        joined(root, path)
    }
}

/// The path to check for the request path `path` and the root `root`.
pub fn target_path(path: &str, root: &str) -> (target: String)
    ensures
        target@ == target_of(path@, root@),
{
    let p = to_chars(path);
    if p.len() > 0 && p[0] == '/' {
        return from_chars(p.as_slice());
    }
    crate::paths::join_path(root, p.as_slice())
}

/// How much of the target the walk found to exist.
#[derive(Debug, PartialEq, Eq)]
pub enum Reach {
    /// The target itself exists.
    Target,
    /// The target does not exist and has no parent.
    NoParent,
    /// The target does not exist, its parent does. `file_name` is the last
    /// name of the target, if it has one.
    Parent { file_name: Option<String> },
    /// Neither the target nor its parent exists. The walk went up to the
    /// nearest part that could be looked at; `missing` holds the names
    /// below that part, outermost first.
    Ancestor { missing: Vec<String> },
}

/// A [`Reach`] as a mathematical value.
pub enum ReachView {
    Target,
    NoParent,
    Parent { file_name: Option<Seq<char>> },
    Ancestor { missing: Seq<Seq<char>> },
}

/// The texts of a list, in order.
pub open spec fn names_view(names: Seq<String>) -> Seq<Seq<char>> {
    names.map_values(|s: String| s@)
}

impl View for Reach {
    type V = ReachView;

    open spec fn view(&self) -> ReachView {
        match *self {
            Reach::Target => ReachView::Target,
            Reach::NoParent => ReachView::NoParent,
            Reach::Parent { file_name } => ReachView::Parent {
                file_name: crate::config::text_view(file_name),
            },
            Reach::Ancestor { missing } => ReachView::Ancestor { missing: names_view(missing@) },
        }
    }
}

/// What the walk along the target found.
#[derive(Debug, PartialEq, Eq)]
pub struct PathProbe {
    /// The resolved root, or the system's text where it cannot be resolved.
    pub canonical_root: Result<String, String>,
    /// How much of the target exists.
    pub reach: Reach,
    /// The part of the target that was resolved, as written: the target,
    /// its parent, or the ancestor the walk went up to.
    pub existing: String,
    /// That part resolved, or the system's text where it cannot be.
    pub canonical_existing: Result<String, String>,
}

/// A `Result` of two texts as a mathematical value.
pub open spec fn outcome_view(r: Result<String, String>) -> Result<Seq<char>, Seq<char>> {
    match r {
        Ok(s) => Ok(s@),
        Err(e) => Err(e@),
    }
}

/// `base` with each of `names` appended as one more component.
pub open spec fn extended(base: Seq<char>, names: Seq<Seq<char>>) -> Seq<char>
    decreases names.len(),
{
    if names.len() == 0 {
        base
    } else {
        joined(extended(base, names.drop_last()), names.last())
    }
}

/// Which part of the target a message speaks of.
pub open spec fn part_name(reach: ReachView) -> Seq<char> {
    match reach {
        ReachView::Parent { .. } => "parent path"@,
        ReachView::Ancestor { .. } => "base path"@,
        _ => "path"@,
    }
}

/// The text that reports an escape from the root.
pub open spec fn escape_text(path: Seq<char>, existing: Seq<char>, reach: ReachView) -> Seq<char> {
    match reach {
        ReachView::Parent { .. } => "Path escape detected in parent: "@ + debug_quoted(existing),
        ReachView::Ancestor { .. } => "Path escape detected in base: "@ + debug_quoted(existing),
        _ => "Path escape detected: "@ + debug_quoted(path),
    }
}

/// The path to use, once the resolved part `base` is known to lie within
/// the root: `base` itself where the target exists; `base` with the
/// target's last name where the parent exists, which the target must
/// have; `base` with the missing names where the walk went up.
pub open spec fn completed(base: Seq<char>, reach: ReachView) -> Result<Seq<char>, Seq<char>> {
    match reach {
        ReachView::Parent { file_name } => match file_name {
            Some(name) => Ok(joined(base, name)),
            None => Err("Invalid filename"@),
        },
        ReachView::Ancestor { missing } => Ok(extended(base, missing)),
        _ => Ok(base),
    }
}

/// The outcome of the check, in the order in which it fails: the root
/// must resolve; a target that does not exist must have a parent; the part
/// of the target that was looked at must resolve, and to a path within the
/// resolved root; the result is that resolved part, completed by what is
/// missing below it.
pub open spec fn checked(
    path: Seq<char>,
    canonical_root: Result<Seq<char>, Seq<char>>,
    reach: ReachView,
    existing: Seq<char>,
    canonical_existing: Result<Seq<char>, Seq<char>>,
) -> Result<Seq<char>, Seq<char>> {
    match canonical_root {
        Err(e) => Err("Invalid root path: "@ + e),
        Ok(root) => if reach is NoParent {
            Err("Path has no parent"@)
        } else {
            match canonical_existing {
                Err(e) => Err("Failed to resolve "@ + part_name(reach) + ": "@ + e),
                Ok(base) => if lies_within(base, root) {
                    completed(base, reach)
                } else {
                    Err(escape_text(path, existing, reach))
                },
            }
        },
    }
}

fn failed_to_resolve(reach: &Reach, e: &str) -> (text: String)
    ensures
        text@ == "Failed to resolve "@ + part_name(reach@) + ": "@ + e@,
{
    let part = match reach {
        Reach::Parent { .. } => "parent path",
        Reach::Ancestor { .. } => "base path",
        _ => "path",
    };
    let mut chars = to_chars("Failed to resolve ");
    let p = to_chars(part);
    push_chars(&mut chars, p.as_slice());
    let c = to_chars(": ");
    push_chars(&mut chars, c.as_slice());
    let t = to_chars(e);
    push_chars(&mut chars, t.as_slice());
    from_chars(chars.as_slice())
}

fn escape_message(path: &str, existing: &str, reach: &Reach) -> (text: String)
    ensures
        text@ == escape_text(path@, existing@, reach@),
{
    match reach {
        Reach::Parent { .. } => concat(
            "Path escape detected in parent: ",
            quoted(existing).as_str(),
        ),
        Reach::Ancestor { .. } => concat("Path escape detected in base: ", quoted(existing).as_str()),
        _ => concat("Path escape detected: ", quoted(path).as_str()),
    }
}

fn extend(base: &str, names: &Vec<String>) -> (full: String)
    ensures
        full@ == extended(base@, names_view(names@)),
{
    let ghost all = names_view(names@);
    let mut full = from_chars(to_chars(base).as_slice());
    let mut i: usize = 0;
    assert(all.take(0) =~= Seq::<Seq<char>>::empty());
    while i < names.len()
        invariant
            all == names_view(names@),
            i <= names@.len(),
            full@ == extended(base@, all.take(i as int)),
        decreases names@.len() - i,
    {
        let name = to_chars(names[i].as_str());
        assert(all.take(i + 1).drop_last() =~= all.take(i as int));
        assert(all.take(i + 1).last() == names@[i as int]@);
        full = crate::paths::join_path(full.as_str(), name.as_slice());
        i += 1;
    }
    assert(all.take(names@.len() as int) =~= all);
    full
}

fn complete(base: &str, reach: &Reach) -> (result: Result<String, String>)
    ensures
        outcome_view(result) == completed(base@, reach@),
{
    match reach {
        Reach::Parent { file_name } => match file_name {
            Some(name) => {
                let n = to_chars(name.as_str());
                Ok(crate::paths::join_path(base, n.as_slice()))
            },
            None => Err("Invalid filename".to_owned()),
        },
        Reach::Ancestor { missing } => Ok(extend(base, missing)),
        _ => Ok(base.to_owned()),
    }
}

/// Decides whether the request path `path` may be used, given what the
/// walk along its target found, and under which resolved path.
pub fn validate_path(path: &str, probe: &PathProbe) -> (result: Result<String, String>)
    ensures
        outcome_view(result) == checked(
            path@,
            outcome_view(probe.canonical_root),
            probe.reach@,
            probe.existing@,
            outcome_view(probe.canonical_existing),
        ),
{
    let root = match &probe.canonical_root {
        Ok(root) => root,
        Err(e) => {
            return Err(concat("Invalid root path: ", e.as_str()));
        },
    };
    match &probe.reach {
        Reach::NoParent => {
            return Err("Path has no parent".to_owned());
        },
        _ => {},
    }
    let base = match &probe.canonical_existing {
        Ok(base) => base,
        Err(e) => {
            return Err(failed_to_resolve(&probe.reach, e.as_str()));
        },
    };
    if is_within(base.as_str(), root.as_str()) {
        complete(base.as_str(), &probe.reach)
    } else {
        Err(escape_message(path, probe.existing.as_str(), &probe.reach))
    }
}

/// Appending names to a path leaves the path at the front.
pub proof fn lemma_extended_keeps_base(base: Seq<char>, names: Seq<Seq<char>>)
    ensures
        has_prefix(extended(base, names), base),
    decreases names.len(),
{
    if names.len() > 0 {
        lemma_extended_keeps_base(base, names.drop_last());
        let inner = extended(base, names.drop_last());
        let full = joined(inner, names.last());
        assert(full.take(inner.len() as int) =~= inner);
        assert(full.take(base.len() as int) =~= inner.take(base.len() as int));
    } else {
        assert(base.take(base.len() as int) =~= base);
    }
}

/// A path that passes the check lies within the resolved root: the part
/// that was looked at resolves to a path within the root, and the result
/// is that path with nothing but names appended.
pub proof fn lemma_checked_within_root(
    path: Seq<char>,
    root: Seq<char>,
    reach: ReachView,
    existing: Seq<char>,
    base: Seq<char>,
)
    ensures
        checked(path, Ok(root), reach, existing, Ok(base)) matches Ok(full) ==> lies_within(
            base,
            root,
        ) && has_prefix(full, base),
{
    match reach {
        ReachView::Parent { file_name } => match file_name {
            Some(name) => {
                assert(joined(base, name).take(base.len() as int) =~= base);
            },
            None => {},
        },
        ReachView::Ancestor { missing } => {
            lemma_extended_keeps_base(base, missing);
        },
        _ => {
            assert(base.take(base.len() as int) =~= base);
        },
    }
}

} // verus!
