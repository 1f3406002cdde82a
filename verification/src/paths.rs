//! Path authorization: from a root key and a client-supplied relative path
//! to the absolute path an operation may touch.
//!
//! The key is the grant. A request names a root by its key; the path it
//! gives is cleaned and joined to that root's path. A path with a `..`
//! component is refused, so the result always lies beneath the root.

use crate::auth::token_matches;
use crate::config::{roots_view, AppState, DownloadRoot, RootView};
use crate::http::{HttpError, Refusal, STATUS_BAD_REQUEST, STATUS_FORBIDDEN};
use crate::text::{from_chars, push_chars, to_chars};
use vstd::prelude::*;

verus! {

/// Whether `c` separates path components: a slash or a backslash.
pub open spec fn is_separator(c: char) -> bool {
    c == '/' || c == '\\'
}

/// Whether the component `..` stands at index `i` of `path`: two dots with
/// a separator or an end of the path on either side.
pub open spec fn parent_component_at(path: Seq<char>, i: int) -> bool {
    &&& 0 <= i
    &&& i + 2 <= path.len()
    &&& path[i] == '.'
    &&& path[i + 1] == '.'
    &&& (i == 0 || is_separator(path[i - 1]))
    &&& (i + 2 == path.len() || is_separator(path[i + 2]))
}

/// Whether `path` has a `..` component.
pub open spec fn has_parent_component(path: Seq<char>) -> bool {
    exists|i: int| parent_component_at(path, i)
}

/// `path` with every backslash turned into a slash.
pub open spec fn normalized(path: Seq<char>) -> Seq<char> {
    path.map_values(
        |c: char|
            if c == '\\' {
                '/'
            } else {
                c
            },
    )
}

/// `path` without the slashes at its front.
pub open spec fn strip_leading_slashes(path: Seq<char>) -> Seq<char>
    decreases path.len(),
{
    if path.len() > 0 && path[0] == '/' {
        strip_leading_slashes(path.drop_first())
    } else {
        path
    }
}

/// The relative path a client path stands for: separators normalized,
/// leading slashes removed.
pub open spec fn cleaned(path: Seq<char>) -> Seq<char> {
    strip_leading_slashes(normalized(path))
}

/// `rel` beneath `root`: the two joined by one slash, unless `root` is
/// empty or already ends in one.
pub open spec fn joined(root: Seq<char>, rel: Seq<char>) -> Seq<char> {
    if root.len() == 0 || root.last() == '/' {
        root + rel
    } else {
        root + seq!['/'] + rel
    }
}

/// Index of the first root with key `key`.
pub open spec fn root_index(roots: Seq<RootView>, key: Seq<char>) -> Option<int>
    decreases roots.len(),
{
    if roots.len() == 0 {
        None
    } else if roots[0].key == key {
        Some(0)
    } else {
        match root_index(roots.drop_first(), key) {
            Some(i) => Some(i + 1),
            None => None,
        }
    }
}

/// The refusal of a request that names no root of the table.
pub open spec fn unknown_root() -> Refusal {
    Refusal { status: STATUS_FORBIDDEN, message: "Invalid root key"@ }
}

/// The refusal of a path with a `..` component.
pub open spec fn path_escapes() -> Refusal {
    Refusal { status: STATUS_BAD_REQUEST, message: "Invalid path"@ }
}

/// The outcome of authorizing `path` against the root named `key`: 403 for
/// a key that no root carries, whatever the path; else 400 for a path with
/// a `..` component; else the cleaned path joined to the root's path.
pub open spec fn resolved(roots: Seq<RootView>, key: Seq<char>, path: Seq<char>) -> Result<
    Seq<char>,
    Refusal,
> {
    match root_index(roots, key) {
        None => Err(unknown_root()),
        Some(i) => if has_parent_component(path) {
            Err(path_escapes())
        } else {
            Ok(joined(roots[i].path, cleaned(path)))
        },
    }
}

/// What [`root_index`] finds is the first root with the key; it finds
/// nothing exactly where no root has the key.
pub proof fn lemma_root_index(roots: Seq<RootView>, key: Seq<char>)
    ensures
        match root_index(roots, key) {
            Some(i) => {
                &&& 0 <= i < roots.len()
                &&& roots[i].key == key
                &&& forall|j: int| 0 <= j < i ==> (#[trigger] roots[j]).key != key
            },
            None => forall|j: int| 0 <= j < roots.len() ==> (#[trigger] roots[j]).key != key,
        },
    decreases roots.len(),
{
    if roots.len() > 0 && roots[0].key != key {
        let rest = roots.drop_first();
        lemma_root_index(rest, key);
        match root_index(rest, key) {
            Some(i) => {
                assert forall|j: int| 0 <= j < i + 1 implies (#[trigger] roots[j]).key != key by {
                    if j > 0 {
                        assert(roots[j] == rest[j - 1]);
                    }
                }
                assert(roots[i + 1] == rest[i]);
            },
            None => {
                assert forall|j: int| 0 <= j < roots.len() implies (#[trigger] roots[j]).key
                    != key by {
                    if j > 0 {
                        assert(roots[j] == rest[j - 1]);
                    }
                }
            },
        }
    }
}

/// For every key present in the table, a path without `..` components
/// resolves to the root's path joined with the cleaned path; for every key
/// absent from it, the request is refused with 403 whatever the path.
pub proof fn lemma_resolution(roots: Seq<RootView>, key: Seq<char>, path: Seq<char>)
    ensures
        (forall|j: int| 0 <= j < roots.len() ==> (#[trigger] roots[j]).key != key) ==> resolved(
            roots,
            key,
            path,
        ) == Err::<Seq<char>, Refusal>(unknown_root()),
        (exists|j: int| 0 <= j < roots.len() && (#[trigger] roots[j]).key == key)
            && !has_parent_component(path) ==> resolved(roots, key, path) == Ok::<
            Seq<char>,
            Refusal,
        >(joined(roots[root_index(roots, key).unwrap()].path, cleaned(path)))
            && roots[root_index(roots, key).unwrap()].key == key,
{
    lemma_root_index(roots, key);
}

/// A resolved path lies beneath its root: it starts with the root's path,
/// and what follows is the cleaned path, separated from the root by a
/// slash.
pub proof fn lemma_joined_beneath_root(root: Seq<char>, rel: Seq<char>)
    ensures
        crate::text::has_prefix(joined(root, rel), root),
        joined(root, rel).len() >= root.len() + rel.len(),
        joined(root, rel).skip(joined(root, rel).len() - rel.len()) == rel,
{
    let full = joined(root, rel);
    assert(full.take(root.len() as int) =~= root);
    assert(full.skip(full.len() - rel.len()) =~= rel);
}

/// A cleaned path is relative and holds no backslash, and cleaning leaves
/// no `..` component where there was none.
pub proof fn lemma_cleaned_is_relative(path: Seq<char>)
    ensures
        cleaned(path).len() == 0 || cleaned(path)[0] != '/',
        forall|i: int| 0 <= i < cleaned(path).len() ==> cleaned(path)[i] != '\\',
        !has_parent_component(path) ==> !has_parent_component(cleaned(path)),
{
    let n = normalized(path);
    lemma_strip_is_suffix(n);
    let k = n.len() - cleaned(path).len();
    assert forall|i: int| 0 <= i < cleaned(path).len() implies cleaned(path)[i] != '\\' by {
        assert(cleaned(path)[i] == n[k + i]);
    }
    if !has_parent_component(path) {
        assert forall|i: int| !parent_component_at(cleaned(path), i) by {
            if parent_component_at(cleaned(path), i) {
                let c = cleaned(path);
                assert(c[i] == n[k + i]);
                assert(c[i + 1] == n[k + i + 1]);
                assert(path[k + i] == '.');
                assert(path[k + i + 1] == '.');
                if i > 0 {
                    assert(c[i - 1] == n[k + i - 1]);
                    assert(is_separator(path[k + i - 1]));
                } else if k > 0 {
                    assert(n[k - 1] == '/');
                    assert(is_separator(path[k - 1]));
                }
                if i + 2 < c.len() {
                    assert(c[i + 2] == n[k + i + 2]);
                    assert(is_separator(path[k + i + 2]));
                }
                assert(parent_component_at(path, k + i));
            }
        }
    }
}

/// Stripping leading slashes leaves a suffix that does not start with a
/// slash; everything before it is slashes.
pub proof fn lemma_strip_is_suffix(path: Seq<char>)
    ensures
        strip_leading_slashes(path).len() <= path.len(),
        strip_leading_slashes(path) == path.skip(path.len() - strip_leading_slashes(path).len()),
        strip_leading_slashes(path).len() == 0 || strip_leading_slashes(path)[0] != '/',
        forall|j: int|
            0 <= j < path.len() - strip_leading_slashes(path).len() ==> #[trigger] path[j] == '/',
    decreases path.len(),
{
    if path.len() > 0 && path[0] == '/' {
        let rest = path.drop_first();
        lemma_strip_is_suffix(rest);
        let s = strip_leading_slashes(rest);
        assert(rest.skip(rest.len() - s.len()) =~= path.skip(path.len() - s.len()));
        assert forall|j: int| 0 <= j < path.len() - s.len() implies #[trigger] path[j] == '/' by {
            if j > 0 {
                assert(path[j] == rest[j - 1]);
            }
        }
    } else {
        assert(path.skip(0) =~= path);
    }
}

/// Whether `path` has a `..` component.
pub fn contains_parent_component(path: &[char]) -> (found: bool)
    ensures
        found == has_parent_component(path@),
{
    let n = path.len();
    let mut i: usize = 0;
    while i < n
        invariant
            n == path@.len(),
            i <= n,
            forall|j: int| 0 <= j < i ==> !parent_component_at(path@, j),
        decreases n - i,
    {
        if n - i >= 2 && path[i] == '.' && path[i + 1] == '.' {
            let before = i == 0 || path[i - 1] == '/' || path[i - 1] == '\\';
            let after = i + 2 == n || path[i + 2] == '/' || path[i + 2] == '\\';
            if before && after {
                assert(parent_component_at(path@, i as int));
                return true;
            }
        }
        i += 1;
    }
    false
}

/// The relative path that `path` stands for.
pub fn clean_path(path: &[char]) -> (rel: Vec<char>)
    ensures
        rel@ == cleaned(path@),
{
    let n = path.len();
    let mut norm: Vec<char> = Vec::new();
    let mut i: usize = 0;
    while i < n
        invariant
            n == path@.len(),
            i <= n,
            norm@ == normalized(path@.take(i as int)),
        decreases n - i,
    {
        let c = path[i];
        let ghost before = norm@;
        if c == '\\' {
            norm.push('/');
        } else {
            norm.push(c);
        }
        assert(path@.take(i + 1) =~= path@.take(i as int).push(c));
        assert(norm@ =~= normalized(path@.take(i + 1)));
        i += 1;
    }
    assert(path@.take(n as int) =~= path@);
    let mut k: usize = 0;
    assert(norm@.skip(0) =~= norm@);
    while k < n && norm[k] == '/'
        invariant
            n == norm@.len(),
            k <= n,
            strip_leading_slashes(norm@) == strip_leading_slashes(norm@.skip(k as int)),
        decreases n - k,
    {
        assert(norm@.skip(k as int).drop_first() =~= norm@.skip(k + 1));
        k += 1;
    }
    let rest = vstd::slice::slice_subrange(norm.as_slice(), k, n);
    assert(rest@ =~= norm@.skip(k as int));
    vstd::slice::slice_to_vec(rest)
}

/// `rel` beneath `root`.
pub fn join_path(root: &str, rel: &[char]) -> (full: String)
    ensures
        full@ == joined(root@, rel@),
{
    let mut chars = to_chars(root);
    let n = chars.len();
    if n > 0 && chars[n - 1] != '/' {
        chars.push('/');
    }
    push_chars(&mut chars, rel);
    assert(chars@ =~= joined(root@, rel@));
    from_chars(chars.as_slice())
}

/// Position of the first root with key `key`.
pub fn find_root(roots: &Vec<DownloadRoot>, key: &str) -> (found: Option<usize>)
    ensures
        match found {
            Some(k) => k < roots@.len() && root_index(roots_view(roots@), key@) == Some(k as int),
            None => root_index(roots_view(roots@), key@).is_none(),
        },
{
    let ghost all = roots_view(roots@);
    let mut i: usize = 0;
    assert(all.skip(0) =~= all);
    while i < roots.len()
        invariant
            all == roots_view(roots@),
            i <= roots@.len(),
            root_index(all, key@) == (match root_index(all.skip(i as int), key@) {
                Some(k) => Some(k + i),
                None => None,
            }),
        decreases roots@.len() - i,
    {
        assert(all.skip(i as int)[0] == roots@[i as int]@);
        assert(all.skip(i as int).drop_first() =~= all.skip(i + 1));
        if token_matches(roots[i].key.as_str(), key) {
            return Some(i);
        }
        i += 1;
    }
    None
}

/// Authorizes `path` against the root that `root_key` names and gives the
/// absolute path to operate on.
pub fn validate_path(state: &AppState, root_key: &str, path: &str) -> (result: Result<
    String,
    HttpError,
>)
    ensures
        match result {
            Ok(full) => resolved(state@.download_roots, root_key@, path@) == Ok::<
                Seq<char>,
                Refusal,
            >(full@),
            Err(e) => resolved(state@.download_roots, root_key@, path@) == Err::<
                Seq<char>,
                Refusal,
            >(e@),
        },
{
    match find_root(&state.download_roots, root_key) {
        None => Err(HttpError::new(STATUS_FORBIDDEN, "Invalid root key")),
        Some(i) => {
            let chars = to_chars(path);
            if contains_parent_component(chars.as_slice()) {
                return Err(HttpError::new(STATUS_BAD_REQUEST, "Invalid path"));
            }
            let rel = clean_path(chars.as_slice());
            Ok(join_path(state.download_roots[i].path.as_str(), rel.as_slice()))
        },
    }
}

} // verus!
