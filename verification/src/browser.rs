//! How the host finds the browser that started it, by walking up its
//! chain of parent processes, and how it reads the extension's id from
//! its arguments.

use crate::text::{
    contains, from_chars, has_prefix, has_substring, lowercase, lowercased, starts_with, to_chars,
};
use vstd::prelude::*;

verus! {

/// How many parents the walk visits at most.
pub const MAX_PARENT_DEPTH: usize = 10;

/// Whether a process is the host itself or a wrapper around it.
pub open spec fn is_own_process(lower_name: Seq<char>, exe: Seq<char>) -> bool {
    has_substring(lower_name, "jstorrent"@) || has_substring(lower_name, "native-host"@)
        || has_substring(exe, "jstorrent"@) || has_substring(exe, "native-host"@)
}

/// Whether a process name is that of a known browser.
pub open spec fn is_browser_name(lower_name: Seq<char>) -> bool {
    has_substring(lower_name, "chrome"@) || has_substring(lower_name, "firefox"@) || has_substring(
        lower_name,
        "brave"@,
    ) || has_substring(lower_name, "edge"@) || has_substring(lower_name, "safari"@)
        || has_substring(lower_name, "opera"@) || has_substring(lower_name, "vivaldi"@)
        || has_substring(lower_name, "arc"@)
}

/// What the walk knows so far.
pub struct SearchView {
    /// Binary and name of the known browser found.
    pub browser: Option<(Seq<char>, Seq<char>)>,
    /// Binary and name of the first parent that is neither the host nor a
    /// known browser.
    pub fallback: Option<(Seq<char>, Seq<char>)>,
}

/// The walk after it has seen a parent with the given name and binary.
pub open spec fn observed(s: SearchView, name: Seq<char>, lower_name: Seq<char>, exe: Seq<char>) -> SearchView {
    if s.browser.is_some() || is_own_process(lower_name, exe) {
        s
    } else if is_browser_name(lower_name) {
        SearchView { browser: Some((exe, name)), ..s }
    } else if s.fallback.is_none() && exe.len() > 0 {
        SearchView { fallback: Some((exe, name)), ..s }
    } else {
        s
    }
}

/// What the walk reports: the known browser, if its binary is known;
/// else the fallback; else the known browser without a binary; else no
/// binary and the name `Unknown`.
pub open spec fn reported(s: SearchView) -> (Seq<char>, Seq<char>) {
    match s.browser {
        Some(found) => if found.0.len() > 0 {
            found
        } else {
            match s.fallback {
                Some(other) => other,
                None => found,
            }
        },
        None => match s.fallback {
            Some(found) => found,
            None => (Seq::empty(), "Unknown"@),
        },
    }
}

/// The search for the browser among the parents of the host.
pub struct BrowserSearch {
    browser: Option<(String, String)>,
    fallback: Option<(String, String)>,
}

/// A pair of texts as a mathematical value.
pub open spec fn pair_view(p: Option<(String, String)>) -> Option<(Seq<char>, Seq<char>)> {
    match p {
        Some((a, b)) => Some((a@, b@)),
        None => None,
    }
}

impl View for BrowserSearch {
    type V = SearchView;

    closed spec fn view(&self) -> SearchView {
        SearchView { browser: pair_view(self.browser), fallback: pair_view(self.fallback) }
    }
}

fn has(text: &[char], pattern: &str) -> (b: bool)
    ensures
        b == has_substring(text@, pattern@),
{
    let p = to_chars(pattern);
    contains(text, p.as_slice())
}

/// Decides whether a process is the host itself or a wrapper around it.
pub fn own_process(lower_name: &str, exe: &str) -> (b: bool)
    ensures
        b == is_own_process(lower_name@, exe@),
{
    let n = to_chars(lower_name);
    let e = to_chars(exe);
    has(n.as_slice(), "jstorrent") || has(n.as_slice(), "native-host") || has(
        e.as_slice(),
        "jstorrent",
    ) || has(e.as_slice(), "native-host")
}

/// Decides whether a process name is that of a known browser.
pub fn browser_name(lower_name: &str) -> (b: bool)
    ensures
        b == is_browser_name(lower_name@),
{
    let n = to_chars(lower_name);
    has(n.as_slice(), "chrome") || has(n.as_slice(), "firefox") || has(n.as_slice(), "brave")
        || has(n.as_slice(), "edge") || has(n.as_slice(), "safari") || has(n.as_slice(), "opera")
        || has(n.as_slice(), "vivaldi") || has(n.as_slice(), "arc")
}

impl BrowserSearch {
    /// A walk that has seen nothing.
    pub fn new() -> (s: BrowserSearch)
        ensures
            s@ == (SearchView { browser: None, fallback: None }),
    {
        BrowserSearch { browser: None, fallback: None }
    }

    /// Whether a known browser has been found, so that the walk can stop.
    pub fn found(&self) -> (b: bool)
        ensures
            b == self@.browser.is_some(),
    {
        self.browser.is_some()
    }

    /// Takes a parent with the name `name`, of lower-case form
    /// `lower_name`, and the binary `exe`.
    pub fn observe_named(&mut self, name: &str, lower_name: &str, exe: &str)
        ensures
            final(self)@ == observed(old(self)@, name@, lower_name@, exe@),
    {
        if self.browser.is_some() || own_process(lower_name, exe) {
            return ;
        }
        if browser_name(lower_name) {
            self.browser = Some((exe.to_owned(), name.to_owned()));
        } else if self.fallback.is_none() && exe.unicode_len() > 0 {
            self.fallback = Some((exe.to_owned(), name.to_owned()));
        }
    }

    /// Takes a parent with the name `name` and the binary `exe`.
    pub fn observe(&mut self, name: &str, exe: &str)
        ensures
            final(self)@ == observed(old(self)@, name@, lowercased(name@), exe@),
    {
        let lower = lowercase(name);
        self.observe_named(name, lower.as_str(), exe);
    }

    /// The binary and the name of the browser, as far as the walk found
    /// them.
    pub fn finish(self) -> (found: (String, String))
        ensures
            (found.0@, found.1@) == reported(self@),
    {
        match self.browser {
            Some(found) => {
                if found.0.as_str().unicode_len() > 0 {
                    found
                } else {
                    match self.fallback {
                        Some(other) => other,
                        None => found,
                    }
                }
            },
            None => match self.fallback {
                Some(found) => found,
                None => (String::new(), "Unknown".to_owned()),
            },
        }
    }
}

/// `text` without every copy of `prefix` at its front.
pub open spec fn without_prefixes(text: Seq<char>, prefix: Seq<char>) -> Seq<char>
    decreases text.len(),
{
    if prefix.len() > 0 && has_prefix(text, prefix) {
        without_prefixes(text.skip(prefix.len() as int), prefix)
    } else {
        text
    }
}

/// `text` without the slashes at its end.
pub open spec fn without_trailing_slashes(text: Seq<char>) -> Seq<char>
    decreases text.len(),
{
    if text.len() > 0 && text.last() == '/' {
        without_trailing_slashes(text.drop_last())
    } else {
        text
    }
}

/// The id of the extension that an argument names: what stands between
/// `chrome-extension://` and the slashes at the end.
pub open spec fn extension_id_in(arg: Seq<char>) -> Option<Seq<char>> {
    if has_prefix(arg, "chrome-extension://"@) {
        Some(without_trailing_slashes(without_prefixes(arg, "chrome-extension://"@)))
    } else {
        None
    }
}

/// Reads the id of the extension from an argument of the host.
pub fn extension_id_of(arg: &str) -> (id: Option<String>)
    ensures
        crate::config::text_view(id) == extension_id_in(arg@),
{
    let chars = to_chars(arg);
    let prefix = to_chars("chrome-extension://");
    proof {
        reveal_strlit("chrome-extension://");
    }
    if !starts_with(chars.as_slice(), prefix.as_slice()) {
        return None;
    }
    let n = chars.len();
    let p = prefix.len();
    let mut from: usize = 0;
    assert(chars@.skip(0) =~= chars@);
    loop
        invariant
            n == chars@.len(),
            p == prefix@.len(),
            p > 0,
            from <= n,
            without_prefixes(chars@, prefix@) == without_prefixes(chars@.skip(from as int), prefix@),
        ensures
            !has_prefix(chars@.skip(from as int), prefix@),
        decreases n - from,
    {
        let rest = vstd::slice::slice_subrange(chars.as_slice(), from, n);
        assert(rest@ =~= chars@.skip(from as int));
        if !starts_with(rest, prefix.as_slice()) {
            break ;
        }
        assert(chars@.skip(from as int).skip(p as int) =~= chars@.skip(from + p));
        from = from + p;
    }
    let mut to: usize = n;
    let ghost body = chars@.skip(from as int);
    assert(chars@.subrange(from as int, n as int) =~= body);
    while to > from && chars[to - 1] == '/'
        invariant
            n == chars@.len(),
            from <= to <= n,
            body == chars@.skip(from as int),
            without_trailing_slashes(body) == without_trailing_slashes(
                chars@.subrange(from as int, to as int),
            ),
        decreases to - from,
    {
        assert(chars@.subrange(from as int, to as int).drop_last() =~= chars@.subrange(
            from as int,
            to - 1,
        ));
        to -= 1;
    }
    let id = vstd::slice::slice_subrange(chars.as_slice(), from, to);
    Some(from_chars(id))
}

} // verus!
