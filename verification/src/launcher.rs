//! The rules of the link handler: what it makes of its argument, which
//! running host it turns to, and which browser it starts when none runs.

use crate::config::{profiles_view, text_view, ProfileEntry, ProfileView};
use crate::lifecycle::HOST_WAIT_SECS;
use crate::text::{
    contains, decimal, ends_with, from_chars, has_prefix, has_substring, has_suffix, lowercase,
    lowercased, push_chars, starts_with, to_chars,
};
use base64::Engine;
use vstd::prelude::*;

verus! {

/// What the link handler was given.
#[derive(Clone, Debug, PartialEq, Eq)]
pub enum Mode {
    /// A magnet link.
    Magnet(String),
    /// A torrent file: its name and its contents in base64.
    Torrent { file_name: String, contents_base64: String },
}

/// The base64 text, in the standard alphabet with padding, of a byte
/// string.
pub uninterp spec fn base64_encoded(bytes: Seq<u8>) -> Seq<char>;

/// Calls `Engine::encode` of `base64::engine::general_purpose::STANDARD`.
/// The result is named [`base64_encoded`].
#[verifier::external_body]
pub(crate) fn base64_encode(bytes: &[u8]) -> (text: String)
    ensures
        text@ == base64_encoded(bytes@),
{
    base64::engine::general_purpose::STANDARD.encode(bytes)
}

/// The base64 text of `bytes`.
pub fn to_base64(bytes: &[u8]) -> (text: String)
    ensures
        text@ == base64_encoded(bytes@),
{
    base64_encode(bytes)
}

/// Whether `target` is a magnet link rather than the path of a file.
pub fn is_magnet_link(target: &str) -> (b: bool)
    ensures
        b == has_prefix(target@, "magnet:"@),
{
    let t = to_chars(target);
    let p = to_chars("magnet:");
    starts_with(t.as_slice(), p.as_slice())
}

/// The mode for a torrent file with the given name and contents.
pub fn torrent_mode(file_name: String, contents: &[u8]) -> (mode: Mode)
    ensures
        mode matches Mode::Torrent { file_name: name, contents_base64 } && name@ == file_name@
            && contents_base64@ == base64_encoded(contents@),
{
    Mode::Torrent { file_name, contents_base64: to_base64(contents) }
}

/// Whether the profile at index `i` has been tried.
pub open spec fn was_tried(tried: Seq<bool>, i: int) -> bool {
    0 <= i < tried.len() && tried[i]
}

/// Whether the profile at index `i` is the one to try next: it has not
/// been tried, none untried was used later, and none before it was used
/// as late. Trying the profiles in this order visits them from the most
/// recently used down, in file order among equals.
pub open spec fn is_next_candidate(profiles: Seq<ProfileView>, tried: Seq<bool>, i: int) -> bool {
    &&& 0 <= i < profiles.len()
    &&& !was_tried(tried, i)
    &&& forall|j: int|
        0 <= j < profiles.len() && !was_tried(tried, j) ==> (#[trigger] profiles[j]).last_used
            <= profiles[i].last_used
    &&& forall|j: int|
        0 <= j < i && !was_tried(tried, j) ==> (#[trigger] profiles[j]).last_used
            < profiles[i].last_used
}

/// Picks the profile to try next; `None` once all have been tried.
pub fn next_candidate(profiles: &Vec<ProfileEntry>, tried: &Vec<bool>) -> (next: Option<usize>)
    ensures
        match next {
            Some(i) => is_next_candidate(profiles_view(profiles@), tried@, i as int),
            None => forall|j: int| 0 <= j < profiles@.len() ==> was_tried(tried@, j),
        },
{
    let ghost all = profiles_view(profiles@);
    let mut best: Option<usize> = None;
    let mut i: usize = 0;
    while i < profiles.len()
        invariant
            all == profiles_view(profiles@),
            i <= profiles@.len(),
            match best {
                Some(b) => is_next_candidate(all.take(i as int), tried@, b as int),
                None => forall|j: int| 0 <= j < i ==> was_tried(tried@, j),
            },
        decreases profiles@.len() - i,
    {
        let ghost before = all.take(i as int);
        let ghost after = all.take(i + 1);
        assert(forall|j: int| 0 <= j < i ==> #[trigger] after[j] == before[j]);
        assert(after[i as int] == profiles@[i as int]@);
        let done = i < tried.len() && tried[i];
        if !done {
            let better = match best {
                Some(b) => {
                    assert(before[b as int] == profiles@[b as int]@);
                    profiles[b].last_used < profiles[i].last_used
                },
                None => true,
            };
            if better {
                best = Some(i);
            }
        }
        i += 1;
    }
    assert(all.take(profiles@.len() as int) =~= all);
    best
}

/// Whether the profile at index `i` holds the browser to start: it was
/// used at some time, none was used later, and none before it as late.
pub open spec fn is_latest_used(profiles: Seq<ProfileView>, i: int) -> bool {
    &&& 0 <= i < profiles.len()
    &&& profiles[i].last_used > 0
    &&& forall|j: int|
        0 <= j < profiles.len() ==> (#[trigger] profiles[j]).last_used <= profiles[i].last_used
    &&& forall|j: int| 0 <= j < i ==> (#[trigger] profiles[j]).last_used < profiles[i].last_used
}

/// Picks the profile that was used last; `None` where none was ever used.
pub fn latest_used(profiles: &Vec<ProfileEntry>) -> (best: Option<usize>)
    ensures
        match best {
            Some(i) => is_latest_used(profiles_view(profiles@), i as int),
            None => forall|j: int|
                0 <= j < profiles@.len() ==> (#[trigger] profiles_view(profiles@)[j]).last_used == 0,
        },
{
    let ghost all = profiles_view(profiles@);
    let mut best: Option<usize> = None;
    let mut best_time: u64 = 0;
    let mut i: usize = 0;
    while i < profiles.len()
        invariant
            all == profiles_view(profiles@),
            i <= profiles@.len(),
            match best {
                Some(b) => is_latest_used(all.take(i as int), b as int) && best_time
                    == all[b as int].last_used,
                None => best_time == 0 && forall|j: int|
                    0 <= j < i ==> (#[trigger] all[j]).last_used == 0,
            },
        decreases profiles@.len() - i,
    {
        let ghost before = all.take(i as int);
        let ghost after = all.take(i + 1);
        assert(forall|j: int| 0 <= j < i ==> #[trigger] after[j] == before[j]);
        assert(after[i as int] == profiles@[i as int]@);
        assert(all[i as int] == profiles@[i as int]@);
        if profiles[i].last_used > best_time {
            best_time = profiles[i].last_used;
            best = Some(i);
        }
        i += 1;
    }
    assert(all.take(profiles@.len() as int) =~= all);
    best
}

/// Whether a binary with the lower-case form `lower` can be a browser:
/// it is named, is not the host itself, and is no interpreter, build
/// tool, shell or terminal.
pub open spec fn can_be_browser(binary: Seq<char>, lower: Seq<char>) -> bool {
    &&& binary.len() > 0
    &&& !has_substring(binary, "jstorrent-host"@)
    &&& !has_substring(lower, "python"@)
    &&& !has_substring(lower, "cargo"@)
    &&& !has_substring(lower, "sh"@)
    &&& !has_suffix(lower, "/sh"@)
    &&& !has_suffix(lower, "/bash"@)
    &&& !has_suffix(lower, "/zsh"@)
    &&& !has_suffix(lower, "/fish"@)
    &&& !has_substring(lower, "terminal"@)
    &&& !has_substring(lower, "console"@)
}

/// Decides whether `binary`, whose lower-case form is `lower`, can be a
/// browser.
pub fn is_browser_candidate(binary: &str, lower: &str) -> (b: bool)
    ensures
        b == can_be_browser(binary@, lower@),
{
    let bin = to_chars(binary);
    let low = to_chars(lower);
    bin.len() > 0 && !contains(bin.as_slice(), to_chars("jstorrent-host").as_slice()) && !contains(
        low.as_slice(),
        to_chars("python").as_slice(),
    ) && !contains(low.as_slice(), to_chars("cargo").as_slice()) && !contains(
        low.as_slice(),
        to_chars("sh").as_slice(),
    ) && !ends_with(low.as_slice(), to_chars("/sh").as_slice()) && !ends_with(
        low.as_slice(),
        to_chars("/bash").as_slice(),
    ) && !ends_with(low.as_slice(), to_chars("/zsh").as_slice()) && !ends_with(
        low.as_slice(),
        to_chars("/fish").as_slice(),
    ) && !contains(low.as_slice(), to_chars("terminal").as_slice()) && !contains(
        low.as_slice(),
        to_chars("console").as_slice(),
    )
}

/// The browser binary of earlier runs to start: that of the profile used
/// last, if it can be a browser.
pub open spec fn previous_binary(profiles: Seq<ProfileView>, i: Option<int>) -> Option<Seq<char>> {
    match i {
        Some(i) => if can_be_browser(
            profiles[i].browser.binary,
            lowercased(profiles[i].browser.binary),
        ) {
            Some(profiles[i].browser.binary)
        } else {
            None
        },
        None => None,
    }
}

/// Picks the browser binary of earlier runs to start.
pub fn previous_browser_binary(profiles: &Vec<ProfileEntry>) -> (binary: Option<String>)
    ensures
        exists|i: Option<int>|
            {
                &&& match i {
                    Some(k) => is_latest_used(profiles_view(profiles@), k),
                    None => forall|j: int|
                        0 <= j < profiles@.len() ==> (#[trigger] profiles_view(
                            profiles@,
                        )[j]).last_used == 0,
                }
                &&& text_view(binary) == previous_binary(profiles_view(profiles@), i)
            },
{
    match latest_used(profiles) {
        Some(k) => {
            let bin = &profiles[k].browser.binary;
            let lower = lowercase(bin.as_str());
            let ghost i = Some(k as int);
            assert(profiles_view(profiles@)[k as int] == profiles@[k as int]@);
            if is_browser_candidate(bin.as_str(), lower.as_str()) {
                let out = Some(bin.clone());
                assert(text_view(out) == previous_binary(profiles_view(profiles@), i));
                out
            } else {
                assert(text_view(None::<String>) == previous_binary(profiles_view(profiles@), i));
                None
            }
        },
        None => {
            assert(text_view(None::<String>) == previous_binary(
                profiles_view(profiles@),
                None::<int>,
            ));
            None
        },
    }
}

/// The address of the endpoint `endpoint` of the host on `port`, with the
/// token in the query.
pub open spec fn host_url(port: u16, endpoint: Seq<char>, token: Seq<char>) -> Seq<char> {
    "http://127.0.0.1:"@ + decimal(port as nat) + "/"@ + endpoint + "?token="@ + token
}

/// Builds the address of an endpoint of the host.
pub fn endpoint_url(port: u16, endpoint: &str, token: &str) -> (url: String)
    ensures
        url@ == host_url(port, endpoint@, token@),
{
    let mut chars = to_chars("http://127.0.0.1:");
    crate::text::push_decimal(&mut chars, port as u64);
    push_chars(&mut chars, to_chars("/").as_slice());
    push_chars(&mut chars, to_chars(endpoint).as_slice());
    push_chars(&mut chars, to_chars("?token=").as_slice());
    push_chars(&mut chars, to_chars(token).as_slice());
    from_chars(chars.as_slice())
}

/// The endpoint a mode is sent to.
pub fn endpoint_of(mode: &Mode) -> (endpoint: &'static str)
    ensures
        endpoint@ == (match *mode {
            Mode::Magnet(_) => "add-magnet"@,
            Mode::Torrent { .. } => "add-torrent"@,
        }),
{
    match mode {
        Mode::Magnet(_) => "add-magnet",
        Mode::Torrent { .. } => "add-torrent",
    }
}

/// The text shown when a link cannot be handled: the message, and the
/// link where there is one.
pub fn error_text(message: &str, link: Option<&str>) -> (text: String)
    ensures
        text@ == (match link {
            Some(l) => message@ + "\n\nLink: "@ + l@,
            None => message@,
        }),
{
    match link {
        Some(l) => crate::text::concat3(message, "\n\nLink: ", l),
        None => message.to_owned(),
    }
}

/// Whether the link handler goes on waiting for a host after
/// `elapsed_millis`.
pub fn keep_waiting(elapsed_millis: u64) -> (b: bool)
    ensures
        b == (elapsed_millis < HOST_WAIT_SECS * 1000),
{
    elapsed_millis < HOST_WAIT_SECS * 1000
}

} // verus!
