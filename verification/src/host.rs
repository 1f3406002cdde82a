//! The rules by which the host process answers the requests of the
//! extension: picking and removing roots, the handshake that starts the
//! daemon, and opening files of a root.
//!
//! Each request is served in steps. The caller shows dialogs, writes the
//! discovery file and talks to the daemon; the functions here say what the
//! host's own record becomes and what is answered.

use crate::config::{copy_roots, roots_view, DownloadRoot, RootView};
use crate::discovery::{RpcInfo, RpcInfoView};
use crate::hashing::{digest, digest_bytes, hex_lower, to_hex, HashAlgorithm};
use crate::text::{concat, same_text};
use vstd::prelude::*;

verus! {

/// What the extension asks of the host.
#[derive(Clone, Debug, PartialEq, Eq)]
pub enum Operation {
    PickDownloadDirectory,
    DeleteDownloadRoot { key: String },
    Handshake { extension_id: String, install_id: String },
    OpenFile { root_key: String, path: String },
    RevealInFolder { root_key: String, path: String },
}

/// One request: an id chosen by the extension, and the operation.
#[derive(Clone, Debug, PartialEq, Eq)]
pub struct Request {
    pub id: String,
    pub op: Operation,
}

/// What a successful request returns.
#[derive(Clone, Debug, PartialEq, Eq)]
pub enum ResponsePayload {
    Empty,
    DaemonInfo { port: u16, token: String, version: String, roots: Vec<DownloadRoot> },
    Path { path: String },
    RootAdded { root: DownloadRoot },
    RootRemoved { key: String },
}

/// A [`ResponsePayload`] as a mathematical value.
pub enum PayloadView {
    Empty,
    DaemonInfo { port: u16, token: Seq<char>, version: Seq<char>, roots: Seq<RootView> },
    Path { path: Seq<char> },
    RootAdded { root: RootView },
    RootRemoved { key: Seq<char> },
}

impl View for ResponsePayload {
    type V = PayloadView;

    open spec fn view(&self) -> PayloadView {
        match *self {
            ResponsePayload::Empty => PayloadView::Empty,
            ResponsePayload::DaemonInfo { port, token, version, roots } => PayloadView::DaemonInfo {
                port,
                token: token@,
                version: version@,
                roots: roots_view(roots@),
            },
            ResponsePayload::Path { path } => PayloadView::Path { path: path@ },
            ResponsePayload::RootAdded { root } => PayloadView::RootAdded { root: root@ },
            ResponsePayload::RootRemoved { key } => PayloadView::RootRemoved { key: key@ },
        }
    }
}

/// The answer to one request.
#[derive(Clone, Debug, PartialEq, Eq)]
pub struct Response {
    pub id: String,
    pub ok: bool,
    pub error: Option<String>,
    pub payload: ResponsePayload,
}

/// A [`Response`] as a mathematical value.
pub struct ResponseView {
    pub id: Seq<char>,
    pub ok: bool,
    pub error: Option<Seq<char>>,
    pub payload: PayloadView,
}

impl View for Response {
    type V = ResponseView;

    open spec fn view(&self) -> ResponseView {
        ResponseView {
            id: self.id@,
            ok: self.ok,
            error: crate::config::text_view(self.error),
            payload: self.payload@,
        }
    }
}

/// What the host tells the extension unasked.
#[derive(Clone, Debug, PartialEq, Eq)]
pub enum Event {
    Log { message: String },
    MagnetAdded { link: String },
    TorrentAdded { name: String, infohash: String, contents_base64: String },
}

/// The outcome of serving a request, as a mathematical value.
pub open spec fn served_view(result: Result<ResponsePayload, String>) -> Result<
    PayloadView,
    Seq<char>,
> {
    match result {
        Ok(p) => Ok(p@),
        Err(e) => Err(e@),
    }
}

/// The answer that carries an outcome: the payload on success; on failure
/// the error text and an empty payload.
pub open spec fn answer(id: Seq<char>, result: Result<PayloadView, Seq<char>>) -> ResponseView {
    match result {
        Ok(payload) => ResponseView { id, ok: true, error: None, payload },
        Err(e) => ResponseView { id, ok: false, error: Some(e), payload: PayloadView::Empty },
    }
}

/// Wraps the outcome of a request into its answer.
pub fn respond(id: String, result: Result<ResponsePayload, String>) -> (response: Response)
    ensures
        response@ == answer(id@, served_view(result)),
{
    match result {
        Ok(payload) => Response { id, ok: true, error: None, payload },
        Err(e) => Response { id, ok: false, error: Some(e), payload: ResponsePayload::Empty },
    }
}

/// The roots of a host record; none where it carries none.
pub open spec fn roots_of(info: Option<RpcInfoView>) -> Seq<RootView> {
    match info {
        Some(i) => match i.download_roots {
            Some(roots) => roots,
            None => Seq::empty(),
        },
        None => Seq::empty(),
    }
}

/// An optional host record as a mathematical value.
pub open spec fn info_view(info: Option<RpcInfo>) -> Option<RpcInfoView> {
    match info {
        Some(i) => Some(i@),
        None => None,
    }
}

/// `roots` without those whose key is `key`.
pub open spec fn without_key(roots: Seq<RootView>, key: Seq<char>) -> Seq<RootView> {
    roots.filter(|r: RootView| r.key != key)
}

/// Removes every root with key `key` from the host's record and says
/// whether there was one. A record without roots stays as it is.
pub fn remove_root(info: &mut RpcInfo, key: &str) -> (removed: bool)
    ensures
        match old(info)@.download_roots {
            Some(roots) => {
                &&& final(info)@ == (RpcInfoView {
                    download_roots: Some(without_key(roots, key@)),
                    ..old(info)@
                })
                &&& removed == (without_key(roots, key@).len() < roots.len())
            },
            None => final(info)@ == old(info)@ && !removed,
        },
{
    let kept = match &info.download_roots {
        None => {
            return false;
        },
        Some(roots) => {
            let ghost all = roots_view(roots@);
            let ghost pred = |r: RootView| r.key != key@;
            let mut kept: Vec<DownloadRoot> = Vec::new();
            let mut i: usize = 0;
            proof {
                reveal(Seq::filter);
                assert(all.take(0) =~= Seq::<RootView>::empty());
                assert(roots_view(kept@) =~= all.take(0).filter(pred));
            }
            while i < roots.len()
                invariant
                    all == roots_view(roots@),
                    pred == (|r: RootView| r.key != key@),
                    i <= roots@.len(),
                    roots_view(kept@) == all.take(i as int).filter(pred),
                decreases roots@.len() - i,
            {
                let root = &roots[i];
                proof {
                    reveal(Seq::filter);
                    assert(all.take(i + 1).drop_last() =~= all.take(i as int));
                    assert(all.take(i + 1).last() == root@);
                }
                if !same_text(root.key.as_str(), key) {
                    let ghost before = kept@;
                    kept.push(root.duplicate());
                    assert(roots_view(kept@) =~= roots_view(before).push(root@));
                }
                i += 1;
            }
            assert(all.take(roots@.len() as int) =~= all);
            assert(roots_view(kept@).len() == kept@.len());
            assert(all.len() == roots@.len());
            (kept, roots.len())
        },
    };
    let removed = kept.0.len() < kept.1;
    info.download_roots = Some(kept.0);
    removed
}

/// The answer to `DeleteDownloadRoot`.
pub fn delete_root_result(removed: bool, key: String) -> (result: Result<ResponsePayload, String>)
    ensures
        served_view(result) == (if removed {
            Ok::<PayloadView, Seq<char>>(PayloadView::RootRemoved { key: key@ })
        } else {
            Err::<PayloadView, Seq<char>>("Root not found: "@ + key@)
        }),
{
    if removed {
        Ok(ResponsePayload::RootRemoved { key })
    } else {
        Err(concat("Root not found: ", key.as_str()))
    }
}

/// The host's record at the start of a handshake: the ids of the
/// extension are set, and the roots are left to the discovery file.
pub fn begin_handshake(info: &mut RpcInfo, extension_id: String, install_id: String)
    ensures
        final(info)@ == (RpcInfoView {
            browser: crate::config::BrowserView {
                extension_id: Some(extension_id@),
                ..old(info)@.browser
            },
            install_id: Some(install_id@),
            download_roots: None,
            ..old(info)@
        }),
{
    info.browser.extension_id = Some(extension_id);
    info.install_id = Some(install_id);
    info.download_roots = None;
}

/// The host's record once the discovery file has been written: it carries
/// the roots then in force.
pub fn adopt_roots(info: &mut RpcInfo, roots: Vec<DownloadRoot>)
    ensures
        final(info)@ == (RpcInfoView {
            download_roots: Some(roots_view(roots@)),
            ..old(info)@
        }),
{
    info.download_roots = Some(roots);
}

/// What a handshake does about the daemon.
#[derive(Clone, Copy, Debug, PartialEq, Eq, Structural)]
pub enum DaemonStep {
    /// No daemon runs yet: start one.
    Start,
    /// A daemon runs: have it reload its configuration.
    Refresh,
}

/// A daemon is started where none has announced a port yet.
pub fn daemon_step(port: Option<u16>) -> (step: DaemonStep)
    ensures
        step == (if port.is_none() {
            DaemonStep::Start
        } else {
            DaemonStep::Refresh
        }),
{
    match port {
        None => DaemonStep::Start,
        Some(_) => DaemonStep::Refresh,
    }
}

/// The answer to a handshake, given whether the daemon step succeeded and
/// what the daemon has announced.
pub open spec fn handshake_outcome(
    daemon_ok: bool,
    port: Option<u16>,
    token: Option<Seq<char>>,
    version: Seq<char>,
    info: Option<RpcInfoView>,
) -> Result<PayloadView, Seq<char>> {
    if !daemon_ok {
        Err("Failed to start daemon"@)
    } else if port.is_some() && token.is_some() {
        Ok(
            PayloadView::DaemonInfo {
                port: port.unwrap(),
                token: token.unwrap(),
                version,
                roots: roots_of(info),
            },
        )
    } else {
        Err("Daemon not running"@)
    }
}

/// Answers a handshake whose record was written to the discovery file.
pub fn handshake_result(
    daemon_ok: bool,
    port: Option<u16>,
    token: Option<String>,
    version: String,
    info: &Option<RpcInfo>,
) -> (result: Result<ResponsePayload, String>)
    ensures
        served_view(result) == handshake_outcome(
            daemon_ok,
            port,
            crate::config::text_view(token),
            version@,
            info_view(*info),
        ),
{
    if !daemon_ok {
        return Err("Failed to start daemon".to_owned());
    }
    match (port, token) {
        (Some(port), Some(token)) => {
            let roots = match info {
                Some(i) => match &i.download_roots {
                    Some(roots) => copy_roots(roots),
                    None => no_roots(),
                },
                None => no_roots(),
            };
            Ok(ResponsePayload::DaemonInfo { port, token, version, roots })
        },
        _ => Err("Daemon not running".to_owned()),
    }
}

/// An empty list of roots.
fn no_roots() -> (roots: Vec<DownloadRoot>)
    ensures
        roots@.len() == 0,
        roots_view(roots@) == Seq::<RootView>::empty(),
{
    let roots: Vec<DownloadRoot> = Vec::new();
    assert(roots_view(roots@) =~= Seq::<RootView>::empty());
    roots
}

/// The text that reports a handshake whose record could not be written.
pub fn handshake_not_recorded() -> (text: String)
    ensures
        text@ == "Failed to update extension ID or install ID"@,
{
    "Failed to update extension ID or install ID".to_owned()
}

/// The path of the first root of the host's record with key `key`.
pub open spec fn root_path_of(info: Option<RpcInfoView>, key: Seq<char>) -> Option<Seq<char>> {
    match crate::paths::root_index(roots_of(info), key) {
        Some(i) => Some(roots_of(info)[i].path),
        None => None,
    }
}

/// Looks up the path of the root with key `root_key`.
pub fn root_path(info: &Option<RpcInfo>, root_key: &str) -> (path: Option<String>)
    ensures
        crate::config::text_view(path) == root_path_of(info_view(*info), root_key@),
{
    match info {
        Some(i) => match &i.download_roots {
            Some(roots) => match crate::paths::find_root(roots, root_key) {
                Some(k) => Some(roots[k].path.clone()),
                None => None,
            },
            None => None,
        },
        None => None,
    }
}

/// The text that reports an unknown root key.
pub fn root_not_found(key: &str) -> (text: String)
    ensures
        text@ == "Root not found: "@ + key@,
{
    concat("Root not found: ", key)
}

/// The key of the root at `path`: the first eight bytes of the SHA-256 of
/// the path, in hexadecimal.
pub open spec fn root_key_of(path: Seq<char>) -> Seq<char> {
    hex_lower(digest(HashAlgorithm::Sha256, vstd::utf8::encode_utf8(path)).take(8))
}

/// The root for a directory the user has picked. Its key is derived from
/// the path; its name is the directory's name, or the path where it has
/// none.
pub fn new_root(path: &str, name: Option<String>, now_ms: u64) -> (root: DownloadRoot)
    ensures
        root@ == (RootView {
            key: root_key_of(path@),
            path: path@,
            display_name: match name {
                Some(n) => n@,
                None => path@,
            },
            removable: false,
            last_stat_ok: true,
            last_checked: now_ms,
        }),
{
    let hash = digest_bytes(HashAlgorithm::Sha256, path.as_bytes());
    let head = vstd::slice::slice_subrange(hash.as_slice(), 0, 8);
    assert(head@ =~= hash@.take(8));
    let display_name = match name {
        Some(n) => n,
        None => path.to_owned(),
    };
    DownloadRoot {
        key: to_hex(head),
        path: path.to_owned(),
        display_name,
        removable: false,
        last_stat_ok: true,
        last_checked: now_ms,
    }
}

/// Whether some root of `roots` lies at `path`.
pub open spec fn has_path(roots: Seq<RootView>, path: Seq<char>) -> bool {
    exists|i: int| 0 <= i < roots.len() && (#[trigger] roots[i]).path == path
}

/// `roots` with `root` added at the end, unless a root at its path is
/// there already.
pub open spec fn with_root(roots: Seq<RootView>, root: RootView) -> Seq<RootView> {
    if has_path(roots, root.path) {
        roots
    } else {
        roots.push(root)
    }
}

fn contains_path(roots: &Vec<DownloadRoot>, path: &str) -> (found: bool)
    ensures
        found == has_path(roots_view(roots@), path@),
{
    let ghost all = roots_view(roots@);
    let mut i: usize = 0;
    while i < roots.len()
        invariant
            all == roots_view(roots@),
            i <= roots@.len(),
            forall|j: int| 0 <= j < i ==> (#[trigger] all[j]).path != path@,
        decreases roots@.len() - i,
    {
        assert(all[i as int] == roots@[i as int]@);
        if same_text(roots[i].path.as_str(), path) {
            return true;
        }
        i += 1;
    }
    false
}

/// Adds a picked root to the host's record, unless a root at the same
/// path is there already.
pub fn add_root(info: &mut RpcInfo, root: &DownloadRoot)
    ensures
        final(info)@ == (RpcInfoView {
            download_roots: Some(
                with_root(
                    match old(info)@.download_roots {
                        Some(roots) => roots,
                        None => Seq::empty(),
                    },
                    root@,
                ),
            ),
            ..old(info)@
        }),
{
    let mut roots = match &info.download_roots {
        Some(roots) => copy_roots(roots),
        None => no_roots(),
    };
    if !contains_path(&roots, root.path.as_str()) {
        let ghost before = roots@;
        roots.push(root.duplicate());
        assert(roots_view(roots@) =~= roots_view(before).push(root@));
    }
    info.download_roots = Some(roots);
}

/// Whether the root at index `i` is the one a folder dialog starts in: it
/// was reachable when last checked, no reachable root was checked later,
/// and none after it was checked as late.
pub open spec fn is_latest_reachable(roots: Seq<RootView>, i: int) -> bool {
    &&& 0 <= i < roots.len()
    &&& roots[i].last_stat_ok
    &&& forall|j: int|
        0 <= j < roots.len() && (#[trigger] roots[j]).last_stat_ok ==> roots[j].last_checked
            <= roots[i].last_checked
    &&& forall|j: int|
        i < j < roots.len() && (#[trigger] roots[j]).last_stat_ok ==> roots[j].last_checked
            < roots[i].last_checked
}

/// The root a folder dialog starts in: of the roots that were reachable
/// when last checked, the one checked most recently; of several checked at
/// the same time, the last. `None` where no root was reachable.
pub fn latest_reachable(roots: &Vec<DownloadRoot>) -> (best: Option<usize>)
    ensures
        match best {
            Some(i) => is_latest_reachable(roots_view(roots@), i as int),
            None => forall|j: int|
                0 <= j < roots@.len() ==> !(#[trigger] roots_view(roots@)[j]).last_stat_ok,
        },
{
    let ghost all = roots_view(roots@);
    let mut best: Option<usize> = None;
    let mut i: usize = 0;
    while i < roots.len()
        invariant
            all == roots_view(roots@),
            i <= roots@.len(),
            match best {
                Some(b) => is_latest_reachable(all.take(i as int), b as int),
                None => forall|j: int| 0 <= j < i ==> !(#[trigger] all[j]).last_stat_ok,
            },
        decreases roots@.len() - i,
    {
        let root = &roots[i];
        assert(all[i as int] == root@);
        let ghost before = all.take(i as int);
        let ghost after = all.take(i + 1);
        assert(forall|j: int| 0 <= j < i ==> #[trigger] after[j] == before[j]);
        assert(after[i as int] == root@);
        if root.last_stat_ok {
            let better = match best {
                Some(b) => {
                    assert(before[b as int] == all[b as int]);
                    roots[b].last_checked <= root.last_checked
                },
                None => true,
            };
            if better {
                best = Some(i);
            }
        }
        i += 1;
    }
    assert(all.take(roots@.len() as int) =~= all);
    best
}

} // verus!
