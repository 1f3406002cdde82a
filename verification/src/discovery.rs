//! How the host process records itself in the discovery file.
//!
//! The file is read, one profile entry is updated or added, and the file is
//! written back. The rule here is the step in the middle: which entry a
//! running host owns, what it overwrites in it, and which roots are in
//! force afterwards.

use crate::config::{
    copy_roots, copy_text, find_profile, profile_index, profiles_view, roots_view, text_view,
    BrowserInfo, BrowserView, DownloadRoot, ProfileEntry, ProfileView, RootView, UnifiedRpcInfo,
};
use vstd::prelude::*;

verus! {

/// What a running host knows about itself.
#[derive(Clone, Debug, PartialEq, Eq)]
pub struct RpcInfo {
    pub version: String,
    pub pid: u32,
    pub port: u16,
    pub token: String,
    pub started: u64,
    pub last_used: u64,
    pub browser: BrowserInfo,
    /// `None` leaves the roots of the file as they are; `Some` replaces
    /// them, also by an empty list.
    pub download_roots: Option<Vec<DownloadRoot>>,
    pub install_id: Option<String>,
}

/// An [`RpcInfo`] as a mathematical value.
pub struct RpcInfoView {
    pub version: Seq<char>,
    pub pid: u32,
    pub port: u16,
    pub token: Seq<char>,
    pub started: u64,
    pub last_used: u64,
    pub browser: BrowserView,
    pub download_roots: Option<Seq<RootView>>,
    pub install_id: Option<Seq<char>>,
}

impl View for RpcInfo {
    type V = RpcInfoView;

    open spec fn view(&self) -> RpcInfoView {
        RpcInfoView {
            version: self.version@,
            pid: self.pid,
            port: self.port,
            token: self.token@,
            started: self.started,
            last_used: self.last_used,
            browser: self.browser@,
            download_roots: match self.download_roots {
                Some(roots) => Some(roots_view(roots@)),
                None => None,
            },
            install_id: text_view(self.install_id),
        }
    }
}

/// Whether `entry` was written by the process `info` describes: the same
/// pid, and no two different extension ids.
pub open spec fn same_process(entry: ProfileView, info: RpcInfoView) -> bool {
    &&& entry.pid == info.pid
    &&& !(entry.extension_id.is_some() && info.browser.extension_id.is_some()
        && entry.extension_id != info.browser.extension_id)
}

/// Index of the first entry written by the process `info` describes.
pub open spec fn process_index(profiles: Seq<ProfileView>, info: RpcInfoView) -> Option<int>
    decreases profiles.len(),
{
    if profiles.len() == 0 {
        None
    } else if same_process(profiles[0], info) {
        Some(0)
    } else {
        match process_index(profiles.drop_first(), info) {
            Some(i) => Some(i + 1),
            None => None,
        }
    }
}

/// The entry that `info` updates: the first with its install id, if it has
/// one and such an entry exists; else the first written by its process.
pub open spec fn entry_index(profiles: Seq<ProfileView>, info: RpcInfoView) -> Option<int> {
    let by_install = match info.install_id {
        Some(id) => profile_index(profiles, id),
        None => None,
    };
    match by_install {
        Some(i) => Some(i),
        None => process_index(profiles, info),
    }
}

/// The browser record after an update. The binary of the file is kept
/// unless the host names a binary that exists on disk.
pub open spec fn updated_browser(old: BrowserView, new: BrowserView, binary_on_disk: bool) -> BrowserView {
    if new.binary.len() > 0 && binary_on_disk {
        new
    } else {
        BrowserView { name: new.name, binary: old.binary, extension_id: new.extension_id }
    }
}

/// `entry` after the host described by `info` has updated it. The install
/// id and the roots change only where `info` carries them.
pub open spec fn updated_entry(entry: ProfileView, info: RpcInfoView, binary_on_disk: bool) -> ProfileView {
    ProfileView {
        extension_id: info.browser.extension_id,
        install_id: if info.install_id.is_some() {
            info.install_id
        } else {
            entry.install_id
        },
        pid: info.pid,
        port: info.port,
        token: info.token,
        started: info.started,
        last_used: info.last_used,
        browser: updated_browser(entry.browser, info.browser, binary_on_disk),
        download_roots: match info.download_roots {
            Some(roots) => roots,
            None => entry.download_roots,
        },
    }
}

/// The entry of a host that has none yet.
pub open spec fn fresh_entry(info: RpcInfoView) -> ProfileView {
    ProfileView {
        extension_id: info.browser.extension_id,
        install_id: info.install_id,
        pid: info.pid,
        port: info.port,
        token: info.token,
        started: info.started,
        last_used: info.last_used,
        browser: info.browser,
        download_roots: match info.download_roots {
            Some(roots) => roots,
            None => Seq::empty(),
        },
    }
}

/// Whether `entry` is a placeholder of the process `pid`: written before
/// the install id was known.
pub open spec fn is_placeholder(entry: ProfileView, pid: u32) -> bool {
    entry.pid == pid && entry.install_id.is_none()
}

/// `profiles` without the placeholders of the process `pid`.
pub open spec fn without_placeholders(profiles: Seq<ProfileView>, pid: u32) -> Seq<ProfileView> {
    profiles.filter(|p: ProfileView| !is_placeholder(p, pid))
}

/// The profiles of the file after the host described by `info` has
/// recorded itself. Its entry is updated in place, or added at the end;
/// once the install id is known, the placeholders of its process go.
pub open spec fn recorded_profiles(
    profiles: Seq<ProfileView>,
    info: RpcInfoView,
    binary_on_disk: bool,
) -> Seq<ProfileView> {
    match entry_index(profiles, info) {
        Some(i) => {
            let updated = profiles.update(i, updated_entry(profiles[i], info, binary_on_disk));
            if info.install_id.is_some() {
                without_placeholders(updated, info.pid)
            } else {
                updated
            }
        },
        None => profiles.push(fresh_entry(info)),
    }
}

/// The roots in force after the host has recorded itself: its own where it
/// carries any, else those of its entry in the file, else none.
pub open spec fn active_roots(profiles: Seq<ProfileView>, info: RpcInfoView) -> Seq<RootView> {
    match info.download_roots {
        Some(roots) => roots,
        None => match entry_index(profiles, info) {
            Some(i) => profiles[i].download_roots,
            None => Seq::empty(),
        },
    }
}

/// An empty discovery file: format version 1, no profiles.
pub fn empty_discovery() -> (info: UnifiedRpcInfo)
    ensures
        info@.version == 1,
        info@.profiles.len() == 0,
{
    let profiles: Vec<ProfileEntry> = Vec::new();
    assert(profiles_view(profiles@) =~= Seq::<ProfileView>::empty());
    UnifiedRpcInfo { version: 1, profiles }
}

fn is_same_process(entry: &ProfileEntry, info: &RpcInfo) -> (b: bool)
    ensures
        b == same_process(entry@, info@),
{
    if entry.pid != info.pid {
        return false;
    }
    match (&entry.extension_id, &info.browser.extension_id) {
        (Some(a), Some(b)) => crate::auth::token_matches(a.as_str(), b.as_str()),
        _ => true,
    }
}

fn find_process(profiles: &Vec<ProfileEntry>, info: &RpcInfo) -> (found: Option<usize>)
    ensures
        match found {
            Some(k) => k < profiles@.len() && process_index(profiles_view(profiles@), info@)
                == Some(k as int),
            None => process_index(profiles_view(profiles@), info@).is_none(),
        },
{
    let ghost all = profiles_view(profiles@);
    let mut i: usize = 0;
    assert(all.skip(0) =~= all);
    while i < profiles.len()
        invariant
            all == profiles_view(profiles@),
            i <= profiles@.len(),
            process_index(all, info@) == (match process_index(all.skip(i as int), info@) {
                Some(k) => Some(k + i),
                None => None,
            }),
        decreases profiles@.len() - i,
    {
        assert(all.skip(i as int)[0] == profiles@[i as int]@);
        assert(all.skip(i as int).drop_first() =~= all.skip(i + 1));
        if is_same_process(&profiles[i], info) {
            return Some(i);
        }
        i += 1;
    }
    None
}

/// Position of the entry that `info` updates.
pub fn find_entry(profiles: &Vec<ProfileEntry>, info: &RpcInfo) -> (found: Option<usize>)
    ensures
        match found {
            Some(k) => k < profiles@.len() && entry_index(profiles_view(profiles@), info@) == Some(
                k as int,
            ),
            None => entry_index(profiles_view(profiles@), info@).is_none(),
        },
{
    let by_install = match &info.install_id {
        Some(id) => find_profile(profiles, id.as_str()),
        None => None,
    };
    match by_install {
        Some(i) => Some(i),
        None => find_process(profiles, info),
    }
}

fn update_entry(entry: &ProfileEntry, info: &RpcInfo, binary_on_disk: bool) -> (updated:
    ProfileEntry)
    ensures
        updated@ == updated_entry(entry@, info@, binary_on_disk),
{
    let browser = if info.browser.binary.as_str().unicode_len() > 0 && binary_on_disk {
        info.browser.duplicate()
    } else {
        BrowserInfo {
            name: info.browser.name.clone(),
            binary: entry.browser.binary.clone(),
            extension_id: copy_text(&info.browser.extension_id),
        }
    };
    let install_id = match &info.install_id {
        Some(id) => Some(id.clone()),
        None => copy_text(&entry.install_id),
    };
    let download_roots = match &info.download_roots {
        Some(roots) => copy_roots(roots),
        None => copy_roots(&entry.download_roots),
    };
    ProfileEntry {
        extension_id: copy_text(&info.browser.extension_id),
        install_id,
        pid: info.pid,
        port: info.port,
        token: info.token.clone(),
        started: info.started,
        last_used: info.last_used,
        browser,
        download_roots,
    }
}

fn new_entry(info: &RpcInfo) -> (entry: ProfileEntry)
    ensures
        entry@ == fresh_entry(info@),
{
    let download_roots = match &info.download_roots {
        Some(roots) => copy_roots(roots),
        None => {
            let none: Vec<DownloadRoot> = Vec::new();
            assert(roots_view(none@) =~= Seq::<RootView>::empty());
            none
        },
    };
    ProfileEntry {
        extension_id: copy_text(&info.browser.extension_id),
        install_id: copy_text(&info.install_id),
        pid: info.pid,
        port: info.port,
        token: info.token.clone(),
        started: info.started,
        last_used: info.last_used,
        browser: info.browser.duplicate(),
        download_roots,
    }
}

fn drop_placeholders(profiles: &Vec<ProfileEntry>, pid: u32) -> (kept: Vec<ProfileEntry>)
    ensures
        profiles_view(kept@) == without_placeholders(profiles_view(profiles@), pid),
{
    let ghost all = profiles_view(profiles@);
    let ghost pred = |p: ProfileView| !is_placeholder(p, pid);
    let mut kept: Vec<ProfileEntry> = Vec::new();
    let mut i: usize = 0;
    proof {
        reveal(Seq::filter);
        assert(all.take(0) =~= Seq::<ProfileView>::empty());
        assert(profiles_view(kept@) =~= all.take(0).filter(pred));
    }
    while i < profiles.len()
        invariant
            all == profiles_view(profiles@),
            pred == (|p: ProfileView| !is_placeholder(p, pid)),
            i <= profiles@.len(),
            profiles_view(kept@) == all.take(i as int).filter(pred),
        decreases profiles@.len() - i,
    {
        let entry = &profiles[i];
        proof {
            reveal(Seq::filter);
            assert(all.take(i + 1).drop_last() =~= all.take(i as int));
            assert(all.take(i + 1).last() == entry@);
        }
        let placeholder = entry.pid == pid && entry.install_id.is_none();
        if !placeholder {
            let ghost before = kept@;
            kept.push(entry.duplicate());
            assert(profiles_view(kept@) =~= profiles_view(before).push(entry@));
        }
        i += 1;
    }
    assert(all.take(profiles@.len() as int) =~= all);
    kept
}

/// Records the host described by `info` in the discovery file `unified`
/// and returns the roots then in force. `binary_on_disk` says whether the
/// browser binary that `info` names exists.
pub fn record_host(unified: &mut UnifiedRpcInfo, info: &RpcInfo, binary_on_disk: bool) -> (roots:
    Vec<DownloadRoot>)
    ensures
        final(unified)@.version == old(unified)@.version,
        final(unified)@.profiles == recorded_profiles(
            old(unified)@.profiles,
            info@,
            binary_on_disk,
        ),
        roots_view(roots@) == active_roots(old(unified)@.profiles, info@),
{
    let ghost before = profiles_view(unified.profiles@);
    match find_entry(&unified.profiles, info) {
        Some(i) => {
            let entry = update_entry(&unified.profiles[i], info, binary_on_disk);
            let roots = copy_roots(&entry.download_roots);
            unified.profiles.set(i, entry);
            assert(profiles_view(unified.profiles@) =~= before.update(
                i as int,
                updated_entry(before[i as int], info@, binary_on_disk),
            ));
            if info.install_id.is_some() {
                let kept = drop_placeholders(&unified.profiles, info.pid);
                unified.profiles = kept;
            }
            roots
        },
        None => {
            let entry = new_entry(info);
            let roots = copy_roots(&entry.download_roots);
            unified.profiles.push(entry);
            assert(profiles_view(unified.profiles@) =~= before.push(fresh_entry(info@)));
            roots
        },
    }
}

/// A host that carries no roots leaves the roots of its entry as they are;
/// one that carries roots, were it an empty list, replaces them; and the
/// roots returned are those of its entry afterwards.
pub proof fn lemma_roots_kept_or_replaced(
    profiles: Seq<ProfileView>,
    info: RpcInfoView,
    binary_on_disk: bool,
)
    ensures
        match entry_index(profiles, info) {
            Some(i) => {
                let entry = updated_entry(profiles[i], info, binary_on_disk);
                &&& entry.download_roots == active_roots(profiles, info)
                &&& info.download_roots.is_none() ==> entry.download_roots
                    == profiles[i].download_roots
                &&& info.download_roots.is_some() ==> entry.download_roots
                    == info.download_roots.unwrap()
            },
            None => fresh_entry(info).download_roots == active_roots(profiles, info),
        },
{
}

} // verus!
