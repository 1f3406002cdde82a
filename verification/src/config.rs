//! The discovery file as the daemon reads it, and the process state that is
//! filled from it.
//!
//! The file lists one entry per profile; the daemon serves the roots of the
//! entry whose install id it was started with. A reload replaces the roots
//! and the extension id together.

use crate::auth::token_matches;
use vstd::prelude::*;

verus! {

/// One allowed filesystem subtree. The key is the handle that a request
/// names; the path is where the subtree lies.
#[derive(Clone, Debug, PartialEq, Eq)]
pub struct DownloadRoot {
    pub key: String,
    pub path: String,
    pub display_name: String,
    pub removable: bool,
    pub last_stat_ok: bool,
    pub last_checked: u64,
}

/// A [`DownloadRoot`] as a mathematical value.
pub struct RootView {
    pub key: Seq<char>,
    pub path: Seq<char>,
    pub display_name: Seq<char>,
    pub removable: bool,
    pub last_stat_ok: bool,
    pub last_checked: u64,
}

impl View for DownloadRoot {
    type V = RootView;

    open spec fn view(&self) -> RootView {
        RootView {
            key: self.key@,
            path: self.path@,
            display_name: self.display_name@,
            removable: self.removable,
            last_stat_ok: self.last_stat_ok,
            last_checked: self.last_checked,
        }
    }
}

/// The roots of a list as mathematical values, in order.
pub open spec fn roots_view(roots: Seq<DownloadRoot>) -> Seq<RootView> {
    roots.map_values(|r: DownloadRoot| r@)
}

/// An optional text as a mathematical value.
pub open spec fn text_view(text: Option<String>) -> Option<Seq<char>> {
    match text {
        Some(s) => Some(s@),
        None => None,
    }
}

/// A copy of an optional text.
pub fn copy_text(text: &Option<String>) -> (copy: Option<String>)
    ensures
        text_view(copy) == text_view(*text),
{
    match text {
        Some(s) => Some(s.clone()),
        None => None,
    }
}

impl DownloadRoot {
    /// A copy of this root.
    pub fn duplicate(&self) -> (copy: DownloadRoot)
        ensures
            copy@ == self@,
    {
        DownloadRoot {
            key: self.key.clone(),
            path: self.path.clone(),
            display_name: self.display_name.clone(),
            removable: self.removable,
            last_stat_ok: self.last_stat_ok,
            last_checked: self.last_checked,
        }
    }
}

/// A copy of a list of roots.
pub fn copy_roots(roots: &Vec<DownloadRoot>) -> (copy: Vec<DownloadRoot>)
    ensures
        roots_view(copy@) == roots_view(roots@),
{
    let mut copy: Vec<DownloadRoot> = Vec::new();
    let mut i: usize = 0;
    while i < roots.len()
        invariant
            i <= roots@.len(),
            roots_view(copy@) == roots_view(roots@.take(i as int)),
        decreases roots@.len() - i,
    {
        let ghost before = copy@;
        copy.push(roots[i].duplicate());
        assert(roots_view(copy@) =~= roots_view(before).push(roots@[i as int]@));
        assert(roots_view(roots@.take(i + 1)) =~= roots_view(roots@.take(i as int)).push(
            roots@[i as int]@,
        ));
        i += 1;
    }
    assert(roots@.take(roots@.len() as int) =~= roots@);
    copy
}

/// The browser a profile belongs to.
#[derive(Clone, Debug, PartialEq, Eq)]
pub struct BrowserInfo {
    pub name: String,
    pub binary: String,
    pub extension_id: Option<String>,
}

/// A [`BrowserInfo`] as a mathematical value.
pub struct BrowserView {
    pub name: Seq<char>,
    pub binary: Seq<char>,
    pub extension_id: Option<Seq<char>>,
}

impl View for BrowserInfo {
    type V = BrowserView;

    open spec fn view(&self) -> BrowserView {
        BrowserView {
            name: self.name@,
            binary: self.binary@,
            extension_id: text_view(self.extension_id),
        }
    }
}

impl BrowserInfo {
    /// A copy of this record.
    pub fn duplicate(&self) -> (copy: BrowserInfo)
        ensures
            copy@ == self@,
    {
        BrowserInfo {
            name: self.name.clone(),
            binary: self.binary.clone(),
            extension_id: copy_text(&self.extension_id),
        }
    }
}

/// One profile of the discovery file.
#[derive(Clone, Debug, PartialEq, Eq)]
pub struct ProfileEntry {
    pub extension_id: Option<String>,
    pub install_id: Option<String>,
    pub pid: u32,
    pub port: u16,
    pub token: String,
    pub started: u64,
    pub last_used: u64,
    pub browser: BrowserInfo,
    pub download_roots: Vec<DownloadRoot>,
}

/// A [`ProfileEntry`] as a mathematical value.
pub struct ProfileView {
    pub extension_id: Option<Seq<char>>,
    pub install_id: Option<Seq<char>>,
    pub pid: u32,
    pub port: u16,
    pub token: Seq<char>,
    pub started: u64,
    pub last_used: u64,
    pub browser: BrowserView,
    pub download_roots: Seq<RootView>,
}

impl View for ProfileEntry {
    type V = ProfileView;

    open spec fn view(&self) -> ProfileView {
        ProfileView {
            extension_id: text_view(self.extension_id),
            install_id: text_view(self.install_id),
            pid: self.pid,
            port: self.port,
            token: self.token@,
            started: self.started,
            last_used: self.last_used,
            browser: self.browser@,
            download_roots: roots_view(self.download_roots@),
        }
    }
}

impl ProfileEntry {
    /// A copy of this entry.
    pub fn duplicate(&self) -> (copy: ProfileEntry)
        ensures
            copy@ == self@,
    {
        ProfileEntry {
            extension_id: copy_text(&self.extension_id),
            install_id: copy_text(&self.install_id),
            pid: self.pid,
            port: self.port,
            token: self.token.clone(),
            started: self.started,
            last_used: self.last_used,
            browser: self.browser.duplicate(),
            download_roots: copy_roots(&self.download_roots),
        }
    }
}

/// The profiles of a list as mathematical values, in order.
pub open spec fn profiles_view(profiles: Seq<ProfileEntry>) -> Seq<ProfileView> {
    profiles.map_values(|p: ProfileEntry| p@)
}

/// The discovery file: a format version and the known profiles.
#[derive(Clone, Debug, PartialEq, Eq)]
pub struct UnifiedRpcInfo {
    pub version: u32,
    pub profiles: Vec<ProfileEntry>,
}

/// A [`UnifiedRpcInfo`] as a mathematical value.
pub struct DiscoveryView {
    pub version: u32,
    pub profiles: Seq<ProfileView>,
}

impl View for UnifiedRpcInfo {
    type V = DiscoveryView;

    open spec fn view(&self) -> DiscoveryView {
        DiscoveryView { version: self.version, profiles: profiles_view(self.profiles@) }
    }
}

/// What the daemon takes from its profile.
#[derive(Clone, Debug, PartialEq, Eq)]
pub struct ProfileConfig {
    pub download_roots: Vec<DownloadRoot>,
    pub extension_id: Option<String>,
}

/// A [`ProfileConfig`] as a mathematical value.
pub struct ProfileConfigView {
    pub download_roots: Seq<RootView>,
    pub extension_id: Option<Seq<char>>,
}

impl View for ProfileConfig {
    type V = ProfileConfigView;

    open spec fn view(&self) -> ProfileConfigView {
        ProfileConfigView {
            download_roots: roots_view(self.download_roots@),
            extension_id: text_view(self.extension_id),
        }
    }
}

/// Whether `profile` carries the install id `install_id`.
pub open spec fn has_install_id(profile: ProfileView, install_id: Seq<char>) -> bool {
    profile.install_id == Some(install_id)
}

/// Index of the first profile with the install id `install_id`.
pub open spec fn profile_index(profiles: Seq<ProfileView>, install_id: Seq<char>) -> Option<int>
    decreases profiles.len(),
{
    if profiles.len() == 0 {
        None
    } else if has_install_id(profiles[0], install_id) {
        Some(0)
    } else {
        match profile_index(profiles.drop_first(), install_id) {
            Some(i) => Some(i + 1),
            None => None,
        }
    }
}

/// What [`profile_index`] finds is the first matching profile; it finds
/// nothing only where no profile matches.
pub proof fn lemma_profile_index(profiles: Seq<ProfileView>, install_id: Seq<char>)
    ensures
        match profile_index(profiles, install_id) {
            Some(i) => {
                &&& 0 <= i < profiles.len()
                &&& has_install_id(profiles[i], install_id)
                &&& forall|j: int| 0 <= j < i ==> !has_install_id(#[trigger] profiles[j], install_id)
            },
            None => forall|j: int|
                0 <= j < profiles.len() ==> !has_install_id(#[trigger] profiles[j], install_id),
        },
    decreases profiles.len(),
{
    if profiles.len() > 0 && !has_install_id(profiles[0], install_id) {
        let rest = profiles.drop_first();
        lemma_profile_index(rest, install_id);
        match profile_index(rest, install_id) {
            Some(i) => {
                assert forall|j: int| 0 <= j < i + 1 implies !has_install_id(
                    #[trigger] profiles[j],
                    install_id,
                ) by {
                    if j > 0 {
                        assert(profiles[j] == rest[j - 1]);
                    }
                }
                assert(profiles[i + 1] == rest[i]);
            },
            None => {
                assert forall|j: int| 0 <= j < profiles.len() implies !has_install_id(
                    #[trigger] profiles[j],
                    install_id,
                ) by {
                    if j > 0 {
                        assert(profiles[j] == rest[j - 1]);
                    }
                }
            },
        }
    }
}

/// The configuration of the install `install_id`: the roots and extension
/// id of the first profile that carries it.
pub open spec fn profile_config(info: DiscoveryView, install_id: Seq<char>) -> Option<
    ProfileConfigView,
> {
    match profile_index(info.profiles, install_id) {
        Some(i) => Some(
            ProfileConfigView {
                download_roots: info.profiles[i].download_roots,
                extension_id: info.profiles[i].extension_id,
            },
        ),
        None => None,
    }
}

/// Whether the optional text `text` is `wanted`.
pub fn text_is(text: &Option<String>, wanted: &str) -> (b: bool)
    ensures
        b == (text_view(*text) == Some(wanted@)),
{
    match text {
        Some(s) => token_matches(s.as_str(), wanted),
        None => false,
    }
}

/// Position of the first profile with the install id `install_id`.
pub fn find_profile(profiles: &Vec<ProfileEntry>, install_id: &str) -> (found: Option<usize>)
    ensures
        match found {
            Some(k) => k < profiles@.len() && profile_index(
                profiles_view(profiles@),
                install_id@,
            ) == Some(k as int),
            None => profile_index(profiles_view(profiles@), install_id@).is_none(),
        },
{
    let ghost all = profiles_view(profiles@);
    let mut i: usize = 0;
    assert(all.skip(0) =~= all);
    while i < profiles.len()
        invariant
            all == profiles_view(profiles@),
            i <= profiles@.len(),
            profile_index(all, install_id@) == (match profile_index(
                all.skip(i as int),
                install_id@,
            ) {
                Some(k) => Some(k + i),
                None => None,
            }),
        decreases profiles@.len() - i,
    {
        assert(all.skip(i as int)[0] == profiles@[i as int]@);
        assert(all.skip(i as int).drop_first() =~= all.skip(i + 1));
        if text_is(&profiles[i].install_id, install_id) {
            return Some(i);
        }
        i += 1;
    }
    None
}

/// Picks the configuration of the install `install_id` out of the
/// discovery file; `None` where no profile carries that id.
pub fn select_profile(info: &UnifiedRpcInfo, install_id: &str) -> (config: Option<ProfileConfig>)
    ensures
        match profile_config(info@, install_id@) {
            Some(c) => config.is_some() && config.unwrap()@ == c,
            None => config.is_none(),
        },
{
    match find_profile(&info.profiles, install_id) {
        Some(i) => {
            let profile = &info.profiles[i];
            Some(
                ProfileConfig {
                    download_roots: copy_roots(&profile.download_roots),
                    extension_id: copy_text(&profile.extension_id),
                },
            )
        },
        None => None,
    }
}

/// The state of the daemon process: its token and install id, which never
/// change, and the extension id and roots, which a reload replaces.
#[derive(Clone, Debug, PartialEq, Eq)]
pub struct AppState {
    pub token: String,
    pub install_id: String,
    pub extension_id: Option<String>,
    pub download_roots: Vec<DownloadRoot>,
}

/// An [`AppState`] as a mathematical value.
pub struct AppStateView {
    pub token: Seq<char>,
    pub install_id: Seq<char>,
    pub extension_id: Option<Seq<char>>,
    pub download_roots: Seq<RootView>,
}

impl View for AppState {
    type V = AppStateView;

    open spec fn view(&self) -> AppStateView {
        AppStateView {
            token: self.token@,
            install_id: self.install_id@,
            extension_id: text_view(self.extension_id),
            download_roots: roots_view(self.download_roots@),
        }
    }
}

impl AppState {
    /// The state at startup. Where the profile could not be loaded the
    /// daemon starts with no roots and no extension id.
    pub fn new(token: String, install_id: String, config: Option<ProfileConfig>) -> (state: AppState)
        ensures
            state@.token == token@,
            state@.install_id == install_id@,
            match config {
                Some(c) => state@.download_roots == c@.download_roots && state@.extension_id
                    == c@.extension_id,
                None => state@.download_roots.len() == 0 && state@.extension_id.is_none(),
            },
    {
        match config {
            Some(c) => AppState {
                token,
                install_id,
                extension_id: c.extension_id,
                download_roots: c.download_roots,
            },
            None => {
                let roots: Vec<DownloadRoot> = Vec::new();
                assert(roots_view(roots@) =~= Seq::<RootView>::empty());
                AppState { token, install_id, extension_id: None, download_roots: roots }
            },
        }
    }

    /// Replaces the roots and the extension id by those of `config`, in one
    /// step. Afterwards the table holds exactly the new roots, in their
    /// order: no entry of the old table is left and none of the new is
    /// missing. Token and install id stay.
    pub fn reload(&mut self, config: ProfileConfig)
        ensures
            final(self)@ == (AppStateView {
                download_roots: config@.download_roots,
                extension_id: config@.extension_id,
                ..old(self)@
            }),
    {
        self.download_roots = config.download_roots;
        self.extension_id = config.extension_id;
    }
}

} // verus!
