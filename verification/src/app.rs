//! The launcher's state and how each event changes it.
//!
//! `App::update` takes the state, one `Message` and what the program
//! observes at that moment (the clock, the running games) and returns the
//! `Effect`s to perform. The window, the network, the disk and the game
//! processes are the caller's; the results of effects come back as
//! messages.

use vstd::prelude::*;

use crate::config::schema::{Config, LastLaunched, RateLimitSnapshot, MIN_VERSIONS_TO_SHOW};
use crate::config::Diagnostic;
use crate::games::{game_for_slug, registry, Game, GameId, SlotSpec};
use crate::github::{clone_releases, release_view, releases_view, Release, RateLimitStatus};
use crate::library::{clone_version, version_view, versions_view, InstallRequest, InstalledVersion};
use crate::platform::HostPlatform;
use crate::roms::cached_assets::PlannedClear;
use crate::roms::library::RomEntry;
use crate::strmap::StrMap;
use crate::text::{
    concat2, concat3, contains, decimal, owned, parse_u32, parse_u32_spec, push_str, seq_contains,
    str_eq, string_from_chars, strings_view, trim_chars, trimmed, u64_to_string,
};

verus! {

#[derive(Debug, Clone, PartialEq, Eq)]
pub enum InstallState {
    Idle,
    Installing,
    Installed,
    Failed(String),
}

#[derive(Debug, Clone, Copy, PartialEq, Eq, Structural)]
pub enum Tab {
    Library,
    Roms,
    Mods,
    Settings,
}

#[derive(Debug, Clone)]
pub enum Banner {
    RateLimited(String),
    Info(String),
    Error(String),
}

/// The kind of a banner.
#[derive(Debug, Clone, Copy, PartialEq, Eq, Structural)]
pub enum BannerKind {
    RateLimited,
    Info,
    Error,
}

/// A banner as `(kind, text)`.
pub open spec fn banner_view(b: Banner) -> (BannerKind, Seq<char>) {
    match b {
        Banner::RateLimited(s) => (BannerKind::RateLimited, s@),
        Banner::Info(s) => (BannerKind::Info, s@),
        Banner::Error(s) => (BannerKind::Error, s@),
    }
}

/// Banners as `(kind, text)`, oldest first.
pub open spec fn banners_view(s: Seq<Banner>) -> Seq<(BannerKind, Seq<char>)> {
    s.map_values(|b: Banner| banner_view(b))
}

#[derive(Debug, Clone)]
pub enum Modal {
    Closed,
    ClearCachedConfirm { tag: String, game_slug: String, planned: Vec<PlannedClear> },
    DeleteRomConfirm { filename: String },
    UninstallConfirm { tag: String },
}

impl Modal {
    pub fn is_closed(&self) -> (r: bool)
        ensures
            r == (self is Closed),
    {
        match self {
            Modal::Closed => true,
            _ => false,
        }
    }
}

/// Which configuration write an effect asks for, so that its outcome is
/// reported the way the request asks.
#[derive(Debug, Clone, Copy, PartialEq, Eq, Structural)]
pub enum SaveContext {
    /// A settings change: a failure reads `save config: <error>`.
    Settings,
    /// The rate-limit snapshot: a failure reads
    /// `save rate-limit snapshot: <error>`.
    RateLimitSnapshot,
}

/// Everything that can happen to the launcher.
#[derive(Debug)]
pub enum Message {
    TabSelected(Tab),
    ReleasesLoaded { game_slug: String, result: Result<(Vec<Release>, RateLimitStatus), String> },
    InstallClicked { game_slug: String, tag: String },
    InstallProgress(String, Option<u8>),
    InstallFinished(String, Result<InstalledVersion, String>),
    UninstallClicked(String),
    LaunchClicked(String),
    LibraryRootInputChanged(String),
    SaveSettings,
    ClearCachedAssetsClicked(String),
    ClearCachedAssetsConfirm(String),
    ClearCachedAssetsCancel,
    ImportRomClicked,
    RomImported(Result<RomEntry, String>),
    DeleteRomClicked(String),
    DeleteRomConfirm(String),
    DeleteRomCancel,
    AssignSlotChanged { game_slug: String, slot_id: String, filename: Option<String> },
    VersionSelected { game_slug: String, tag: String },
    PrimaryActionClicked(String),
    ToggleGearMenu(String),
    DismissPopovers,
    ManualRefreshClicked(String),
    UninstallSelectedClicked(String),
    ClearCacheSelectedClicked(String),
    ToggleImportedRomsExpander,
    VersionsToShowInputChanged(String),
    VersionsToShowSubmit,
    /// A configuration write finished.
    ConfigSaved { context: SaveContext, success: Option<Banner>, result: Result<(), String> },
    /// The cached assets of `tag` were looked at: these files would be cleared.
    ClearPlanned { tag: String, game_slug: String, planned: Vec<PlannedClear> },
    /// The cached assets of `tag` were cleared: how many files went, and the
    /// `(path, reason)` of each that could not.
    CachedAssetsCleared { tag: String, deleted: usize, failures: Vec<(String, String)> },
    /// A ROM file was deleted from the library, or could not be.
    RomDeleted { filename: String, result: Result<(), String> },
    /// The ROM library as listed afresh.
    RomsListed(Vec<RomEntry>),
    /// An install directory was removed, or could not be.
    UninstallFinished { tag: String, result: Result<(), String> },
    /// A game was started, or could not be.
    Launched { tag: String, game_slug: String, result: Result<(), String> },
    /// The rate-limit reset time, as the local wall clock shows it.
    RateLimitNotice { clock: String },
}

/// What the caller does for the launcher.
#[derive(Debug, Clone)]
pub enum Effect {
    /// List the releases of `repo`, then send `ReleasesLoaded` for `game_slug`.
    FetchReleases { game_slug: String, repo: String },
    /// Run the install, sending `InstallProgress` and then `InstallFinished`.
    Install { request: InstallRequest },
    /// Write the configuration, then send `ConfigSaved`.
    SaveConfig { context: SaveContext, success: Option<Banner> },
    /// Delete a ROM from the library, then send `RomDeleted`.
    DeleteRom { filename: String },
    /// List the ROM library, then send `RomsListed`.
    ListRoms,
    /// Remove an install directory, then send `UninstallFinished`.
    Uninstall { version: InstalledVersion },
    /// Reconcile the slot links and start the game, then send `Launched`.
    Launch { version: InstalledVersion, game: GameId },
    /// Look at the cached assets of an install, then send `ClearPlanned`.
    PlanClear { tag: String, game: GameId, install_dir: String },
    /// Clear the cached assets of an install, then send `CachedAssetsCleared`.
    ClearCachedAssets { tag: String, game: GameId, install_dir: String },
    /// Ask the user for a ROM file and import it, then send `RomImported`.
    PickAndImportRom,
    /// Show the reset time in local time, then send `RateLimitNotice`.
    AnnounceRateLimit { reset_at: i64 },
}

/// What the program observes when a message arrives.
#[derive(Debug, Clone)]
pub struct Observation {
    /// Now, in seconds since the Unix epoch.
    pub now_unix: i64,
    /// The tags whose game process is still running.
    pub running: Vec<String>,
}

/// The launcher's state.
#[derive(Debug)]
pub struct App {
    pub config: Config,
    /// The game launches fall back to when an install names no known game.
    pub game: GameId,
    pub platform: HostPlatform,
    /// The CPU architecture, as `std::env::consts::ARCH` names it.
    pub arch: String,
    pub library_root: String,
    pub download_dir: String,
    pub installed: Vec<InstalledVersion>,
    pub releases_by_game: StrMap<Vec<Release>>,
    pub install_states: StrMap<InstallState>,
    pub install_progress: StrMap<Option<u8>>,
    pub rate_limit: RateLimitStatus,
    pub banners: Vec<Banner>,
    pub tab: Tab,
    pub modal: Modal,
    pub library_root_input: String,
    pub versions_to_show_input: String,
    pub roms: Vec<RomEntry>,
    pub selected_game_slug: String,
    pub selected_tags: StrMap<String>,
    pub gear_menu_open_for_game: Option<String>,
    pub imported_roms_expanded: bool,
}

// ---------------------------------------------------------------------------
// Queries
// ---------------------------------------------------------------------------

/// A row of a game's version picker.
#[derive(Debug, Clone, PartialEq, Eq)]
pub struct VersionChoice {
    pub tag: String,
    pub installed: bool,
    pub latest: bool,
}

impl VersionChoice {
    /// The picker's text: the tag, ` (latest)` for the newest release, ` ✓`
    /// when installed.
    pub fn label(&self) -> (r: String)
        ensures
            r@ == self.tag@ + (if self.latest {
                " (latest)"@
            } else {
                ""@
            }) + (if self.installed {
                " ✓"@
            } else {
                ""@
            }),
    {
        let mut r = owned(&self.tag);
        let ghost t = r@;
        if self.latest {
            push_str(&mut r, " (latest)");
        } else {
            proof {
                reveal_strlit("");
                assert(t + ""@ =~= t);
            }
        }
        let ghost u = r@;
        if self.installed {
            push_str(&mut r, " ✓");
        } else {
            proof {
                reveal_strlit("");
                assert(u + ""@ =~= u);
            }
        }
        r
    }
}

/// A copy of `c`.
pub fn clone_choice(c: &VersionChoice) -> (r: VersionChoice)
    ensures
        choice_view(r) == choice_view(*c),
{
    VersionChoice { tag: c.tag.clone(), installed: c.installed, latest: c.latest }
}

/// A copy of `s`.
pub fn clone_state(s: &InstallState) -> (r: InstallState)
    ensures
        r == *s,
{
    match s {
        InstallState::Idle => InstallState::Idle,
        InstallState::Installing => InstallState::Installing,
        InstallState::Installed => InstallState::Installed,
        InstallState::Failed(e) => InstallState::Failed(e.clone()),
    }
}

/// The releases listed for `slug`, newest first; none before a listing came.
pub open spec fn releases_of(a: App, slug: Seq<char>) -> Seq<Release> {
    if a.releases_by_game@.contains_key(slug) {
        a.releases_by_game@[slug]@
    } else {
        Seq::empty()
    }
}

/// The tags of `rs`, in order.
pub open spec fn release_tags(rs: Seq<Release>) -> Seq<Seq<char>> {
    rs.map_values(|r: Release| r.tag_name@)
}

/// How many recent releases the picker shows: the setting, at least one.
pub open spec fn shown_count(versions_to_show: u32) -> nat {
    if versions_to_show < MIN_VERSIONS_TO_SHOW {
        MIN_VERSIONS_TO_SHOW as nat
    } else {
        versions_to_show as nat
    }
}

/// `tags` followed by the tags of the installs of `slug` it lacks, in
/// install order, each once.
pub open spec fn add_installed(
    tags: Seq<Seq<char>>,
    installed: Seq<(Seq<char>, Seq<char>, Seq<char>)>,
    slug: Seq<char>,
) -> Seq<Seq<char>>
    decreases installed.len(),
{
    if installed.len() == 0 {
        tags
    } else {
        let prev = add_installed(tags, installed.drop_last(), slug);
        let v = installed.last();
        if v.1 == slug && !prev.contains(v.0) {
            prev.push(v.0)
        } else {
            prev
        }
    }
}

/// The tags of a game's version picker: the most recent releases (as many as
/// the setting asks), then each installed version of the game outside that
/// window, newest release first.
pub open spec fn version_tags(a: App, slug: Seq<char>) -> Seq<Seq<char>> {
    let tags = release_tags(releases_of(a, slug));
    let n = shown_count(a.config.versions_to_show);
    let recent = if n < tags.len() {
        tags.take(n as int)
    } else {
        tags
    };
    add_installed(recent, versions_view(a.installed@), slug)
}

/// Whether `tag` of `slug` is installed.
pub open spec fn is_installed(
    installed: Seq<(Seq<char>, Seq<char>, Seq<char>)>,
    tag: Seq<char>,
    slug: Seq<char>,
) -> bool {
    exists|k: int| 0 <= k < installed.len() && #[trigger] installed[k].0 == tag && installed[k].1 == slug
}

/// Whether `tag` is the newest release of `rs`.
pub open spec fn is_latest(rs: Seq<Release>, tag: Seq<char>) -> bool {
    rs.len() > 0 && rs[0].tag_name@ == tag
}

/// A version choice as `(tag, installed, latest)`.
pub open spec fn choice_view(c: VersionChoice) -> (Seq<char>, bool, bool) {
    (c.tag@, c.installed, c.latest)
}

/// The version picker of `slug`, row by row.
pub open spec fn version_choices(a: App, slug: Seq<char>) -> Seq<(Seq<char>, bool, bool)> {
    version_tags(a, slug).map_values(
        |t: Seq<char>|
            (t, is_installed(versions_view(a.installed@), t, slug), is_latest(releases_of(a, slug), t)),
    )
}

/// The tag a game's row acts on: the user's pick if any, else the first
/// version of its picker.
pub open spec fn effective_tag(a: App, slug: Seq<char>) -> Option<Seq<char>> {
    if a.selected_tags@.contains_key(slug) {
        Some(a.selected_tags@[slug]@)
    } else if version_tags(a, slug).len() > 0 {
        Some(version_tags(a, slug)[0])
    } else {
        None
    }
}

/// Whether `tags` holds `t`.
fn has_tag(tags: &Vec<String>, t: &str) -> (r: bool)
    ensures
        r == strings_view(tags@).contains(t@),
{
    let n = tags.len();
    for i in 0..n
        invariant
            n == tags@.len(),
            forall|k: int| 0 <= k < i ==> (#[trigger] tags@[k])@ != t@,
    {
        if str_eq(&tags[i], t) {
            assert(strings_view(tags@)[i as int] == t@);
            return true;
        }
    }
    proof {
        if strings_view(tags@).contains(t@) {
            let k = choose|k: int|
                0 <= k < tags@.len() && #[trigger] strings_view(tags@)[k] == t@;
            assert(tags@[k]@ == t@);
        }
    }
    false
}

impl App {
    /// The releases listed for `slug`, newest first; empty before a listing came.
    pub fn releases_for(&self, slug: &str) -> (r: Vec<Release>)
        ensures
            releases_view(r@) == releases_view(releases_of(*self, slug@)),
    {
        match self.releases_by_game.get(slug) {
            Some(v) => clone_releases(v),
            None => {
                let v: Vec<Release> = Vec::new();
                assert(releases_view(v@) =~= releases_view(Seq::<Release>::empty()));
                v
            },
        }
    }

    /// The tag the user picked for `slug`, if any.
    pub fn selected_tag_for(&self, slug: &str) -> (r: Option<&String>)
        ensures
            match r {
                Some(t) => self.selected_tags@.contains_key(slug@) && self.selected_tags@[slug@] == *t,
                None => !self.selected_tags@.contains_key(slug@),
            },
    {
        self.selected_tags.get(slug)
    }

    /// Whether `tag` of `slug` is installed.
    pub fn is_installed(&self, tag: &str, slug: &str) -> (r: bool)
        ensures
            r == is_installed(versions_view(self.installed@), tag@, slug@),
    {
        let n = self.installed.len();
        for k in 0..n
            invariant
                n == self.installed@.len(),
                forall|j: int|
                    0 <= j < k ==> !((#[trigger] versions_view(self.installed@)[j]).0 == tag@
                        && versions_view(self.installed@)[j].1 == slug@),
        {
            if str_eq(&self.installed[k].tag, tag) && str_eq(&self.installed[k].game_slug, slug) {
                assert(versions_view(self.installed@)[k as int].0 == tag@);
                return true;
            }
        }
        false
    }

    /// The version picker of `slug`: the most recent releases (as many as the
    /// setting asks, at least one) plus every installed version of the game
    /// older than that window, newest release first.
    pub fn versions_for_game(&self, slug: &str) -> (r: Vec<VersionChoice>)
        ensures
            r@.map_values(|c: VersionChoice| choice_view(c)) == version_choices(*self, slug@),
    {
        let n: u32 = if self.config.versions_to_show < MIN_VERSIONS_TO_SHOW {
            MIN_VERSIONS_TO_SHOW
        } else {
            self.config.versions_to_show
        };
        let releases = self.releases_for(slug);
        let ghost rs = releases_of(*self, slug@);
        let ghost all_tags = release_tags(rs);
        let mut tags: Vec<String> = Vec::new();
        let m = releases.len();
        let take: usize = if (n as usize) < m {
            n as usize
        } else {
            m
        };
        proof {
            assert(releases_view(releases@) == releases_view(rs));
            assert(releases@.len() == rs.len()) by {
                assert(releases_view(releases@).len() == releases_view(rs).len());
            }
        }
        for i in 0..take
            invariant
                take <= m,
                m == releases@.len(),
                releases@.len() == rs.len(),
                releases_view(releases@) == releases_view(rs),
                all_tags == release_tags(rs),
                strings_view(tags@) == all_tags.take(i as int),
        {
            let ghost before = strings_view(tags@);
            tags.push(releases[i].tag_name.clone());
            proof {
                assert(releases_view(releases@)[i as int] == releases_view(rs)[i as int]);
                assert(release_view(releases@[i as int]).0 == release_view(rs[i as int]).0);
                assert(all_tags[i as int] == releases@[i as int].tag_name@);
                assert(strings_view(tags@) =~= before.push(all_tags[i as int]));
                assert(all_tags.take(i + 1) =~= all_tags.take(i as int).push(all_tags[i as int]));
            }
        }
        let ghost recent = strings_view(tags@);
        proof {
            if (n as nat) < all_tags.len() {
                assert(recent == all_tags.take(n as int));
            } else {
                assert(recent =~= all_tags);
            }
        }
        let ghost iv = versions_view(self.installed@);
        let k = self.installed.len();
        proof {
            assert(iv.take(0) =~= Seq::<(Seq<char>, Seq<char>, Seq<char>)>::empty());
        }
        for j in 0..k
            invariant
                k == self.installed@.len(),
                iv == versions_view(self.installed@),
                strings_view(tags@) == add_installed(recent, iv.take(j as int), slug@),
        {
            proof {
                assert(iv.take(j + 1).drop_last() =~= iv.take(j as int));
                assert(iv.take(j + 1).last() == iv[j as int]);
            }
            let inst = &self.installed[j];
            if str_eq(&inst.game_slug, slug) && !has_tag(&tags, &inst.tag) {
                let ghost before = strings_view(tags@);
                tags.push(inst.tag.clone());
                assert(strings_view(tags@) =~= before.push(inst.tag@));
            }
        }
        proof {
            assert(iv.take(k as int) =~= iv);
        }
        let ghost tv = strings_view(tags@);
        assert(tv == version_tags(*self, slug@));
        let mut out: Vec<VersionChoice> = Vec::new();
        let t = tags.len();
        for i in 0..t
            invariant
                t == tags@.len(),
                tv == strings_view(tags@),
                releases_view(releases@) == releases_view(rs),
                releases@.len() == rs.len(),
                rs == releases_of(*self, slug@),
                out@.len() == i,
                forall|q: int|
                    0 <= q < i ==> choice_view(#[trigger] out@[q]) == (
                        tv[q],
                        is_installed(versions_view(self.installed@), tv[q], slug@),
                        is_latest(rs, tv[q]),
                    ),
        {
            let installed = self.is_installed(&tags[i], slug);
            let latest = releases.len() > 0 && str_eq(&releases[0].tag_name, &tags[i]);
            proof {
                if releases@.len() > 0 {
                    assert(releases_view(releases@)[0] == releases_view(rs)[0]);
                    assert(release_view(releases@[0]).0 == release_view(rs[0]).0);
                }
            }
            assert(tv[i as int] == tags@[i as int]@);
            let ghost before = out@;
            out.push(VersionChoice { tag: tags[i].clone(), installed, latest });
            assert forall|q: int| 0 <= q < i + 1 implies choice_view(#[trigger] out@[q]) == (
                tv[q],
                is_installed(versions_view(self.installed@), tv[q], slug@),
                is_latest(rs, tv[q]),
            ) by {
                if q < i {
                    assert(out@[q] == before[q]);
                }
            }
        }
        assert(out@.map_values(|c: VersionChoice| choice_view(c)) =~= version_choices(*self, slug@));
        out
    }

    /// The tag a game's row acts on: the user's pick if any, otherwise the
    /// first entry of its version picker.
    pub fn effective_tag_for(&self, slug: &str) -> (r: Option<String>)
        ensures
            crate::text::opt_view(r) == effective_tag(*self, slug@),
    {
        match self.selected_tags.get(slug) {
            Some(t) => Some(t.clone()),
            None => {
                let versions = self.versions_for_game(slug);
                assert(versions@.map_values(|c: VersionChoice| choice_view(c)).len() == version_tags(
                    *self,
                    slug@,
                ).len());
                if versions.len() > 0 {
                    assert(choice_view(versions@[0]) == version_choices(*self, slug@)[0]);
                    assert(version_choices(*self, slug@)[0].0 == version_tags(*self, slug@)[0]);
                    Some(versions[0].tag.clone())
                } else {
                    assert(version_choices(*self, slug@).len() == 0);
                    None
                }
            },
        }
    }

    /// The install state of the version a game's row acts on.
    pub fn install_state_for_game(&self, slug: &str) -> (r: Option<InstallState>)
        ensures
            r == match effective_tag(*self, slug@) {
                Some(t) => if self.install_states@.contains_key(t) {
                    Some(self.install_states@[t])
                } else {
                    None
                },
                None => None,
            },
    {
        match self.effective_tag_for(slug) {
            Some(tag) => match self.install_states.get(&tag) {
                Some(s) => Some(clone_state(s)),
                None => None,
            },
            None => None,
        }
    }
}

// ---------------------------------------------------------------------------
// Effects as plain values
// ---------------------------------------------------------------------------

/// An install request as plain values.
pub open spec fn request_view(r: InstallRequest) -> (
    GameId,
    (Seq<char>, Option<Seq<char>>, Option<Seq<char>>, Seq<crate::github::ReleaseAsset>),
    HostPlatform,
    Seq<char>,
    Seq<char>,
    Option<Seq<char>>,
    Seq<char>,
) {
    (
        r.game,
        release_view(r.release),
        r.platform,
        r.arch@,
        r.library_root@,
        crate::text::opt_view(r.destination_override),
        r.download_dir@,
    )
}

/// An effect as plain values.
pub enum EffectView {
    FetchReleases(Seq<char>, Seq<char>),
    Install(
        (
            GameId,
            (Seq<char>, Option<Seq<char>>, Option<Seq<char>>, Seq<crate::github::ReleaseAsset>),
            HostPlatform,
            Seq<char>,
            Seq<char>,
            Option<Seq<char>>,
            Seq<char>,
        ),
    ),
    SaveConfig(SaveContext, Option<(BannerKind, Seq<char>)>),
    DeleteRom(Seq<char>),
    ListRoms,
    Uninstall((Seq<char>, Seq<char>, Seq<char>)),
    Launch((Seq<char>, Seq<char>, Seq<char>), GameId),
    PlanClear(Seq<char>, GameId, Seq<char>),
    ClearCachedAssets(Seq<char>, GameId, Seq<char>),
    PickAndImportRom,
    AnnounceRateLimit(i64),
}

pub open spec fn effect_view(e: Effect) -> EffectView {
    match e {
        Effect::FetchReleases { game_slug, repo } => EffectView::FetchReleases(game_slug@, repo@),
        Effect::Install { request } => EffectView::Install(request_view(request)),
        Effect::SaveConfig { context, success } => EffectView::SaveConfig(
            context,
            match success {
                Some(b) => Some(banner_view(b)),
                None => None,
            },
        ),
        Effect::DeleteRom { filename } => EffectView::DeleteRom(filename@),
        Effect::ListRoms => EffectView::ListRoms,
        Effect::Uninstall { version } => EffectView::Uninstall(version_view(version)),
        Effect::Launch { version, game } => EffectView::Launch(version_view(version), game),
        Effect::PlanClear { tag, game, install_dir } => EffectView::PlanClear(tag@, game, install_dir@),
        Effect::ClearCachedAssets { tag, game, install_dir } => EffectView::ClearCachedAssets(
            tag@,
            game,
            install_dir@,
        ),
        Effect::PickAndImportRom => EffectView::PickAndImportRom,
        Effect::AnnounceRateLimit { reset_at } => EffectView::AnnounceRateLimit(reset_at),
    }
}

/// Effects as plain values, in order.
pub open spec fn effects_view(v: Seq<Effect>) -> Seq<EffectView> {
    v.map_values(|e: Effect| effect_view(e))
}

/// No effect.
pub open spec fn no_effects() -> Seq<EffectView> {
    Seq::empty()
}

/// `b` is `a` with one more banner.
pub open spec fn with_banner(a: App, b: App, kind: BannerKind, text: Seq<char>) -> bool {
    &&& b == App { banners: b.banners, ..a }
    &&& banners_view(b.banners@) == banners_view(a.banners@).push((kind, text))
}

/// Whether the gear menu is open for `slug`.
pub open spec fn gear_open_for(a: App, slug: Seq<char>) -> bool {
    a.gear_menu_open_for_game matches Some(g) && g@ == slug
}

/// The text of the banner shown when the versions setting is not a number
/// of at least the minimum.
pub open spec fn bad_versions_text() -> Seq<char> {
    "versions to show must be an integer >= "@ + decimal(MIN_VERSIONS_TO_SHOW as nat)
}

/// What submitting the versions setting does.
pub open spec fn versions_submit_spec(a: App, b: App, effects: Seq<EffectView>) -> bool {
    match parse_u32_spec(trimmed(a.versions_to_show_input@)) {
        Some(n) => if n >= MIN_VERSIONS_TO_SHOW {
            if a.config.versions_to_show != n {
                &&& b == App { config: Config { versions_to_show: n, ..a.config }, ..a }
                &&& effects == seq![
                    EffectView::SaveConfig(
                        SaveContext::Settings,
                        Some((BannerKind::Info, "versions to show set to "@ + decimal(n as nat))),
                    ),
                ]
            } else {
                b == a && effects == no_effects()
            }
        } else {
            versions_rejected(a, b) && effects == no_effects()
        },
        None => versions_rejected(a, b) && effects == no_effects(),
    }
}

/// A rejected versions setting: the input shows the setting again, and an
/// error banner says why.
pub open spec fn versions_rejected(a: App, b: App) -> bool {
    &&& b == App { versions_to_show_input: b.versions_to_show_input, banners: b.banners, ..a }
    &&& b.versions_to_show_input@ == decimal(a.config.versions_to_show as nat)
    &&& banners_view(b.banners@) == banners_view(a.banners@).push(
        (BannerKind::Error, bad_versions_text()),
    )
}

impl App {
    fn push_banner(&mut self, kind: BannerKind, text: String)
        ensures
            with_banner(*old(self), *final(self), kind, text@),
    {
        let b = match kind {
            BannerKind::RateLimited => Banner::RateLimited(text),
            BannerKind::Info => Banner::Info(text),
            BannerKind::Error => Banner::Error(text),
        };
        let ghost before = self.banners@;
        self.banners.push(b);
        assert(banners_view(self.banners@) =~= banners_view(before).push((kind, text@)));
    }

    fn on_tab_selected(&mut self, t: Tab) -> (effects: Vec<Effect>)
        ensures
            *final(self) == (App {
                tab: t,
                modal: Modal::Closed,
                gear_menu_open_for_game: None,
                ..*old(self)
            }),
            effects_view(effects@) == no_effects(),
    {
        self.tab = t;
        self.modal = Modal::Closed;
        self.gear_menu_open_for_game = None;
        let v: Vec<Effect> = Vec::new();
        assert(effects_view(v@) =~= no_effects());
        v
    }

    fn on_toggle_gear_menu(&mut self, slug: String)
        ensures
            *final(self) == (App {
                gear_menu_open_for_game: if gear_open_for(*old(self), slug@) {
                    None
                } else {
                    Some(slug)
                },
                ..*old(self)
            }),
    {
        let open = match &self.gear_menu_open_for_game {
            Some(g) => str_eq(g, &slug),
            None => false,
        };
        if open {
            self.gear_menu_open_for_game = None;
        } else {
            self.gear_menu_open_for_game = Some(slug);
        }
    }

    fn on_version_selected(&mut self, game_slug: String, tag: String)
        ensures
            *final(self) == (App {
                selected_tags: final(self).selected_tags,
                selected_game_slug: game_slug,
                ..*old(self)
            }),
            final(self).selected_tags@ == old(self).selected_tags@.insert(game_slug@, tag),
    {
        self.selected_tags.insert(game_slug.clone(), tag);
        self.selected_game_slug = game_slug;
    }

    fn on_versions_submit(&mut self) -> (effects: Vec<Effect>)
        ensures
            versions_submit_spec(*old(self), *final(self), effects_view(effects@)),
    {
        let trimmed_input = string_from_chars(&trim_chars(&self.versions_to_show_input));
        let mut effects: Vec<Effect> = Vec::new();
        match parse_u32(&trimmed_input) {
            Some(n) => {
                if n >= MIN_VERSIONS_TO_SHOW {
                    if self.config.versions_to_show != n {
                        self.config.versions_to_show = n;
                        let text = concat2("versions to show set to ", &u64_to_string(n as u64));
                        effects.push(
                            Effect::SaveConfig {
                                context: SaveContext::Settings,
                                success: Some(Banner::Info(text)),
                            },
                        );
                    }
                    assert(effects_view(effects@) =~= versions_submit_effects(*old(self)));
                    return effects;
                }
            },
            None => {},
        }
        self.versions_to_show_input = u64_to_string(self.config.versions_to_show as u64);
        let text = concat2(
            "versions to show must be an integer >= ",
            &u64_to_string(MIN_VERSIONS_TO_SHOW as u64),
        );
        self.push_banner(BannerKind::Error, text);
        assert(effects_view(effects@) =~= no_effects());
        effects
    }
}

/// The effects of an accepted versions setting.
pub open spec fn versions_submit_effects(a: App) -> Seq<EffectView> {
    match parse_u32_spec(trimmed(a.versions_to_show_input@)) {
        Some(n) => if n >= MIN_VERSIONS_TO_SHOW && a.config.versions_to_show != n {
            seq![
                EffectView::SaveConfig(
                    SaveContext::Settings,
                    Some((BannerKind::Info, "versions to show set to "@ + decimal(n as nat))),
                ),
            ]
        } else {
            no_effects()
        },
        None => no_effects(),
    }
}

// ---------------------------------------------------------------------------
// Releases, installs and progress
// ---------------------------------------------------------------------------

/// `m` with every tag of `tags` it lacks marked idle, in order.
pub open spec fn with_idle(m: Map<Seq<char>, InstallState>, tags: Seq<Seq<char>>) -> Map<
    Seq<char>,
    InstallState,
>
    decreases tags.len(),
{
    if tags.len() == 0 {
        m
    } else {
        let prev = with_idle(m, tags.drop_last());
        if prev.contains_key(tags.last()) {
            prev
        } else {
            prev.insert(tags.last(), InstallState::Idle)
        }
    }
}

/// Whether a fresh rate-limit status differs from the stored snapshot in
/// what is worth a disk write: the remaining count or the reset time, or
/// anything at all when there is no snapshot yet.
pub open spec fn snapshot_changed(prev: Option<RateLimitSnapshot>, rl: RateLimitStatus) -> bool {
    match prev {
        Some(p) => p.remaining != rl.remaining || p.reset_at_unix != rl.reset_at,
        None => rl.remaining is Some || rl.limit is Some || rl.reset_at is Some,
    }
}

/// The snapshot stored for a rate-limit status.
pub open spec fn snapshot_of(rl: RateLimitStatus) -> RateLimitSnapshot {
    RateLimitSnapshot { remaining: rl.remaining, limit: rl.limit, reset_at_unix: rl.reset_at }
}

/// What a successful listing of a game's releases does: unknown tags become
/// idle, the listing replaces the game's previous one, the rate limit is
/// taken over and, when it changed, written to the configuration.
pub open spec fn releases_loaded_spec(
    a: App,
    b: App,
    slug: Seq<char>,
    releases: Vec<Release>,
    rl: RateLimitStatus,
    effects: Seq<EffectView>,
) -> bool {
    &&& b == App {
        install_states: b.install_states,
        releases_by_game: b.releases_by_game,
        rate_limit: rl,
        config: b.config,
        ..a
    }
    &&& b.install_states@ == with_idle(a.install_states@, release_tags(releases@))
    &&& b.releases_by_game@ == a.releases_by_game@.insert(slug, releases)
    &&& if snapshot_changed(a.config.rate_limit_snapshot, rl) {
        &&& b.config == Config { rate_limit_snapshot: Some(snapshot_of(rl)), ..a.config }
        &&& effects == seq![EffectView::SaveConfig(SaveContext::RateLimitSnapshot, None)]
    } else {
        b.config == a.config && effects == no_effects()
    }
}

/// The banner of a failed listing: a rate-limit banner when the error says
/// so, an error banner otherwise.
pub open spec fn listing_failed_banner(e: Seq<char>) -> (BannerKind, Seq<char>) {
    if seq_contains(e, "rate limited"@) {
        (BannerKind::RateLimited, e)
    } else {
        (BannerKind::Error, "releases: "@ + e)
    }
}

/// The first position of `rs` whose tag is `tag`.
pub open spec fn find_release(rs: Seq<Release>, tag: Seq<char>) -> Option<int>
    decreases rs.len(),
{
    if rs.len() == 0 {
        None
    } else if rs[0].tag_name@ == tag {
        Some(0)
    } else {
        match find_release(rs.drop_first(), tag) {
            Some(k) => Some(k + 1),
            None => None,
        }
    }
}

/// The first position of `v` whose tag is `tag`.
pub open spec fn find_installed(v: Seq<(Seq<char>, Seq<char>, Seq<char>)>, tag: Seq<char>) -> Option<
    int,
>
    decreases v.len(),
{
    if v.len() == 0 {
        None
    } else if v[0].0 == tag {
        Some(0)
    } else {
        match find_installed(v.drop_first(), tag) {
            Some(k) => Some(k + 1),
            None => None,
        }
    }
}

/// The game an install of `slug` is made for: the registered game with that
/// slug, else the launcher's own game when the slug is its own.
pub open spec fn install_game(a: App, slug: Seq<char>) -> Option<GameId> {
    match crate::games::game_with_slug(slug) {
        Some(g) => Some(g),
        None => if a.game.spec_slug() == slug {
            Some(a.game)
        } else {
            None
        },
    }
}

/// Whether an install of `tag` is running or done already.
pub open spec fn busy_or_installed(a: App, tag: Seq<char>) -> bool {
    a.install_states@.contains_key(tag) && (a.install_states@[tag] is Installing
        || a.install_states@[tag] is Installed)
}

/// What asking to install `tag` of `slug` does: nothing when the tag is
/// installing or installed, or unknown, or of no known game; else the tag
/// starts installing, with no progress yet, and the install is requested.
pub open spec fn install_clicked_spec(
    a: App,
    b: App,
    slug: Seq<char>,
    tag: Seq<char>,
    effects: Seq<EffectView>,
) -> bool {
    if busy_or_installed(a, tag) {
        b == a && effects == no_effects()
    } else {
        match find_release(releases_of(a, slug), tag) {
            None => b == a && effects == no_effects(),
            Some(k) => match install_game(a, slug) {
                None => b == a && effects == no_effects(),
                Some(g) => {
                    &&& b == App {
                        install_states: b.install_states,
                        install_progress: b.install_progress,
                        ..a
                    }
                    &&& b.install_states@ == a.install_states@.insert(tag, InstallState::Installing)
                    &&& b.install_progress@ == a.install_progress@.insert(tag, None)
                    &&& effects == seq![
                        EffectView::Install(
                            (
                                g,
                                release_view(releases_of(a, slug)[k]),
                                a.platform,
                                a.arch@,
                                a.library_root@,
                                None,
                                a.download_dir@,
                            ),
                        ),
                    ]
                },
            },
        }
    }
}

proof fn lemma_find_release_at(rs: Seq<Release>, tag: Seq<char>, k: int)
    requires
        0 <= k < rs.len(),
        rs[k].tag_name@ == tag,
        forall|j: int| 0 <= j < k ==> (#[trigger] rs[j]).tag_name@ != tag,
    ensures
        find_release(rs, tag) == Some(k),
    decreases k,
{
    if k > 0 {
        assert(rs[0].tag_name@ != tag);
        assert forall|j: int| 0 <= j < k - 1 implies (#[trigger] rs.drop_first()[j]).tag_name@ != tag by {
            assert(rs.drop_first()[j] == rs[j + 1]);
        }
        lemma_find_release_at(rs.drop_first(), tag, k - 1);
    }
}

proof fn lemma_find_release_none(rs: Seq<Release>, tag: Seq<char>)
    requires
        forall|j: int| 0 <= j < rs.len() ==> (#[trigger] rs[j]).tag_name@ != tag,
    ensures
        find_release(rs, tag) is None,
    decreases rs.len(),
{
    if rs.len() > 0 {
        assert(rs[0].tag_name@ != tag);
        assert forall|j: int| 0 <= j < rs.len() - 1 implies (#[trigger] rs.drop_first()[j]).tag_name@ != tag by {
            assert(rs.drop_first()[j] == rs[j + 1]);
        }
        lemma_find_release_none(rs.drop_first(), tag);
    }
}

proof fn lemma_find_installed_at(v: Seq<(Seq<char>, Seq<char>, Seq<char>)>, tag: Seq<char>, k: int)
    requires
        0 <= k < v.len(),
        v[k].0 == tag,
        forall|j: int| 0 <= j < k ==> (#[trigger] v[j]).0 != tag,
    ensures
        find_installed(v, tag) == Some(k),
    decreases k,
{
    if k > 0 {
        assert(v[0].0 != tag);
        assert forall|j: int| 0 <= j < k - 1 implies (#[trigger] v.drop_first()[j]).0 != tag by {
            assert(v.drop_first()[j] == v[j + 1]);
        }
        lemma_find_installed_at(v.drop_first(), tag, k - 1);
    }
}

proof fn lemma_find_installed_none(v: Seq<(Seq<char>, Seq<char>, Seq<char>)>, tag: Seq<char>)
    requires
        forall|j: int| 0 <= j < v.len() ==> (#[trigger] v[j]).0 != tag,
    ensures
        find_installed(v, tag) is None,
    decreases v.len(),
{
    if v.len() > 0 {
        assert(v[0].0 != tag);
        assert forall|j: int| 0 <= j < v.len() - 1 implies (#[trigger] v.drop_first()[j]).0 != tag by {
            assert(v.drop_first()[j] == v[j + 1]);
        }
        lemma_find_installed_none(v.drop_first(), tag);
    }
}

fn same_u32(a: Option<u32>, b: Option<u32>) -> (r: bool)
    ensures
        r == (a == b),
{
    match (a, b) {
        (Some(x), Some(y)) => x == y,
        (None, None) => true,
        _ => false,
    }
}

fn same_i64(a: Option<i64>, b: Option<i64>) -> (r: bool)
    ensures
        r == (a == b),
{
    match (a, b) {
        (Some(x), Some(y)) => x == y,
        (None, None) => true,
        _ => false,
    }
}

proof fn lemma_find_release_views(r1: Seq<Release>, r2: Seq<Release>, tag: Seq<char>)
    requires
        releases_view(r1) == releases_view(r2),
    ensures
        find_release(r1, tag) == find_release(r2, tag),
        r1.len() == r2.len(),
    decreases r1.len(),
{
    assert(releases_view(r1).len() == r1.len());
    assert(releases_view(r2).len() == r2.len());
    if r1.len() > 0 {
        assert(releases_view(r1)[0] == releases_view(r2)[0]);
        assert(release_view(r1[0]).0 == release_view(r2[0]).0);
        assert(releases_view(r1.drop_first()) =~= releases_view(r1).drop_first());
        assert(releases_view(r2.drop_first()) =~= releases_view(r2).drop_first());
        lemma_find_release_views(r1.drop_first(), r2.drop_first(), tag);
    }
}

/// The position of the first release tagged `tag`.
fn release_position(releases: &Vec<Release>, tag: &str) -> (r: Option<usize>)
    ensures
        match r {
            Some(k) => find_release(releases@, tag@) == Some(k as int) && k < releases@.len(),
            None => find_release(releases@, tag@) is None,
        },
{
    let n = releases.len();
    for k in 0..n
        invariant
            n == releases@.len(),
            forall|j: int| 0 <= j < k ==> (#[trigger] releases@[j]).tag_name@ != tag@,
    {
        if str_eq(&releases[k].tag_name, tag) {
            proof {
                lemma_find_release_at(releases@, tag@, k as int);
            }
            return Some(k);
        }
    }
    proof {
        lemma_find_release_none(releases@, tag@);
    }
    None
}

impl App {
    /// The position of the first install of `tag`.
    fn installed_position(&self, tag: &str) -> (r: Option<usize>)
        ensures
            match r {
                Some(k) => find_installed(versions_view(self.installed@), tag@) == Some(k as int)
                    && k < self.installed@.len(),
                None => find_installed(versions_view(self.installed@), tag@) is None,
            },
    {
        let ghost iv = versions_view(self.installed@);
        let n = self.installed.len();
        for k in 0..n
            invariant
                n == self.installed@.len(),
                iv == versions_view(self.installed@),
                forall|j: int| 0 <= j < k ==> (#[trigger] iv[j]).0 != tag@,
        {
            if str_eq(&self.installed[k].tag, tag) {
                proof {
                    lemma_find_installed_at(iv, tag@, k as int);
                }
                return Some(k);
            }
        }
        proof {
            lemma_find_installed_none(iv, tag@);
        }
        None
    }

    fn on_releases_loaded(&mut self, game_slug: String, releases: Vec<Release>, rl: RateLimitStatus) -> (effects:
        Vec<Effect>)
        ensures
            releases_loaded_spec(*old(self), *final(self), game_slug@, releases, rl, effects_view(effects@)),
    {
        let ghost tags = release_tags(releases@);
        let ghost start = self.install_states@;
        let n = releases.len();
        proof {
            assert(tags.take(0) =~= Seq::<Seq<char>>::empty());
        }
        for i in 0..n
            invariant
                n == releases@.len(),
                tags == release_tags(releases@),
                start == old(self).install_states@,
                self.install_states@ == with_idle(start, tags.take(i as int)),
                *self == (App { install_states: self.install_states, ..*old(self) }),
        {
            proof {
                assert(tags.take(i + 1).drop_last() =~= tags.take(i as int));
                assert(tags.take(i + 1).last() == releases@[i as int].tag_name@);
            }
            if !self.install_states.contains_key(&releases[i].tag_name) {
                self.install_states.insert(releases[i].tag_name.clone(), InstallState::Idle);
            }
        }
        proof {
            assert(tags.take(n as int) =~= tags);
        }
        self.releases_by_game.insert(game_slug, releases);
        self.rate_limit = rl;
        let changed = match &self.config.rate_limit_snapshot {
            Some(prev) => !same_u32(prev.remaining, rl.remaining) || !same_i64(
                prev.reset_at_unix,
                rl.reset_at,
            ),
            None => rl.remaining.is_some() || rl.limit.is_some() || rl.reset_at.is_some(),
        };
        let mut effects: Vec<Effect> = Vec::new();
        if changed {
            self.config.rate_limit_snapshot = Some(
                RateLimitSnapshot {
                    remaining: rl.remaining,
                    limit: rl.limit,
                    reset_at_unix: rl.reset_at,
                },
            );
            effects.push(Effect::SaveConfig { context: SaveContext::RateLimitSnapshot, success: None });
            assert(effects_view(effects@) =~= seq![
                EffectView::SaveConfig(SaveContext::RateLimitSnapshot, None),
            ]);
        } else {
            assert(effects_view(effects@) =~= no_effects());
        }
        effects
    }

    fn on_releases_failed(&mut self, e: String)
        ensures
            with_banner(
                *old(self),
                *final(self),
                listing_failed_banner(e@).0,
                listing_failed_banner(e@).1,
            ),
    {
        if contains(&e, "rate limited") {
            self.push_banner(BannerKind::RateLimited, e);
        } else {
            let text = concat2("releases: ", &e);
            self.push_banner(BannerKind::Error, text);
        }
    }

    fn on_install_clicked(&mut self, game_slug: String, tag: String) -> (effects: Vec<Effect>)
        ensures
            install_clicked_spec(*old(self), *final(self), game_slug@, tag@, effects_view(effects@)),
    {
        let mut effects: Vec<Effect> = Vec::new();
        proof {
            assert(effects_view(effects@) =~= no_effects());
        }
        match self.install_states.get(&tag) {
            Some(InstallState::Installing) => {
                return effects;
            },
            Some(InstallState::Installed) => {
                return effects;
            },
            _ => {},
        }
        let releases = self.releases_for(&game_slug);
        let ghost rs = releases_of(*self, game_slug@);
        proof {
            lemma_find_release_views(releases@, rs, tag@);
        }
        let k = match release_position(&releases, &tag) {
            Some(k) => k,
            None => {
                return effects;
            },
        };
        let game = match game_for_slug(&game_slug) {
            Some(g) => g,
            None => {
                if str_eq(self.game.slug(), &game_slug) {
                    self.game
                } else {
                    return effects;
                }
            },
        };
        self.install_states.insert(tag.clone(), InstallState::Installing);
        self.install_progress.insert(tag, None);
        let release = crate::github::clone_release(&releases[k]);
        proof {
            assert(releases_view(releases@)[k as int] == releases_view(rs)[k as int]);
        }
        let request = InstallRequest {
            game,
            release,
            platform: self.platform,
            arch: self.arch.clone(),
            library_root: self.library_root.clone(),
            destination_override: None,
            download_dir: self.download_dir.clone(),
        };
        effects.push(Effect::Install { request });
        assert(effects_view(effects@) =~= seq![EffectView::Install(request_view(request))]);
        effects
    }
}

// ---------------------------------------------------------------------------
// Install results, uninstalling and launching
// ---------------------------------------------------------------------------

/// Whether `tag` is installing.
pub open spec fn installing(a: App, tag: Seq<char>) -> bool {
    a.install_states@.contains_key(tag) && a.install_states@[tag] is Installing
}

/// Whether some install carries `tag`.
pub open spec fn has_installed_tag(v: Seq<(Seq<char>, Seq<char>, Seq<char>)>, tag: Seq<char>) -> bool {
    exists|k: int| 0 <= k < v.len() && #[trigger] v[k].0 == tag
}

/// Whether the game of `tag` is running.
pub open spec fn running(obs: Observation, tag: Seq<char>) -> bool {
    strings_view(obs.running@).contains(tag)
}

/// What a finished install does: the tag is installed, its progress is
/// forgotten, and the install is listed unless one of its tag already is.
pub open spec fn install_succeeded_spec(a: App, b: App, tag: Seq<char>, version: InstalledVersion) -> bool {
    &&& b == App {
        install_states: b.install_states,
        install_progress: b.install_progress,
        installed: b.installed,
        ..a
    }
    &&& b.install_states@ == a.install_states@.insert(tag, InstallState::Installed)
    &&& b.install_progress@ == a.install_progress@.remove(tag)
    &&& b.installed@ == if has_installed_tag(versions_view(a.installed@), version.tag@) {
        a.installed@
    } else {
        a.installed@.push(version)
    }
}

/// What a failed install does: the tag records the failure, its progress is
/// forgotten, and an error banner says what failed.
pub open spec fn install_failed_spec(a: App, b: App, tag: Seq<char>, e: String) -> bool {
    &&& b == App {
        install_states: b.install_states,
        install_progress: b.install_progress,
        banners: b.banners,
        ..a
    }
    &&& b.install_states@ == a.install_states@.insert(tag, InstallState::Failed(e))
    &&& b.install_progress@ == a.install_progress@.remove(tag)
    &&& banners_view(b.banners@) == banners_view(a.banners@).push(
        (BannerKind::Error, "install "@ + tag + " failed: "@ + e@),
    )
}

/// What asking to uninstall `tag` does: the dialog closes; a running game
/// is not uninstalled (an info banner says so); otherwise the first install
/// of the tag leaves the list and its removal is requested, and the tag
/// becomes idle.
pub open spec fn uninstall_spec(a: App, b: App, tag: Seq<char>, obs: Observation, effects: Seq<EffectView>) -> bool {
    let a1 = App { modal: Modal::Closed, ..a };
    if running(obs, tag) {
        with_banner(a1, b, BannerKind::Info, "cannot uninstall "@ + tag + ": still running"@)
            && effects == no_effects()
    } else {
        &&& b == App { installed: b.installed, install_states: b.install_states, ..a1 }
        &&& b.install_states@ == a.install_states@.insert(tag, InstallState::Idle)
        &&& match find_installed(versions_view(a.installed@), tag) {
            Some(k) => b.installed@ == a.installed@.remove(k) && effects == seq![
                EffectView::Uninstall(version_view(a.installed@[k])),
            ],
            None => b.installed@ == a.installed@ && effects == no_effects(),
        }
    }
}

/// What asking to launch `tag` does: nothing while it runs or when it is
/// not installed; otherwise the launch of its first install is requested,
/// with the game its slug names (the launcher's own game for an unknown
/// slug).
pub open spec fn launch_spec(a: App, b: App, tag: Seq<char>, obs: Observation, effects: Seq<EffectView>) -> bool {
    &&& b == a
    &&& if running(obs, tag) {
        effects == no_effects()
    } else {
        match find_installed(versions_view(a.installed@), tag) {
            Some(k) => effects == seq![
                EffectView::Launch(
                    version_view(a.installed@[k]),
                    match crate::games::game_with_slug(a.installed@[k].game_slug@) {
                        Some(g) => g,
                        None => a.game,
                    },
                ),
            ],
            None => effects == no_effects(),
        }
    }
}

/// Whether the last launch recorded is `(game_slug, tag)`.
pub open spec fn last_launched_is(l: Option<LastLaunched>, game_slug: Seq<char>, tag: Seq<char>) -> bool {
    l matches Some(x) && x.game_slug@ == game_slug && x.tag@ == tag
}

/// What a successful launch does: it is remembered as the last launch, and
/// the configuration written, unless it was the last launch already.
pub open spec fn launched_spec(a: App, b: App, game_slug: String, tag: String, effects: Seq<EffectView>) -> bool {
    if last_launched_is(a.config.last_launched, game_slug@, tag@) {
        b == a && effects == no_effects()
    } else {
        &&& b == App {
            config: Config { last_launched: Some(LastLaunched { game_slug, tag }), ..a.config },
            ..a
        }
        &&& effects == seq![EffectView::SaveConfig(SaveContext::Settings, None)]
    }
}

/// Whether some install of `v` carries `tag`.
fn installed_has_tag(v: &Vec<InstalledVersion>, tag: &str) -> (r: bool)
    ensures
        r == has_installed_tag(versions_view(v@), tag@),
{
    let ghost iv = versions_view(v@);
    let n = v.len();
    for k in 0..n
        invariant
            n == v@.len(),
            iv == versions_view(v@),
            forall|j: int| 0 <= j < k ==> (#[trigger] iv[j]).0 != tag@,
    {
        if str_eq(&v[k].tag, tag) {
            assert(iv[k as int].0 == tag@);
            return true;
        }
    }
    false
}

impl App {
    fn is_running(obs: &Observation, tag: &str) -> (r: bool)
        ensures
            r == running(*obs, tag@),
    {
        let n = obs.running.len();
        for k in 0..n
            invariant
                n == obs.running@.len(),
                forall|j: int| 0 <= j < k ==> (#[trigger] obs.running@[j])@ != tag@,
        {
            if str_eq(&obs.running[k], tag) {
                assert(strings_view(obs.running@)[k as int] == tag@);
                return true;
            }
        }
        proof {
            if strings_view(obs.running@).contains(tag@) {
                let j = choose|j: int|
                    0 <= j < strings_view(obs.running@).len() && strings_view(obs.running@)[j] == tag@;
                assert(obs.running@[j]@ == tag@);
            }
        }
        false
    }

    fn on_install_progress(&mut self, tag: String, pct: Option<u8>)
        ensures
            if installing(*old(self), tag@) {
                &&& *final(self) == (App { install_progress: final(self).install_progress, ..*old(self) })
                &&& final(self).install_progress@ == old(self).install_progress@.insert(tag@, pct)
            } else {
                *final(self) == *old(self)
            },
    {
        let is_installing = match self.install_states.get(&tag) {
            Some(InstallState::Installing) => true,
            _ => false,
        };
        if is_installing {
            self.install_progress.insert(tag, pct);
        }
    }

    fn on_install_succeeded(&mut self, tag: String, version: InstalledVersion)
        ensures
            install_succeeded_spec(*old(self), *final(self), tag@, version),
    {
        let known = installed_has_tag(&self.installed, &version.tag);
        self.install_states.insert(tag.clone(), InstallState::Installed);
        self.install_progress.remove(&tag);
        if !known {
            self.installed.push(version);
        }
    }

    fn on_install_failed(&mut self, tag: String, e: String)
        ensures
            install_failed_spec(*old(self), *final(self), tag@, e),
    {
        self.install_states.insert(tag.clone(), InstallState::Failed(e.clone()));
        self.install_progress.remove(&tag);
        let mut text = concat3("install ", &tag, " failed: ");
        push_str(&mut text, &e);
        self.push_banner(BannerKind::Error, text);
    }

    fn on_uninstall_clicked(&mut self, tag: String, obs: &Observation) -> (effects: Vec<Effect>)
        ensures
            uninstall_spec(*old(self), *final(self), tag@, *obs, effects_view(effects@)),
    {
        self.modal = Modal::Closed;
        let mut effects: Vec<Effect> = Vec::new();
        if App::is_running(obs, &tag) {
            let text = concat3("cannot uninstall ", &tag, ": still running");
            self.push_banner(BannerKind::Info, text);
            assert(effects_view(effects@) =~= no_effects());
            return effects;
        }
        match self.installed_position(&tag) {
            Some(k) => {
                let v = self.installed.remove(k);
                effects.push(Effect::Uninstall { version: v });
                assert(effects_view(effects@) =~= seq![EffectView::Uninstall(version_view(v))]);
            },
            None => {
                assert(effects_view(effects@) =~= no_effects());
            },
        }
        self.install_states.insert(tag, InstallState::Idle);
        effects
    }

    fn on_uninstall_finished(&mut self, tag: String, result: Result<(), String>)
        ensures
            match result {
                Ok(()) => *final(self) == *old(self),
                Err(e) => with_banner(
                    *old(self),
                    *final(self),
                    BannerKind::Error,
                    "uninstall "@ + tag@ + ": "@ + e@,
                ),
            },
    {
        match result {
            Ok(()) => {},
            Err(e) => {
                let mut text = concat3("uninstall ", &tag, ": ");
                push_str(&mut text, &e);
                self.push_banner(BannerKind::Error, text);
            },
        }
    }

    fn on_launch_clicked(&self, tag: &str, obs: &Observation) -> (effects: Vec<Effect>)
        ensures
            launch_spec(*self, *self, tag@, *obs, effects_view(effects@)),
    {
        let mut effects: Vec<Effect> = Vec::new();
        if App::is_running(obs, tag) {
            assert(effects_view(effects@) =~= no_effects());
            return effects;
        }
        match self.installed_position(tag) {
            Some(k) => {
                let version = clone_version(&self.installed[k]);
                let game = match game_for_slug(&version.game_slug) {
                    Some(g) => g,
                    None => self.game,
                };
                effects.push(Effect::Launch { version, game });
                assert(effects_view(effects@) =~= seq![
                    EffectView::Launch(version_view(self.installed@[k as int]), game),
                ]);
            },
            None => {
                assert(effects_view(effects@) =~= no_effects());
            },
        }
        effects
    }

    fn on_launched(&mut self, game_slug: String, tag: String) -> (effects: Vec<Effect>)
        ensures
            launched_spec(*old(self), *final(self), game_slug, tag, effects_view(effects@)),
    {
        let mut effects: Vec<Effect> = Vec::new();
        let same = match &self.config.last_launched {
            Some(l) => str_eq(&l.game_slug, &game_slug) && str_eq(&l.tag, &tag),
            None => false,
        };
        if same {
            assert(effects_view(effects@) =~= no_effects());
            return effects;
        }
        self.config.last_launched = Some(LastLaunched { game_slug, tag });
        effects.push(Effect::SaveConfig { context: SaveContext::Settings, success: None });
        assert(effects_view(effects@) =~= seq![EffectView::SaveConfig(SaveContext::Settings, None)]);
        effects
    }
}

// ---------------------------------------------------------------------------
// Cached assets, ROMs and settings
// ---------------------------------------------------------------------------

/// The install of `tag` and its game, when both are known.
pub open spec fn install_and_game(a: App, tag: Seq<char>) -> Option<(InstalledVersion, GameId)> {
    match find_installed(versions_view(a.installed@), tag) {
        Some(k) => match crate::games::game_with_slug(a.installed@[k].game_slug@) {
            Some(g) => Some((a.installed@[k], g)),
            None => None,
        },
        None => None,
    }
}

/// What asking to clear the cached assets of `tag` does: its install is
/// looked at, when the install and its game are known.
pub open spec fn clear_clicked_spec(a: App, b: App, tag: Seq<char>, effects: Seq<EffectView>) -> bool {
    &&& b == a
    &&& effects == match install_and_game(a, tag) {
        Some((v, g)) => seq![EffectView::PlanClear(tag, g, v.path@)],
        None => no_effects(),
    }
}

/// What confirming a clear does: the dialog closes and the clear is
/// requested, when the install and its game are known.
pub open spec fn clear_confirm_spec(a: App, b: App, tag: Seq<char>, effects: Seq<EffectView>) -> bool {
    &&& b == App { modal: Modal::Closed, ..a }
    &&& effects == match install_and_game(a, tag) {
        Some((v, g)) => seq![EffectView::ClearCachedAssets(tag, g, v.path@)],
        None => no_effects(),
    }
}

/// The banners of a finished clear: how many files went, then one error
/// per file that could not go.
pub open spec fn cleared_banners(tag: Seq<char>, deleted: usize, failures: Seq<(String, String)>) -> Seq<
    (BannerKind, Seq<char>),
> {
    seq![(BannerKind::Info, tag + ": cleared "@ + decimal(deleted as nat) + " cached file(s)"@)]
        + failures.map_values(
        |f: (String, String)| (BannerKind::Error, "clear "@ + f.0@ + ": "@ + f.1@),
    )
}

/// The text of the banner shown when the rate limit blocks a refresh.
pub open spec fn rate_limit_notice_text(clock: Seq<char>) -> Seq<char> {
    "GitHub rate limit reached. Try again at "@ + clock + "."@
}

/// What asking to refresh a game's releases does: the gear menu closes;
/// while the rate limit is used up and not reset yet, the reset time is
/// announced; otherwise the releases of the game are listed.
pub open spec fn refresh_spec(a: App, b: App, slug: Seq<char>, obs: Observation, effects: Seq<EffectView>) -> bool {
    &&& b == App { gear_menu_open_for_game: None, ..a }
    &&& if a.rate_limit.remaining == Some(0u32) && (a.rate_limit.reset_at matches Some(r) && r
        > obs.now_unix) {
        effects == seq![EffectView::AnnounceRateLimit(a.rate_limit.reset_at->0)]
    } else {
        effects == match crate::games::game_with_slug(slug) {
            Some(g) => seq![EffectView::FetchReleases(slug, g.spec_repo_slug())],
            None => no_effects(),
        }
    }
}

/// What confirming a ROM deletion does: every slot assignment of the file
/// is cleared (and the configuration written when there was one), the
/// dialog closes, and the file's deletion is requested.
pub open spec fn delete_rom_confirm_spec(a: App, b: App, filename: Seq<char>, effects: Seq<EffectView>) -> bool {
    let cleared = crate::config::schema::keys_referencing(a.config.slot_assignments@, filename);
    &&& b == App { config: b.config, modal: Modal::Closed, ..a }
    &&& b.config.slot_assignments@ == a.config.slot_assignments@.remove_keys(cleared)
    &&& crate::config::schema::same_but_assignments(b.config, a.config)
    &&& effects == if cleared.len() > 0 {
        seq![EffectView::SaveConfig(SaveContext::Settings, None), EffectView::DeleteRom(filename)]
    } else {
        seq![EffectView::DeleteRom(filename)]
    }
}

/// What the outcome of a configuration write does.
pub open spec fn config_saved_spec(
    a: App,
    b: App,
    context: SaveContext,
    success: Option<Banner>,
    result: Result<(), String>,
) -> bool {
    match result {
        Ok(()) => match success {
            Some(s) => with_banner(a, b, banner_view(s).0, banner_view(s).1),
            None => b == a,
        },
        Err(e) => with_banner(
            a,
            b,
            BannerKind::Error,
            match context {
                SaveContext::Settings => "save config: "@ + e@,
                SaveContext::RateLimitSnapshot => "save rate-limit snapshot: "@ + e@,
            },
        ),
    }
}

impl App {
    fn on_clear_clicked(&self, tag: &str) -> (effects: Vec<Effect>)
        ensures
            clear_clicked_spec(*self, *self, tag@, effects_view(effects@)),
    {
        let mut effects: Vec<Effect> = Vec::new();
        match self.installed_position(tag) {
            Some(k) => match game_for_slug(&self.installed[k].game_slug) {
                Some(game) => {
                    effects.push(
                        Effect::PlanClear {
                            tag: owned(tag),
                            game,
                            install_dir: self.installed[k].path.clone(),
                        },
                    );
                    assert(effects_view(effects@) =~= seq![
                        EffectView::PlanClear(tag@, game, self.installed@[k as int].path@),
                    ]);
                },
                None => {
                    assert(effects_view(effects@) =~= no_effects());
                },
            },
            None => {
                assert(effects_view(effects@) =~= no_effects());
            },
        }
        effects
    }

    fn on_clear_planned(&mut self, tag: String, game_slug: String, planned: Vec<PlannedClear>)
        ensures
            if planned@.len() == 0 {
                with_banner(*old(self), *final(self), BannerKind::Info, tag@ + ": no cached assets to clear"@)
            } else {
                *final(self) == (App {
                    modal: Modal::ClearCachedConfirm { tag, game_slug, planned },
                    ..*old(self)
                })
            },
    {
        if planned.len() == 0 {
            let text = concat2(&tag, ": no cached assets to clear");
            self.push_banner(BannerKind::Info, text);
        } else {
            self.modal = Modal::ClearCachedConfirm { tag, game_slug, planned };
        }
    }

    fn on_clear_confirm(&mut self, tag: &str) -> (effects: Vec<Effect>)
        ensures
            clear_confirm_spec(*old(self), *final(self), tag@, effects_view(effects@)),
    {
        self.modal = Modal::Closed;
        let mut effects: Vec<Effect> = Vec::new();
        match self.installed_position(tag) {
            Some(k) => match game_for_slug(&self.installed[k].game_slug) {
                Some(game) => {
                    effects.push(
                        Effect::ClearCachedAssets {
                            tag: owned(tag),
                            game,
                            install_dir: self.installed[k].path.clone(),
                        },
                    );
                    assert(effects_view(effects@) =~= seq![
                        EffectView::ClearCachedAssets(tag@, game, self.installed@[k as int].path@),
                    ]);
                },
                None => {
                    assert(effects_view(effects@) =~= no_effects());
                },
            },
            None => {
                assert(effects_view(effects@) =~= no_effects());
            },
        }
        effects
    }

    fn on_cached_assets_cleared(&mut self, tag: String, deleted: usize, failures: Vec<(String, String)>)
        ensures
            *final(self) == (App { banners: final(self).banners, ..*old(self) }),
            banners_view(final(self).banners@) == banners_view(old(self).banners@) + cleared_banners(
                tag@,
                deleted,
                failures@,
            ),
    {
        let mut text = concat2(&tag, ": cleared ");
        push_str(&mut text, &u64_to_string(deleted as u64));
        push_str(&mut text, " cached file(s)");
        self.push_banner(BannerKind::Info, text);
        let ghost base = banners_view(self.banners@);
        let ghost fv = failures@.map_values(
            |f: (String, String)| (BannerKind::Error, "clear "@ + f.0@ + ": "@ + f.1@),
        );
        let n = failures.len();
        proof {
            assert(base + fv.take(0) =~= base);
        }
        for i in 0..n
            invariant
                n == failures@.len(),
                fv == failures@.map_values(
                    |f: (String, String)| (BannerKind::Error, "clear "@ + f.0@ + ": "@ + f.1@),
                ),
                banners_view(self.banners@) == base + fv.take(i as int),
                *self == (App { banners: self.banners, ..*old(self) }),
        {
            let mut line = concat3("clear ", &failures[i].0, ": ");
            push_str(&mut line, &failures[i].1);
            self.push_banner(BannerKind::Error, line);
            assert(base + fv.take(i + 1) =~= (base + fv.take(i as int)).push(fv[i as int]));
        }
        assert(fv.take(n as int) =~= fv);
        assert(base + fv =~= banners_view(old(self).banners@) + cleared_banners(tag@, deleted, failures@));
    }

    fn on_delete_rom_confirm(&mut self, filename: String) -> (effects: Vec<Effect>)
        ensures
            delete_rom_confirm_spec(*old(self), *final(self), filename@, effects_view(effects@)),
    {
        let cleared = self.config.clear_assignments_referencing(&filename);
        let mut effects: Vec<Effect> = Vec::new();
        if cleared > 0 {
            effects.push(Effect::SaveConfig { context: SaveContext::Settings, success: None });
            assert(effects_view(effects@) =~= seq![EffectView::SaveConfig(SaveContext::Settings, None)]);
        } else {
            assert(effects_view(effects@) =~= no_effects());
        }
        let ghost before = effects_view(effects@);
        effects.push(Effect::DeleteRom { filename });
        assert(effects_view(effects@) =~= before.push(EffectView::DeleteRom(filename@)));
        self.modal = Modal::Closed;
        assert((cleared > 0) == (crate::config::schema::keys_referencing(old(self).config.slot_assignments@, filename@).len() > 0));
        if cleared > 0 {
            assert(effects_view(effects@) =~= seq![EffectView::SaveConfig(SaveContext::Settings, None), EffectView::DeleteRom(filename@)]);
        } else {
            assert(effects_view(effects@) =~= seq![EffectView::DeleteRom(filename@)]);
        }
        effects
    }

    fn on_rom_deleted(&mut self, filename: String, result: Result<(), String>) -> (effects: Vec<Effect>)
        ensures
            match result {
                Ok(()) => with_banner(*old(self), *final(self), BannerKind::Info, "deleted "@ + filename@)
                    && effects_view(effects@) == seq![EffectView::ListRoms],
                Err(e) => with_banner(
                    *old(self),
                    *final(self),
                    BannerKind::Error,
                    "delete "@ + filename@ + ": "@ + e@,
                ) && effects_view(effects@) == no_effects(),
            },
    {
        let mut effects: Vec<Effect> = Vec::new();
        match result {
            Ok(()) => {
                self.push_banner(BannerKind::Info, concat2("deleted ", &filename));
                effects.push(Effect::ListRoms);
                assert(effects_view(effects@) =~= seq![EffectView::ListRoms]);
            },
            Err(e) => {
                let mut text = concat3("delete ", &filename, ": ");
                push_str(&mut text, &e);
                self.push_banner(BannerKind::Error, text);
                assert(effects_view(effects@) =~= no_effects());
            },
        }
        effects
    }

    fn on_rom_imported(&mut self, result: Result<RomEntry, String>) -> (effects: Vec<Effect>)
        ensures
            match result {
                Ok(entry) => with_banner(
                    *old(self),
                    *final(self),
                    BannerKind::Info,
                    "imported "@ + entry.filename@,
                ) && effects_view(effects@) == seq![EffectView::ListRoms],
                Err(e) => effects_view(effects@) == no_effects() && if e@ == "import cancelled"@ {
                    *final(self) == *old(self)
                } else {
                    with_banner(*old(self), *final(self), BannerKind::Error, "import rom: "@ + e@)
                },
            },
    {
        let mut effects: Vec<Effect> = Vec::new();
        match result {
            Ok(entry) => {
                self.push_banner(BannerKind::Info, concat2("imported ", &entry.filename));
                effects.push(Effect::ListRoms);
                assert(effects_view(effects@) =~= seq![EffectView::ListRoms]);
            },
            Err(e) => {
                if !str_eq(&e, "import cancelled") {
                    self.push_banner(BannerKind::Error, concat2("import rom: ", &e));
                }
                assert(effects_view(effects@) =~= no_effects());
            },
        }
        effects
    }

    fn on_assign_slot(&mut self, game_slug: String, slot_id: String, filename: Option<String>) -> (effects:
        Vec<Effect>)
        ensures
            *final(self) == (App { config: final(self).config, ..*old(self) }),
            final(self).config.slot_assignments@ == crate::config::schema::assignment_update(
                old(self).config.slot_assignments@,
                game_slug@,
                slot_id@,
                crate::text::opt_view(filename),
            ),
            crate::config::schema::same_but_assignments(final(self).config, old(self).config),
            effects_view(effects@) == seq![EffectView::SaveConfig(SaveContext::Settings, None)],
    {
        self.config.set_assignment(&game_slug, &slot_id, filename);
        let mut effects: Vec<Effect> = Vec::new();
        effects.push(Effect::SaveConfig { context: SaveContext::Settings, success: None });
        assert(effects_view(effects@) =~= seq![EffectView::SaveConfig(SaveContext::Settings, None)]);
        effects
    }

    fn on_save_settings(&mut self) -> (effects: Vec<Effect>)
        ensures
            *final(self) == (App { config: final(self).config, ..*old(self) }),
            final(self).config == (Config { library_root: final(self).config.library_root, ..old(self).config }),
            final(self).config.library_root matches Some(p) && p@ == old(self).library_root_input@,
            effects_view(effects@) == seq![
                EffectView::SaveConfig(SaveContext::Settings, Some((BannerKind::Info, "settings saved"@))),
            ],
    {
        self.config.library_root = Some(self.library_root_input.clone());
        let mut effects: Vec<Effect> = Vec::new();
        effects.push(
            Effect::SaveConfig {
                context: SaveContext::Settings,
                success: Some(Banner::Info(owned("settings saved"))),
            },
        );
        assert(effects_view(effects@) =~= seq![
            EffectView::SaveConfig(SaveContext::Settings, Some((BannerKind::Info, "settings saved"@))),
        ]);
        effects
    }

    fn on_config_saved(&mut self, context: SaveContext, success: Option<Banner>, result: Result<(), String>)
        ensures
            config_saved_spec(*old(self), *final(self), context, success, result),
    {
        match result {
            Ok(()) => match success {
                Some(b) => {
                    let ghost before = self.banners@;
                    let ghost bv = banner_view(b);
                    self.banners.push(b);
                    assert(banners_view(self.banners@) =~= banners_view(before).push(bv));
                },
                None => {},
            },
            Err(e) => {
                let text = match context {
                    SaveContext::Settings => concat2("save config: ", &e),
                    SaveContext::RateLimitSnapshot => concat2("save rate-limit snapshot: ", &e),
                };
                self.push_banner(BannerKind::Error, text);
            },
        }
    }

    fn on_manual_refresh(&mut self, slug: String, obs: &Observation) -> (effects: Vec<Effect>)
        ensures
            refresh_spec(*old(self), *final(self), slug@, *obs, effects_view(effects@)),
    {
        self.gear_menu_open_for_game = None;
        let mut effects: Vec<Effect> = Vec::new();
        match (self.rate_limit.remaining, self.rate_limit.reset_at) {
            (Some(remaining), Some(reset)) => {
                if remaining == 0 && reset > obs.now_unix {
                    effects.push(Effect::AnnounceRateLimit { reset_at: reset });
                    assert(effects_view(effects@) =~= seq![EffectView::AnnounceRateLimit(reset)]);
                    return effects;
                }
            },
            _ => {},
        }
        match game_for_slug(&slug) {
            Some(g) => {
                let repo = owned(g.repo_slug());
                effects.push(Effect::FetchReleases { game_slug: slug, repo });
                assert(effects_view(effects@) =~= seq![
                    EffectView::FetchReleases(slug@, g.spec_repo_slug()),
                ]);
            },
            None => {
                assert(effects_view(effects@) =~= no_effects());
            },
        }
        effects
    }
}

// ---------------------------------------------------------------------------
// The row actions of the library view
// ---------------------------------------------------------------------------

/// The picked tags as text.
pub open spec fn tags_view(m: Map<Seq<char>, String>) -> Map<Seq<char>, Seq<char>> {
    m.map_values(|s: String| s@)
}

/// What the "uninstall" entry of a game's gear menu does: the menu closes,
/// and for an installed row version the uninstall dialog opens.
pub open spec fn uninstall_selected_spec(a: App, b: App, slug: Seq<char>) -> bool {
    let a1 = App { gear_menu_open_for_game: None, ..a };
    match effective_tag(a, slug) {
        Some(t) => if is_installed(versions_view(a.installed@), t, slug) {
            &&& b == App { modal: b.modal, ..a1 }
            &&& b.modal matches Modal::UninstallConfirm { tag } && tag@ == t
        } else {
            b == a1
        },
        None => b == a1,
    }
}

/// What the "clear cache" entry of a game's gear menu does: the menu closes,
/// and the row version's cached assets are looked at.
pub open spec fn clear_selected_spec(a: App, b: App, slug: Seq<char>, effects: Seq<EffectView>) -> bool {
    let a1 = App { gear_menu_open_for_game: None, ..a };
    match effective_tag(a, slug) {
        Some(t) => clear_clicked_spec(a1, b, t, effects),
        None => b == a1 && effects == no_effects(),
    }
}

/// What a row's primary button does: the gear menu closes; the row's
/// version becomes the selected one, and is launched when installed and
/// installed otherwise.
pub open spec fn primary_spec(a: App, b: App, slug: String, obs: Observation, effects: Seq<EffectView>) -> bool {
    let a1 = App { gear_menu_open_for_game: None, ..a };
    match effective_tag(a, slug@) {
        None => b == a1 && effects == no_effects(),
        Some(t) => exists|a2: App|
            #![trigger a2.selected_tags]
            {
                &&& a2 == App { selected_game_slug: slug, selected_tags: a2.selected_tags, ..a1 }
                &&& tags_view(a2.selected_tags@) == tags_view(a.selected_tags@).insert(slug@, t)
                &&& if is_installed(versions_view(a.installed@), t, slug@) {
                    launch_spec(a2, b, t, obs, effects)
                } else {
                    install_clicked_spec(a2, b, slug@, t, effects)
                }
            },
    }
}

impl App {
    fn on_uninstall_selected(&mut self, slug: &str)
        ensures
            uninstall_selected_spec(*old(self), *final(self), slug@),
    {
        self.gear_menu_open_for_game = None;
        match self.effective_tag_for(slug) {
            Some(tag) => {
                if self.is_installed(&tag, slug) {
                    self.modal = Modal::UninstallConfirm { tag };
                }
            },
            None => {},
        }
    }

    fn on_clear_selected(&mut self, slug: &str) -> (effects: Vec<Effect>)
        ensures
            clear_selected_spec(*old(self), *final(self), slug@, effects_view(effects@)),
    {
        self.gear_menu_open_for_game = None;
        match self.effective_tag_for(slug) {
            Some(tag) => self.on_clear_clicked(&tag),
            None => {
                let effects: Vec<Effect> = Vec::new();
                assert(effects_view(effects@) =~= no_effects());
                effects
            },
        }
    }

    fn on_primary_action(&mut self, slug: String, obs: &Observation) -> (effects: Vec<Effect>)
        ensures
            primary_spec(*old(self), *final(self), slug, *obs, effects_view(effects@)),
    {
        self.gear_menu_open_for_game = None;
        let ghost a = *old(self);
        let tag = match self.effective_tag_for(&slug) {
            Some(t) => t,
            None => {
                let effects: Vec<Effect> = Vec::new();
                assert(effects_view(effects@) =~= no_effects());
                return effects;
            },
        };
        proof {
            assert(effective_tag(*self, slug@) == effective_tag(a, slug@)) by {
                assert(version_tags(*self, slug@) == version_tags(a, slug@));
            }
        }
        self.selected_game_slug = slug.clone();
        self.selected_tags.insert(slug.clone(), tag.clone());
        let ghost a2 = *self;
        proof {
            assert(tags_view(a2.selected_tags@) =~= tags_view(a.selected_tags@).insert(slug@, tag@));
        }
        if self.is_installed(&tag, &slug) {
            let effects = self.on_launch_clicked(&tag, obs);
            assert(launch_spec(a2, *self, tag@, *obs, effects_view(effects@)));
            effects
        } else {
            let effects = self.on_install_clicked(slug, tag);
            effects
        }
    }
}

// ---------------------------------------------------------------------------
// The update function
// ---------------------------------------------------------------------------

/// What each message does to the state, and the effects it asks for.
pub open spec fn update_spec(a: App, b: App, msg: Message, obs: Observation, effects: Seq<EffectView>) -> bool {
    match msg {
        Message::TabSelected(t) => b == (App {
            tab: t,
            modal: Modal::Closed,
            gear_menu_open_for_game: None,
            ..a
        }) && effects == no_effects(),
        Message::ReleasesLoaded { game_slug, result } => match result {
            Ok(pair) => releases_loaded_spec(a, b, game_slug@, pair.0, pair.1, effects),
            Err(e) => with_banner(a, b, listing_failed_banner(e@).0, listing_failed_banner(e@).1)
                && effects == no_effects(),
        },
        Message::InstallClicked { game_slug, tag } => install_clicked_spec(a, b, game_slug@, tag@, effects),
        Message::InstallProgress(tag, pct) => effects == no_effects() && if installing(a, tag@) {
            &&& b == App { install_progress: b.install_progress, ..a }
            &&& b.install_progress@ == a.install_progress@.insert(tag@, pct)
        } else {
            b == a
        },
        Message::InstallFinished(tag, result) => effects == no_effects() && match result {
            Ok(version) => install_succeeded_spec(a, b, tag@, version),
            Err(e) => install_failed_spec(a, b, tag@, e),
        },
        Message::UninstallClicked(tag) => uninstall_spec(a, b, tag@, obs, effects),
        Message::LaunchClicked(tag) => launch_spec(a, b, tag@, obs, effects),
        Message::LibraryRootInputChanged(s) => b == (App { library_root_input: s, ..a })
            && effects == no_effects(),
        Message::SaveSettings => {
            &&& b == App { config: b.config, ..a }
            &&& b.config == Config { library_root: b.config.library_root, ..a.config }
            &&& b.config.library_root matches Some(p) && p@ == a.library_root_input@
            &&& effects == seq![
                EffectView::SaveConfig(SaveContext::Settings, Some((BannerKind::Info, "settings saved"@))),
            ]
        },
        Message::ClearCachedAssetsClicked(tag) => clear_clicked_spec(a, b, tag@, effects),
        Message::ClearCachedAssetsConfirm(tag) => clear_confirm_spec(a, b, tag@, effects),
        Message::ClearCachedAssetsCancel => b == (App { modal: Modal::Closed, ..a })
            && effects == no_effects(),
        Message::ImportRomClicked => b == a && effects == seq![EffectView::PickAndImportRom],
        Message::RomImported(result) => match result {
            Ok(entry) => with_banner(a, b, BannerKind::Info, "imported "@ + entry.filename@)
                && effects == seq![EffectView::ListRoms],
            Err(e) => effects == no_effects() && if e@ == "import cancelled"@ {
                b == a
            } else {
                with_banner(a, b, BannerKind::Error, "import rom: "@ + e@)
            },
        },
        Message::DeleteRomClicked(filename) => b == (App {
            modal: Modal::DeleteRomConfirm { filename },
            ..a
        }) && effects == no_effects(),
        Message::DeleteRomConfirm(filename) => delete_rom_confirm_spec(a, b, filename@, effects),
        Message::DeleteRomCancel => b == (App { modal: Modal::Closed, ..a }) && effects == no_effects(),
        Message::AssignSlotChanged { game_slug, slot_id, filename } => {
            &&& b == App { config: b.config, ..a }
            &&& b.config.slot_assignments@ == crate::config::schema::assignment_update(
                a.config.slot_assignments@,
                game_slug@,
                slot_id@,
                crate::text::opt_view(filename),
            )
            &&& crate::config::schema::same_but_assignments(b.config, a.config)
            &&& effects == seq![EffectView::SaveConfig(SaveContext::Settings, None)]
        },
        Message::VersionSelected { game_slug, tag } => {
            &&& b == App { selected_tags: b.selected_tags, selected_game_slug: game_slug, ..a }
            &&& b.selected_tags@ == a.selected_tags@.insert(game_slug@, tag)
            &&& effects == no_effects()
        },
        Message::PrimaryActionClicked(slug) => primary_spec(a, b, slug, obs, effects),
        Message::ToggleGearMenu(slug) => b == (App {
            gear_menu_open_for_game: if gear_open_for(a, slug@) {
                None
            } else {
                Some(slug)
            },
            ..a
        }) && effects == no_effects(),
        Message::DismissPopovers => b == (App { gear_menu_open_for_game: None, ..a })
            && effects == no_effects(),
        Message::ManualRefreshClicked(slug) => refresh_spec(a, b, slug@, obs, effects),
        Message::UninstallSelectedClicked(slug) => uninstall_selected_spec(a, b, slug@)
            && effects == no_effects(),
        Message::ClearCacheSelectedClicked(slug) => clear_selected_spec(a, b, slug@, effects),
        Message::ToggleImportedRomsExpander => b == (App {
            imported_roms_expanded: !a.imported_roms_expanded,
            ..a
        }) && effects == no_effects(),
        Message::VersionsToShowInputChanged(s) => b == (App { versions_to_show_input: s, ..a })
            && effects == no_effects(),
        Message::VersionsToShowSubmit => versions_submit_spec(a, b, effects),
        Message::ConfigSaved { context, success, result } => config_saved_spec(a, b, context, success, result)
            && effects == no_effects(),
        Message::ClearPlanned { tag, game_slug, planned } => effects == no_effects() && if planned@.len()
            == 0 {
            with_banner(a, b, BannerKind::Info, tag@ + ": no cached assets to clear"@)
        } else {
            b == (App { modal: Modal::ClearCachedConfirm { tag, game_slug, planned }, ..a })
        },
        Message::CachedAssetsCleared { tag, deleted, failures } => {
            &&& b == App { banners: b.banners, ..a }
            &&& banners_view(b.banners@) == banners_view(a.banners@) + cleared_banners(
                tag@,
                deleted,
                failures@,
            )
            &&& effects == no_effects()
        },
        Message::RomDeleted { filename, result } => match result {
            Ok(()) => with_banner(a, b, BannerKind::Info, "deleted "@ + filename@) && effects == seq![
                EffectView::ListRoms,
            ],
            Err(e) => with_banner(a, b, BannerKind::Error, "delete "@ + filename@ + ": "@ + e@)
                && effects == no_effects(),
        },
        Message::RomsListed(roms) => b == (App { roms, ..a }) && effects == no_effects(),
        Message::UninstallFinished { tag, result } => effects == no_effects() && match result {
            Ok(()) => b == a,
            Err(e) => with_banner(a, b, BannerKind::Error, "uninstall "@ + tag@ + ": "@ + e@),
        },
        Message::Launched { tag, game_slug, result } => match result {
            Ok(()) => launched_spec(a, b, game_slug, tag, effects),
            Err(e) => with_banner(a, b, BannerKind::Error, "launch "@ + tag@ + ": "@ + e@)
                && effects == no_effects(),
        },
        Message::RateLimitNotice { clock } => with_banner(
            a,
            b,
            BannerKind::RateLimited,
            rate_limit_notice_text(clock@),
        ) && effects == no_effects(),
    }
}

impl App {
    /// Applies one message; returns the effects for the caller to perform.
    pub fn update(&mut self, message: Message, obs: &Observation) -> (effects: Vec<Effect>)
        ensures
            update_spec(*old(self), *final(self), message, *obs, effects_view(effects@)),
    {
        let mut none: Vec<Effect> = Vec::new();
        assert(effects_view(none@) =~= no_effects());
        match message {
            Message::TabSelected(t) => self.on_tab_selected(t),
            Message::ReleasesLoaded { game_slug, result } => match result {
                Ok((releases, rl)) => self.on_releases_loaded(game_slug, releases, rl),
                Err(e) => {
                    self.on_releases_failed(e);
                    none
                },
            },
            Message::InstallClicked { game_slug, tag } => self.on_install_clicked(game_slug, tag),
            Message::InstallProgress(tag, pct) => {
                self.on_install_progress(tag, pct);
                none
            },
            Message::InstallFinished(tag, result) => {
                match result {
                    Ok(version) => self.on_install_succeeded(tag, version),
                    Err(e) => self.on_install_failed(tag, e),
                }
                none
            },
            Message::UninstallClicked(tag) => self.on_uninstall_clicked(tag, obs),
            Message::LaunchClicked(tag) => self.on_launch_clicked(&tag, obs),
            Message::LibraryRootInputChanged(s) => {
                self.library_root_input = s;
                none
            },
            Message::SaveSettings => self.on_save_settings(),
            Message::ClearCachedAssetsClicked(tag) => self.on_clear_clicked(&tag),
            Message::ClearCachedAssetsConfirm(tag) => self.on_clear_confirm(&tag),
            Message::ClearCachedAssetsCancel => {
                self.modal = Modal::Closed;
                none
            },
            Message::ImportRomClicked => {
                none.push(Effect::PickAndImportRom);
                assert(effects_view(none@) =~= seq![EffectView::PickAndImportRom]);
                none
            },
            Message::RomImported(result) => self.on_rom_imported(result),
            Message::DeleteRomClicked(filename) => {
                self.modal = Modal::DeleteRomConfirm { filename };
                none
            },
            Message::DeleteRomConfirm(filename) => self.on_delete_rom_confirm(filename),
            Message::DeleteRomCancel => {
                self.modal = Modal::Closed;
                none
            },
            Message::AssignSlotChanged { game_slug, slot_id, filename } => self.on_assign_slot(
                game_slug,
                slot_id,
                filename,
            ),
            Message::VersionSelected { game_slug, tag } => {
                self.on_version_selected(game_slug, tag);
                none
            },
            Message::PrimaryActionClicked(slug) => self.on_primary_action(slug, obs),
            Message::ToggleGearMenu(slug) => {
                self.on_toggle_gear_menu(slug);
                none
            },
            Message::DismissPopovers => {
                self.gear_menu_open_for_game = None;
                none
            },
            Message::ManualRefreshClicked(slug) => self.on_manual_refresh(slug, obs),
            Message::UninstallSelectedClicked(slug) => {
                self.on_uninstall_selected(&slug);
                none
            },
            Message::ClearCacheSelectedClicked(slug) => self.on_clear_selected(&slug),
            Message::ToggleImportedRomsExpander => {
                self.imported_roms_expanded = !self.imported_roms_expanded;
                none
            },
            Message::VersionsToShowInputChanged(s) => {
                self.versions_to_show_input = s;
                none
            },
            Message::VersionsToShowSubmit => self.on_versions_submit(),
            Message::ConfigSaved { context, success, result } => {
                self.on_config_saved(context, success, result);
                none
            },
            Message::ClearPlanned { tag, game_slug, planned } => {
                self.on_clear_planned(tag, game_slug, planned);
                none
            },
            Message::CachedAssetsCleared { tag, deleted, failures } => {
                self.on_cached_assets_cleared(tag, deleted, failures);
                none
            },
            Message::RomDeleted { filename, result } => self.on_rom_deleted(filename, result),
            Message::RomsListed(roms) => {
                self.roms = roms;
                none
            },
            Message::UninstallFinished { tag, result } => {
                self.on_uninstall_finished(tag, result);
                none
            },
            Message::Launched { tag, game_slug, result } => match result {
                Ok(()) => self.on_launched(game_slug, tag),
                Err(e) => {
                    let mut text = concat3("launch ", &tag, ": ");
                    push_str(&mut text, &e);
                    self.push_banner(BannerKind::Error, text);
                    none
                },
            },
            Message::RateLimitNotice { clock } => {
                let text = concat3("GitHub rate limit reached. Try again at ", &clock, ".");
                self.push_banner(BannerKind::RateLimited, text);
                none
            },
        }
    }
}

// ---------------------------------------------------------------------------
// Start-up
// ---------------------------------------------------------------------------

/// What the launcher starts from: the loaded configuration, where things
/// go, the game and platform, and what start-up found on disk.
#[derive(Debug)]
pub struct AppDeps {
    pub config: Config,
    pub library_root: String,
    pub download_dir: String,
    pub game: GameId,
    pub platform: HostPlatform,
    pub arch: String,
    /// The installs a scan of the library found.
    pub installed: Vec<InstalledVersion>,
    /// The ROM library as listed.
    pub roms: Vec<RomEntry>,
    pub startup_diagnostics: Vec<Diagnostic>,
}

/// The banner a start-up diagnostic shows.
pub open spec fn diagnostic_banner(d: Diagnostic) -> (BannerKind, Seq<char>) {
    match d {
        Diagnostic::ConfigParseError { backup, message } => (
            BannerKind::Error,
            "config parse error ("@ + message@ + "); backed up to "@ + backup@,
        ),
        Diagnostic::SchemaVersionMismatch { backup, found } => (
            BannerKind::Info,
            "unknown config schema version "@ + decimal(found as nat) + "; backed up to "@ + backup@,
        ),
        Diagnostic::RomMigrationSkipped { path } => (
            BannerKind::Info,
            "rom migration: source not found, skipped "@ + path@,
        ),
        Diagnostic::RomMigrationFailed { path, message } => (
            BannerKind::Error,
            "rom migration failed for "@ + path@ + ": "@ + message@,
        ),
    }
}

/// The install states at start-up: every installed tag is installed.
pub open spec fn startup_states(installed: Seq<(Seq<char>, Seq<char>, Seq<char>)>) -> Map<Seq<char>, InstallState> {
    Map::new(|t: Seq<char>| has_installed_tag(installed, t), |t: Seq<char>| InstallState::Installed)
}

/// The rate limit at start-up: the stored snapshot, if any.
pub open spec fn startup_rate_limit(s: Option<RateLimitSnapshot>) -> RateLimitStatus {
    match s {
        Some(x) => RateLimitStatus {
            remaining: x.remaining,
            limit: x.limit,
            reset_at: match x.reset_at_unix {
                Some(t) => if crate::github::chrono_timestamp_valid(t) {
                    Some(t)
                } else {
                    None
                },
                None => None,
            },
        },
        None => RateLimitStatus { remaining: None, limit: None, reset_at: None },
    }
}

/// Start-up lists the releases of every game, in registry order.
pub open spec fn startup_effects() -> Seq<EffectView> {
    crate::games::registry_spec().map_values(
        |g: GameId| EffectView::FetchReleases(g.spec_slug(), g.spec_repo_slug()),
    )
}

/// The state the launcher starts in.
pub open spec fn startup_spec(d: AppDeps, a: App) -> bool {
    &&& a.config == d.config
    &&& a.game == d.game
    &&& a.platform == d.platform
    &&& a.arch == d.arch
    &&& a.library_root == d.library_root
    &&& a.download_dir == d.download_dir
    &&& a.installed == d.installed
    &&& a.roms == d.roms
    &&& a.releases_by_game@ == Map::<Seq<char>, Vec<Release>>::empty()
    &&& a.install_states@ == startup_states(versions_view(d.installed@))
    &&& a.install_progress@ == Map::<Seq<char>, Option<u8>>::empty()
    &&& a.rate_limit == startup_rate_limit(d.config.rate_limit_snapshot)
    &&& banners_view(a.banners@) == d.startup_diagnostics@.map_values(|x: Diagnostic| diagnostic_banner(x))
    &&& a.tab == Tab::Library
    &&& a.modal is Closed
    &&& a.library_root_input@ == d.library_root@
    &&& a.versions_to_show_input@ == decimal(d.config.versions_to_show as nat)
    &&& match d.config.last_launched {
        Some(l) => a.selected_game_slug@ == l.game_slug@ && tags_view(a.selected_tags@) == map![
            l.game_slug@ => l.tag@,
        ],
        None => a.selected_game_slug@ == crate::games::registry_spec()[0].spec_slug()
            && a.selected_tags@ == Map::<Seq<char>, String>::empty(),
    }
    &&& a.gear_menu_open_for_game is None
    &&& !a.imported_roms_expanded
}

fn diagnostic_text(d: &Diagnostic) -> (r: Banner)
    ensures
        banner_view(r) == diagnostic_banner(*d),
{
    match d {
        Diagnostic::ConfigParseError { backup, message } => {
            let mut t = concat3("config parse error (", message, "); backed up to ");
            push_str(&mut t, backup);
            Banner::Error(t)
        },
        Diagnostic::SchemaVersionMismatch { backup, found } => {
            let mut t = concat2("unknown config schema version ", &u64_to_string(*found as u64));
            push_str(&mut t, "; backed up to ");
            push_str(&mut t, backup);
            Banner::Info(t)
        },
        Diagnostic::RomMigrationSkipped { path } => Banner::Info(
            concat2("rom migration: source not found, skipped ", path),
        ),
        Diagnostic::RomMigrationFailed { path, message } => {
            let mut t = concat3("rom migration failed for ", path, ": ");
            push_str(&mut t, message);
            Banner::Error(t)
        },
    }
}

impl App {
    /// The launcher's first state, and the effects to start with: listing
    /// every game's releases.
    pub fn new(deps: AppDeps) -> (r: (App, Vec<Effect>))
        ensures
            startup_spec(deps, r.0),
            effects_view(r.1@) == startup_effects(),
    {
        let ghost d = deps;
        let AppDeps {
            config,
            library_root,
            download_dir,
            game,
            platform,
            arch,
            installed,
            roms,
            startup_diagnostics,
        } = deps;
        let library_root_input = library_root.clone();
        let mut banners: Vec<Banner> = Vec::new();
        let n = startup_diagnostics.len();
        for i in 0..n
            invariant
                n == startup_diagnostics@.len(),
                banners_view(banners@) == startup_diagnostics@.take(i as int).map_values(
                    |x: Diagnostic| diagnostic_banner(x),
                ),
        {
            let ghost before = banners_view(banners@);
            banners.push(diagnostic_text(&startup_diagnostics[i]));
            assert(banners_view(banners@) =~= before.push(diagnostic_banner(startup_diagnostics@[i as int])));
            assert(startup_diagnostics@.take(i + 1).map_values(|x: Diagnostic| diagnostic_banner(x))
                =~= startup_diagnostics@.take(i as int).map_values(|x: Diagnostic| diagnostic_banner(x)).push(
                diagnostic_banner(startup_diagnostics@[i as int]),
            ));
        }
        assert(startup_diagnostics@.take(n as int) =~= startup_diagnostics@);
        let ghost iv = versions_view(installed@);
        let mut install_states: StrMap<InstallState> = StrMap::new();
        let m = installed.len();
        for i in 0..m
            invariant
                m == installed@.len(),
                iv == versions_view(installed@),
                install_states@ == Map::new(
                    |t: Seq<char>| exists|k: int| 0 <= k < i && #[trigger] iv[k].0 == t,
                    |t: Seq<char>| InstallState::Installed,
                ),
        {
            install_states.insert(installed[i].tag.clone(), InstallState::Installed);
            assert(iv[i as int].0 == installed@[i as int].tag@);
            assert(install_states@ =~= Map::new(
                |t: Seq<char>| exists|k: int| 0 <= k < i + 1 && #[trigger] iv[k].0 == t,
                |t: Seq<char>| InstallState::Installed,
            ));
        }
        assert(install_states@ =~= startup_states(iv));
        let rate_limit = match &config.rate_limit_snapshot {
            Some(s) => RateLimitStatus {
                remaining: s.remaining,
                limit: s.limit,
                reset_at: crate::github::valid_reset(s.reset_at_unix),
            },
            None => RateLimitStatus { remaining: None, limit: None, reset_at: None },
        };
        let mut selected_tags: StrMap<String> = StrMap::new();
        let selected_game_slug = match &config.last_launched {
            Some(l) => {
                selected_tags.insert(l.game_slug.clone(), l.tag.clone());
                assert(tags_view(selected_tags@) =~= map![l.game_slug@ => l.tag@]);
                l.game_slug.clone()
            },
            None => {
                let games = registry();
                owned(games[0].slug())
            },
        };
        let versions_to_show_input = u64_to_string(config.versions_to_show as u64);
        let app = App {
            config,
            game,
            platform,
            arch,
            library_root,
            download_dir,
            installed,
            releases_by_game: StrMap::new(),
            install_states,
            install_progress: StrMap::new(),
            rate_limit,
            banners,
            tab: Tab::Library,
            modal: Modal::Closed,
            library_root_input,
            versions_to_show_input,
            roms,
            selected_game_slug,
            selected_tags,
            gear_menu_open_for_game: None,
            imported_roms_expanded: false,
        };
        let games = registry();
        let mut effects: Vec<Effect> = Vec::new();
        let k = games.len();
        for i in 0..k
            invariant
                k == games@.len(),
                games@ == crate::games::registry_spec(),
                effects_view(effects@) == games@.take(i as int).map_values(
                    |g: GameId| EffectView::FetchReleases(g.spec_slug(), g.spec_repo_slug()),
                ),
        {
            let g = games[i];
            let ghost before = effects_view(effects@);
            effects.push(Effect::FetchReleases { game_slug: owned(g.slug()), repo: owned(g.repo_slug()) });
            assert(effects_view(effects@) =~= before.push(
                EffectView::FetchReleases(g.spec_slug(), g.spec_repo_slug()),
            ));
            assert(games@.take(i + 1).map_values(
                |g: GameId| EffectView::FetchReleases(g.spec_slug(), g.spec_repo_slug()),
            ) =~= games@.take(i as int).map_values(
                |g: GameId| EffectView::FetchReleases(g.spec_slug(), g.spec_repo_slug()),
            ).push(EffectView::FetchReleases(g.spec_slug(), g.spec_repo_slug())));
        }
        assert(games@.take(k as int) =~= games@);
        (app, effects)
    }
}

// ---------------------------------------------------------------------------
// Laws
// ---------------------------------------------------------------------------

/// Switching tabs closes any dialog and the gear menu.
pub proof fn law_tab_switch_dismisses_popovers(
    a: App,
    b: App,
    t: Tab,
    obs: Observation,
    effects: Seq<EffectView>,
)
    requires
        update_spec(a, b, Message::TabSelected(t), obs, effects),
    ensures
        b.tab == t,
        b.modal is Closed,
        b.gear_menu_open_for_game is None,
        effects.len() == 0,
{
}

/// Submitting the versions setting never leaves it below the minimum, and a
/// text that is not a number of at least the minimum leaves it unchanged.
pub proof fn law_versions_setting_stays_valid(a: App, b: App, obs: Observation, effects: Seq<EffectView>)
    requires
        update_spec(a, b, Message::VersionsToShowSubmit, obs, effects),
    ensures
        b.config.versions_to_show == a.config.versions_to_show || b.config.versions_to_show
            >= MIN_VERSIONS_TO_SHOW,
        !(parse_u32_spec(trimmed(a.versions_to_show_input@)) matches Some(n) && n
            >= MIN_VERSIONS_TO_SHOW) ==> b.config.versions_to_show == a.config.versions_to_show,
{
}

/// Deleting a ROM leaves no slot of any game assigned to it, and keeps
/// every other assignment.
pub proof fn law_deleted_rom_unassigned(
    a: App,
    b: App,
    filename: String,
    obs: Observation,
    effects: Seq<EffectView>,
    k: crate::config::schema::SlotKey,
)
    requires
        update_spec(a, b, Message::DeleteRomConfirm(filename), obs, effects),
    ensures
        b.config.slot_assignments@.contains_key(k) ==> b.config.slot_assignments@[k] != filename@,
        a.config.slot_assignments@.contains_key(k) && a.config.slot_assignments@[k] != filename@
            ==> b.config.slot_assignments@.contains_key(k) && b.config.slot_assignments@[k]
            == a.config.slot_assignments@[k],
        b.modal is Closed,
{
}

/// A version that is installing or installed is never installed again.
pub proof fn law_no_double_install(
    a: App,
    b: App,
    game_slug: String,
    tag: String,
    obs: Observation,
    effects: Seq<EffectView>,
)
    requires
        busy_or_installed(a, tag@),
        update_spec(a, b, Message::InstallClicked { game_slug, tag }, obs, effects),
    ensures
        b == a,
        effects.len() == 0,
{
}

/// Progress is recorded only for a version that is installing.
pub proof fn law_progress_only_while_installing(
    a: App,
    b: App,
    tag: String,
    pct: Option<u8>,
    obs: Observation,
    effects: Seq<EffectView>,
)
    requires
        !installing(a, tag@),
        update_spec(a, b, Message::InstallProgress(tag, pct), obs, effects),
    ensures
        b == a,
{
}

/// A running game is never uninstalled.
pub proof fn law_running_game_not_uninstalled(
    a: App,
    b: App,
    tag: String,
    obs: Observation,
    effects: Seq<EffectView>,
)
    requires
        running(obs, tag@),
        update_spec(a, b, Message::UninstallClicked(tag), obs, effects),
    ensures
        b.installed == a.installed,
        b.install_states == a.install_states,
        effects.len() == 0,
{
}

proof fn lemma_add_installed_covers(
    tags: Seq<Seq<char>>,
    installed: Seq<(Seq<char>, Seq<char>, Seq<char>)>,
    slug: Seq<char>,
    k: int,
)
    requires
        0 <= k < installed.len(),
        installed[k].1 == slug,
    ensures
        add_installed(tags, installed, slug).contains(installed[k].0),
    decreases installed.len(),
{
    let prev = add_installed(tags, installed.drop_last(), slug);
    let v = installed.last();
    if k < installed.len() - 1 {
        assert(installed.drop_last()[k] == installed[k]);
        lemma_add_installed_covers(tags, installed.drop_last(), slug, k);
        let i = choose|i: int| 0 <= i < prev.len() && prev[i] == installed[k].0;
        if v.1 == slug && !prev.contains(v.0) {
            assert(prev.push(v.0)[i] == installed[k].0);
        }
    } else {
        if !prev.contains(v.0) {
            assert(prev.push(v.0)[prev.len() as int] == v.0);
        }
    }
}

/// Every installed version of a game is offered in its version picker,
/// however old.
pub proof fn law_installed_versions_offered(a: App, slug: Seq<char>, k: int)
    requires
        0 <= k < a.installed@.len(),
        a.installed@[k].game_slug@ == slug,
    ensures
        version_tags(a, slug).contains(a.installed@[k].tag@),
{
    let iv = versions_view(a.installed@);
    assert(iv[k].1 == slug);
    let tags = release_tags(releases_of(a, slug));
    let n = shown_count(a.config.versions_to_show);
    let recent = if n < tags.len() {
        tags.take(n as int)
    } else {
        tags
    };
    lemma_add_installed_covers(recent, iv, slug, k);
}

/// The version picker starts with the newest releases, as many as the
/// setting asks (at least one), in listing order.
pub proof fn law_recent_releases_first(a: App, slug: Seq<char>, i: int)
    requires
        0 <= i < shown_count(a.config.versions_to_show),
        i < releases_of(a, slug).len(),
    ensures
        version_tags(a, slug).len() > i,
        version_tags(a, slug)[i] == releases_of(a, slug)[i].tag_name@,
{
    let tags = release_tags(releases_of(a, slug));
    let n = shown_count(a.config.versions_to_show);
    let recent = if n < tags.len() {
        tags.take(n as int)
    } else {
        tags
    };
    lemma_add_installed_prefix(recent, versions_view(a.installed@), slug);
}

proof fn lemma_add_installed_prefix(
    tags: Seq<Seq<char>>,
    installed: Seq<(Seq<char>, Seq<char>, Seq<char>)>,
    slug: Seq<char>,
)
    ensures
        add_installed(tags, installed, slug).len() >= tags.len(),
        forall|i: int| 0 <= i < tags.len() ==> #[trigger] add_installed(tags, installed, slug)[i] == tags[i],
    decreases installed.len(),
{
    if installed.len() > 0 {
        lemma_add_installed_prefix(tags, installed.drop_last(), slug);
    }
}

// ---------------------------------------------------------------------------
// What the screens show
// ---------------------------------------------------------------------------

/// One choice of a slot's ROM picker: a library file, or no assignment.
#[derive(Debug, Clone, PartialEq, Eq)]
pub struct SlotChoice {
    pub filename: Option<String>,
}

impl SlotChoice {
    /// The choice that clears the slot.
    pub fn unassigned() -> (r: Self)
        ensures
            r.filename is None,
    {
        SlotChoice { filename: None }
    }

    /// The choice of the library file `name`.
    pub fn filename(name: &str) -> (r: Self)
        ensures
            r.filename matches Some(f) && f@ == name@,
    {
        SlotChoice { filename: Some(owned(name)) }
    }

    /// The file the choice assigns, if any.
    pub fn into_filename(self) -> (r: Option<String>)
        ensures
            r == self.filename,
    {
        self.filename
    }

    /// The picker's text: the filename, or `(unassigned)`.
    pub fn label(&self) -> (r: String)
        ensures
            r@ == match self.filename {
                Some(f) => f@,
                None => "(unassigned)"@,
            },
    {
        match &self.filename {
            Some(f) => f.clone(),
            None => owned("(unassigned)"),
        }
    }
}

/// One row of the slot-assignment table.
#[derive(Debug, Clone)]
pub struct SlotRow {
    pub game_slug: &'static str,
    pub slot_id: &'static str,
    pub display_name: &'static str,
    /// The current assignment.
    pub current: SlotChoice,
}

/// The line a banner shows: `! ` before errors and rate limits, `i `
/// before information.
pub open spec fn banner_line(b: (BannerKind, Seq<char>)) -> Seq<char> {
    match b.0 {
        BannerKind::Info => "i "@ + b.1,
        _ => "! "@ + b.1,
    }
}

/// The banner lines shown: the five newest, newest first.
pub open spec fn shown_banners(bs: Seq<(BannerKind, Seq<char>)>) -> Seq<Seq<char>> {
    let n = if bs.len() < 5 {
        bs.len() as int
    } else {
        5
    };
    Seq::new(n as nat, |i: int| banner_line(bs[bs.len() - 1 - i]))
}

/// The first choice of `cs` for `tag`.
pub open spec fn find_choice(cs: Seq<(Seq<char>, bool, bool)>, tag: Seq<char>) -> Option<int>
    decreases cs.len(),
{
    if cs.len() == 0 {
        None
    } else if cs[0].0 == tag {
        Some(0)
    } else {
        match find_choice(cs.drop_first(), tag) {
            Some(k) => Some(k + 1),
            None => None,
        }
    }
}

proof fn lemma_find_choice_at(cs: Seq<(Seq<char>, bool, bool)>, tag: Seq<char>, k: int)
    requires
        0 <= k < cs.len(),
        cs[k].0 == tag,
        forall|j: int| 0 <= j < k ==> (#[trigger] cs[j]).0 != tag,
    ensures
        find_choice(cs, tag) == Some(k),
    decreases k,
{
    if k > 0 {
        assert(cs[0].0 != tag);
        assert forall|j: int| 0 <= j < k - 1 implies (#[trigger] cs.drop_first()[j]).0 != tag by {
            assert(cs.drop_first()[j] == cs[j + 1]);
        }
        lemma_find_choice_at(cs.drop_first(), tag, k - 1);
    }
}

proof fn lemma_find_choice_none(cs: Seq<(Seq<char>, bool, bool)>, tag: Seq<char>)
    requires
        forall|j: int| 0 <= j < cs.len() ==> (#[trigger] cs[j]).0 != tag,
    ensures
        find_choice(cs, tag) is None,
    decreases cs.len(),
{
    if cs.len() > 0 {
        assert(cs[0].0 != tag);
        assert forall|j: int| 0 <= j < cs.len() - 1 implies (#[trigger] cs.drop_first()[j]).0 != tag by {
            assert(cs.drop_first()[j] == cs[j + 1]);
        }
        lemma_find_choice_none(cs.drop_first(), tag);
    }
}

/// The version a game's row shows as picked: the user's pick when the
/// picker offers it, else the picker's first version.
pub open spec fn shown_version(a: App, slug: Seq<char>) -> Option<(Seq<char>, bool, bool)> {
    let choices = version_choices(a, slug);
    let picked = if a.selected_tags@.contains_key(slug) {
        find_choice(choices, a.selected_tags@[slug]@)
    } else {
        None
    };
    match picked {
        Some(i) => Some(choices[i]),
        None => if choices.len() > 0 {
            Some(choices[0])
        } else {
            None
        },
    }
}

/// The state a game's row is in.
pub open spec fn row_state(a: App, slug: Seq<char>) -> Option<InstallState> {
    match effective_tag(a, slug) {
        Some(t) => if a.install_states@.contains_key(t) {
            Some(a.install_states@[t])
        } else {
            None
        },
        None => None,
    }
}

/// The text of a game row's primary button.
pub open spec fn primary_label_spec(a: App, slug: Seq<char>) -> Seq<char> {
    match shown_version(a, slug) {
        Some(v) => if row_state(a, slug) == Some(InstallState::Installing) {
            if a.install_progress@.contains_key(v.0) && a.install_progress@[v.0] is Some {
                "Installing… "@ + decimal(a.install_progress@[v.0]->0 as nat) + "%"@
            } else {
                "Installing…"@
            }
        } else if v.1 {
            "Launch"@
        } else {
            "Install"@
        },
        None => "Launch"@,
    }
}

/// What the rate-limit line of the settings shows; `clock` is the reset
/// time in local time, given when the status has one.
pub open spec fn rate_limit_text_spec(rl: RateLimitStatus, clock: Option<Seq<char>>) -> Seq<char> {
    match (rl.remaining, rl.limit) {
        (Some(r), Some(l)) => match (rl.reset_at, clock) {
            (Some(_), Some(c)) => decimal(r as nat) + "/"@ + decimal(l as nat) + ", resets at "@ + c,
            _ => decimal(r as nat) + "/"@ + decimal(l as nat),
        },
        (Some(r), None) => decimal(r as nat) + " remaining"@,
        _ => "unknown"@,
    }
}

/// A game's name as the picker orders it.
pub open spec fn sort_key(g: GameId) -> Seq<char> {
    crate::text::ascii_lower(g.spec_sort_name())
}

/// Whether the games are in picker order.
pub open spec fn sorted_by_name(gs: Seq<GameId>) -> bool {
    forall|i: int, j: int| 0 <= i < j < gs.len() ==> crate::text::seq_le(sort_key(#[trigger] gs[i]), sort_key(#[trigger] gs[j]))
}

impl App {
    /// The banner lines shown: the five newest, newest first.
    pub fn banner_lines(&self) -> (r: Vec<String>)
        ensures
            strings_view(r@) == shown_banners(banners_view(self.banners@)),
    {
        let ghost bv = banners_view(self.banners@);
        let n = self.banners.len();
        let count: usize = if n < 5 {
            n
        } else {
            5
        };
        let mut out: Vec<String> = Vec::new();
        for i in 0..count
            invariant
                n == self.banners@.len(),
                bv == banners_view(self.banners@),
                count <= n,
                count == (if n < 5 {
                    n
                } else {
                    5
                }),
                out@.len() == i,
                forall|k: int| 0 <= k < i ==> (#[trigger] out@[k])@ == banner_line(bv[n - 1 - k]),
        {
            let b = &self.banners[n - 1 - i];
            let line = match b {
                Banner::Info(t) => concat2("i ", t),
                Banner::Error(t) => concat2("! ", t),
                Banner::RateLimited(t) => concat2("! ", t),
            };
            assert(bv[n - 1 - i] == banner_view(self.banners@[n - 1 - i]));
            out.push(line);
        }
        assert(strings_view(out@) =~= shown_banners(bv));
        out
    }

    /// The version a game's row shows as picked.
    fn shown_version(&self, slug: &str) -> (r: Option<VersionChoice>)
        ensures
            match r {
                Some(c) => shown_version(*self, slug@) == Some(choice_view(c)),
                None => shown_version(*self, slug@) is None,
            },
    {
        let versions = self.versions_for_game(slug);
        let ghost cv = versions@.map_values(|c: VersionChoice| choice_view(c));
        assert(cv == version_choices(*self, slug@));
        match self.selected_tags.get(slug) {
            Some(t) => {
                let n = versions.len();
                for i in 0..n
                    invariant
                        n == versions@.len(),
                        cv == versions@.map_values(|c: VersionChoice| choice_view(c)),
                        cv == version_choices(*self, slug@),
                        self.selected_tags@.contains_key(slug@),
                        self.selected_tags@[slug@] == *t,
                        forall|k: int| 0 <= k < i ==> (#[trigger] cv[k]).0 != t@,
                {
                    assert(cv[i as int] == choice_view(versions@[i as int]));
                    if str_eq(&versions[i].tag, t) {
                        proof {
                            lemma_find_choice_at(cv, t@, i as int);
                        }
                        return Some(clone_choice(&versions[i]));
                    }
                }
                proof {
                    lemma_find_choice_none(cv, t@);
                }
            },
            None => {},
        }
        if versions.len() > 0 {
            assert(cv[0] == choice_view(versions@[0]));
            Some(clone_choice(&versions[0]))
        } else {
            None
        }
    }

    /// The text of a game row's primary button.
    pub fn primary_label(&self, slug: &str) -> (r: String)
        ensures
            r@ == primary_label_spec(*self, slug@),
    {
        let shown = self.shown_version(slug);
        let state = self.install_state_for_game(slug);
        match shown {
            Some(v) => {
                let installing = match &state {
                    Some(InstallState::Installing) => true,
                    _ => false,
                };
                if installing {
                    match self.install_progress.get(&v.tag) {
                        Some(Some(pct)) => {
                            let mut t = concat2("Installing… ", &u64_to_string(*pct as u64));
                            push_str(&mut t, "%");
                            t
                        },
                        _ => owned("Installing…"),
                    }
                } else if v.installed {
                    owned("Launch")
                } else {
                    owned("Install")
                }
            },
            None => owned("Launch"),
        }
    }

    /// Whether a game row's primary button can be pressed: a version is
    /// shown and the row is not installing.
    pub fn primary_enabled(&self, slug: &str) -> (r: bool)
        ensures
            r == (shown_version(*self, slug@) is Some && row_state(*self, slug@) != Some(
                InstallState::Installing,
            )),
    {
        let installing = match self.install_state_for_game(slug) {
            Some(InstallState::Installing) => true,
            _ => false,
        };
        !installing && self.shown_version(slug).is_some()
    }

    /// Whether a game's gear menu offers clearing and uninstalling: only for
    /// an installed row version.
    pub fn gear_actions_enabled(&self, slug: &str) -> (r: bool)
        ensures
            r == (row_state(*self, slug@) == Some(InstallState::Installed)),
    {
        match self.install_state_for_game(slug) {
            Some(InstallState::Installed) => true,
            _ => false,
        }
    }

    /// The label of the imported-ROMs expander, with the number of ROMs.
    pub fn expander_label(&self) -> (r: String)
        ensures
            r@ == (if self.imported_roms_expanded {
                "▾ Imported Roms ("@
            } else {
                "▸ Imported Roms ("@
            }) + decimal(self.roms@.len()) + ")"@,
    {
        let head = if self.imported_roms_expanded {
            "▾ Imported Roms ("
        } else {
            "▸ Imported Roms ("
        };
        let mut t = concat2(head, &u64_to_string(self.roms.len() as u64));
        push_str(&mut t, ")");
        t
    }

    /// The choices of every slot's ROM picker: no assignment, then each
    /// library ROM in order.
    pub fn slot_choices(&self) -> (r: Vec<SlotChoice>)
        ensures
            r@.len() == self.roms@.len() + 1,
            r@[0].filename is None,
            forall|i: int|
                0 <= i < self.roms@.len() ==> ((#[trigger] r@[i + 1]).filename matches Some(f) && f@
                    == self.roms@[i].filename@),
    {
        let mut out: Vec<SlotChoice> = Vec::new();
        out.push(SlotChoice::unassigned());
        let n = self.roms.len();
        for i in 0..n
            invariant
                n == self.roms@.len(),
                out@.len() == i + 1,
                out@[0].filename is None,
                forall|k: int|
                    0 <= k < i ==> ((#[trigger] out@[k + 1]).filename matches Some(f) && f@
                        == self.roms@[k].filename@),
        {
            out.push(SlotChoice::filename(&self.roms[i].filename));
        }
        out
    }

    /// The rows of the slot-assignment table: every slot of every game, in
    /// registry and declaration order, with its current assignment.
    pub fn slot_rows(&self) -> (r: Vec<SlotRow>)
        ensures
            r@.map_values(|x: SlotRow| row_key(x)) == all_slots(crate::games::registry_spec()),
            forall|i: int| 0 <= i < r@.len() ==> row_current_ok(*self, #[trigger] r@[i]),
    {
        let games = registry();
        let mut out: Vec<SlotRow> = Vec::new();
        let n = games.len();
        proof {
            assert(games@.take(0) =~= Seq::<GameId>::empty());
            assert(out@.map_values(|x: SlotRow| row_key(x)) =~= all_slots(games@.take(0)));
        }
        for gi in 0..n
            invariant
                n == games@.len(),
                games@ == crate::games::registry_spec(),
                out@.map_values(|x: SlotRow| row_key(x)) == all_slots(games@.take(gi as int)),
                forall|i: int| 0 <= i < out@.len() ==> row_current_ok(*self, #[trigger] out@[i]),
        {
            let g = games[gi];
            let slots = g.slots();
            let ghost base = out@.map_values(|x: SlotRow| row_key(x));
            let ghost gs = g.spec_slots().map_values(
                |sl: (Seq<char>, Seq<char>, Seq<char>)| (g.spec_slug(), sl.0, sl.1),
            );
            let m = slots.len();
            proof {
                assert(base + gs.take(0) =~= base);
                assert(slots@.map_values(|sl: SlotSpec| crate::games::slot_view(sl)).len() == m);
            }
            for si in 0..m
                invariant
                    m == slots@.len(),
                    slots@.map_values(|sl: SlotSpec| crate::games::slot_view(sl)) == g.spec_slots(),
                    gs == g.spec_slots().map_values(
                        |sl: (Seq<char>, Seq<char>, Seq<char>)| (g.spec_slug(), sl.0, sl.1),
                    ),
                    out@.map_values(|x: SlotRow| row_key(x)) == base + gs.take(si as int),
                    forall|i: int| 0 <= i < out@.len() ==> row_current_ok(*self, #[trigger] out@[i]),
            {
                let slot = slots[si];
                let current = match self.config.assignment_for(g.slug(), slot.id) {
                    Some(f) => SlotChoice::filename(f),
                    None => SlotChoice::unassigned(),
                };
                let row = SlotRow {
                    game_slug: g.slug(),
                    slot_id: slot.id,
                    display_name: slot.display_name,
                    current,
                };
                let ghost before = out@;
                out.push(row);
                proof {
                    assert(slots@.map_values(|sl: SlotSpec| crate::games::slot_view(sl))[si as int]
                        == crate::games::slot_view(slot));
                    assert(gs[si as int] == row_key(row));
                    assert(out@.map_values(|x: SlotRow| row_key(x)) =~= before.map_values(
                        |x: SlotRow| row_key(x),
                    ).push(row_key(row)));
                    assert(base + gs.take(si + 1) =~= (base + gs.take(si as int)).push(gs[si as int]));
                    assert forall|i: int| 0 <= i < out@.len() implies row_current_ok(
                        *self,
                        #[trigger] out@[i],
                    ) by {
                        if i < before.len() {
                            assert(out@[i] == before[i]);
                        }
                    }
                }
            }
            proof {
                assert(gs.take(m as int) =~= gs);
                assert(games@.take(gi + 1).drop_last() =~= games@.take(gi as int));
                assert(games@.take(gi + 1).last() == g);
            }
        }
        proof {
            assert(games@.take(n as int) =~= games@);
        }
        out
    }
}

/// A row of the slot table as `(game_slug, slot_id, display_name)`.
pub open spec fn row_key(r: SlotRow) -> (Seq<char>, Seq<char>, Seq<char>) {
    (r.game_slug@, r.slot_id@, r.display_name@)
}

/// Whether a row shows the slot's current assignment.
pub open spec fn row_current_ok(a: App, r: SlotRow) -> bool {
    match a.config.slot_assignments@.get((r.game_slug@, r.slot_id@)) {
        Some(f) => r.current.filename matches Some(x) && x@ == f,
        None => r.current.filename is None,
    }
}

/// Every slot of `games`, in order, as `(game_slug, slot_id, display_name)`.
pub open spec fn all_slots(games: Seq<GameId>) -> Seq<(Seq<char>, Seq<char>, Seq<char>)>
    decreases games.len(),
{
    if games.len() == 0 {
        Seq::empty()
    } else {
        let g = games.last();
        all_slots(games.drop_last()) + g.spec_slots().map_values(
            |sl: (Seq<char>, Seq<char>, Seq<char>)| (g.spec_slug(), sl.0, sl.1),
        )
    }
}

/// What the rate-limit line of the settings shows; `clock` is the reset
/// time in local time.
pub fn rate_limit_text(rl: &RateLimitStatus, clock: &Option<String>) -> (r: String)
    ensures
        r@ == rate_limit_text_spec(*rl, crate::text::opt_view(*clock)),
{
    match (rl.remaining, rl.limit) {
        (Some(r), Some(l)) => {
            let mut t = concat3(&u64_to_string(r as u64), "/", &u64_to_string(l as u64));
            match (rl.reset_at, clock) {
                (Some(_), Some(c)) => {
                    push_str(&mut t, ", resets at ");
                    push_str(&mut t, c);
                },
                _ => {},
            }
            t
        },
        (Some(r), None) => concat2(&u64_to_string(r as u64), " remaining"),
        _ => owned("unknown"),
    }
}

/// Whether the GitHub token is set, as the settings show it.
pub fn token_status(token: &Option<String>) -> (r: &'static str)
    ensures
        r@ == (if token matches Some(t) && t@.len() > 0 {
            "set"@
        } else {
            "not set"@
        }),
{
    match token {
        Some(t) => if crate::text::chars_of(t).len() > 0 {
            "set"
        } else {
            "not set"
        },
        None => "not set",
    }
}

/// The first position of `out` whose sort key comes after `key`.
fn name_insertion_point(out: &Vec<GameId>, key: &String) -> (pos: usize)
    ensures
        pos <= out@.len(),
        forall|k: int| 0 <= k < pos ==> crate::text::seq_le(sort_key(#[trigger] out@[k]), key@),
        pos < out@.len() ==> !crate::text::seq_le(sort_key(out@[pos as int]), key@),
{
    let m = out.len();
    for j in 0..m
        invariant
            m == out@.len(),
            forall|k: int| 0 <= k < j ==> crate::text::seq_le(sort_key(#[trigger] out@[k]), key@),
    {
        let other = crate::text::to_ascii_lowercase(out[j].sort_name());
        if !crate::text::str_le(&other, key) {
            return j;
        }
    }
    m
}

/// The games in picker order: by sort name, ignoring ASCII case.
pub fn library_games() -> (r: Vec<GameId>)
    ensures
        sorted_by_name(r@),
        r@.to_multiset() == crate::games::registry_spec().to_multiset(),
{
    let games = registry();
    let mut out: Vec<GameId> = Vec::new();
    let n = games.len();
    proof {
        assert(games@.take(0) =~= Seq::<GameId>::empty());
    }
    for i in 0..n
        invariant
            n == games@.len(),
            sorted_by_name(out@),
            out@.to_multiset() == games@.take(i as int).to_multiset(),
    {
        let g = games[i];
        let key = crate::text::to_ascii_lowercase(g.sort_name());
        let pos = name_insertion_point(&out, &key);
        let ghost before = out@;
        proof {
            assert forall|a: int, b: int| 0 <= a < b < before.insert(pos as int, g).len() implies crate::text::seq_le(
                sort_key(#[trigger] before.insert(pos as int, g)[a]),
                sort_key(#[trigger] before.insert(pos as int, g)[b]),
            ) by {
                let t = before.insert(pos as int, g);
                assert(key@ == sort_key(g));
                if a == pos && b > pos {
                    crate::text::lemma_seq_le_total(sort_key(before[pos as int]), sort_key(g));
                    if b - 1 > pos {
                        assert(crate::text::seq_le(sort_key(before[pos as int]), sort_key(before[b - 1])));
                        crate::text::lemma_seq_le_trans(sort_key(g), sort_key(before[pos as int]), sort_key(before[b - 1]));
                    }
                } else if a < pos && b == pos {
                } else if a < pos && b > pos {
                    assert(crate::text::seq_le(sort_key(before[a]), sort_key(before[b - 1])));
                } else if a > pos {
                    assert(crate::text::seq_le(sort_key(before[a - 1]), sort_key(before[b - 1])));
                } else {
                    assert(crate::text::seq_le(sort_key(before[a]), sort_key(before[b])));
                }
            }
            vstd::seq_lib::to_multiset_insert(before, pos as int, g);
            assert(games@.take(i + 1) =~= games@.take(i as int).push(g));
            vstd::seq_lib::to_multiset_build(games@.take(i as int), g);
        }
        out.insert(pos, g);
    }
    assert(games@.take(n as int) =~= games@);
    out
}

/// The lines of the open dialog: its question first, then its explanation
/// and, for a clear, one line per file; none when no dialog is open.
pub open spec fn modal_lines_spec(m: Modal) -> Seq<Seq<char>> {
    match m {
        Modal::Closed => Seq::empty(),
        Modal::ClearCachedConfirm { tag, game_slug, planned } => seq![
            "Clear cached assets for "@ + game_slug@ + " "@ + tag@ + "?"@,
            "These files live in this install's directory and only affect this version."@,
        ] + planned@.map_values(
            |p: PlannedClear| "• "@ + p.path@ + " ("@ + decimal(p.size as nat) + " bytes)"@,
        ),
        Modal::DeleteRomConfirm { filename } => seq![
            "Delete ROM \""@ + filename@ + "\"?"@,
            "This removes the file from your ROM library and clears any slot assignments referencing it."@,
        ],
        Modal::UninstallConfirm { tag } => seq![
            "Uninstall "@ + tag@ + "?"@,
            "This deletes the install directory."@,
        ],
    }
}

impl App {
    /// The lines of the open dialog.
    pub fn modal_lines(&self) -> (r: Vec<String>)
        ensures
            strings_view(r@) == modal_lines_spec(self.modal),
    {
        let mut out: Vec<String> = Vec::new();
        match &self.modal {
            Modal::Closed => {},
            Modal::ClearCachedConfirm { tag, game_slug, planned } => {
                let mut title = concat3("Clear cached assets for ", game_slug, " ");
                push_str(&mut title, tag);
                push_str(&mut title, "?");
                out.push(title);
                out.push(
                    owned("These files live in this install's directory and only affect this version."),
                );
                let n = planned.len();
                let ghost head = strings_view(out@);
                let ghost lines = planned@.map_values(
                    |p: PlannedClear| "• "@ + p.path@ + " ("@ + decimal(p.size as nat) + " bytes)"@,
                );
                for i in 0..n
                    invariant
                        n == planned@.len(),
                        lines == planned@.map_values(
                            |p: PlannedClear| "• "@ + p.path@ + " ("@ + decimal(p.size as nat) + " bytes)"@,
                        ),
                        strings_view(out@) == head + lines.take(i as int),
                {
                    let mut line = concat3("• ", &planned[i].path, " (");
                    push_str(&mut line, &u64_to_string(planned[i].size));
                    push_str(&mut line, " bytes)");
                    let ghost before = strings_view(out@);
                    out.push(line);
                    assert(strings_view(out@) =~= before.push(lines[i as int]));
                    assert(head + lines.take(i + 1) =~= (head + lines.take(i as int)).push(lines[i as int]));
                }
                assert(lines.take(n as int) =~= lines);
            },
            Modal::DeleteRomConfirm { filename } => {
                out.push(concat3("Delete ROM \"", filename, "\"?"));
                out.push(
                    owned(
                        "This removes the file from your ROM library and clears any slot assignments referencing it.",
                    ),
                );
            },
            Modal::UninstallConfirm { tag } => {
                out.push(concat3("Uninstall ", tag, "?"));
                out.push(owned("This deletes the install directory."));
            },
        }
        assert(strings_view(out@) =~= modal_lines_spec(self.modal));
        out
    }
}

/// Where the launcher keeps installs, downloads and its listing cache.
#[derive(Debug, Clone)]
pub struct StartupPaths {
    pub library_root: String,
    pub download_dir: String,
    pub etag_cache: String,
}

impl StartupPaths {
    /// The configured library root, else the platform's default; downloads
    /// and the listing cache live in the cache directory.
    pub fn resolve(config: &Config, default_library_root: &str, cache_dir: &str) -> (r: Self)
        ensures
            r.library_root@ == match config.library_root {
                Some(p) => p@,
                None => default_library_root@,
            },
            r.download_dir@ == crate::paths::join_spec(cache_dir@, "downloads"@),
            r.etag_cache@ == crate::paths::join_spec(cache_dir@, "etags.json"@),
    {
        let library_root = match &config.library_root {
            Some(p) => p.clone(),
            None => owned(default_library_root),
        };
        StartupPaths {
            library_root,
            download_dir: crate::paths::path_join(cache_dir, "downloads"),
            etag_cache: crate::paths::path_join(cache_dir, "etags.json"),
        }
    }
}

proof fn lemma_find_installed_found(v: Seq<(Seq<char>, Seq<char>, Seq<char>)>, tag: Seq<char>)
    ensures
        find_installed(v, tag) matches Some(k) ==> 0 <= k < v.len() && v[k].0 == tag && forall|j: int|
            0 <= j < k ==> (#[trigger] v[j]).0 != tag,
        find_installed(v, tag) is None ==> forall|j: int| 0 <= j < v.len() ==> (#[trigger] v[j]).0 != tag,
    decreases v.len(),
{
    if v.len() > 0 && v[0].0 != tag {
        lemma_find_installed_found(v.drop_first(), tag);
        assert forall|j: int| 1 <= j < v.len() implies v[j] == v.drop_first()[j - 1] by {}
    }
}

proof fn lemma_launch_game(a: App, b: App, tag: Seq<char>, obs: Observation, effects: Seq<EffectView>, g: GameId)
    requires
        launch_spec(a, b, tag, obs, effects),
    ensures
        b == a,
        forall|i: int|
            0 <= i < effects.len() ==> ((#[trigger] effects[i]) matches EffectView::Launch(v, game)
                && v.0 == tag && versions_view(a.installed@).contains(v) && (g.spec_slug() == v.1
                ==> game == g)),
{
    lemma_find_installed_found(versions_view(a.installed@), tag);
    if !running(obs, tag) {
        match find_installed(versions_view(a.installed@), tag) {
            Some(k) => {
                let v = version_view(a.installed@[k]);
                assert(versions_view(a.installed@)[k] == v);
                if g.spec_slug() == v.1 {
                    let h = crate::games::game_with_slug(v.1).unwrap();
                    assert(h.spec_slug() == v.1);
                    crate::games::law_slugs_distinct(g, h);
                }
            },
            None => {},
        }
    }
}

/// Launching a version starts the game its install belongs to: the launch
/// requested is of an install of that tag, with the game whose slug is the
/// install's slug (the launcher's own game only for a slug no game has).
pub proof fn law_launch_runs_the_install_game(
    a: App,
    b: App,
    tag: String,
    obs: Observation,
    effects: Seq<EffectView>,
    g: GameId,
)
    requires
        update_spec(a, b, Message::LaunchClicked(tag), obs, effects),
    ensures
        b == a,
        effects.len() <= 1,
        running(obs, tag@) ==> effects.len() == 0,
        !running(obs, tag@) && (exists|k: int|
            0 <= k < a.installed@.len() && (#[trigger] a.installed@[k]).tag@ == tag@) ==> effects.len()
            == 1,
        forall|i: int|
            0 <= i < effects.len() ==> ((#[trigger] effects[i]) matches EffectView::Launch(v, game)
                && v.0 == tag@ && versions_view(a.installed@).contains(v) && (g.spec_slug() == v.1
                ==> game == g)),
        forall|i: int|
            0 <= i < effects.len() ==> ((#[trigger] effects[i]) matches EffectView::Launch(v, _)
                && exists|k: int|
                0 <= k < a.installed@.len() && v == version_view(#[trigger] a.installed@[k])
                    && forall|j: int| 0 <= j < k ==> (#[trigger] a.installed@[j]).tag@ != tag@),
{
    lemma_launch_game(a, b, tag@, obs, effects, g);
    let iv = versions_view(a.installed@);
    lemma_find_installed_found(iv, tag@);
    if exists|k: int| 0 <= k < a.installed@.len() && (#[trigger] a.installed@[k]).tag@ == tag@ {
        let k = choose|k: int| 0 <= k < a.installed@.len() && (#[trigger] a.installed@[k]).tag@ == tag@;
        assert(iv[k].0 == tag@);
    }
    if !running(obs, tag@) {
        match find_installed(iv, tag@) {
            Some(k) => {
                assert(effects[0] == EffectView::Launch(
                    version_view(a.installed@[k]),
                    match crate::games::game_with_slug(a.installed@[k].game_slug@) {
                        Some(h) => h,
                        None => a.game,
                    },
                ));
                assert forall|j: int| 0 <= j < k implies (#[trigger] a.installed@[j]).tag@ != tag@ by {
                    assert(iv[j].0 == a.installed@[j].tag@);
                }
            },
            None => {},
        }
    }
}

/// The primary action of a game, when it launches, starts the game the
/// install belongs to, as a launch by tag does.
pub proof fn law_primary_launch_runs_the_install_game(
    a: App,
    b: App,
    slug: String,
    obs: Observation,
    effects: Seq<EffectView>,
    g: GameId,
)
    requires
        update_spec(a, b, Message::PrimaryActionClicked(slug), obs, effects),
    ensures
        forall|i: int|
            0 <= i < effects.len() ==> ((#[trigger] effects[i]) matches EffectView::Launch(v, game)
                ==> versions_view(a.installed@).contains(v) && (g.spec_slug() == v.1 ==> game == g)),
{
    match effective_tag(a, slug@) {
        None => {},
        Some(t) => {
            let a2 = choose|a2: App|
                #![trigger a2.selected_tags]
                {
                    &&& a2 == App {
                        selected_game_slug: slug,
                        selected_tags: a2.selected_tags,
                        ..App { gear_menu_open_for_game: None, ..a }
                    }
                    &&& tags_view(a2.selected_tags@) == tags_view(a.selected_tags@).insert(slug@, t)
                    &&& if is_installed(versions_view(a.installed@), t, slug@) {
                        launch_spec(a2, b, t, obs, effects)
                    } else {
                        install_clicked_spec(a2, b, slug@, t, effects)
                    }
                };
            if is_installed(versions_view(a.installed@), t, slug@) {
                lemma_launch_game(a2, b, t, obs, effects, g);
                assert(a2.installed == a.installed);
            }
        }
    }
}

/// `with_idle` keeps every state `m` has and gives exactly the tags of
/// `tags` it lacks the idle state.
proof fn lemma_with_idle(m: Map<Seq<char>, InstallState>, tags: Seq<Seq<char>>)
    ensures
        forall|t: Seq<char>|
            m.contains_key(t) ==> #[trigger] with_idle(m, tags).contains_key(t) && with_idle(m, tags)[t]
                == m[t],
        forall|t: Seq<char>|
            #[trigger] with_idle(m, tags).contains_key(t) && !m.contains_key(t) ==> tags.contains(t)
                && with_idle(m, tags)[t] == InstallState::Idle,
        forall|i: int| 0 <= i < tags.len() ==> with_idle(m, tags).contains_key(#[trigger] tags[i]),
    decreases tags.len(),
{
    if tags.len() > 0 {
        let prev_tags = tags.drop_last();
        lemma_with_idle(m, prev_tags);
        let prev = with_idle(m, prev_tags);
        assert forall|t: Seq<char>|
            #[trigger] with_idle(m, tags).contains_key(t) && !m.contains_key(t) implies tags.contains(t)
            && with_idle(m, tags)[t] == InstallState::Idle by {
            if prev.contains_key(t) {
                assert(prev_tags.contains(t));
                let k = choose|k: int| 0 <= k < prev_tags.len() && prev_tags[k] == t;
                assert(tags[k] == t);
            } else {
                assert(tags[tags.len() - 1] == t);
            }
        }
        assert forall|i: int| 0 <= i < tags.len() implies with_idle(m, tags).contains_key(#[trigger] tags[i]) by {
            if i < tags.len() - 1 {
                assert(prev_tags[i] == tags[i]);
            }
        }
    }
}

/// A successful release listing keeps the install state of every version
/// that has one (an installed version stays installed, an installing one
/// installing), marks each listed version without a state idle, and adds
/// no other state.
pub proof fn law_listing_keeps_install_states(
    a: App,
    b: App,
    game_slug: String,
    releases: Vec<Release>,
    rl: RateLimitStatus,
    obs: Observation,
    effects: Seq<EffectView>,
    t: Seq<char>,
    other: Seq<char>,
)
    requires
        update_spec(a, b, Message::ReleasesLoaded { game_slug, result: Ok((releases, rl)) }, obs, effects),
    ensures
        b.installed == a.installed,
        b.releases_by_game@.contains_key(game_slug@) && b.releases_by_game@[game_slug@] == releases,
        other != game_slug@ ==> b.releases_by_game@.contains_key(other) == a.releases_by_game@.contains_key(
            other,
        ) && (a.releases_by_game@.contains_key(other) ==> b.releases_by_game@[other]
            == a.releases_by_game@[other]),
        a.install_states@.contains_key(t) ==> b.install_states@.contains_key(t)
            && b.install_states@[t] == a.install_states@[t],
        release_tags(releases@).contains(t) ==> b.install_states@.contains_key(t),
        b.install_states@.contains_key(t) && !a.install_states@.contains_key(t) ==> release_tags(
            releases@,
        ).contains(t) && b.install_states@[t] == InstallState::Idle,
{
    lemma_with_idle(a.install_states@, release_tags(releases@));
    if release_tags(releases@).contains(t) {
        let i = choose|i: int| 0 <= i < release_tags(releases@).len() && release_tags(releases@)[i] == t;
        assert(with_idle(a.install_states@, release_tags(releases@)).contains_key(release_tags(releases@)[i]));
    }
    if a.install_states@.contains_key(t) {
        assert(with_idle(a.install_states@, release_tags(releases@)).contains_key(t));
    }
    if b.install_states@.contains_key(t) && !a.install_states@.contains_key(t) {
        assert(with_idle(a.install_states@, release_tags(releases@)).contains_key(t));
    }
}

} // verus!
