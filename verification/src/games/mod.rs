//! The supported games: their ROM slots, cached-asset files, release assets,
//! binaries and archive layouts.

use vstd::prelude::*;

use crate::github::ReleaseAsset;
use crate::paths::{join_spec, path_join};
use crate::platform::Platform;
use crate::text::{
    ascii_lower, concat3, contains, occurs_at, owned, seq_contains, seq_ends_with, to_ascii_lowercase,
};

pub mod ghostship;
pub mod soh;
pub mod spaghettikart;
pub mod starship;
pub mod twoship;

verus! {

/// Game-declared ROM slot. Each game owns its own slot id namespace; ids are
/// only meaningful within a `(game_slug, slot_id)` pair.
#[derive(Debug, Clone, Copy, PartialEq, Eq)]
pub struct SlotSpec {
    pub id: &'static str,
    pub display_name: &'static str,
    /// Filename Shipyard creates as a symlink in each install dir to point the
    /// game at the assigned ROM file in the ROM library.
    pub symlink_filename: &'static str,
}

/// Declares a cached-asset file associated with a slot. The `filenames` list is
/// ordered; scanning picks the first file that exists on disk, so a game can
/// accept both the current format (`.o2r`) and a legacy one (`.otr`).
#[derive(Debug, Clone, PartialEq, Eq)]
pub struct CachedAssetSpec {
    pub slot_id: &'static str,
    pub filenames: Vec<&'static str>,
}

/// How a release archive is unpacked into an install directory.
#[derive(Debug, Clone, PartialEq, Eq)]
pub enum ExtractPlan {
    /// Unzip, mount the DMG inside, copy the `.app` bundle out (macOS).
    AppInDmg,
    /// Unzip into the install directory and make `binary` executable.
    FlatZip { binary: &'static str },
    /// Unzip to a scratch directory, find the first `.appimage` at any depth
    /// and copy its folder's contents, the appimage and the data files beside
    /// it, into the install directory, the appimage executable.
    NestedAppImage,
    /// The game has no release for this platform.
    Unsupported { message: String },
}

/// The program to run for an install, and its working directory.
#[derive(Debug, Clone, PartialEq, Eq)]
pub struct LaunchCommand {
    pub program: String,
    pub current_dir: String,
}

/// An `ExtractPlan` as plain values.
pub enum ExtractKind {
    AppInDmg,
    FlatZip(Seq<char>),
    NestedAppImage,
    Unsupported(Seq<char>),
}

pub open spec fn extract_kind(p: ExtractPlan) -> ExtractKind {
    match p {
        ExtractPlan::AppInDmg => ExtractKind::AppInDmg,
        ExtractPlan::FlatZip { binary } => ExtractKind::FlatZip(binary@),
        ExtractPlan::NestedAppImage => ExtractKind::NestedAppImage,
        ExtractPlan::Unsupported { message } => ExtractKind::Unsupported(message@),
    }
}

/// A slot as `(id, display_name, symlink_filename)`.
pub open spec fn slot_view(s: SlotSpec) -> (Seq<char>, Seq<char>, Seq<char>) {
    (s.id@, s.display_name@, s.symlink_filename@)
}

/// A cached-asset declaration as `(slot_id, filenames)`.
pub open spec fn cached_view(c: CachedAssetSpec) -> (Seq<char>, Seq<Seq<char>>) {
    (c.slot_id@, c.filenames@.map_values(|f: &'static str| f@))
}

/// The names of the assets, in order.
pub open spec fn asset_names(assets: Seq<ReleaseAsset>) -> Seq<Seq<char>> {
    assets.map_values(|a: ReleaseAsset| a.name@)
}

/// Index of the first name that contains `needle` once folded to lowercase.
pub open spec fn first_match(names: Seq<Seq<char>>, needle: Seq<char>) -> Option<int>
    decreases names.len(),
{
    if names.len() == 0 {
        None
    } else if seq_contains(ascii_lower(names[0]), needle) {
        Some(0)
    } else {
        match first_match(names.drop_first(), needle) {
            Some(i) => Some(i + 1),
            None => None,
        }
    }
}

/// The index `first_match` gives is a position of `names` whose name
/// contains the needle.
pub proof fn lemma_first_match_bound(names: Seq<Seq<char>>, needle: Seq<char>)
    ensures
        first_match(names, needle) matches Some(i) ==> 0 <= i < names.len() && seq_contains(
            ascii_lower(names[i]),
            needle,
        ),
    decreases names.len(),
{
    if names.len() > 0 && !seq_contains(ascii_lower(names[0]), needle) {
        lemma_first_match_bound(names.drop_first(), needle);
        if let Some(i) = first_match(names.drop_first(), needle) {
            assert(names.drop_first()[i] == names[i + 1]);
        }
    }
}

proof fn lemma_first_match_at(names: Seq<Seq<char>>, needle: Seq<char>, i: int)
    requires
        0 <= i < names.len(),
        seq_contains(ascii_lower(names[i]), needle),
        forall|j: int| 0 <= j < i ==> !seq_contains(ascii_lower(#[trigger] names[j]), needle),
    ensures
        first_match(names, needle) == Some(i),
    decreases i,
{
    if i > 0 {
        assert(!seq_contains(ascii_lower(names[0]), needle));
        assert forall|j: int| 0 <= j < i - 1 implies !seq_contains(
            ascii_lower(#[trigger] names.drop_first()[j]),
            needle,
        ) by {
            assert(names.drop_first()[j] == names[j + 1]);
        }
        lemma_first_match_at(names.drop_first(), needle, i - 1);
    }
}

proof fn lemma_first_match_none(names: Seq<Seq<char>>, needle: Seq<char>)
    requires
        forall|j: int| 0 <= j < names.len() ==> !seq_contains(ascii_lower(#[trigger] names[j]), needle),
    ensures
        first_match(names, needle) is None,
    decreases names.len(),
{
    if names.len() > 0 {
        assert(!seq_contains(ascii_lower(names[0]), needle));
        assert forall|j: int| 0 <= j < names.len() - 1 implies !seq_contains(
            ascii_lower(#[trigger] names.drop_first()[j]),
            needle,
        ) by {
            assert(names.drop_first()[j] == names[j + 1]);
        }
        lemma_first_match_none(names.drop_first(), needle);
    }
}

/// Index of the first asset whose lowercase name contains `needle`.
pub fn first_asset_containing(assets: &Vec<ReleaseAsset>, needle: &str) -> (r: Option<usize>)
    ensures
        match first_match(asset_names(assets@), needle@) {
            Some(i) => r matches Some(j) && j == i,
            None => r is None,
        },
{
    let ghost names = asset_names(assets@);
    let n = assets.len();
    for i in 0..n
        invariant
            n == assets@.len(),
            names == asset_names(assets@),
            forall|j: int| 0 <= j < i ==> !seq_contains(ascii_lower(#[trigger] names[j]), needle@),
    {
        let lower = to_ascii_lowercase(&assets[i].name);
        assert(names[i as int] == assets@[i as int].name@);
        if contains(&lower, needle) {
            proof {
                lemma_first_match_at(names, needle@, i as int);
            }
            return Some(i);
        }
    }
    proof {
        lemma_first_match_none(names, needle@);
    }
    None
}

/// The needle used by the games that look for the platform keyword itself.
pub fn lowercase_keyword<P: Platform>(platform: &P) -> (r: String)
    ensures
        r@ == ascii_lower(platform.spec_asset_keyword()),
{
    to_ascii_lowercase(platform.asset_keyword())
}

/// The message of a game that has no release for a platform.
pub fn unsupported(prefix: &str, keyword: &str, suffix: &str) -> (r: ExtractPlan)
    ensures
        extract_kind(r) == ExtractKind::Unsupported(prefix@ + keyword@ + suffix@),
{
    ExtractPlan::Unsupported { message: concat3(prefix, keyword, suffix) }
}

/// A supported game.
pub trait Game {
    spec fn spec_slug(&self) -> Seq<char>;

    spec fn spec_repo_slug(&self) -> Seq<char>;

    spec fn spec_display_name(&self) -> Seq<char>;

    spec fn spec_rom_group_name(&self) -> Seq<char>;

    spec fn spec_sort_name(&self) -> Seq<char>;

    spec fn spec_slots(&self) -> Seq<(Seq<char>, Seq<char>, Seq<char>)>;

    spec fn spec_cached_assets(&self) -> Seq<(Seq<char>, Seq<Seq<char>>)>;

    /// What asset names must contain (lowercase) on a platform and CPU
    /// architecture; `None` when the game ships nothing there.
    spec fn spec_asset_needle(&self, keyword: Seq<char>, arch: Seq<char>) -> Option<Seq<char>>;

    /// The binary, relative to the install directory, on a platform.
    spec fn spec_binary(&self, keyword: Seq<char>) -> Seq<char>;

    spec fn spec_extract(&self, keyword: Seq<char>) -> ExtractKind;

    /// The slug that keys installs and slot assignments.
    fn slug(&self) -> (r: &'static str)
        ensures
            r@ == self.spec_slug(),
    ;

    /// The GitHub `owner/repo` that publishes the releases.
    fn repo_slug(&self) -> (r: &'static str)
        ensures
            r@ == self.spec_repo_slug(),
    ;

    /// The game's name, as shown to the user.
    fn display_name(&self) -> (r: &'static str)
        ensures
            r@ == self.spec_display_name(),
    ;

    /// User-facing label for the underlying game whose ROMs the slots accept.
    fn rom_group_name(&self) -> (r: &'static str)
        ensures
            r@ == self.spec_rom_group_name(),
    ;

    /// The name the game picker sorts by; never shown.
    fn sort_name(&self) -> (r: &'static str)
        ensures
            r@ == self.spec_sort_name(),
    ;

    /// ROM slots this game accepts; each `id` is unique within the game and
    /// is the persistence key for slot assignments.
    fn slots(&self) -> (r: Vec<SlotSpec>)
        ensures
            r@.map_values(|s: SlotSpec| slot_view(s)) == self.spec_slots(),
    ;

    /// Slot to cached-asset-filename mapping used by the cached-asset scanner.
    fn cached_assets(&self) -> (r: Vec<CachedAssetSpec>)
        ensures
            r@.map_values(|c: CachedAssetSpec| cached_view(c)) == self.spec_cached_assets(),
    ;

    /// What asset names must contain on this platform and architecture.
    fn asset_needle<P: Platform>(&self, platform: &P, arch: &str) -> (r: Option<String>)
        ensures
            match self.spec_asset_needle(platform.spec_asset_keyword(), arch@) {
                Some(n) => r matches Some(x) && x@ == n,
                None => r is None,
            },
    ;

    /// The binary, relative to the install directory.
    fn binary<P: Platform>(&self, platform: &P) -> (r: &'static str)
        ensures
            r@ == self.spec_binary(platform.spec_asset_keyword()),
    ;

    /// How this game's release archive is unpacked on `platform`.
    fn extract_plan<P: Platform>(&self, platform: &P) -> (r: ExtractPlan)
        ensures
            extract_kind(r) == self.spec_extract(platform.spec_asset_keyword()),
    ;

    /// Where the game writes cached ROM archives (`.o2r` / `.otr`): the
    /// install directory itself.
    fn data_dir<P: Platform>(&self, install_dir: &str, platform: &P) -> (r: String)
        ensures
            r@ == install_dir@,
    {
        owned(install_dir)
    }

    /// The release asset for this platform: the first whose lowercase name
    /// contains the game's needle.
    fn pick_asset<P: Platform>(&self, assets: &Vec<ReleaseAsset>, platform: &P, arch: &str) -> (r:
        Option<usize>)
        ensures
            match self.spec_asset_needle(platform.spec_asset_keyword(), arch@) {
                Some(n) => match first_match(asset_names(assets@), n) {
                    Some(i) => r matches Some(j) && j == i,
                    None => r is None,
                },
                None => r is None,
            },
    {
        match self.asset_needle(platform, arch) {
            Some(needle) => first_asset_containing(assets, &needle),
            None => None,
        }
    }

    /// The program that starts an install, run from the install directory.
    fn launch_command<P: Platform>(&self, install_dir: &str, platform: &P) -> (r: LaunchCommand)
        ensures
            r.program@ == join_spec(install_dir@, self.spec_binary(platform.spec_asset_keyword())),
            r.current_dir@ == install_dir@,
    {
        let bin = self.binary(platform);
        LaunchCommand { program: path_join(install_dir, bin), current_dir: owned(install_dir) }
    }
}

/// Whether every cached-asset declaration names one of the slots.
pub open spec fn cached_assets_name_slots(
    slots: Seq<(Seq<char>, Seq<char>, Seq<char>)>,
    cached: Seq<(Seq<char>, Seq<Seq<char>>)>,
) -> bool {
    forall|i: int|
        0 <= i < cached.len() ==> exists|j: int| 0 <= j < slots.len() && slots[j].0 == #[trigger] cached[i].0
}

/// Whether the slot ids of a game are pairwise distinct.
pub open spec fn slot_ids_distinct(slots: Seq<(Seq<char>, Seq<char>, Seq<char>)>) -> bool {
    forall|i: int, j: int| 0 <= i < j < slots.len() ==> slots[i].0 != slots[j].0
}

/// Every cached-asset declaration of every game names one of that game's
/// slots, and no two slots of a game share an id.
pub proof fn law_game_tables_consistent(g: GameId)
    ensures
        cached_assets_name_slots(g.spec_slots(), g.spec_cached_assets()),
        slot_ids_distinct(g.spec_slots()),
{
    let slots = g.spec_slots();
    let cached = g.spec_cached_assets();
    assert(slots[0].0 == cached[0].0);
    match g {
        GameId::Soh => {
            assert(slots[1].0 == cached[1].0);
            reveal_strlit("oot");
            reveal_strlit("oot-mq");
            assert(slots[0].0.len() != slots[1].0.len());
        },
        GameId::Starship => {
            reveal_strlit("sf64-us");
            reveal_strlit("sf64-eu");
            reveal_strlit("sf64-jp");
            assert(slots[0].0[5] != slots[1].0[5]);
            assert(slots[0].0[5] != slots[2].0[5]);
            assert(slots[1].0[5] != slots[2].0[5]);
        },
        _ => {},
    }
}

/// One of the supported games.
#[derive(Debug, Clone, Copy, PartialEq, Eq)]
pub enum GameId {
    Soh,
    TwoShip,
    Ghostship,
    Starship,
    SpaghettiKart,
}

/// The supported games, in picker order.
pub fn registry() -> (r: Vec<GameId>)
    ensures
        r@ == registry_spec(),
{
    let mut v = Vec::new();
    v.push(GameId::Soh);
    v.push(GameId::TwoShip);
    v.push(GameId::Ghostship);
    v.push(GameId::Starship);
    v.push(GameId::SpaghettiKart);
    assert(v@ =~= seq![
        GameId::Soh,
        GameId::TwoShip,
        GameId::Ghostship,
        GameId::Starship,
        GameId::SpaghettiKart,
    ]);
    v
}

/// The game whose slug is `slug`, if any.
pub open spec fn game_with_slug(slug: Seq<char>) -> Option<GameId> {
    if exists|g: GameId| #[trigger] g.spec_slug() == slug {
        Some(choose|g: GameId| #[trigger] g.spec_slug() == slug)
    } else {
        None
    }
}

/// No two games share a slug.
pub proof fn law_slugs_distinct(g: GameId, h: GameId)
    ensures
        g.spec_slug() == h.spec_slug() ==> g == h,
{
    reveal_strlit("soh");
    reveal_strlit("2ship");
    reveal_strlit("ghostship");
    reveal_strlit("starship");
    reveal_strlit("spaghettikart");
    if g.spec_slug() == h.spec_slug() {
        assert(g.spec_slug().len() == h.spec_slug().len());
    }
}

/// The game whose slug is `slug`.
pub fn game_for_slug(slug: &str) -> (r: Option<GameId>)
    ensures
        match r {
            Some(g) => g.spec_slug() == slug@,
            None => forall|g: GameId| g.spec_slug() != slug@,
        },
        r == game_with_slug(slug@),
{
    let all = registry();
    let n = all.len();
    for i in 0..n
        invariant
            n == all@.len(),
            all@ == registry_spec(),
            forall|j: int| 0 <= j < i ==> (#[trigger] all@[j]).spec_slug() != slug@,
    {
        if crate::text::str_eq(all[i].slug(), slug) {
            proof {
                let c = choose|g: GameId| #[trigger] g.spec_slug() == slug@;
                law_slugs_distinct(c, all@[i as int]);
            }
            return Some(all[i]);
        }
    }
    proof {
        assert forall|g: GameId| g.spec_slug() != slug@ by {
            let j: int = match g {
                GameId::Soh => 0,
                GameId::TwoShip => 1,
                GameId::Ghostship => 2,
                GameId::Starship => 3,
                GameId::SpaghettiKart => 4,
            };
            assert(all@[j] == g);
        }
    }
    None
}

/// The supported games, in picker order.
pub open spec fn registry_spec() -> Seq<GameId> {
    seq![GameId::Soh, GameId::TwoShip, GameId::Ghostship, GameId::Starship, GameId::SpaghettiKart]
}

impl Game for GameId {
    open spec fn spec_slug(&self) -> Seq<char> {
        match self {
            GameId::Soh => soh::Soh.spec_slug(),
            GameId::TwoShip => twoship::TwoShip.spec_slug(),
            GameId::Ghostship => ghostship::Ghostship.spec_slug(),
            GameId::Starship => starship::Starship.spec_slug(),
            GameId::SpaghettiKart => spaghettikart::SpaghettiKart.spec_slug(),
        }
    }

    open spec fn spec_repo_slug(&self) -> Seq<char> {
        match self {
            GameId::Soh => soh::Soh.spec_repo_slug(),
            GameId::TwoShip => twoship::TwoShip.spec_repo_slug(),
            GameId::Ghostship => ghostship::Ghostship.spec_repo_slug(),
            GameId::Starship => starship::Starship.spec_repo_slug(),
            GameId::SpaghettiKart => spaghettikart::SpaghettiKart.spec_repo_slug(),
        }
    }

    open spec fn spec_display_name(&self) -> Seq<char> {
        match self {
            GameId::Soh => soh::Soh.spec_display_name(),
            GameId::TwoShip => twoship::TwoShip.spec_display_name(),
            GameId::Ghostship => ghostship::Ghostship.spec_display_name(),
            GameId::Starship => starship::Starship.spec_display_name(),
            GameId::SpaghettiKart => spaghettikart::SpaghettiKart.spec_display_name(),
        }
    }

    open spec fn spec_rom_group_name(&self) -> Seq<char> {
        match self {
            GameId::Soh => soh::Soh.spec_rom_group_name(),
            GameId::TwoShip => twoship::TwoShip.spec_rom_group_name(),
            GameId::Ghostship => ghostship::Ghostship.spec_rom_group_name(),
            GameId::Starship => starship::Starship.spec_rom_group_name(),
            GameId::SpaghettiKart => spaghettikart::SpaghettiKart.spec_rom_group_name(),
        }
    }

    open spec fn spec_sort_name(&self) -> Seq<char> {
        match self {
            GameId::Soh => soh::Soh.spec_sort_name(),
            GameId::TwoShip => twoship::TwoShip.spec_sort_name(),
            GameId::Ghostship => ghostship::Ghostship.spec_sort_name(),
            GameId::Starship => starship::Starship.spec_sort_name(),
            GameId::SpaghettiKart => spaghettikart::SpaghettiKart.spec_sort_name(),
        }
    }

    open spec fn spec_slots(&self) -> Seq<(Seq<char>, Seq<char>, Seq<char>)> {
        match self {
            GameId::Soh => soh::Soh.spec_slots(),
            GameId::TwoShip => twoship::TwoShip.spec_slots(),
            GameId::Ghostship => ghostship::Ghostship.spec_slots(),
            GameId::Starship => starship::Starship.spec_slots(),
            GameId::SpaghettiKart => spaghettikart::SpaghettiKart.spec_slots(),
        }
    }

    open spec fn spec_cached_assets(&self) -> Seq<(Seq<char>, Seq<Seq<char>>)> {
        match self {
            GameId::Soh => soh::Soh.spec_cached_assets(),
            GameId::TwoShip => twoship::TwoShip.spec_cached_assets(),
            GameId::Ghostship => ghostship::Ghostship.spec_cached_assets(),
            GameId::Starship => starship::Starship.spec_cached_assets(),
            GameId::SpaghettiKart => spaghettikart::SpaghettiKart.spec_cached_assets(),
        }
    }

    open spec fn spec_asset_needle(&self, keyword: Seq<char>, arch: Seq<char>) -> Option<Seq<char>> {
        match self {
            GameId::Soh => soh::Soh.spec_asset_needle(keyword, arch),
            GameId::TwoShip => twoship::TwoShip.spec_asset_needle(keyword, arch),
            GameId::Ghostship => ghostship::Ghostship.spec_asset_needle(keyword, arch),
            GameId::Starship => starship::Starship.spec_asset_needle(keyword, arch),
            GameId::SpaghettiKart => spaghettikart::SpaghettiKart.spec_asset_needle(keyword, arch),
        }
    }

    open spec fn spec_binary(&self, keyword: Seq<char>) -> Seq<char> {
        match self {
            GameId::Soh => soh::Soh.spec_binary(keyword),
            GameId::TwoShip => twoship::TwoShip.spec_binary(keyword),
            GameId::Ghostship => ghostship::Ghostship.spec_binary(keyword),
            GameId::Starship => starship::Starship.spec_binary(keyword),
            GameId::SpaghettiKart => spaghettikart::SpaghettiKart.spec_binary(keyword),
        }
    }

    open spec fn spec_extract(&self, keyword: Seq<char>) -> ExtractKind {
        match self {
            GameId::Soh => soh::Soh.spec_extract(keyword),
            GameId::TwoShip => twoship::TwoShip.spec_extract(keyword),
            GameId::Ghostship => ghostship::Ghostship.spec_extract(keyword),
            GameId::Starship => starship::Starship.spec_extract(keyword),
            GameId::SpaghettiKart => spaghettikart::SpaghettiKart.spec_extract(keyword),
        }
    }

    fn slug(&self) -> (r: &'static str) {
        match self {
            GameId::Soh => soh::Soh.slug(),
            GameId::TwoShip => twoship::TwoShip.slug(),
            GameId::Ghostship => ghostship::Ghostship.slug(),
            GameId::Starship => starship::Starship.slug(),
            GameId::SpaghettiKart => spaghettikart::SpaghettiKart.slug(),
        }
    }

    fn repo_slug(&self) -> (r: &'static str) {
        match self {
            GameId::Soh => soh::Soh.repo_slug(),
            GameId::TwoShip => twoship::TwoShip.repo_slug(),
            GameId::Ghostship => ghostship::Ghostship.repo_slug(),
            GameId::Starship => starship::Starship.repo_slug(),
            GameId::SpaghettiKart => spaghettikart::SpaghettiKart.repo_slug(),
        }
    }

    fn display_name(&self) -> (r: &'static str) {
        match self {
            GameId::Soh => soh::Soh.display_name(),
            GameId::TwoShip => twoship::TwoShip.display_name(),
            GameId::Ghostship => ghostship::Ghostship.display_name(),
            GameId::Starship => starship::Starship.display_name(),
            GameId::SpaghettiKart => spaghettikart::SpaghettiKart.display_name(),
        }
    }

    fn rom_group_name(&self) -> (r: &'static str) {
        match self {
            GameId::Soh => soh::Soh.rom_group_name(),
            GameId::TwoShip => twoship::TwoShip.rom_group_name(),
            GameId::Ghostship => ghostship::Ghostship.rom_group_name(),
            GameId::Starship => starship::Starship.rom_group_name(),
            GameId::SpaghettiKart => spaghettikart::SpaghettiKart.rom_group_name(),
        }
    }

    fn sort_name(&self) -> (r: &'static str) {
        match self {
            GameId::Soh => soh::Soh.sort_name(),
            GameId::TwoShip => twoship::TwoShip.sort_name(),
            GameId::Ghostship => ghostship::Ghostship.sort_name(),
            GameId::Starship => starship::Starship.sort_name(),
            GameId::SpaghettiKart => spaghettikart::SpaghettiKart.sort_name(),
        }
    }

    fn slots(&self) -> (r: Vec<SlotSpec>) {
        match self {
            GameId::Soh => soh::Soh.slots(),
            GameId::TwoShip => twoship::TwoShip.slots(),
            GameId::Ghostship => ghostship::Ghostship.slots(),
            GameId::Starship => starship::Starship.slots(),
            GameId::SpaghettiKart => spaghettikart::SpaghettiKart.slots(),
        }
    }

    fn cached_assets(&self) -> (r: Vec<CachedAssetSpec>) {
        match self {
            GameId::Soh => soh::Soh.cached_assets(),
            GameId::TwoShip => twoship::TwoShip.cached_assets(),
            GameId::Ghostship => ghostship::Ghostship.cached_assets(),
            GameId::Starship => starship::Starship.cached_assets(),
            GameId::SpaghettiKart => spaghettikart::SpaghettiKart.cached_assets(),
        }
    }

    fn asset_needle<P: Platform>(&self, platform: &P, arch: &str) -> (r: Option<String>) {
        match self {
            GameId::Soh => soh::Soh.asset_needle(platform, arch),
            GameId::TwoShip => twoship::TwoShip.asset_needle(platform, arch),
            GameId::Ghostship => ghostship::Ghostship.asset_needle(platform, arch),
            GameId::Starship => starship::Starship.asset_needle(platform, arch),
            GameId::SpaghettiKart => spaghettikart::SpaghettiKart.asset_needle(platform, arch),
        }
    }

    fn binary<P: Platform>(&self, platform: &P) -> (r: &'static str) {
        match self {
            GameId::Soh => soh::Soh.binary(platform),
            GameId::TwoShip => twoship::TwoShip.binary(platform),
            GameId::Ghostship => ghostship::Ghostship.binary(platform),
            GameId::Starship => starship::Starship.binary(platform),
            GameId::SpaghettiKart => spaghettikart::SpaghettiKart.binary(platform),
        }
    }

    fn extract_plan<P: Platform>(&self, platform: &P) -> (r: ExtractPlan) {
        match self {
            GameId::Soh => soh::Soh.extract_plan(platform),
            GameId::TwoShip => twoship::TwoShip.extract_plan(platform),
            GameId::Ghostship => ghostship::Ghostship.extract_plan(platform),
            GameId::Starship => starship::Starship.extract_plan(platform),
            GameId::SpaghettiKart => spaghettikart::SpaghettiKart.extract_plan(platform),
        }
    }
}

/// The program a game launches on a platform is the one its install puts
/// there: the binary a flat archive names, an appimage where the appimage is
/// found inside the archive, and the executable inside the `.app` bundle
/// copied out of a disk image.
pub proof fn law_launch_binary_is_installed(g: GameId, keyword: Seq<char>)
    ensures
        g.spec_extract(keyword) matches ExtractKind::FlatZip(b) ==> g.spec_binary(keyword) == b,
        g.spec_extract(keyword) is NestedAppImage ==> seq_ends_with(
            g.spec_binary(keyword),
            ".appimage"@,
        ),
        g.spec_extract(keyword) is AppInDmg ==> seq_contains(
            g.spec_binary(keyword),
            ".app/Contents/MacOS/"@,
        ),
{
    let needle = ".app/Contents/MacOS/"@;
    reveal_strlit(".appimage");
    reveal_strlit(".app/Contents/MacOS/");
    if g.spec_extract(keyword) is NestedAppImage {
        reveal_strlit("starship.appimage");
        let b = g.spec_binary(keyword);
        assert(b.skip(b.len() - 9) =~= ".appimage"@);
    }
    if g.spec_extract(keyword) is AppInDmg {
        let b = g.spec_binary(keyword);
        match g {
            GameId::Soh => {
                reveal_strlit("soh.app/Contents/MacOS/soh");
                assert(b.subrange(3int, 3int + 20) =~= needle);
                assert(occurs_at(b, needle, 3));
            },
            GameId::TwoShip => {
                reveal_strlit("2s2h.app/Contents/MacOS/2s2h");
                assert(b.subrange(4int, 4int + 20) =~= needle);
                assert(occurs_at(b, needle, 4));
            },
            GameId::Ghostship => {
                reveal_strlit("Ghostship.app/Contents/MacOS/Ghostship");
                assert(b.subrange(9int, 9int + 20) =~= needle);
                assert(occurs_at(b, needle, 9));
            },
            _ => {},
        }
    }
}

} // verus!
