//! Starship: the native Star Fox 64 build (Linux releases only).

use vstd::prelude::*;

use super::{
    lowercase_keyword, unsupported, CachedAssetSpec, ExtractKind, ExtractPlan, Game, SlotSpec,
};
use crate::platform::Platform;
use crate::text::{ascii_lower, owned, str_eq};

verus! {

pub const SLOT_SF64_US: &'static str = "sf64-us";

pub const SLOT_SF64_EU: &'static str = "sf64-eu";

pub const SLOT_SF64_JP: &'static str = "sf64-jp";

pub struct Starship;

impl Game for Starship {
    open spec fn spec_slug(&self) -> Seq<char> {
        "starship"@
    }

    open spec fn spec_repo_slug(&self) -> Seq<char> {
        "HarbourMasters/Starship"@
    }

    open spec fn spec_display_name(&self) -> Seq<char> {
        "Starship"@
    }

    open spec fn spec_rom_group_name(&self) -> Seq<char> {
        "Star Fox 64"@
    }

    open spec fn spec_sort_name(&self) -> Seq<char> {
        "Starship"@
    }

    open spec fn spec_slots(&self) -> Seq<(Seq<char>, Seq<char>, Seq<char>)> {
        seq![("sf64-us"@, "Star Fox 64 (US)"@, "sf64-us.z64"@), ("sf64-eu"@, "Star Fox 64 (EU voice)"@, "sf64-eu.z64"@), ("sf64-jp"@, "Star Fox 64 (JP voice)"@, "sf64-jp.z64"@)]
    }

    open spec fn spec_cached_assets(&self) -> Seq<(Seq<char>, Seq<Seq<char>>)> {
        seq![("sf64-us"@, seq!["sf64.o2r"@])]
    }

    open spec fn spec_asset_needle(&self, keyword: Seq<char>, arch: Seq<char>) -> Option<Seq<char>> {
        if keyword == "Linux"@ {
            Some("linux"@)
        } else {
            None
        }
    }

    open spec fn spec_binary(&self, keyword: Seq<char>) -> Seq<char> {
        if keyword == "Linux"@ {
            "starship.appimage"@
        } else {
            "starship"@
        }
    }

    open spec fn spec_extract(&self, keyword: Seq<char>) -> ExtractKind {
        if keyword == "Linux"@ {
            ExtractKind::NestedAppImage
        } else {
            ExtractKind::Unsupported("Starship: unsupported platform keyword "@ + keyword + " (Linux-only in v1)"@)
        }
    }

    fn slug(&self) -> (r: &'static str) {
        "starship"
    }

    fn repo_slug(&self) -> (r: &'static str) {
        "HarbourMasters/Starship"
    }

    fn display_name(&self) -> (r: &'static str) {
        "Starship"
    }

    fn rom_group_name(&self) -> (r: &'static str) {
        "Star Fox 64"
    }

    fn sort_name(&self) -> (r: &'static str) {
        "Starship"
    }

    fn slots(&self) -> (r: Vec<SlotSpec>) {
        let v = vec![
            SlotSpec { id: SLOT_SF64_US, display_name: "Star Fox 64 (US)", symlink_filename: "sf64-us.z64" },
            SlotSpec { id: SLOT_SF64_EU, display_name: "Star Fox 64 (EU voice)", symlink_filename: "sf64-eu.z64" },
            SlotSpec { id: SLOT_SF64_JP, display_name: "Star Fox 64 (JP voice)", symlink_filename: "sf64-jp.z64" },
        ];
        assert(v@.map_values(|s: SlotSpec| super::slot_view(s)) =~= self.spec_slots());
        v
    }

    fn cached_assets(&self) -> (r: Vec<CachedAssetSpec>) {
        let v = vec![
            CachedAssetSpec { slot_id: SLOT_SF64_US, filenames: vec!["sf64.o2r"] },
        ];
        assert(v@[0].filenames@.map_values(|f: &'static str| f@) =~= seq!["sf64.o2r"@]);
        assert(v@.map_values(|c: CachedAssetSpec| super::cached_view(c)) =~= self.spec_cached_assets());
        v
    }

    fn asset_needle<P: Platform>(&self, platform: &P, arch: &str) -> (r: Option<String>) {
        if str_eq(platform.asset_keyword(), "Linux") {
            Some(owned("linux"))
        } else {
            None
        }
    }

    fn binary<P: Platform>(&self, platform: &P) -> (r: &'static str) {
        let k = platform.asset_keyword();
        if str_eq(k, "Linux") {
            "starship.appimage"
        } else {
            "starship"
        }
    }

    fn extract_plan<P: Platform>(&self, platform: &P) -> (r: ExtractPlan) {
        let k = platform.asset_keyword();
        if str_eq(k, "Linux") {
            ExtractPlan::NestedAppImage
        } else {
            unsupported("Starship: unsupported platform keyword ", k, " (Linux-only in v1)")
        }
    }
}

impl Starship {
    /// The game reads the ROM through the slot symlink; no copy is needed.
    pub fn requires_rom_copy(&self) -> (r: bool)
        ensures
            !r,
    {
        false
    }
}

} // verus!
