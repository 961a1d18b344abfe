//! Ghostship: the native Super Mario 64 build.

use vstd::prelude::*;

use super::{
    lowercase_keyword, unsupported, CachedAssetSpec, ExtractKind, ExtractPlan, Game, SlotSpec,
};
use crate::platform::Platform;
use crate::text::{ascii_lower, owned, str_eq};

verus! {

pub const SLOT_SM64: &'static str = "sm64";

pub struct Ghostship;

impl Game for Ghostship {
    open spec fn spec_slug(&self) -> Seq<char> {
        "ghostship"@
    }

    open spec fn spec_repo_slug(&self) -> Seq<char> {
        "HarbourMasters/Ghostship"@
    }

    open spec fn spec_display_name(&self) -> Seq<char> {
        "Ghostship"@
    }

    open spec fn spec_rom_group_name(&self) -> Seq<char> {
        "Super Mario 64"@
    }

    open spec fn spec_sort_name(&self) -> Seq<char> {
        "Ghostship"@
    }

    open spec fn spec_slots(&self) -> Seq<(Seq<char>, Seq<char>, Seq<char>)> {
        seq![("sm64"@, "Super Mario 64"@, "sm64.z64"@)]
    }

    open spec fn spec_cached_assets(&self) -> Seq<(Seq<char>, Seq<Seq<char>>)> {
        seq![("sm64"@, seq!["sm64.o2r"@])]
    }

    open spec fn spec_asset_needle(&self, keyword: Seq<char>, arch: Seq<char>) -> Option<Seq<char>> {
        Some(ascii_lower(keyword))
    }

    open spec fn spec_binary(&self, keyword: Seq<char>) -> Seq<char> {
        if keyword == "Mac"@ {
            "Ghostship.app/Contents/MacOS/Ghostship"@
        } else if keyword == "Linux"@ {
            "ghostship.appimage"@
        } else {
            "ghostship"@
        }
    }

    open spec fn spec_extract(&self, keyword: Seq<char>) -> ExtractKind {
        if keyword == "Mac"@ {
            ExtractKind::AppInDmg
        } else if keyword == "Linux"@ {
            ExtractKind::FlatZip("ghostship.appimage"@)
        } else {
            ExtractKind::Unsupported("Ghostship: unsupported platform keyword "@ + keyword)
        }
    }

    fn slug(&self) -> (r: &'static str) {
        "ghostship"
    }

    fn repo_slug(&self) -> (r: &'static str) {
        "HarbourMasters/Ghostship"
    }

    fn display_name(&self) -> (r: &'static str) {
        "Ghostship"
    }

    fn rom_group_name(&self) -> (r: &'static str) {
        "Super Mario 64"
    }

    fn sort_name(&self) -> (r: &'static str) {
        "Ghostship"
    }

    fn slots(&self) -> (r: Vec<SlotSpec>) {
        let v = vec![
            SlotSpec { id: SLOT_SM64, display_name: "Super Mario 64", symlink_filename: "sm64.z64" },
        ];
        assert(v@.map_values(|s: SlotSpec| super::slot_view(s)) =~= self.spec_slots());
        v
    }

    fn cached_assets(&self) -> (r: Vec<CachedAssetSpec>) {
        let v = vec![
            CachedAssetSpec { slot_id: SLOT_SM64, filenames: vec!["sm64.o2r"] },
        ];
        assert(v@[0].filenames@.map_values(|f: &'static str| f@) =~= seq!["sm64.o2r"@]);
        assert(v@.map_values(|c: CachedAssetSpec| super::cached_view(c)) =~= self.spec_cached_assets());
        v
    }

    fn asset_needle<P: Platform>(&self, platform: &P, arch: &str) -> (r: Option<String>) {
        Some(lowercase_keyword(platform))
    }

    fn binary<P: Platform>(&self, platform: &P) -> (r: &'static str) {
        let k = platform.asset_keyword();
        if str_eq(k, "Mac") {
            "Ghostship.app/Contents/MacOS/Ghostship"
        } else if str_eq(k, "Linux") {
            "ghostship.appimage"
        } else {
            "ghostship"
        }
    }

    fn extract_plan<P: Platform>(&self, platform: &P) -> (r: ExtractPlan) {
        let k = platform.asset_keyword();
        if str_eq(k, "Mac") {
            ExtractPlan::AppInDmg
        } else if str_eq(k, "Linux") {
            ExtractPlan::FlatZip { binary: "ghostship.appimage" }
        } else {
            proof {
                reveal_strlit("");
                assert("Ghostship: unsupported platform keyword "@ + k@ + ""@ =~= "Ghostship: unsupported platform keyword "@ + k@);
            }
            unsupported("Ghostship: unsupported platform keyword ", k, "")
        }
    }
}

impl Ghostship {
    /// The game reads the ROM through the slot symlink; no copy is needed.
    pub fn requires_rom_copy(&self) -> (r: bool)
        ensures
            !r,
    {
        false
    }
}

} // verus!
