//! 2 Ship 2 Harkinian: the native Majora's Mask build.

use vstd::prelude::*;

use super::{
    lowercase_keyword, unsupported, CachedAssetSpec, ExtractKind, ExtractPlan, Game, SlotSpec,
};
use crate::platform::Platform;
use crate::text::{ascii_lower, owned, str_eq};

verus! {

pub const SLOT_MM: &'static str = "mm";

pub struct TwoShip;

impl Game for TwoShip {
    open spec fn spec_slug(&self) -> Seq<char> {
        "2ship"@
    }

    open spec fn spec_repo_slug(&self) -> Seq<char> {
        "HarbourMasters/2ship2harkinian"@
    }

    open spec fn spec_display_name(&self) -> Seq<char> {
        "2Ship2Harkinian"@
    }

    open spec fn spec_rom_group_name(&self) -> Seq<char> {
        "Majora's Mask"@
    }

    open spec fn spec_sort_name(&self) -> Seq<char> {
        "Ship of Harkinian 2"@
    }

    open spec fn spec_slots(&self) -> Seq<(Seq<char>, Seq<char>, Seq<char>)> {
        seq![("mm"@, "Majora's Mask"@, "majoras_mask.z64"@)]
    }

    open spec fn spec_cached_assets(&self) -> Seq<(Seq<char>, Seq<Seq<char>>)> {
        seq![("mm"@, seq!["mm.o2r"@])]
    }

    open spec fn spec_asset_needle(&self, keyword: Seq<char>, arch: Seq<char>) -> Option<Seq<char>> {
        Some(ascii_lower(keyword))
    }

    open spec fn spec_binary(&self, keyword: Seq<char>) -> Seq<char> {
        if keyword == "Mac"@ {
            "2s2h.app/Contents/MacOS/2s2h"@
        } else if keyword == "Linux"@ {
            "2ship.appimage"@
        } else {
            "2s2h"@
        }
    }

    open spec fn spec_extract(&self, keyword: Seq<char>) -> ExtractKind {
        if keyword == "Mac"@ {
            ExtractKind::AppInDmg
        } else if keyword == "Linux"@ {
            ExtractKind::FlatZip("2ship.appimage"@)
        } else {
            ExtractKind::Unsupported("2Ship: unsupported platform keyword "@ + keyword)
        }
    }

    fn slug(&self) -> (r: &'static str) {
        "2ship"
    }

    fn repo_slug(&self) -> (r: &'static str) {
        "HarbourMasters/2ship2harkinian"
    }

    fn display_name(&self) -> (r: &'static str) {
        "2Ship2Harkinian"
    }

    fn rom_group_name(&self) -> (r: &'static str) {
        "Majora's Mask"
    }

    fn sort_name(&self) -> (r: &'static str) {
        "Ship of Harkinian 2"
    }

    fn slots(&self) -> (r: Vec<SlotSpec>) {
        let v = vec![
            SlotSpec { id: SLOT_MM, display_name: "Majora's Mask", symlink_filename: "majoras_mask.z64" },
        ];
        assert(v@.map_values(|s: SlotSpec| super::slot_view(s)) =~= self.spec_slots());
        v
    }

    fn cached_assets(&self) -> (r: Vec<CachedAssetSpec>) {
        let v = vec![
            CachedAssetSpec { slot_id: SLOT_MM, filenames: vec!["mm.o2r"] },
        ];
        assert(v@[0].filenames@.map_values(|f: &'static str| f@) =~= seq!["mm.o2r"@]);
        assert(v@.map_values(|c: CachedAssetSpec| super::cached_view(c)) =~= self.spec_cached_assets());
        v
    }

    fn asset_needle<P: Platform>(&self, platform: &P, arch: &str) -> (r: Option<String>) {
        Some(lowercase_keyword(platform))
    }

    fn binary<P: Platform>(&self, platform: &P) -> (r: &'static str) {
        let k = platform.asset_keyword();
        if str_eq(k, "Mac") {
            "2s2h.app/Contents/MacOS/2s2h"
        } else if str_eq(k, "Linux") {
            "2ship.appimage"
        } else {
            "2s2h"
        }
    }

    fn extract_plan<P: Platform>(&self, platform: &P) -> (r: ExtractPlan) {
        let k = platform.asset_keyword();
        if str_eq(k, "Mac") {
            ExtractPlan::AppInDmg
        } else if str_eq(k, "Linux") {
            ExtractPlan::FlatZip { binary: "2ship.appimage" }
        } else {
            proof {
                reveal_strlit("");
                assert("2Ship: unsupported platform keyword "@ + k@ + ""@ =~= "2Ship: unsupported platform keyword "@ + k@);
            }
            unsupported("2Ship: unsupported platform keyword ", k, "")
        }
    }
}

} // verus!
