//! SpaghettiKart: the native Mario Kart 64 build.

use vstd::prelude::*;

use super::{
    lowercase_keyword, unsupported, CachedAssetSpec, ExtractKind, ExtractPlan, Game, SlotSpec,
};
use crate::platform::Platform;
use crate::text::{ascii_lower, owned, str_eq};

verus! {

pub const SLOT_MK64: &'static str = "mk64";

pub struct SpaghettiKart;

impl Game for SpaghettiKart {
    open spec fn spec_slug(&self) -> Seq<char> {
        "spaghettikart"@
    }

    open spec fn spec_repo_slug(&self) -> Seq<char> {
        "HarbourMasters/SpaghettiKart"@
    }

    open spec fn spec_display_name(&self) -> Seq<char> {
        "SpaghettiKart"@
    }

    open spec fn spec_rom_group_name(&self) -> Seq<char> {
        "Mario Kart 64"@
    }

    open spec fn spec_sort_name(&self) -> Seq<char> {
        "SpaghettiKart"@
    }

    open spec fn spec_slots(&self) -> Seq<(Seq<char>, Seq<char>, Seq<char>)> {
        seq![("mk64"@, "Mario Kart 64"@, "mk64.z64"@)]
    }

    open spec fn spec_cached_assets(&self) -> Seq<(Seq<char>, Seq<Seq<char>>)> {
        seq![("mk64"@, seq!["mk64.o2r"@])]
    }

    open spec fn spec_asset_needle(&self, keyword: Seq<char>, arch: Seq<char>) -> Option<Seq<char>> {
        if keyword == "Linux"@ {
            Some("linux"@)
        } else if keyword == "Mac"@ {
            if arch == "aarch64"@ {
                Some("mac-arm64"@)
            } else if arch == "x86_64"@ {
                Some("mac-intel"@)
            } else {
                None
            }
        } else {
            None
        }
    }

    open spec fn spec_binary(&self, keyword: Seq<char>) -> Seq<char> {
        if keyword == "Linux"@ {
            "spaghetti.appimage"@
        } else if keyword == "Mac"@ {
            "Spaghettify"@
        } else {
            "spaghetti"@
        }
    }

    open spec fn spec_extract(&self, keyword: Seq<char>) -> ExtractKind {
        if keyword == "Linux"@ {
            ExtractKind::FlatZip("spaghetti.appimage"@)
        } else if keyword == "Mac"@ {
            ExtractKind::FlatZip("Spaghettify"@)
        } else {
            ExtractKind::Unsupported("SpaghettiKart: unsupported platform keyword "@ + keyword)
        }
    }

    fn slug(&self) -> (r: &'static str) {
        "spaghettikart"
    }

    fn repo_slug(&self) -> (r: &'static str) {
        "HarbourMasters/SpaghettiKart"
    }

    fn display_name(&self) -> (r: &'static str) {
        "SpaghettiKart"
    }

    fn rom_group_name(&self) -> (r: &'static str) {
        "Mario Kart 64"
    }

    fn sort_name(&self) -> (r: &'static str) {
        "SpaghettiKart"
    }

    fn slots(&self) -> (r: Vec<SlotSpec>) {
        let v = vec![
            SlotSpec { id: SLOT_MK64, display_name: "Mario Kart 64", symlink_filename: "mk64.z64" },
        ];
        assert(v@.map_values(|s: SlotSpec| super::slot_view(s)) =~= self.spec_slots());
        v
    }

    fn cached_assets(&self) -> (r: Vec<CachedAssetSpec>) {
        let v = vec![
            CachedAssetSpec { slot_id: SLOT_MK64, filenames: vec!["mk64.o2r"] },
        ];
        assert(v@[0].filenames@.map_values(|f: &'static str| f@) =~= seq!["mk64.o2r"@]);
        assert(v@.map_values(|c: CachedAssetSpec| super::cached_view(c)) =~= self.spec_cached_assets());
        v
    }

    fn asset_needle<P: Platform>(&self, platform: &P, arch: &str) -> (r: Option<String>) {
        let k = platform.asset_keyword();
        if str_eq(k, "Linux") {
            Some(owned("linux"))
        } else if str_eq(k, "Mac") {
            if str_eq(arch, "aarch64") {
                Some(owned("mac-arm64"))
            } else if str_eq(arch, "x86_64") {
                Some(owned("mac-intel"))
            } else {
                None
            }
        } else {
            None
        }
    }

    fn binary<P: Platform>(&self, platform: &P) -> (r: &'static str) {
        let k = platform.asset_keyword();
        if str_eq(k, "Linux") {
            "spaghetti.appimage"
        } else if str_eq(k, "Mac") {
            "Spaghettify"
        } else {
            "spaghetti"
        }
    }

    fn extract_plan<P: Platform>(&self, platform: &P) -> (r: ExtractPlan) {
        let k = platform.asset_keyword();
        if str_eq(k, "Linux") {
            ExtractPlan::FlatZip { binary: "spaghetti.appimage" }
        } else if str_eq(k, "Mac") {
            ExtractPlan::FlatZip { binary: "Spaghettify" }
        } else {
            proof {
                reveal_strlit("");
                assert("SpaghettiKart: unsupported platform keyword "@ + k@ + ""@ =~= "SpaghettiKart: unsupported platform keyword "@ + k@);
            }
            unsupported("SpaghettiKart: unsupported platform keyword ", k, "")
        }
    }
}

impl SpaghettiKart {
    /// The game reads the ROM through the slot symlink; no copy is needed.
    pub fn requires_rom_copy(&self) -> (r: bool)
        ensures
            !r,
    {
        false
    }
}

} // verus!
