//! Ship of Harkinian: the native Ocarina of Time build.

use vstd::prelude::*;

use super::{
    lowercase_keyword, unsupported, CachedAssetSpec, ExtractKind, ExtractPlan, Game, SlotSpec,
};
use crate::platform::Platform;
use crate::text::{ascii_lower, str_eq};

verus! {

pub const SLOT_OOT: &'static str = "oot";

pub const SLOT_OOT_MQ: &'static str = "oot-mq";

pub struct Soh;

impl Game for Soh {
    open spec fn spec_slug(&self) -> Seq<char> {
        "soh"@
    }

    open spec fn spec_repo_slug(&self) -> Seq<char> {
        "HarbourMasters/Shipwright"@
    }

    open spec fn spec_display_name(&self) -> Seq<char> {
        "Ship of Harkinian"@
    }

    open spec fn spec_rom_group_name(&self) -> Seq<char> {
        "Ocarina of Time"@
    }

    open spec fn spec_sort_name(&self) -> Seq<char> {
        "Ship of Harkinian"@
    }

    open spec fn spec_slots(&self) -> Seq<(Seq<char>, Seq<char>, Seq<char>)> {
        seq![
            ("oot"@, "Ocarina of Time"@, "oot.z64"@),
            ("oot-mq"@, "Ocarina of Time - Master Quest"@, "oot-mq.z64"@),
        ]
    }

    open spec fn spec_cached_assets(&self) -> Seq<(Seq<char>, Seq<Seq<char>>)> {
        seq![("oot"@, seq!["oot.o2r"@, "oot.otr"@]), ("oot-mq"@, seq!["oot-mq.o2r"@, "oot-mq.otr"@])]
    }

    open spec fn spec_asset_needle(&self, keyword: Seq<char>, arch: Seq<char>) -> Option<Seq<char>> {
        Some(ascii_lower(keyword))
    }

    open spec fn spec_binary(&self, keyword: Seq<char>) -> Seq<char> {
        if keyword == "Mac"@ {
            "soh.app/Contents/MacOS/soh"@
        } else if keyword == "Linux"@ {
            "soh.appimage"@
        } else {
            "soh"@
        }
    }

    open spec fn spec_extract(&self, keyword: Seq<char>) -> ExtractKind {
        if keyword == "Mac"@ {
            ExtractKind::AppInDmg
        } else if keyword == "Linux"@ {
            ExtractKind::FlatZip("soh.appimage"@)
        } else {
            ExtractKind::Unsupported("SoH: unsupported platform keyword "@ + keyword)
        }
    }

    fn slug(&self) -> (r: &'static str) {
        "soh"
    }

    fn repo_slug(&self) -> (r: &'static str) {
        "HarbourMasters/Shipwright"
    }

    fn display_name(&self) -> (r: &'static str) {
        "Ship of Harkinian"
    }

    fn rom_group_name(&self) -> (r: &'static str) {
        "Ocarina of Time"
    }

    fn sort_name(&self) -> (r: &'static str) {
        "Ship of Harkinian"
    }

    fn slots(&self) -> (r: Vec<SlotSpec>) {
        let v = vec![
            SlotSpec { id: SLOT_OOT, display_name: "Ocarina of Time", symlink_filename: "oot.z64" },
            SlotSpec {
                id: SLOT_OOT_MQ,
                display_name: "Ocarina of Time - Master Quest",
                symlink_filename: "oot-mq.z64",
            },
        ];
        assert(v@.map_values(|s: SlotSpec| super::slot_view(s)) =~= self.spec_slots());
        v
    }

    fn cached_assets(&self) -> (r: Vec<CachedAssetSpec>) {
        let v = vec![
            CachedAssetSpec { slot_id: SLOT_OOT, filenames: vec!["oot.o2r", "oot.otr"] },
            CachedAssetSpec { slot_id: SLOT_OOT_MQ, filenames: vec!["oot-mq.o2r", "oot-mq.otr"] },
        ];
        assert(v@[0].filenames@.map_values(|f: &'static str| f@) =~= seq!["oot.o2r"@, "oot.otr"@]);
        assert(v@[1].filenames@.map_values(|f: &'static str| f@) =~= seq![
            "oot-mq.o2r"@,
            "oot-mq.otr"@,
        ]);
        assert(v@.map_values(|c: CachedAssetSpec| super::cached_view(c)) =~= self.spec_cached_assets());
        v
    }

    fn asset_needle<P: Platform>(&self, platform: &P, arch: &str) -> (r: Option<String>) {
        Some(lowercase_keyword(platform))
    }

    fn binary<P: Platform>(&self, platform: &P) -> (r: &'static str) {
        let k = platform.asset_keyword();
        if str_eq(k, "Mac") {
            "soh.app/Contents/MacOS/soh"
        } else if str_eq(k, "Linux") {
            "soh.appimage"
        } else {
            "soh"
        }
    }

    fn extract_plan<P: Platform>(&self, platform: &P) -> (r: ExtractPlan) {
        let k = platform.asset_keyword();
        if str_eq(k, "Mac") {
            ExtractPlan::AppInDmg
        } else if str_eq(k, "Linux") {
            ExtractPlan::FlatZip { binary: "soh.appimage" }
        } else {
            proof {
                reveal_strlit("");
                assert("SoH: unsupported platform keyword "@ + k@ + ""@ =~= "SoH: unsupported platform keyword "@ + k@);
            }
            unsupported("SoH: unsupported platform keyword ", k, "")
        }
    }
}

} // verus!
