use shipyard::games::ghostship::{Ghostship, SLOT_SM64};
use shipyard::games::soh::{Soh, SLOT_OOT, SLOT_OOT_MQ};
use shipyard::games::spaghettikart::{SpaghettiKart, SLOT_MK64};
use shipyard::games::starship::{Starship, SLOT_SF64_EU, SLOT_SF64_JP, SLOT_SF64_US};
use shipyard::games::twoship::{TwoShip, SLOT_MM};
use shipyard::games::{game_for_slug, registry, ExtractPlan, Game, GameId};
use shipyard::github::ReleaseAsset;
use shipyard::platform::linux::Linux;
use shipyard::platform::macos::MacOs;
use std::collections::HashSet;

const ARM: &str = "aarch64";
const INTEL: &str = "x86_64";

fn asset(name: &str) -> ReleaseAsset {
    ReleaseAsset { name: name.into(), browser_download_url: String::new(), size: 0 }
}

fn picked_name<G: Game, P: shipyard::platform::Platform>(
    g: &G,
    assets: &Vec<ReleaseAsset>,
    p: &P,
    arch: &str,
) -> Option<String> {
    g.pick_asset(assets, p, arch).map(|i| assets[i].name.clone())
}

fn slot_ids<G: Game>(g: &G) -> HashSet<&'static str> {
    g.slots().iter().map(|s| s.id).collect()
}

// --- Ghostship ---

fn ghostship_assets() -> Vec<ReleaseAsset> {
    vec![
        asset("Ghostship-Dutchman-Charlie-Linux.zip"),
        asset("Ghostship-Dutchman-Charlie-Mac.zip"),
        asset("Ghostship-Dutchman-Charlie-Win64.zip"),
    ]
}

#[test]
fn ghostship_picks_mac_asset_on_macos() {
    let assets = ghostship_assets();
    assert_eq!(
        picked_name(&Ghostship, &assets, &MacOs, ARM).unwrap(),
        "Ghostship-Dutchman-Charlie-Mac.zip"
    );
}

#[test]
fn ghostship_picks_linux_asset_on_linux() {
    let assets = ghostship_assets();
    assert_eq!(
        picked_name(&Ghostship, &assets, &Linux, INTEL).unwrap(),
        "Ghostship-Dutchman-Charlie-Linux.zip"
    );
}

#[test]
fn ghostship_returns_none_when_no_matching_asset() {
    let assets = vec![asset("Ghostship-Dutchman-Charlie-Win64.zip")];
    assert!(Ghostship.pick_asset(&assets, &MacOs, ARM).is_none());
    assert!(Ghostship.pick_asset(&assets, &Linux, INTEL).is_none());
}

#[test]
fn slots_returns_single_sm64_slot() {
    let slots = Ghostship.slots();
    assert_eq!(slots.len(), 1);
    assert_eq!(slots[0].id, SLOT_SM64);
    assert_eq!(slots[0].symlink_filename, "sm64.z64");
    assert_eq!(slots[0].display_name, "Super Mario 64");
}

#[test]
fn ghostship_cached_asset_slot_ids_match_declared_slots() {
    let ids = slot_ids(&Ghostship);
    for ca in Ghostship.cached_assets() {
        assert!(ids.contains(ca.slot_id));
    }
}

#[test]
fn ghostship_data_dir_is_install_dir() {
    assert_eq!(Ghostship.data_dir("/some/install", &MacOs), "/some/install");
}

// --- Ship of Harkinian ---

fn soh_assets() -> Vec<ReleaseAsset> {
    vec![
        asset("SoH-Ackbar-Delta-Linux.zip"),
        asset("SoH-Ackbar-Delta-Mac.zip"),
        asset("SoH-Ackbar-Delta-Win64.zip"),
    ]
}

#[test]
fn soh_picks_mac_asset_on_macos() {
    let assets = soh_assets();
    assert_eq!(picked_name(&Soh, &assets, &MacOs, ARM).unwrap(), "SoH-Ackbar-Delta-Mac.zip");
}

#[test]
fn soh_picks_linux_asset_on_linux() {
    let assets = soh_assets();
    assert_eq!(picked_name(&Soh, &assets, &Linux, INTEL).unwrap(), "SoH-Ackbar-Delta-Linux.zip");
}

#[test]
fn soh_returns_none_when_no_matching_asset() {
    let assets = vec![asset("SoH-Ackbar-Delta-Win64.zip")];
    assert!(Soh.pick_asset(&assets, &MacOs, ARM).is_none());
    assert!(Soh.pick_asset(&assets, &Linux, INTEL).is_none());
}

#[test]
fn slots_returns_oot_and_oot_mq() {
    let slots = Soh.slots();
    assert_eq!(slots.len(), 2);
    assert_eq!(slots[0].id, SLOT_OOT);
    assert_eq!(slots[0].symlink_filename, "oot.z64");
    assert_eq!(slots[0].display_name, "Ocarina of Time");
    assert_eq!(slots[1].id, SLOT_OOT_MQ);
    assert_eq!(slots[1].symlink_filename, "oot-mq.z64");
    assert_eq!(slots[1].display_name, "Ocarina of Time - Master Quest");
}

#[test]
fn soh_cached_asset_slot_ids_match_declared_slots() {
    let ids = slot_ids(&Soh);
    for ca in Soh.cached_assets() {
        assert!(ids.contains(ca.slot_id), "cached asset slot_id {:?} is not declared", ca.slot_id);
    }
}

// --- SpaghettiKart ---

fn spaghetti_assets() -> Vec<ReleaseAsset> {
    vec![
        asset("spaghetti-linux.zip"),
        asset("spaghetti-mac-arm64.zip"),
        asset("spaghetti-mac-intel-x64.zip"),
        asset("spaghetti-windows.zip"),
    ]
}

#[test]
fn spaghettikart_picks_linux_asset_on_linux() {
    let assets = spaghetti_assets();
    assert_eq!(picked_name(&SpaghettiKart, &assets, &Linux, INTEL).unwrap(), "spaghetti-linux.zip");
}

#[test]
fn spaghettikart_returns_none_when_no_matching_asset() {
    let assets = vec![asset("spaghetti-windows.zip")];
    assert!(SpaghettiKart.pick_asset(&assets, &Linux, INTEL).is_none());
}

#[test]
fn picks_mac_arm64_asset_on_apple_silicon() {
    let assets = spaghetti_assets();
    assert_eq!(
        picked_name(&SpaghettiKart, &assets, &MacOs, ARM).unwrap(),
        "spaghetti-mac-arm64.zip"
    );
}

#[test]
fn picks_mac_intel_asset_on_intel() {
    let assets = spaghetti_assets();
    assert_eq!(
        picked_name(&SpaghettiKart, &assets, &MacOs, INTEL).unwrap(),
        "spaghetti-mac-intel-x64.zip"
    );
}

#[test]
fn spaghettikart_has_no_mac_asset_on_other_architectures() {
    let assets = spaghetti_assets();
    assert!(SpaghettiKart.pick_asset(&assets, &MacOs, "riscv64").is_none());
}

#[test]
fn slots_returns_single_mk64_slot() {
    let slots = SpaghettiKart.slots();
    assert_eq!(slots.len(), 1);
    assert_eq!(slots[0].id, SLOT_MK64);
    assert_eq!(slots[0].symlink_filename, "mk64.z64");
    assert_eq!(slots[0].display_name, "Mario Kart 64");
}

#[test]
fn spaghettikart_cached_asset_slot_ids_match_declared_slots() {
    let ids = slot_ids(&SpaghettiKart);
    for ca in SpaghettiKart.cached_assets() {
        assert!(ids.contains(ca.slot_id));
    }
}

#[test]
fn spaghettikart_data_dir_is_install_dir() {
    assert_eq!(SpaghettiKart.data_dir("/some/install", &Linux), "/some/install");
}

// --- Starship ---

fn starship_assets() -> Vec<ReleaseAsset> {
    vec![
        asset("Starship-Barnard-Alfa-Linux.zip"),
        asset("Starship-Barnard-Alfa-Switch.zip"),
        asset("Starship-Barnard-Alfa-Windows.zip"),
    ]
}

#[test]
fn starship_picks_linux_asset_on_linux() {
    let assets = starship_assets();
    assert_eq!(
        picked_name(&Starship, &assets, &Linux, INTEL).unwrap(),
        "Starship-Barnard-Alfa-Linux.zip"
    );
}

#[test]
fn starship_returns_none_when_no_matching_asset() {
    let assets = vec![asset("Starship-Barnard-Alfa-Windows.zip")];
    assert!(Starship.pick_asset(&assets, &Linux, INTEL).is_none());
}

#[test]
fn returns_none_on_macos() {
    let assets = starship_assets();
    assert!(Starship.pick_asset(&assets, &MacOs, ARM).is_none());
}

#[test]
fn slots_returns_three_region_slots() {
    let slots = Starship.slots();
    assert_eq!(slots.len(), 3);
    let ids: Vec<&str> = slots.iter().map(|s| s.id).collect();
    assert_eq!(ids, vec![SLOT_SF64_US, SLOT_SF64_EU, SLOT_SF64_JP]);
    let symlinks: Vec<&str> = slots.iter().map(|s| s.symlink_filename).collect();
    assert_eq!(symlinks, vec!["sf64-us.z64", "sf64-eu.z64", "sf64-jp.z64"]);
}

#[test]
fn cached_asset_only_attached_to_us_slot() {
    let cached = Starship.cached_assets();
    assert_eq!(cached.len(), 1);
    assert_eq!(cached[0].slot_id, SLOT_SF64_US);
    assert_eq!(cached[0].filenames, vec!["sf64.o2r"]);
}

#[test]
fn starship_cached_asset_slot_ids_match_declared_slots() {
    let ids = slot_ids(&Starship);
    for ca in Starship.cached_assets() {
        assert!(ids.contains(ca.slot_id));
    }
}

#[test]
fn starship_data_dir_is_install_dir() {
    assert_eq!(Starship.data_dir("/some/install", &Linux), "/some/install");
}

// --- 2 Ship 2 Harkinian ---

fn twoship_assets() -> Vec<ReleaseAsset> {
    vec![
        asset("2Ship-Keiichi-Charlie-Linux.zip"),
        asset("2Ship-Keiichi-Charlie-Mac.zip"),
        asset("2Ship-Keiichi-Charlie-Win64.zip"),
    ]
}

#[test]
fn twoship_picks_mac_asset_on_macos() {
    let assets = twoship_assets();
    assert_eq!(picked_name(&TwoShip, &assets, &MacOs, ARM).unwrap(), "2Ship-Keiichi-Charlie-Mac.zip");
}

#[test]
fn twoship_picks_linux_asset_on_linux() {
    let assets = twoship_assets();
    assert_eq!(
        picked_name(&TwoShip, &assets, &Linux, INTEL).unwrap(),
        "2Ship-Keiichi-Charlie-Linux.zip"
    );
}

#[test]
fn twoship_returns_none_when_no_matching_asset() {
    let assets = vec![asset("2Ship-Keiichi-Charlie-Win64.zip")];
    assert!(TwoShip.pick_asset(&assets, &MacOs, ARM).is_none());
    assert!(TwoShip.pick_asset(&assets, &Linux, INTEL).is_none());
}

#[test]
fn slots_returns_single_mm_slot() {
    let slots = TwoShip.slots();
    assert_eq!(slots.len(), 1);
    assert_eq!(slots[0].id, SLOT_MM);
    assert_eq!(slots[0].symlink_filename, "majoras_mask.z64");
    assert_eq!(slots[0].display_name, "Majora's Mask");
}

#[test]
fn twoship_cached_asset_slot_ids_match_declared_slots() {
    let ids = slot_ids(&TwoShip);
    for ca in TwoShip.cached_assets() {
        assert!(ids.contains(ca.slot_id));
    }
}

#[test]
fn twoship_data_dir_is_install_dir() {
    assert_eq!(TwoShip.data_dir("/some/install", &MacOs), "/some/install");
}

// --- Archive layouts, binaries and the registry ---

#[test]
fn extract_plans_follow_each_games_release_layout() {
    assert_eq!(Soh.extract_plan(&MacOs), ExtractPlan::AppInDmg);
    assert_eq!(Soh.extract_plan(&Linux), ExtractPlan::FlatZip { binary: "soh.appimage" });
    assert_eq!(TwoShip.extract_plan(&Linux), ExtractPlan::FlatZip { binary: "2ship.appimage" });
    assert_eq!(SpaghettiKart.extract_plan(&MacOs), ExtractPlan::FlatZip { binary: "Spaghettify" });
    assert_eq!(
        Starship.extract_plan(&MacOs),
        ExtractPlan::Unsupported {
            message: "Starship: unsupported platform keyword Mac (Linux-only in v1)".to_string()
        }
    );
}

#[test]
fn launch_command_runs_binary_from_install_dir() {
    let cmd = Soh.launch_command("/games/soh/9.2.3", &Linux);
    assert_eq!(cmd.program, "/games/soh/9.2.3/soh.appimage");
    assert_eq!(cmd.current_dir, "/games/soh/9.2.3");
    let mac = Soh.launch_command("/games/soh/9.2.3", &MacOs);
    assert_eq!(mac.program, "/games/soh/9.2.3/soh.app/Contents/MacOS/soh");
}

#[test]
fn registry_lists_every_game_and_slugs_find_them() {
    let games = registry();
    assert_eq!(games.len(), 5);
    let mut slugs = HashSet::new();
    for g in &games {
        assert!(slugs.insert(g.slug()));
        assert_eq!(game_for_slug(g.slug()), Some(*g));
    }
    assert_eq!(game_for_slug("soh"), Some(GameId::Soh));
    assert_eq!(game_for_slug("nope"), None);
}
