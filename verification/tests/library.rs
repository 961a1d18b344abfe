use shipyard::config::schema::Config;
use shipyard::games::GameId;
use shipyard::github::{Release, ReleaseAsset};
use shipyard::library::manifest::{InstallManifest, MANIFEST_FILE};
use shipyard::library::{
    install_manifest, installed_version, merge_scan, override_dirs, partial_path, percent,
    plan_install, read_version, InstallProgress, InstallRequest, InstalledVersion, ProgressFilter,
    RootEntry,
};
use shipyard::paths::{same_path, Env};
use shipyard::platform::HostPlatform;

fn version(tag: &str, slug: &str, path: &str) -> InstalledVersion {
    InstalledVersion { tag: tag.to_string(), game_slug: slug.to_string(), path: path.to_string() }
}

fn manifest(tag: &str, slug: &str) -> InstallManifest {
    InstallManifest {
        tag: tag.to_string(),
        game_slug: slug.to_string(),
        installed_at: "2026-04-14T13:07:27Z".to_string(),
        archive_sha256: None,
    }
}

fn release(tag: &str, assets: &[&str]) -> Release {
    Release {
        tag_name: tag.to_string(),
        name: None,
        published_at: None,
        assets: assets
            .iter()
            .map(|n| ReleaseAsset {
                name: n.to_string(),
                browser_download_url: format!("https://example.invalid/{n}"),
                size: 1,
            })
            .collect(),
    }
}

fn request(destination_override: Option<String>) -> InstallRequest {
    InstallRequest {
        game: GameId::Soh,
        release: release("9.2.3", &["SoH-Linux.zip", "SoH-Mac.zip"]),
        platform: HostPlatform::Linux,
        arch: "x86_64".to_string(),
        library_root: "/lib".to_string(),
        destination_override,
        download_dir: "/dl".to_string(),
    }
}

#[test]
fn scan_finds_dirs_with_manifest() {
    let entries = vec![
        RootEntry { version: read_version("/root/9.2.3", Ok(Some(manifest("9.2.3", "soh")))), nested: vec![] },
        RootEntry { version: read_version("/root/9.2.2", Ok(Some(manifest("9.2.2", "soh")))), nested: vec![] },
        RootEntry { version: read_version("/root/stray", Ok(None)), nested: vec![] },
    ];
    let found = merge_scan(&entries, &vec![]);
    assert_eq!(found.len(), 2);
    let tags: std::collections::HashSet<_> = found.iter().map(|v| v.tag.as_str()).collect();
    assert!(tags.contains("9.2.3"));
    assert!(tags.contains("9.2.2"));
}

#[test]
fn scan_reads_the_partitioned_layout_one_level_down() {
    let entries = vec![RootEntry {
        version: None,
        nested: vec![Some(version("9.2.3", "soh", "/root/soh/9.2.3")), None],
    }];
    let found = merge_scan(&entries, &vec![]);
    assert_eq!(found, vec![version("9.2.3", "soh", "/root/soh/9.2.3")]);
}

#[test]
fn scan_includes_overrides_outside_library_root() {
    let found = merge_scan(&vec![], &vec![Some(version("custom-tag", "soh", "/elsewhere/custom"))]);
    assert_eq!(found.len(), 1);
    assert_eq!(found[0].tag, "custom-tag");
    assert_eq!(found[0].path, "/elsewhere/custom");
}

#[test]
fn scan_deduplicates_overrides_inside_library_root() {
    let inside = version("9.2.3", "soh", "/root/9.2.3");
    let entries = vec![RootEntry { version: Some(inside.clone()), nested: vec![] }];
    let found = merge_scan(&entries, &vec![Some(inside)]);
    assert_eq!(found.len(), 1);
}

#[test]
fn scan_deduplicates_overrides_spelled_differently() {
    let inside = version("9.2.3", "soh", "/root/9.2.3");
    let entries = vec![RootEntry { version: Some(inside), nested: vec![] }];
    let overrides = vec![
        Some(version("9.2.3", "soh", "/root/9.2.3/")),
        Some(version("9.2.3", "soh", "/root//./9.2.3")),
        Some(version("9.2.4", "soh", "/root/9.2.4")),
    ];
    let found = merge_scan(&entries, &overrides);
    assert_eq!(found.len(), 2);
    assert_eq!(found[0].path, "/root/9.2.3");
    assert_eq!(found[1].path, "/root/9.2.4");
}

#[test]
fn same_path_compares_components() {
    assert!(same_path("/a/b", "/a/b/"));
    assert!(same_path("/a//b", "/a/./b"));
    assert!(same_path("./a", "./a/."));
    assert!(!same_path("./a", "a"));
    assert!(!same_path("/a", "a"));
    assert!(!same_path("/a/../b", "/b"));
    assert!(!same_path(".", ""));
}

#[test]
fn unreadable_manifest_means_no_install() {
    assert_eq!(read_version("/x", Err("parse manifest".to_string())), None);
    assert_eq!(InstallManifest::path_in("/x"), format!("/x/{MANIFEST_FILE}"));
}

#[test]
fn override_dirs_are_expanded() {
    let mut cfg = Config::default();
    cfg.install_overrides.insert("custom".to_string(), "~/games/custom".to_string());
    let env = Env { vars: vec![("HOME".to_string(), "/home/u".to_string())] };
    assert_eq!(
        override_dirs(&cfg, &env),
        vec![("custom".to_string(), "/home/u/games/custom".to_string())]
    );
}

#[test]
fn install_plan_goes_under_game_and_tag() {
    let plan = plan_install(&request(None), &Env { vars: vec![] }).unwrap();
    assert_eq!(plan.asset.name, "SoH-Linux.zip");
    assert_eq!(plan.archive_path, "/dl/SoH-Linux.zip");
    assert_eq!(plan.dest_final, "/lib/soh/9.2.3");
    assert_eq!(plan.dest_partial, "/lib/soh/9.2.3.partial");
}

#[test]
fn install_plan_respects_destination_override() {
    let plan = plan_install(&request(Some("/elsewhere/custom".to_string())), &Env { vars: vec![] })
        .unwrap();
    assert_eq!(plan.dest_final, "/elsewhere/custom");
    assert_eq!(plan.dest_partial, "/elsewhere/custom.partial");
}

#[test]
fn install_plan_fails_without_an_asset_for_the_platform() {
    let mut req = request(None);
    req.release = release("9.2.3", &["SoH-Win64.zip"]);
    assert_eq!(
        plan_install(&req, &Env { vars: vec![] }).unwrap_err(),
        "no asset for 9.2.3 on this platform"
    );
}

#[test]
fn finished_install_reports_manifest_and_version() {
    let req = request(None);
    let plan = plan_install(&req, &Env { vars: vec![] }).unwrap();
    let m = install_manifest(&req, "2026-01-01T00:00:00Z".to_string());
    assert_eq!(m.tag, "9.2.3");
    assert_eq!(m.game_slug, "soh");
    assert_eq!(installed_version(&req, &plan), version("9.2.3", "soh", "/lib/soh/9.2.3"));
}

#[test]
fn partial_path_sits_beside_the_install() {
    assert_eq!(partial_path("/lib/soh/9.2.3"), "/lib/soh/9.2.3.partial");
    assert_eq!(partial_path("relative"), "relative.partial");
}

#[test]
fn percent_is_clamped_and_saturates() {
    assert_eq!(percent(50, 200), 25);
    assert_eq!(percent(300, 200), 100);
    assert_eq!(percent(u64::MAX, u64::MAX), 1);
    assert_eq!(percent(0, 7), 0);
}

#[test]
fn progress_reports_each_percentage_once() {
    let mut f = ProgressFilter::new();
    let d = |downloaded: u64| InstallProgress::Downloading { downloaded, total: Some(100) };
    assert_eq!(f.step(&InstallProgress::Starting), Some(None));
    assert_eq!(f.step(&d(10)), Some(Some(10)));
    assert_eq!(f.step(&d(10)), None);
    assert_eq!(f.step(&d(11)), Some(Some(11)));
    let unknown = InstallProgress::Downloading { downloaded: 5, total: None };
    assert_eq!(f.step(&unknown), Some(None));
    assert_eq!(f.step(&unknown), None);
    assert_eq!(f.step(&InstallProgress::Extracting), Some(None));
    assert_eq!(
        f.step(&InstallProgress::Done(version("9.2.3", "soh", "/lib/soh/9.2.3"))),
        None
    );
}

#[test]
fn partial_path_takes_the_last_normal_component() {
    assert_eq!(partial_path("/lib/soh/9.2.3/"), "/lib/soh/9.2.3.partial");
    assert_eq!(partial_path("/lib/soh/9.2.3/."), "/lib/soh/9.2.3.partial");
    assert_eq!(partial_path("/lib/.."), "/lib/install.partial");
}
