use shipyard::app::{
    library_games, rate_limit_text, token_status, App, AppDeps, Banner, Effect, InstallState, Message,
    Modal, Observation, SaveContext, SlotChoice, StartupPaths, Tab,
};
use shipyard::config::schema::{Config, LastLaunched};
use shipyard::config::Diagnostic;
use shipyard::games::GameId;
use shipyard::github::{RateLimitStatus, Release, ReleaseAsset};
use shipyard::library::InstalledVersion;
use shipyard::platform::HostPlatform;
use shipyard::roms::library::RomEntry;

fn obs() -> Observation {
    Observation { now_unix: 1_700_000_000, running: vec![] }
}

fn make_app(config: Config) -> (App, Vec<Effect>) {
    App::new(AppDeps {
        config,
        library_root: "/lib".to_string(),
        download_dir: "/dl".to_string(),
        game: GameId::Soh,
        platform: HostPlatform::Linux,
        arch: "x86_64".to_string(),
        installed: vec![],
        roms: vec![],
        startup_diagnostics: vec![],
    })
}

fn release(tag: &str) -> Release {
    Release {
        tag_name: tag.to_string(),
        name: None,
        published_at: None,
        assets: vec![ReleaseAsset {
            name: "SoH-Linux.zip".to_string(),
            browser_download_url: "https://example.invalid/soh.zip".to_string(),
            size: 3,
        }],
    }
}

fn loaded(app: &mut App, tags: &[&str]) {
    let releases = tags.iter().map(|t| release(t)).collect();
    let _ = app.update(
        Message::ReleasesLoaded {
            game_slug: "soh".to_string(),
            result: Ok((releases, RateLimitStatus::default())),
        },
        &obs(),
    );
}

fn banner_texts(app: &App) -> Vec<String> {
    app.banners
        .iter()
        .map(|b| match b {
            Banner::Info(s) | Banner::Error(s) | Banner::RateLimited(s) => s.clone(),
        })
        .collect()
}

#[test]
fn tab_switch_dismisses_modal_and_gear_popover() {
    let (mut app, _) = make_app(Config::default());
    app.modal = Modal::DeleteRomConfirm { filename: "rom.z64".into() };
    app.gear_menu_open_for_game = Some("fake".into());
    let _ = app.update(Message::TabSelected(Tab::Roms), &obs());
    assert!(matches!(app.modal, Modal::Closed));
    assert!(app.gear_menu_open_for_game.is_none());
    assert_eq!(app.tab, Tab::Roms);
}

#[test]
fn delete_rom_confirm_clears_assignments_across_games() {
    let mut config = Config::default();
    config.set_assignment("fake", "oot", Some("shared.z64".to_string()));
    config.set_assignment("other", "slot", Some("shared.z64".to_string()));
    let (mut app, _) = make_app(config);
    app.roms = vec![RomEntry { filename: "shared.z64".to_string(), size: 1 }];
    let effects = app.update(Message::DeleteRomConfirm("shared.z64".to_string()), &obs());
    assert!(app.config.assignment_for("fake", "oot").is_none());
    assert!(app.config.assignment_for("other", "slot").is_none());
    assert!(matches!(app.modal, Modal::Closed));
    assert_eq!(effects.len(), 2);
    assert!(matches!(&effects[1], Effect::DeleteRom { filename } if filename == "shared.z64"));
}

#[test]
fn cold_start_preselects_last_launched() {
    let mut config = Config::default();
    config.last_launched = Some(LastLaunched { game_slug: "fake".to_string(), tag: "v9".to_string() });
    let (app, effects) = make_app(config);
    assert_eq!(app.selected_game_slug, "fake");
    assert_eq!(app.selected_tag_for("fake").map(|s| s.as_str()), Some("v9"));
    assert_eq!(effects.len(), 5);
}

#[test]
fn versions_to_show_invalid_input_keeps_previous_value() {
    let (mut app, _) = make_app(Config::default());
    let original = app.config.versions_to_show;
    let _ = app.update(Message::VersionsToShowInputChanged("0".into()), &obs());
    let _ = app.update(Message::VersionsToShowSubmit, &obs());
    assert_eq!(app.config.versions_to_show, original);
    assert_eq!(app.versions_to_show_input, original.to_string());
    let _ = app.update(Message::VersionsToShowInputChanged("not-a-number".into()), &obs());
    let _ = app.update(Message::VersionsToShowSubmit, &obs());
    assert_eq!(app.config.versions_to_show, original);
    let _ = app.update(Message::VersionsToShowInputChanged("3".into()), &obs());
    let effects = app.update(Message::VersionsToShowSubmit, &obs());
    assert_eq!(app.config.versions_to_show, 3);
    assert!(matches!(
        &effects[0],
        Effect::SaveConfig { context: SaveContext::Settings, success: Some(Banner::Info(t)) }
            if t == "versions to show set to 3"
    ));
    assert_eq!(
        banner_texts(&app),
        vec![
            "versions to show must be an integer >= 1".to_string(),
            "versions to show must be an integer >= 1".to_string(),
        ]
    );
}

#[test]
fn versions_to_show_input_is_trimmed() {
    let (mut app, _) = make_app(Config::default());
    let _ = app.update(Message::VersionsToShowInputChanged(" 4 ".into()), &obs());
    let _ = app.update(Message::VersionsToShowSubmit, &obs());
    assert_eq!(app.config.versions_to_show, 4);
}

#[test]
fn cold_start_defaults_to_first_game_and_turns_diagnostics_into_banners() {
    let (app, effects) = App::new(AppDeps {
        config: Config::default(),
        library_root: "/lib".to_string(),
        download_dir: "/dl".to_string(),
        game: GameId::Soh,
        platform: HostPlatform::Linux,
        arch: "x86_64".to_string(),
        installed: vec![InstalledVersion {
            tag: "9.2.3".to_string(),
            game_slug: "soh".to_string(),
            path: "/lib/soh/9.2.3".to_string(),
        }],
        roms: vec![],
        startup_diagnostics: vec![
            Diagnostic::ConfigParseError { backup: "/c.bak.1".to_string(), message: "bad".to_string() },
            Diagnostic::RomMigrationSkipped { path: "/x.z64".to_string() },
        ],
    });
    assert_eq!(app.selected_game_slug, "soh");
    assert_eq!(app.install_states.get("9.2.3"), Some(&InstallState::Installed));
    assert_eq!(
        banner_texts(&app),
        vec![
            "config parse error (bad); backed up to /c.bak.1".to_string(),
            "rom migration: source not found, skipped /x.z64".to_string(),
        ]
    );
    assert!(matches!(&effects[0], Effect::FetchReleases { game_slug, repo }
        if game_slug == "soh" && repo == "HarbourMasters/Shipwright"));
}

#[test]
fn install_then_launch_flow() {
    let (mut app, _) = make_app(Config::default());
    loaded(&mut app, &["1.0.0"]);
    assert_eq!(app.install_states.get("1.0.0"), Some(&InstallState::Idle));
    assert_eq!(app.primary_label("soh"), "Install");
    let effects = app.update(
        Message::InstallClicked { game_slug: "soh".into(), tag: "1.0.0".into() },
        &obs(),
    );
    assert_eq!(app.install_states.get("1.0.0"), Some(&InstallState::Installing));
    match &effects[..] {
        [Effect::Install { request }] => {
            assert_eq!(request.release.tag_name, "1.0.0");
            assert_eq!(request.library_root, "/lib");
        }
        other => panic!("unexpected {other:?}"),
    }
    let again = app.update(
        Message::InstallClicked { game_slug: "soh".into(), tag: "1.0.0".into() },
        &obs(),
    );
    assert!(again.is_empty());
    let _ = app.update(Message::InstallProgress("1.0.0".into(), Some(42)), &obs());
    assert_eq!(app.primary_label("soh"), "Installing… 42%");
    assert!(!app.primary_enabled("soh"));
    let version = InstalledVersion {
        tag: "1.0.0".to_string(),
        game_slug: "soh".to_string(),
        path: "/lib/soh/1.0.0".to_string(),
    };
    let _ = app.update(Message::InstallFinished("1.0.0".into(), Ok(version.clone())), &obs());
    assert_eq!(app.install_states.get("1.0.0"), Some(&InstallState::Installed));
    assert_eq!(app.installed, vec![version.clone()]);
    assert_eq!(app.primary_label("soh"), "Launch");
    let launch = app.update(Message::PrimaryActionClicked("soh".into()), &obs());
    assert!(matches!(&launch[..], [Effect::Launch { version: v, game: GameId::Soh }] if *v == version));
    let _ = app.update(
        Message::Launched { tag: "1.0.0".into(), game_slug: "soh".into(), result: Ok(()) },
        &obs(),
    );
    assert_eq!(
        app.config.last_launched,
        Some(LastLaunched { game_slug: "soh".to_string(), tag: "1.0.0".to_string() })
    );
}

#[test]
fn running_game_is_not_uninstalled() {
    let (mut app, _) = make_app(Config::default());
    app.installed.push(InstalledVersion {
        tag: "1.0.0".to_string(),
        game_slug: "soh".to_string(),
        path: "/lib/soh/1.0.0".to_string(),
    });
    let busy = Observation { now_unix: 0, running: vec!["1.0.0".to_string()] };
    let effects = app.update(Message::UninstallClicked("1.0.0".into()), &busy);
    assert!(effects.is_empty());
    assert_eq!(app.installed.len(), 1);
    assert_eq!(banner_texts(&app), vec!["cannot uninstall 1.0.0: still running".to_string()]);
    let effects = app.update(Message::UninstallClicked("1.0.0".into()), &obs());
    assert_eq!(effects.len(), 1);
    assert!(app.installed.is_empty());
    assert_eq!(app.install_states.get("1.0.0"), Some(&InstallState::Idle));
}

#[test]
fn version_picker_keeps_old_installs() {
    let mut config = Config::default();
    config.versions_to_show = 2;
    let (mut app, _) = make_app(config);
    app.installed.push(InstalledVersion {
        tag: "0.9".to_string(),
        game_slug: "soh".to_string(),
        path: "/lib/soh/0.9".to_string(),
    });
    loaded(&mut app, &["3.0", "2.0", "1.0", "0.9"]);
    let tags: Vec<String> = app.versions_for_game("soh").iter().map(|v| v.label()).collect();
    assert_eq!(tags, vec!["3.0 (latest)".to_string(), "2.0".to_string(), "0.9 ✓".to_string()]);
}

#[test]
fn refresh_waits_for_the_rate_limit_reset() {
    let (mut app, _) = make_app(Config::default());
    app.rate_limit = RateLimitStatus { remaining: Some(0), limit: Some(60), reset_at: Some(1_700_000_600) };
    let effects = app.update(Message::ManualRefreshClicked("soh".into()), &obs());
    assert!(matches!(&effects[..], [Effect::AnnounceRateLimit { reset_at: 1_700_000_600 }]));
    let _ = app.update(Message::RateLimitNotice { clock: "12:10:00".into() }, &obs());
    assert_eq!(
        banner_texts(&app),
        vec!["GitHub rate limit reached. Try again at 12:10:00.".to_string()]
    );
    let later = Observation { now_unix: 1_700_001_000, running: vec![] };
    let effects = app.update(Message::ManualRefreshClicked("soh".into()), &later);
    assert!(matches!(&effects[..], [Effect::FetchReleases { .. }]));
}

#[test]
fn failed_listings_become_banners() {
    let (mut app, _) = make_app(Config::default());
    let _ = app.update(
        Message::ReleasesLoaded { game_slug: "soh".into(), result: Err("rate limited; resets at None".into()) },
        &obs(),
    );
    let _ = app.update(
        Message::ReleasesLoaded { game_slug: "soh".into(), result: Err("http error: timeout".into()) },
        &obs(),
    );
    assert!(matches!(app.banners[0], Banner::RateLimited(_)));
    assert_eq!(banner_texts(&app)[1], "releases: http error: timeout");
    assert_eq!(app.banner_lines(), vec!["! releases: http error: timeout".to_string(), "! rate limited; resets at None".to_string()]);
}

#[test]
fn listing_stores_a_changed_rate_limit_snapshot() {
    let (mut app, _) = make_app(Config::default());
    let rl = RateLimitStatus { remaining: Some(59), limit: Some(60), reset_at: Some(5) };
    let effects = app.update(
        Message::ReleasesLoaded { game_slug: "soh".into(), result: Ok((vec![], rl)) },
        &obs(),
    );
    assert!(matches!(&effects[..], [Effect::SaveConfig { context: SaveContext::RateLimitSnapshot, success: None }]));
    let again = app.update(
        Message::ReleasesLoaded { game_slug: "soh".into(), result: Ok((vec![], rl)) },
        &obs(),
    );
    assert!(again.is_empty());
}

#[test]
fn settings_screen_texts() {
    let rl = RateLimitStatus { remaining: Some(59), limit: Some(60), reset_at: Some(5) };
    assert_eq!(rate_limit_text(&rl, &Some("10:00:00".to_string())), "59/60, resets at 10:00:00");
    assert_eq!(rate_limit_text(&RateLimitStatus { reset_at: None, ..rl }, &None), "59/60");
    assert_eq!(
        rate_limit_text(&RateLimitStatus { remaining: Some(3), limit: None, reset_at: None }, &None),
        "3 remaining"
    );
    assert_eq!(rate_limit_text(&RateLimitStatus::default(), &None), "unknown");
    assert_eq!(token_status(&Some(String::new())), "not set");
    assert_eq!(token_status(&Some("x".to_string())), "set");
}

#[test]
fn roms_screen_choices_and_rows() {
    let mut config = Config::default();
    config.set_assignment("soh", "oot", Some("oot.z64".to_string()));
    let (mut app, _) = make_app(config);
    app.roms = vec![RomEntry { filename: "oot.z64".to_string(), size: 1 }];
    let choices = app.slot_choices();
    assert_eq!(choices[0].label(), "(unassigned)");
    assert_eq!(choices[1], SlotChoice::filename("oot.z64"));
    assert_eq!(SlotChoice::unassigned().into_filename(), None);
    let rows = app.slot_rows();
    assert_eq!(rows[0].current.label(), "oot.z64");
    assert_eq!(rows[1].current, SlotChoice::unassigned());
    assert_eq!(app.expander_label(), "▸ Imported Roms (1)");
}

#[test]
fn games_are_ordered_by_sort_name() {
    let order: Vec<GameId> = library_games();
    assert_eq!(
        order,
        vec![GameId::Ghostship, GameId::Soh, GameId::TwoShip, GameId::SpaghettiKart, GameId::Starship]
    );
}

#[test]
fn startup_paths_prefer_the_configured_root() {
    let mut config = Config::default();
    let p = StartupPaths::resolve(&config, "/data/versions", "/cache");
    assert_eq!(p.library_root, "/data/versions");
    assert_eq!(p.download_dir, "/cache/downloads");
    assert_eq!(p.etag_cache, "/cache/etags.json");
    config.library_root = Some("/mine".to_string());
    assert_eq!(StartupPaths::resolve(&config, "/data/versions", "/cache").library_root, "/mine");
}

#[test]
fn modal_lines_describe_the_open_dialog() {
    let (mut app, _) = make_app(Config::default());
    assert!(app.modal_lines().is_empty());
    app.modal = Modal::UninstallConfirm { tag: "9.2.3".to_string() };
    assert_eq!(
        app.modal_lines(),
        vec!["Uninstall 9.2.3?".to_string(), "This deletes the install directory.".to_string()]
    );
}
