use shipyard::config::schema::{Config, CURRENT_SCHEMA_VERSION, DEFAULT_VERSIONS_TO_SHOW};
use shipyard::config::{
    backup_path, plan_load, save_temp_path, ConfigDocument, ConfigError, ConfigSource, Diagnostic,
    LoadStep,
};

fn assert_default(cfg: &Config) {
    assert_eq!(cfg.schema_version, CURRENT_SCHEMA_VERSION);
    assert!(cfg.library_root.is_none());
    assert!(cfg.install_overrides.is_empty());
    assert!(cfg.slot_assignments.is_empty());
    assert_eq!(cfg.versions_to_show, DEFAULT_VERSIONS_TO_SHOW);
    assert!(cfg.last_launched.is_none());
    assert!(cfg.rate_limit_snapshot.is_none());
}

fn doc(version: Option<u64>) -> ConfigDocument {
    ConfigDocument {
        schema_version: version,
        library_root: Some("/lib".to_string()),
        install_overrides: vec![],
        rom_oot: None,
        rom_oot_mq: None,
        slot_assignments: vec![],
        as_current: Err("not a current configuration".to_string()),
    }
}

#[test]
fn fresh_default_uses_documented_defaults() {
    let cfg = Config::default();
    assert_eq!(cfg.versions_to_show, DEFAULT_VERSIONS_TO_SHOW);
    assert!(cfg.last_launched.is_none());
    assert!(cfg.rate_limit_snapshot.is_none());
}

#[test]
fn clear_assignments_referencing_drops_every_match() {
    let mut cfg = Config::default();
    cfg.set_assignment("soh", "oot", Some("rom.z64".to_string()));
    cfg.set_assignment("soh", "oot-mq", Some("rom.z64".to_string()));
    cfg.set_assignment("soh", "other", Some("kept.z64".to_string()));
    let cleared = cfg.clear_assignments_referencing("rom.z64");
    assert_eq!(cleared, 2);
    assert_eq!(cfg.assignment_for("soh", "oot"), None);
    assert_eq!(cfg.assignment_for("soh", "oot-mq"), None);
    assert_eq!(cfg.assignment_for("soh", "other"), Some("kept.z64"));
}

#[test]
fn assignment_helpers_round_trip() {
    let mut cfg = Config::default();
    cfg.set_assignment("soh", "oot", Some("oot.z64".to_string()));
    assert_eq!(cfg.assignment_for("soh", "oot"), Some("oot.z64"));
    assert_eq!(cfg.assignment_for("soh", "oot-mq"), None);
    cfg.set_assignment("soh", "oot", None);
    assert_eq!(cfg.assignment_for("soh", "oot"), None);
    assert!(cfg.slot_assignments.is_empty());
}

#[test]
fn missing_file_returns_default() {
    match plan_load("/tmp/nope.yaml", ConfigSource::Missing, 0) {
        Ok(LoadStep::Done(loaded)) => {
            assert_default(&loaded.config);
            assert!(loaded.diagnostic.is_none());
            assert!(loaded.pending_migration.is_none());
            assert_eq!(loaded.path, "/tmp/nope.yaml");
        }
        other => panic!("unexpected {other:?}"),
    }
}

#[test]
fn malformed_text_is_backed_up_and_defaulted() {
    let step = plan_load(
        "/cfg/shipyard.json",
        ConfigSource::Malformed { message: "bad indentation".to_string() },
        1700000000,
    );
    match step {
        Ok(LoadStep::Backup { backup, loaded }) => {
            assert_eq!(backup, "/cfg/shipyard.json.bak.1700000000");
            assert_default(&loaded.config);
            match loaded.diagnostic {
                Some(Diagnostic::ConfigParseError { backup: b, message }) => {
                    assert_eq!(b, backup);
                    assert_eq!(message, "bad indentation");
                }
                other => panic!("unexpected diagnostic {other:?}"),
            }
        }
        other => panic!("unexpected {other:?}"),
    }
}

#[test]
fn newer_schema_is_backed_up_with_the_version_found() {
    match plan_load("/cfg/shipyard.json", ConfigSource::Parsed(doc(Some(999))), 42) {
        Ok(LoadStep::Backup { loaded, .. }) => {
            assert_default(&loaded.config);
            assert!(matches!(
                loaded.diagnostic,
                Some(Diagnostic::SchemaVersionMismatch { found: 999, .. })
            ));
        }
        other => panic!("unexpected {other:?}"),
    }
}

#[test]
fn unreadable_file_is_an_io_error() {
    match plan_load("/cfg/shipyard.json", ConfigSource::Unreadable { message: "denied".to_string() }, 0)
    {
        Err(ConfigError::Io { path, message }) => {
            assert_eq!(path, "/cfg/shipyard.json");
            assert_eq!(message, "denied");
        }
        other => panic!("unexpected {other:?}"),
    }
}

#[test]
fn version_three_with_roms_migrates_and_requests_imports() {
    let mut d = doc(Some(3));
    d.rom_oot = Some("/tmp/oot.z64".to_string());
    d.rom_oot_mq = Some("/tmp/mq.z64".to_string());
    match plan_load("/cfg/shipyard.json", ConfigSource::Parsed(d), 0) {
        Ok(LoadStep::Done(loaded)) => {
            assert_eq!(loaded.config.schema_version, CURRENT_SCHEMA_VERSION);
            assert_eq!(loaded.config.library_root, Some("/lib".to_string()));
            assert!(loaded.config.slot_assignments.is_empty());
            let pending = loaded.pending_migration.expect("pending migration");
            assert_eq!(pending.from_version, 3);
            assert_eq!(pending.rom_imports.len(), 2);
            assert!(pending
                .rom_imports
                .iter()
                .any(|r| r.slot_id == "oot" && r.source_path == "/tmp/oot.z64"));
            assert!(pending
                .rom_imports
                .iter()
                .any(|r| r.slot_id == "oot-mq" && r.source_path == "/tmp/mq.z64"));
        }
        other => panic!("unexpected {other:?}"),
    }
}

#[test]
fn version_four_keeps_slot_assignments_and_defaults_new_fields() {
    let mut d = doc(Some(4));
    d.slot_assignments = vec![("soh".to_string(), "oot".to_string(), "oot.z64".to_string())];
    match plan_load("/cfg/shipyard.json", ConfigSource::Parsed(d), 0) {
        Ok(LoadStep::Done(loaded)) => {
            assert_eq!(loaded.config.schema_version, CURRENT_SCHEMA_VERSION);
            assert_eq!(loaded.config.assignment_for("soh", "oot"), Some("oot.z64"));
            assert_eq!(loaded.config.versions_to_show, DEFAULT_VERSIONS_TO_SHOW);
            assert!(loaded.config.last_launched.is_none());
            let pending = loaded.pending_migration.expect("pending migration");
            assert!(pending.rom_imports.is_empty());
        }
        other => panic!("unexpected {other:?}"),
    }
}

#[test]
fn backup_and_temp_paths_sit_beside_the_file() {
    assert_eq!(backup_path("/cfg/shipyard.json", 7), "/cfg/shipyard.json.bak.7");
    assert_eq!(save_temp_path("/cfg/shipyard.json"), "/cfg/shipyard.json.tmp");
}
