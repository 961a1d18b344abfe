use shipyard::config::schema::Config;
use shipyard::config::{Diagnostic, PendingMigration, RomImportRequest};
use shipyard::games::soh::{Soh, SLOT_OOT, SLOT_OOT_MQ};
use shipyard::platform::linux::Linux;
use shipyard::roms::cached_assets::{
    cached_asset_paths, plan_clear, scan_cached_assets, CachedAssetStatus, ClearResult,
};
use shipyard::roms::library::{
    apply_pending_migration, library_root_in, pick_unique_name, rom_entries, split_stem_ext,
    ImportOutcome, ListedFile, RomEntry,
};
use shipyard::roms::wiring::{plan_reconcile, symlink_temp_path, SlotAction};

fn names(v: &[&str]) -> Vec<String> {
    v.iter().map(|s| s.to_string()).collect()
}

fn file(name: &str, size: u64) -> ListedFile {
    ListedFile { name: name.to_string(), is_file: true, size }
}

/// Sizes of the Soh cached-asset candidates (`oot.o2r`, `oot.otr`,
/// `oot-mq.o2r`, `oot-mq.otr`); `None` where no such file exists.
fn soh_probes(oot: [Option<u64>; 2], mq: [Option<u64>; 2]) -> Vec<Vec<Option<u64>>> {
    vec![oot.to_vec(), mq.to_vec()]
}

// --- The library listing and import names ---

#[test]
fn import_collision_appends_numeric_suffix() {
    let e1 = pick_unique_name(&names(&[]), "oot.z64");
    let e2 = pick_unique_name(&names(&["oot.z64"]), "oot.z64");
    let e3 = pick_unique_name(&names(&["oot.z64", "oot-1.z64"]), "oot.z64");
    assert_eq!(e1, "oot.z64");
    assert_eq!(e2, "oot-1.z64");
    assert_eq!(e3, "oot-2.z64");
}

#[test]
fn import_collision_with_no_extension() {
    assert_eq!(pick_unique_name(&names(&["noext"]), "noext"), "noext-1");
}

#[test]
fn import_name_skips_every_taken_candidate() {
    let taken = names(&["a.b.c", "a.b-1.c", "a.b-2.c", "a.b-10.c"]);
    assert_eq!(pick_unique_name(&taken, "a.b.c"), "a.b-3.c");
    assert_eq!(pick_unique_name(&names(&[".hidden"]), ".hidden"), ".hidden-1");
}

#[test]
fn stem_and_extension_split_at_the_last_dot() {
    assert_eq!(split_stem_ext("oot.z64"), ("oot".to_string(), Some("z64".to_string())));
    assert_eq!(split_stem_ext("a.b.c"), ("a.b".to_string(), Some("c".to_string())));
    assert_eq!(split_stem_ext(".hidden"), (".hidden".to_string(), None));
    assert_eq!(split_stem_ext("noext"), ("noext".to_string(), None));
    assert_eq!(split_stem_ext("trailing."), ("trailing".to_string(), Some(String::new())));
}

#[test]
fn list_is_sorted_and_skips_partial() {
    let listing = vec![
        file("b.z64", 2),
        file("a.z64", 1),
        file("ignored.z64.partial", 9),
        ListedFile { name: "subdir".to_string(), is_file: false, size: 0 },
    ];
    let entries = rom_entries(&listing);
    assert_eq!(entries.len(), 2);
    assert_eq!(entries[0].filename, "a.z64");
    assert_eq!(entries[1].filename, "b.z64");
    assert_eq!(entries[0].size, 1);
}

#[test]
fn list_missing_dir_is_empty() {
    assert!(rom_entries(&vec![]).is_empty());
}

#[test]
fn library_root_is_roms_under_config_dir() {
    assert_eq!(library_root_in("/home/u/.config/shipyard"), "/home/u/.config/shipyard/roms");
}

// --- Migration ---

fn pending_oot(source: &str) -> PendingMigration {
    PendingMigration {
        from_version: 3,
        rom_imports: vec![RomImportRequest {
            game_slug: "soh".to_string(),
            slot_id: "oot".to_string(),
            source_path: source.to_string(),
        }],
    }
}

#[test]
fn apply_pending_migration_imports_and_assigns() {
    let mut config = Config::default();
    let outcomes = vec![ImportOutcome::Imported(RomEntry { filename: "oot.z64".to_string(), size: 9 })];
    let diags = apply_pending_migration(&mut config, pending_oot("/src/oot.z64"), outcomes);
    assert!(diags.is_empty());
    assert_eq!(config.assignment_for("soh", "oot"), Some("oot.z64"));
}

#[test]
fn apply_pending_migration_records_missing_source_diagnostic() {
    let mut config = Config::default();
    let diags = apply_pending_migration(
        &mut config,
        pending_oot("/this/path/does/not/exist.z64"),
        vec![ImportOutcome::NotFound],
    );
    assert_eq!(diags.len(), 1);
    assert!(matches!(diags[0], Diagnostic::RomMigrationSkipped { .. }));
    assert!(config.slot_assignments.is_empty());
}

#[test]
fn apply_pending_migration_reports_other_failures_with_their_message() {
    let mut config = Config::default();
    let diags = apply_pending_migration(
        &mut config,
        pending_oot("/src/oot.z64"),
        vec![ImportOutcome::Failed("permission denied".to_string())],
    );
    assert_eq!(
        diags,
        vec![Diagnostic::RomMigrationFailed {
            path: "/src/oot.z64".to_string(),
            message: "permission denied".to_string(),
        }]
    );
    assert!(config.slot_assignments.is_empty());
}

// --- Cached assets ---

#[test]
fn cached_asset_paths_are_in_declaration_order() {
    let paths = cached_asset_paths(&Soh, "/inst", &Linux);
    assert_eq!(
        paths,
        vec![
            vec!["/inst/oot.o2r".to_string(), "/inst/oot.otr".to_string()],
            vec!["/inst/oot-mq.o2r".to_string(), "/inst/oot-mq.otr".to_string()],
        ]
    );
}

#[test]
fn scan_detects_primary_filename() {
    let out = scan_cached_assets(&Soh, "/inst", &Linux, &soh_probes([Some(11), None], [None, None]));
    let oot = out.iter().find(|p| p.slot_id == SLOT_OOT).unwrap();
    let mq = out.iter().find(|p| p.slot_id == SLOT_OOT_MQ).unwrap();
    assert!(oot.status.is_present());
    assert!(!mq.status.is_present());
    match &oot.status {
        CachedAssetStatus::Present { filename, size, path } => {
            assert_eq!(*filename, "oot.o2r");
            assert_eq!(*size, 11);
            assert_eq!(path, "/inst/oot.o2r");
        }
        CachedAssetStatus::Missing => panic!("expected Present"),
    }
}

#[test]
fn scan_falls_back_to_legacy_otr_when_o2r_absent() {
    let out = scan_cached_assets(&Soh, "/inst", &Linux, &soh_probes([None, Some(6)], [None, None]));
    let oot = out.iter().find(|p| p.slot_id == SLOT_OOT).unwrap();
    if let CachedAssetStatus::Present { filename, .. } = &oot.status {
        assert_eq!(*filename, "oot.otr");
    } else {
        panic!("expected Present");
    }
}

#[test]
fn scan_returns_all_missing_when_dir_does_not_exist() {
    let out = scan_cached_assets(&Soh, "/never-created", &Linux, &soh_probes([None, None], [None, None]));
    assert_eq!(out.len(), 2);
    assert!(out.iter().all(|c| !c.status.is_present()));
}

#[test]
fn plan_clear_lists_present_files_only() {
    let plan = plan_clear(&Soh, "/inst", &Linux, &soh_probes([Some(2), None], [None, Some(3)]));
    assert_eq!(plan.len(), 2);
    let sizes: std::collections::BTreeSet<u64> = plan.iter().map(|p| p.size).collect();
    assert_eq!(sizes, [2, 3].into_iter().collect());
    assert_eq!(plan[1].path, "/inst/oot-mq.otr");
}

#[test]
fn clear_removes_all_present_files_and_scan_returns_missing() {
    let plan = plan_clear(&Soh, "/inst", &Linux, &soh_probes([Some(2), None], [None, Some(3)]));
    let result = ClearResult::from_outcomes(plan, vec![None, None]);
    assert_eq!(result.deleted.len(), 2);
    assert!(result.failures.is_empty());
    let after = scan_cached_assets(&Soh, "/inst", &Linux, &soh_probes([None, None], [None, None]));
    assert!(after.iter().all(|p| !p.status.is_present()));
}

#[test]
fn clear_on_empty_dir_is_a_noop() {
    let plan = plan_clear(&Soh, "/inst", &Linux, &soh_probes([None, None], [None, None]));
    let result = ClearResult::from_outcomes(plan, vec![]);
    assert!(result.deleted.is_empty());
    assert!(result.failures.is_empty());
}

#[test]
fn clear_reports_each_failure_separately() {
    let plan = plan_clear(&Soh, "/inst", &Linux, &soh_probes([Some(2), None], [None, Some(3)]));
    let result = ClearResult::from_outcomes(plan, vec![Some("busy".to_string()), None]);
    assert_eq!(result.deleted, vec![("/inst/oot-mq.otr".to_string(), 3)]);
    assert_eq!(result.failures, vec![("/inst/oot.o2r".to_string(), "busy".to_string())]);
}

// --- Slot links ---

#[test]
fn missing_cached_and_assigned_creates_symlink() {
    let mut config = Config::default();
    config.set_assignment("soh", SLOT_OOT, Some("oot.z64".into()));
    let actions =
        plan_reconcile("/inst", &Soh, &Linux, &config, "/lib", &soh_probes([None, None], [None, None]));
    assert_eq!(
        actions,
        vec![
            SlotAction::Link { link: "/inst/oot.z64".to_string(), target: "/lib/oot.z64".to_string() },
            SlotAction::Unlink { link: "/inst/oot-mq.z64".to_string() },
        ]
    );
}

#[test]
fn cached_present_is_a_noop_even_when_assigned() {
    let mut config = Config::default();
    config.set_assignment("soh", SLOT_OOT, Some("oot.z64".into()));
    let actions = plan_reconcile(
        "/inst",
        &Soh,
        &Linux,
        &config,
        "/lib",
        &soh_probes([Some(5), None], [None, None]),
    );
    assert_eq!(actions[0], SlotAction::Keep);
}

#[test]
fn reassignment_points_the_link_at_the_new_rom() {
    let mut config = Config::default();
    config.set_assignment("soh", SLOT_OOT, Some("a.z64".into()));
    config.set_assignment("soh", SLOT_OOT, Some("b.z64".into()));
    let actions =
        plan_reconcile("/inst", &Soh, &Linux, &config, "/lib", &soh_probes([None, None], [None, None]));
    assert_eq!(
        actions[0],
        SlotAction::Link { link: "/inst/oot.z64".to_string(), target: "/lib/b.z64".to_string() }
    );
}

#[test]
fn links_are_created_under_a_scratch_name_first() {
    assert_eq!(symlink_temp_path("/inst/oot.z64"), "/inst/oot.z64.tmp");
}

#[test]
fn reconcile_is_idempotent() {
    let mut config = Config::default();
    config.set_assignment("soh", SLOT_OOT, Some("oot.z64".into()));
    let probes = soh_probes([None, None], [None, None]);
    let mut links: std::collections::HashMap<String, String> = std::collections::HashMap::new();
    links.insert("/inst/oot-mq.z64".to_string(), "/lib/stale.z64".to_string());
    let mut states = Vec::new();
    for _ in 0..3 {
        for action in plan_reconcile("/inst", &Soh, &Linux, &config, "/lib", &probes) {
            match action {
                SlotAction::Keep => {}
                SlotAction::Link { link, target } => {
                    links.insert(link, target);
                }
                SlotAction::Unlink { link } => {
                    links.remove(&link);
                }
            }
        }
        states.push(links.clone());
    }
    assert_eq!(states[0], states[1]);
    assert_eq!(states[1], states[2]);
    assert_eq!(states[2].get("/inst/oot.z64").map(String::as_str), Some("/lib/oot.z64"));
    assert!(!states[2].contains_key("/inst/oot-mq.z64"));
}

#[test]
fn a_full_clear_leaves_every_slot_missing() {
    let probes = soh_probes([Some(5), None], [None, Some(7)]);
    let paths = cached_asset_paths(&Soh, "/inst", &Linux);
    let plan = plan_clear(&Soh, "/inst", &Linux, &probes);
    let errors = vec![None; plan.len()];
    let result = ClearResult::from_outcomes(plan, errors);
    assert!(result.failures.is_empty());
    let gone: Vec<&str> = result.deleted.iter().map(|(p, _)| p.as_str()).collect();
    let after: Vec<Vec<Option<u64>>> = paths
        .iter()
        .zip(probes.iter())
        .map(|(ps, sizes)| {
            ps.iter()
                .zip(sizes.iter())
                .map(|(p, s)| if gone.contains(&p.as_str()) { None } else { *s })
                .collect()
        })
        .collect();
    let scan = scan_cached_assets(&Soh, "/inst", &Linux, &after);
    assert!(scan.iter().all(|p| matches!(p.status, CachedAssetStatus::Missing)));
}
