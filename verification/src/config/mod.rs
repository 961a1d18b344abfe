//! Configuration: the persisted settings, where they live, and how a file on
//! disk is turned into a current-schema configuration.
//!
//! Loading never fails on bad content: a file that is not YAML, or that holds
//! a newer schema, is copied to a timestamped backup and replaced by the
//! defaults; an older schema is migrated, and the ROM imports the migration
//! needs are handed back for startup to perform.

use vstd::prelude::*;

use crate::paths::{file_name, join_spec, path_join, std_file_name, std_with_file_name, with_file_name};
use crate::strmap::StrMap;
use crate::text::{decimal, opt_view, owned, push_str, u64_to_string};

pub mod schema;

use schema::{
    assignment_update, is_default_config, Config, SlotKey, CURRENT_SCHEMA_VERSION,
    DEFAULT_VERSIONS_TO_SHOW,
};

verus! {

#[derive(Debug, Clone, PartialEq, Eq)]
pub enum Diagnostic {
    ConfigParseError { backup: String, message: String },
    SchemaVersionMismatch { backup: String, found: u32 },
    /// A ROM file referenced by an older config version was missing on disk;
    /// migration dropped the slot assignment.
    RomMigrationSkipped { path: String },
    /// A ROM file referenced by an older config version failed to import
    /// (e.g. permission denied); migration dropped the slot assignment.
    RomMigrationFailed { path: String, message: String },
}

/// Source description for a slot assignment that needs to be materialized into
/// the ROM library after a migration.
#[derive(Debug, Clone, PartialEq, Eq)]
pub struct RomImportRequest {
    pub game_slug: String,
    pub slot_id: String,
    pub source_path: String,
}

#[derive(Debug, Clone, PartialEq, Eq)]
pub struct PendingMigration {
    pub from_version: u32,
    pub rom_imports: Vec<RomImportRequest>,
}

#[derive(Debug, Clone, PartialEq, Eq)]
pub enum ConfigError {
    NoHome,
    Io { path: String, message: String },
    Serialize(String),
}

#[derive(Debug)]
pub struct LoadedConfig {
    pub config: Config,
    pub path: String,
    pub diagnostic: Option<Diagnostic>,
    pub pending_migration: Option<PendingMigration>,
}

/// The configuration file: `<config_dir>/shipyard.json`.
pub fn config_path() -> (r: Result<String, ConfigError>)
    ensures
        r matches Ok(p) ==> exists|d: Seq<char>|
            crate::platform::is_shipyard_dir(d) && p@ == join_spec(d, "shipyard.json"@),
        r matches Err(e) ==> e == ConfigError::NoHome,
{
    match crate::platform::config_dir() {
        Some(d) => Ok(path_join(&d, "shipyard.json")),
        None => Err(ConfigError::NoHome),
    }
}

/// The file a configuration is written to before it replaces `path`.
pub fn save_temp_path(path: &str) -> (r: String)
    ensures
        r@ == crate::paths::std_with_extension(path@, "json.tmp"@),
{
    proof {
        reveal_strlit("json.tmp");
    }
    crate::paths::with_extension(path, "json.tmp")
}

/// What the loader reads out of a YAML document.
#[derive(Debug)]
pub struct ConfigDocument {
    /// `schema_version`, when it is an unsigned integer.
    pub schema_version: Option<u64>,
    /// `library_root`, when it is a string.
    pub library_root: Option<String>,
    /// The string-to-string entries of `install_overrides`, in document order.
    pub install_overrides: Vec<(String, String)>,
    /// `roms.oot`, when it is a string (configurations before version 4).
    pub rom_oot: Option<String>,
    /// `roms.oot_mq`, when it is a string (configurations before version 4).
    pub rom_oot_mq: Option<String>,
    /// `slot_assignments.<game>.<slot>` entries whose keys and value are all
    /// strings, as `(game, slot, filename)`, in document order.
    pub slot_assignments: Vec<(String, String, String)>,
    /// The document read as a current-schema configuration, or why it cannot be.
    pub as_current: Result<Config, String>,
}

/// What reading the configuration file gave.
#[derive(Debug)]
pub enum ConfigSource {
    /// There is no file at the path.
    Missing,
    /// The file exists but could not be read.
    Unreadable { message: String },
    /// The file's text is not YAML.
    Malformed { message: String },
    /// The file's text is a YAML document.
    Parsed(ConfigDocument),
}

/// What the loader does with a file.
#[derive(Debug)]
pub enum LoadStep {
    /// The configuration is ready.
    Done(LoadedConfig),
    /// Copy the file's text to `backup` first; then the configuration is
    /// `loaded` (the defaults, with a diagnostic naming the backup).
    Backup { backup: String, loaded: LoadedConfig },
}

// ---------------------------------------------------------------------------
// Specification of loading
// ---------------------------------------------------------------------------

/// The schema version a document declares; a missing or non-integer value
/// counts as the current version, and the value is cut to 32 bits.
pub open spec fn found_version(v: Option<u64>) -> u32 {
    match v {
        Some(x) => x as u32,
        None => CURRENT_SCHEMA_VERSION,
    }
}

/// `install_overrides` entries folded into a map, later entries winning.
pub open spec fn overrides_map(s: Seq<(Seq<char>, Seq<char>)>) -> Map<Seq<char>, Seq<char>>
    decreases s.len(),
{
    if s.len() == 0 {
        Map::empty()
    } else {
        overrides_map(s.drop_last()).insert(s.last().0, s.last().1)
    }
}

/// `slot_assignments` entries applied in order, each as `set_assignment`.
pub open spec fn assignments_map(s: Seq<(Seq<char>, Seq<char>, Seq<char>)>) -> Map<
    SlotKey,
    Seq<char>,
>
    decreases s.len(),
{
    if s.len() == 0 {
        Map::empty()
    } else {
        assignment_update(
            assignments_map(s.drop_last()),
            s.last().0,
            s.last().1,
            Some(s.last().2),
        )
    }
}

/// The ROM imports a pre-v4 document asks for: `roms.oot` to the `oot` slot,
/// then `roms.oot_mq` to the `oot-mq` slot, both of the SoH game.
pub open spec fn legacy_rom_imports(oot: Option<Seq<char>>, oot_mq: Option<Seq<char>>) -> Seq<
    (Seq<char>, Seq<char>, Seq<char>),
> {
    let first = match oot {
        Some(p) => seq![("soh"@, "oot"@, p)],
        None => Seq::empty(),
    };
    let second = match oot_mq {
        Some(p) => seq![("soh"@, "oot-mq"@, p)],
        None => Seq::empty(),
    };
    first + second
}

/// The name of the backup of a configuration file at `path` made at `ts`:
/// `<file name>.bak.<ts>` beside it.
pub open spec fn backup_path_spec(path: Seq<char>, ts: u64) -> Seq<char> {
    let base = match std_file_name(path) {
        Some(n) => n,
        None => "config"@,
    };
    std_with_file_name(path, base + ".bak."@ + decimal(ts as nat))
}

/// Whether `c` is the configuration a document of an older schema migrates to.
pub open spec fn is_migrated_config(c: Config, doc: ConfigDocument) -> bool {
    &&& c.schema_version == CURRENT_SCHEMA_VERSION
    &&& opt_view(c.library_root) == opt_view(doc.library_root)
    &&& c.install_overrides@.map_values(|v: String| v@) == overrides_map(
        doc.install_overrides@.map_values(|e: (String, String)| (e.0@, e.1@)),
    )
    &&& c.slot_assignments@ == assignments_map(
        doc.slot_assignments@.map_values(|e: (String, String, String)| (e.0@, e.1@, e.2@)),
    )
    &&& c.versions_to_show == DEFAULT_VERSIONS_TO_SHOW
    &&& c.last_launched is None
    &&& c.rate_limit_snapshot is None
}

/// The imports of a pending migration, as characters.
pub open spec fn imports_view(v: Seq<RomImportRequest>) -> Seq<(Seq<char>, Seq<char>, Seq<char>)> {
    v.map_values(|r: RomImportRequest| (r.game_slug@, r.slot_id@, r.source_path@))
}

/// Whether `l` is the defaults, at `path`, with `diagnostic`.
pub open spec fn is_defaulted(l: LoadedConfig, path: Seq<char>, diagnostic: Diagnostic) -> bool {
    &&& is_default_config(l.config)
    &&& l.path@ == path
    &&& l.diagnostic == Some(diagnostic)
    &&& l.pending_migration is None
}

// ---------------------------------------------------------------------------
// Loading
// ---------------------------------------------------------------------------

/// `<file name>.bak.<ts>` beside `path`.
pub fn backup_path(path: &str, ts: u64) -> (r: String)
    ensures
        r@ == backup_path_spec(path@, ts),
{
    let mut name = match file_name(path) {
        Some(n) => n,
        None => owned("config"),
    };
    push_str(&mut name, ".bak.");
    let digits = u64_to_string(ts);
    push_str(&mut name, &digits);
    with_file_name(path, &name)
}

/// The current-schema configuration for a document of an older schema, and
/// the ROM imports that startup must perform before it is complete. Touches
/// nothing outside its arguments.
pub fn migrate(from_version: u32, doc: &ConfigDocument) -> (r: (Config, PendingMigration))
    ensures
        is_migrated_config(r.0, *doc),
        r.1.from_version == from_version,
        imports_view(r.1.rom_imports@) == legacy_rom_imports(
            match doc.rom_oot {
                Some(p) => Some(p@),
                None => None,
            },
            match doc.rom_oot_mq {
                Some(p) => Some(p@),
                None => None,
            },
        ),
{
    let mut config = Config::default();
    config.library_root = match &doc.library_root {
        Some(root) => Some(owned(root)),
        None => None,
    };

    let ghost ov = doc.install_overrides@.map_values(|e: (String, String)| (e.0@, e.1@));
    let n = doc.install_overrides.len();
    let mut overrides: StrMap<String> = StrMap::new();
    assert(ov.take(0) =~= Seq::<(Seq<char>, Seq<char>)>::empty());
    assert(overrides@.map_values(|v: String| v@) =~= Map::<Seq<char>, Seq<char>>::empty());
    for i in 0..n
        invariant
            n == doc.install_overrides@.len(),
            ov == doc.install_overrides@.map_values(|e: (String, String)| (e.0@, e.1@)),
            overrides@.map_values(|v: String| v@) == overrides_map(ov.take(i as int)),
    {
        let k = owned(&doc.install_overrides[i].0);
        let v = owned(&doc.install_overrides[i].1);
        let ghost before = overrides@;
        overrides.insert(k, v);
        proof {
            assert(ov.take(i + 1).drop_last() =~= ov.take(i as int));
            assert(ov.take(i + 1).last() == ov[i as int]);
            assert(overrides@.map_values(|v: String| v@) =~= before.map_values(|v: String| v@).insert(
                ov[i as int].0,
                ov[i as int].1,
            ));
        }
    }
    assert(ov.take(n as int) =~= ov);
    config.install_overrides = overrides;

    let mut rom_imports: Vec<RomImportRequest> = Vec::new();
    if let Some(p) = &doc.rom_oot {
        rom_imports.push(
            RomImportRequest {
                game_slug: owned("soh"),
                slot_id: owned("oot"),
                source_path: owned(p),
            },
        );
    }
    if let Some(p) = &doc.rom_oot_mq {
        rom_imports.push(
            RomImportRequest {
                game_slug: owned("soh"),
                slot_id: owned("oot-mq"),
                source_path: owned(p),
            },
        );
    }
    assert(imports_view(rom_imports@) =~= legacy_rom_imports(
        match doc.rom_oot {
            Some(p) => Some(p@),
            None => None,
        },
        match doc.rom_oot_mq {
            Some(p) => Some(p@),
            None => None,
        },
    ));

    let ghost sa = doc.slot_assignments@.map_values(
        |e: (String, String, String)| (e.0@, e.1@, e.2@),
    );
    let m = doc.slot_assignments.len();
    assert(sa.take(0) =~= Seq::<(Seq<char>, Seq<char>, Seq<char>)>::empty());
    for i in 0..m
        invariant
            m == doc.slot_assignments@.len(),
            sa == doc.slot_assignments@.map_values(
                |e: (String, String, String)| (e.0@, e.1@, e.2@),
            ),
            config.slot_assignments@ == assignments_map(sa.take(i as int)),
            config.schema_version == CURRENT_SCHEMA_VERSION,
            opt_view(config.library_root) == opt_view(doc.library_root),
            config.install_overrides@.map_values(|v: String| v@) == overrides_map(ov),
            config.versions_to_show == DEFAULT_VERSIONS_TO_SHOW,
            config.last_launched is None,
            config.rate_limit_snapshot is None,
    {
        let e = &doc.slot_assignments[i];
        config.set_assignment(&e.0, &e.1, Some(owned(&e.2)));
        proof {
            assert(sa.take(i + 1).drop_last() =~= sa.take(i as int));
            assert(sa.take(i + 1).last() == sa[i as int]);
        }
    }
    assert(sa.take(m as int) =~= sa);
    (config, PendingMigration { from_version, rom_imports })
}

/// Decides what loading the configuration at `path` gives, from what reading
/// and parsing the file gave. `now_secs` names the backup when one is needed.
pub fn plan_load(path: &str, source: ConfigSource, now_secs: u64) -> (r: Result<
    LoadStep,
    ConfigError,
>)
    ensures
        match source {
            ConfigSource::Missing => r matches Ok(LoadStep::Done(l)) && is_default_config(l.config)
                && l.path@ == path@ && l.diagnostic is None && l.pending_migration is None,
            ConfigSource::Unreadable { message } => r matches Err(ConfigError::Io { path: p, message: m })
                && p@ == path@ && m == message,
            ConfigSource::Malformed { message } => r matches Ok(LoadStep::Backup { backup, loaded })
                && backup@ == backup_path_spec(path@, now_secs) && is_defaulted(
                loaded,
                path@,
                Diagnostic::ConfigParseError { backup, message },
            ),
            ConfigSource::Parsed(doc) => {
                let found = found_version(doc.schema_version);
                if found > CURRENT_SCHEMA_VERSION {
                    r matches Ok(LoadStep::Backup { backup, loaded }) && backup@ == backup_path_spec(
                        path@,
                        now_secs,
                    ) && is_defaulted(
                        loaded,
                        path@,
                        Diagnostic::SchemaVersionMismatch { backup, found },
                    )
                } else if found < CURRENT_SCHEMA_VERSION {
                    r matches Ok(LoadStep::Done(l)) && is_migrated_config(l.config, doc) && l.path@
                        == path@ && l.diagnostic is None && l.pending_migration is Some
                        && l.pending_migration->0.from_version == found && imports_view(
                        l.pending_migration->0.rom_imports@,
                    ) == legacy_rom_imports(
                        match doc.rom_oot {
                            Some(p) => Some(p@),
                            None => None,
                        },
                        match doc.rom_oot_mq {
                            Some(p) => Some(p@),
                            None => None,
                        },
                    )
                } else {
                    match doc.as_current {
                        Ok(c) => r matches Ok(LoadStep::Done(l)) && l.config == c && l.path@ == path@
                            && l.diagnostic is None && l.pending_migration is None,
                        Err(message) => r matches Ok(LoadStep::Backup { backup, loaded })
                            && backup@ == backup_path_spec(path@, now_secs) && is_defaulted(
                            loaded,
                            path@,
                            Diagnostic::ConfigParseError { backup, message },
                        ),
                    }
                }
            },
        },
{
    match source {
        ConfigSource::Missing => Ok(
            LoadStep::Done(
                LoadedConfig {
                    config: Config::default(),
                    path: owned(path),
                    diagnostic: None,
                    pending_migration: None,
                },
            ),
        ),
        ConfigSource::Unreadable { message } => Err(ConfigError::Io { path: owned(path), message }),
        ConfigSource::Malformed { message } => {
            let backup = backup_path(path, now_secs);
            let b2 = backup.clone();
            Ok(
                LoadStep::Backup {
                    backup,
                    loaded: LoadedConfig {
                        config: Config::default(),
                        path: owned(path),
                        diagnostic: Some(Diagnostic::ConfigParseError { backup: b2, message }),
                        pending_migration: None,
                    },
                },
            )
        },
        ConfigSource::Parsed(doc) => {
            let found: u32 = match doc.schema_version {
                Some(x) => x as u32,
                None => CURRENT_SCHEMA_VERSION,
            };
            if found > CURRENT_SCHEMA_VERSION {
                let backup = backup_path(path, now_secs);
                let b2 = backup.clone();
                Ok(
                    LoadStep::Backup {
                        backup,
                        loaded: LoadedConfig {
                            config: Config::default(),
                            path: owned(path),
                            diagnostic: Some(Diagnostic::SchemaVersionMismatch { backup: b2, found }),
                            pending_migration: None,
                        },
                    },
                )
            } else if found < CURRENT_SCHEMA_VERSION {
                let (config, pending) = migrate(found, &doc);
                Ok(
                    LoadStep::Done(
                        LoadedConfig {
                            config,
                            path: owned(path),
                            diagnostic: None,
                            pending_migration: Some(pending),
                        },
                    ),
                )
            } else {
                match doc.as_current {
                    Ok(config) => Ok(
                        LoadStep::Done(
                            LoadedConfig {
                                config,
                                path: owned(path),
                                diagnostic: None,
                                pending_migration: None,
                            },
                        ),
                    ),
                    Err(message) => {
                        let backup = backup_path(path, now_secs);
                        let b2 = backup.clone();
                        Ok(
                            LoadStep::Backup {
                                backup,
                                loaded: LoadedConfig {
                                    config: Config::default(),
                                    path: owned(path),
                                    diagnostic: Some(
                                        Diagnostic::ConfigParseError { backup: b2, message },
                                    ),
                                    pending_migration: None,
                                },
                            },
                        )
                    },
                }
            }
        },
    }
}

proof fn lemma_overrides_map(s: Seq<(Seq<char>, Seq<char>)>, i: int, k: Seq<char>)
    ensures
        0 <= i < s.len() && (forall|j: int| i < j < s.len() ==> (#[trigger] s[j]).0 != s[i].0)
            ==> overrides_map(s).contains_key(s[i].0) && overrides_map(s)[s[i].0] == s[i].1,
        overrides_map(s).contains_key(k) ==> exists|j: int| 0 <= j < s.len() && (#[trigger] s[j]).0 == k,
    decreases s.len(),
{
    if s.len() > 0 {
        let p = s.drop_last();
        lemma_overrides_map(p, i, k);
        if 0 <= i < s.len() - 1 && (forall|j: int| i < j < s.len() ==> (#[trigger] s[j]).0 != s[i].0) {
            assert(p[i] == s[i]);
            assert(s[s.len() - 1].0 != s[i].0);
            assert forall|j: int| i < j < p.len() implies (#[trigger] p[j]).0 != p[i].0 by {
                assert(p[j] == s[j]);
            }
        }
        if overrides_map(s).contains_key(k) && k != s.last().0 {
            let j = choose|j: int| 0 <= j < p.len() && (#[trigger] p[j]).0 == k;
            assert(s[j] == p[j]);
        }
    }
}

/// Migrating an older configuration keeps its install overrides: each tag of
/// the document's `install_overrides` is overridden to the directory its last
/// entry gives, and no other tag is.
pub proof fn law_migration_keeps_install_overrides(c: Config, doc: ConfigDocument, i: int, k: Seq<char>)
    requires
        is_migrated_config(c, doc),
    ensures
        0 <= i < doc.install_overrides@.len() && (forall|j: int|
            i < j < doc.install_overrides@.len() ==> (#[trigger] doc.install_overrides@[j]).0@
                != doc.install_overrides@[i].0@) ==> c.install_overrides@.contains_key(
            doc.install_overrides@[i].0@,
        ) && c.install_overrides@[doc.install_overrides@[i].0@]@ == doc.install_overrides@[i].1@,
        c.install_overrides@.contains_key(k) ==> exists|j: int|
            0 <= j < doc.install_overrides@.len() && (#[trigger] doc.install_overrides@[j]).0@ == k,
{
    let ov = doc.install_overrides@.map_values(|e: (String, String)| (e.0@, e.1@));
    lemma_overrides_map(ov, i, k);
    let m = c.install_overrides@;
    assert(m.map_values(|v: String| v@) == overrides_map(ov));
    if 0 <= i < doc.install_overrides@.len() && (forall|j: int|
        i < j < doc.install_overrides@.len() ==> (#[trigger] doc.install_overrides@[j]).0@
            != doc.install_overrides@[i].0@) {
        assert forall|j: int| i < j < ov.len() implies (#[trigger] ov[j]).0 != ov[i].0 by {
            assert(ov[j].0 == doc.install_overrides@[j].0@);
        }
        let key = ov[i].0;
        assert(m.map_values(|v: String| v@).contains_key(key));
        assert(m.map_values(|v: String| v@)[key] == m[key]@);
    }
    if m.contains_key(k) {
        assert(m.map_values(|v: String| v@).contains_key(k));
        let j = choose|j: int| 0 <= j < ov.len() && (#[trigger] ov[j]).0 == k;
        assert(doc.install_overrides@[j].0@ == ov[j].0);
    }
}

proof fn lemma_assignments_map(s: Seq<(Seq<char>, Seq<char>, Seq<char>)>, i: int, k: SlotKey)
    ensures
        0 <= i < s.len() && (forall|j: int|
            i < j < s.len() ==> ((#[trigger] s[j]).0, s[j].1) != (s[i].0, s[i].1))
            ==> assignments_map(s).contains_key((s[i].0, s[i].1)) && assignments_map(s)[(
            s[i].0,
            s[i].1,
        )] == s[i].2,
        assignments_map(s).contains_key(k) ==> exists|j: int|
            0 <= j < s.len() && ((#[trigger] s[j]).0, s[j].1) == k,
    decreases s.len(),
{
    if s.len() > 0 {
        let p = s.drop_last();
        lemma_assignments_map(p, i, k);
        if 0 <= i < s.len() - 1 && (forall|j: int|
            i < j < s.len() ==> ((#[trigger] s[j]).0, s[j].1) != (s[i].0, s[i].1)) {
            assert(p[i] == s[i]);
            assert((s[s.len() - 1].0, s[s.len() - 1].1) != (s[i].0, s[i].1));
            assert forall|j: int| i < j < p.len() implies ((#[trigger] p[j]).0, p[j].1) != (p[i].0, p[i].1) by {
                assert(p[j] == s[j]);
            }
        }
        if assignments_map(s).contains_key(k) && k != (s.last().0, s.last().1) {
            let j = choose|j: int| 0 <= j < p.len() && ((#[trigger] p[j]).0, p[j].1) == k;
            assert(s[j] == p[j]);
        }
    }
}

/// Migrating an older configuration keeps its library root and its slot
/// assignments: each `(game, slot)` of the document is assigned the filename
/// its last entry gives, and no other slot is assigned; the result has the
/// current schema version.
pub proof fn law_migration_keeps_root_and_assignments(
    c: Config,
    doc: ConfigDocument,
    i: int,
    k: SlotKey,
)
    requires
        is_migrated_config(c, doc),
    ensures
        c.schema_version == CURRENT_SCHEMA_VERSION,
        opt_view(c.library_root) == opt_view(doc.library_root),
        ({
            let sa = doc.slot_assignments@;
            0 <= i < sa.len() && (forall|j: int|
                i < j < sa.len() ==> ((#[trigger] sa[j]).0@, sa[j].1@) != (sa[i].0@, sa[i].1@))
                ==> c.slot_assignments@.contains_key((sa[i].0@, sa[i].1@))
                && c.slot_assignments@[(sa[i].0@, sa[i].1@)] == sa[i].2@
        }),
        c.slot_assignments@.contains_key(k) ==> exists|j: int|
            0 <= j < doc.slot_assignments@.len() && ((#[trigger] doc.slot_assignments@[j]).0@,
            doc.slot_assignments@[j].1@) == k,
{
    let sa = doc.slot_assignments@;
    let sv = sa.map_values(|e: (String, String, String)| (e.0@, e.1@, e.2@));
    lemma_assignments_map(sv, i, k);
    if 0 <= i < sa.len() && (forall|j: int|
        i < j < sa.len() ==> ((#[trigger] sa[j]).0@, sa[j].1@) != (sa[i].0@, sa[i].1@)) {
        assert forall|j: int| i < j < sv.len() implies ((#[trigger] sv[j]).0, sv[j].1) != (sv[i].0, sv[i].1) by {
            assert(sv[j] == (sa[j].0@, sa[j].1@, sa[j].2@));
        }
        assert(sv[i] == (sa[i].0@, sa[i].1@, sa[i].2@));
    }
    if c.slot_assignments@.contains_key(k) {
        let j = choose|j: int| 0 <= j < sv.len() && ((#[trigger] sv[j]).0, sv[j].1) == k;
        assert(sv[j] == (sa[j].0@, sa[j].1@, sa[j].2@));
    }
}

} // verus!
