//! The managed ROM library. Imported ROMs are stored as plain files under
//! `<config_dir>/roms/`. No format detection, hashing, or validation —
//! whatever the user picks is trusted.
//!
//! Reading the directory and copying files is the caller's part; this module
//! decides what a listing shows, which name an import gets, and what a
//! migration's imports do to the configuration.

use vstd::prelude::*;

use crate::config::schema::{Config, SlotKey};
use crate::config::{Diagnostic, PendingMigration, RomImportRequest};
use crate::paths::{join_spec, path_join};
use crate::platform::{is_shipyard_dir, Platform};
use crate::text::{
    chars_of, concat2, decimal, ends_with, lemma_decimal_injective, lemma_seq_le_total,
    lemma_seq_le_trans, owned, push_str, seq_ends_with, seq_le, str_eq, str_le,
    string_from_range, u64_to_string,
};

verus! {

broadcast use vstd::seq_lib::group_to_multiset_ensures;

#[derive(Debug, Clone, PartialEq, Eq)]
pub struct RomEntry {
    pub filename: String,
    pub size: u64,
}

/// One entry of the library directory, as a directory listing reports it.
#[derive(Debug, Clone)]
pub struct ListedFile {
    pub name: String,
    pub is_file: bool,
    pub size: u64,
}

/// A ROM entry as `(filename, size)`.
pub open spec fn rom_view(e: RomEntry) -> (Seq<char>, u64) {
    (e.filename@, e.size)
}

/// ROM entries as `(filename, size)` pairs, in order.
pub open spec fn roms_view(v: Seq<RomEntry>) -> Seq<(Seq<char>, u64)> {
    v.map_values(|e: RomEntry| rom_view(e))
}

/// Listed files as `(name, is_file, size)`, in order.
pub open spec fn listing_view(v: Seq<ListedFile>) -> Seq<(Seq<char>, bool, u64)> {
    v.map_values(|f: ListedFile| (f.name@, f.is_file, f.size))
}

/// Whether a listed file is a library ROM: a regular file that is not an
/// import still in flight (`.partial`).
pub open spec fn is_rom_file(f: (Seq<char>, bool, u64)) -> bool {
    f.1 && !seq_ends_with(f.0, ".partial"@)
}

/// The ROMs among `files`, in listing order.
pub open spec fn rom_candidates(files: Seq<(Seq<char>, bool, u64)>) -> Seq<(Seq<char>, u64)>
    decreases files.len(),
{
    if files.len() == 0 {
        Seq::empty()
    } else {
        let rest = rom_candidates(files.drop_last());
        let f = files.last();
        if is_rom_file(f) {
            rest.push((f.0, f.2))
        } else {
            rest
        }
    }
}

/// Whether the entries are in filename order.
pub open spec fn sorted_by_filename(s: Seq<(Seq<char>, u64)>) -> bool {
    forall|i: int, j: int| 0 <= i < j < s.len() ==> seq_le(#[trigger] s[i].0, #[trigger] s[j].0)
}

/// The library directory under Shipyard's configuration directory.
pub fn library_root_in(config_dir: &str) -> (r: String)
    ensures
        r@ == join_spec(config_dir@, "roms"@),
{
    path_join(config_dir, "roms")
}

/// The library directory of `platform`: `<config_dir>/roms`, when the
/// platform knows its configuration directory.
pub fn library_root<P: Platform>(platform: &P) -> (r: Option<String>)
    ensures
        r matches Some(p) ==> exists|d: Seq<char>|
            is_shipyard_dir(d) && p@ == join_spec(d, "roms"@),
{
    match platform.config_dir() {
        Some(d) => Some(library_root_in(&d)),
        None => None,
    }
}

/// The first position of `out` whose filename sorts after `name`.
fn insertion_point(out: &Vec<RomEntry>, name: &String) -> (pos: usize)
    ensures
        pos <= out@.len(),
        forall|k: int| 0 <= k < pos ==> seq_le(#[trigger] out@[k].filename@, name@),
        pos < out@.len() ==> !seq_le(out@[pos as int].filename@, name@),
{
    let n = out.len();
    for i in 0..n
        invariant
            n == out@.len(),
            forall|k: int| 0 <= k < i ==> seq_le(#[trigger] out@[k].filename@, name@),
    {
        if !str_le(&out[i].filename, name) {
            return i;
        }
    }
    n
}

proof fn lemma_insert_sorted(s: Seq<(Seq<char>, u64)>, pos: int, x: (Seq<char>, u64))
    requires
        sorted_by_filename(s),
        0 <= pos <= s.len(),
        forall|k: int| 0 <= k < pos ==> seq_le(#[trigger] s[k].0, x.0),
        pos < s.len() ==> !seq_le(s[pos].0, x.0),
    ensures
        sorted_by_filename(s.insert(pos, x)),
{
    let t = s.insert(pos, x);
    assert forall|i: int, j: int| 0 <= i < j < t.len() implies seq_le(#[trigger] t[i].0, #[trigger] t[j].0) by {
        if i == pos && j > pos {
            lemma_seq_le_total(s[pos].0, x.0);
            if j - 1 > pos {
                assert(seq_le(s[pos].0, s[j - 1].0));
                lemma_seq_le_trans(x.0, s[pos].0, s[j - 1].0);
            }
        } else if i < pos && j == pos {
            assert(seq_le(s[i].0, x.0));
        } else if i < pos && j > pos {
            assert(seq_le(s[i].0, s[j - 1].0));
        } else if i > pos {
            assert(seq_le(s[i - 1].0, s[j - 1].0));
        } else {
            assert(seq_le(s[i].0, s[j].0));
        }
    }
}

/// The ROMs of a library listing, sorted by filename: regular files only,
/// skipping `.partial` imports still in flight.
pub fn rom_entries(files: &Vec<ListedFile>) -> (r: Vec<RomEntry>)
    ensures
        sorted_by_filename(roms_view(r@)),
        roms_view(r@).to_multiset() == rom_candidates(listing_view(files@)).to_multiset(),
{
    let ghost fv = listing_view(files@);
    let mut out: Vec<RomEntry> = Vec::new();
    let n = files.len();
    proof {
        assert(fv.take(0) =~= Seq::<(Seq<char>, bool, u64)>::empty());
        assert(roms_view(out@) =~= Seq::<(Seq<char>, u64)>::empty());
    }
    for i in 0..n
        invariant
            n == files@.len(),
            fv == listing_view(files@),
            sorted_by_filename(roms_view(out@)),
            roms_view(out@).to_multiset() == rom_candidates(fv.take(i as int)).to_multiset(),
    {
        proof {
            assert(fv.take(i + 1).drop_last() =~= fv.take(i as int));
            assert(fv.take(i + 1).last() == fv[i as int]);
        }
        let f = &files[i];
        if f.is_file && !ends_with(&f.name, ".partial") {
            let e = RomEntry { filename: owned(&f.name), size: f.size };
            let pos = insertion_point(&out, &e.filename);
            let ghost before = roms_view(out@);
            let ghost x = rom_view(e);
            out.insert(pos, e);
            proof {
                assert(roms_view(out@) =~= before.insert(pos as int, x));
                lemma_insert_sorted(before, pos as int, x);
                vstd::seq_lib::to_multiset_insert(before, pos as int, x);
            }
        }
    }
    proof {
        assert(fv.take(n as int) =~= fv);
    }
    out
}

// ---------------------------------------------------------------------------
// Import names
// ---------------------------------------------------------------------------

/// The index of the last `.` in `s`.
pub open spec fn last_dot(s: Seq<char>) -> Option<int>
    decreases s.len(),
{
    if s.len() == 0 {
        None
    } else if s.last() == '.' {
        Some(s.len() - 1)
    } else {
        last_dot(s.drop_last())
    }
}

/// A filename split at its last `.` into stem and extension. A name with no
/// dot, or whose only dot leads the name (`.hidden`), has no extension.
pub open spec fn split_stem_ext_spec(name: Seq<char>) -> (Seq<char>, Option<Seq<char>>) {
    match last_dot(name) {
        Some(i) => if i == 0 {
            (name, None)
        } else {
            (name.take(i), Some(name.skip(i + 1)))
        },
        None => (name, None),
    }
}

/// The `n`th alternative to a taken name: `<stem>-<n>.<ext>`, or
/// `<stem>-<n>` without an extension.
pub open spec fn candidate_name(stem: Seq<char>, ext: Option<Seq<char>>, n: nat) -> Seq<char> {
    match ext {
        Some(e) => stem + "-"@ + decimal(n) + "."@ + e,
        None => stem + "-"@ + decimal(n),
    }
}

/// The names of `v`.
pub open spec fn names_view(v: Seq<String>) -> Seq<Seq<char>> {
    v.map_values(|s: String| s@)
}

/// Splits `name` at its last `.` into stem and extension.
pub fn split_stem_ext(name: &str) -> (r: (String, Option<String>))
    ensures
        r.0@ == split_stem_ext_spec(name@).0,
        match r.1 {
            Some(e) => split_stem_ext_spec(name@).1 == Some(e@),
            None => split_stem_ext_spec(name@).1 is None,
        },
{
    let v = chars_of(name);
    let n = v.len();
    let mut last: Option<usize> = None;
    proof {
        assert(v@.take(0) =~= Seq::<char>::empty());
    }
    for i in 0..n
        invariant
            n == v@.len(),
            v@ == name@,
            match last {
                Some(k) => last_dot(v@.take(i as int)) == Some(k as int) && k < i,
                None => last_dot(v@.take(i as int)) is None,
            },
    {
        proof {
            assert(v@.take(i + 1).drop_last() =~= v@.take(i as int));
            assert(v@.take(i + 1).last() == v@[i as int]);
        }
        if v[i] == '.' {
            last = Some(i);
        }
    }
    proof {
        assert(v@.take(n as int) =~= v@);
    }
    match last {
        Some(k) => {
            if k == 0 {
                (owned(name), None)
            } else {
                let stem = string_from_range(&v, 0, k);
                let ext = string_from_range(&v, k + 1, n);
                proof {
                    assert(v@.subrange(0, k as int) =~= v@.take(k as int));
                    assert(v@.subrange(k + 1, n as int) =~= v@.skip(k + 1));
                }
                (stem, Some(ext))
            }
        },
        None => (owned(name), None),
    }
}

/// Whether `name` is one of `names`.
fn name_taken(names: &Vec<String>, name: &str) -> (r: bool)
    ensures
        r == names_view(names@).contains(name@),
{
    let n = names.len();
    for i in 0..n
        invariant
            n == names@.len(),
            forall|k: int| 0 <= k < i ==> (#[trigger] names@[k])@ != name@,
    {
        if str_eq(&names[i], name) {
            assert(names_view(names@)[i as int] == name@);
            return true;
        }
    }
    proof {
        if names_view(names@).contains(name@) {
            let k = choose|k: int| 0 <= k < names_view(names@).len() && names_view(names@)[k] == name@;
            assert(names@[k]@ == name@);
        }
    }
    false
}

proof fn lemma_middle_injective(p: Seq<char>, a: Seq<char>, b: Seq<char>, s: Seq<char>)
    requires
        p + a + s == p + b + s,
    ensures
        a == b,
{
    let l = p + a + s;
    let r = p + b + s;
    assert(a.len() == b.len()) by {
        assert(l.len() == r.len());
    }
    assert(a =~= l.subrange(p.len() as int, (p.len() + a.len()) as int));
    assert(b =~= r.subrange(p.len() as int, (p.len() + b.len()) as int));
}

/// Distinct numbers give distinct alternative names.
pub proof fn lemma_candidate_injective(stem: Seq<char>, ext: Option<Seq<char>>, m: nat, n: nat)
    requires
        candidate_name(stem, ext, m) == candidate_name(stem, ext, n),
    ensures
        m == n,
{
    let p = stem + "-"@;
    match ext {
        Some(e) => {
            assert(candidate_name(stem, ext, m) =~= p + decimal(m) + ("."@ + e));
            assert(candidate_name(stem, ext, n) =~= p + decimal(n) + ("."@ + e));
            lemma_middle_injective(p, decimal(m), decimal(n), "."@ + e);
        },
        None => {
            assert(candidate_name(stem, ext, m) =~= p + decimal(m) + Seq::<char>::empty());
            assert(candidate_name(stem, ext, n) =~= p + decimal(n) + Seq::<char>::empty());
            lemma_middle_injective(p, decimal(m), decimal(n), Seq::<char>::empty());
        },
    }
    lemma_decimal_injective(m, n);
}

/// The name an imported file gets in a library that already holds
/// `existing`: its own name when that is free, otherwise the first free
/// `<stem>-1.<ext>`, `<stem>-2.<ext>`, ….
pub fn pick_unique_name(existing: &Vec<String>, original: &str) -> (r: String)
    requires
        existing@.len() < u32::MAX,
    ensures
        !names_view(existing@).contains(r@),
        !names_view(existing@).contains(original@) ==> r@ == original@,
        names_view(existing@).contains(original@) ==> exists|n: nat|
            1 <= n && r@ == #[trigger] candidate_name(
                split_stem_ext_spec(original@).0,
                split_stem_ext_spec(original@).1,
                n,
            ) && forall|m: nat|
                1 <= m < n ==> names_view(existing@).contains(
                    candidate_name(
                        split_stem_ext_spec(original@).0,
                        split_stem_ext_spec(original@).1,
                        m,
                    ),
                ),
{
    if !name_taken(existing, original) {
        return owned(original);
    }
    let (stem, ext) = split_stem_ext(original);
    let ghost st = split_stem_ext_spec(original@).0;
    let ghost ex = split_stem_ext_spec(original@).1;
    let ghost names = names_view(existing@);
    let ghost mut taken: Set<Seq<char>> = Set::empty();
    let mut n: u32 = 1;
    loop
        invariant
            existing@.len() < u32::MAX,
            names == names_view(existing@),
            names.len() == existing@.len(),
            names.contains(original@),
            st == split_stem_ext_spec(original@).0,
            ex == split_stem_ext_spec(original@).1,
            stem@ == st,
            match ext {
                Some(e) => ex == Some(e@),
                None => ex is None,
            },
            1 <= n,
            n <= existing@.len() + 1,
            taken.finite(),
            taken.len() == n - 1,
            forall|s: Seq<char>| taken.contains(s) ==> names.contains(s),
            forall|s: Seq<char>|
                taken.contains(s) ==> exists|m: nat| 1 <= m < n && s == candidate_name(st, ex, m),
            forall|m: nat| 1 <= m < n ==> names.contains(#[trigger] candidate_name(st, ex, m)),
        decreases existing@.len() + 1 - n,
    {
        let mut c = concat2(&stem, "-");
        let digits = u64_to_string(n as u64);
        push_str(&mut c, &digits);
        match &ext {
            Some(e) => {
                push_str(&mut c, ".");
                push_str(&mut c, e);
            },
            None => {},
        }
        assert(c@ == candidate_name(st, ex, n as nat));
        if !name_taken(existing, &c) {
            return c;
        }
        proof {
            if taken.contains(c@) {
                let m = choose|m: nat| 1 <= m < n && c@ == candidate_name(st, ex, m);
                lemma_candidate_injective(st, ex, m, n as nat);
            }
            let old_taken = taken;
            taken = taken.insert(c@);
            assert(taken.len() == old_taken.len() + 1);
            assert(taken.subset_of(names.to_set()));
            vstd::set_lib::lemma_len_subset(taken, names.to_set());
            names.lemma_cardinality_of_set();
            assert forall|s: Seq<char>| taken.contains(s) implies exists|m: nat|
                1 <= m < n + 1 && s == candidate_name(st, ex, m) by {
                if s == c@ {
                    assert(s == candidate_name(st, ex, n as nat));
                } else {
                    assert(old_taken.contains(s));
                }
            }
        }
        n = n + 1;
    }
}

// ---------------------------------------------------------------------------
// Migration
// ---------------------------------------------------------------------------

/// What importing one ROM of a pending migration gave.
#[derive(Debug, Clone)]
pub enum ImportOutcome {
    /// The file was copied into the library under this entry.
    Imported(RomEntry),
    /// The source file does not exist.
    NotFound,
    /// The import failed for another reason, given as text.
    Failed(String),
}

/// The slot table after the outcomes of `reqs` were applied to `m`: each
/// imported ROM is assigned to its request's slot.
pub open spec fn migrated_assignments(
    m: Map<SlotKey, Seq<char>>,
    reqs: Seq<RomImportRequest>,
    outcomes: Seq<ImportOutcome>,
) -> Map<SlotKey, Seq<char>>
    decreases reqs.len(),
{
    if reqs.len() == 0 {
        m
    } else {
        let prev = migrated_assignments(m, reqs.drop_last(), outcomes.take(reqs.len() - 1));
        let q = reqs.last();
        match outcomes[reqs.len() - 1] {
            ImportOutcome::Imported(e) => prev.insert((q.game_slug@, q.slot_id@), e.filename@),
            _ => prev,
        }
    }
}

/// The diagnostics of a migration: one per failed import, in request order.
pub open spec fn migration_diagnostics(
    reqs: Seq<RomImportRequest>,
    outcomes: Seq<ImportOutcome>,
) -> Seq<Diagnostic>
    decreases reqs.len(),
{
    if reqs.len() == 0 {
        Seq::empty()
    } else {
        let prev = migration_diagnostics(reqs.drop_last(), outcomes.take(reqs.len() - 1));
        let q = reqs.last();
        match outcomes[reqs.len() - 1] {
            ImportOutcome::Imported(_) => prev,
            ImportOutcome::NotFound => prev.push(Diagnostic::RomMigrationSkipped { path: q.source_path }),
            ImportOutcome::Failed(message) => prev.push(
                Diagnostic::RomMigrationFailed { path: q.source_path, message },
            ),
        }
    }
}

/// Materializes a `PendingMigration` once its ROMs were imported:
/// `outcomes[i]` is what importing `pending.rom_imports[i]` gave. Each
/// imported ROM is assigned to its slot; each failed import becomes a
/// `Diagnostic` and is otherwise skipped.
pub fn apply_pending_migration(
    config: &mut Config,
    pending: PendingMigration,
    outcomes: Vec<ImportOutcome>,
) -> (diagnostics: Vec<Diagnostic>)
    requires
        outcomes@.len() == pending.rom_imports@.len(),
    ensures
        final(config).slot_assignments@ == migrated_assignments(
            old(config).slot_assignments@,
            pending.rom_imports@,
            outcomes@,
        ),
        crate::config::schema::same_but_assignments(*final(config), *old(config)),
        diagnostics@ == migration_diagnostics(pending.rom_imports@, outcomes@),
{
    let ghost m0 = config.slot_assignments@;
    let ghost start = *config;
    let reqs = pending.rom_imports;
    let mut diagnostics: Vec<Diagnostic> = Vec::new();
    let n = reqs.len();
    for i in 0..n
        invariant
            n == reqs@.len(),
            outcomes@.len() == n,
            config.slot_assignments@ == migrated_assignments(
                m0,
                reqs@.take(i as int),
                outcomes@.take(i as int),
            ),
            crate::config::schema::same_but_assignments(*config, start),
            diagnostics@ == migration_diagnostics(reqs@.take(i as int), outcomes@.take(i as int)),
    {
        proof {
            assert(reqs@.take(i + 1).drop_last() =~= reqs@.take(i as int));
            assert(outcomes@.take(i + 1).take(i as int) =~= outcomes@.take(i as int));
            assert(reqs@.take(i + 1).last() == reqs@[i as int]);
            assert(outcomes@.take(i + 1)[i as int] == outcomes@[i as int]);
        }
        let req = &reqs[i];
        match &outcomes[i] {
            ImportOutcome::Imported(entry) => {
                config.set_assignment(&req.game_slug, &req.slot_id, Some(entry.filename.clone()));
            },
            ImportOutcome::NotFound => {
                diagnostics.push(Diagnostic::RomMigrationSkipped { path: req.source_path.clone() });
            },
            ImportOutcome::Failed(message) => {
                diagnostics.push(
                    Diagnostic::RomMigrationFailed {
                        path: req.source_path.clone(),
                        message: message.clone(),
                    },
                );
            },
        }
    }
    proof {
        assert(reqs@.take(n as int) =~= reqs@);
        assert(outcomes@.take(n as int) =~= outcomes@);
    }
    diagnostics
}

} // verus!
