//! Whether a game's cached ROM archives (`.o2r` / `.otr`) already exist on
//! disk. Used to label per-version "Clear cache" buttons and to show what each
//! install has generated.
//!
//! The caller looks at the files afresh every time (never cached): for each
//! candidate path of `cached_asset_paths` it reports the file's size when it
//! is a regular file. Everything else is decided here.

use vstd::prelude::*;

use crate::games::{CachedAssetSpec, Game};
use crate::paths::{join_spec, path_join};
use crate::platform::Platform;

verus! {

#[derive(Debug, Clone)]
pub struct CachedAssetPresence {
    pub slot_id: &'static str,
    pub status: CachedAssetStatus,
}

#[derive(Debug, Clone)]
pub enum CachedAssetStatus {
    Present {
        /// The filename that was found (first match from the spec's ordered list).
        filename: &'static str,
        path: String,
        size: u64,
    },
    Missing,
}

impl CachedAssetStatus {
    pub fn is_present(&self) -> (r: bool)
        ensures
            r == (self is Present),
    {
        match self {
            CachedAssetStatus::Present { .. } => true,
            CachedAssetStatus::Missing => false,
        }
    }
}

/// Paths and sizes a clear would delete, for the confirmation dialog.
#[derive(Debug, Clone)]
pub struct PlannedClear {
    pub slot_id: &'static str,
    pub filename: &'static str,
    pub path: String,
    pub size: u64,
}

/// What a clear did: the files removed, with their size when planned, and
/// each file that could not be removed, with the reason. A partial clear is
/// valid and reportable.
#[derive(Debug, Clone)]
pub struct ClearResult {
    pub deleted: Vec<(String, u64)>,
    pub failures: Vec<(String, String)>,
}

/// A status as `(filename, path, size)` when present.
pub open spec fn status_view(s: CachedAssetStatus) -> Option<(Seq<char>, Seq<char>, u64)> {
    match s {
        CachedAssetStatus::Present { filename, path, size } => Some((filename@, path@, size)),
        CachedAssetStatus::Missing => None,
    }
}

/// A presence as `(slot_id, status)`.
pub open spec fn presence_view(p: CachedAssetPresence) -> (Seq<char>, Option<(Seq<char>, Seq<char>, u64)>) {
    (p.slot_id@, status_view(p.status))
}

/// A planned deletion as `(slot_id, filename, path, size)`.
pub open spec fn planned_view(p: PlannedClear) -> (Seq<char>, Seq<char>, Seq<char>, u64) {
    (p.slot_id@, p.filename@, p.path@, p.size)
}

/// The position of the first candidate that exists as a regular file.
pub open spec fn first_present(sizes: Seq<Option<u64>>) -> Option<int>
    decreases sizes.len(),
{
    if sizes.len() == 0 {
        None
    } else if sizes[0] is Some {
        Some(0)
    } else {
        match first_present(sizes.drop_first()) {
            Some(j) => Some(j + 1),
            None => None,
        }
    }
}

/// The status of one declaration: its first filename found in `dir`, or
/// missing.
pub open spec fn expected_status(
    dir: Seq<char>,
    names: Seq<Seq<char>>,
    sizes: Seq<Option<u64>>,
) -> Option<(Seq<char>, Seq<char>, u64)> {
    match first_present(sizes) {
        Some(j) => match sizes[j] {
            Some(size) => Some((names[j], join_spec(dir, names[j]), size)),
            None => None,
        },
        None => None,
    }
}

/// Whether `probes` reports one size slot per candidate file of `decls`.
pub open spec fn probes_fit(decls: Seq<(Seq<char>, Seq<Seq<char>>)>, probes: Seq<Vec<Option<u64>>>) -> bool {
    &&& probes.len() == decls.len()
    &&& forall|i: int| 0 <= i < decls.len() ==> (#[trigger] probes[i])@.len() == decls[i].1.len()
}

/// What a scan of `dir` finds, declaration by declaration.
pub open spec fn expected_scan(
    dir: Seq<char>,
    decls: Seq<(Seq<char>, Seq<Seq<char>>)>,
    probes: Seq<Vec<Option<u64>>>,
) -> Seq<(Seq<char>, Option<(Seq<char>, Seq<char>, u64)>)> {
    Seq::new(decls.len(), |i: int| (decls[i].0, expected_status(dir, decls[i].1, probes[i]@)))
}

/// The present entries of a scan, as planned deletions, in order.
pub open spec fn expected_plan(scan: Seq<(Seq<char>, Option<(Seq<char>, Seq<char>, u64)>)>) -> Seq<
    (Seq<char>, Seq<char>, Seq<char>, u64),
>
    decreases scan.len(),
{
    if scan.len() == 0 {
        Seq::empty()
    } else {
        let prev = expected_plan(scan.drop_last());
        match scan.last().1 {
            Some(f) => prev.push((scan.last().0, f.0, f.1, f.2)),
            None => prev,
        }
    }
}

proof fn lemma_first_present_at(sizes: Seq<Option<u64>>, j: int)
    requires
        0 <= j < sizes.len(),
        sizes[j] is Some,
        forall|k: int| 0 <= k < j ==> (#[trigger] sizes[k]) is None,
    ensures
        first_present(sizes) == Some(j),
    decreases j,
{
    if j > 0 {
        assert(sizes[0] is None);
        assert forall|k: int| 0 <= k < j - 1 implies (#[trigger] sizes.drop_first()[k]) is None by {
            assert(sizes.drop_first()[k] == sizes[k + 1]);
        }
        lemma_first_present_at(sizes.drop_first(), j - 1);
    }
}

proof fn lemma_first_present_none(sizes: Seq<Option<u64>>)
    requires
        forall|k: int| 0 <= k < sizes.len() ==> (#[trigger] sizes[k]) is None,
    ensures
        first_present(sizes) is None,
    decreases sizes.len(),
{
    if sizes.len() > 0 {
        assert(sizes[0] is None);
        assert forall|k: int| 0 <= k < sizes.len() - 1 implies (#[trigger] sizes.drop_first()[k]) is None by {
            assert(sizes.drop_first()[k] == sizes[k + 1]);
        }
        lemma_first_present_none(sizes.drop_first());
    }
}

/// The candidate paths of one declaration, in declaration order.
fn candidate_paths(data_dir: &str, spec: &CachedAssetSpec) -> (r: Vec<String>)
    ensures
        r@.len() == spec.filenames@.len(),
        forall|j: int| 0 <= j < r@.len() ==> (#[trigger] r@[j])@ == join_spec(data_dir@, spec.filenames@[j]@),
{
    let mut out: Vec<String> = Vec::new();
    let n = spec.filenames.len();
    for j in 0..n
        invariant
            n == spec.filenames@.len(),
            out@.len() == j,
            forall|k: int| 0 <= k < j ==> (#[trigger] out@[k])@ == join_spec(data_dir@, spec.filenames@[k]@),
    {
        out.push(path_join(data_dir, spec.filenames[j]));
    }
    out
}

/// The files a scan looks at: for each cached-asset declaration of `game`,
/// its candidate filenames inside the game's data directory, in order.
pub fn cached_asset_paths<G: Game, P: Platform>(game: &G, install_dir: &str, platform: &P) -> (r:
    Vec<Vec<String>>)
    ensures
        r@.len() == game.spec_cached_assets().len(),
        forall|i: int|
            0 <= i < r@.len() ==> (#[trigger] r@[i])@.len() == game.spec_cached_assets()[i].1.len(),
        forall|i: int, j: int|
            0 <= i < r@.len() && 0 <= j < r@[i]@.len() ==> (#[trigger] r@[i]@[j])@ == join_spec(
                install_dir@,
                game.spec_cached_assets()[i].1[j],
            ),
{
    let data_dir = game.data_dir(install_dir, platform);
    let decls = game.cached_assets();
    let ghost dv = decls@.map_values(|c: CachedAssetSpec| crate::games::cached_view(c));
    let mut out: Vec<Vec<String>> = Vec::new();
    let n = decls.len();
    for i in 0..n
        invariant
            n == decls@.len(),
            dv == game.spec_cached_assets(),
            dv == decls@.map_values(|c: CachedAssetSpec| crate::games::cached_view(c)),
            data_dir@ == install_dir@,
            out@.len() == i,
            forall|k: int| 0 <= k < i ==> (#[trigger] out@[k])@.len() == dv[k].1.len(),
            forall|k: int, j: int|
                0 <= k < i && 0 <= j < out@[k]@.len() ==> (#[trigger] out@[k]@[j])@ == join_spec(
                    install_dir@,
                    dv[k].1[j],
                ),
    {
        let paths = candidate_paths(&data_dir, &decls[i]);
        assert(dv[i as int] == crate::games::cached_view(decls@[i as int]));
        out.push(paths);
    }
    out
}

/// The status of one declaration from the sizes of its candidate files
/// (`None` where the candidate is not a regular file).
fn status_of(data_dir: &str, spec: &CachedAssetSpec, sizes: &Vec<Option<u64>>) -> (r: CachedAssetStatus)
    requires
        sizes@.len() == spec.filenames@.len(),
    ensures
        status_view(r) == expected_status(
            data_dir@,
            spec.filenames@.map_values(|f: &'static str| f@),
            sizes@,
        ),
{
    let ghost names = spec.filenames@.map_values(|f: &'static str| f@);
    let n = sizes.len();
    for j in 0..n
        invariant
            n == sizes@.len(),
            n == spec.filenames@.len(),
            names == spec.filenames@.map_values(|f: &'static str| f@),
            forall|k: int| 0 <= k < j ==> (#[trigger] sizes@[k]) is None,
    {
        match sizes[j] {
            Some(size) => {
                proof {
                    lemma_first_present_at(sizes@, j as int);
                    assert(names[j as int] == spec.filenames@[j as int]@);
                }
                return CachedAssetStatus::Present {
                    filename: spec.filenames[j],
                    path: path_join(data_dir, spec.filenames[j]),
                    size,
                };
            },
            None => {},
        }
    }
    proof {
        lemma_first_present_none(sizes@);
    }
    CachedAssetStatus::Missing
}

/// For every cached-asset declaration of `game`, the first of its candidate
/// files that exists (`Present`), or `Missing`. `probes[i][j]` is the size of
/// `cached_asset_paths(..)[i][j]` when that is a regular file.
pub fn scan_cached_assets<G: Game, P: Platform>(
    game: &G,
    install_dir: &str,
    platform: &P,
    probes: &Vec<Vec<Option<u64>>>,
) -> (r: Vec<CachedAssetPresence>)
    requires
        probes_fit(game.spec_cached_assets(), probes@),
    ensures
        r@.map_values(|p: CachedAssetPresence| presence_view(p)) == expected_scan(
            install_dir@,
            game.spec_cached_assets(),
            probes@,
        ),
{
    let data_dir = game.data_dir(install_dir, platform);
    let decls = game.cached_assets();
    let ghost dv = decls@.map_values(|c: CachedAssetSpec| crate::games::cached_view(c));
    let ghost want = expected_scan(install_dir@, dv, probes@);
    let mut out: Vec<CachedAssetPresence> = Vec::new();
    let n = decls.len();
    for i in 0..n
        invariant
            n == decls@.len(),
            dv == game.spec_cached_assets(),
            dv == decls@.map_values(|c: CachedAssetSpec| crate::games::cached_view(c)),
            want == expected_scan(install_dir@, dv, probes@),
            probes_fit(dv, probes@),
            data_dir@ == install_dir@,
            out@.len() == i,
            forall|k: int| 0 <= k < i ==> presence_view(#[trigger] out@[k]) == want[k],
    {
        assert(dv[i as int] == crate::games::cached_view(decls@[i as int]));
        assert(probes@[i as int]@.len() == dv[i as int].1.len());
        let status = status_of(&data_dir, &decls[i], &probes[i]);
        out.push(CachedAssetPresence { slot_id: decls[i].slot_id, status });
    }
    assert(out@.map_values(|p: CachedAssetPresence| presence_view(p)) =~= want);
    out
}

/// The deletions a clear would make, for the confirmation dialog: the
/// present entries of the scan, in order. Pure; `ClearResult::from_outcomes`
/// reports on the same list.
pub fn plan_clear<G: Game, P: Platform>(
    game: &G,
    install_dir: &str,
    platform: &P,
    probes: &Vec<Vec<Option<u64>>>,
) -> (r: Vec<PlannedClear>)
    requires
        probes_fit(game.spec_cached_assets(), probes@),
    ensures
        r@.map_values(|p: PlannedClear| planned_view(p)) == expected_plan(
            expected_scan(install_dir@, game.spec_cached_assets(), probes@),
        ),
{
    let scan = scan_cached_assets(game, install_dir, platform, probes);
    let ghost sv = scan@.map_values(|p: CachedAssetPresence| presence_view(p));
    let mut out: Vec<PlannedClear> = Vec::new();
    let n = scan.len();
    proof {
        assert(sv.take(0) =~= Seq::<(Seq<char>, Option<(Seq<char>, Seq<char>, u64)>)>::empty());
        assert(out@.map_values(|p: PlannedClear| planned_view(p)) =~= Seq::<
            (Seq<char>, Seq<char>, Seq<char>, u64),
        >::empty());
    }
    for i in 0..n
        invariant
            n == scan@.len(),
            sv == scan@.map_values(|p: CachedAssetPresence| presence_view(p)),
            out@.map_values(|p: PlannedClear| planned_view(p)) == expected_plan(sv.take(i as int)),
    {
        proof {
            assert(sv.take(i + 1).drop_last() =~= sv.take(i as int));
            assert(sv.take(i + 1).last() == presence_view(scan@[i as int]));
        }
        let ghost before = out@;
        match &scan[i].status {
            CachedAssetStatus::Present { filename, path, size } => {
                out.push(
                    PlannedClear {
                        slot_id: scan[i].slot_id,
                        filename: *filename,
                        path: path.clone(),
                        size: *size,
                    },
                );
                assert(out@.map_values(|p: PlannedClear| planned_view(p)) =~= before.map_values(
                    |p: PlannedClear| planned_view(p),
                ).push(planned_view(out@.last())));
            },
            CachedAssetStatus::Missing => {},
        }
    }
    proof {
        assert(sv.take(n as int) =~= sv);
    }
    out
}

impl ClearResult {
    /// The report of a clear: `errors[i]` is why removing `plan[i]` failed,
    /// or `None` when it was removed.
    pub fn from_outcomes(plan: Vec<PlannedClear>, errors: Vec<Option<String>>) -> (r: ClearResult)
        requires
            errors@.len() == plan@.len(),
        ensures
            r.deleted@.map_values(|d: (String, u64)| (d.0@, d.1)) == removed_files(
                plan@.map_values(|p: PlannedClear| planned_view(p)),
                errors@,
            ),
            r.failures@.map_values(|f: (String, String)| (f.0@, f.1@)) == failed_files(
                plan@.map_values(|p: PlannedClear| planned_view(p)),
                errors@,
            ),
    {
        let ghost pv = plan@.map_values(|p: PlannedClear| planned_view(p));
        let mut deleted: Vec<(String, u64)> = Vec::new();
        let mut failures: Vec<(String, String)> = Vec::new();
        let n = plan.len();
        proof {
            assert(deleted@.map_values(|d: (String, u64)| (d.0@, d.1)) =~= Seq::<(Seq<char>, u64)>::empty());
            assert(failures@.map_values(|f: (String, String)| (f.0@, f.1@)) =~= Seq::<
                (Seq<char>, Seq<char>),
            >::empty());
        }
        for i in 0..n
            invariant
                n == plan@.len(),
                errors@.len() == n,
                pv == plan@.map_values(|p: PlannedClear| planned_view(p)),
                deleted@.map_values(|d: (String, u64)| (d.0@, d.1)) == removed_files(
                    pv.take(i as int),
                    errors@.take(i as int),
                ),
                failures@.map_values(|f: (String, String)| (f.0@, f.1@)) == failed_files(
                    pv.take(i as int),
                    errors@.take(i as int),
                ),
        {
            proof {
                assert(pv.take(i + 1).drop_last() =~= pv.take(i as int));
                assert(errors@.take(i + 1).take(i as int) =~= errors@.take(i as int));
                assert(pv.take(i + 1).last() == planned_view(plan@[i as int]));
                assert(errors@.take(i + 1)[i as int] == errors@[i as int]);
            }
            let ghost d0 = deleted@;
            let ghost f0 = failures@;
            match &errors[i] {
                None => {
                    deleted.push((plan[i].path.clone(), plan[i].size));
                    assert(deleted@.map_values(|d: (String, u64)| (d.0@, d.1)) =~= d0.map_values(
                        |d: (String, u64)| (d.0@, d.1),
                    ).push((plan@[i as int].path@, plan@[i as int].size)));
                },
                Some(e) => {
                    failures.push((plan[i].path.clone(), e.clone()));
                    assert(failures@.map_values(|f: (String, String)| (f.0@, f.1@)) =~= f0.map_values(
                        |f: (String, String)| (f.0@, f.1@),
                    ).push((plan@[i as int].path@, e@)));
                },
            }
        }
        proof {
            assert(pv.take(n as int) =~= pv);
            assert(errors@.take(n as int) =~= errors@);
        }
        ClearResult { deleted, failures }
    }
}

/// The planned files that were removed, as `(path, size)`, in order.
pub open spec fn removed_files(
    plan: Seq<(Seq<char>, Seq<char>, Seq<char>, u64)>,
    errors: Seq<Option<String>>,
) -> Seq<(Seq<char>, u64)>
    decreases plan.len(),
{
    if plan.len() == 0 {
        Seq::empty()
    } else {
        let prev = removed_files(plan.drop_last(), errors.take(plan.len() - 1));
        match errors[plan.len() - 1] {
            None => prev.push((plan.last().2, plan.last().3)),
            Some(_) => prev,
        }
    }
}

/// The planned files that could not be removed, as `(path, reason)`, in order.
pub open spec fn failed_files(
    plan: Seq<(Seq<char>, Seq<char>, Seq<char>, u64)>,
    errors: Seq<Option<String>>,
) -> Seq<(Seq<char>, Seq<char>)>
    decreases plan.len(),
{
    if plan.len() == 0 {
        Seq::empty()
    } else {
        let prev = failed_files(plan.drop_last(), errors.take(plan.len() - 1));
        match errors[plan.len() - 1] {
            None => prev,
            Some(e) => prev.push((plan.last().2, e@)),
        }
    }
}

/// The planned deletion for one scan entry: its file, when it is present.
pub open spec fn planned_entry(e: (Seq<char>, Option<(Seq<char>, Seq<char>, u64)>)) -> Option<
    (Seq<char>, Seq<char>, Seq<char>, u64),
> {
    match e.1 {
        Some(f) => Some((e.0, f.0, f.1, f.2)),
        None => None,
    }
}

proof fn lemma_plan_filter_map(scan: Seq<(Seq<char>, Option<(Seq<char>, Seq<char>, u64)>)>)
    ensures
        expected_plan(scan) == scan.filter_map(|e: (Seq<char>, Option<(Seq<char>, Seq<char>, u64)>)| planned_entry(e)),
    decreases scan.len(),
{
    if scan.len() > 0 {
        lemma_plan_filter_map(scan.drop_last());
        let prev = expected_plan(scan.drop_last());
        match scan.last().1 {
            Some(f) => {
                assert(prev.push((scan.last().0, f.0, f.1, f.2)) =~= prev + seq![(scan.last().0, f.0, f.1, f.2)]);
            },
            None => {},
        }
    }
}

/// A clear plan lists exactly the present entries of the scan made from the
/// same file probes, in scan order, each with its file's name, path and
/// size; missing slots plan nothing.
pub proof fn law_plan_is_present_scan(
    dir: Seq<char>,
    decls: Seq<(Seq<char>, Seq<Seq<char>>)>,
    probes: Seq<Vec<Option<u64>>>,
)
    ensures
        expected_plan(expected_scan(dir, decls, probes)) == expected_scan(dir, decls, probes).filter_map(
            |e: (Seq<char>, Option<(Seq<char>, Seq<char>, u64)>)| planned_entry(e),
        ),
{
    lemma_plan_filter_map(expected_scan(dir, decls, probes));
}

/// A clear accounts for every planned file: each is either removed or
/// reported as a failure.
pub proof fn law_clear_accounts_for_plan(
    plan: Seq<(Seq<char>, Seq<char>, Seq<char>, u64)>,
    errors: Seq<Option<String>>,
)
    requires
        errors.len() == plan.len(),
    ensures
        removed_files(plan, errors).len() + failed_files(plan, errors).len() == plan.len(),
        (forall|i: int| 0 <= i < errors.len() ==> (#[trigger] errors[i]) is None) ==> removed_files(
            plan,
            errors,
        ).len() == plan.len(),
    decreases plan.len(),
{
    if plan.len() > 0 {
        law_clear_accounts_for_plan(plan.drop_last(), errors.take(plan.len() - 1));
        if forall|i: int| 0 <= i < errors.len() ==> (#[trigger] errors[i]) is None {
            assert forall|i: int| 0 <= i < errors.take(plan.len() - 1).len() implies (#[trigger] errors.take(
                plan.len() - 1,
            )[i]) is None by {
                assert(errors.take(plan.len() - 1)[i] == errors[i]);
            }
            assert(errors[plan.len() - 1] is None);
        }
    }
}

/// The sizes of a declaration's candidates after the files in `gone` were
/// removed.
pub open spec fn sizes_after_removal(
    dir: Seq<char>,
    names: Seq<Seq<char>>,
    sizes: Seq<Option<u64>>,
    gone: Set<Seq<char>>,
) -> Seq<Option<u64>> {
    Seq::new(
        sizes.len(),
        |j: int|
            if gone.contains(join_spec(dir, names[j])) {
                None
            } else {
                sizes[j]
            },
    )
}

/// Whether at most one candidate file of a declaration exists.
pub open spec fn at_most_one_present(sizes: Seq<Option<u64>>) -> bool {
    forall|j1: int, j2: int|
        0 <= j1 < j2 < sizes.len() ==> !((#[trigger] sizes[j1]) is Some && (#[trigger] sizes[j2]) is Some)
}

proof fn lemma_first_present_some(sizes: Seq<Option<u64>>)
    ensures
        first_present(sizes) matches Some(j) ==> 0 <= j < sizes.len() && sizes[j] is Some,
        first_present(sizes) is None ==> forall|k: int| 0 <= k < sizes.len() ==> (#[trigger] sizes[k]) is None,
    decreases sizes.len(),
{
    if sizes.len() > 0 && sizes[0] is None {
        lemma_first_present_some(sizes.drop_first());
        assert forall|k: int| 1 <= k < sizes.len() implies sizes[k] == sizes.drop_first()[k - 1] by {}
    }
}

proof fn lemma_removed_all(plan: Seq<(Seq<char>, Seq<char>, Seq<char>, u64)>, errors: Seq<Option<String>>)
    requires
        errors.len() == plan.len(),
        forall|i: int| 0 <= i < errors.len() ==> (#[trigger] errors[i]) is None,
    ensures
        removed_files(plan, errors) == plan.map_values(|p: (Seq<char>, Seq<char>, Seq<char>, u64)| (p.2, p.3)),
    decreases plan.len(),
{
    if plan.len() > 0 {
        let e2 = errors.take(plan.len() - 1);
        assert forall|i: int| 0 <= i < e2.len() implies (#[trigger] e2[i]) is None by {
            assert(e2[i] == errors[i]);
        }
        lemma_removed_all(plan.drop_last(), e2);
        assert(errors[plan.len() - 1] is None);
        assert(plan.map_values(|p: (Seq<char>, Seq<char>, Seq<char>, u64)| (p.2, p.3)) =~= plan.drop_last().map_values(
            |p: (Seq<char>, Seq<char>, Seq<char>, u64)| (p.2, p.3),
        ).push((plan.last().2, plan.last().3)));
    }
}

proof fn lemma_plan_has_present(scan: Seq<(Seq<char>, Option<(Seq<char>, Seq<char>, u64)>)>, i: int)
    requires
        0 <= i < scan.len(),
        scan[i].1 is Some,
    ensures
        expected_plan(scan).contains(
            (scan[i].0, scan[i].1.unwrap().0, scan[i].1.unwrap().1, scan[i].1.unwrap().2),
        ),
    decreases scan.len(),
{
    let prev = expected_plan(scan.drop_last());
    if i == scan.len() - 1 {
        let f = scan.last().1.unwrap();
        assert(expected_plan(scan) == prev.push((scan.last().0, f.0, f.1, f.2)));
        assert(expected_plan(scan)[prev.len() as int] == (scan.last().0, f.0, f.1, f.2));
    } else {
        assert(scan.drop_last()[i] == scan[i]);
        lemma_plan_has_present(scan.drop_last(), i);
        let x = (scan[i].0, scan[i].1.unwrap().0, scan[i].1.unwrap().1, scan[i].1.unwrap().2);
        let k = choose|k: int| 0 <= k < prev.len() && prev[k] == x;
        match scan.last().1 {
            Some(f) => {
                assert(expected_plan(scan)[k] == x);
            },
            None => {},
        }
    }
}

/// When every planned file is removed and each slot had at most one of its
/// candidate files, a scan made afterwards finds every slot missing: the
/// clear leaves no cached archive behind.
pub proof fn law_clear_leaves_slots_missing(
    dir: Seq<char>,
    decls: Seq<(Seq<char>, Seq<Seq<char>>)>,
    probes: Seq<Vec<Option<u64>>>,
    errors: Seq<Option<String>>,
)
    requires
        probes_fit(decls, probes),
        forall|i: int| 0 <= i < decls.len() ==> at_most_one_present(#[trigger] probes[i]@),
        errors.len() == expected_plan(expected_scan(dir, decls, probes)).len(),
        forall|i: int| 0 <= i < errors.len() ==> (#[trigger] errors[i]) is None,
    ensures
        ({
            let plan = expected_plan(expected_scan(dir, decls, probes));
            let gone = removed_files(plan, errors).map_values(|d: (Seq<char>, u64)| d.0).to_set();
            forall|i: int|
                0 <= i < decls.len() ==> (#[trigger] expected_status(
                    dir,
                    decls[i].1,
                    sizes_after_removal(dir, decls[i].1, probes[i]@, gone),
                )) is None
        }),
{
    let scan = expected_scan(dir, decls, probes);
    let plan = expected_plan(scan);
    let removed = removed_files(plan, errors);
    let gone = removed.map_values(|d: (Seq<char>, u64)| d.0).to_set();
    lemma_removed_all(plan, errors);
    assert forall|i: int| 0 <= i < decls.len() implies (#[trigger] expected_status(
        dir,
        decls[i].1,
        sizes_after_removal(dir, decls[i].1, probes[i]@, gone),
    )) is None by {
        let sz = probes[i]@;
        let names = decls[i].1;
        let after = sizes_after_removal(dir, names, sz, gone);
        lemma_first_present_some(sz);
        match first_present(sz) {
            None => {
                assert forall|k: int| 0 <= k < after.len() implies (#[trigger] after[k]) is None by {
                    assert(sz[k] is None);
                }
            },
            Some(j) => {
                let path = join_spec(dir, names[j]);
                assert(scan[i] == (decls[i].0, expected_status(dir, names, sz)));
                assert(scan[i].1 == Some((names[j], path, sz[j].unwrap())));
                lemma_plan_has_present(scan, i);
                let x = (decls[i].0, names[j], path, sz[j].unwrap());
                assert(plan.contains(x));
                let k = choose|k: int| 0 <= k < plan.len() && plan[k] == x;
                assert(removed[k] == (plan[k].2, plan[k].3));
                assert(removed.map_values(|d: (Seq<char>, u64)| d.0)[k] == path);
                assert(gone.contains(path));
                assert forall|m: int| 0 <= m < after.len() implies (#[trigger] after[m]) is None by {
                    if m != j {
                        if m < j {
                            assert(!(sz[m] is Some && sz[j] is Some));
                        } else {
                            assert(!(sz[j] is Some && sz[m] is Some));
                        }
                    }
                }
            },
        }
        lemma_first_present_none(after);
    }
}

} // verus!
