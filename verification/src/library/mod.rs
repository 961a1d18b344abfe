//! Installed versions: where an install goes, what a scan of the library
//! finds, and how download progress is reported.
//!
//! An install is crash-safe: download, extract into `<dest>.partial/`, write
//! the manifest, rename into place. The caller performs those steps; this
//! module plans them and reads their results.

use vstd::prelude::*;

use crate::games::{asset_names, first_match, Game, GameId};
use crate::github::{Release, ReleaseAsset};
use crate::paths::{
    expand_path, expand_spec, file_name, join_spec, parent, path_components, path_join, same_path,
    std_file_name, std_parent, Env,
};
use crate::platform::HostPlatform;
use crate::strmap::StrMap;
use crate::text::{concat2, concat3, owned, str_eq};
use crate::config::schema::Config;

pub mod manifest;

use manifest::InstallManifest;

verus! {

#[derive(Debug, Clone, PartialEq, Eq)]
pub struct InstalledVersion {
    pub tag: String,
    pub game_slug: String,
    pub path: String,
}

#[derive(Debug, Clone)]
pub enum InstallProgress {
    Starting,
    Downloading { downloaded: u64, total: Option<u64> },
    Extracting,
    Finalizing,
    Done(InstalledVersion),
}

/// A copy of `v`.
pub fn clone_version(v: &InstalledVersion) -> (r: InstalledVersion)
    ensures
        r == *v,
{
    InstalledVersion { tag: v.tag.clone(), game_slug: v.game_slug.clone(), path: v.path.clone() }
}

/// An installed version as `(tag, game_slug, path)`.
pub open spec fn version_view(v: InstalledVersion) -> (Seq<char>, Seq<char>, Seq<char>) {
    (v.tag@, v.game_slug@, v.path@)
}

/// Installed versions as `(tag, game_slug, path)`, in order.
pub open spec fn versions_view(v: Seq<InstalledVersion>) -> Seq<(Seq<char>, Seq<char>, Seq<char>)> {
    v.map_values(|x: InstalledVersion| version_view(x))
}

// ---------------------------------------------------------------------------
// Scanning
// ---------------------------------------------------------------------------

/// The install a directory holds, from what reading its manifest gave: a
/// manifest makes the directory an install of its tag and game; a missing or
/// unreadable manifest makes it none.
pub fn read_version(dir: &str, manifest: Result<Option<InstallManifest>, String>) -> (r: Option<
    InstalledVersion,
>)
    ensures
        match manifest {
            Ok(Some(m)) => r matches Some(v) && version_view(v) == (m.tag@, m.game_slug@, dir@),
            _ => r is None,
        },
{
    match manifest {
        Ok(Some(m)) => Some(InstalledVersion { tag: m.tag, game_slug: m.game_slug, path: owned(dir) }),
        _ => None,
    }
}

/// A directory directly under the library root: the install it holds
/// itself, and, when it holds none, the installs of its own subdirectories
/// (the partitioned `<root>/<game_slug>/<tag>/` layout).
#[derive(Debug, Clone)]
pub struct RootEntry {
    pub version: Option<InstalledVersion>,
    pub nested: Vec<Option<InstalledVersion>>,
}

/// The installs of `v`, skipping the directories that hold none.
pub open spec fn somes(v: Seq<Option<InstalledVersion>>) -> Seq<(Seq<char>, Seq<char>, Seq<char>)>
    decreases v.len(),
{
    if v.len() == 0 {
        Seq::empty()
    } else {
        let prev = somes(v.drop_last());
        match v.last() {
            Some(x) => prev.push(version_view(x)),
            None => prev,
        }
    }
}

/// What a walk of the library root finds, in walk order.
pub open spec fn walk_found(entries: Seq<RootEntry>) -> Seq<(Seq<char>, Seq<char>, Seq<char>)>
    decreases entries.len(),
{
    if entries.len() == 0 {
        Seq::empty()
    } else {
        let prev = walk_found(entries.drop_last());
        match entries.last().version {
            Some(x) => prev.push(version_view(x)),
            None => prev + somes(entries.last().nested@),
        }
    }
}

/// `found` extended by the override installs whose directory it does not
/// list yet, in order. Directories are compared as paths, component by
/// component, so `root/9.2.3/` is the directory `root/9.2.3`.
pub open spec fn with_overrides(
    found: Seq<(Seq<char>, Seq<char>, Seq<char>)>,
    overrides: Seq<Option<InstalledVersion>>,
) -> Seq<(Seq<char>, Seq<char>, Seq<char>)>
    decreases overrides.len(),
{
    if overrides.len() == 0 {
        found
    } else {
        let prev = with_overrides(found, overrides.drop_last());
        match overrides.last() {
            Some(x) => if exists|k: int|
                0 <= k < prev.len() && path_components(#[trigger] prev[k].2) == path_components(
                    x.path@,
                ) {
                prev
            } else {
                prev.push(version_view(x))
            },
            None => prev,
        }
    }
}

fn push_somes(out: &mut Vec<InstalledVersion>, v: &Vec<Option<InstalledVersion>>)
    ensures
        versions_view(final(out)@) == versions_view(old(out)@) + somes(v@),
{
    let n = v.len();
    let ghost start = versions_view(out@);
    proof {
        assert(v@.take(0) =~= Seq::<Option<InstalledVersion>>::empty());
        assert(start + somes(v@.take(0)) =~= start);
    }
    for i in 0..n
        invariant
            n == v@.len(),
            versions_view(out@) == start + somes(v@.take(i as int)),
    {
        proof {
            assert(v@.take(i + 1).drop_last() =~= v@.take(i as int));
            assert(v@.take(i + 1).last() == v@[i as int]);
        }
        match &v[i] {
            Some(x) => {
                let ghost before = out@;
                out.push(clone_version(x));
                assert(versions_view(out@) =~= versions_view(before).push(version_view(*x)));
            },
            None => {},
        }
    }
    proof {
        assert(v@.take(n as int) =~= v@);
    }
}

/// Whether some install of `found` lives in `path`, comparing paths
/// component by component.
fn has_path(found: &Vec<InstalledVersion>, path: &str) -> (r: bool)
    ensures
        r == exists|k: int|
            0 <= k < found@.len() && path_components(#[trigger] versions_view(found@)[k].2)
                == path_components(path@),
{
    let n = found.len();
    for k in 0..n
        invariant
            n == found@.len(),
            forall|j: int|
                0 <= j < k ==> path_components((#[trigger] versions_view(found@)[j]).2)
                    != path_components(path@),
    {
        if same_path(&found[k].path, path) {
            assert(versions_view(found@)[k as int].2 == found@[k as int].path@);
            return true;
        }
        assert(versions_view(found@)[k as int].2 == found@[k as int].path@);
    }
    false
}

/// Every install a scan finds: first those of the library root, in walk
/// order, then each override install whose directory was not found already.
pub fn merge_scan(entries: &Vec<RootEntry>, overrides: &Vec<Option<InstalledVersion>>) -> (r: Vec<
    InstalledVersion,
>)
    ensures
        versions_view(r@) == with_overrides(walk_found(entries@), overrides@),
{
    let mut found: Vec<InstalledVersion> = Vec::new();
    let n = entries.len();
    proof {
        assert(entries@.take(0) =~= Seq::<RootEntry>::empty());
        assert(versions_view(found@) =~= Seq::<(Seq<char>, Seq<char>, Seq<char>)>::empty());
    }
    for i in 0..n
        invariant
            n == entries@.len(),
            versions_view(found@) == walk_found(entries@.take(i as int)),
    {
        proof {
            assert(entries@.take(i + 1).drop_last() =~= entries@.take(i as int));
            assert(entries@.take(i + 1).last() == entries@[i as int]);
        }
        match &entries[i].version {
            Some(v) => {
                let ghost before = found@;
                found.push(clone_version(v));
                assert(versions_view(found@) =~= versions_view(before).push(version_view(*v)));
            },
            None => {
                push_somes(&mut found, &entries[i].nested);
            },
        }
    }
    proof {
        assert(entries@.take(n as int) =~= entries@);
    }
    let ghost walked = versions_view(found@);
    let m = overrides.len();
    proof {
        assert(overrides@.take(0) =~= Seq::<Option<InstalledVersion>>::empty());
    }
    for j in 0..m
        invariant
            m == overrides@.len(),
            walked == walk_found(entries@),
            versions_view(found@) == with_overrides(walked, overrides@.take(j as int)),
    {
        proof {
            assert(overrides@.take(j + 1).drop_last() =~= overrides@.take(j as int));
            assert(overrides@.take(j + 1).last() == overrides@[j as int]);
        }
        match &overrides[j] {
            Some(v) => {
                if !has_path(&found, &v.path) {
                    let ghost before = found@;
                    found.push(clone_version(v));
                    assert(versions_view(found@) =~= versions_view(before).push(version_view(*v)));
                }
            },
            None => {},
        }
    }
    proof {
        assert(overrides@.take(m as int) =~= overrides@);
    }
    found
}

/// Whether no two installs of `s` live in the same directory, comparing
/// directories as paths.
pub open spec fn paths_distinct(s: Seq<(Seq<char>, Seq<char>, Seq<char>)>) -> bool {
    forall|i: int, j: int|
        0 <= i < j < s.len() ==> path_components(#[trigger] s[i].2) != path_components(
            #[trigger] s[j].2,
        )
}

/// Adding the override installs to a scan never lists one directory twice:
/// an override whose directory is already listed, however it is spelled,
/// is left out.
pub proof fn law_scan_paths_distinct(
    found: Seq<(Seq<char>, Seq<char>, Seq<char>)>,
    overrides: Seq<Option<InstalledVersion>>,
)
    requires
        paths_distinct(found),
    ensures
        paths_distinct(with_overrides(found, overrides)),
    decreases overrides.len(),
{
    if overrides.len() > 0 {
        law_scan_paths_distinct(found, overrides.drop_last());
        let prev = with_overrides(found, overrides.drop_last());
        match overrides.last() {
            Some(x) => {
                if !(exists|k: int|
                    0 <= k < prev.len() && path_components(#[trigger] prev[k].2)
                        == path_components(x.path@)) {
                    let next = prev.push(version_view(x));
                    assert forall|i: int, j: int|
                        0 <= i < j < next.len() implies path_components(#[trigger] next[i].2)
                        != path_components(#[trigger] next[j].2) by {
                        if j == prev.len() {
                            assert(next[i] == prev[i]);
                            assert(next[j].2 == x.path@);
                        } else {
                            assert(next[i] == prev[i]);
                            assert(next[j] == prev[j]);
                        }
                    }
                }
            },
            None => {},
        }
    }
}

proof fn lemma_somes_contains(v: Seq<Option<InstalledVersion>>, j: int)
    requires
        0 <= j < v.len(),
        v[j] is Some,
    ensures
        somes(v).contains(version_view(v[j].unwrap())),
    decreases v.len(),
{
    let p = v.drop_last();
    if j == v.len() - 1 {
        assert(somes(v) == somes(p).push(version_view(v[j].unwrap())));
        assert(somes(v)[somes(p).len() as int] == version_view(v[j].unwrap()));
    } else {
        assert(p[j] == v[j]);
        lemma_somes_contains(p, j);
        let k = choose|k: int| 0 <= k < somes(p).len() && somes(p)[k] == version_view(v[j].unwrap());
        match v.last() {
            Some(x) => assert(somes(v)[k] == somes(p)[k]),
            None => {},
        }
    }
}

proof fn lemma_walk_found_contains(entries: Seq<RootEntry>, i: int, j: int)
    ensures
        0 <= i < entries.len() && entries[i].version is Some ==> walk_found(entries).contains(
            version_view(entries[i].version.unwrap()),
        ),
        0 <= i < entries.len() && entries[i].version is None && 0 <= j < entries[i].nested@.len()
            && entries[i].nested@[j] is Some ==> walk_found(entries).contains(
            version_view(entries[i].nested@[j].unwrap()),
        ),
    decreases entries.len(),
{
    if 0 <= i < entries.len() {
        let p = entries.drop_last();
        let prev = walk_found(p);
        let whole = walk_found(entries);
        if i == entries.len() - 1 {
            match entries.last().version {
                Some(x) => {
                    assert(whole[prev.len() as int] == version_view(x));
                },
                None => {
                    if 0 <= j < entries[i].nested@.len() && entries[i].nested@[j] is Some {
                        let n = entries[i].nested@;
                        lemma_somes_contains(n, j);
                        let k = choose|k: int| 0 <= k < somes(n).len() && somes(n)[k] == version_view(n[j].unwrap());
                        assert(whole[prev.len() + k] == somes(n)[k]);
                    }
                },
            }
        } else {
            assert(p[i] == entries[i]);
            lemma_walk_found_contains(p, i, j);
            assert forall|k: int| 0 <= k < prev.len() implies whole[k] == prev[k] by {
                match entries.last().version {
                    Some(x) => {},
                    None => {},
                }
            }
            if entries[i].version is Some {
                let k = choose|k: int| 0 <= k < prev.len() && prev[k] == version_view(entries[i].version.unwrap());
                assert(whole[k] == prev[k]);
            }
            if entries[i].version is None && 0 <= j < entries[i].nested@.len() && entries[i].nested@[j] is Some {
                let k = choose|k: int| 0 <= k < prev.len() && prev[k] == version_view(entries[i].nested@[j].unwrap());
                assert(whole[k] == prev[k]);
            }
        }
    }
}

proof fn lemma_with_overrides_keeps(
    found: Seq<(Seq<char>, Seq<char>, Seq<char>)>,
    overrides: Seq<Option<InstalledVersion>>,
    i: int,
)
    ensures
        with_overrides(found, overrides).len() >= found.len(),
        forall|k: int| 0 <= k < found.len() ==> #[trigger] with_overrides(found, overrides)[k] == found[k],
        0 <= i < overrides.len() && overrides[i] is Some ==> exists|k: int|
            0 <= k < with_overrides(found, overrides).len() && path_components(
                #[trigger] with_overrides(found, overrides)[k].2,
            ) == path_components(overrides[i].unwrap().path@),
    decreases overrides.len(),
{
    if overrides.len() > 0 {
        let p = overrides.drop_last();
        let prev = with_overrides(found, p);
        let whole = with_overrides(found, overrides);
        lemma_with_overrides_keeps(found, p, i);
        assert forall|k: int| 0 <= k < prev.len() implies #[trigger] whole[k] == prev[k] by {
            match overrides.last() {
                Some(x) => {},
                None => {},
            }
        }
        if 0 <= i < overrides.len() && overrides[i] is Some {
            if i < overrides.len() - 1 {
                assert(p[i] == overrides[i]);
                let k = choose|k: int|
                    0 <= k < prev.len() && path_components(#[trigger] prev[k].2) == path_components(
                        p[i].unwrap().path@,
                    );
                assert(whole[k] == prev[k]);
                assert(path_components(whole[k].2) == path_components(overrides[i].unwrap().path@));
            } else {
                let x = overrides.last().unwrap();
                assert(x == overrides[i].unwrap());
                if exists|k: int| 0 <= k < prev.len() && path_components(#[trigger] prev[k].2) == path_components(x.path@) {
                    let k = choose|k: int|
                        0 <= k < prev.len() && path_components(#[trigger] prev[k].2) == path_components(x.path@);
                    assert(whole[k] == prev[k]);
                    assert(path_components(whole[k].2) == path_components(overrides[i].unwrap().path@));
                } else {
                    assert(whole == prev.push(version_view(x)));
                    assert(whole[prev.len() as int] == version_view(x));
                    assert(path_components(whole[prev.len() as int].2) == path_components(
                        overrides[i].unwrap().path@,
                    ));
                }
            }
        }
    }
}

/// A scan loses no install: every install a directory directly under the
/// library root holds, every install in a subdirectory of a directory that
/// holds none (the `<root>/<game_slug>/<tag>/` layout), is listed, the
/// installs of the root coming first in walk order; and every override
/// install is listed, or an install in the same directory already is.
pub proof fn law_scan_lists_every_install(
    entries: Seq<RootEntry>,
    overrides: Seq<Option<InstalledVersion>>,
    i: int,
    j: int,
)
    ensures
        0 <= i < entries.len() && entries[i].version is Some ==> with_overrides(
            walk_found(entries),
            overrides,
        ).contains(version_view(entries[i].version.unwrap())),
        0 <= i < entries.len() && entries[i].version is None && 0 <= j < entries[i].nested@.len()
            && entries[i].nested@[j] is Some ==> with_overrides(walk_found(entries), overrides).contains(
            version_view(entries[i].nested@[j].unwrap()),
        ),
        0 <= i < overrides.len() && overrides[i] is Some ==> exists|k: int|
            0 <= k < with_overrides(walk_found(entries), overrides).len() && path_components(
                #[trigger] with_overrides(walk_found(entries), overrides)[k].2,
            ) == path_components(overrides[i].unwrap().path@),
{
    let walked = walk_found(entries);
    let r = with_overrides(walked, overrides);
    lemma_walk_found_contains(entries, i, j);
    lemma_with_overrides_keeps(walked, overrides, i);
    if 0 <= i < entries.len() && entries[i].version is Some {
        let k = choose|k: int| 0 <= k < walked.len() && walked[k] == version_view(entries[i].version.unwrap());
        assert(r[k] == walked[k]);
    }
    if 0 <= i < entries.len() && entries[i].version is None && 0 <= j < entries[i].nested@.len()
        && entries[i].nested@[j] is Some {
        let k = choose|k: int| 0 <= k < walked.len() && walked[k] == version_view(entries[i].nested@[j].unwrap());
        assert(r[k] == walked[k]);
    }
}

/// Whether `x` is an install the walk of the library root reads: one a
/// directory under the root holds, or one of a subdirectory of a directory
/// that holds none.
pub open spec fn read_by_walk(entries: Seq<RootEntry>, x: (Seq<char>, Seq<char>, Seq<char>)) -> bool {
    exists|i: int, j: int|
        0 <= i < entries.len() && #[trigger] walk_source(entries[i], j, x)
}

/// Whether the root entry `e` yields `x` itself (`j` unused) or, holding no
/// install, from its `j`-th subdirectory.
pub open spec fn walk_source(e: RootEntry, j: int, x: (Seq<char>, Seq<char>, Seq<char>)) -> bool {
    match e.version {
        Some(v) => version_view(v) == x,
        None => 0 <= j < e.nested@.len() && e.nested@[j] is Some && version_view(e.nested@[j].unwrap())
            == x,
    }
}

/// Whether `x` is the install of one of the directories of `v`.
pub open spec fn somes_source(v: Seq<Option<InstalledVersion>>, x: (Seq<char>, Seq<char>, Seq<char>)) -> bool {
    exists|j: int| 0 <= j < v.len() && #[trigger] v[j] is Some && version_view(v[j].unwrap()) == x
}

proof fn lemma_somes_only(v: Seq<Option<InstalledVersion>>)
    ensures
        forall|m: int| 0 <= m < somes(v).len() ==> somes_source(v, #[trigger] somes(v)[m]),
    decreases v.len(),
{
    if v.len() > 0 {
        let p = v.drop_last();
        lemma_somes_only(p);
        assert forall|m: int| 0 <= m < somes(v).len() implies somes_source(v, #[trigger] somes(v)[m]) by {
            match v.last() {
                Some(x) => {
                    assert(somes(v) == somes(p).push(version_view(x)));
                    if m < somes(p).len() {
                        assert(somes(v)[m] == somes(p)[m]);
                        assert(somes_source(p, somes(p)[m]));
                        let j = choose|j: int| 0 <= j < p.len() && #[trigger] p[j] is Some && version_view(p[j].unwrap()) == somes(p)[m];
                        assert(v[j] == p[j]);
                    } else {
                        assert(somes(v)[m] == version_view(x));
                        assert(v[v.len() - 1] == Some(x));
                    }
                },
                None => {
                    assert(somes(v) == somes(p));
                    assert(somes_source(p, somes(p)[m]));
                    let j = choose|j: int| 0 <= j < p.len() && #[trigger] p[j] is Some && version_view(p[j].unwrap()) == somes(p)[m];
                    assert(v[j] == p[j]);
                },
            }
        }
    }
}

proof fn lemma_walk_only(entries: Seq<RootEntry>)
    ensures
        forall|k: int| 0 <= k < walk_found(entries).len() ==> read_by_walk(entries, #[trigger] walk_found(entries)[k]),
    decreases entries.len(),
{
    if entries.len() > 0 {
        let p = entries.drop_last();
        let prev = walk_found(p);
        let whole = walk_found(entries);
        let n = entries.len() - 1;
        lemma_walk_only(p);
        assert forall|k: int| 0 <= k < whole.len() implies read_by_walk(entries, #[trigger] whole[k]) by {
            if k < prev.len() {
                match entries.last().version {
                    Some(x) => {},
                    None => {},
                }
                assert(whole[k] == prev[k]);
                assert(read_by_walk(p, prev[k]));
                let (i, j) = choose|i: int, j: int| 0 <= i < p.len() && #[trigger] walk_source(p[i], j, prev[k]);
                assert(p[i] == entries[i]);
                assert(walk_source(entries[i], j, whole[k]));
            } else {
                match entries.last().version {
                    Some(x) => {
                        assert(walk_source(entries[n], 0, whole[k]));
                    },
                    None => {
                        let nv = entries.last().nested@;
                        lemma_somes_only(nv);
                        let m = k - prev.len();
                        assert(whole[k] == somes(nv)[m]);
                        assert(somes_source(nv, somes(nv)[m]));
                        let j = choose|j: int|
                            0 <= j < nv.len() && #[trigger] nv[j] is Some && version_view(nv[j].unwrap()) == somes(nv)[m];
                        assert(walk_source(entries[n], j, whole[k]));
                    },
                }
            }
        }
    }
}

proof fn lemma_overrides_only(found: Seq<(Seq<char>, Seq<char>, Seq<char>)>, overrides: Seq<Option<InstalledVersion>>)
    ensures
        forall|k: int|
            found.len() <= k < with_overrides(found, overrides).len() ==> exists|i: int|
                0 <= i < overrides.len() && overrides[i] is Some && version_view(overrides[i].unwrap())
                    == #[trigger] with_overrides(found, overrides)[k],
    decreases overrides.len(),
{
    if overrides.len() > 0 {
        let p = overrides.drop_last();
        let prev = with_overrides(found, p);
        let whole = with_overrides(found, overrides);
        lemma_overrides_only(found, p);
        lemma_with_overrides_keeps(found, p, 0);
        assert forall|k: int| found.len() <= k < whole.len() implies exists|i: int|
            0 <= i < overrides.len() && overrides[i] is Some && version_view(overrides[i].unwrap())
                == #[trigger] whole[k] by {
            if k < prev.len() {
                match overrides.last() {
                    Some(x) => {},
                    None => {},
                }
                assert(whole[k] == prev[k]);
                let i = choose|i: int|
                    0 <= i < p.len() && p[i] is Some && version_view(p[i].unwrap()) == #[trigger] prev[k];
                assert(overrides[i] == p[i]);
            } else {
                assert(overrides[overrides.len() - 1] is Some);
            }
        }
    }
}

/// A scan lists nothing it did not read: each listed install is one the
/// walk of the library root found or one of the override installs, the
/// walk's installs first.
pub proof fn law_scan_lists_only_read_installs(
    entries: Seq<RootEntry>,
    overrides: Seq<Option<InstalledVersion>>,
    k: int,
)
    ensures
        0 <= k < walk_found(entries).len() ==> with_overrides(walk_found(entries), overrides)[k]
            == walk_found(entries)[k] && read_by_walk(entries, walk_found(entries)[k]),
        walk_found(entries).len() <= k < with_overrides(walk_found(entries), overrides).len()
            ==> exists|i: int|
            0 <= i < overrides.len() && overrides[i] is Some && version_view(overrides[i].unwrap())
                == #[trigger] with_overrides(walk_found(entries), overrides)[k],
{
    let walked = walk_found(entries);
    let r = with_overrides(walked, overrides);
    lemma_walk_only(entries);
    lemma_overrides_only(walked, overrides);
    lemma_with_overrides_keeps(walked, overrides, 0);
    if walked.len() <= k < r.len() {
        let i = choose|i: int|
            0 <= i < overrides.len() && overrides[i] is Some && version_view(overrides[i].unwrap())
                == #[trigger] with_overrides(walked, overrides)[k];
        assert(version_view(overrides[i].unwrap()) == r[k]);
    }
}

/// The override directories a scan reads, as `(tag, directory)` with the
/// directory expanded, in the configuration's order.
pub fn override_dirs(config: &Config, env: &Env) -> (r: Vec<(String, String)>)
    ensures
        r@.len() == config.install_overrides.entry_seq().len(),
        forall|i: int|
            0 <= i < r@.len() ==> (#[trigger] r@[i]).0@ == config.install_overrides.entry_seq()[i].0
                && r@[i].1@ == expand_spec(
                config.install_overrides.entry_seq()[i].1@,
                env.view_vars(),
            ),
{
    let mut out: Vec<(String, String)> = Vec::new();
    let n = config.install_overrides.len();
    for i in 0..n
        invariant
            n == config.install_overrides.entry_seq().len(),
            out@.len() == i,
            forall|k: int|
                0 <= k < i ==> (#[trigger] out@[k]).0@ == config.install_overrides.entry_seq()[k].0
                    && out@[k].1@ == expand_spec(
                    config.install_overrides.entry_seq()[k].1@,
                    env.view_vars(),
                ),
    {
        let (tag, dir) = config.install_overrides.entry(i);
        out.push((owned(tag), expand_path(dir, env)));
    }
    out
}

// ---------------------------------------------------------------------------
// Installing
// ---------------------------------------------------------------------------

/// What an install needs: the game and release, the platform and CPU
/// architecture it runs on, and where things go.
#[derive(Debug, Clone)]
pub struct InstallRequest {
    pub game: GameId,
    pub release: Release,
    pub platform: HostPlatform,
    pub arch: String,
    pub library_root: String,
    pub destination_override: Option<String>,
    pub download_dir: String,
}

/// The steps of one install, decided before any of them runs.
#[derive(Debug, Clone)]
pub struct InstallPlan {
    /// The release asset to download.
    pub asset: ReleaseAsset,
    /// Where the downloaded archive is kept until the install is done.
    pub archive_path: String,
    /// The install directory.
    pub dest_final: String,
    /// The scratch directory the archive is extracted into.
    pub dest_partial: String,
}

/// `<final_path>.partial` beside `final_path`: the file name with
/// `.partial` appended (`install.partial` for a path without one), in the
/// same parent directory (`.` for a path without one).
pub open spec fn partial_path_spec(final_path: Seq<char>) -> Seq<char> {
    let name = match std_file_name(final_path) {
        Some(n) => n,
        None => "install"@,
    };
    let dir = match std_parent(final_path) {
        Some(d) => d,
        None => "."@,
    };
    join_spec(dir, name + ".partial"@)
}

/// The scratch directory an install into `final_path` is extracted into.
pub fn partial_path(final_path: &str) -> (r: String)
    ensures
        r@ == partial_path_spec(final_path@),
{
    let name = match file_name(final_path) {
        Some(n) => n,
        None => owned("install"),
    };
    let dir = match parent(final_path) {
        Some(d) => d,
        None => owned("."),
    };
    let leaf = concat2(&name, ".partial");
    path_join(&dir, &leaf)
}

/// The install directory: the override when given, else
/// `<library_root>/<game_slug>/<tag>`, both expanded.
pub open spec fn dest_final_spec(
    library_root: Seq<char>,
    destination_override: Option<Seq<char>>,
    slug: Seq<char>,
    tag: Seq<char>,
    vars: Seq<(Seq<char>, Seq<char>)>,
) -> Seq<char> {
    match destination_override {
        Some(o) => expand_spec(o, vars),
        None => join_spec(join_spec(expand_spec(library_root, vars), slug), tag),
    }
}

/// Decides an install: the game's asset for the platform, and the archive,
/// install and scratch paths. Fails, saying so, when the
/// release has no asset for the platform.
pub fn plan_install(req: &InstallRequest, env: &Env) -> (r: Result<InstallPlan, String>)
    ensures
        match req.game.spec_asset_needle(
            crate::platform::Platform::spec_asset_keyword(&req.platform),
            req.arch@,
        ) {
            Some(needle) => match first_match(asset_names(req.release.assets@), needle) {
                Some(i) => r matches Ok(p) && p.asset == req.release.assets@[i]
                    && p.archive_path@ == join_spec(req.download_dir@, p.asset.name@)
                    && p.dest_final@ == dest_final_spec(
                    req.library_root@,
                    crate::text::opt_view(req.destination_override),
                    req.game.spec_slug(),
                    req.release.tag_name@,
                    env.view_vars(),
                ) && p.dest_partial@ == partial_path_spec(p.dest_final@),
                None => r matches Err(e) && e@ == no_asset_message(req.release.tag_name@),
            },
            None => r matches Err(e) && e@ == no_asset_message(req.release.tag_name@),
        },
{
    let picked = req.game.pick_asset(&req.release.assets, &req.platform, &req.arch);
    proof {
        if let Some(needle) = req.game.spec_asset_needle(
            crate::platform::Platform::spec_asset_keyword(&req.platform),
            req.arch@,
        ) {
            crate::games::lemma_first_match_bound(asset_names(req.release.assets@), needle);
        }
    }
    let i = match picked {
        Some(i) => i,
        None => {
            return Err(concat3("no asset for ", &req.release.tag_name, " on this platform"));
        },
    };
    let asset = crate::github::clone_asset(&req.release.assets[i]);
    let archive_path = path_join(&req.download_dir, &asset.name);
    let dest_final = match &req.destination_override {
        Some(o) => expand_path(o, env),
        None => {
            let root = expand_path(&req.library_root, env);
            let game_dir = path_join(&root, req.game.slug());
            path_join(&game_dir, &req.release.tag_name)
        },
    };
    let dest_partial = partial_path(&dest_final);
    Ok(InstallPlan { asset, archive_path, dest_final, dest_partial })
}

/// The message of an install whose release has nothing for the platform.
pub open spec fn no_asset_message(tag: Seq<char>) -> Seq<char> {
    "no asset for "@ + tag + " on this platform"@
}

/// The manifest written into a finished install.
pub fn install_manifest(req: &InstallRequest, installed_at: String) -> (r: InstallManifest)
    ensures
        r.tag@ == req.release.tag_name@,
        r.game_slug@ == req.game.spec_slug(),
        r.installed_at@ == installed_at@,
        r.archive_sha256 is None,
{
    InstallManifest {
        tag: req.release.tag_name.clone(),
        game_slug: owned(req.game.slug()),
        installed_at,
        archive_sha256: None,
    }
}

/// The installed version a finished install reports.
pub fn installed_version(req: &InstallRequest, plan: &InstallPlan) -> (r: InstalledVersion)
    ensures
        version_view(r) == (req.release.tag_name@, req.game.spec_slug(), plan.dest_final@),
{
    InstalledVersion {
        tag: req.release.tag_name.clone(),
        game_slug: owned(req.game.slug()),
        path: plan.dest_final.clone(),
    }
}

// ---------------------------------------------------------------------------
// Progress
// ---------------------------------------------------------------------------

/// `min(downloaded * 100 / total, 100)`, the multiplication saturating at
/// `u64::MAX`.
pub open spec fn percent_spec(downloaded: u64, total: u64) -> u8
    recommends
        total > 0,
{
    let scaled: int = if downloaded * 100 > u64::MAX { u64::MAX as int } else { downloaded * 100 };
    let q = scaled / (total as int);
    if q > 100 {
        100u8
    } else {
        q as u8
    }
}

/// The share of a download done, in percent.
pub fn percent(downloaded: u64, total: u64) -> (r: u8)
    requires
        total > 0,
    ensures
        r == percent_spec(downloaded, total),
{
    let scaled: u64 = if downloaded > u64::MAX / 100 {
        u64::MAX
    } else {
        downloaded * 100
    };
    let q = scaled / total;
    if q > 100 {
        100
    } else {
        q as u8
    }
}

/// What the progress reporter last told the interface, so that repeats are
/// not sent again.
#[derive(Debug, Clone, Copy, PartialEq, Eq)]
pub struct ProgressFilter {
    pub last_pct: Option<u8>,
    pub last_was_indeterminate: bool,
}

/// What one progress event makes the reporter send: `None` to send nothing,
/// `Some(p)` to report `p` (a percentage, or `None` for "in progress").
pub open spec fn progress_step_spec(f: ProgressFilter, p: InstallProgress) -> (ProgressFilter, Option<
    Option<u8>,
>) {
    match p {
        InstallProgress::Downloading { downloaded, total } => match total {
            Some(t) => if t > 0 {
                let pct = percent_spec(downloaded, t);
                if f.last_pct == Some(pct) {
                    (f, None)
                } else {
                    (ProgressFilter { last_pct: Some(pct), last_was_indeterminate: false }, Some(Some(pct)))
                }
            } else {
                indeterminate_step(f)
            },
            None => indeterminate_step(f),
        },
        InstallProgress::Done(_) => (f, None),
        _ => (ProgressFilter { last_pct: None, last_was_indeterminate: false }, Some(None)),
    }
}

/// A download of unknown length: reported once, until something else is.
pub open spec fn indeterminate_step(f: ProgressFilter) -> (ProgressFilter, Option<Option<u8>>) {
    if f.last_was_indeterminate {
        (f, None)
    } else {
        (ProgressFilter { last_pct: None, last_was_indeterminate: true }, Some(None))
    }
}

impl ProgressFilter {
    /// A reporter that has sent nothing yet.
    pub fn new() -> (r: Self)
        ensures
            r.last_pct is None,
            !r.last_was_indeterminate,
    {
        ProgressFilter { last_pct: None, last_was_indeterminate: false }
    }

    /// Feeds one progress event; returns what to send, if anything.
    pub fn step(&mut self, p: &InstallProgress) -> (r: Option<Option<u8>>)
        ensures
            (*final(self), r) == progress_step_spec(*old(self), *p),
    {
        match p {
            InstallProgress::Downloading { downloaded, total } => {
                match total {
                    Some(t) => {
                        if *t > 0 {
                            let pct = percent(*downloaded, *t);
                            if self.last_pct == Some(pct) {
                                return None;
                            }
                            self.last_pct = Some(pct);
                            self.last_was_indeterminate = false;
                            return Some(Some(pct));
                        }
                    },
                    None => {},
                }
                if self.last_was_indeterminate {
                    return None;
                }
                self.last_was_indeterminate = true;
                self.last_pct = None;
                Some(None)
            },
            InstallProgress::Done(_) => None,
            _ => {
                self.last_pct = None;
                self.last_was_indeterminate = false;
                Some(None)
            },
        }
    }
}

/// Reporting the same download position twice in a row sends it once.
pub proof fn law_progress_no_repeats(f: ProgressFilter, p: InstallProgress)
    requires
        p is Downloading,
    ensures
        progress_step_spec(progress_step_spec(f, p).0, p).1 is None,
{
}

} // verus!
