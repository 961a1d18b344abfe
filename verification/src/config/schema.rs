//! The persisted configuration and its slot-assignment table.

use vstd::prelude::*;

use crate::strmap::StrMap;
use crate::text::{owned, str_eq};

verus! {

pub const CURRENT_SCHEMA_VERSION: u32 = 5;

pub const DEFAULT_VERSIONS_TO_SHOW: u32 = 10;

pub const MIN_VERSIONS_TO_SHOW: u32 = 1;

/// `(game_slug, tag)` of the last successful launch.
#[derive(Debug, Clone, PartialEq, Eq)]
pub struct LastLaunched {
    pub game_slug: String,
    pub tag: String,
}

/// Serializable snapshot of the most recently observed GitHub rate-limit
/// state. Persisted across restarts so the UI can render quota status before
/// any new request is made.
#[derive(Debug, Clone, PartialEq, Eq)]
pub struct RateLimitSnapshot {
    pub remaining: Option<u32>,
    pub limit: Option<u32>,
    /// Unix timestamp (seconds) when the quota resets.
    pub reset_at_unix: Option<i64>,
}

/// A `(game_slug, slot_id)` pair, as characters.
pub type SlotKey = (Seq<char>, Seq<char>);

/// Slot assignments: for each `(game_slug, slot_id)` the filename, relative to
/// the ROM library root, of the ROM assigned to it. A game with no assigned
/// slot has no entry at all.
#[derive(Debug)]
pub struct SlotAssignments {
    entries: Vec<(String, String, String)>,
}

impl SlotAssignments {
    /// The `(game, slot)` keys, in entry order.
    pub closed spec fn keys_seq(&self) -> Seq<SlotKey> {
        self.entries@.map_values(|e: (String, String, String)| (e.0@, e.1@))
    }

    #[verifier::type_invariant]
    closed spec fn keys_distinct(&self) -> bool {
        self.keys_seq().no_duplicates()
    }

    /// The table as a map from `(game, slot)` to the assigned filename.
    pub closed spec fn view(&self) -> Map<SlotKey, Seq<char>> {
        Map::new(
            |k: SlotKey| self.keys_seq().contains(k),
            |k: SlotKey| self.entries@[self.keys_seq().index_of(k)].2@,
        )
    }

    proof fn lemma_entry(&self, i: int)
        requires
            self.keys_seq().no_duplicates(),
            0 <= i < self.entries@.len(),
        ensures
            self@.contains_key((self.entries@[i].0@, self.entries@[i].1@)),
            self@[(self.entries@[i].0@, self.entries@[i].1@)] == self.entries@[i].2@,
    {
        let k = (self.entries@[i].0@, self.entries@[i].1@);
        assert(self.keys_seq()[i] == k);
        let j = self.keys_seq().index_of(k);
        assert(self.keys_seq()[j] == k);
    }

    proof fn lemma_dom_len(&self)
        requires
            self.keys_seq().no_duplicates(),
        ensures
            self@.dom().len() == self.entries@.len(),
            self@.dom().finite(),
    {
        assert(self@.dom() =~= self.keys_seq().to_set());
        self.keys_seq().unique_seq_to_set();
    }

    /// No assignment at all.
    pub fn new() -> (s: Self)
        ensures
            s@ == Map::<SlotKey, Seq<char>>::empty(),
    {
        let s = SlotAssignments { entries: Vec::new() };
        assert(s@ =~= Map::<SlotKey, Seq<char>>::empty());
        s
    }

    /// Whether no slot is assigned.
    pub fn is_empty(&self) -> (r: bool)
        ensures
            r == (self@ == Map::<SlotKey, Seq<char>>::empty()),
    {
        proof {
            use_type_invariant(self);
            if self.entries@.len() > 0 {
                self.lemma_entry(0);
            } else {
                assert(self@ =~= Map::<SlotKey, Seq<char>>::empty());
            }
        }
        self.entries.len() == 0
    }

    /// Number of assigned slots.
    pub fn len(&self) -> (n: usize)
        ensures
            n == self@.dom().len(),
            self@.dom().finite(),
    {
        proof {
            use_type_invariant(self);
            self.lemma_dom_len();
        }
        self.entries.len()
    }

    /// The `i`-th assignment, as `(game, slot, filename)`. The keys at
    /// indices `0..len()` enumerate the table, each key once.
    pub fn entry(&self, i: usize) -> (r: (&String, &String, &String))
        requires
            i < self@.dom().len(),
        ensures
            (r.0@, r.1@) == self.keys_seq()[i as int],
            self@.contains_key((r.0@, r.1@)),
            self@[(r.0@, r.1@)] == r.2@,
            self.keys_seq().len() == self@.dom().len(),
            self.keys_seq().no_duplicates(),
            self.keys_seq().to_set() == self@.dom(),
    {
        proof {
            use_type_invariant(self);
            self.lemma_dom_len();
            self.lemma_entry(i as int);
            assert(self@.dom() =~= self.keys_seq().to_set());
        }
        let e = &self.entries[i];
        (&e.0, &e.1, &e.2)
    }

    fn find(&self, game: &str, slot: &str) -> (r: Option<usize>)
        ensures
            match r {
                Some(i) => i < self.entries@.len() && self.keys_seq()[i as int] == (game@, slot@),
                None => !self.keys_seq().contains((game@, slot@)),
            },
    {
        let n = self.entries.len();
        for i in 0..n
            invariant
                n == self.entries@.len(),
                forall|j: int| 0 <= j < i ==> self.keys_seq()[j] != (game@, slot@),
        {
            if str_eq(&self.entries[i].0, game) && str_eq(&self.entries[i].1, slot) {
                return Some(i);
            }
        }
        None
    }

    /// The filename assigned to `(game, slot)`.
    pub fn get(&self, game: &str, slot: &str) -> (r: Option<&str>)
        ensures
            match r {
                Some(f) => self@.contains_key((game@, slot@)) && self@[(game@, slot@)] == f@,
                None => !self@.contains_key((game@, slot@)),
            },
    {
        proof {
            use_type_invariant(self);
        }
        match self.find(game, slot) {
            Some(i) => {
                proof {
                    self.lemma_entry(i as int);
                }
                Some(self.entries[i].2.as_str())
            },
            None => None,
        }
    }

    /// Assigns `filename` to `(game, slot)`, replacing any earlier assignment.
    pub fn assign(&mut self, game: &str, slot: &str, filename: String)
        ensures
            final(self)@ == old(self)@.insert((game@, slot@), filename@),
    {
        proof {
            use_type_invariant(&*self);
        }
        let ghost old_self = *self;
        let ghost key = (game@, slot@);
        let found = self.find(game, slot);
        let mut es: Vec<(String, String, String)> = Vec::new();
        std::mem::swap(&mut es, &mut self.entries);
        match found {
            Some(i) => {
                let g = owned(game);
                let s = owned(slot);
                es.set(i, (g, s, filename));
                proof {
                    assert(es@.map_values(|e: (String, String, String)| (e.0@, e.1@))
                        =~= old_self.keys_seq());
                }
                self.entries = es;
                proof {
                    assert(self.keys_seq() =~= old_self.keys_seq());
                    assert forall|q: SlotKey| #[trigger] self@.contains_key(q) implies self@[q]
                        == old_self@.insert(key, filename@)[q] by {
                        let j = self.keys_seq().index_of(q);
                        assert(self.keys_seq()[j] == q);
                        if q == key {
                            assert(self.keys_seq()[i as int] == key);
                        } else {
                            old_self.lemma_entry(j);
                        }
                    }
                    assert(self@ =~= old_self@.insert(key, filename@));
                }
            },
            None => {
                es.push((owned(game), owned(slot), filename));
                proof {
                    assert(es@.map_values(|e: (String, String, String)| (e.0@, e.1@))
                        =~= old_self.keys_seq().push(key));
                }
                self.entries = es;
                proof {
                    let n = old_self.entries@.len() as int;
                    assert(self.keys_seq() =~= old_self.keys_seq().push(key));
                    assert forall|q: SlotKey| #[trigger] self@.contains_key(q) == old_self@.insert(
                        key,
                        filename@,
                    ).contains_key(q) by {
                        if q == key {
                            assert(self.keys_seq()[n] == key);
                        }
                        if old_self.keys_seq().contains(q) {
                            let j = old_self.keys_seq().index_of(q);
                            assert(self.keys_seq()[j] == q);
                        }
                    }
                    assert forall|q: SlotKey| #[trigger] self@.contains_key(q) implies self@[q]
                        == old_self@.insert(key, filename@)[q] by {
                        let j = self.keys_seq().index_of(q);
                        assert(self.keys_seq()[j] == q);
                        if q == key {
                            assert(self.keys_seq()[n] == key);
                        } else {
                            assert(j < n);
                            assert(old_self.keys_seq()[j] == q);
                            old_self.lemma_entry(j);
                        }
                    }
                    assert(self@ =~= old_self@.insert(key, filename@));
                }
            },
        }
    }

    /// Removes the assignment of `(game, slot)`, if any.
    pub fn unassign(&mut self, game: &str, slot: &str)
        ensures
            final(self)@ == old(self)@.remove((game@, slot@)),
    {
        proof {
            use_type_invariant(&*self);
        }
        let ghost old_self = *self;
        let ghost key = (game@, slot@);
        match self.find(game, slot) {
            Some(i) => {
                let mut es: Vec<(String, String, String)> = Vec::new();
                std::mem::swap(&mut es, &mut self.entries);
                es.remove(i);
                proof {
                    assert(es@.map_values(|e: (String, String, String)| (e.0@, e.1@))
                        =~= old_self.keys_seq().remove(i as int));
                }
                self.entries = es;
                proof {
                    assert(self.keys_seq() =~= old_self.keys_seq().remove(i as int));
                    assert forall|q: SlotKey| old_self@.remove(key).contains_key(
                        q,
                    ) implies #[trigger] self@.contains_key(q) by {
                        let j = old_self.keys_seq().index_of(q);
                        assert(old_self.keys_seq()[j] == q);
                        assert(j != i);
                        if j < i {
                            assert(self.keys_seq()[j] == q);
                        } else {
                            assert(self.keys_seq()[j - 1] == q);
                        }
                    }
                    assert forall|q: SlotKey| #[trigger] self@.contains_key(
                        q,
                    ) implies old_self@.remove(key).contains_key(q) by {
                        let j = self.keys_seq().index_of(q);
                        assert(self.keys_seq()[j] == q);
                        let jj = if j < i {
                            j
                        } else {
                            j + 1
                        };
                        assert(old_self.keys_seq()[jj] == q);
                        assert(jj != i);
                    }
                    assert forall|q: SlotKey| #[trigger] self@.contains_key(q) implies self@[q]
                        == old_self@.remove(key)[q] by {
                        let j = self.keys_seq().index_of(q);
                        assert(self.keys_seq()[j] == q);
                        if j < i {
                            assert(old_self.keys_seq()[j] == q);
                            old_self.lemma_entry(j);
                        } else {
                            assert(old_self.keys_seq()[j + 1] == q);
                            old_self.lemma_entry(j + 1);
                        }
                    }
                    assert(self@ =~= old_self@.remove(key));
                }
            },
            None => {
                assert(old_self@.remove(key) =~= old_self@);
            },
        }
    }

    /// The filename of the `i`-th entry.
    closed spec fn value_at(&self, i: int) -> Seq<char> {
        self.entries@[i].2@
    }

    /// Drops every assignment whose filename is `filename`; returns how many.
    pub fn clear_filename(&mut self, filename: &str) -> (cleared: usize)
        ensures
            final(self)@ == old(self)@.remove_keys(
                old(self)@.dom().filter(|k: SlotKey| old(self)@[k] == filename@),
            ),
            cleared == old(self)@.dom().filter(|k: SlotKey| old(self)@[k] == filename@).len(),
    {
        proof {
            use_type_invariant(&*self);
        }
        let ghost old_self = *self;
        let ghost pred = |k: SlotKey| old_self@[k] == filename@;
        let n = self.entries.len();
        let mut matches: Vec<(String, String)> = Vec::new();
        let ghost mut idx: Seq<int> = Seq::empty();
        for i in 0..n
            invariant
                n == old_self.entries@.len(),
                *self == old_self,
                old_self.keys_seq().no_duplicates(),
                idx.len() == matches@.len(),
                forall|j: int|
                    0 <= j < idx.len() ==> 0 <= #[trigger] idx[j] < i && old_self.keys_seq()[idx[j]]
                        == (matches@[j].0@, matches@[j].1@) && old_self.value_at(idx[j])
                        == filename@,
                forall|j: int, l: int| 0 <= j < l < idx.len() ==> idx[j] < idx[l],
                forall|t: int|
                    0 <= t < i && #[trigger] old_self.value_at(t) == filename@ ==> exists|j: int|
                        0 <= j < idx.len() && idx[j] == t,
        {
            if str_eq(&self.entries[i].2, filename) {
                let g = owned(&self.entries[i].0);
                let s = owned(&self.entries[i].1);
                matches.push((g, s));
                proof {
                    let ghost old_idx = idx;
                    idx = idx.push(i as int);
                    assert(old_self.keys_seq()[i as int] == (self.entries@[i as int].0@,
                        self.entries@[i as int].1@));
                    assert forall|t: int|
                        0 <= t < i + 1 && #[trigger] old_self.value_at(t) == filename@ implies exists|
                        j: int,
                    | 0 <= j < idx.len() && idx[j] == t by {
                        if t == i {
                            assert(idx[idx.len() - 1] == t);
                        } else {
                            let j0 = choose|j: int| 0 <= j < old_idx.len() && old_idx[j] == t;
                            assert(idx[j0] == t);
                        }
                    }
                }
            }
        }
        let ghost mview = matches@.map_values(|m: (String, String)| (m.0@, m.1@));
        let ghost removed = old_self@.dom().filter(pred);
        proof {
            assert(mview.no_duplicates()) by {
                assert forall|j: int, l: int|
                    0 <= j < mview.len() && 0 <= l < mview.len() && j != l implies mview[j]
                    != mview[l] by {
                    assert(old_self.keys_seq()[idx[j]] == mview[j]);
                    assert(old_self.keys_seq()[idx[l]] == mview[l]);
                    if j < l {
                        assert(idx[j] < idx[l]);
                    } else {
                        assert(idx[l] < idx[j]);
                    }
                }
            }
            assert(mview.to_set() =~= removed) by {
                assert forall|k: SlotKey| mview.to_set().contains(k) implies removed.contains(
                    k,
                ) by {
                    let j = choose|j: int| 0 <= j < mview.len() && mview[j] == k;
                    assert(old_self.keys_seq()[idx[j]] == k);
                    old_self.lemma_entry(idx[j]);
                }
                assert forall|k: SlotKey| removed.contains(k) implies mview.to_set().contains(
                    k,
                ) by {
                    let t = old_self.keys_seq().index_of(k);
                    assert(old_self.keys_seq()[t] == k);
                    old_self.lemma_entry(t);
                    assert(old_self.value_at(t) == filename@);
                    let j = choose|j: int| 0 <= j < idx.len() && idx[j] == t;
                    assert(mview[j] == k);
                }
            }
            mview.unique_seq_to_set();
            assert(old_self@.remove_keys(mview.take(0).to_set()) =~= old_self@);
        }
        let m = matches.len();
        for j in 0..m
            invariant
                m == matches@.len(),
                mview == matches@.map_values(|m: (String, String)| (m.0@, m.1@)),
                self@ == old_self@.remove_keys(mview.take(j as int).to_set()),
        {
            self.unassign(&matches[j].0, &matches[j].1);
            proof {
                assert(mview[j as int] == (matches@[j as int].0@, matches@[j as int].1@));
                assert(mview.take(j + 1) =~= mview.take(j as int).push(mview[j as int]));
                assert forall|x: SlotKey| #[trigger] mview.take(j + 1).contains(x) == (mview.take(
                    j as int,
                ).contains(x) || x == mview[j as int]) by {
                    if mview.take(j + 1).contains(x) && x != mview[j as int] {
                        let q = choose|q: int| 0 <= q < j + 1 && #[trigger] mview.take(j + 1)[q] == x;
                        assert(mview.take(j as int)[q] == x);
                    }
                    if mview.take(j as int).contains(x) {
                        let q = choose|q: int| 0 <= q < j && #[trigger] mview.take(j as int)[q] == x;
                        assert(mview.take(j + 1)[q] == x);
                    }
                    if x == mview[j as int] {
                        assert(mview.take(j + 1)[j as int] == x);
                    }
                }
                assert(mview.take(j + 1).to_set() =~= mview.take(j as int).to_set().insert(
                    mview[j as int],
                ));
                assert(old_self@.remove_keys(mview.take(j + 1).to_set()) =~= old_self@.remove_keys(
                    mview.take(j as int).to_set(),
                ).remove(mview[j as int]));
            }
        }
        proof {
            assert(mview.take(m as int) =~= mview);
        }
        m
    }
}

/// The persisted configuration.
#[derive(Debug)]
pub struct Config {
    pub schema_version: u32,
    pub library_root: Option<String>,
    /// Install directories chosen outside the library root, by tag.
    pub install_overrides: StrMap<String>,
    /// Slot assignments: `(game_slug, slot_id) -> rom filename`, the filename
    /// relative to the ROM library root.
    pub slot_assignments: SlotAssignments,
    /// Maximum number of recent versions to show in the Library Version
    /// dropdown. Installed versions older than this window are still shown.
    pub versions_to_show: u32,
    /// `(game_slug, tag)` of the last successful launch, used to pre-select
    /// the Library tab dropdowns on cold start.
    pub last_launched: Option<LastLaunched>,
    /// Most recently observed GitHub rate-limit headers.
    pub rate_limit_snapshot: Option<RateLimitSnapshot>,
}

/// The value `versions_to_show` takes when a file does not give one.
pub fn default_versions_to_show() -> (n: u32)
    ensures
        n == DEFAULT_VERSIONS_TO_SHOW,
{
    DEFAULT_VERSIONS_TO_SHOW
}

/// Whether `c` is the configuration `Config::default()` builds.
pub open spec fn is_default_config(c: Config) -> bool {
    &&& c.schema_version == CURRENT_SCHEMA_VERSION
    &&& c.library_root is None
    &&& c.install_overrides@ == Map::<Seq<char>, String>::empty()
    &&& c.slot_assignments@ == Map::<SlotKey, Seq<char>>::empty()
    &&& c.versions_to_show == DEFAULT_VERSIONS_TO_SHOW
    &&& c.last_launched is None
    &&& c.rate_limit_snapshot is None
}

/// Whether `a` and `b` agree on every field but the slot assignments.
pub open spec fn same_but_assignments(a: Config, b: Config) -> bool {
    &&& a.schema_version == b.schema_version
    &&& a.library_root == b.library_root
    &&& a.install_overrides@ == b.install_overrides@
    &&& a.versions_to_show == b.versions_to_show
    &&& a.last_launched == b.last_launched
    &&& a.rate_limit_snapshot == b.rate_limit_snapshot
}

/// What `set_assignment(game, slot, filename)` makes of the table `m`.
pub open spec fn assignment_update(
    m: Map<SlotKey, Seq<char>>,
    game: Seq<char>,
    slot: Seq<char>,
    filename: Option<Seq<char>>,
) -> Map<SlotKey, Seq<char>> {
    match filename {
        Some(f) => m.insert((game, slot), f),
        None => m.remove((game, slot)),
    }
}

/// The keys of `m` whose filename is `filename`.
pub open spec fn keys_referencing(m: Map<SlotKey, Seq<char>>, filename: Seq<char>) -> Set<SlotKey> {
    m.dom().filter(|k: SlotKey| m[k] == filename)
}

impl Default for Config {
    fn default() -> (c: Self)
        ensures
            is_default_config(c),
    {
        Config {
            schema_version: CURRENT_SCHEMA_VERSION,
            library_root: None,
            install_overrides: StrMap::new(),
            slot_assignments: SlotAssignments::new(),
            versions_to_show: DEFAULT_VERSIONS_TO_SHOW,
            last_launched: None,
            rate_limit_snapshot: None,
        }
    }
}

impl Config {
    /// The ROM filename assigned to `slot_id` of `game_slug`, if any.
    pub fn assignment_for(&self, game_slug: &str, slot_id: &str) -> (r: Option<&str>)
        ensures
            match r {
                Some(f) => self.slot_assignments@.contains_key((game_slug@, slot_id@))
                    && self.slot_assignments@[(game_slug@, slot_id@)] == f@,
                None => !self.slot_assignments@.contains_key((game_slug@, slot_id@)),
            },
    {
        self.slot_assignments.get(game_slug, slot_id)
    }

    /// Assigns `filename` to the slot, or clears the slot when `filename` is
    /// `None`. A game left with no assigned slot has no entry at all.
    pub fn set_assignment(&mut self, game_slug: &str, slot_id: &str, filename: Option<String>)
        ensures
            final(self).slot_assignments@ == assignment_update(
                old(self).slot_assignments@,
                game_slug@,
                slot_id@,
                match filename {
                    Some(f) => Some(f@),
                    None => None,
                },
            ),
            same_but_assignments(*final(self), *old(self)),
    {
        match filename {
            Some(name) => self.slot_assignments.assign(game_slug, slot_id, name),
            None => self.slot_assignments.unassign(game_slug, slot_id),
        }
    }

    /// Removes every assignment referencing `filename` across all games.
    /// Returns the number of assignments cleared.
    pub fn clear_assignments_referencing(&mut self, filename: &str) -> (cleared: usize)
        ensures
            final(self).slot_assignments@ == old(self).slot_assignments@.remove_keys(
                keys_referencing(old(self).slot_assignments@, filename@),
            ),
            cleared == keys_referencing(old(self).slot_assignments@, filename@).len(),
            same_but_assignments(*final(self), *old(self)),
    {
        self.slot_assignments.clear_filename(filename)
    }
}

/// After a slot is assigned a filename, reading the slot gives that
/// filename back, and every other slot reads as before.
pub proof fn law_assignment_read_after_write(
    m: Map<SlotKey, Seq<char>>,
    game: Seq<char>,
    slot: Seq<char>,
    filename: Seq<char>,
    other: SlotKey,
)
    ensures
        assignment_update(m, game, slot, Some(filename)).contains_key((game, slot)),
        assignment_update(m, game, slot, Some(filename))[(game, slot)] == filename,
        other != (game, slot) ==> assignment_update(m, game, slot, Some(filename)).contains_key(
            other,
        ) == m.contains_key(other),
        other != (game, slot) && m.contains_key(other) ==> assignment_update(
            m,
            game,
            slot,
            Some(filename),
        )[other] == m[other],
{
}

/// Clearing a slot leaves it unassigned and every other slot as before;
/// clearing twice is the same as clearing once.
pub proof fn law_assignment_clear(
    m: Map<SlotKey, Seq<char>>,
    game: Seq<char>,
    slot: Seq<char>,
    other: SlotKey,
)
    ensures
        !assignment_update(m, game, slot, None).contains_key((game, slot)),
        other != (game, slot) ==> assignment_update(m, game, slot, None).contains_key(other)
            == m.contains_key(other),
        other != (game, slot) && m.contains_key(other) ==> assignment_update(m, game, slot, None)[other]
            == m[other],
        assignment_update(assignment_update(m, game, slot, None), game, slot, None)
            == assignment_update(m, game, slot, None),
{
    assert(assignment_update(assignment_update(m, game, slot, None), game, slot, None)
        =~= assignment_update(m, game, slot, None));
}

/// After the assignments referencing a filename are cleared, none is
/// left that references it, and the assignments of every other filename are
/// untouched.
pub proof fn law_clear_referencing(m: Map<SlotKey, Seq<char>>, filename: Seq<char>, k: SlotKey)
    ensures
        m.remove_keys(keys_referencing(m, filename)).contains_key(k) ==> m.remove_keys(
            keys_referencing(m, filename),
        )[k] != filename,
        m.contains_key(k) && m[k] != filename ==> m.remove_keys(
            keys_referencing(m, filename),
        ).contains_key(k) && m.remove_keys(keys_referencing(m, filename))[k] == m[k],
        keys_referencing(m.remove_keys(keys_referencing(m, filename)), filename).is_empty(),
{
    let r = m.remove_keys(keys_referencing(m, filename));
    assert(keys_referencing(r, filename) =~= Set::<SlotKey>::empty());
}

} // verus!
