//! Launch-time symlink reconciliation. Right before spawning a game, each
//! declared slot's `<install_dir>/<symlink_filename>` is made to point at the
//! assigned ROM in the library — but only if the game hasn't already
//! generated its cached `.o2r`/`.otr` for that slot. Once cached, the game
//! never reads the ROM, so no symlink is needed.
//!
//! This module decides what happens to each slot's link; the caller carries
//! the actions out, in order, and stops at the first failure.

use vstd::prelude::*;

use crate::config::schema::{Config, SlotKey};
use crate::games::{slot_view, Game, SlotSpec};
use crate::paths::{join_spec, path_join, std_with_extension, with_extension};
use crate::platform::Platform;
use crate::roms::cached_assets::{
    expected_scan, presence_view, probes_fit, scan_cached_assets, CachedAssetPresence,
    CachedAssetStatus,
};
use crate::text::str_eq;

verus! {

/// What reconciliation does with one slot's link.
#[derive(Debug, Clone, PartialEq, Eq)]
pub enum SlotAction {
    /// The game already has its cached archive for the slot: leave the
    /// install directory alone.
    Keep,
    /// Point `link` at `target`, replacing whatever is there.
    Link { link: String, target: String },
    /// Remove `link` if it exists.
    Unlink { link: String },
}

/// A slot action as plain values.
pub enum ActionView {
    Keep,
    Link(Seq<char>, Seq<char>),
    Unlink(Seq<char>),
}

pub open spec fn action_view(a: SlotAction) -> ActionView {
    match a {
        SlotAction::Keep => ActionView::Keep,
        SlotAction::Link { link, target } => ActionView::Link(link@, target@),
        SlotAction::Unlink { link } => ActionView::Unlink(link@),
    }
}

/// The first scan entry for the slot `id`.
pub open spec fn find_presence(
    scan: Seq<(Seq<char>, Option<(Seq<char>, Seq<char>, u64)>)>,
    id: Seq<char>,
) -> Option<int>
    decreases scan.len(),
{
    if scan.len() == 0 {
        None
    } else if scan[0].0 == id {
        Some(0)
    } else {
        match find_presence(scan.drop_first(), id) {
            Some(k) => Some(k + 1),
            None => None,
        }
    }
}

/// Whether the scan found the slot's cached archive.
pub open spec fn slot_cached(
    scan: Seq<(Seq<char>, Option<(Seq<char>, Seq<char>, u64)>)>,
    id: Seq<char>,
) -> bool {
    match find_presence(scan, id) {
        Some(k) => scan[k].1 is Some,
        None => false,
    }
}

/// What reconciliation does with the slot `(id, _, symlink_filename)`.
pub open spec fn expected_action(
    install_dir: Seq<char>,
    library_root: Seq<char>,
    game: Seq<char>,
    slot: (Seq<char>, Seq<char>, Seq<char>),
    assignments: Map<SlotKey, Seq<char>>,
    scan: Seq<(Seq<char>, Option<(Seq<char>, Seq<char>, u64)>)>,
) -> ActionView {
    if slot_cached(scan, slot.0) {
        ActionView::Keep
    } else if assignments.contains_key((game, slot.0)) {
        ActionView::Link(join_spec(install_dir, slot.2), join_spec(library_root, assignments[(game, slot.0)]))
    } else {
        ActionView::Unlink(join_spec(install_dir, slot.2))
    }
}

proof fn lemma_find_presence_at(
    scan: Seq<(Seq<char>, Option<(Seq<char>, Seq<char>, u64)>)>,
    id: Seq<char>,
    k: int,
)
    requires
        0 <= k < scan.len(),
        scan[k].0 == id,
        forall|j: int| 0 <= j < k ==> (#[trigger] scan[j]).0 != id,
    ensures
        find_presence(scan, id) == Some(k),
    decreases k,
{
    if k > 0 {
        assert(scan[0].0 != id);
        assert forall|j: int| 0 <= j < k - 1 implies (#[trigger] scan.drop_first()[j]).0 != id by {
            assert(scan.drop_first()[j] == scan[j + 1]);
        }
        lemma_find_presence_at(scan.drop_first(), id, k - 1);
    }
}

proof fn lemma_find_presence_none(scan: Seq<(Seq<char>, Option<(Seq<char>, Seq<char>, u64)>)>, id: Seq<char>)
    requires
        forall|j: int| 0 <= j < scan.len() ==> (#[trigger] scan[j]).0 != id,
    ensures
        find_presence(scan, id) is None,
    decreases scan.len(),
{
    if scan.len() > 0 {
        assert(scan[0].0 != id);
        assert forall|j: int| 0 <= j < scan.len() - 1 implies (#[trigger] scan.drop_first()[j]).0 != id by {
            assert(scan.drop_first()[j] == scan[j + 1]);
        }
        lemma_find_presence_none(scan.drop_first(), id);
    }
}

/// Whether the scan found the cached archive of slot `id`.
fn cached_for_slot(presence: &Vec<CachedAssetPresence>, id: &str) -> (r: bool)
    ensures
        r == slot_cached(presence@.map_values(|p: CachedAssetPresence| presence_view(p)), id@),
{
    let ghost sv = presence@.map_values(|p: CachedAssetPresence| presence_view(p));
    let n = presence.len();
    for k in 0..n
        invariant
            n == presence@.len(),
            sv == presence@.map_values(|p: CachedAssetPresence| presence_view(p)),
            forall|j: int| 0 <= j < k ==> (#[trigger] sv[j]).0 != id@,
    {
        if str_eq(presence[k].slot_id, id) {
            proof {
                lemma_find_presence_at(sv, id@, k as int);
            }
            return presence[k].status.is_present();
        }
    }
    proof {
        lemma_find_presence_none(sv, id@);
    }
    false
}

/// What reconciling one install's slot links does, slot by slot in the
/// game's declared order. Only the game's declared slots are touched, never
/// other contents of the install directory. `probes` reports the cached-asset
/// files, as for `scan_cached_assets`.
pub fn plan_reconcile<G: Game, P: Platform>(
    install_dir: &str,
    game: &G,
    platform: &P,
    config: &Config,
    library_root: &str,
    probes: &Vec<Vec<Option<u64>>>,
) -> (r: Vec<SlotAction>)
    requires
        probes_fit(game.spec_cached_assets(), probes@),
    ensures
        r@.len() == game.spec_slots().len(),
        forall|i: int|
            0 <= i < r@.len() ==> action_view(#[trigger] r@[i]) == expected_action(
                install_dir@,
                library_root@,
                game.spec_slug(),
                game.spec_slots()[i],
                config.slot_assignments@,
                expected_scan(install_dir@, game.spec_cached_assets(), probes@),
            ),
        r@.map_values(|a: SlotAction| action_view(a)) == expected_plan(
            install_dir@,
            library_root@,
            game.spec_slug(),
            game.spec_slots(),
            config.slot_assignments@,
            expected_scan(install_dir@, game.spec_cached_assets(), probes@),
        ),
{
    let presence = scan_cached_assets(game, install_dir, platform, probes);
    let ghost scan = expected_scan(install_dir@, game.spec_cached_assets(), probes@);
    let slots = game.slots();
    let ghost slv = slots@.map_values(|s: SlotSpec| slot_view(s));
    let slug = game.slug();
    let mut out: Vec<SlotAction> = Vec::new();
    let n = slots.len();
    for i in 0..n
        invariant
            n == slots@.len(),
            slv == slots@.map_values(|s: SlotSpec| slot_view(s)),
            slv == game.spec_slots(),
            slug@ == game.spec_slug(),
            scan == expected_scan(install_dir@, game.spec_cached_assets(), probes@),
            presence@.map_values(|p: CachedAssetPresence| presence_view(p)) == scan,
            out@.len() == i,
            forall|k: int|
                0 <= k < i ==> action_view(#[trigger] out@[k]) == expected_action(
                    install_dir@,
                    library_root@,
                    slug@,
                    slv[k],
                    config.slot_assignments@,
                    scan,
                ),
    {
        let slot = slots[i];
        assert(slv[i as int] == slot_view(slot));
        if cached_for_slot(&presence, slot.id) {
            out.push(SlotAction::Keep);
        } else {
            let link = path_join(install_dir, slot.symlink_filename);
            match config.assignment_for(slug, slot.id) {
                Some(filename) => {
                    let target = path_join(library_root, filename);
                    out.push(SlotAction::Link { link, target });
                },
                None => {
                    out.push(SlotAction::Unlink { link });
                },
            }
        }
    }
    assert(out@.map_values(|a: SlotAction| action_view(a)) =~= expected_plan(
        install_dir@,
        library_root@,
        slug@,
        slv,
        config.slot_assignments@,
        scan,
    ));
    out
}

/// The scratch name a link is created under before it is renamed into
/// place, so that replacing a link is atomic.
pub fn symlink_temp_path(link: &str) -> (r: String)
    ensures
        r@ == std_with_extension(link@, "z64.tmp"@),
{
    proof {
        reveal_strlit("z64.tmp");
    }
    with_extension(link, "z64.tmp")
}

// ---------------------------------------------------------------------------
// Carrying a plan out
// ---------------------------------------------------------------------------

/// The links of an install directory: link path to target.
pub type Links = Map<Seq<char>, Seq<char>>;

/// The target of `link` in `links`, if it is a link.
pub open spec fn link_at(links: Links, link: Seq<char>) -> Option<Seq<char>> {
    if links.contains_key(link) {
        Some(links[link])
    } else {
        None
    }
}

/// The links after one action: `Link` points `link` at `target`, replacing
/// what was there; `Unlink` removes it; `Keep` changes nothing.
pub open spec fn apply_action(links: Links, a: ActionView) -> Links {
    match a {
        ActionView::Keep => links,
        ActionView::Link(link, target) => links.insert(link, target),
        ActionView::Unlink(link) => links.remove(link),
    }
}

/// The links after the actions of `plan`, in order.
pub open spec fn apply_actions(links: Links, plan: Seq<ActionView>) -> Links
    decreases plan.len(),
{
    if plan.len() == 0 {
        links
    } else {
        apply_action(apply_actions(links, plan.drop_last()), plan.last())
    }
}

/// The plan `plan_reconcile` makes, as plain values.
pub open spec fn expected_plan(
    install_dir: Seq<char>,
    library_root: Seq<char>,
    game: Seq<char>,
    slots: Seq<(Seq<char>, Seq<char>, Seq<char>)>,
    assignments: Map<SlotKey, Seq<char>>,
    scan: Seq<(Seq<char>, Option<(Seq<char>, Seq<char>, u64)>)>,
) -> Seq<ActionView> {
    Seq::new(
        slots.len(),
        |i: int| expected_action(install_dir, library_root, game, slots[i], assignments, scan),
    )
}

/// Whether action `a` changes `link`.
pub open spec fn touches(a: ActionView, link: Seq<char>) -> bool {
    match a {
        ActionView::Keep => false,
        ActionView::Link(l, _) => l == link,
        ActionView::Unlink(l) => l == link,
    }
}

/// The target of `link` after `plan`, from the last action that changes
/// it, or from `links` when none does.
pub open spec fn link_after(links: Links, plan: Seq<ActionView>, link: Seq<char>) -> Option<
    Seq<char>,
>
    decreases plan.len(),
{
    if plan.len() == 0 {
        link_at(links, link)
    } else if touches(plan.last(), link) {
        match plan.last() {
            ActionView::Link(_, target) => Some(target),
            _ => None,
        }
    } else {
        link_after(links, plan.drop_last(), link)
    }
}

proof fn lemma_apply_pointwise(links: Links, plan: Seq<ActionView>, link: Seq<char>)
    ensures
        link_at(apply_actions(links, plan), link) == link_after(links, plan, link),
    decreases plan.len(),
{
    if plan.len() > 0 {
        lemma_apply_pointwise(links, plan.drop_last(), link);
    }
}

proof fn lemma_link_after_untouched(links: Links, plan: Seq<ActionView>, link: Seq<char>)
    requires
        forall|i: int| 0 <= i < plan.len() ==> !touches(#[trigger] plan[i], link),
    ensures
        link_after(links, plan, link) == link_at(links, link),
    decreases plan.len(),
{
    if plan.len() > 0 {
        assert(!touches(plan[plan.len() - 1], link));
        lemma_link_after_untouched(links, plan.drop_last(), link);
    }
}

proof fn lemma_link_after_touched(a: Links, b: Links, plan: Seq<ActionView>, link: Seq<char>, i: int)
    requires
        0 <= i < plan.len(),
        touches(plan[i], link),
    ensures
        link_after(a, plan, link) == link_after(b, plan, link),
    decreases plan.len(),
{
    if !touches(plan.last(), link) {
        assert(i < plan.len() - 1);
        assert(plan.drop_last()[i] == plan[i]);
        lemma_link_after_touched(a, b, plan.drop_last(), link, i);
    }
}

/// Carrying out the same plan a second time changes nothing: every link a
/// plan touches ends as the plan's last action on it leaves it, and every
/// other entry of the install directory is left alone.
pub proof fn law_apply_plan_idempotent(links: Links, plan: Seq<ActionView>)
    ensures
        apply_actions(apply_actions(links, plan), plan) == apply_actions(links, plan),
{
    let once = apply_actions(links, plan);
    let twice = apply_actions(once, plan);
    assert forall|k: Seq<char>| link_at(twice, k) == link_at(once, k) by {
        lemma_apply_pointwise(once, plan, k);
        lemma_apply_pointwise(links, plan, k);
        if exists|i: int| 0 <= i < plan.len() && touches(#[trigger] plan[i], k) {
            let i = choose|i: int| 0 <= i < plan.len() && touches(#[trigger] plan[i], k);
            lemma_link_after_touched(once, links, plan, k, i);
        } else {
            lemma_link_after_untouched(once, plan, k);
        }
    }
    assert forall|k: Seq<char>| twice.contains_key(k) == once.contains_key(k) by {
        assert(link_at(twice, k) == link_at(once, k));
    }
    assert forall|k: Seq<char>| #[trigger] twice.contains_key(k) implies twice[k] == once[k] by {
        assert(link_at(twice, k) == link_at(once, k));
    }
    assert(twice =~= once);
}

/// Reconciling twice in a row, with nothing changed in between, leaves the
/// install directory as reconciling once: the second call makes the same plan
/// (the links are not among its inputs), and carrying it out again changes
/// no link.
pub proof fn law_reconcile_idempotent(
    links: Links,
    install_dir: Seq<char>,
    library_root: Seq<char>,
    game: Seq<char>,
    slots: Seq<(Seq<char>, Seq<char>, Seq<char>)>,
    assignments: Map<SlotKey, Seq<char>>,
    scan: Seq<(Seq<char>, Option<(Seq<char>, Seq<char>, u64)>)>,
)
    ensures
        ({
            let plan = expected_plan(install_dir, library_root, game, slots, assignments, scan);
            apply_actions(apply_actions(links, plan), plan) == apply_actions(links, plan)
        }),
{
    let plan = expected_plan(install_dir, library_root, game, slots, assignments, scan);
    law_apply_plan_idempotent(links, plan);
}

} // verus!
