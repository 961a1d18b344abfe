//! Launching an install: its slot links are reconciled, then its binary is
//! started from the install directory with no extra arguments, detached in
//! a session of its own. The caller spawns and watches the process.

use vstd::prelude::*;

use crate::config::schema::Config;
use crate::games::{Game, LaunchCommand};
use crate::library::InstalledVersion;
use crate::paths::join_spec;
use crate::platform::Platform;
use crate::roms::cached_assets::{expected_scan, probes_fit};
use crate::roms::wiring::{action_view, expected_action, plan_reconcile, SlotAction};

verus! {

/// What launching an install does: the slot links, in order, then the
/// command.
#[derive(Debug, Clone)]
pub struct LaunchPlan {
    pub links: Vec<SlotAction>,
    pub command: LaunchCommand,
}

/// Plans the launch of `installed`: the links of the game's slots (see
/// `plan_reconcile`; `probes` reports the cached-asset files of the install)
/// and the game's binary, run from the install directory.
pub fn plan_launch<G: Game, P: Platform>(
    installed: &InstalledVersion,
    game: &G,
    platform: &P,
    config: &Config,
    rom_library_root: &str,
    probes: &Vec<Vec<Option<u64>>>,
) -> (r: LaunchPlan)
    requires
        probes_fit(game.spec_cached_assets(), probes@),
    ensures
        r.links@.len() == game.spec_slots().len(),
        forall|i: int|
            0 <= i < r.links@.len() ==> action_view(#[trigger] r.links@[i]) == expected_action(
                installed.path@,
                rom_library_root@,
                game.spec_slug(),
                game.spec_slots()[i],
                config.slot_assignments@,
                expected_scan(installed.path@, game.spec_cached_assets(), probes@),
            ),
        r.command.program@ == join_spec(installed.path@, game.spec_binary(platform.spec_asset_keyword())),
        r.command.current_dir@ == installed.path@,
{
    let links = plan_reconcile(&installed.path, game, platform, config, rom_library_root, probes);
    let command = game.launch_command(&installed.path, platform);
    LaunchPlan { links, command }
}

} // verus!
