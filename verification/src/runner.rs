//! What a game is launched with.
use vstd::prelude::*;

use crate::config::WineConfig;
use crate::dxvk::{env_overrides, spec_env_overrides};
use crate::path::{join, spec_join};
use crate::string_map::StringMap;
use crate::text::copy_str;

verus! {

/// Everything needed to launch a game.
#[derive(Debug, Clone)]
pub struct LaunchConfig {
    pub wine_binary: String,
    pub prefix: String,
    pub exe: String,
    pub env: StringMap,
}

/// The environment a game runs with: the Wine installation's overrides, then
/// the DXVK overrides when DXVK is enabled, then the game's own variables,
/// each layer overriding the one before.
pub open spec fn launch_env(
    wine_env: Map<Seq<char>, Seq<char>>,
    game_env: Map<Seq<char>, Seq<char>>,
    dxvk_enabled: bool,
) -> Map<Seq<char>, Seq<char>> {
    let base = if dxvk_enabled {
        wine_env.union_prefer_right(spec_env_overrides())
    } else {
        wine_env
    };
    base.union_prefer_right(game_env)
}

impl LaunchConfig {
    /// The launch of the executable `exe_relative` (relative to the bottle) in
    /// the bottle `bottle_dir` with the Wine installation `wine`.
    pub fn new(
        wine: &WineConfig,
        bottle_dir: &str,
        exe_relative: &str,
        game_env: &StringMap,
        dxvk_enabled: bool,
    ) -> (r: LaunchConfig)
        ensures
            r.wine_binary@ == wine.binary_path@,
            r.prefix@ == bottle_dir@,
            r.exe@ == spec_join(bottle_dir@, exe_relative@),
            r.env@ == launch_env(wine.env_overrides@, game_env@, dxvk_enabled),
    {
        let mut env = wine.env_overrides.duplicate();
        if dxvk_enabled {
            let d = env_overrides();
            env.extend(&d);
        }
        env.extend(game_env);
        LaunchConfig {
            wine_binary: copy_str(wine.binary_path.as_str()),
            prefix: copy_str(bottle_dir),
            exe: join(bottle_dir, exe_relative),
            env,
        }
    }
}

} // verus!
