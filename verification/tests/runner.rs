use opengamecore::config::WineConfig;
use opengamecore::runner::LaunchConfig;
use opengamecore::string_map::StringMap;

fn env(pairs: &[(&str, &str)]) -> StringMap {
    let mut m = StringMap::new();
    for (k, v) in pairs {
        m.insert(k.to_string(), v.to_string());
    }
    m
}

fn wine(name: &str, binary: &str, overrides: &[(&str, &str)]) -> WineConfig {
    WineConfig { name: name.into(), binary_path: binary.into(), env_overrides: env(overrides) }
}

#[test]
fn launch_config_merges_env() {
    let wine = wine("test", "/bin/wine", &[("WINEDEBUG", "-all")]);
    let game_env = env(&[("DXVK_HUD", "1")]);

    let config = LaunchConfig::new(&wine, "/bottles/game", "drive_c/game.exe", &game_env, false);

    assert_eq!(config.env.get("WINEDEBUG").unwrap(), "-all");
    assert_eq!(config.env.get("DXVK_HUD").unwrap(), "1");
    assert_eq!(config.exe, "/bottles/game/drive_c/game.exe");
    assert_eq!(config.prefix, "/bottles/game");
    assert_eq!(config.wine_binary, "/bin/wine");
}

#[test]
fn launch_config_game_env_overrides_wine_env() {
    let wine = wine("test", "/bin/wine", &[("KEY", "wine-val")]);
    let game_env = env(&[("KEY", "game-val")]);

    let config = LaunchConfig::new(&wine, "/bottles/game", "drive_c/game.exe", &game_env, false);

    assert_eq!(config.env.get("KEY").unwrap(), "game-val");
}

#[test]
fn launch_config_dxvk_enabled_sets_dll_overrides() {
    let wine = wine("test", "/bin/wine", &[]);
    let game_env = StringMap::new();

    let config = LaunchConfig::new(&wine, "/bottles/game", "drive_c/game.exe", &game_env, true);

    let overrides = config.env.get("WINEDLLOVERRIDES").unwrap();
    assert!(overrides.contains("d3d11=n"));
    assert!(overrides.contains("dxgi=n"));
}

#[test]
fn launch_config_dxvk_disabled_no_dll_overrides() {
    let wine = wine("test", "/bin/wine", &[]);
    let game_env = StringMap::new();

    let config = LaunchConfig::new(&wine, "/bottles/game", "drive_c/game.exe", &game_env, false);

    assert!(config.env.get("WINEDLLOVERRIDES").is_none());
}

#[test]
fn launch_config_game_env_overrides_dxvk() {
    let wine = wine("test", "/bin/wine", &[("WINEDLLOVERRIDES", "wine")]);
    let game_env = env(&[("WINEDLLOVERRIDES", "game")]);
    let config = LaunchConfig::new(&wine, "/b", "g.exe", &game_env, true);
    assert_eq!(config.env.get("WINEDLLOVERRIDES").unwrap(), "game");
    let config = LaunchConfig::new(&wine, "/b", "g.exe", &StringMap::new(), true);
    assert_eq!(config.env.get("WINEDLLOVERRIDES").unwrap(), "d3d9=n;d3d10core=n;d3d11=n;dxgi=n");
}

#[test]
fn launch_config_assembly() {
    let wine = wine("wine-9.0", "/usr/local/bin/wine64", &[("WINEDEBUG", "-all")]);
    let game_env = env(&[("DXVK_HUD", "fps")]);

    let config = LaunchConfig::new(&wine, "/bottles/cyberpunk", "drive_c/game/game.exe", &game_env, false);
    assert_eq!(config.env.get("WINEDEBUG").unwrap(), "-all");
    assert_eq!(config.env.get("DXVK_HUD").unwrap(), "fps");
    assert!(config.env.get("WINEDLLOVERRIDES").is_none());

    let config = LaunchConfig::new(&wine, "/bottles/cyberpunk", "drive_c/game/game.exe", &game_env, true);
    assert!(config.env.get("WINEDLLOVERRIDES").is_some());
    assert!(config.env.get("WINEDLLOVERRIDES").unwrap().contains("d3d11=n"));
}
