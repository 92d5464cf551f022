use opengamecore::config::WineConfig;
use opengamecore::string_map::StringMap;
use opengamecore::wine::{
    binary_candidates, discover, find_wine_binary, gptk_env_overrides, resolve, system_candidates,
};

fn config(name: &str, binary: &str) -> WineConfig {
    WineConfig { name: name.into(), binary_path: binary.into(), env_overrides: StringMap::new() }
}

#[test]
fn discover_finds_local_installs() {
    let local = vec![("wine-9.0".to_string(), "/t/wine/wine-9.0/bin/wine64".to_string())];
    let configs = discover(&local, &vec![]);
    assert!(configs.iter().any(|c| c.name == "wine-9.0"));
}

#[test]
fn discover_names_system_binaries() {
    let existing = vec![
        "/usr/local/bin/wine".to_string(),
        "/opt/homebrew/bin/game-porting-toolkit-no-hud".to_string(),
        "/opt/homebrew/bin/game-porting-toolkit".to_string(),
    ];
    let configs = discover(&vec![], &existing);
    let names: Vec<&str> = configs.iter().map(|c| c.name.as_str()).collect();
    assert_eq!(names, vec!["homebrew-wine", "gptk", "gptk-no-hud"]);
    assert_eq!(configs[1].env_overrides.get("WINEESYNC").unwrap(), "1");
    assert!(configs[0].env_overrides.get("WINEESYNC").is_none());
}

#[test]
fn discover_lists_a_binary_once() {
    let local = vec![("brew".to_string(), "/usr/local/bin/wine64".to_string())];
    let configs = discover(&local, &vec!["/usr/local/bin/wine64".to_string()]);
    assert_eq!(configs.len(), 1);
    assert_eq!(configs[0].name, "brew");
    assert_eq!(system_candidates().len(), 7);
}

#[test]
fn wine_discovery_workflow() {
    let local = vec![
        ("wine-9.0".to_string(), "/t/wine/wine-9.0/bin/wine64".to_string()),
        ("wine-8.0".to_string(), "/t/wine/wine-8.0/bin/wine".to_string()),
    ];
    let configs = discover(&local, &vec![]);
    let names: Vec<&str> = configs.iter().map(|c| c.name.as_str()).collect();
    assert!(names.contains(&"wine-9.0"));
    assert!(names.contains(&"wine-8.0"));
    let resolved = resolve(&configs, "default").unwrap();
    assert!(!resolved.name.is_empty());
    let resolved = resolve(&configs, "wine-9.0").unwrap();
    assert_eq!(resolved.name, "wine-9.0");
}

#[test]
fn resolve_default_picks_first() {
    let configs = vec![config("wine-9.0", "/fake/bin/wine")];
    let resolved = resolve(&configs, "default").unwrap();
    assert_eq!(resolved.name, "wine-9.0");
}

#[test]
fn resolve_by_name() {
    let configs = vec![config("wine-9.0", "/fake/bin/wine"), config("gptk", "/fake/gptk/wine")];
    let resolved = resolve(&configs, "gptk").unwrap();
    assert_eq!(resolved.name, "gptk");
    assert_eq!(resolved.binary_path, "/fake/gptk/wine");
}

#[test]
fn resolve_missing_errors() {
    let configs: Vec<WineConfig> = vec![];
    assert!(resolve(&configs, "default").is_err());
}

#[test]
fn resolve_error_messages() {
    let configs = vec![config("wine-9.0", "/fake/bin/wine")];
    match resolve(&configs, "nope") {
        Err(e) => assert_eq!(e.description(), "Wine not found: Wine config 'nope' not found"),
        Ok(_) => panic!("resolved a missing name"),
    }
    match resolve(&[], "") {
        Err(e) => assert_eq!(e.description(), "Wine not found: No Wine installations found"),
        Ok(_) => panic!("resolved from nothing"),
    }
}

#[test]
fn gptk_env_overrides_set() {
    let env = gptk_env_overrides();
    assert_eq!(env.get("WINEESYNC").unwrap(), "1");
    assert_eq!(env.get("MTL_HUD_ENABLED").unwrap(), "0");
}

#[test]
fn resolve_empty_string_picks_first() {
    let configs = vec![config("wine-9.0", "/fake/bin/wine")];
    let resolved = resolve(&configs, "").unwrap();
    assert_eq!(resolved.name, "wine-9.0");
}

#[test]
fn discover_nonexistent_dir_returns_empty() {
    // No Wine directory and no system binaries: nothing is found.
    let configs = discover(&vec![], &vec![]);
    assert!(configs.is_empty());
}

#[test]
fn find_wine_binary_direct() {
    let existing = vec!["/t/bin/wine64".to_string()];
    assert_eq!(find_wine_binary("/t", &vec![], &existing).as_deref(), Some("/t/bin/wine64"));
}

#[test]
fn find_wine_binary_nested() {
    let subdirs = vec!["/t/wine-9.0".to_string()];
    let existing = vec!["/t/wine-9.0/bin/wine".to_string()];
    assert_eq!(find_wine_binary("/t", &subdirs, &existing).as_deref(), Some("/t/wine-9.0/bin/wine"));
}

#[test]
fn find_wine_binary_missing() {
    assert_eq!(find_wine_binary("/t", &vec!["/t/x".to_string()], &vec![]), None);
}

#[test]
fn binary_candidates_in_order() {
    let subdirs = vec!["/t/a".to_string(), "/t/b".to_string()];
    assert_eq!(
        binary_candidates("/t", &subdirs),
        vec!["/t/bin/wine64", "/t/bin/wine", "/t/a/bin/wine64", "/t/a/bin/wine", "/t/b/bin/wine64", "/t/b/bin/wine"]
    );
    // The directory's own binary wins over a subdirectory's; wine64 over wine.
    let existing = vec!["/t/a/bin/wine64".to_string(), "/t/bin/wine".to_string()];
    assert_eq!(find_wine_binary("/t", &subdirs, &existing).as_deref(), Some("/t/bin/wine"));
}
