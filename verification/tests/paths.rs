use std::path::PathBuf;

use opengamecore::paths::{
    bottle_dir, bottles_dir, config_path, data_dir, games_path, icons_dir, logs_dir,
    template_bottle_dir, wine_dir,
};

#[test]
fn data_dir_ends_with_app_name() {
    let d = PathBuf::from(data_dir().unwrap());
    assert!(d.ends_with("OpenGameCore"));
}

#[test]
fn config_path_is_toml() {
    let p = PathBuf::from(config_path().unwrap());
    assert_eq!(p.extension().unwrap(), "toml");
    assert!(p.starts_with(data_dir().unwrap()));
}

#[test]
fn bottle_dir_uses_slug() {
    let p = PathBuf::from(bottle_dir("my-game").unwrap());
    assert!(p.ends_with("my-game"));
    assert!(p.starts_with(bottles_dir().unwrap()));
}

#[test]
fn app_directories_are_under_data_dir() {
    let d = PathBuf::from(data_dir().unwrap());
    assert_eq!(PathBuf::from(games_path().unwrap()), d.join("games.toml"));
    assert_eq!(PathBuf::from(bottles_dir().unwrap()), d.join("bottles"));
    assert_eq!(PathBuf::from(template_bottle_dir().unwrap()), d.join("bottles").join("_template"));
    assert_eq!(PathBuf::from(wine_dir().unwrap()), d.join("wine"));
    assert_eq!(PathBuf::from(icons_dir().unwrap()), d.join("icons"));
    assert_eq!(PathBuf::from(logs_dir().unwrap()), d.join("logs"));
}

use opengamecore::paths::{
    app_data_dir, app_paths_for, bottle_dir_in, bottles_dir_in, config_path_in, games_path_in,
    icons_dir_in, logs_dir_in, template_bottle_dir_in, wine_dir_in, AppPaths,
};

#[test]
fn app_data_dir_inside_user_dir() {
    let d = app_data_dir(Some("/Users/me/Library/Application Support".into())).unwrap();
    assert_eq!(d, "/Users/me/Library/Application Support/OpenGameCore");
    let e = app_data_dir(None).unwrap_err();
    assert_eq!(e.description(), "Config error: Could not resolve data directory");
}

#[test]
fn paths_inside_data_dir() {
    let d = "/data/OpenGameCore";
    assert_eq!(config_path_in(d), "/data/OpenGameCore/config.toml");
    assert_eq!(games_path_in(d), "/data/OpenGameCore/games.toml");
    assert_eq!(bottles_dir_in(d), "/data/OpenGameCore/bottles");
    assert_eq!(bottle_dir_in(d, "my-game"), "/data/OpenGameCore/bottles/my-game");
    assert_eq!(template_bottle_dir_in(d), bottle_dir_in(d, "_template"));
    assert_eq!(template_bottle_dir_in(d), "/data/OpenGameCore/bottles/_template");
    assert_eq!(wine_dir_in(d), "/data/OpenGameCore/wine");
    assert_eq!(icons_dir_in(d), "/data/OpenGameCore/icons");
    assert_eq!(logs_dir_in(d), "/data/OpenGameCore/logs");
}

#[test]
fn app_paths_agree() {
    let p = app_paths_for(Some("/home/me/.local/share".into())).unwrap();
    let q = AppPaths::of("/home/me/.local/share/OpenGameCore");
    assert_eq!(p.data_dir, q.data_dir);
    assert_eq!(p.template_bottle_dir, "/home/me/.local/share/OpenGameCore/bottles/_template");
    assert_eq!(p.config_path, q.config_path);
    assert!(app_paths_for(None).is_err());
}
