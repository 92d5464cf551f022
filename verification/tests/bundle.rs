use opengamecore::bundle::{scan_step, ScanEntry, ScanItem};
use opengamecore::bundle::{
    apply_bundle, apply_bundle_at, has_exe_extension, match_bundle_for_folder, BundleConfig,
    BundleGameInfo, BundleInstallInfo, BundleSet, BundleSettings, BundleWineSettings,
    BundleWorkarounds,
};
use opengamecore::library::{GameLibrary, InstallType, Timestamp};
use opengamecore::string_map::StringMap;

fn bundle(name: &str, slug: &str, backend: &str, exe: &str, alts: &[&str]) -> BundleConfig {
    BundleConfig {
        game: BundleGameInfo { name: name.into(), slug: slug.into(), rating: "gold".into() },
        wine: BundleWineSettings { backend: backend.into(), min_version: String::new() },
        settings: BundleSettings { dxvk_enabled: false, env: StringMap::new() },
        workarounds: BundleWorkarounds { notes: String::new() },
        install: BundleInstallInfo {
            exe_path: exe.into(),
            exe_alternatives: alts.iter().map(|a| a.to_string()).collect(),
            steam_appid: None,
            gog_id: None,
        },
    }
}

/// The shipped bundles, as far as these tests read them.
fn bundles() -> BundleSet {
    let mut set = BundleSet::new();
    set.insert(bundle("Cyberpunk 2077", "cyberpunk-2077", "gptk", "bin/x64/Cyberpunk2077.exe", &[]));
    set.insert(bundle("Stardew Valley", "stardew-valley", "wine", "Stardew Valley.exe", &["StardewValley.exe"]));
    set
}

#[test]
fn match_primary_exe() {
    let exes = vec!["/tmp/g/bin/x64/Cyberpunk2077.exe".to_string()];
    let matched = match_bundle_for_folder(&exes, &bundles()).unwrap();
    assert_eq!(matched.game.slug, "cyberpunk-2077");
}

#[test]
fn match_alternative_exe() {
    let exes = vec!["/tmp/g/stardewvalley.EXE".to_string()];
    let matched = match_bundle_for_folder(&exes, &bundles()).unwrap();
    assert_eq!(matched.game.slug, "stardew-valley");
}

#[test]
fn no_match_for_unknown_exe() {
    let exes = vec!["/tmp/g/unknown_game.exe".to_string()];
    assert!(match_bundle_for_folder(&exes, &bundles()).is_none());
}

#[test]
fn exe_files_by_extension() {
    assert!(has_exe_extension("/g/Game.EXE"));
    assert!(has_exe_extension("/g/game.exe"));
    assert!(!has_exe_extension("/g/.exe"));
    assert!(!has_exe_extension("/g/game.exe.txt"));
}

#[test]
fn insert_replaces_same_slug() {
    let mut set = bundles();
    set.insert(bundle("Cyberpunk 2077 (new)", "cyberpunk-2077", "wine", "x.exe", &[]));
    assert_eq!(set.bundles.len(), 2);
    assert_eq!(set.get("cyberpunk-2077").unwrap().game.name, "Cyberpunk 2077 (new)");
    assert!(set.get("nope").is_none());
}

#[test]
fn apply_bundle_creates_game() {
    let set = bundles();
    let bundle = set.get("cyberpunk-2077").unwrap();

    let mut library = GameLibrary::new();
    let slug = apply_bundle(bundle, "/tmp/fake", &mut library).unwrap();

    assert_eq!(slug, "cyberpunk-2077");
    let game = library.find("cyberpunk-2077").unwrap();
    assert_eq!(game.name, "Cyberpunk 2077");
    assert!(game.use_gptk);
    assert_eq!(game.wine_config, "gptk");
    assert!(game.exe.contains("Cyberpunk2077.exe"));
    assert!(game.added_at.secs > 1_700_000_000);
}

#[test]
fn apply_bundle_defaults() {
    let mut b = bundle("Some Game", "some-game", "GPTK", "", &[]);
    b.settings.dxvk_enabled = true;
    let mut library = GameLibrary::new();
    apply_bundle_at(&b, &mut library, Timestamp { secs: 42, nanos: 0 }).unwrap();
    let g = &library.games[0];
    assert_eq!(g.exe, "drive_c/game.exe");
    assert!(g.use_gptk);
    assert!(g.dxvk_enabled);
    assert_eq!(g.added_at, Timestamp { secs: 42, nanos: 0 });
    assert_eq!(g.install_type, InstallType::FolderInstall);
    // Applying it again adds it again, as adding to the library does.
    assert_eq!(apply_bundle_at(&b, &mut library, Timestamp { secs: 43, nanos: 0 }).unwrap(), "some-game");
    assert_eq!(library.games.len(), 2);

    let w = bundle("Other", "other", "wine", "a/b.exe", &[]);
    apply_bundle_at(&w, &mut library, Timestamp { secs: 1, nanos: 0 }).unwrap();
    assert_eq!(library.games[2].wine_config, "default");
    assert_eq!(library.games[2].exe, "drive_c/a/b.exe");
}

#[test]
fn scan_step_descends_and_finds_exes() {
    let entries = vec![
        ScanEntry { path: "/g/bin".into(), is_dir: true },
        ScanEntry { path: "/g/Game.EXE".into(), is_dir: false },
        ScanEntry { path: "/g/readme.txt".into(), is_dir: false },
        ScanEntry { path: "/g/setup.exe".into(), is_dir: false },
    ];
    let items: Vec<String> = scan_step(&entries, 0, 3)
        .into_iter()
        .map(|i| match i {
            ScanItem::Exe(p) => format!("exe {}", p),
            ScanItem::Descend(p) => format!("dir {}", p),
        })
        .collect();
    assert_eq!(items, vec!["dir /g/bin", "exe /g/Game.EXE", "exe /g/setup.exe"]);
    assert!(scan_step(&entries, 4, 3).is_empty());
    assert_eq!(scan_step(&entries, 3, 3).len(), 3);
}
