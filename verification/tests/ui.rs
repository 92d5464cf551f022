use opengamecore::config::WineConfig;
use opengamecore::AppConfig;
use opengamecore::bundle::{
    BundleConfig, BundleGameInfo, BundleInstallInfo, BundleSet, BundleSettings,
    BundleWineSettings, BundleWorkarounds,
};
use opengamecore::compat::{CompatDatabase, CompatEntry, CompatRating};
use opengamecore::library::{default_wine_config, slugify, Game, GameLibrary, InstallType, Timestamp};
use opengamecore::store_detect::{DetectedGame, GameStore};
use opengamecore::string_map::StringMap;
use opengamecore::ui::{
    custom_wine_config, database_rows, finish_first_run, Window, WindowAction, WindowEvent, game_exited, RunningGames, exit_message, imported_message, install_type_for_tab,
    int_to_text, mark_played, new_detected_games, screen_after_load, toggle_dxvk, AddGameState,
    AddGameTab, Screen,
};

fn bundle(name: &str, slug: &str, exe: &str) -> BundleConfig {
    BundleConfig {
        game: BundleGameInfo { name: name.into(), slug: slug.into(), rating: String::new() },
        wine: BundleWineSettings { backend: "wine".into(), min_version: String::new() },
        settings: BundleSettings { dxvk_enabled: false, env: StringMap::new() },
        workarounds: BundleWorkarounds { notes: String::new() },
        install: BundleInstallInfo {
            exe_path: exe.into(),
            exe_alternatives: Vec::new(),
            steam_appid: None,
            gog_id: None,
        },
    }
}

fn game(name: &str) -> Game {
    Game {
        name: name.into(),
        slug: slugify(name),
        exe: "drive_c/game.exe".into(),
        install_type: InstallType::Portable,
        wine_config: default_wine_config(),
        env: StringMap::new(),
        added_at: Timestamp { secs: 0, nanos: 0 },
        last_played: None,
        icon_path: None,
        dxvk_enabled: false,
        use_gptk: false,
    }
}

#[test]
fn first_run_screen_until_complete() {
    assert_eq!(screen_after_load(Screen::Library, false), Screen::FirstRun);
    assert_eq!(screen_after_load(Screen::Library, true), Screen::Library);
}

#[test]
fn tabs_give_install_types() {
    assert_eq!(install_type_for_tab(AddGameTab::Installer), InstallType::Installer);
    assert_eq!(install_type_for_tab(AddGameTab::Portable), InstallType::Portable);
    assert_eq!(install_type_for_tab(AddGameTab::FromFolder), InstallType::FolderInstall);
    assert_eq!(install_type_for_tab(AddGameTab::AutoDetect), InstallType::FolderInstall);
}

#[test]
fn switching_tabs_drops_path() {
    let mut s = AddGameState::default();
    s.path = Some("/x/setup.exe".into());
    s.name = "X".into();
    s.select_tab(AddGameTab::Portable);
    assert_eq!(s.tab, AddGameTab::Portable);
    assert!(s.path.is_none());
    assert_eq!(s.name, "X");
}

#[test]
fn chosen_path_names_the_game() {
    let set = BundleSet::new();
    let mut s = AddGameState::default();
    s.path_selected(Some("/games/Hollow Knight/hollow_knight.exe".into()), &[], &set);
    assert_eq!(s.name, "hollow_knight");
    assert_eq!(s.path.as_deref(), Some("/games/Hollow Knight/hollow_knight.exe"));

    let mut typed = AddGameState::default();
    typed.name = "Hollow Knight".into();
    typed.path_selected(Some("/games/hk.exe".into()), &[], &set);
    assert_eq!(typed.name, "Hollow Knight");

    let mut cancelled = AddGameState::default();
    cancelled.path_selected(None, &[], &set);
    assert_eq!(cancelled.name, "");
    assert!(cancelled.path.is_none());
}

#[test]
fn auto_detect_matches_bundle() {
    let mut set = BundleSet::new();
    set.insert(bundle("Stardew Valley", "stardew-valley", "Stardew Valley.exe"));
    let mut s = AddGameState::default();
    s.select_tab(AddGameTab::AutoDetect);
    let exes = vec!["/games/SV/Stardew Valley.exe".to_string()];
    s.path_selected(Some("/games/SV".into()), &exes, &set);
    assert_eq!(s.name, "Stardew Valley");
    assert_eq!(s.matched_bundle.as_ref().map(|b| b.game.slug.clone()).as_deref(), Some("stardew-valley"));

    let mut none = AddGameState::default();
    none.select_tab(AddGameTab::AutoDetect);
    none.path_selected(Some("/games/Other".into()), &["/games/Other/other.exe".to_string()], &set);
    assert!(none.matched_bundle.is_none());
    assert_eq!(none.name, "Other");
}

#[test]
fn validation_messages() {
    let mut lib = GameLibrary::new();
    lib.add(game("Test Game")).unwrap();

    let mut s = AddGameState::default();
    s.name = "   ".into();
    assert_eq!(s.validate(&lib), Err("Game name is required.".to_string()));

    s.name = "New Game".into();
    assert_eq!(s.validate(&lib), Err("Please select a game executable or folder.".to_string()));

    s.path = Some("/x/new.exe".into());
    assert_eq!(s.validate(&lib), Ok("new-game".to_string()));

    s.name = "Test Game".into();
    assert_eq!(s.validate(&lib), Err("A game named 'Test Game' already exists.".to_string()));
}

#[test]
fn dialog_becomes_game() {
    let mut s = AddGameState::default();
    s.select_tab(AddGameTab::FromFolder);
    s.name = "Folder Game".into();
    s.path = Some("/games/fg".into());
    let g = s.into_game("folder-game".into(), Some("/icons/folder-game.png".into()), Timestamp { secs: 42, nanos: 7 });
    assert_eq!(g.name, "Folder Game");
    assert_eq!(g.slug, "folder-game");
    assert_eq!(g.exe, "/games/fg");
    assert_eq!(g.install_type, InstallType::FolderInstall);
    assert_eq!(g.wine_config, "default");
    assert!(g.env.entries().is_empty());
    assert_eq!(g.added_at, Timestamp { secs: 42, nanos: 7 });
    assert_eq!(g.icon_path.as_deref(), Some("/icons/folder-game.png"));
    assert!(!g.dxvk_enabled && !g.use_gptk && g.last_played.is_none());
}

#[test]
fn custom_wine_named_after_binary() {
    let c = custom_wine_config("/opt/wine/bin/wine64");
    assert_eq!(c.name, "wine64");
    assert_eq!(c.binary_path, "/opt/wine/bin/wine64");
    assert!(c.env_overrides.entries().is_empty());
    assert_eq!(custom_wine_config("/").name, "custom");
}

fn entry(name: &str, slug: &str, rating: CompatRating) -> CompatEntry {
    CompatEntry {
        name: name.into(),
        slug: slug.into(),
        rating,
        confidence_bits: 0.5f64.to_bits(),
        sources: StringMap::new(),
        recommended_backend: String::new(),
        bundle_available: false,
        steam_appid: None,
        gog_id: None,
        tags: vec![],
        last_updated: String::new(),
    }
}

fn db() -> CompatDatabase {
    CompatDatabase {
        version: 1,
        last_updated: String::new(),
        games: vec![
            entry("Cyberpunk 2077", "cyberpunk-2077", CompatRating::Gold),
            entry("Stardew Valley", "stardew-valley", CompatRating::Platinum),
            entry("Hades", "hades", CompatRating::Platinum),
        ],
    }
}

fn names(rows: &[&CompatEntry]) -> Vec<String> {
    rows.iter().map(|e| e.name.clone()).collect()
}

#[test]
fn database_rows_search_and_filter() {
    let d = db();
    assert_eq!(names(&database_rows(&d, "", None)), vec!["Cyberpunk 2077", "Stardew Valley", "Hades"]);
    assert_eq!(names(&database_rows(&d, "", Some(CompatRating::Platinum))), vec!["Stardew Valley", "Hades"]);
    assert_eq!(names(&database_rows(&d, "VALLEY", None)), vec!["Stardew Valley"]);
    assert_eq!(names(&database_rows(&d, "punk", Some(CompatRating::Platinum))), Vec::<String>::new());
    assert_eq!(names(&database_rows(&d, "hades", Some(CompatRating::Platinum))), vec!["Hades"]);
}

fn detected(name: &str) -> DetectedGame {
    DetectedGame {
        name: name.into(),
        store: GameStore::Steam,
        install_path: format!("/steam/common/{}", name),
        exe_path: None,
        rating: None,
        bundle_available: false,
    }
}

#[test]
fn detected_games_not_in_library() {
    let mut lib = GameLibrary::new();
    lib.add(game("Hades")).unwrap();
    let found = vec![detected("Hades"), detected("Celeste"), detected("Stardew Valley")];
    let offered: Vec<String> = new_detected_games(&lib, &found).iter().map(|d| d.name.clone()).collect();
    assert_eq!(offered, vec!["Celeste", "Stardew Valley"]);
}

#[test]
fn integers_in_decimal() {
    assert_eq!(int_to_text(0), "0");
    assert_eq!(int_to_text(7), "7");
    assert_eq!(int_to_text(1091500), "1091500");
    assert_eq!(int_to_text(-1), "-1");
    assert_eq!(int_to_text(i64::MIN), i64::MIN.to_string());
    assert_eq!(int_to_text(i64::MAX), i64::MAX.to_string());
}

#[test]
fn exit_messages() {
    assert_eq!(exit_message("hades", Some(0)), None);
    assert_eq!(exit_message("hades", None), None);
    assert_eq!(
        exit_message("hades", Some(139)).as_deref(),
        Some("'hades' exited with code 139. Check logs for details.")
    );
    assert_eq!(
        exit_message("x", Some(-2)).as_deref(),
        Some("'x' exited with code -2. Check logs for details.")
    );
    assert_eq!(imported_message(3), "Successfully imported 3 game(s).");
    assert_eq!(imported_message(0), "Successfully imported 0 game(s).");
}

#[test]
fn play_and_toggle_change_only_that_game() {
    let mut lib = GameLibrary::new();
    lib.add(game("Hades")).unwrap();
    lib.add(game("Celeste")).unwrap();
    assert!(mark_played(&mut lib, "celeste", Timestamp { secs: 99, nanos: 0 }));
    assert_eq!(lib.games[1].last_played, Some(Timestamp { secs: 99, nanos: 0 }));
    assert_eq!(lib.games[0].last_played, None);
    assert!(!mark_played(&mut lib, "missing", Timestamp { secs: 5, nanos: 0 }));

    assert!(toggle_dxvk(&mut lib, "hades"));
    assert!(lib.games[0].dxvk_enabled);
    assert!(toggle_dxvk(&mut lib, "hades"));
    assert!(!lib.games[0].dxvk_enabled);
    assert!(!lib.games[1].dxvk_enabled);
    assert!(!toggle_dxvk(&mut lib, "missing"));
}

#[test]
fn exited_game_leaves_running_set() {
    let mut running = RunningGames::new();
    running.start("hades");
    running.start("celeste");
    running.start("hades");
    assert!(running.contains("hades") && running.contains("celeste"));
    let m = game_exited(&mut running, "hades", Some(1));
    assert_eq!(m.as_deref(), Some("'hades' exited with code 1. Check logs for details."));
    assert!(!running.contains("hades"));
    assert!(running.contains("celeste"));
    assert_eq!(game_exited(&mut running, "celeste", Some(0)), None);
    assert!(!running.contains("celeste"));
}

#[test]
fn first_run_ends_with_default_wine() {
    let mut c = AppConfig::default();
    let found = vec![
        WineConfig { name: "wine-11.5".into(), binary_path: "/w/bin/wine".into(), env_overrides: StringMap::new() },
        WineConfig { name: "gptk".into(), binary_path: "/g".into(), env_overrides: StringMap::new() },
    ];
    assert_eq!(finish_first_run(&mut c, &found), None);
    assert!(c.app.first_run_complete);
    assert_eq!(c.wine.default, "wine-11.5");

    let mut d = AppConfig::default();
    assert_eq!(
        finish_first_run(&mut d, &[]).as_deref(),
        Some("Wine was downloaded but no binary was found. Check Settings.")
    );
    assert!(d.app.first_run_complete);
    assert_eq!(d.wine.default, "");
}

#[test]
fn window_loaded_shows_first_warning_and_first_run() {
    let set = BundleSet::new();
    let mut w = Window::new();
    let a = w.step(
        WindowEvent::Loaded {
            first_run_complete: false,
            warnings: vec!["Failed to load config: x".into(), "second".into()],
            wine_found: true,
            template_ready: false,
        },
        &set,
    );
    assert!(matches!(a, WindowAction::CreateTemplate));
    assert!(!w.loading);
    assert_eq!(w.screen, Screen::FirstRun);
    assert_eq!(w.error_message.as_deref(), Some("Failed to load config: x"));
    // A template failure does not hide the warning already shown.
    w.step(WindowEvent::TemplateFailed("boom".into()), &set);
    assert_eq!(w.error_message.as_deref(), Some("Failed to load config: x"));
    w.step(WindowEvent::DismissError, &set);
    w.step(WindowEvent::TemplateFailed("boom".into()), &set);
    assert_eq!(w.error_message.as_deref(), Some("Failed to create template bottle: boom"));

    let mut quiet = Window::new();
    let a = quiet.step(
        WindowEvent::Loaded { first_run_complete: true, warnings: vec![], wine_found: true, template_ready: true },
        &set,
    );
    assert!(matches!(a, WindowAction::Nothing));
    assert_eq!(quiet.screen, Screen::Library);
    assert!(quiet.error_message.is_none());
}

#[test]
fn window_game_exited() {
    let set = BundleSet::new();
    let mut w = Window::new();
    w.running.start("hades");
    w.step(WindowEvent::GameExited { slug: "hades".into(), exit_code: Some(0), log_error: Some("disk full".into()) }, &set);
    assert!(!w.running.contains("hades"));
    assert_eq!(w.error_message.as_deref(), Some("Failed to save game log: disk full"));
    w.step(WindowEvent::GameExited { slug: "x".into(), exit_code: Some(3), log_error: Some("disk full".into()) }, &set);
    assert_eq!(w.error_message.as_deref(), Some("'x' exited with code 3. Check logs for details."));
}

#[test]
fn window_setup_from_database() {
    let mut set = BundleSet::new();
    set.insert(bundle("Stardew Valley", "stardew-valley", "Stardew Valley.exe"));
    let mut w = Window::new();
    match w.step(WindowEvent::SetupFolderSelected { slug: "stardew-valley".into(), path: Some("/g/SV".into()) }, &set) {
        WindowAction::ApplyBundle { bundle, install_path } => {
            assert_eq!(bundle.game.slug, "stardew-valley");
            assert_eq!(install_path, "/g/SV");
        }
        _ => panic!("expected the bundle to be applied"),
    }
    assert!(w.error_message.is_none());
    let a = w.step(WindowEvent::SetupFolderSelected { slug: "hades".into(), path: Some("/g/H".into()) }, &set);
    assert!(matches!(a, WindowAction::ReloadBottles));
    assert_eq!(w.error_message.as_deref(), Some("No bundle found for 'hades'"));
    let a = w.step(WindowEvent::SetupFolderSelected { slug: "hades".into(), path: None }, &set);
    assert!(matches!(a, WindowAction::Nothing));
}

#[test]
fn window_navigation_and_dialog() {
    let set = BundleSet::new();
    let mut w = Window::new();
    w.step(WindowEvent::NavigateTo(Screen::Database), &set);
    assert_eq!(w.screen, Screen::Database);
    w.step(WindowEvent::SearchChanged("eld".into()), &set);
    w.step(WindowEvent::FilterRating(Some(CompatRating::Silver)), &set);
    assert_eq!(w.search_query, "eld");
    assert_eq!(w.filter_rating, Some(CompatRating::Silver));
    w.step(WindowEvent::OpenAddGame, &set);
    assert_eq!(w.add_game.as_ref().map(|g| g.tab), Some(AddGameTab::Installer));
    w.step(WindowEvent::CloseAddGame, &set);
    assert!(w.add_game.is_none());
    w.step(WindowEvent::ShowError("oops".into()), &set);
    assert_eq!(w.error_message.as_deref(), Some("oops"));
}
