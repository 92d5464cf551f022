use opengamecore::library::{
    check_add_input, default_wine_config, icon_path, import_library, parse_install_type, slugify, Game,
    GameLibrary, InstallType, Timestamp,
};
use opengamecore::string_map::StringMap;

const HOUR_SECS: i64 = 3_600;

fn at(secs: i64, nanos: u32) -> Timestamp {
    Timestamp { secs, nanos }
}

fn make_game(name: &str) -> Game {
    Game {
        name: name.into(),
        slug: slugify(name),
        exe: "drive_c/game/game.exe".into(),
        install_type: InstallType::Installer,
        wine_config: default_wine_config(),
        env: StringMap::new(),
        added_at: at(1_774_000_000, 0),
        last_played: None,
        icon_path: None,
        dxvk_enabled: false,
        use_gptk: false,
    }
}

#[test]
fn slugs_of_names() {
    assert_eq!(slugify("Test Game"), "test-game");
    assert_eq!(slugify("Cyberpunk 2077"), "cyberpunk-2077");
    assert_eq!(slugify("  --The Witcher 3: Wild Hunt!!"), "the-witcher-3-wild-hunt");
    assert_eq!(slugify("Æúű--cool?"), "aeuu-cool");
}

#[test]
fn add_and_find_game() {
    let mut lib = GameLibrary::new();
    lib.add(make_game("Test Game")).unwrap();
    assert!(lib.find("test-game").is_some());
    assert_eq!(lib.find("test-game").unwrap().name, "Test Game");
}

#[test]
fn add_appends_without_looking_at_slugs() {
    let mut lib = GameLibrary::new();
    lib.add(make_game("Test Game")).unwrap();
    lib.add(make_game("test game")).unwrap();
    assert_eq!(lib.games.len(), 2);
    assert_eq!(lib.games[1].name, "test game");
    // Looking up the slug finds the first.
    assert_eq!(lib.find("test-game").unwrap().name, "Test Game");
}

#[test]
fn remove_game() {
    let mut lib = GameLibrary::new();
    lib.add(make_game("Test Game")).unwrap();
    lib.remove("test-game").unwrap();
    assert!(lib.find("test-game").is_none());
}

#[test]
fn remove_missing_game_errors() {
    let mut lib = GameLibrary::new();
    assert!(lib.remove("nope").is_err());
}

#[test]
fn remove_keeps_other_games_in_order() {
    let mut lib = GameLibrary::new();
    for n in ["A", "B", "C"] {
        lib.add(make_game(n)).unwrap();
    }
    lib.remove("b").unwrap();
    let slugs: Vec<&str> = lib.games.iter().map(|g| g.slug.as_str()).collect();
    assert_eq!(slugs, vec!["a", "c"]);
}

#[test]
fn find_mut_changes_the_game() {
    let mut lib = GameLibrary::new();
    lib.add(make_game("Test Game")).unwrap();
    lib.find_mut("test-game").unwrap().icon_path = Some("/icons/test-game.png".into());
    assert_eq!(lib.find("test-game").unwrap().icon_path.as_deref(), Some("/icons/test-game.png"));
    assert!(lib.find_mut("nope").is_none());
}

#[test]
fn recently_played_sorted() {
    let now = 1_774_000_000;
    let mut lib = GameLibrary::new();
    let mut g1 = make_game("Old Game");
    g1.last_played = Some(at(now - 2 * HOUR_SECS, 0));
    let mut g2 = make_game("New Game");
    g2.last_played = Some(at(now, 0));
    let g3 = make_game("Never Played");

    lib.add(g1).unwrap();
    lib.add(g2).unwrap();
    lib.add(g3).unwrap();

    let recent = lib.recently_played();
    assert_eq!(recent.len(), 2);
    assert_eq!(recent[0].slug, "new-game");
    assert_eq!(recent[1].slug, "old-game");
}

#[test]
fn recently_played_is_stable() {
    let mut lib = GameLibrary::new();
    for (n, t) in [("A", 5), ("B", 9), ("C", 5), ("D", 9), ("E", 1)] {
        let mut g = make_game(n);
        g.last_played = Some(at(t, 0));
        lib.add(g).unwrap();
    }
    let slugs: Vec<&str> = lib.recently_played().iter().map(|g| g.slug.as_str()).collect();
    assert_eq!(slugs, vec!["b", "d", "a", "c", "e"]);
}

#[test]
fn recently_played_orders_within_a_second() {
    let mut lib = GameLibrary::new();
    for (n, t) in [("A", at(100, 10)), ("B", at(100, 11)), ("C", at(99, 999_999_999)), ("D", at(100, 1_500_000_000))] {
        let mut g = make_game(n);
        g.last_played = Some(t);
        lib.add(g).unwrap();
    }
    let slugs: Vec<&str> = lib.recently_played().iter().map(|g| g.slug.as_str()).collect();
    // A leap second's nanoseconds (D) come after the ordinary ones of the same second.
    assert_eq!(slugs, vec!["d", "b", "a", "c"]);
}

#[test]
fn export_and_import() {
    let exported = vec![make_game("Game One"), make_game("Game Two")];

    let mut target = GameLibrary::new();
    target.add(make_game("Game One")).unwrap();
    let count = import_library(&mut target, exported);

    assert_eq!(count, 1);
    assert_eq!(target.games.len(), 2);
}

#[test]
fn library_sharing_workflow() {
    let shared = vec![make_game("Game Alpha"), make_game("Game Beta"), make_game("Game Gamma")];

    let mut user_b = GameLibrary::new();
    user_b.add(make_game("Game Alpha")).unwrap();
    user_b.add(make_game("Game Delta")).unwrap();

    let imported = import_library(&mut user_b, shared);

    assert_eq!(imported, 2);
    assert_eq!(user_b.games.len(), 4);
    assert!(user_b.find("game-alpha").is_some());
    assert!(user_b.find("game-beta").is_some());
    assert!(user_b.find("game-gamma").is_some());
    assert!(user_b.find("game-delta").is_some());
}

#[test]
fn import_skips_duplicates_within_the_import() {
    let mut lib = GameLibrary::new();
    let n = import_library(&mut lib, vec![make_game("X"), make_game("X"), make_game("Y")]);
    assert_eq!(n, 2);
    assert_eq!(lib.games.len(), 2);
}

#[test]
fn install_types_by_command_line_name() {
    assert_eq!(parse_install_type("installer"), Some(InstallType::Installer));
    assert_eq!(parse_install_type("portable"), Some(InstallType::Portable));
    assert_eq!(parse_install_type("folder"), Some(InstallType::FolderInstall));
    assert_eq!(parse_install_type("Folder"), None);
    assert_eq!(parse_install_type(""), None);
}

#[test]
fn icon_keeps_extension_or_uses_png() {
    assert_eq!(icon_path("/data/icons", "my-game", "/tmp/cover.jpg"), "/data/icons/my-game.jpg");
    assert_eq!(icon_path("/data/icons", "my-game", "/tmp/cover"), "/data/icons/my-game.png");
    assert_eq!(icon_path("/data/icons/", "x", "a.b.webp"), "/data/icons/x.webp");
}

#[test]
fn add_input_checked_in_order() {
    assert_eq!(check_add_input("  ", "", "bogus"), Err("Error: Game name cannot be empty.".to_string()));
    assert_eq!(
        check_add_input("Hades", " ", "bogus"),
        Err("Error: Game executable path cannot be empty.".to_string())
    );
    assert_eq!(
        check_add_input("Hades", "hades.exe", "bogus"),
        Err("Unknown install type 'bogus'. Use: installer, portable, or folder".to_string())
    );
    assert_eq!(check_add_input("Hades", "hades.exe", "folder"), Ok(InstallType::FolderInstall));
}

#[test]
fn slug_free_check() {
    let mut lib = GameLibrary::new();
    assert_eq!(lib.check_slug_free("test-game"), Ok(()));
    lib.add(make_game("Test Game")).unwrap();
    assert_eq!(
        lib.check_slug_free("test-game"),
        Err("A game with slug 'test-game' already exists.".to_string())
    );
}
