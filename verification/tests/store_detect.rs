use opengamecore::compat::{CompatDatabase, CompatEntry, CompatRating};
use opengamecore::store_detect::{
    detect_gog_games, detect_steam_games, is_app_manifest, parse_acf, parse_u64, GameStore,
    GogFolder, SteamFile,
};
use opengamecore::string_map::StringMap;

fn mock_compat_db() -> CompatDatabase {
    CompatDatabase {
        version: 1,
        last_updated: "2026-01-01".into(),
        games: vec![
            CompatEntry {
                name: "Cyberpunk 2077".into(),
                slug: "cyberpunk-2077".into(),
                rating: CompatRating::Gold,
                confidence_bits: 0.85f64.to_bits(),
                sources: StringMap::new(),
                recommended_backend: "gptk".into(),
                bundle_available: true,
                steam_appid: Some(1091500),
                gog_id: Some("cyberpunk_2077".into()),
                tags: vec![],
                last_updated: "2026-01-01".into(),
            },
            CompatEntry {
                name: "Stardew Valley".into(),
                slug: "stardew-valley".into(),
                rating: CompatRating::Platinum,
                confidence_bits: 0.98f64.to_bits(),
                sources: StringMap::new(),
                recommended_backend: "wine".into(),
                bundle_available: true,
                steam_appid: Some(413150),
                gog_id: Some("stardew_valley".into()),
                tags: vec![],
                last_updated: "2026-01-01".into(),
            },
        ],
    }
}

#[test]
fn parse_acf_basic() {
    let content = r#"
"AppState"
{
	"appid"		"1091500"
	"Universe"		"1"
	"name"		"Cyberpunk 2077"
	"StateFlags"		"4"
	"installdir"		"Cyberpunk 2077"
}
"#;
    let (appid, name, installdir) = parse_acf(content).unwrap();
    assert_eq!(appid, 1091500);
    assert_eq!(name, "Cyberpunk 2077");
    assert_eq!(installdir, "Cyberpunk 2077");
}

#[test]
fn parse_acf_missing_fields() {
    let content = r#"
"AppState"
{
	"appid"		"1234"
}
"#;
    assert!(parse_acf(content).is_none());
}

#[test]
fn parse_acf_keys_ignore_case_and_last_wins() {
    let content = "\"AppID\" \"7\"\r\n\"NAME\" \"First\"\n\"name\" \"Second\"\n\"InstallDir\" \"dir\"";
    let (appid, name, installdir) = parse_acf(content).unwrap();
    assert_eq!(appid, 7);
    assert_eq!(name, "Second");
    assert_eq!(installdir, "dir");
}

#[test]
fn parse_acf_bad_appid() {
    let content = "\"appid\" \"12x\"\n\"name\" \"N\"\n\"installdir\" \"D\"";
    assert!(parse_acf(content).is_none());
    let content = "\"appid\" \"1\"\n\"appid\" \"-1\"\n\"name\" \"N\"\n\"installdir\" \"D\"";
    assert!(parse_acf(content).is_none());
}

#[test]
fn parse_u64_like_std() {
    for s in ["0", "+5", "18446744073709551615", "18446744073709551616", "", "+", "-1", "1 ", "007", "１"] {
        let chars: Vec<char> = s.chars().collect();
        assert_eq!(parse_u64(&chars), s.parse::<u64>().ok(), "{:?}", s);
    }
}

#[test]
fn manifest_names() {
    assert!(is_app_manifest("appmanifest_1091500.acf"));
    assert!(!is_app_manifest("appmanifest_1091500.acf.bak"));
    assert!(!is_app_manifest("libraryfolders.vdf"));
}

#[test]
fn detect_steam_with_mock() {
    let acf = r#"
"AppState"
{
	"appid"		"1091500"
	"name"		"Cyberpunk 2077"
	"installdir"		"Cyberpunk 2077"
}
"#;
    let files = vec![
        SteamFile { file_name: "common".into(), content: None },
        SteamFile { file_name: "appmanifest_1091500.acf".into(), content: Some(acf.into()) },
    ];
    let db = mock_compat_db();
    let games = detect_steam_games("/steam/steamapps", &files, &db);

    assert_eq!(games.len(), 1);
    assert_eq!(games[0].name, "Cyberpunk 2077");
    assert_eq!(games[0].store, GameStore::Steam);
    assert_eq!(games[0].rating, Some(CompatRating::Gold));
    assert!(games[0].bundle_available);
    assert_eq!(games[0].install_path, "/steam/steamapps/common/Cyberpunk 2077");
    assert!(games[0].exe_path.is_none());
}

#[test]
fn detect_steam_unknown_game_has_no_rating() {
    let acf = "\"appid\" \"42\"\n\"name\" \"Other\"\n\"installdir\" \"Other\"";
    let files = vec![SteamFile { file_name: "appmanifest_42.acf".into(), content: Some(acf.into()) }];
    let games = detect_steam_games("/s", &files, &mock_compat_db());
    assert_eq!(games.len(), 1);
    assert_eq!(games[0].rating, None);
    assert!(!games[0].bundle_available);
}

#[test]
fn detect_gog_with_mock() {
    let folders = vec![GogFolder { path: "/t/GOG Games/Stardew Valley".into(), name: "Stardew Valley".into() }];
    let db = mock_compat_db();
    let games = detect_gog_games(&folders, &db);

    assert_eq!(games.len(), 1);
    assert_eq!(games[0].name, "Stardew Valley");
    assert_eq!(games[0].store, GameStore::Gog);
    assert_eq!(games[0].rating, Some(CompatRating::Platinum));
    assert!(games[0].bundle_available);
    assert!(games[0].exe_path.is_none());
}

#[test]
fn detect_gog_by_gog_id() {
    let mut db = mock_compat_db();
    db.games[0].slug = "cp2077".into();
    let folders = vec![GogFolder { path: "/g/Cyberpunk 2077".into(), name: "Cyberpunk 2077".into() }];
    let games = detect_gog_games(&folders, &db);
    assert_eq!(games[0].rating, Some(CompatRating::Gold));
}

#[test]
fn detect_empty_dirs() {
    let db = mock_compat_db();
    let steam = detect_steam_games("/nonexistent", &[], &db);
    assert!(steam.is_empty());
    let gog = detect_gog_games(&[], &db);
    assert!(gog.is_empty());
}
