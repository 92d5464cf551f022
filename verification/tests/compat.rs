use opengamecore::compat::{CompatDatabase, CompatEntry, CompatRating};
use opengamecore::string_map::StringMap;

fn entry(name: &str, slug: &str, rating: CompatRating, steam: Option<u64>, gog: Option<&str>) -> CompatEntry {
    CompatEntry {
        name: name.into(),
        slug: slug.into(),
        rating,
        confidence_bits: 0.9f64.to_bits(),
        sources: StringMap::new(),
        recommended_backend: "wine".into(),
        bundle_available: true,
        steam_appid: steam,
        gog_id: gog.map(|g| g.to_string()),
        tags: vec![],
        last_updated: "2026-01-01".into(),
    }
}

/// A database with the games of the shipped compatibility file.
fn sample_db() -> CompatDatabase {
    CompatDatabase {
        version: 1,
        last_updated: "2026-03-28".into(),
        games: vec![
            entry("Cyberpunk 2077", "cyberpunk-2077", CompatRating::Gold, Some(1091500), Some("cyberpunk_2077")),
            entry("The Witcher 3: Wild Hunt", "the-witcher-3-wild-hunt", CompatRating::Platinum, Some(292030), None),
            entry("Elden Ring", "elden-ring", CompatRating::Silver, Some(1245620), None),
            entry("Stardew Valley", "stardew-valley", CompatRating::Platinum, Some(413150), Some("stardew_valley")),
            entry("Hades", "hades", CompatRating::Platinum, Some(1145360), None),
        ],
    }
}

#[test]
fn find_by_slug() {
    let db = sample_db();
    let entry = db.find_by_slug("cyberpunk-2077").unwrap();
    assert_eq!(entry.name, "Cyberpunk 2077");
    assert_eq!(entry.rating, CompatRating::Gold);
}

#[test]
fn find_by_steam_appid() {
    let db = sample_db();
    let entry = db.find_by_steam_appid(1091500).unwrap();
    assert_eq!(entry.slug, "cyberpunk-2077");
    assert!(db.find_by_steam_appid(9999999).is_none());
}

#[test]
fn find_by_gog_id_matches_exactly() {
    let db = sample_db();
    assert_eq!(db.find_by_gog_id("stardew_valley").unwrap().slug, "stardew-valley");
    assert!(db.find_by_gog_id("Stardew_Valley").is_none());
}

#[test]
fn search_games() {
    let db = sample_db();
    let results = db.search("witcher");
    assert_eq!(results.len(), 1);
    assert_eq!(results[0].slug, "the-witcher-3-wild-hunt");

    let results = db.search("ELDEN");
    assert_eq!(results.len(), 1);
}

#[test]
fn search_matches_slug_and_keeps_order() {
    let db = sample_db();
    let results = db.search("-");
    let slugs: Vec<&str> = results.iter().map(|e| e.slug.as_str()).collect();
    assert_eq!(slugs, vec!["cyberpunk-2077", "the-witcher-3-wild-hunt", "elden-ring", "stardew-valley"]);
    assert_eq!(db.search("").len(), 5);
    assert!(db.search("zelda").is_empty());
}

#[test]
fn filter_by_rating() {
    let db = sample_db();
    let platinum = db.filter_by_rating(&CompatRating::Platinum);
    assert!(platinum.len() >= 2);
    for entry in &platinum {
        assert_eq!(entry.rating, CompatRating::Platinum);
    }
    assert!(db.filter_by_rating(&CompatRating::Borked).is_empty());
}

#[test]
fn rating_playable() {
    assert!(CompatRating::Platinum.is_playable());
    assert!(CompatRating::Gold.is_playable());
    assert!(CompatRating::Silver.is_playable());
    assert!(!CompatRating::Bronze.is_playable());
    assert!(!CompatRating::Borked.is_playable());

    assert_eq!(CompatRating::Platinum.label(), "Platinum");
    assert_eq!(CompatRating::Borked.label(), "Borked");
}

#[test]
fn every_rating_has_its_label() {
    assert_eq!(CompatRating::Gold.label(), "Gold");
    assert_eq!(CompatRating::Silver.label(), "Silver");
    assert_eq!(CompatRating::Bronze.label(), "Bronze");
}

#[test]
fn search_ignores_ascii_case() {
    let db = sample_db();
    let upper: Vec<String> = db.search("ELDEN").iter().map(|e| e.slug.clone()).collect();
    let lower: Vec<String> = db.search("elden").iter().map(|e| e.slug.clone()).collect();
    assert_eq!(upper, lower);
    assert_eq!(lower, vec!["elden-ring"]);
}
