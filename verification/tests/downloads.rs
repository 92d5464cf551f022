use opengamecore::data_update::{is_stale, needs_update};
use opengamecore::download::{archive_name, new_directory};

#[test]
fn archive_name_is_last_url_segment() {
    assert_eq!(
        archive_name("https://github.com/doitsujin/dxvk/releases/download/v2.5.3/dxvk-2.5.3.tar.gz"),
        "dxvk-2.5.3.tar.gz"
    );
    assert_eq!(archive_name("wine.tar.xz"), "wine.tar.xz");
    assert_eq!(archive_name("https://example.com/dir/"), "");
    assert_eq!(archive_name(""), "");
}

#[test]
fn new_directory_is_first_unlisted() {
    let before = vec!["/w/dxvk/old".to_string(), "/w/dxvk/other".to_string()];
    let after = vec![
        "/w/dxvk/old".to_string(),
        "/w/dxvk/dxvk-2.5.3".to_string(),
        "/w/dxvk/second".to_string(),
    ];
    assert_eq!(new_directory(&before, &after).as_deref(), Some("/w/dxvk/dxvk-2.5.3"));
    assert_eq!(new_directory(&before, &before), None);
    assert_eq!(new_directory(&Vec::new(), &Vec::new()), None);
}

#[test]
fn stale_when_missing() {
    // A missing file has no age.
    assert!(is_stale(None));
}

#[test]
fn not_stale_when_fresh() {
    // A file written a moment ago.
    assert!(!is_stale(Some(0)));
}

#[test]
fn stale_when_older_than_a_day() {
    assert!(!is_stale(Some(0)));
    assert!(!is_stale(Some(86_400)));
    assert!(is_stale(Some(86_401)));
}

#[test]
fn update_only_when_enabled_and_stale() {
    assert!(needs_update(true, None));
    assert!(!needs_update(false, None));
    assert!(!needs_update(true, Some(60)));
    assert!(needs_update(true, Some(100_000)));
}
