use opengamecore::config::{
    default_auto_update, default_bundles_url, default_database_url, default_dxvk_url,
    default_gptk_info_url, is_blank_text, AppConfig,
};

#[test]
fn default_config_has_download_url() {
    let config = AppConfig::default();
    assert!(!config.wine.download_urls.is_empty());
    assert!(!config.app.first_run_complete);
}

#[test]
fn default_config_values() {
    let config = AppConfig::default();
    assert_eq!(config.wine.default, "");
    assert_eq!(
        config.wine.download_urls,
        vec!["https://github.com/Gcenx/macOS_Wine_builds/releases/download/11.5/wine-devel-11.5-osx64.tar.xz".to_string()]
    );
    assert_eq!(config.wine.dxvk_download_url, default_dxvk_url());
    assert_eq!(config.wine.gptk_info_url, default_gptk_info_url());
    assert!(config.app.auto_update_database);
    assert_eq!(config.app.database_url, default_database_url());
    assert_eq!(config.app.bundles_url, default_bundles_url());
}

#[test]
fn default_urls() {
    assert_eq!(
        default_dxvk_url(),
        "https://github.com/doitsujin/dxvk/releases/download/v2.5.3/dxvk-2.5.3.tar.gz"
    );
    assert_eq!(default_gptk_info_url(), "https://developer.apple.com/games/game-porting-toolkit/");
    assert!(default_auto_update());
    assert_eq!(
        default_database_url(),
        "https://raw.githubusercontent.com/user/opengamecore/main/data/compatibility.json"
    );
    assert_eq!(
        default_bundles_url(),
        "https://raw.githubusercontent.com/user/opengamecore/main/data/bundles/"
    );
}

#[test]
fn blank_settings_text() {
    assert!(is_blank_text(""));
    assert!(is_blank_text(" \n\t \r\n"));
    assert!(is_blank_text("\u{3000}\u{a0}"));
    assert!(!is_blank_text("  [wine]\n"));
}
