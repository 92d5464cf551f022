//! Application settings and Wine installations.
use vstd::prelude::*;

use crate::string_map::StringMap;
use crate::text::{chars_blank, chars_of, lemma_blank_iff_trim_empty, trim};

verus! {

/// Application configuration (`config.toml`).
#[derive(Debug, Clone)]
pub struct AppConfig {
    pub wine: WineSettings,
    pub app: AppSettings,
}

/// Wine-related settings.
#[derive(Debug, Clone)]
pub struct WineSettings {
    pub default: String,
    pub download_urls: Vec<String>,
    pub dxvk_download_url: String,
    pub gptk_info_url: String,
}

/// General application settings.
#[derive(Debug, Clone)]
pub struct AppSettings {
    pub first_run_complete: bool,
    pub auto_update_database: bool,
    pub database_url: String,
    pub bundles_url: String,
}

/// A Wine installation that games can run with.
#[derive(Debug, Clone)]
pub struct WineConfig {
    pub name: String,
    pub binary_path: String,
    pub env_overrides: StringMap,
}

pub open spec fn spec_default_dxvk_url() -> Seq<char> {
    "https://github.com/doitsujin/dxvk/releases/download/v2.5.3/dxvk-2.5.3.tar.gz"@
}

pub open spec fn spec_default_gptk_info_url() -> Seq<char> {
    "https://developer.apple.com/games/game-porting-toolkit/"@
}

pub open spec fn spec_default_database_url() -> Seq<char> {
    "https://raw.githubusercontent.com/user/opengamecore/main/data/compatibility.json"@
}

pub open spec fn spec_default_bundles_url() -> Seq<char> {
    "https://raw.githubusercontent.com/user/opengamecore/main/data/bundles/"@
}

pub open spec fn spec_default_wine_download_url() -> Seq<char> {
    "https://github.com/Gcenx/macOS_Wine_builds/releases/download/11.5/wine-devel-11.5-osx64.tar.xz"@
}

/// Where DXVK is downloaded from unless configured otherwise.
pub fn default_dxvk_url() -> (r: String)
    ensures
        r@ == spec_default_dxvk_url(),
{
    String::from_str("https://github.com/doitsujin/dxvk/releases/download/v2.5.3/dxvk-2.5.3.tar.gz")
}

/// Where to read about the Game Porting Toolkit unless configured otherwise.
pub fn default_gptk_info_url() -> (r: String)
    ensures
        r@ == spec_default_gptk_info_url(),
{
    String::from_str("https://developer.apple.com/games/game-porting-toolkit/")
}

/// Whether the compatibility database is updated automatically by default.
pub fn default_auto_update() -> (r: bool)
    ensures
        r,
{
    true
}

/// Where the compatibility database is fetched from unless configured otherwise.
pub fn default_database_url() -> (r: String)
    ensures
        r@ == spec_default_database_url(),
{
    String::from_str(
        "https://raw.githubusercontent.com/user/opengamecore/main/data/compatibility.json",
    )
}

/// Where bundles are fetched from unless configured otherwise.
pub fn default_bundles_url() -> (r: String)
    ensures
        r@ == spec_default_bundles_url(),
{
    String::from_str("https://raw.githubusercontent.com/user/opengamecore/main/data/bundles/")
}

impl WineSettings {
    /// The settings of a fresh installation, as a value of the spec.
    pub open spec fn is_default(&self) -> bool {
        &&& self.default@ == Seq::<char>::empty()
        &&& self.download_urls@.len() == 1
        &&& self.download_urls@[0]@ == spec_default_wine_download_url()
        &&& self.dxvk_download_url@ == spec_default_dxvk_url()
        &&& self.gptk_info_url@ == spec_default_gptk_info_url()
    }
}

impl AppSettings {
    pub open spec fn is_default(&self) -> bool {
        &&& !self.first_run_complete
        &&& self.auto_update_database
        &&& self.database_url@ == spec_default_database_url()
        &&& self.bundles_url@ == spec_default_bundles_url()
    }
}

impl AppConfig {
    pub open spec fn is_default(&self) -> bool {
        self.wine.is_default() && self.app.is_default()
    }
}

impl Default for WineSettings {
    fn default() -> (r: Self)
        ensures
            r.is_default(),
    {
        let mut urls: Vec<String> = Vec::new();
        urls.push(
            String::from_str(
                "https://github.com/Gcenx/macOS_Wine_builds/releases/download/11.5/wine-devel-11.5-osx64.tar.xz",
            ),
        );
        WineSettings {
            default: String::new(),
            download_urls: urls,
            dxvk_download_url: default_dxvk_url(),
            gptk_info_url: default_gptk_info_url(),
        }
    }
}

impl Default for AppSettings {
    fn default() -> (r: Self)
        ensures
            r.is_default(),
    {
        AppSettings {
            first_run_complete: false,
            auto_update_database: default_auto_update(),
            database_url: default_database_url(),
            bundles_url: default_bundles_url(),
        }
    }
}

impl Default for AppConfig {
    fn default() -> (r: Self)
        ensures
            r.is_default(),
    {
        AppConfig { wine: WineSettings::default(), app: AppSettings::default() }
    }
}

/// Whether a settings file holds nothing but white space; such a file is
/// read as the default settings.
pub fn is_blank_text(content: &str) -> (r: bool)
    ensures
        r == (trim(content@).len() == 0),
{
    let v = chars_of(content);
    proof {
        lemma_blank_iff_trim_empty(content@);
    }
    chars_blank(v.as_slice())
}

} // verus!
