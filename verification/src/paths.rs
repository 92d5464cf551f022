//! Where the application keeps its data.
use vstd::prelude::*;

use crate::error::{Error, Result};
use crate::path::{join, spec_join};
use crate::text::copy_str;

verus! {

/// The name of the application's directory inside the user's data directory.
pub open spec fn app_name() -> Seq<char> {
    "OpenGameCore"@
}

/// The application's directory, for a given user data directory.
pub open spec fn app_dir(root: Seq<char>) -> Seq<char> {
    spec_join(root, app_name())
}

/// The error given when the user's data directory cannot be found.
pub open spec fn is_no_data_dir(e: Error) -> bool {
    e matches Error::Config(m) && m@ == "Could not resolve data directory"@
}

/// Whether `r` is `Ok(p)` with `p` the application's directory joined with
/// `rel` for some user data directory, or the error for a missing one.
pub open spec fn resolves_to(r: Result<String>, rel: spec_fn(Seq<char>) -> Seq<char>) -> bool {
    match r {
        Ok(p) => exists|root: Seq<char>| p@ == rel(app_dir(root)),
        Err(e) => is_no_data_dir(e),
    }
}

/// The files and directories inside the application's directory `d`.
pub open spec fn spec_config_path(d: Seq<char>) -> Seq<char> {
    spec_join(d, "config.toml"@)
}

pub open spec fn spec_games_path(d: Seq<char>) -> Seq<char> {
    spec_join(d, "games.toml"@)
}

pub open spec fn spec_bottles_dir(d: Seq<char>) -> Seq<char> {
    spec_join(d, "bottles"@)
}

pub open spec fn spec_bottle_dir(d: Seq<char>, slug: Seq<char>) -> Seq<char> {
    spec_join(spec_bottles_dir(d), slug)
}

pub open spec fn spec_template_bottle_dir(d: Seq<char>) -> Seq<char> {
    spec_join(spec_bottles_dir(d), "_template"@)
}

pub open spec fn spec_wine_dir(d: Seq<char>) -> Seq<char> {
    spec_join(d, "wine"@)
}

pub open spec fn spec_icons_dir(d: Seq<char>) -> Seq<char> {
    spec_join(d, "icons"@)
}

pub open spec fn spec_logs_dir(d: Seq<char>) -> Seq<char> {
    spec_join(d, "logs"@)
}

/// A path built from the application's directory of some user directory
/// is one of the application's paths.
proof fn lemma_under(d: Seq<char>, p: Seq<char>, f: spec_fn(Seq<char>) -> Seq<char>)
    requires
        exists|root: Seq<char>| d == (|x: Seq<char>| x)(app_dir(root)),
        p == f(d),
    ensures
        exists|root: Seq<char>| p == f(app_dir(root)),
{
    let root = choose|root: Seq<char>| d == (|x: Seq<char>| x)(app_dir(root));
    assert(p == f(app_dir(root)));
}

/// The user's data directory (`dirs::data_dir`), as a string (converted
/// lossily where it is not UTF-8). It depends on the platform and the
/// environment (`$HOME`, `$XDG_DATA_HOME`), so nothing is stated of it.
#[verifier::external_body]
fn user_data_dir() -> (r: Option<String>) {
    match dirs::data_dir() {
        Some(d) => Some(d.to_string_lossy().into_owned()),
        None => None,
    }
}

/// The application's directory for the user data directory `user_dir`:
/// `OpenGameCore` inside it; the "no data directory" error without one.
pub fn app_data_dir(user_dir: Option<String>) -> (r: Result<String>)
    ensures
        match user_dir {
            Some(d) => r matches Ok(p) && p@ == app_dir(d@),
            None => r matches Err(e) && is_no_data_dir(e),
        },
{
    match user_dir {
        Some(root) => Ok(join(root.as_str(), "OpenGameCore")),
        None => Err(Error::Config(copy_str("Could not resolve data directory"))),
    }
}

/// Returns the application's data directory: `OpenGameCore` inside the
/// user's data directory (`~/Library/Application Support/` on macOS).
pub fn data_dir() -> (r: Result<String>)
    ensures
        resolves_to(r, |d: Seq<char>| d),
{
    let u = user_data_dir();
    let ghost gu = u;
    let r = app_data_dir(u);
    proof {
        if gu is Some {
            assert((|d: Seq<char>| d)(app_dir(gu->0@)) == r->Ok_0@);
        }
    }
    r
}

/// `config.toml` in the application's directory `data_dir`.
pub fn config_path_in(data_dir: &str) -> (r: String)
    ensures
        r@ == spec_config_path(data_dir@),
{
    join(data_dir, "config.toml")
}

/// `games.toml` in the application's directory `data_dir`.
pub fn games_path_in(data_dir: &str) -> (r: String)
    ensures
        r@ == spec_games_path(data_dir@),
{
    join(data_dir, "games.toml")
}

/// `bottles/` in the application's directory `data_dir`.
pub fn bottles_dir_in(data_dir: &str) -> (r: String)
    ensures
        r@ == spec_bottles_dir(data_dir@),
{
    join(data_dir, "bottles")
}

/// The bottle of the game with slug `slug`, in the application's directory
/// `data_dir`.
pub fn bottle_dir_in(data_dir: &str, slug: &str) -> (r: String)
    ensures
        r@ == spec_bottle_dir(data_dir@, slug@),
{
    let b = bottles_dir_in(data_dir);
    join(b.as_str(), slug)
}

/// The template bottle, in the application's directory `data_dir`.
pub fn template_bottle_dir_in(data_dir: &str) -> (r: String)
    ensures
        r@ == spec_template_bottle_dir(data_dir@),
{
    bottle_dir_in(data_dir, "_template")
}

/// `wine/` in the application's directory `data_dir`.
pub fn wine_dir_in(data_dir: &str) -> (r: String)
    ensures
        r@ == spec_wine_dir(data_dir@),
{
    join(data_dir, "wine")
}

/// `icons/` in the application's directory `data_dir`.
pub fn icons_dir_in(data_dir: &str) -> (r: String)
    ensures
        r@ == spec_icons_dir(data_dir@),
{
    join(data_dir, "icons")
}

/// `logs/` in the application's directory `data_dir`.
pub fn logs_dir_in(data_dir: &str) -> (r: String)
    ensures
        r@ == spec_logs_dir(data_dir@),
{
    join(data_dir, "logs")
}

/// Every directory and file of the application, for one reading of the
/// user's data directory.
#[derive(Debug, Clone)]
pub struct AppPaths {
    pub data_dir: String,
    pub config_path: String,
    pub games_path: String,
    pub bottles_dir: String,
    pub template_bottle_dir: String,
    pub wine_dir: String,
    pub icons_dir: String,
    pub logs_dir: String,
}

impl AppPaths {
    /// Whether the paths are those of the application's directory `d`.
    pub open spec fn are_of(&self, d: Seq<char>) -> bool {
        &&& self.data_dir@ == d
        &&& self.config_path@ == spec_config_path(d)
        &&& self.games_path@ == spec_games_path(d)
        &&& self.bottles_dir@ == spec_bottles_dir(d)
        &&& self.template_bottle_dir@ == spec_template_bottle_dir(d)
        &&& self.wine_dir@ == spec_wine_dir(d)
        &&& self.icons_dir@ == spec_icons_dir(d)
        &&& self.logs_dir@ == spec_logs_dir(d)
    }

    /// The paths inside the application's directory `data_dir`.
    pub fn of(data_dir: &str) -> (r: AppPaths)
        ensures
            r.are_of(data_dir@),
    {
        AppPaths {
            data_dir: copy_str(data_dir),
            config_path: config_path_in(data_dir),
            games_path: games_path_in(data_dir),
            bottles_dir: bottles_dir_in(data_dir),
            template_bottle_dir: template_bottle_dir_in(data_dir),
            wine_dir: wine_dir_in(data_dir),
            icons_dir: icons_dir_in(data_dir),
            logs_dir: logs_dir_in(data_dir),
        }
    }
}

/// The application's paths for the user data directory `user_dir`: those
/// of `OpenGameCore` inside it; the "no data directory" error without one.
pub fn app_paths_for(user_dir: Option<String>) -> (r: Result<AppPaths>)
    ensures
        match user_dir {
            Some(d) => r matches Ok(p) && p.are_of(app_dir(d@)),
            None => r matches Err(e) && is_no_data_dir(e),
        },
{
    match app_data_dir(user_dir) {
        Ok(d) => Ok(AppPaths::of(d.as_str())),
        Err(e) => Err(e),
    }
}

/// The application's paths, all from one reading of the user's data
/// directory: they agree with each other whatever that directory is.
pub fn app_paths() -> (r: Result<AppPaths>)
    ensures
        match r {
            Ok(p) => exists|root: Seq<char>| p.are_of(#[trigger] app_dir(root)),
            Err(e) => is_no_data_dir(e),
        },
{
    app_paths_for(user_data_dir())
}

pub fn config_path() -> (r: Result<String>)
    ensures
        resolves_to(r, |d: Seq<char>| spec_config_path(d)),
{
    match data_dir() {
        Ok(d) => {
            let p = config_path_in(d.as_str());
            proof {
                lemma_under(d@, p@, |d: Seq<char>| spec_config_path(d));
            }
            Ok(p)
        },
        Err(e) => Err(e),
    }
}

pub fn games_path() -> (r: Result<String>)
    ensures
        resolves_to(r, |d: Seq<char>| spec_games_path(d)),
{
    match data_dir() {
        Ok(d) => {
            let p = games_path_in(d.as_str());
            proof {
                lemma_under(d@, p@, |d: Seq<char>| spec_games_path(d));
            }
            Ok(p)
        },
        Err(e) => Err(e),
    }
}

pub fn bottles_dir() -> (r: Result<String>)
    ensures
        resolves_to(r, |d: Seq<char>| spec_bottles_dir(d)),
{
    match data_dir() {
        Ok(d) => {
            let p = bottles_dir_in(d.as_str());
            proof {
                lemma_under(d@, p@, |d: Seq<char>| spec_bottles_dir(d));
            }
            Ok(p)
        },
        Err(e) => Err(e),
    }
}

pub fn template_bottle_dir() -> (r: Result<String>)
    ensures
        resolves_to(r, |d: Seq<char>| spec_template_bottle_dir(d)),
{
    match data_dir() {
        Ok(d) => {
            let p = template_bottle_dir_in(d.as_str());
            proof {
                lemma_under(d@, p@, |d: Seq<char>| spec_template_bottle_dir(d));
            }
            Ok(p)
        },
        Err(e) => Err(e),
    }
}

/// The bottle of the game with slug `slug`.
pub fn bottle_dir(slug: &str) -> (r: Result<String>)
    ensures
        resolves_to(r, |d: Seq<char>| spec_bottle_dir(d, slug@)),
{
    match data_dir() {
        Ok(d) => {
            let p = bottle_dir_in(d.as_str(), slug);
            proof {
                lemma_under(d@, p@, |d: Seq<char>| spec_bottle_dir(d, slug@));
            }
            Ok(p)
        },
        Err(e) => Err(e),
    }
}

pub fn wine_dir() -> (r: Result<String>)
    ensures
        resolves_to(r, |d: Seq<char>| spec_wine_dir(d)),
{
    match data_dir() {
        Ok(d) => {
            let p = wine_dir_in(d.as_str());
            proof {
                lemma_under(d@, p@, |d: Seq<char>| spec_wine_dir(d));
            }
            Ok(p)
        },
        Err(e) => Err(e),
    }
}

pub fn icons_dir() -> (r: Result<String>)
    ensures
        resolves_to(r, |d: Seq<char>| spec_icons_dir(d)),
{
    match data_dir() {
        Ok(d) => {
            let p = icons_dir_in(d.as_str());
            proof {
                lemma_under(d@, p@, |d: Seq<char>| spec_icons_dir(d));
            }
            Ok(p)
        },
        Err(e) => Err(e),
    }
}

pub fn logs_dir() -> (r: Result<String>)
    ensures
        resolves_to(r, |d: Seq<char>| spec_logs_dir(d)),
{
    match data_dir() {
        Ok(d) => {
            let p = logs_dir_in(d.as_str());
            proof {
                lemma_under(d@, p@, |d: Seq<char>| spec_logs_dir(d));
            }
            Ok(p)
        },
        Err(e) => Err(e),
    }
}

/// The template bottle is the bottle named `_template`: both are in the
/// bottles directory of the same application directory.
pub proof fn law_template_is_bottle_named_template(d: Seq<char>)
    ensures
        spec_template_bottle_dir(d) == spec_bottle_dir(d, "_template"@),
        spec_bottle_dir(d, "_template"@) == spec_join(spec_join(d, "bottles"@), "_template"@),
{
}

} // verus!
