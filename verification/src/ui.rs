//! The launcher window's state, and what its events decide. The window
//! itself (widgets, file dialogs, background tasks) lives outside the
//! library; it hands these functions what the user chose and what was found
//! on disk, and shows what they return.
use vstd::prelude::*;

use crate::compat::{matches_query, CompatDatabase, CompatEntry, CompatRating};
use crate::bundle::{bundle_has_slug, bundle_matches, exe_names, match_bundle_for_folder, same_bundle, BundleConfig, BundleSet};
use crate::config::{is_blank_text, AppConfig, WineConfig};
use crate::library::{has_slug, slug_taken, slugify, spec_slugify, Game, GameLibrary, InstallType, Timestamp};
use crate::path::{file_name, file_stem, spec_file_name, spec_file_stem};
use crate::seq_util::{first_index, keep, lemma_first_index, lemma_keep_take};
use crate::store_detect::DetectedGame;
use crate::string_map::StringMap;
use crate::wine::{holds_string, string_set};
use crate::text::{str_eq, chars_contains, chars_of, concat, copy_str, spec_to_lowercase, string_of, to_lowercase, trim};

verus! {

/// The screens of the window.
#[derive(Debug, Clone, Copy, PartialEq, Eq, Structural)]
pub enum Screen {
    FirstRun,
    Library,
    Database,
    Bottles,
    Settings,
}

/// The screen shown once the settings are loaded: the first-run screen
/// until the first run is complete, the current screen after that.
pub fn screen_after_load(current: Screen, first_run_complete: bool) -> (r: Screen)
    ensures
        r == (if first_run_complete {
            current
        } else {
            Screen::FirstRun
        }),
{
    if first_run_complete {
        current
    } else {
        Screen::FirstRun
    }
}

/// The ways of adding a game.
#[derive(Debug, Clone, Copy, PartialEq, Eq, Structural)]
pub enum AddGameTab {
    Installer,
    Portable,
    FromFolder,
    AutoDetect,
}

/// What the "add game" dialog holds.
#[derive(Debug, Clone)]
pub struct AddGameState {
    pub tab: AddGameTab,
    pub name: String,
    /// The executable or folder chosen.
    pub path: Option<String>,
    /// The icon image chosen.
    pub icon_path: Option<String>,
    /// The bundle that the chosen folder matched, on the auto-detect tab.
    pub matched_bundle: Option<BundleConfig>,
}

impl Default for AddGameState {
    /// A fresh dialog: the installer tab, with nothing filled in.
    fn default() -> (r: Self)
        ensures
            r.tab == AddGameTab::Installer,
            r.name@ == Seq::<char>::empty(),
            r.path is None,
            r.icon_path is None,
            r.matched_bundle is None,
    {
        AddGameState {
            tab: AddGameTab::Installer,
            name: String::new(),
            path: None,
            icon_path: None,
            matched_bundle: None,
        }
    }
}

/// The install type a tab adds games as.
pub open spec fn spec_tab_install_type(tab: AddGameTab) -> InstallType {
    match tab {
        AddGameTab::Installer => InstallType::Installer,
        AddGameTab::Portable => InstallType::Portable,
        AddGameTab::FromFolder => InstallType::FolderInstall,
        AddGameTab::AutoDetect => InstallType::FolderInstall,
    }
}

/// The install type a tab adds games as: a folder for both folder tabs.
pub fn install_type_for_tab(tab: AddGameTab) -> (r: InstallType)
    ensures
        r == spec_tab_install_type(tab),
{
    match tab {
        AddGameTab::Installer => InstallType::Installer,
        AddGameTab::Portable => InstallType::Portable,
        AddGameTab::FromFolder => InstallType::FolderInstall,
        AddGameTab::AutoDetect => InstallType::FolderInstall,
    }
}

/// The name the dialog proposes once `p` is chosen: the name typed so far,
/// or the file stem of `p` where nothing was typed.
pub open spec fn proposed_name(name: Seq<char>, p: Seq<char>) -> Seq<char> {
    if name.len() == 0 {
        match spec_file_stem(p) {
            Some(stem) => stem,
            None => name,
        }
    } else {
        name
    }
}

/// The first bundle, in set order, that the executables found in a folder
/// match; -1 where none does.
pub open spec fn matched_index(exe_files: Seq<String>, bundles: BundleSet) -> int {
    first_index(bundles.bundles@, bundle_matches(exe_names(exe_files.map_values(|s: String| s@))))
}

/// The messages with which adding a game is refused.
pub open spec fn name_required_message() -> Seq<char> {
    "Game name is required."@
}

pub open spec fn path_required_message() -> Seq<char> {
    "Please select a game executable or folder."@
}

pub open spec fn name_taken_message(name: Seq<char>) -> Seq<char> {
    "A game named '"@ + name + "' already exists."@
}

impl AddGameState {
    /// Switches tabs; the path chosen under the old tab is dropped.
    pub fn select_tab(&mut self, tab: AddGameTab)
        ensures
            final(self).tab == tab,
            final(self).path is None,
            final(self).name == old(self).name,
            final(self).icon_path == old(self).icon_path,
            final(self).matched_bundle == old(self).matched_bundle,
    {
        self.tab = tab;
        self.path = None;
    }

    /// Records the executable or folder the user chose (`None` when the
    /// dialog was cancelled). Where nothing was typed yet, the name becomes
    /// the file stem of the path. On the auto-detect tab the folder is
    /// matched against `bundles`, `exe_files` being the executables found
    /// in it; a matching bundle gives the game its name.
    pub fn path_selected(&mut self, path: Option<String>, exe_files: &[String], bundles: &BundleSet)
        ensures
            final(self).tab == old(self).tab,
            final(self).icon_path == old(self).icon_path,
            final(self).path == path,
            match path {
                None => final(self).name == old(self).name && final(self).matched_bundle == old(
                    self,
                ).matched_bundle,
                Some(p) => {
                    let i = matched_index(exe_files@, *bundles);
                    if old(self).tab == AddGameTab::AutoDetect && i >= 0 {
                        &&& final(self).matched_bundle matches Some(b) && same_bundle(b, bundles.bundles@[i])
                        &&& final(self).name@ == bundles.bundles@[i].game.name@
                    } else if old(self).tab == AddGameTab::AutoDetect {
                        &&& final(self).matched_bundle is None
                        &&& final(self).name@ == proposed_name(old(self).name@, p@)
                    } else {
                        &&& final(self).matched_bundle == old(self).matched_bundle
                        &&& final(self).name@ == proposed_name(old(self).name@, p@)
                    }
                },
            },
    {
        match &path {
            None => {},
            Some(p) => {
                if self.name.as_str().is_empty() {
                    match file_stem(p.as_str()) {
                        Some(stem) => {
                            self.name = stem;
                        },
                        None => {},
                    }
                }
                if self.tab == AddGameTab::AutoDetect {
                    let m = match_bundle_for_folder(exe_files, bundles);
                    match &m {
                        Some(b) => {
                            self.name = copy_str(b.game.name.as_str());
                        },
                        None => {},
                    }
                    self.matched_bundle = m;
                }
            },
        }
        self.path = path;
    }

    /// Checks the dialog before a game is added: the name must not be blank,
    /// a path must be chosen, and no game may have the name's slug yet.
    /// Returns that slug, or the message to show.
    pub fn validate(&self, library: &GameLibrary) -> (r: Result<String, String>)
        ensures
            trim(self.name@).len() == 0 ==> (r matches Err(m) && m@ == name_required_message()),
            trim(self.name@).len() != 0 && self.path is None ==> (r matches Err(m) && m@
                == path_required_message()),
            trim(self.name@).len() != 0 && self.path is Some && slug_taken(
                library.games@,
                spec_slugify(self.name@),
            ) ==> (r matches Err(m) && m@ == name_taken_message(self.name@)),
            trim(self.name@).len() != 0 && self.path is Some && !slug_taken(
                library.games@,
                spec_slugify(self.name@),
            ) ==> (r matches Ok(s) && s@ == spec_slugify(self.name@)),
    {
        if is_blank_text(self.name.as_str()) {
            return Err(copy_str("Game name is required."));
        }
        if self.path.is_none() {
            return Err(copy_str("Please select a game executable or folder."));
        }
        let slug = slugify(self.name.as_str());
        match library.find(slug.as_str()) {
            Some(_) => {
                proof {
                    let k = first_index(library.games@, has_slug(slug@));
                    lemma_first_index(library.games@, has_slug(slug@));
                    assert(library.games@[k].slug@ == slug@);
                }
                let m = concat("A game named '", self.name.as_str());
                Err(concat(m.as_str(), "' already exists."))
            },
            None => Ok(slug),
        }
    }

    /// The game the dialog adds, under `slug`, at time `now`, with the icon
    /// (already copied) at `icon_path`: run with the default Wine
    /// installation, without DXVK, never played yet.
    pub fn into_game(self, slug: String, icon_path: Option<String>, now: Timestamp) -> (r: Game)
        ensures
            r.name == self.name,
            r.slug == slug,
            r.exe@ == match self.path {
                Some(p) => p@,
                None => Seq::<char>::empty(),
            },
            r.install_type == spec_tab_install_type(self.tab),
            r.wine_config@ == "default"@,
            r.env@ == Map::<Seq<char>, Seq<char>>::empty(),
            r.added_at == now,
            r.last_played is None,
            r.icon_path == icon_path,
            !r.dxvk_enabled,
            !r.use_gptk,
    {
        let exe = match self.path {
            Some(p) => p,
            None => String::new(),
        };
        Game {
            name: self.name,
            slug,
            exe,
            install_type: install_type_for_tab(self.tab),
            wine_config: copy_str("default"),
            env: StringMap::new(),
            added_at: now,
            last_played: None,
            icon_path,
            dxvk_enabled: false,
            use_gptk: false,
        }
    }
}

/// The name a Wine binary chosen by hand is listed under: its file name, or
/// `custom` where the path has none.
pub open spec fn custom_wine_name(path: Seq<char>) -> Seq<char> {
    match spec_file_name(path) {
        Some(n) => n,
        None => "custom"@,
    }
}

/// The Wine installation for a binary the user chose by hand: named after
/// the binary, without environment overrides.
pub fn custom_wine_config(path: &str) -> (r: WineConfig)
    ensures
        r.name@ == custom_wine_name(path@),
        r.binary_path@ == path@,
        r.env_overrides@ == Map::<Seq<char>, Seq<char>>::empty(),
{
    let name = match file_name(path) {
        Some(n) => n,
        None => copy_str("custom"),
    };
    WineConfig { name, binary_path: copy_str(path), env_overrides: StringMap::new() }
}

// ---------------------------------------------------------------------------
// What the screens show
// ---------------------------------------------------------------------------

/// Whether the database screen shows an entry: it matches the search (an
/// empty search matches everything) and has the rating filtered for, if
/// any.
pub open spec fn shown_in_database(query: Seq<char>, filter: Option<CompatRating>) -> spec_fn(CompatEntry) -> bool {
    |e: CompatEntry|
        (query.len() == 0 || matches_query(query)(e)) && match filter {
            Some(r) => e.rating == r,
            None => true,
        }
}

/// The entries the database screen lists, in database order.
pub fn database_rows<'a>(db: &'a CompatDatabase, query: &str, filter: Option<CompatRating>) -> (r: Vec<&'a CompatEntry>)
    ensures
        r@.map_values(|e: &CompatEntry| *e) == keep(db.games@, shown_in_database(query@, filter)),
{
    let ghost p = shown_in_database(query@, filter);
    let everything = query.is_empty();
    let ql = to_lowercase(query);
    let qv = chars_of(ql.as_str());
    let mut r: Vec<&CompatEntry> = Vec::new();
    let mut i: usize = 0;
    while i < db.games.len()
        invariant
            i <= db.games@.len(),
            p == shown_in_database(query@, filter),
            everything == (query@.len() == 0),
            qv@ == spec_to_lowercase(query@),
            r@.map_values(|e: &CompatEntry| *e) == keep(db.games@.take(i as int), p),
        decreases db.games@.len() - i,
    {
        proof {
            lemma_keep_take(db.games@, p, i as int);
        }
        let g = &db.games[i];
        let searched = everything || {
            let name_lower = to_lowercase(g.name.as_str());
            let nv = chars_of(name_lower.as_str());
            let sv = chars_of(g.slug.as_str());
            chars_contains(&nv, &qv) || chars_contains(&sv, &qv)
        };
        let rated = match filter {
            Some(f) => g.rating == f,
            None => true,
        };
        let ghost before = r@;
        if searched && rated {
            r.push(g);
            assert(r@.map_values(|e: &CompatEntry| *e) =~= before.map_values(|e: &CompatEntry| *e).push(
                *g,
            ));
        }
        i += 1;
    }
    assert(db.games@.take(db.games@.len() as int) =~= db.games@);
    r
}

/// Whether a detected game is not in the library yet: no game there has
/// the slug of its name.
pub open spec fn not_in_library(games: Seq<Game>) -> spec_fn(DetectedGame) -> bool {
    |d: DetectedGame| !slug_taken(games, spec_slugify(d.name@))
}

/// The detected games the library screen offers, in detection order: those
/// not in the library yet.
pub fn new_detected_games<'a>(library: &GameLibrary, detected: &'a [DetectedGame]) -> (r: Vec<&'a DetectedGame>)
    ensures
        r@.map_values(|d: &DetectedGame| *d) == keep(detected@, not_in_library(library.games@)),
{
    let ghost p = not_in_library(library.games@);
    let mut r: Vec<&DetectedGame> = Vec::new();
    let mut i: usize = 0;
    while i < detected.len()
        invariant
            i <= detected@.len(),
            p == not_in_library(library.games@),
            r@.map_values(|d: &DetectedGame| *d) == keep(detected@.take(i as int), p),
        decreases detected@.len() - i,
    {
        proof {
            lemma_keep_take(detected@, p, i as int);
        }
        let d = &detected[i];
        let slug = slugify(d.name.as_str());
        let ghost before = r@;
        match library.find(slug.as_str()) {
            Some(_) => {
                proof {
                    let k = first_index(library.games@, has_slug(slug@));
                    lemma_first_index(library.games@, has_slug(slug@));
                    assert(library.games@[k].slug@ == slug@);
                }
            },
            None => {
                r.push(d);
                assert(r@.map_values(|x: &DetectedGame| *x) =~= before.map_values(|x: &DetectedGame| *x).push(
                    *d,
                ));
            },
        }
        i += 1;
    }
    assert(detected@.take(detected@.len() as int) =~= detected@);
    r
}

// ---------------------------------------------------------------------------
// Numbers in messages
// ---------------------------------------------------------------------------

pub open spec fn digit_char(d: int) -> char {
    if d == 0 {
        '0'
    } else if d == 1 {
        '1'
    } else if d == 2 {
        '2'
    } else if d == 3 {
        '3'
    } else if d == 4 {
        '4'
    } else if d == 5 {
        '5'
    } else if d == 6 {
        '6'
    } else if d == 7 {
        '7'
    } else if d == 8 {
        '8'
    } else {
        '9'
    }
}

/// A natural number in decimal.
pub open spec fn nat_text(n: nat) -> Seq<char>
    decreases n,
{
    if n < 10 {
        seq![digit_char(n as int)]
    } else {
        nat_text(n / 10).push(digit_char((n % 10) as int))
    }
}

/// An integer in decimal, with `-` before a negative one.
pub open spec fn int_text(i: int) -> Seq<char> {
    if i < 0 {
        seq!['-'] + nat_text((-i) as nat)
    } else {
        nat_text(i as nat)
    }
}

fn digit(d: u64) -> (c: char)
    requires
        d < 10,
    ensures
        c == digit_char(d as int),
{
    if d == 0 {
        '0'
    } else if d == 1 {
        '1'
    } else if d == 2 {
        '2'
    } else if d == 3 {
        '3'
    } else if d == 4 {
        '4'
    } else if d == 5 {
        '5'
    } else if d == 6 {
        '6'
    } else if d == 7 {
        '7'
    } else if d == 8 {
        '8'
    } else {
        '9'
    }
}

fn push_nat_text(out: &mut Vec<char>, n: u64)
    ensures
        final(out)@ == old(out)@ + nat_text(n as nat),
    decreases n,
{
    let ghost start = out@;
    if n >= 10 {
        push_nat_text(out, n / 10);
    }
    out.push(digit(n % 10));
    proof {
        if n >= 10 {
            assert((start + nat_text((n / 10) as nat)).push(digit_char((n % 10) as int)) =~= start
                + nat_text((n / 10) as nat).push(digit_char((n % 10) as int)));
        } else {
            assert(start.push(digit_char(n as int)) =~= start + seq![digit_char(n as int)]);
        }
    }
}

/// An integer in decimal.
pub fn int_to_text(n: i64) -> (r: String)
    ensures
        r@ == int_text(n as int),
{
    let mut out: Vec<char> = Vec::new();
    if n < 0 {
        out.push('-');
        let m: u64 = (-(n + 1)) as u64 + 1;
        push_nat_text(&mut out, m);
        assert(out@ =~= seq!['-'] + nat_text((-n) as nat));
    } else {
        push_nat_text(&mut out, n as u64);
        assert(out@ =~= nat_text(n as nat));
    }
    string_of(out.as_slice())
}

/// The message shown when a game exits with a code other than 0.
pub open spec fn exit_message_text(slug: Seq<char>, code: int) -> Seq<char> {
    "'"@ + slug + "' exited with code "@ + int_text(code) + ". Check logs for details."@
}

/// What the window reports when a game's process ends: a message when it
/// exited with a code other than 0, nothing when it succeeded or was ended
/// by a signal.
pub fn exit_message(slug: &str, exit_code: Option<i32>) -> (r: Option<String>)
    ensures
        match exit_code {
            Some(c) => if c != 0 {
                r matches Some(m) && m@ == exit_message_text(slug@, c as int)
            } else {
                r is None
            },
            None => r is None,
        },
{
    match exit_code {
        Some(c) => if c != 0 {
            let code = int_to_text(c as i64);
            let a = concat("'", slug);
            let b = concat(a.as_str(), "' exited with code ");
            let m = concat(b.as_str(), code.as_str());
            Some(concat(m.as_str(), ". Check logs for details."))
        } else {
            None
        },
        None => None,
    }
}

/// What the window reports after importing games.
pub fn imported_message(count: usize) -> (r: String)
    ensures
        r@ == "Successfully imported "@ + nat_text(count as nat) + " game(s)."@,
{
    let mut out: Vec<char> = Vec::new();
    push_nat_text(&mut out, count as u64);
    let n = string_of(out.as_slice());
    let a = concat("Successfully imported ", n.as_str());
    concat(a.as_str(), " game(s).")
}

// ---------------------------------------------------------------------------
// Changing a game from the library screen
// ---------------------------------------------------------------------------

/// Records that the game with slug `slug` is played at `now`. Returns
/// whether the library has such a game; the first one is changed.
pub fn mark_played(library: &mut GameLibrary, slug: &str, now: Timestamp) -> (r: bool)
    ensures
        r == slug_taken(old(library).games@, slug@),
        r ==> ({
            let i = first_index(old(library).games@, has_slug(slug@));
            final(library).games@ == old(library).games@.update(
                i,
                (Game { last_played: Some(now), ..old(library).games@[i] }),
            )
        }),
        !r ==> final(library).games@ == old(library).games@,
{
    match library.find_mut(slug) {
        Some(g) => {
            proof {
                lemma_first_index(old(library).games@, has_slug(slug@));
            }
            g.last_played = Some(now);
            true
        },
        None => false,
    }
}

/// Turns DXVK on or off for the game with slug `slug`. Returns whether the
/// library has such a game; the first one is changed.
pub fn toggle_dxvk(library: &mut GameLibrary, slug: &str) -> (r: bool)
    ensures
        r == slug_taken(old(library).games@, slug@),
        r ==> ({
            let i = first_index(old(library).games@, has_slug(slug@));
            final(library).games@ == old(library).games@.update(
                i,
                (Game { dxvk_enabled: !old(library).games@[i].dxvk_enabled, ..old(library).games@[i] }),
            )
        }),
        !r ==> final(library).games@ == old(library).games@,
{
    match library.find_mut(slug) {
        Some(g) => {
            proof {
                lemma_first_index(old(library).games@, has_slug(slug@));
            }
            g.dxvk_enabled = !g.dxvk_enabled;
            true
        },
        None => false,
    }
}

// ---------------------------------------------------------------------------
// The games running now
// ---------------------------------------------------------------------------

/// The slugs of the games running now.
#[derive(Debug, Clone)]
pub struct RunningGames {
    slugs: Vec<String>,
}

impl View for RunningGames {
    type V = Set<Seq<char>>;

    closed spec fn view(&self) -> Set<Seq<char>> {
        string_set(self.slugs@)
    }
}

impl RunningGames {
    /// No game running.
    pub fn new() -> (r: RunningGames)
        ensures
            r@ == Set::<Seq<char>>::empty(),
    {
        let r = RunningGames { slugs: Vec::new() };
        assert(r@ =~= Set::<Seq<char>>::empty());
        r
    }

    /// Whether the game with slug `slug` is running.
    pub fn contains(&self, slug: &str) -> (r: bool)
        ensures
            r == self@.contains(slug@),
    {
        holds_string(&self.slugs, slug)
    }

    /// Records that the game with slug `slug` was started.
    pub fn start(&mut self, slug: &str)
        ensures
            final(self)@ == old(self)@.insert(slug@),
    {
        if !holds_string(&self.slugs, slug) {
            let ghost before = self.slugs@;
            self.slugs.push(copy_str(slug));
            assert forall|p: Seq<char>| #[trigger] string_set(self.slugs@).contains(p) == string_set(before).insert(slug@).contains(p) by {
                if string_set(before).contains(p) {
                    let i = choose|i: int| 0 <= i < before.len() && #[trigger] before[i]@ == p;
                    assert(self.slugs@[i]@ == p);
                }
                if p == slug@ {
                    assert(self.slugs@[before.len() as int]@ == p);
                }
                if string_set(self.slugs@).contains(p) {
                    let i = choose|i: int| 0 <= i < self.slugs@.len() && #[trigger] self.slugs@[i]@ == p;
                    if i < before.len() {
                        assert(before[i]@ == p);
                    }
                }
            }
            assert(self@ =~= old(self)@.insert(slug@));
        } else {
            assert(old(self)@.insert(slug@) =~= old(self)@);
        }
    }

    /// Records that the game with slug `slug` ended.
    pub fn finish(&mut self, slug: &str)
        ensures
            final(self)@ == old(self)@.remove(slug@),
    {
        let ghost orig = self.slugs@;
        let mut kept: Vec<String> = Vec::new();
        let mut i: usize = 0;
        while i < self.slugs.len()
            invariant
                i <= self.slugs@.len(),
                self.slugs@ == orig,
                forall|p: Seq<char>| #[trigger] string_set(kept@).contains(p) == (string_set(orig.take(i as int)).contains(p) && p != slug@),
            decreases self.slugs@.len() - i,
        {
            let ghost before = kept@;
            let same = str_eq(self.slugs[i].as_str(), slug);
            if !same {
                kept.push(copy_str(self.slugs[i].as_str()));
            }
            assert forall|p: Seq<char>| #[trigger] string_set(kept@).contains(p) == (string_set(orig.take(i + 1)).contains(p) && p != slug@) by {
                let t = orig.take(i + 1);
                if string_set(orig.take(i as int)).contains(p) {
                    let w = choose|w: int| 0 <= w < orig.take(i as int).len() && #[trigger] orig.take(i as int)[w]@ == p;
                    assert(t[w] == orig.take(i as int)[w]);
                }
                if string_set(t).contains(p) {
                    let w = choose|w: int| 0 <= w < t.len() && #[trigger] t[w]@ == p;
                    if w < i {
                        assert(orig.take(i as int)[w] == t[w]);
                    } else {
                        assert(t[w] == orig[i as int]);
                    }
                }
                if string_set(before).contains(p) {
                    let w = choose|w: int| 0 <= w < before.len() && #[trigger] before[w]@ == p;
                    assert(kept@[w] == before[w]);
                }
                if !same && p == orig[i as int]@ {
                    assert(kept@[before.len() as int]@ == p);
                    assert(t[i as int] == orig[i as int]);
                }
                if string_set(kept@).contains(p) {
                    let w = choose|w: int| 0 <= w < kept@.len() && #[trigger] kept@[w]@ == p;
                    if w < before.len() {
                        assert(before[w] == kept@[w]);
                    } else {
                        assert(t[i as int] == orig[i as int]);
                    }
                }
            }
            i += 1;
        }
        assert(orig.take(orig.len() as int) =~= orig);
        self.slugs = kept;
        assert(self@ =~= old(self)@.remove(slug@));
    }
}

/// What the window does when a game's process ends: the game is no longer
/// running, and the message to show, if any (`exit_message`).
pub fn game_exited(running: &mut RunningGames, slug: &str, exit_code: Option<i32>) -> (r: Option<String>)
    ensures
        final(running)@ == old(running)@.remove(slug@),
        !final(running)@.contains(slug@),
        match exit_code {
            Some(c) => if c != 0 {
                r matches Some(m) && m@ == exit_message_text(slug@, c as int)
            } else {
                r is None
            },
            None => r is None,
        },
{
    running.finish(slug);
    exit_message(slug, exit_code)
}

/// The message shown when the first run ends without any Wine binary.
pub open spec fn no_wine_found_message() -> Seq<char> {
    "Wine was downloaded but no binary was found. Check Settings."@
}

/// What ending the first run does to the settings, given the Wine
/// installations found afterwards: the first run is complete, and the first
/// installation found becomes the default one. Returns the message to show
/// when none was found.
pub fn finish_first_run(config: &mut AppConfig, found: &[WineConfig]) -> (r: Option<String>)
    ensures
        final(config).app.first_run_complete,
        final(config).app.auto_update_database == old(config).app.auto_update_database,
        final(config).app.database_url == old(config).app.database_url,
        final(config).app.bundles_url == old(config).app.bundles_url,
        final(config).wine.download_urls == old(config).wine.download_urls,
        final(config).wine.dxvk_download_url == old(config).wine.dxvk_download_url,
        final(config).wine.gptk_info_url == old(config).wine.gptk_info_url,
        found@.len() > 0 ==> final(config).wine.default@ == found@[0].name@ && r is None,
        found@.len() == 0 ==> final(config).wine.default == old(config).wine.default && (r matches Some(m) && m@
            == no_wine_found_message()),
{
    config.app.first_run_complete = true;
    if found.len() > 0 {
        config.wine.default = copy_str(found[0].name.as_str());
        None
    } else {
        Some(copy_str("Wine was downloaded but no binary was found. Check Settings."))
    }
}

// ---------------------------------------------------------------------------
// The window's messages
// ---------------------------------------------------------------------------

/// What the window holds, as far as its messages change it.
#[derive(Debug, Clone)]
pub struct Window {
    pub screen: Screen,
    pub loading: bool,
    pub error_message: Option<String>,
    pub running: RunningGames,
    pub add_game: Option<AddGameState>,
    pub search_query: String,
    pub filter_rating: Option<CompatRating>,
}

/// A message to the window, with what the program found out for it.
#[derive(Debug, Clone)]
pub enum WindowEvent {
    NavigateTo(Screen),
    ShowError(String),
    DismissError,
    /// Settings, library and installations are loaded: whether the first
    /// run is complete, the warnings of loading, whether any Wine
    /// installation was found, and whether the template bottle is set up.
    Loaded { first_run_complete: bool, warnings: Vec<String>, wine_found: bool, template_ready: bool },
    /// Creating the template bottle failed with this message.
    TemplateFailed(String),
    OpenAddGame,
    CloseAddGame,
    SearchChanged(String),
    FilterRating(Option<CompatRating>),
    /// A game's process ended; its log was written, or failed to be with
    /// this message.
    GameExited { slug: String, exit_code: Option<i32>, log_error: Option<String> },
    /// A folder was chosen (or the dialog cancelled) to set up the game with
    /// this slug from its bundle.
    SetupFolderSelected { slug: String, path: Option<String> },
}

/// What the program does after a message.
#[derive(Debug, Clone)]
pub enum WindowAction {
    Nothing,
    /// Create the template bottle with the first Wine installation.
    CreateTemplate,
    /// Add the game of this bundle, installed at this path, then list the
    /// bottles again.
    ApplyBundle { bundle: BundleConfig, install_path: String },
    /// List the bottles again.
    ReloadBottles,
}

pub open spec fn template_failed_message(m: Seq<char>) -> Seq<char> {
    "Failed to create template bottle: "@ + m
}

pub open spec fn log_failed_message(m: Seq<char>) -> Seq<char> {
    "Failed to save game log: "@ + m
}

pub open spec fn no_bundle_message(slug: Seq<char>) -> Seq<char> {
    "No bundle found for '"@ + slug + "'"@
}

/// The window with only its error message changed (to `e`).
pub open spec fn with_error(w: Window, e: Option<String>) -> Window {
    Window { error_message: e, ..w }
}

impl Window {
    /// The window while it loads: the library screen, nothing shown.
    pub fn new() -> (r: Window)
        ensures
            r.screen == Screen::Library,
            r.loading,
            r.error_message is None,
            r.running@ == Set::<Seq<char>>::empty(),
            r.add_game is None,
            r.search_query@ == Seq::<char>::empty(),
            r.filter_rating is None,
    {
        Window {
            screen: Screen::Library,
            loading: true,
            error_message: None,
            running: RunningGames::new(),
            add_game: None,
            search_query: String::new(),
            filter_rating: None,
        }
    }

    /// What a message does to the window, and what the program is to do
    /// next. `bundles` are the bundles loaded.
    pub fn step(&mut self, event: WindowEvent, bundles: &BundleSet) -> (a: WindowAction)
        ensures
            match event {
                WindowEvent::NavigateTo(s) => *final(self) == (Window { screen: s, ..*old(self) })
                    && a is Nothing,
                WindowEvent::ShowError(m) => *final(self) == with_error(*old(self), Some(m))
                    && a is Nothing,
                WindowEvent::DismissError => *final(self) == with_error(*old(self), None)
                    && a is Nothing,
                WindowEvent::Loaded { first_run_complete, warnings, wine_found, template_ready } => {
                    &&& *final(self) == (Window {
                        loading: false,
                        screen: if first_run_complete {
                            old(self).screen
                        } else {
                            Screen::FirstRun
                        },
                        error_message: if warnings@.len() > 0 {
                            Some(warnings@[0])
                        } else {
                            old(self).error_message
                        },
                        ..*old(self)
                    })
                    &&& (if wine_found && !template_ready {
                        a is CreateTemplate
                    } else {
                        a is Nothing
                    })
                },
                WindowEvent::TemplateFailed(m) => {
                    &&& a is Nothing
                    &&& if old(self).error_message is None {
                        &&& *final(self) == with_error(*old(self), final(self).error_message)
                        &&& final(self).error_message matches Some(e) && e@ == template_failed_message(m@)
                    } else {
                        *final(self) == *old(self)
                    }
                },
                WindowEvent::OpenAddGame => {
                    &&& a is Nothing
                    &&& *final(self) == (Window { add_game: final(self).add_game, ..*old(self) })
                    &&& final(self).add_game matches Some(g) && g.tab == AddGameTab::Installer
                        && g.name@.len() == 0 && g.path is None && g.icon_path is None
                        && g.matched_bundle is None
                },
                WindowEvent::CloseAddGame => *final(self) == (Window { add_game: None, ..*old(self) })
                    && a is Nothing,
                WindowEvent::SearchChanged(q) => *final(self) == (Window { search_query: q, ..*old(self) })
                    && a is Nothing,
                WindowEvent::FilterRating(f) => *final(self) == (Window {
                    filter_rating: f,
                    ..*old(self)
                }) && a is Nothing,
                WindowEvent::GameExited { slug, exit_code, log_error } => {
                    &&& a is Nothing
                    &&& final(self).running@ == old(self).running@.remove(slug@)
                    &&& final(self).screen == old(self).screen
                    &&& final(self).loading == old(self).loading
                    &&& final(self).add_game == old(self).add_game
                    &&& final(self).search_query == old(self).search_query
                    &&& final(self).filter_rating == old(self).filter_rating
                    &&& if exit_code is Some && exit_code->0 != 0 {
                        final(self).error_message matches Some(e) && e@ == exit_message_text(
                            slug@,
                            exit_code->0 as int,
                        )
                    } else if log_error is Some {
                        final(self).error_message matches Some(e) && e@ == log_failed_message(
                            log_error->0@,
                        )
                    } else {
                        final(self).error_message == old(self).error_message
                    }
                },
                WindowEvent::SetupFolderSelected { slug, path } => match path {
                    None => *final(self) == *old(self) && a is Nothing,
                    Some(p) => {
                        let i = first_index(bundles.bundles@, bundle_has_slug(slug@));
                        if i >= 0 {
                            &&& *final(self) == *old(self)
                            &&& a matches WindowAction::ApplyBundle { bundle, install_path }
                                && same_bundle(bundle, bundles.bundles@[i]) && install_path == p
                        } else {
                            &&& *final(self) == with_error(*old(self), final(self).error_message)
                            &&& final(self).error_message matches Some(e) && e@ == no_bundle_message(slug@)
                            &&& a is ReloadBottles
                        }
                    },
                },
            },
    {
        match event {
            WindowEvent::NavigateTo(s) => {
                self.screen = s;
                WindowAction::Nothing
            },
            WindowEvent::ShowError(m) => {
                self.error_message = Some(m);
                WindowAction::Nothing
            },
            WindowEvent::DismissError => {
                self.error_message = None;
                WindowAction::Nothing
            },
            WindowEvent::Loaded { first_run_complete, warnings, wine_found, template_ready } => {
                self.loading = false;
                if warnings.len() > 0 {
                    let mut w = warnings;
                    let first = w.remove(0);
                    self.error_message = Some(first);
                }
                self.screen = screen_after_load(self.screen, first_run_complete);
                if wine_found && !template_ready {
                    WindowAction::CreateTemplate
                } else {
                    WindowAction::Nothing
                }
            },
            WindowEvent::TemplateFailed(m) => {
                if self.error_message.is_none() {
                    self.error_message = Some(concat("Failed to create template bottle: ", m.as_str()));
                }
                WindowAction::Nothing
            },
            WindowEvent::OpenAddGame => {
                self.add_game = Some(AddGameState::default());
                WindowAction::Nothing
            },
            WindowEvent::CloseAddGame => {
                self.add_game = None;
                WindowAction::Nothing
            },
            WindowEvent::SearchChanged(q) => {
                self.search_query = q;
                WindowAction::Nothing
            },
            WindowEvent::FilterRating(f) => {
                self.filter_rating = f;
                WindowAction::Nothing
            },
            WindowEvent::GameExited { slug, exit_code, log_error } => {
                self.running.finish(slug.as_str());
                match log_error {
                    Some(e) => {
                        self.error_message = Some(concat("Failed to save game log: ", e.as_str()));
                    },
                    None => {},
                }
                match exit_message(slug.as_str(), exit_code) {
                    Some(m) => {
                        self.error_message = Some(m);
                    },
                    None => {},
                }
                WindowAction::Nothing
            },
            WindowEvent::SetupFolderSelected { slug, path } => match path {
                None => WindowAction::Nothing,
                Some(p) => match bundles.get(slug.as_str()) {
                    Some(b) => WindowAction::ApplyBundle { bundle: b.duplicate(), install_path: p },
                    None => {
                        let m = concat("No bundle found for '", slug.as_str());
                        self.error_message = Some(concat(m.as_str(), "'"));
                        WindowAction::ReloadBottles
                    },
                },
            },
        }
    }
}

} // verus!
