//! Bundles: per-game settings that make a game work out of the box.
use vstd::prelude::*;

use crate::error::Result;
use crate::library::{Game, GameLibrary, InstallType, Timestamp};
use crate::path::{extension, file_name, spec_extension, spec_file_name};
use crate::seq_util::{first_index, lemma_first_index};
use crate::string_map::StringMap;
use crate::text::{
    ascii_lower, chars_eq_ignore_ascii_case, chars_of, is_ascii_text, concat, copy_str, eq_ignore_ascii_case, seq_eq,
    spec_to_lowercase, str_eq, to_lowercase,
};

verus! {

/// A bundle: how to set up one game.
#[derive(Debug, Clone)]
pub struct BundleConfig {
    pub game: BundleGameInfo,
    pub wine: BundleWineSettings,
    pub settings: BundleSettings,
    pub workarounds: BundleWorkarounds,
    pub install: BundleInstallInfo,
}

#[derive(Debug, Clone)]
pub struct BundleGameInfo {
    pub name: String,
    pub slug: String,
    pub rating: String,
}

#[derive(Debug, Clone)]
pub struct BundleWineSettings {
    pub backend: String,
    pub min_version: String,
}

#[derive(Debug, Clone)]
pub struct BundleSettings {
    pub dxvk_enabled: bool,
    pub env: StringMap,
}

#[derive(Debug, Clone)]
pub struct BundleWorkarounds {
    pub notes: String,
}

#[derive(Debug, Clone)]
pub struct BundleInstallInfo {
    pub exe_path: String,
    pub exe_alternatives: Vec<String>,
    pub steam_appid: Option<u64>,
    pub gog_id: Option<String>,
}

/// The views of a list of strings.
pub open spec fn strings_view(v: Seq<String>) -> Seq<Seq<char>> {
    v.map_values(|s: String| s@)
}

/// Whether two bundles hold the same values.
pub open spec fn same_bundle(a: BundleConfig, b: BundleConfig) -> bool {
    &&& a.game.name@ == b.game.name@
    &&& a.game.slug@ == b.game.slug@
    &&& a.game.rating@ == b.game.rating@
    &&& a.wine.backend@ == b.wine.backend@
    &&& a.wine.min_version@ == b.wine.min_version@
    &&& a.settings.dxvk_enabled == b.settings.dxvk_enabled
    &&& a.settings.env@ == b.settings.env@
    &&& a.workarounds.notes@ == b.workarounds.notes@
    &&& a.install.exe_path@ == b.install.exe_path@
    &&& strings_view(a.install.exe_alternatives@) == strings_view(b.install.exe_alternatives@)
    &&& a.install.steam_appid == b.install.steam_appid
    &&& match (a.install.gog_id, b.install.gog_id) {
        (Some(x), Some(y)) => x@ == y@,
        (None, None) => true,
        _ => false,
    }
}

/// A copy of a list of strings.
pub fn copy_strings(v: &Vec<String>) -> (r: Vec<String>)
    ensures
        strings_view(r@) == strings_view(v@),
{
    let mut r: Vec<String> = Vec::new();
    let mut i: usize = 0;
    while i < v.len()
        invariant
            i <= v@.len(),
            strings_view(r@) == strings_view(v@.take(i as int)),
        decreases v@.len() - i,
    {
        let ghost before = r@;
        let c = copy_str(v[i].as_str());
        r.push(c);
        assert(r@ == before.push(c));
        assert(v@.take(i + 1) == v@.take(i as int).push(v@[i as int]));
        assert(strings_view(r@) =~= strings_view(before).push(c@));
        assert(strings_view(v@.take(i + 1)) =~= strings_view(v@.take(i as int)).push(v@[i as int]@));
        i += 1;
    }
    assert(v@.take(v@.len() as int) =~= v@);
    r
}

impl BundleConfig {
    /// A copy of the bundle.
    pub fn duplicate(&self) -> (r: BundleConfig)
        ensures
            same_bundle(r, *self),
    {
        BundleConfig {
            game: BundleGameInfo {
                name: copy_str(self.game.name.as_str()),
                slug: copy_str(self.game.slug.as_str()),
                rating: copy_str(self.game.rating.as_str()),
            },
            wine: BundleWineSettings {
                backend: copy_str(self.wine.backend.as_str()),
                min_version: copy_str(self.wine.min_version.as_str()),
            },
            settings: BundleSettings {
                dxvk_enabled: self.settings.dxvk_enabled,
                env: self.settings.env.duplicate(),
            },
            workarounds: BundleWorkarounds { notes: copy_str(self.workarounds.notes.as_str()) },
            install: BundleInstallInfo {
                exe_path: copy_str(self.install.exe_path.as_str()),
                exe_alternatives: copy_strings(&self.install.exe_alternatives),
                steam_appid: self.install.steam_appid,
                gog_id: match &self.install.gog_id {
                    Some(g) => Some(copy_str(g.as_str())),
                    None => None,
                },
            },
        }
    }
}

/// The bundles, one per slug, in the order their slugs were first added.
#[derive(Debug, Clone)]
pub struct BundleSet {
    pub bundles: Vec<BundleConfig>,
}

/// No two bundles share a slug.
pub open spec fn bundle_slugs_unique(bs: Seq<BundleConfig>) -> bool {
    forall|i: int, j: int|
        0 <= i < bs.len() && 0 <= j < bs.len() && i != j ==> #[trigger] bs[i].game.slug@
            != #[trigger] bs[j].game.slug@
}

pub open spec fn bundle_has_slug(slug: Seq<char>) -> spec_fn(BundleConfig) -> bool {
    |b: BundleConfig| b.game.slug@ == slug
}

impl BundleSet {
    /// No bundles.
    pub fn new() -> (r: BundleSet)
        ensures
            r.bundles@.len() == 0,
    {
        BundleSet { bundles: Vec::new() }
    }

    /// Adds a bundle under its slug, replacing the bundle that had that slug.
    pub fn insert(&mut self, bundle: BundleConfig)
        ensures
            ({
                let i = first_index(old(self).bundles@, bundle_has_slug(bundle.game.slug@));
                if i >= 0 {
                    final(self).bundles@ == old(self).bundles@.update(i, bundle)
                } else {
                    final(self).bundles@ == old(self).bundles@.push(bundle)
                }
            }),
            bundle_slugs_unique(old(self).bundles@) ==> bundle_slugs_unique(final(self).bundles@),
    {
        let ghost p = bundle_has_slug(bundle.game.slug@);
        let ghost orig = self.bundles@;
        proof {
            lemma_first_index(self.bundles@, p);
        }
        let mut i: usize = 0;
        while i < self.bundles.len()
            invariant
                i <= self.bundles@.len(),
                self.bundles@ == orig,
                orig == old(self).bundles@,
                p == bundle_has_slug(bundle.game.slug@),
                forall|j: int| 0 <= j < i ==> !p(#[trigger] self.bundles@[j]),
                -1 <= first_index(self.bundles@, p) < self.bundles@.len(),
                first_index(self.bundles@, p) >= 0 ==> p(self.bundles@[first_index(self.bundles@, p)]),
                forall|j: int|
                    0 <= j < self.bundles@.len() && (first_index(self.bundles@, p) < 0 || j
                        < first_index(self.bundles@, p)) ==> !p(#[trigger] self.bundles@[j]),
            decreases self.bundles@.len() - i,
        {
            if str_eq(self.bundles[i].game.slug.as_str(), bundle.game.slug.as_str()) {
                assert(p(self.bundles@[i as int]));
                let ghost before = self.bundles@;
                self.bundles.set(i, bundle);
                proof {
                    assert forall|a: int, b: int|
                        bundle_slugs_unique(before) && 0 <= a < self.bundles@.len() && 0 <= b
                            < self.bundles@.len() && a != b implies #[trigger] self.bundles@[a].game.slug@
                        != #[trigger] self.bundles@[b].game.slug@ by {
                        if a != i && b != i {
                            assert(self.bundles@[a] == before[a]);
                            assert(self.bundles@[b] == before[b]);
                        } else if a == i {
                            assert(self.bundles@[b] == before[b]);
                            assert(before[b].game.slug@ != before[i as int].game.slug@);
                        } else {
                            assert(self.bundles@[a] == before[a]);
                            assert(before[a].game.slug@ != before[i as int].game.slug@);
                        }
                    }
                }
                return;
            }
            i += 1;
        }
        let ghost before = self.bundles@;
        self.bundles.push(bundle);
        proof {
            assert forall|a: int, b: int|
                bundle_slugs_unique(before) && 0 <= a < self.bundles@.len() && 0 <= b
                    < self.bundles@.len() && a != b implies #[trigger] self.bundles@[a].game.slug@
                != #[trigger] self.bundles@[b].game.slug@ by {
                if a < before.len() && b < before.len() {
                    assert(self.bundles@[a] == before[a]);
                    assert(self.bundles@[b] == before[b]);
                } else if a < before.len() {
                    assert(self.bundles@[a] == before[a]);
                    assert(!p(before[a]));
                } else {
                    assert(self.bundles@[b] == before[b]);
                    assert(!p(before[b]));
                }
            }
        }
    }

    /// The bundle with slug `slug`.
    pub fn get(&self, slug: &str) -> (r: Option<&BundleConfig>)
        ensures
            ({
                let i = first_index(self.bundles@, bundle_has_slug(slug@));
                if i >= 0 {
                    r == Some(&self.bundles@[i])
                } else {
                    r is None
                }
            }),
    {
        let ghost p = bundle_has_slug(slug@);
        proof {
            lemma_first_index(self.bundles@, p);
        }
        let mut i: usize = 0;
        while i < self.bundles.len()
            invariant
                i <= self.bundles@.len(),
                p == bundle_has_slug(slug@),
                forall|j: int| 0 <= j < i ==> !p(#[trigger] self.bundles@[j]),
                -1 <= first_index(self.bundles@, p) < self.bundles@.len(),
                first_index(self.bundles@, p) >= 0 ==> p(self.bundles@[first_index(self.bundles@, p)]),
                forall|j: int|
                    0 <= j < self.bundles@.len() && (first_index(self.bundles@, p) < 0 || j
                        < first_index(self.bundles@, p)) ==> !p(#[trigger] self.bundles@[j]),
            decreases self.bundles@.len() - i,
        {
            if str_eq(self.bundles[i].game.slug.as_str(), slug) {
                assert(p(self.bundles@[i as int]));
                return Some(&self.bundles[i]);
            }
            i += 1;
        }
        None
    }
}

// ---------------------------------------------------------------------------
// Matching a game folder against the bundles
// ---------------------------------------------------------------------------

/// Whether a path names a Windows executable: its extension is `exe` in
/// any ASCII case.
pub open spec fn is_exe_path(p: Seq<char>) -> bool {
    spec_extension(p) matches Some(e) && eq_ignore_ascii_case(e, "exe"@)
}

/// Whether a path names a Windows executable.
pub fn has_exe_extension(path: &str) -> (r: bool)
    ensures
        r == is_exe_path(path@),
{
    match extension(path) {
        Some(e) => {
            let ev = chars_of(e.as_str());
            let exe = chars_of("exe");
            chars_eq_ignore_ascii_case(ev.as_slice(), exe.as_slice())
        },
        None => false,
    }
}

/// The lower-cased file names of executables.
pub open spec fn exe_names(files: Seq<Seq<char>>) -> Seq<Seq<char>>
    decreases files.len(),
{
    if files.len() == 0 {
        Seq::empty()
    } else {
        match spec_file_name(files.last()) {
            Some(n) => exe_names(files.drop_last()).push(spec_to_lowercase(n)),
            None => exe_names(files.drop_last()),
        }
    }
}

/// The lower-cased file name of a bundle's main executable, if it has one.
pub open spec fn primary_name(b: BundleConfig) -> Seq<char> {
    match spec_file_name(b.install.exe_path@) {
        Some(n) => spec_to_lowercase(n),
        None => Seq::empty(),
    }
}

/// A bundle matches a folder when the file name of its main executable, or
/// one of its alternative executables, is among the folder's executables,
/// all compared in lower case.
pub open spec fn bundle_matches(names: Seq<Seq<char>>) -> spec_fn(BundleConfig) -> bool {
    |b: BundleConfig|
        (primary_name(b).len() > 0 && names.contains(primary_name(b))) || exists|k: int|
            0 <= k < b.install.exe_alternatives@.len() && names.contains(
                spec_to_lowercase(#[trigger] b.install.exe_alternatives@[k]@),
            )
}

fn names_contain(names: &Vec<Vec<char>>, n: &Vec<char>) -> (r: bool)
    ensures
        r == names@.map_values(|v: Vec<char>| v@).contains(n@),
{
    let ghost nv = names@.map_values(|v: Vec<char>| v@);
    let mut i: usize = 0;
    while i < names.len()
        invariant
            i <= names@.len(),
            nv == names@.map_values(|v: Vec<char>| v@),
            forall|j: int| 0 <= j < i ==> nv[j] != n@,
        decreases names@.len() - i,
    {
        if seq_eq(&names[i], n) {
            assert(nv[i as int] == n@);
            return true;
        }
        i += 1;
    }
    false
}

fn lowercase_names(exe_files: &[String]) -> (r: Vec<Vec<char>>)
    ensures
        r@.map_values(|v: Vec<char>| v@) == exe_names(exe_files@.map_values(|s: String| s@)),
{
    let ghost fv = exe_files@.map_values(|s: String| s@);
    let mut r: Vec<Vec<char>> = Vec::new();
    let mut i: usize = 0;
    while i < exe_files.len()
        invariant
            i <= exe_files@.len(),
            fv == exe_files@.map_values(|s: String| s@),
            r@.map_values(|v: Vec<char>| v@) == exe_names(fv.take(i as int)),
        decreases exe_files@.len() - i,
    {
        assert(fv.take(i + 1).drop_last() =~= fv.take(i as int));
        assert(fv.take(i + 1).last() == exe_files@[i as int]@);
        let ghost before = r@;
        match file_name(exe_files[i].as_str()) {
            Some(n) => {
                let l = to_lowercase(n.as_str());
                let lv = chars_of(l.as_str());
                r.push(lv);
                assert(r@.map_values(|v: Vec<char>| v@) =~= before.map_values(|v: Vec<char>| v@).push(lv@));
            },
            None => {},
        }
        i += 1;
    }
    assert(fv.take(exe_files@.len() as int) =~= fv);
    r
}

fn bundle_matches_exec(b: &BundleConfig, names: &Vec<Vec<char>>) -> (r: bool)
    ensures
        r == bundle_matches(names@.map_values(|v: Vec<char>| v@))(*b),
{
    let ghost nv = names@.map_values(|v: Vec<char>| v@);
    let primary: Vec<char> = match file_name(b.install.exe_path.as_str()) {
        Some(n) => {
            let l = to_lowercase(n.as_str());
            chars_of(l.as_str())
        },
        None => Vec::new(),
    };
    assert(primary@ == primary_name(*b));
    if primary.len() > 0 && names_contain(names, &primary) {
        return true;
    }
    let alts = &b.install.exe_alternatives;
    let mut k: usize = 0;
    while k < alts.len()
        invariant
            k <= alts@.len(),
            alts@ == b.install.exe_alternatives@,
            nv == names@.map_values(|v: Vec<char>| v@),
            forall|j: int| 0 <= j < k ==> !nv.contains(spec_to_lowercase(#[trigger] alts@[j]@)),
        decreases alts@.len() - k,
    {
        let l = to_lowercase(alts[k].as_str());
        let lv = chars_of(l.as_str());
        if names_contain(names, &lv) {
            assert(nv.contains(spec_to_lowercase(b.install.exe_alternatives@[k as int]@)));
            return true;
        }
        k += 1;
    }
    false
}

/// An entry of a directory being scanned for executables: its path, and
/// whether it is a directory.
#[derive(Debug, Clone)]
pub struct ScanEntry {
    pub path: String,
    pub is_dir: bool,
}

/// What scanning a directory does with one of its entries.
#[derive(Debug, Clone)]
pub enum ScanItem {
    /// An executable found.
    Exe(String),
    /// A subdirectory to scan, one level deeper.
    Descend(String),
}

/// A scan item as a value: whether it descends, and its path.
pub open spec fn scan_item_view(i: ScanItem) -> (bool, Seq<char>) {
    match i {
        ScanItem::Exe(p) => (false, p@),
        ScanItem::Descend(p) => (true, p@),
    }
}

/// What scanning a directory's entries, in order, does: each subdirectory
/// is scanned, each executable found, everything else passed over.
pub open spec fn scan_plan(entries: Seq<ScanEntry>) -> Seq<(bool, Seq<char>)>
    decreases entries.len(),
{
    if entries.len() == 0 {
        Seq::empty()
    } else {
        let prev = scan_plan(entries.drop_last());
        let e = entries.last();
        if e.is_dir {
            prev.push((true, e.path@))
        } else if is_exe_path(e.path@) {
            prev.push((false, e.path@))
        } else {
            prev
        }
    }
}

/// One step of scanning a game folder for executables, down to `max_depth`
/// levels of folders: what to do with the entries of a directory at level
/// `depth`, in order. Nothing below `max_depth`.
pub fn scan_step(entries: &[ScanEntry], depth: u32, max_depth: u32) -> (r: Vec<ScanItem>)
    ensures
        r@.map_values(|i: ScanItem| scan_item_view(i)) == (if depth > max_depth {
            Seq::empty()
        } else {
            scan_plan(entries@)
        }),
{
    let mut r: Vec<ScanItem> = Vec::new();
    if depth > max_depth {
        assert(r@.map_values(|i: ScanItem| scan_item_view(i)) =~= Seq::<(bool, Seq<char>)>::empty());
        return r;
    }
    let mut k: usize = 0;
    while k < entries.len()
        invariant
            k <= entries@.len(),
            r@.map_values(|i: ScanItem| scan_item_view(i)) == scan_plan(entries@.take(k as int)),
        decreases entries@.len() - k,
    {
        let ghost before = r@.map_values(|i: ScanItem| scan_item_view(i));
        assert(entries@.take(k + 1).drop_last() =~= entries@.take(k as int));
        assert(entries@.take(k + 1).last() == entries@[k as int]);
        let e = &entries[k];
        if e.is_dir {
            r.push(ScanItem::Descend(copy_str(e.path.as_str())));
            assert(r@.map_values(|i: ScanItem| scan_item_view(i)) =~= before.push((true, e.path@)));
        } else if has_exe_extension(e.path.as_str()) {
            r.push(ScanItem::Exe(copy_str(e.path.as_str())));
            assert(r@.map_values(|i: ScanItem| scan_item_view(i)) =~= before.push((false, e.path@)));
        }
        k += 1;
    }
    assert(entries@.take(entries@.len() as int) =~= entries@);
    r
}

/// The first bundle, in set order, that matches the executables found in a
/// game folder (`exe_files`: their paths, as the scan of the folder found
/// them).
pub fn match_bundle_for_folder(exe_files: &[String], bundles: &BundleSet) -> (r: Option<BundleConfig>)
    ensures
        ({
            let i = first_index(
                bundles.bundles@,
                bundle_matches(exe_names(exe_files@.map_values(|s: String| s@))),
            );
            if i >= 0 {
                r matches Some(b) && same_bundle(b, bundles.bundles@[i])
            } else {
                r is None
            }
        }),
{
    let names = lowercase_names(exe_files);
    let ghost p = bundle_matches(exe_names(exe_files@.map_values(|s: String| s@)));
    let bs = &bundles.bundles;
    proof {
        lemma_first_index(bs@, p);
    }
    let mut i: usize = 0;
    while i < bs.len()
        invariant
            i <= bs@.len(),
            bs@ == bundles.bundles@,
            p == bundle_matches(names@.map_values(|v: Vec<char>| v@)),
            p == bundle_matches(exe_names(exe_files@.map_values(|s: String| s@))),
            forall|j: int| 0 <= j < i ==> !p(#[trigger] bs@[j]),
            -1 <= first_index(bs@, p) < bs@.len(),
            first_index(bs@, p) >= 0 ==> p(bs@[first_index(bs@, p)]),
            forall|j: int|
                0 <= j < bs@.len() && (first_index(bs@, p) < 0 || j < first_index(bs@, p))
                    ==> !p(#[trigger] bs@[j]),
        decreases bs@.len() - i,
    {
        if bundle_matches_exec(&bs[i], &names) {
            proof {
                crate::seq_util::lemma_first_index_is(bs@, p, i as int);
            }
            return Some(bs[i].duplicate());
        }
        i += 1;
    }
    None
}

// ---------------------------------------------------------------------------
// Applying a bundle
// ---------------------------------------------------------------------------

/// Whether a bundle asks for the Game Porting Toolkit.
pub open spec fn bundle_uses_gptk(b: BundleConfig) -> bool {
    spec_to_lowercase(b.wine.backend@) == "gptk"@
}

/// The executable of the game a bundle sets up, inside the bottle.
pub open spec fn bundle_exe(b: BundleConfig) -> Seq<char> {
    "drive_c/"@ + if b.install.exe_path@.len() == 0 {
        "game.exe"@
    } else {
        b.install.exe_path@
    }
}

/// Whether `g` is the game that bundle `b` sets up, added at time `t`.
pub open spec fn is_bundle_game(g: Game, b: BundleConfig, t: Timestamp) -> bool {
    &&& g.name@ == b.game.name@
    &&& g.slug@ == b.game.slug@
    &&& g.exe@ == bundle_exe(b)
    &&& g.install_type == InstallType::FolderInstall
    &&& g.wine_config@ == (if bundle_uses_gptk(b) {
        "gptk"@
    } else {
        "default"@
    })
    &&& g.env@ == b.settings.env@
    &&& g.added_at == t
    &&& g.last_played is None
    &&& g.icon_path is None
    &&& g.dxvk_enabled == b.settings.dxvk_enabled
    &&& g.use_gptk == bundle_uses_gptk(b)
}

/// The current time (`chrono::Utc::now`), as its seconds since the Unix
/// epoch and the nanoseconds within that second. It depends on the clock,
/// so nothing is stated of it.
#[verifier::external_body]
fn now() -> (r: Timestamp) {
    let t = chrono::Utc::now();
    Timestamp { secs: t.timestamp(), nanos: t.timestamp_subsec_nanos() }
}

/// ASCII text lowers to a lower-case word exactly when it equals that word
/// in any ASCII case.
proof fn lemma_ascii_lower_eq(b: Seq<char>, w: Seq<char>)
    requires
        w =~= "gptk"@,
    ensures
        (b.map_values(|c: char| ascii_lower(c)) == w) <==> eq_ignore_ascii_case(b, w),
{
    reveal_strlit("gptk");
    let m = b.map_values(|c: char| ascii_lower(c));
    assert forall|i: int| 0 <= i < w.len() implies ascii_lower(#[trigger] w[i]) == w[i] by {}
    if eq_ignore_ascii_case(b, w) {
        assert forall|i: int| 0 <= i < w.len() implies m[i] == w[i] by {
            assert(ascii_lower(b[i]) == ascii_lower(w[i]));
        }
        assert(m =~= w);
    }
    if m == w {
        assert forall|i: int| 0 <= i < b.len() implies ascii_lower(#[trigger] b[i]) == ascii_lower(w[i]) by {
            assert(m[i] == ascii_lower(b[i]));
        }
    }
}

/// Adds the game that `bundle` sets up to the end of `library`, added at
/// time `now`. Returns the game's slug.
pub fn apply_bundle_at(bundle: &BundleConfig, library: &mut GameLibrary, now: Timestamp) -> (r: Result<String>)
    ensures
        r matches Ok(s) && s@ == bundle.game.slug@,
        final(library).games@.len() == old(library).games@.len() + 1,
        final(library).games@.drop_last() == old(library).games@,
        is_bundle_game(final(library).games@.last(), *bundle, now),
        final(library).games@.last().env@ == bundle.settings.env@,
        is_ascii_text(bundle.wine.backend@) ==> (bundle_uses_gptk(*bundle) <==> eq_ignore_ascii_case(
            bundle.wine.backend@,
            "gptk"@,
        )),
{
    let exe = if bundle.install.exe_path.as_str().is_empty() {
        copy_str("game.exe")
    } else {
        copy_str(bundle.install.exe_path.as_str())
    };
    let backend = to_lowercase(bundle.wine.backend.as_str());
    let use_gptk = str_eq(backend.as_str(), "gptk");
    proof {
        if is_ascii_text(bundle.wine.backend@) {
            lemma_ascii_lower_eq(bundle.wine.backend@, "gptk"@);
        }
    }
    let game = Game {
        name: copy_str(bundle.game.name.as_str()),
        slug: copy_str(bundle.game.slug.as_str()),
        exe: concat("drive_c/", exe.as_str()),
        install_type: InstallType::FolderInstall,
        wine_config: if use_gptk {
            copy_str("gptk")
        } else {
            copy_str("default")
        },
        env: bundle.settings.env.duplicate(),
        added_at: now,
        last_played: None,
        icon_path: None,
        dxvk_enabled: bundle.settings.dxvk_enabled,
        use_gptk,
    };
    assert(is_bundle_game(game, *bundle, now));
    let slug = copy_str(game.slug.as_str());
    let _ = library.add(game);
    assert(library.games@.drop_last() =~= old(library).games@);
    Ok(slug)
}

/// Applies a bundle to create a game in the library, added now. Returns the
/// slug of the created game.
pub fn apply_bundle(bundle: &BundleConfig, install_path: &str, library: &mut GameLibrary) -> (r: Result<String>)
    ensures
        r matches Ok(s) && s@ == bundle.game.slug@,
        final(library).games@.len() == old(library).games@.len() + 1,
        final(library).games@.drop_last() == old(library).games@,
        exists|t: Timestamp| is_bundle_game(final(library).games@.last(), *bundle, t),
        final(library).games@.last().env@ == bundle.settings.env@,
        is_ascii_text(bundle.wine.backend@) ==> (bundle_uses_gptk(*bundle) <==> eq_ignore_ascii_case(
            bundle.wine.backend@,
            "gptk"@,
        )),
{
    let now = now();
    apply_bundle_at(bundle, library, now)
}

} // verus!
