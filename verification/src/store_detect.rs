//! Detection of games installed through Steam and GOG.
use vstd::prelude::*;

use crate::compat::{CompatDatabase, CompatEntry, CompatRating, has_gog_id, has_slug, has_steam_appid};
use crate::library::{slugify, spec_slugify};
use crate::path::{join, spec_join};
use crate::seq_util::first_index;
use crate::text::{
    copy_str, is_prefix, is_suffix, replace_char, replace_chars, spec_to_lowercase, starts_with,
    ends_with, to_lowercase,
    chars_eq_ignore_ascii_case, chars_of, eq_ignore_ascii_case, split, split_chars, string_of, trim,
    trim_chars,
};

verus! {

// ---------------------------------------------------------------------------
// Unsigned integers in decimal (`u64::from_str`)
// ---------------------------------------------------------------------------

pub open spec fn is_digit(c: char) -> bool {
    '0' <= c && c <= '9'
}

pub open spec fn all_digits(s: Seq<char>) -> bool {
    forall|i: int| 0 <= i < s.len() ==> is_digit(#[trigger] s[i])
}

pub open spec fn digit_value(c: char) -> nat {
    ((c as u32) - ('0' as u32)) as nat
}

/// The number that a string of decimal digits denotes.
pub open spec fn digits_value(s: Seq<char>) -> nat
    decreases s.len(),
{
    if s.len() == 0 {
        0
    } else {
        digits_value(s.drop_last()) * 10 + digit_value(s.last())
    }
}

/// What `u64::from_str` gives for `s`: an optional `+`, then at least one
/// decimal digit and nothing else, denoting a number that fits in 64 bits.
pub open spec fn spec_parse_u64(s: Seq<char>) -> Option<u64> {
    let d = if s.len() > 0 && s[0] == '+' {
        s.drop_first()
    } else {
        s
    };
    parse_digits(d)
}

/// The number that a non-empty string of decimal digits denotes, if it fits.
pub open spec fn parse_digits(d: Seq<char>) -> Option<u64> {
    if d.len() > 0 && all_digits(d) && digits_value(d) <= u64::MAX {
        Some(digits_value(d) as u64)
    } else {
        None
    }
}

proof fn lemma_digits_value_prefix(s: Seq<char>, k: int)
    requires
        0 <= k <= s.len(),
    ensures
        digits_value(s.take(k)) <= digits_value(s),
    decreases s.len() - k,
{
    if k < s.len() {
        assert(s.drop_last().take(k) =~= s.take(k));
        lemma_digits_value_prefix(s.drop_last(), k);
    } else {
        assert(s.take(k) =~= s);
    }
}

/// Parses a decimal `u64` as `u64::from_str` does.
pub fn parse_u64(v: &[char]) -> (r: Option<u64>)
    ensures
        r == spec_parse_u64(v@),
{
    let start: usize = if v.len() > 0 && v[0] == '+' {
        1
    } else {
        0
    };
    let ghost d = if v@.len() > 0 && v@[0] == '+' {
        v@.drop_first()
    } else {
        v@
    };
    assert(d =~= v@.skip(start as int));
    if start >= v.len() {
        return None;
    }
    let mut value: u64 = 0;
    let mut i = start;
    while i < v.len()
        invariant
            start <= i <= v.len(),
            d == v@.skip(start as int),
            spec_parse_u64(v@) == parse_digits(d),
            d.len() > 0,
            value == digits_value(d.take(i - start)),
            all_digits(d.take(i - start)),
        decreases v.len() - i,
    {
        let c = v[i];
        let ghost k = i - start;
        assert(d.take(k + 1).drop_last() =~= d.take(k));
        assert(d.take(k + 1).last() == c);
        assert(d[k as int] == c);
        if !('0' <= c && c <= '9') {
            assert(!is_digit(d[k as int]));
            assert(!all_digits(d));
            return None;
        }
        let dv = (c as u32 - '0' as u32) as u64;
        if value > (u64::MAX - dv) / 10 {
            proof {
                assert(value * 10 + dv > u64::MAX) by (nonlinear_arith)
                    requires
                        value > (u64::MAX - dv) / 10,
                        dv <= 9,
                ;
                assert(digits_value(d.take(k + 1)) == value * 10 + dv);
                lemma_digits_value_prefix(d, k + 1);
            }
            return None;
        }
        assert(value * 10 + dv <= u64::MAX) by (nonlinear_arith)
            requires
                value <= (u64::MAX - dv) / 10,
                dv <= 9,
        ;
        value = value * 10 + dv;
        i += 1;
    }
    assert(d.take(i - start) =~= d);
    Some(value)
}

// ---------------------------------------------------------------------------
// Valve ACF manifests
// ---------------------------------------------------------------------------

/// The pieces of `ps` that are not blank once trimmed.
pub open spec fn nonblank(ps: Seq<Seq<char>>) -> Seq<Seq<char>>
    decreases ps.len(),
{
    if ps.len() == 0 {
        ps
    } else {
        let r = nonblank(ps.drop_last());
        if trim(ps.last()).len() > 0 {
            r.push(ps.last())
        } else {
            r
        }
    }
}

/// The quoted fields of a manifest line: the trimmed line split at `"`,
/// blank pieces left out.
pub open spec fn line_fields(line: Seq<char>) -> Seq<Seq<char>> {
    nonblank(split(trim(line), '"'))
}

/// The key and value of a manifest line, where it has two fields or more.
pub open spec fn acf_entry(line: Seq<char>) -> Option<(Seq<char>, Seq<char>)> {
    let f = line_fields(line);
    if f.len() >= 2 {
        Some((f[0], f[1]))
    } else {
        None
    }
}

/// What a manifest line does to the fields gathered so far. Keys are
/// compared without regard to ASCII case; for the three keys read here this
/// is the same as comparing their Unicode lower case (no character outside
/// ASCII lowers to one of their letters).
pub open spec fn acf_step(
    st: (Option<u64>, Option<Seq<char>>, Option<Seq<char>>),
    line: Seq<char>,
) -> (Option<u64>, Option<Seq<char>>, Option<Seq<char>>) {
    match acf_entry(line) {
        None => st,
        Some((k, v)) => if eq_ignore_ascii_case(k, "appid"@) {
            (spec_parse_u64(v), st.1, st.2)
        } else if eq_ignore_ascii_case(k, "name"@) {
            (st.0, Some(v), st.2)
        } else if eq_ignore_ascii_case(k, "installdir"@) {
            (st.0, st.1, Some(v))
        } else {
            st
        },
    }
}

/// The fields gathered from a sequence of lines, the last occurrence of a key
/// winning.
pub open spec fn acf_scan(lines: Seq<Seq<char>>) -> (
    Option<u64>,
    Option<Seq<char>>,
    Option<Seq<char>>,
)
    decreases lines.len(),
{
    if lines.len() == 0 {
        (None, None, None)
    } else {
        acf_step(acf_scan(lines.drop_last()), lines.last())
    }
}

/// The `(appid, name, installdir)` of a manifest, where all three are present
/// and the app id is a number.
pub open spec fn spec_parse_acf(content: Seq<char>) -> Option<(u64, Seq<char>, Seq<char>)> {
    match acf_scan(split(content, '\n')) {
        (Some(a), Some(n), Some(d)) => Some((a, n, d)),
        _ => None,
    }
}

fn line_entry(line: &[char]) -> (r: Option<(Vec<char>, Vec<char>)>)
    ensures
        match acf_entry(line@) {
            Some((k, v)) => r matches Some((rk, rv)) && rk@ == k && rv@ == v,
            None => r is None,
        },
{
    let t = trim_chars(line);
    let pieces = split_chars(t.as_slice(), '"');
    let ghost ps = split(trim(line@), '"');
    let mut fields: Vec<Vec<char>> = Vec::new();
    let mut i: usize = 0;
    while i < pieces.len() && fields.len() < 2
        invariant
            i <= pieces@.len(),
            pieces@.len() == ps.len(),
            forall|j: int| 0 <= j < pieces@.len() ==> #[trigger] pieces@[j]@ == ps[j],
            fields@.len() == nonblank(ps.take(i as int)).len(),
            fields@.len() <= 2,
            forall|j: int| 0 <= j < fields@.len() ==> #[trigger] fields@[j]@ == nonblank(
                ps.take(i as int),
            )[j],
        decreases pieces@.len() - i,
    {
        assert(ps.take(i + 1).drop_last() =~= ps.take(i as int));
        assert(ps.take(i + 1).last() == ps[i as int]);
        let tp = trim_chars(pieces[i].as_slice());
        if tp.len() > 0 {
            fields.push(pieces[i].clone());
        }
        i += 1;
    }
    proof {
        // Once two fields are found, the first two fields no longer change.
        lemma_nonblank_prefix_stable(ps, i as int);
    }
    if fields.len() >= 2 {
        let v = fields.pop().unwrap();
        let k = fields.pop().unwrap();
        Some((k, v))
    } else {
        None
    }
}

proof fn lemma_nonblank_prefix_stable(ps: Seq<Seq<char>>, i: int)
    requires
        0 <= i <= ps.len(),
        i == ps.len() || nonblank(ps.take(i)).len() >= 2,
    ensures
        nonblank(ps.take(i)).len() >= 2 ==> nonblank(ps).len() >= 2 && nonblank(ps)[0]
            == nonblank(ps.take(i))[0] && nonblank(ps)[1] == nonblank(ps.take(i))[1],
        nonblank(ps.take(i)).len() < 2 ==> nonblank(ps) == nonblank(ps.take(i)),
    decreases ps.len() - i,
{
    if i == ps.len() {
        assert(ps.take(i) =~= ps);
    } else {
        lemma_nonblank_extend(ps, i, ps.len() as int);
        assert(ps.take(ps.len() as int) =~= ps);
    }
}

proof fn lemma_nonblank_extend(ps: Seq<Seq<char>>, i: int, j: int)
    requires
        0 <= i <= j <= ps.len(),
    ensures
        nonblank(ps.take(j)).len() >= nonblank(ps.take(i)).len(),
        forall|k: int|
            0 <= k < nonblank(ps.take(i)).len() ==> nonblank(ps.take(j))[k] == nonblank(
                ps.take(i),
            )[k],
    decreases j - i,
{
    if j > i {
        lemma_nonblank_extend(ps, i, j - 1);
        assert(ps.take(j).drop_last() =~= ps.take(j - 1));
    }
    if j == ps.len() {
        assert(ps.take(j) =~= ps);
    }
}

/// Parses a Valve ACF (Application Cache File) to extract
/// `(appid, name, installdir)`. ACF files use a KeyValues format with
/// `"key"\t\t"value"` lines.
pub fn parse_acf(content: &str) -> (r: Option<(u64, String, String)>)
    ensures
        match spec_parse_acf(content@) {
            Some((a, n, d)) => r matches Some((ra, rn, rd)) && ra == a && rn@ == n && rd@ == d,
            None => r is None,
        },
{
    let chars = chars_of(content);
    let lines = split_chars(chars.as_slice(), '\n');
    let ghost ls = split(content@, '\n');
    let key_appid = chars_of("appid");
    let key_name = chars_of("name");
    let key_installdir = chars_of("installdir");
    let mut appid: Option<u64> = None;
    let mut name: Option<Vec<char>> = None;
    let mut installdir: Option<Vec<char>> = None;
    let mut i: usize = 0;
    while i < lines.len()
        invariant
            i <= lines@.len(),
            lines@.len() == ls.len(),
            forall|j: int| 0 <= j < lines@.len() ==> #[trigger] lines@[j]@ == ls[j],
            key_appid@ == "appid"@,
            key_name@ == "name"@,
            key_installdir@ == "installdir"@,
            appid == acf_scan(ls.take(i as int)).0,
            match acf_scan(ls.take(i as int)).1 {
                Some(n) => name matches Some(v) && v@ == n,
                None => name is None,
            },
            match acf_scan(ls.take(i as int)).2 {
                Some(d) => installdir matches Some(v) && v@ == d,
                None => installdir is None,
            },
        decreases lines@.len() - i,
    {
        assert(ls.take(i + 1).drop_last() =~= ls.take(i as int));
        assert(ls.take(i + 1).last() == ls[i as int]);
        match line_entry(lines[i].as_slice()) {
            Some((k, v)) => {
                if chars_eq_ignore_ascii_case(k.as_slice(), key_appid.as_slice()) {
                    appid = parse_u64(v.as_slice());
                } else if chars_eq_ignore_ascii_case(k.as_slice(), key_name.as_slice()) {
                    name = Some(v);
                } else if chars_eq_ignore_ascii_case(k.as_slice(), key_installdir.as_slice()) {
                    installdir = Some(v);
                }
            },
            None => {},
        }
        i += 1;
    }
    assert(ls.take(lines@.len() as int) =~= ls);
    match (appid, name, installdir) {
        (Some(a), Some(n), Some(d)) => Some((a, string_of(n.as_slice()), string_of(d.as_slice()))),
        _ => None,
    }
}

// ---------------------------------------------------------------------------
// Detected games
// ---------------------------------------------------------------------------

/// The store a game was installed through.
#[derive(Debug, Clone, Copy, PartialEq, Eq, Structural)]
pub enum GameStore {
    Steam,
    Gog,
}

/// A game found installed on the machine.
#[derive(Debug, Clone)]
pub struct DetectedGame {
    pub name: String,
    pub store: GameStore,
    pub install_path: String,
    pub exe_path: Option<String>,
    pub rating: Option<CompatRating>,
    pub bundle_available: bool,
}

/// A detected game as a value: name, store, install path, rating and
/// whether a bundle is available (no executable is ever set by detection).
pub open spec fn detected_view(g: DetectedGame) -> (Seq<char>, GameStore, Seq<char>, Option<CompatRating>, bool) {
    (g.name@, g.store, g.install_path@, g.rating, g.bundle_available)
}

/// The first database entry satisfying `p`, if any.
pub open spec fn lookup(db: CompatDatabase, p: spec_fn(CompatEntry) -> bool) -> Option<CompatEntry> {
    let i = first_index(db.games@, p);
    if i >= 0 {
        Some(db.games@[i])
    } else {
        None
    }
}

/// The view of a game detected with database entry `e`.
pub open spec fn with_entry(
    name: Seq<char>,
    store: GameStore,
    path: Seq<char>,
    e: Option<CompatEntry>,
) -> (Seq<char>, GameStore, Seq<char>, Option<CompatRating>, bool) {
    match e {
        Some(e) => (name, store, path, Some(e.rating), e.bundle_available),
        None => (name, store, path, None, false),
    }
}

fn detected(
    name: String,
    store: GameStore,
    install_path: String,
    entry: Option<&CompatEntry>,
) -> (r: DetectedGame)
    ensures
        detected_view(r) == with_entry(name@, store, install_path@, match entry {
            Some(e) => Some(*e),
            None => None,
        }),
        r.exe_path is None,
{
    let (rating, bundle_available) = match entry {
        Some(e) => (Some(e.rating), e.bundle_available),
        None => (None, false),
    };
    DetectedGame { name, store, install_path, exe_path: None, rating, bundle_available }
}

/// Whether a file name is that of a Steam app manifest.
pub open spec fn is_manifest_name(name: Seq<char>) -> bool {
    is_prefix("appmanifest_"@, name) && is_suffix(".acf"@, name)
}

/// Whether a file name is that of a Steam app manifest
/// (`appmanifest_<id>.acf`).
pub fn is_app_manifest(file_name: &str) -> (r: bool)
    ensures
        r == is_manifest_name(file_name@),
{
    starts_with(file_name, "appmanifest_") && ends_with(file_name, ".acf")
}

/// A file in a Steam library folder: its name, and its contents where it is
/// a manifest and could be read.
#[derive(Debug, Clone)]
pub struct SteamFile {
    pub file_name: String,
    pub content: Option<String>,
}

/// The games a list of Steam library files shows, in file order.
pub open spec fn steam_games(
    steamapps_dir: Seq<char>,
    files: Seq<SteamFile>,
    db: CompatDatabase,
) -> Seq<(Seq<char>, GameStore, Seq<char>, Option<CompatRating>, bool)>
    decreases files.len(),
{
    if files.len() == 0 {
        Seq::empty()
    } else {
        let prev = steam_games(steamapps_dir, files.drop_last(), db);
        let f = files.last();
        if is_manifest_name(f.file_name@) && f.content is Some {
            match spec_parse_acf(f.content->0@) {
                Some((appid, name, dir)) => prev.push(
                    with_entry(
                        name,
                        GameStore::Steam,
                        spec_join(spec_join(steamapps_dir, "common"@), dir),
                        lookup(db, has_steam_appid(appid)),
                    ),
                ),
                None => prev,
            }
        } else {
            prev
        }
    }
}

proof fn lemma_found_lookup(db: CompatDatabase, p: spec_fn(CompatEntry) -> bool, r: Option<&CompatEntry>)
    requires
        crate::compat::found(db.games@, p, r),
    ensures
        match r {
            Some(e) => Some(*e),
            None => None,
        } == lookup(db, p),
{
}

/// The Steam games in a library folder (`steamapps_dir`), from its files in
/// directory order: each app manifest that parses gives a game installed in
/// `common/<installdir>`, rated by the database entry with its app id.
pub fn detect_steam_games(
    steamapps_dir: &str,
    files: &[SteamFile],
    compat_db: &CompatDatabase,
) -> (r: Vec<DetectedGame>)
    ensures
        r@.map_values(|g: DetectedGame| detected_view(g)) == steam_games(steamapps_dir@, files@, *compat_db),
        forall|i: int| 0 <= i < r@.len() ==> (#[trigger] r@[i]).exe_path is None,
{
    let common = join(steamapps_dir, "common");
    let mut games: Vec<DetectedGame> = Vec::new();
    let mut i: usize = 0;
    while i < files.len()
        invariant
            i <= files@.len(),
            common@ == spec_join(steamapps_dir@, "common"@),
            games@.map_values(|g: DetectedGame| detected_view(g)) == steam_games(
                steamapps_dir@,
                files@.take(i as int),
                *compat_db,
            ),
            forall|k: int| 0 <= k < games@.len() ==> (#[trigger] games@[k]).exe_path is None,
        decreases files@.len() - i,
    {
        let ghost before = games@;
        assert(files@.take(i + 1).drop_last() =~= files@.take(i as int));
        assert(files@.take(i + 1).last() == files@[i as int]);
        let f = &files[i];
        if is_app_manifest(f.file_name.as_str()) {
            match &f.content {
                Some(c) => {
                    match parse_acf(c.as_str()) {
                        Some((appid, name, dir)) => {
                            let install_path = join(common.as_str(), dir.as_str());
                            let entry = compat_db.find_by_steam_appid(appid);
                            proof {
                                lemma_found_lookup(*compat_db, has_steam_appid(appid), entry);
                            }
                            let g = detected(name, GameStore::Steam, install_path, entry);
                            games.push(g);
                            assert(games@.map_values(|g: DetectedGame| detected_view(g)) =~= before.map_values(
                                |g: DetectedGame| detected_view(g),
                            ).push(detected_view(g)));
                        },
                        None => {},
                    }
                },
                None => {},
            }
        }
        i += 1;
    }
    assert(files@.take(files@.len() as int) =~= files@);
    games
}

/// A folder in a GOG games directory: its path and its name.
#[derive(Debug, Clone)]
pub struct GogFolder {
    pub path: String,
    pub name: String,
}

/// The GOG id a folder name is tried as: lower case, spaces made `_`.
pub open spec fn folder_gog_id(name: Seq<char>) -> Seq<char> {
    replace_char(spec_to_lowercase(name), ' ', '_')
}

/// The database entry a GOG folder is rated by: the one whose slug is the
/// folder name's slug, else the one whose GOG id is the folder's id.
pub open spec fn gog_entry(db: CompatDatabase, name: Seq<char>) -> Option<CompatEntry> {
    match lookup(db, has_slug(spec_slugify(name))) {
        Some(e) => Some(e),
        None => lookup(db, has_gog_id(folder_gog_id(name))),
    }
}

/// The games a list of GOG folders shows, in order.
pub open spec fn gog_games(folders: Seq<GogFolder>, db: CompatDatabase) -> Seq<
    (Seq<char>, GameStore, Seq<char>, Option<CompatRating>, bool),
>
    decreases folders.len(),
{
    if folders.len() == 0 {
        Seq::empty()
    } else {
        let f = folders.last();
        gog_games(folders.drop_last(), db).push(
            with_entry(f.name@, GameStore::Gog, f.path@, gog_entry(db, f.name@)),
        )
    }
}

/// The GOG games in the given folders (every directory found in the GOG
/// games directories, in order), each rated by its database entry.
pub fn detect_gog_games(folders: &[GogFolder], compat_db: &CompatDatabase) -> (r: Vec<DetectedGame>)
    ensures
        r@.map_values(|g: DetectedGame| detected_view(g)) == gog_games(folders@, *compat_db),
        forall|i: int| 0 <= i < r@.len() ==> (#[trigger] r@[i]).exe_path is None,
{
    let mut games: Vec<DetectedGame> = Vec::new();
    let mut i: usize = 0;
    while i < folders.len()
        invariant
            i <= folders@.len(),
            games@.map_values(|g: DetectedGame| detected_view(g)) == gog_games(
                folders@.take(i as int),
                *compat_db,
            ),
            forall|k: int| 0 <= k < games@.len() ==> (#[trigger] games@[k]).exe_path is None,
        decreases folders@.len() - i,
    {
        let ghost before = games@;
        assert(folders@.take(i + 1).drop_last() =~= folders@.take(i as int));
        assert(folders@.take(i + 1).last() == folders@[i as int]);
        let f = &folders[i];
        let folder_slug = slugify(f.name.as_str());
        let by_slug = compat_db.find_by_slug(folder_slug.as_str());
        proof {
            lemma_found_lookup(*compat_db, has_slug(folder_slug@), by_slug);
        }
        let entry = match by_slug {
            Some(e) => Some(e),
            None => {
                let lower = to_lowercase(f.name.as_str());
                let id = replace_chars(lower.as_str(), ' ', '_');
                let by_id = compat_db.find_by_gog_id(id.as_str());
                proof {
                    lemma_found_lookup(*compat_db, has_gog_id(id@), by_id);
                }
                by_id
            },
        };
        let g = detected(copy_str(f.name.as_str()), GameStore::Gog, copy_str(f.path.as_str()), entry);
        games.push(g);
        assert(games@.map_values(|g: DetectedGame| detected_view(g)) =~= before.map_values(
            |g: DetectedGame| detected_view(g),
        ).push(detected_view(g)));
        i += 1;
    }
    assert(folders@.take(folders@.len() as int) =~= folders@);
    games
}

} // verus!
