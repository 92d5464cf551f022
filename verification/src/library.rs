//! The game library: the games the user has added.
use vstd::prelude::*;

use crate::error::{Error, Result};
use crate::seq_util::{first_index, keep, lemma_first_index, lemma_keep_take};
use crate::path::{extension, join, spec_extension, spec_join};
use crate::string_map::StringMap;
use crate::config::is_blank_text;
use crate::text::{concat, copy_str, str_eq, trim};

verus! {

/// How a game was installed.
#[derive(Debug, Clone, Copy, PartialEq, Eq, Structural)]
pub enum InstallType {
    Installer,
    Portable,
    FolderInstall,
}

/// The install type that a name on the command line stands for:
/// `installer`, `portable` or `folder`.
pub open spec fn spec_install_type_named(s: Seq<char>) -> Option<InstallType> {
    if s == "installer"@ {
        Some(InstallType::Installer)
    } else if s == "portable"@ {
        Some(InstallType::Portable)
    } else if s == "folder"@ {
        Some(InstallType::FolderInstall)
    } else {
        None
    }
}

/// Reads an install type from its command-line name; `None` for any other
/// word.
pub fn parse_install_type(s: &str) -> (r: Option<InstallType>)
    ensures
        r == spec_install_type_named(s@),
{
    if str_eq(s, "installer") {
        Some(InstallType::Installer)
    } else if str_eq(s, "portable") {
        Some(InstallType::Portable)
    } else if str_eq(s, "folder") {
        Some(InstallType::FolderInstall)
    } else {
        None
    }
}

/// The messages with which the command line refuses to add a game.
pub open spec fn blank_name_message() -> Seq<char> {
    "Error: Game name cannot be empty."@
}

pub open spec fn blank_exe_message() -> Seq<char> {
    "Error: Game executable path cannot be empty."@
}

pub open spec fn unknown_install_type_message(t: Seq<char>) -> Seq<char> {
    "Unknown install type '"@ + t + "'. Use: installer, portable, or folder"@
}

pub open spec fn slug_exists_message(slug: Seq<char>) -> Seq<char> {
    "A game with slug '"@ + slug + "' already exists."@
}

/// Checks what the command line was given to add a game, in order: the
/// name and the executable path must not be blank, and the install type
/// must be one of its names. Returns the install type, or the message to
/// print.
pub fn check_add_input(name: &str, exe: &str, install_type: &str) -> (r: core::result::Result<InstallType, String>)
    ensures
        trim(name@).len() == 0 ==> (r matches Err(m) && m@ == blank_name_message()),
        trim(name@).len() != 0 && trim(exe@).len() == 0 ==> (r matches Err(m) && m@
            == blank_exe_message()),
        trim(name@).len() != 0 && trim(exe@).len() != 0 ==> match spec_install_type_named(install_type@) {
            Some(t) => r matches Ok(x) && x == t,
            None => r matches Err(m) && m@ == unknown_install_type_message(install_type@),
        },
{
    if is_blank_text(name) {
        return Err(copy_str("Error: Game name cannot be empty."));
    }
    if is_blank_text(exe) {
        return Err(copy_str("Error: Game executable path cannot be empty."));
    }
    match parse_install_type(install_type) {
        Some(t) => Ok(t),
        None => {
            let a = concat("Unknown install type '", install_type);
            Err(concat(a.as_str(), "'. Use: installer, portable, or folder"))
        },
    }
}

/// A point in time, UTC: whole seconds since the Unix epoch, and the
/// nanoseconds within that second (from 1_000_000_000 on during a leap
/// second). Times are ordered by the seconds, then the nanoseconds.
#[derive(Debug, Clone, Copy, PartialEq, Eq, Structural)]
pub struct Timestamp {
    pub secs: i64,
    pub nanos: u32,
}

/// A time as one integer, ordered as the times are.
pub open spec fn time_value(t: Timestamp) -> int {
    t.secs * 0x1_0000_0000 + t.nanos
}

/// Times compare as their seconds, then their nanoseconds.
pub proof fn lemma_time_order(a: Timestamp, b: Timestamp)
    ensures
        (time_value(a) >= time_value(b)) == (a.secs > b.secs || (a.secs == b.secs && a.nanos >= b.nanos)),
{
    let (x, y) = (a.secs as int, b.secs as int);
    let (m, n) = (a.nanos as int, b.nanos as int);
    assert(0 <= m < 0x1_0000_0000 && 0 <= n < 0x1_0000_0000);
    if x > y {
        assert(x * 0x1_0000_0000 >= y * 0x1_0000_0000 + 0x1_0000_0000) by (nonlinear_arith)
            requires
                x > y,
        ;
    } else if x < y {
        assert(y * 0x1_0000_0000 >= x * 0x1_0000_0000 + 0x1_0000_0000) by (nonlinear_arith)
            requires
                x < y,
        ;
    }
}

/// A game in the library.
#[derive(Debug, Clone)]
pub struct Game {
    pub name: String,
    pub slug: String,
    pub exe: String,
    pub install_type: InstallType,
    pub wine_config: String,
    pub env: StringMap,
    pub added_at: Timestamp,
    pub last_played: Option<Timestamp>,
    pub icon_path: Option<String>,
    pub dxvk_enabled: bool,
    pub use_gptk: bool,
}

/// The Wine installation a game uses unless it says otherwise.
pub fn default_wine_config() -> (r: String)
    ensures
        r@ == "default"@,
{
    copy_str("default")
}

/// The games the user has added.
#[derive(Debug, Clone)]
pub struct GameLibrary {
    pub games: Vec<Game>,
}

impl Default for GameLibrary {
    fn default() -> (r: Self)
        ensures
            r.games@.len() == 0,
    {
        GameLibrary { games: Vec::new() }
    }
}

pub open spec fn has_slug(slug: Seq<char>) -> spec_fn(Game) -> bool {
    |g: Game| g.slug@ == slug
}

pub open spec fn other_slug(slug: Seq<char>) -> spec_fn(Game) -> bool {
    |g: Game| g.slug@ != slug
}

/// Whether some game in `gs` has slug `slug`.
pub open spec fn slug_taken(gs: Seq<Game>, slug: Seq<char>) -> bool {
    exists|i: int| 0 <= i < gs.len() && #[trigger] gs[i].slug@ == slug
}

/// No two games share a slug.
pub open spec fn slugs_unique(gs: Seq<Game>) -> bool {
    forall|i: int, j: int| 0 <= i < gs.len() && 0 <= j < gs.len() && i != j ==> #[trigger] gs[i].slug@ != #[trigger] gs[j].slug@
}

/// What a game is sorted by among recently played ones.
pub open spec fn played_at(g: Game) -> int {
    match g.last_played {
        Some(t) => time_value(t),
        None => i64::MIN * 0x1_0000_0000 - 1,
    }
}

pub open spec fn was_played() -> spec_fn(Game) -> bool {
    |g: Game| g.last_played is Some
}

/// Where `x` goes in a list sorted from latest to earliest: after every game
/// played at the same time or later.
pub open spec fn insert_pos(s: Seq<Game>, x: Game) -> int
    decreases s.len(),
{
    if s.len() == 0 {
        0
    } else if played_at(s.last()) >= played_at(x) {
        s.len() as int
    } else {
        insert_pos(s.drop_last(), x)
    }
}

/// `s` sorted from latest played to earliest, games played at the same time
/// keeping their order (a stable sort).
pub open spec fn sort_latest_first(s: Seq<Game>) -> Seq<Game>
    decreases s.len(),
{
    if s.len() == 0 {
        s
    } else {
        let t = sort_latest_first(s.drop_last());
        t.insert(insert_pos(t, s.last()), s.last())
    }
}

/// Sorted from latest to earliest.
pub open spec fn latest_first(s: Seq<Game>) -> bool {
    forall|i: int, j: int| 0 <= i < j < s.len() ==> played_at(#[trigger] s[i]) >= played_at(#[trigger] s[j])
}

/// The library after importing `imported` into `existing`: each imported
/// game whose slug is not taken yet (by an existing game or an earlier
/// imported one) is appended.
pub open spec fn merged(existing: Seq<Game>, imported: Seq<Game>) -> Seq<Game>
    decreases imported.len(),
{
    if imported.len() == 0 {
        existing
    } else {
        let m = merged(existing, imported.drop_last());
        if slug_taken(m, imported.last().slug@) {
            m
        } else {
            m.push(imported.last())
        }
    }
}

fn index_of_slug(games: &Vec<Game>, slug: &str) -> (r: Option<usize>)
    ensures
        match r {
            Some(i) => i as int == first_index(games@, has_slug(slug@)) && i < games@.len(),
            None => first_index(games@, has_slug(slug@)) == -1,
        },
        r is None <==> !slug_taken(games@, slug@),
{
    let ghost p = has_slug(slug@);
    proof {
        lemma_first_index(games@, p);
    }
    let mut i: usize = 0;
    while i < games.len()
        invariant
            i <= games@.len(),
            p == has_slug(slug@),
            forall|j: int| 0 <= j < i ==> !p(#[trigger] games@[j]),
            -1 <= first_index(games@, p) < games@.len(),
            first_index(games@, p) >= 0 ==> p(games@[first_index(games@, p)]),
            forall|j: int|
                0 <= j < games@.len() && (first_index(games@, p) < 0 || j < first_index(
                    games@,
                    p,
                )) ==> !p(#[trigger] games@[j]),
        decreases games@.len() - i,
    {
        if str_eq(games[i].slug.as_str(), slug) {
            assert(p(games@[i as int]));
            assert(slug_taken(games@, slug@));
            return Some(i);
        }
        i += 1;
    }
    proof {
        if slug_taken(games@, slug@) {
            let k = choose|k: int| 0 <= k < games@.len() && #[trigger] games@[k].slug@ == slug@;
            assert(p(games@[k]));
        }
    }
    None
}

impl GameLibrary {
    /// An empty library.
    pub fn new() -> (r: GameLibrary)
        ensures
            r.games@.len() == 0,
    {
        GameLibrary { games: Vec::new() }
    }

    /// Adds a game at the end of the library. It does not look at the slugs
    /// already there: callers that keep slugs unique check with `find`
    /// first (see `law_add_keeps_slugs_unique`).
    pub fn add(&mut self, game: Game) -> (r: Result<()>)
        ensures
            r is Ok,
            final(self).games@ == old(self).games@.push(game),
    {
        self.games.push(game);
        Ok(())
    }

    /// Removes the games with slug `slug`; `GameNotFound` if there is none.
    pub fn remove(&mut self, slug: &str) -> (r: Result<()>)
        ensures
            final(self).games@ == keep(old(self).games@, other_slug(slug@)),
            slug_taken(old(self).games@, slug@) <==> r is Ok,
            r matches Err(e) ==> e matches Error::GameNotFound(s) && s@ == slug@,
    {
        let ghost orig = self.games@;
        let ghost p = other_slug(slug@);
        let mut rest: Vec<Game> = Vec::new();
        std::mem::swap(&mut rest, &mut self.games);
        let mut removed = false;
        let n = rest.len();
        let mut j: usize = 0;
        assert(orig.skip(0) =~= orig);
        while rest.len() > 0
            invariant
                j <= orig.len(),
                orig.len() == n,
                p == other_slug(slug@),
                rest@ == orig.skip(j as int),
                self.games@ == keep(orig.take(j as int), p),
                removed <==> slug_taken(orig.take(j as int), slug@),
            decreases rest@.len(),
        {
            proof {
                lemma_keep_take(orig, p, j as int);
                assert(orig.take(j + 1) =~= orig.take(j as int).push(orig[j as int]));
            }
            let g = rest.remove(0);
            assert(rest@ =~= orig.skip(j + 1));
            let same = str_eq(g.slug.as_str(), slug);
            proof {
                let t = orig.take(j + 1);
                if slug_taken(orig.take(j as int), slug@) {
                    let k = choose|k: int| 0 <= k < orig.take(j as int).len() && #[trigger] orig.take(j as int)[k].slug@ == slug@;
                    assert(t[k] == orig.take(j as int)[k]);
                }
                if same {
                    assert(t[j as int].slug@ == slug@);
                } else if slug_taken(t, slug@) {
                    let k = choose|k: int| 0 <= k < t.len() && #[trigger] t[k].slug@ == slug@;
                    assert(k < j);
                    assert(orig.take(j as int)[k] == t[k]);
                }
            }
            if same {
                removed = true;
            } else {
                self.games.push(g);
            }
            j += 1;
        }
        assert(orig.take(j as int) =~= orig);
        if removed {
            Ok(())
        } else {
            Err(Error::GameNotFound(copy_str(slug)))
        }
    }

    /// The first game with slug `slug`.
    pub fn find(&self, slug: &str) -> (r: Option<&Game>)
        ensures
            match r {
                Some(g) => first_index(self.games@, has_slug(slug@)) >= 0 && *g == self.games@[first_index(self.games@, has_slug(slug@))],
                None => !slug_taken(self.games@, slug@),
            },
            r is Some ==> r->0.slug@ == slug@,
    {
        proof {
            lemma_first_index(self.games@, has_slug(slug@));
        }
        match index_of_slug(&self.games, slug) {
            Some(i) => Some(&self.games[i]),
            None => None,
        }
    }

    /// Checks, before a game is added under `slug`, that no game has that
    /// slug yet; the message to print where one has.
    pub fn check_slug_free(&self, slug: &str) -> (r: core::result::Result<(), String>)
        ensures
            slug_taken(self.games@, slug@) <==> r is Err,
            r matches Err(m) ==> m@ == slug_exists_message(slug@),
    {
        match index_of_slug(&self.games, slug) {
            Some(_) => {
                let a = concat("A game with slug '", slug);
                Err(concat(a.as_str(), "' already exists."))
            },
            None => Ok(()),
        }
    }

    /// The first game with slug `slug`, to be changed in place.
    pub fn find_mut(&mut self, slug: &str) -> (r: Option<&mut Game>)
        ensures
            match r {
                Some(g) => {
                    let i = first_index(old(self).games@, has_slug(slug@));
                    &&& 0 <= i < old(self).games@.len()
                    &&& *g == old(self).games@[i]
                    &&& final(self).games@ == old(self).games@.update(i, *final(g))
                },
                None => !slug_taken(old(self).games@, slug@) && final(self).games@ == old(self).games@,
            },
    {
        match index_of_slug(&self.games, slug) {
            Some(i) => Some(&mut self.games[i]),
            None => None,
        }
    }

    /// The games that have been played, latest first; games played at the
    /// same time keep their library order.
    pub fn recently_played(&self) -> (r: Vec<&Game>)
        ensures
            r@.map_values(|g: &Game| *g) == sort_latest_first(keep(self.games@, was_played())),
            latest_first(r@.map_values(|g: &Game| *g)),
    {
        let ghost p = was_played();
        let mut played: Vec<&Game> = Vec::new();
        let mut i: usize = 0;
        while i < self.games.len()
            invariant
                i <= self.games@.len(),
                p == was_played(),
                played@.map_values(|g: &Game| *g) == keep(self.games@.take(i as int), p),
            decreases self.games@.len() - i,
        {
            proof {
                lemma_keep_take(self.games@, p, i as int);
            }
            let g = &self.games[i];
            let ghost before = played@;
            if g.last_played.is_some() {
                played.push(g);
                assert(played@.map_values(|g: &Game| *g) =~= before.map_values(|g: &Game| *g).push(*g));
            }
            i += 1;
        }
        assert(self.games@.take(self.games@.len() as int) =~= self.games@);
        let ghost ps = played@.map_values(|g: &Game| *g);
        let mut out: Vec<&Game> = Vec::new();
        let mut k: usize = 0;
        assert(ps.take(0) =~= Seq::<Game>::empty());
        while k < played.len()
            invariant
                k <= played@.len(),
                ps == played@.map_values(|g: &Game| *g),
                out@.map_values(|g: &Game| *g) == sort_latest_first(ps.take(k as int)),
                latest_first(out@.map_values(|g: &Game| *g)),
                out@.len() == k,
            decreases played@.len() - k,
        {
            let x = played[k];
            let ghost ov = out@.map_values(|g: &Game| *g);
            assert(ps.take(k + 1).drop_last() =~= ps.take(k as int));
            assert(ps.take(k + 1).last() == *x);
            // Find where `x` goes: after every game played at the same time or later.
            let mut pos = out.len();
            proof {
                lemma_insert_pos(ov, *x);
            }
            while pos > 0 && !later_or_same(out[pos - 1], x)
                invariant
                    pos <= out@.len(),
                    ov == out@.map_values(|g: &Game| *g),
                    insert_pos(ov, *x) <= pos,
                    forall|m: int| pos <= m < ov.len() ==> played_at(#[trigger] ov[m]) < played_at(*x),
                    latest_first(ov),
                decreases pos,
            {
                proof {
                    lemma_insert_pos(ov, *x);
                }
                pos -= 1;
            }
            proof {
                lemma_insert_pos_exact(ov, *x, pos as int);
            }
            out.insert(pos, x);
            proof {
                assert(out@.map_values(|g: &Game| *g) =~= ov.insert(pos as int, *x));
                lemma_insert_sorted(ov, *x, pos as int);
            }
            k += 1;
        }
        assert(ps.take(played@.len() as int) =~= ps);
        out
    }
}

/// What `slug::slugify` returns for a string. It lowers ASCII letters,
/// transliterates other characters through `deunicode` and turns every run
/// of other characters into one `-`; the transliteration tables are not
/// restated here.
pub uninterp spec fn spec_slugify(name: Seq<char>) -> Seq<char>;

pub open spec fn is_slug_char(c: char) -> bool {
    ('a' <= c && c <= 'z') || ('0' <= c && c <= '9') || c == '-'
}

/// A slug: only `a-z`, `0-9` and `-`, never two `-` in a row, and no `-` at
/// either end.
pub open spec fn is_slug(s: Seq<char>) -> bool {
    &&& forall|i: int| 0 <= i < s.len() ==> is_slug_char(#[trigger] s[i])
    &&& forall|i: int| 0 <= i < s.len() - 1 ==> !(#[trigger] s[i] == '-' && s[i + 1] == '-')
    &&& s.len() > 0 ==> s[0] != '-' && s.last() != '-'
}

/// The slug of a game name (`slug::slugify`). Its documentation promises
/// the shape that `is_slug` states; what the slug is beyond that is named,
/// not stated.
#[verifier::external_body]
pub fn slugify(name: &str) -> (r: String)
    ensures
        r@ == spec_slugify(name@),
        is_slug(r@),
{
    slug::slugify(name)
}

/// The extension a game icon keeps: that of the source image, `png` when
/// it has none.
pub open spec fn icon_extension(source: Seq<char>) -> Seq<char> {
    match spec_extension(source) {
        Some(e) => e,
        None => "png"@,
    }
}

/// Where a game's icon is copied: `<icons_dir>/<slug>.<extension>`.
pub fn icon_path(icons_dir: &str, slug: &str, source: &str) -> (r: String)
    ensures
        r@ == spec_join(icons_dir@, slug@ + "."@ + icon_extension(source@)),
{
    let ext = match extension(source) {
        Some(e) => e,
        None => copy_str("png"),
    };
    let dotted = concat(slug, ".");
    let name = concat(dotted.as_str(), ext.as_str());
    join(icons_dir, name.as_str())
}

/// Imports `imported` into `existing`: each game whose slug is not taken yet
/// is appended, in order. Returns how many were.
pub fn import_library(existing: &mut GameLibrary, imported: Vec<Game>) -> (r: usize)
    ensures
        final(existing).games@ == merged(old(existing).games@, imported@),
        r == final(existing).games@.len() - old(existing).games@.len(),
{
    let ghost start = existing.games@;
    let mut rest = imported;
    let ghost orig = rest@;
    let n = rest.len();
    let mut count: usize = 0;
    let mut j: usize = 0;
    assert(orig.skip(0) =~= orig);
    assert(orig.take(0) =~= Seq::<Game>::empty());
    while rest.len() > 0
        invariant
            j <= orig.len(),
            orig.len() == n,
            rest@ == orig.skip(j as int),
            existing.games@ == merged(start, orig.take(j as int)),
            count == existing.games@.len() - start.len(),
            count <= j,
        decreases rest@.len(),
    {
        assert(orig.take(j + 1).drop_last() =~= orig.take(j as int));
        let g = rest.remove(0);
        assert(rest@ =~= orig.skip(j + 1));
        assert(orig.take(j + 1).last() == g);
        if index_of_slug(&existing.games, g.slug.as_str()).is_none() {
            let _ = existing.add(g);
            count += 1;
        }
        j += 1;
    }
    assert(orig.take(j as int) =~= orig);
    count
}

/// Sorting keeps the number of games.
pub proof fn keep_played_len(s: Seq<Game>)
    ensures
        sort_latest_first(s).len() == s.len(),
        forall|k: int| 0 <= k < sort_latest_first(s).len() ==> s.contains(#[trigger] sort_latest_first(s)[k]),
    decreases s.len(),
{
    if s.len() > 0 {
        keep_played_len(s.drop_last());
        let t = sort_latest_first(s.drop_last());
        lemma_insert_pos(t, s.last());
        let pos = insert_pos(t, s.last());
        let r = t.insert(pos, s.last());
        assert forall|k: int| 0 <= k < r.len() implies s.contains(#[trigger] r[k]) by {
            if k < pos {
                assert(r[k] == t[k]);
                let w = choose|w: int| 0 <= w < s.drop_last().len() && s.drop_last()[w] == t[k];
                assert(s[w] == t[k]);
            } else if k == pos {
                assert(s[s.len() - 1] == s.last());
            } else {
                assert(r[k] == t[k - 1]);
                let w = choose|w: int| 0 <= w < s.drop_last().len() && s.drop_last()[w] == t[k - 1];
                assert(s[w] == t[k - 1]);
            }
        }
    }
}

fn later_or_same(a: &Game, b: &Game) -> (r: bool)
    ensures
        r == (played_at(*a) >= played_at(*b)),
{
    match (a.last_played, b.last_played) {
        (Some(x), Some(y)) => {
            proof {
                lemma_time_order(x, y);
            }
            x.secs > y.secs || (x.secs == y.secs && x.nanos >= y.nanos)
        },
        (Some(_), None) => true,
        (None, Some(_)) => false,
        (None, None) => true,
    }
}

proof fn lemma_insert_pos(s: Seq<Game>, x: Game)
    ensures
        0 <= insert_pos(s, x) <= s.len(),
        insert_pos(s, x) > 0 ==> played_at(s[insert_pos(s, x) - 1]) >= played_at(x),
        forall|m: int| insert_pos(s, x) <= m < s.len() && latest_first(s) ==> played_at(#[trigger] s[m]) < played_at(x),
    decreases s.len(),
{
    if s.len() > 0 {
        lemma_insert_pos(s.drop_last(), x);
        if insert_pos(s, x) > 0 && insert_pos(s, x) < s.len() {
            assert(s[insert_pos(s, x) - 1] == s.drop_last()[insert_pos(s, x) - 1]);
        }
        assert forall|m: int| insert_pos(s, x) <= m < s.len() && latest_first(s) implies played_at(#[trigger] s[m]) < played_at(x) by {
            if m < s.len() - 1 {
                assert(s[m] == s.drop_last()[m]);
                assert(latest_first(s.drop_last()));
            }
        }
    }
}

proof fn lemma_insert_pos_exact(s: Seq<Game>, x: Game, pos: int)
    requires
        0 <= pos <= s.len(),
        latest_first(s),
        insert_pos(s, x) <= pos,
        pos == 0 || played_at(s[pos - 1]) >= played_at(x),
    ensures
        insert_pos(s, x) == pos,
    decreases s.len(),
{
    if s.len() > 0 {
        if played_at(s.last()) >= played_at(x) {
            if pos < s.len() {
                // Everything from `pos` on is earlier than `x`, the last one included.
                lemma_insert_pos(s, x);
            }
        } else {
            if pos == s.len() {
                assert(played_at(s[pos - 1]) >= played_at(x));
            } else {
                assert(s.drop_last().len() >= pos);
                assert forall|i: int, j: int| 0 <= i < j < s.drop_last().len() implies played_at(#[trigger] s.drop_last()[i]) >= played_at(#[trigger] s.drop_last()[j]) by {
                    assert(s.drop_last()[i] == s[i]);
                    assert(s.drop_last()[j] == s[j]);
                }
                if pos > 0 {
                    assert(s.drop_last()[pos - 1] == s[pos - 1]);
                }
                lemma_insert_pos_exact(s.drop_last(), x, pos);
            }
        }
    }
}

proof fn lemma_insert_sorted(s: Seq<Game>, x: Game, pos: int)
    requires
        0 <= pos <= s.len(),
        latest_first(s),
        pos == 0 || played_at(s[pos - 1]) >= played_at(x),
        forall|m: int| pos <= m < s.len() ==> played_at(#[trigger] s[m]) < played_at(x),
    ensures
        latest_first(s.insert(pos, x)),
{
    let t = s.insert(pos, x);
    assert forall|i: int, j: int| 0 <= i < j < t.len() implies played_at(#[trigger] t[i]) >= played_at(#[trigger] t[j]) by {
        if i < pos && j < pos {
            assert(t[i] == s[i] && t[j] == s[j]);
        } else if i < pos && j == pos {
            assert(t[i] == s[i]);
            assert(played_at(s[i]) >= played_at(s[pos - 1]));
        } else if i < pos {
            assert(t[i] == s[i] && t[j] == s[j - 1]);
        } else if i == pos {
            assert(t[j] == s[j - 1]);
        } else {
            assert(t[i] == s[i - 1] && t[j] == s[j - 1]);
        }
    }
}

} // verus!
