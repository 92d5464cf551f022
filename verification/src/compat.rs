//! The compatibility database: how well games run.
use vstd::prelude::*;

use crate::seq_util::{first_index, keep, lemma_first_index, lemma_keep_take};
use crate::string_map::StringMap;
use crate::text::{ascii_lower, is_ascii_text, chars_of, contains, seq_eq, spec_to_lowercase, str_contains, str_eq, to_lowercase};

verus! {

/// How well a game runs.
#[derive(Debug, Clone, Copy, PartialEq, Eq, Structural)]
pub enum CompatRating {
    Platinum,
    Gold,
    Silver,
    Bronze,
    Borked,
}

pub open spec fn spec_label(r: CompatRating) -> Seq<char> {
    match r {
        CompatRating::Platinum => "Platinum"@,
        CompatRating::Gold => "Gold"@,
        CompatRating::Silver => "Silver"@,
        CompatRating::Bronze => "Bronze"@,
        CompatRating::Borked => "Borked"@,
    }
}

/// Playable means Platinum, Gold or Silver.
pub open spec fn spec_is_playable(r: CompatRating) -> bool {
    r == CompatRating::Platinum || r == CompatRating::Gold || r == CompatRating::Silver
}

impl CompatRating {
    /// The rating's name.
    pub fn label(&self) -> (r: &'static str)
        ensures
            r@ == spec_label(*self),
    {
        match self {
            CompatRating::Platinum => "Platinum",
            CompatRating::Gold => "Gold",
            CompatRating::Silver => "Silver",
            CompatRating::Bronze => "Bronze",
            CompatRating::Borked => "Borked",
        }
    }

    /// Whether a game with this rating can be played.
    pub fn is_playable(&self) -> (r: bool)
        ensures
            r == spec_is_playable(*self),
    {
        match self {
            CompatRating::Platinum | CompatRating::Gold | CompatRating::Silver => true,
            _ => false,
        }
    }
}

/// A game in the compatibility database.
#[derive(Debug, Clone)]
pub struct CompatEntry {
    pub name: String,
    pub slug: String,
    pub rating: CompatRating,
    /// The confidence of the rating, as the bits of its IEEE 754 double.
    pub confidence_bits: u64,
    pub sources: StringMap,
    pub recommended_backend: String,
    pub bundle_available: bool,
    pub steam_appid: Option<u64>,
    pub gog_id: Option<String>,
    pub tags: Vec<String>,
    pub last_updated: String,
}

/// The compatibility database.
#[derive(Debug, Clone)]
pub struct CompatDatabase {
    pub version: u32,
    pub last_updated: String,
    pub games: Vec<CompatEntry>,
}

pub open spec fn has_slug(slug: Seq<char>) -> spec_fn(CompatEntry) -> bool {
    |e: CompatEntry| e.slug@ == slug
}

pub open spec fn has_steam_appid(appid: u64) -> spec_fn(CompatEntry) -> bool {
    |e: CompatEntry| e.steam_appid == Some(appid)
}

pub open spec fn has_gog_id(id: Seq<char>) -> spec_fn(CompatEntry) -> bool {
    |e: CompatEntry| e.gog_id matches Some(g) && g@ == id
}

/// A search matches an entry whose lower-cased name contains the lower-cased
/// query, or whose slug contains it.
pub open spec fn matches_query(query: Seq<char>) -> spec_fn(CompatEntry) -> bool {
    |e: CompatEntry|
        contains(spec_to_lowercase(e.name@), spec_to_lowercase(query)) || contains(
            e.slug@,
            spec_to_lowercase(query),
        )
}

pub open spec fn has_rating(rating: CompatRating) -> spec_fn(CompatEntry) -> bool {
    |e: CompatEntry| e.rating == rating
}

/// The result of looking up the first entry that satisfies `p`.
pub open spec fn found<'a>(games: Seq<CompatEntry>, p: spec_fn(CompatEntry) -> bool, r: Option<&'a CompatEntry>) -> bool {
    let i = first_index(games, p);
    if i >= 0 {
        r == Some(&games[i])
    } else {
        r is None
    }
}

impl CompatDatabase {
    /// The first entry with slug `slug`.
    pub fn find_by_slug(&self, slug: &str) -> (r: Option<&CompatEntry>)
        ensures
            found(self.games@, has_slug(slug@), r),
    {
        let ghost p = has_slug(slug@);
        proof {
            lemma_first_index(self.games@, p);
        }
        let mut i: usize = 0;
        while i < self.games.len()
            invariant
                i <= self.games@.len(),
                p == has_slug(slug@),
                forall|j: int| 0 <= j < i ==> !p(#[trigger] self.games@[j]),
                -1 <= first_index(self.games@, p) < self.games@.len(),
                first_index(self.games@, p) >= 0 ==> p(self.games@[first_index(self.games@, p)]),
                forall|j: int|
                    0 <= j < self.games@.len() && (first_index(self.games@, p) < 0 || j
                        < first_index(self.games@, p)) ==> !p(#[trigger] self.games@[j]),
            decreases self.games@.len() - i,
        {
            if str_eq(self.games[i].slug.as_str(), slug) {
                assert(p(self.games@[i as int]));
                return Some(&self.games[i]);
            }
            i += 1;
        }
        None
    }

    /// The first entry with Steam app id `appid`.
    pub fn find_by_steam_appid(&self, appid: u64) -> (r: Option<&CompatEntry>)
        ensures
            found(self.games@, has_steam_appid(appid), r),
    {
        let ghost p = has_steam_appid(appid);
        proof {
            lemma_first_index(self.games@, p);
        }
        let mut i: usize = 0;
        while i < self.games.len()
            invariant
                i <= self.games@.len(),
                p == has_steam_appid(appid),
                forall|j: int| 0 <= j < i ==> !p(#[trigger] self.games@[j]),
                -1 <= first_index(self.games@, p) < self.games@.len(),
                first_index(self.games@, p) >= 0 ==> p(self.games@[first_index(self.games@, p)]),
                forall|j: int|
                    0 <= j < self.games@.len() && (first_index(self.games@, p) < 0 || j
                        < first_index(self.games@, p)) ==> !p(#[trigger] self.games@[j]),
            decreases self.games@.len() - i,
        {
            let matches = match self.games[i].steam_appid {
                Some(a) => a == appid,
                None => false,
            };
            if matches {
                assert(p(self.games@[i as int]));
                return Some(&self.games[i]);
            }
            i += 1;
        }
        None
    }

    /// The first entry with GOG id `gog_id`.
    pub fn find_by_gog_id(&self, gog_id: &str) -> (r: Option<&CompatEntry>)
        ensures
            found(self.games@, has_gog_id(gog_id@), r),
    {
        let ghost p = has_gog_id(gog_id@);
        proof {
            lemma_first_index(self.games@, p);
        }
        let mut i: usize = 0;
        while i < self.games.len()
            invariant
                i <= self.games@.len(),
                p == has_gog_id(gog_id@),
                forall|j: int| 0 <= j < i ==> !p(#[trigger] self.games@[j]),
                -1 <= first_index(self.games@, p) < self.games@.len(),
                first_index(self.games@, p) >= 0 ==> p(self.games@[first_index(self.games@, p)]),
                forall|j: int|
                    0 <= j < self.games@.len() && (first_index(self.games@, p) < 0 || j
                        < first_index(self.games@, p)) ==> !p(#[trigger] self.games@[j]),
            decreases self.games@.len() - i,
        {
            let matches = match &self.games[i].gog_id {
                Some(g) => str_eq(g.as_str(), gog_id),
                None => false,
            };
            if matches {
                assert(p(self.games@[i as int]));
                return Some(&self.games[i]);
            }
            i += 1;
        }
        None
    }

    /// The entries matching a search query, in database order.
    pub fn search(&self, query: &str) -> (r: Vec<&CompatEntry>)
        ensures
            r@.map_values(|e: &CompatEntry| *e) == keep(self.games@, matches_query(query@)),
            is_ascii_text(query@) ==> spec_to_lowercase(query@) == query@.map_values(
                |c: char| ascii_lower(c),
            ),
    {
        let ghost p = matches_query(query@);
        let ql = to_lowercase(query);
        let qv = chars_of(ql.as_str());
        let mut r: Vec<&CompatEntry> = Vec::new();
        let mut i: usize = 0;
        while i < self.games.len()
            invariant
                i <= self.games@.len(),
                p == matches_query(query@),
                qv@ == spec_to_lowercase(query@),
                r@.map_values(|e: &CompatEntry| *e) == keep(self.games@.take(i as int), p),
            decreases self.games@.len() - i,
        {
            proof {
                lemma_keep_take(self.games@, p, i as int);
            }
            let g = &self.games[i];
            let name_lower = to_lowercase(g.name.as_str());
            let nv = chars_of(name_lower.as_str());
            let sv = chars_of(g.slug.as_str());
            let ghost before = r@;
            if crate::text::chars_contains(&nv, &qv) || crate::text::chars_contains(&sv, &qv) {
                r.push(g);
                assert(r@.map_values(|e: &CompatEntry| *e) =~= before.map_values(
                    |e: &CompatEntry| *e,
                ).push(*g));
            }
            i += 1;
        }
        assert(self.games@.take(self.games@.len() as int) =~= self.games@);
        r
    }

    /// The entries with the given rating, in database order.
    pub fn filter_by_rating(&self, rating: &CompatRating) -> (r: Vec<&CompatEntry>)
        ensures
            r@.map_values(|e: &CompatEntry| *e) == keep(self.games@, has_rating(*rating)),
    {
        let ghost p = has_rating(*rating);
        let mut r: Vec<&CompatEntry> = Vec::new();
        let mut i: usize = 0;
        while i < self.games.len()
            invariant
                i <= self.games@.len(),
                p == has_rating(*rating),
                r@.map_values(|e: &CompatEntry| *e) == keep(self.games@.take(i as int), p),
            decreases self.games@.len() - i,
        {
            proof {
                lemma_keep_take(self.games@, p, i as int);
            }
            let g = &self.games[i];
            let ghost before = r@;
            if g.rating == *rating {
                r.push(g);
                assert(r@.map_values(|e: &CompatEntry| *e) =~= before.map_values(
                    |e: &CompatEntry| *e,
                ).push(*g));
            }
            i += 1;
        }
        assert(self.games@.take(self.games@.len() as int) =~= self.games@);
        r
    }
}

} // verus!
