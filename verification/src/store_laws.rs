//! What detecting installed games and searching the compatibility database
//! give, stated from the manifests, folders and entries they start from.
use vstd::prelude::*;

use crate::compat::{has_gog_id, has_slug, has_steam_appid, matches_query, CompatDatabase, CompatEntry};
use crate::library::spec_slugify;
use crate::path::spec_join;
use crate::seq_util::{keep, lemma_keep_complete};
use crate::store_detect::{
    folder_gog_id, gog_games, is_manifest_name, lookup, spec_parse_acf, steam_games, GameStore,
    GogFolder, SteamFile,
};
use crate::text::{contains, spec_to_lowercase};
use crate::ui::shown_in_database;

verus! {

/// Scanning one more file of `steamapps` adds at most one game, after those
/// of the files before it: for a manifest that parses to `(appid, name,
/// installdir)`, the game `name` from Steam, installed in
/// `common/<installdir>`, rated by the first database entry with that app id
/// and flagged as having a bundle exactly when that entry says so (neither
/// rated nor flagged without an entry); nothing for any other file.
pub proof fn law_steam_game_of_manifest(
    steamapps_dir: Seq<char>,
    files: Seq<SteamFile>,
    f: SteamFile,
    db: CompatDatabase,
)
    ensures
        ({
            let before = steam_games(steamapps_dir, files, db);
            let after = steam_games(steamapps_dir, files.push(f), db);
            if is_manifest_name(f.file_name@) && f.content is Some && spec_parse_acf(f.content->0@) is Some {
                let (appid, name, dir) = spec_parse_acf(f.content->0@)->0;
                let e = lookup(db, has_steam_appid(appid));
                &&& after.len() == before.len() + 1
                &&& after.drop_last() == before
                &&& after.last().0 == name
                &&& after.last().1 == GameStore::Steam
                &&& after.last().2 == spec_join(spec_join(steamapps_dir, "common"@), dir)
                &&& after.last().3 == (match e {
                    Some(x) => Some(x.rating),
                    None => None,
                })
                &&& after.last().4 == (match e {
                    Some(x) => x.bundle_available,
                    None => false,
                })
            } else {
                after == before
            }
        }),
{
    assert(files.push(f).drop_last() =~= files);
    assert(files.push(f).last() == f);
}

/// The database entry that rates a GOG folder: the first whose slug is the
/// slug of the folder's name, else the first whose GOG id is the name lower
/// cased with `_` for spaces.
pub open spec fn gog_rating_entry(db: CompatDatabase, name: Seq<char>) -> Option<CompatEntry> {
    match lookup(db, has_slug(spec_slugify(name))) {
        Some(e) => Some(e),
        None => lookup(db, has_gog_id(folder_gog_id(name))),
    }
}

/// Each GOG folder gives one game, in order: its name and path, from GOG,
/// rated by the entry that rates it and flagged as having a bundle exactly
/// when that entry says so (neither without an entry).
pub proof fn law_gog_game_of_folder(folders: Seq<GogFolder>, db: CompatDatabase)
    ensures
        gog_games(folders, db).len() == folders.len(),
        forall|i: int|
            0 <= i < folders.len() ==> {
                let g = #[trigger] gog_games(folders, db)[i];
                let e = gog_rating_entry(db, folders[i].name@);
                &&& g.0 == folders[i].name@
                &&& g.1 == GameStore::Gog
                &&& g.2 == folders[i].path@
                &&& g.3 == (match e {
                    Some(x) => Some(x.rating),
                    None => None,
                })
                &&& g.4 == (match e {
                    Some(x) => x.bundle_available,
                    None => false,
                })
            },
    decreases folders.len(),
{
    if folders.len() > 0 {
        let prev = folders.drop_last();
        law_gog_game_of_folder(prev, db);
        assert forall|i: int| 0 <= i < folders.len() implies {
            let g = #[trigger] gog_games(folders, db)[i];
            let e = gog_rating_entry(db, folders[i].name@);
            &&& g.0 == folders[i].name@
            &&& g.1 == GameStore::Gog
            &&& g.2 == folders[i].path@
            &&& g.3 == (match e {
                Some(x) => Some(x.rating),
                None => None,
            })
            &&& g.4 == (match e {
                Some(x) => x.bundle_available,
                None => false,
            })
        } by {
            if i < prev.len() {
                assert(gog_games(folders, db)[i] == gog_games(prev, db)[i]);
                assert(folders[i] == prev[i]);
            }
        }
    }
}

/// A search finds every entry whose name, lower cased, holds the query
/// lower cased.
pub proof fn law_search_ignores_case_of_names(games: Seq<CompatEntry>, query: Seq<char>, j: int)
    requires
        0 <= j < games.len(),
        contains(spec_to_lowercase(games[j].name@), spec_to_lowercase(query)),
    ensures
        keep(games, matches_query(query)).contains(games[j]),
{
    lemma_keep_complete(games, matches_query(query), j);
}

/// Searching for an entry's name always finds that entry.
pub proof fn law_search_finds_by_name(games: Seq<CompatEntry>, j: int)
    requires
        0 <= j < games.len(),
    ensures
        keep(games, matches_query(games[j].name@)).contains(games[j]),
{
    let l = spec_to_lowercase(games[j].name@);
    assert(l.subrange(0, l.len() as int) =~= l);
    assert(crate::text::contains_at(l, l, 0));
    law_search_ignores_case_of_names(games, games[j].name@, j);
}

/// The database screen, with no rating filter, lists every entry whose name,
/// lower cased, holds the search lower cased.
pub proof fn law_database_screen_ignores_case_of_names(games: Seq<CompatEntry>, query: Seq<char>, j: int)
    requires
        0 <= j < games.len(),
        contains(spec_to_lowercase(games[j].name@), spec_to_lowercase(query)),
    ensures
        keep(games, shown_in_database(query, None)).contains(games[j]),
{
    lemma_keep_complete(games, shown_in_database(query, None), j);
}

/// A search gives exactly the entries whose name, lower cased, or whose
/// slug holds the query lower cased, in database order.
pub proof fn law_search_is_exactly(games: Seq<CompatEntry>, query: Seq<char>)
    ensures
        keep(games, matches_query(query)) == games.filter(
            |e: CompatEntry|
                contains(spec_to_lowercase(e.name@), spec_to_lowercase(query)) || contains(
                    e.slug@,
                    spec_to_lowercase(query),
                ),
        ),
    decreases games.len(),
{
    reveal(Seq::filter);
    if games.len() > 0 {
        law_search_is_exactly(games.drop_last(), query);
    }
}

/// The database screen lists exactly the entries that an empty search or
/// the search matches and that have the rating filtered for, if any, in
/// database order.
pub proof fn law_database_screen_is_exactly(games: Seq<CompatEntry>, query: Seq<char>, filter: Option<crate::compat::CompatRating>)
    ensures
        keep(games, shown_in_database(query, filter)) == games.filter(
            |e: CompatEntry|
                (query.len() == 0 || contains(spec_to_lowercase(e.name@), spec_to_lowercase(query))
                    || contains(e.slug@, spec_to_lowercase(query))) && (filter is None || filter
                    == Some(e.rating)),
        ),
    decreases games.len(),
{
    reveal(Seq::filter);
    if games.len() > 0 {
        law_database_screen_is_exactly(games.drop_last(), query, filter);
    }
}

} // verus!
