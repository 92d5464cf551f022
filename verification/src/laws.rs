//! Properties of the library that relate several of its functions.
use vstd::prelude::*;

use crate::dxvk::{dxvk_dlls, restore_steps, spec_env_overrides, spec_uninstall_plan};
use crate::library::{
    has_slug, insert_pos, keep_played_len, merged, other_slug, slug_taken, slugs_unique,
    sort_latest_first, was_played, Game, InstallType, Timestamp,
};
use crate::runner::launch_env;
use crate::text::spec_to_lowercase;
use crate::wine::{add_found, has_binary, spec_discover};
use crate::seq_util::{first_index, keep, lemma_first_index, lemma_keep_complete, lemma_keep_members};
use crate::bundle::{is_bundle_game, BundleConfig};

verus! {

/// A variable the game sets reaches the game with the game's value, whatever
/// the Wine installation or DXVK set.
pub proof fn law_game_env_wins(
    wine_env: Map<Seq<char>, Seq<char>>,
    game_env: Map<Seq<char>, Seq<char>>,
    dxvk_enabled: bool,
    key: Seq<char>,
)
    requires
        game_env.dom().contains(key),
    ensures
        launch_env(wine_env, game_env, dxvk_enabled).dom().contains(key),
        launch_env(wine_env, game_env, dxvk_enabled)[key] == game_env[key],
{
}

/// Without DXVK, the DLL overrides are set only where the Wine installation
/// or the game sets them.
pub proof fn law_no_dll_overrides_without_dxvk(
    wine_env: Map<Seq<char>, Seq<char>>,
    game_env: Map<Seq<char>, Seq<char>>,
)
    requires
        !wine_env.dom().contains("WINEDLLOVERRIDES"@),
        !game_env.dom().contains("WINEDLLOVERRIDES"@),
    ensures
        !launch_env(wine_env, game_env, false).dom().contains("WINEDLLOVERRIDES"@),
{
}

/// With DXVK, the DXVK DLL overrides are set unless the game sets its own.
pub proof fn law_dxvk_sets_dll_overrides(
    wine_env: Map<Seq<char>, Seq<char>>,
    game_env: Map<Seq<char>, Seq<char>>,
)
    requires
        !game_env.dom().contains("WINEDLLOVERRIDES"@),
    ensures
        launch_env(wine_env, game_env, true).dom().contains("WINEDLLOVERRIDES"@),
        launch_env(wine_env, game_env, true)["WINEDLLOVERRIDES"@]
            == spec_env_overrides()["WINEDLLOVERRIDES"@],
{
}

/// A variable of the Wine installation that neither DXVK nor the game sets
/// reaches the game unchanged.
pub proof fn law_wine_env_kept(
    wine_env: Map<Seq<char>, Seq<char>>,
    game_env: Map<Seq<char>, Seq<char>>,
    dxvk_enabled: bool,
    key: Seq<char>,
)
    requires
        wine_env.dom().contains(key),
        !game_env.dom().contains(key),
        key != "WINEDLLOVERRIDES"@,
    ensures
        launch_env(wine_env, game_env, dxvk_enabled)[key] == wine_env[key],
{
}

/// A game added under a free slug is what looking up that slug finds.
pub proof fn law_add_then_find(games: Seq<Game>, g: Game)
    requires
        !slug_taken(games, g.slug@),
    ensures
        first_index(games.push(g), has_slug(g.slug@)) == games.len(),
{
    lemma_first_index(games.push(g), has_slug(g.slug@));
    assert(has_slug(g.slug@)(games.push(g)[games.len() as int]));
    assert forall|j: int| 0 <= j < games.len() implies !has_slug(g.slug@)(
        #[trigger] games.push(g)[j],
    ) by {
        assert(games.push(g)[j] == games[j]);
    }
    crate::seq_util::lemma_first_index_is(games.push(g), has_slug(g.slug@), games.len() as int);
}

/// After removing a slug, no game has it.
pub proof fn law_remove_then_absent(games: Seq<Game>, slug: Seq<char>)
    ensures
        !slug_taken(keep(games, other_slug(slug)), slug),
{
    lemma_keep_members(games, other_slug(slug));
}

/// Adding under a free slug keeps slugs unique.
pub proof fn law_add_keeps_slugs_unique(games: Seq<Game>, g: Game)
    requires
        slugs_unique(games),
        !slug_taken(games, g.slug@),
    ensures
        slugs_unique(games.push(g)),
{
    let t = games.push(g);
    assert forall|i: int, j: int| 0 <= i < t.len() && 0 <= j < t.len() && i != j implies #[trigger] t[i].slug@ != #[trigger] t[j].slug@ by {
        if i < games.len() && j < games.len() {
            assert(t[i] == games[i] && t[j] == games[j]);
        } else if i < games.len() {
            assert(t[i] == games[i]);
        } else {
            assert(t[j] == games[j]);
        }
    }
}

/// Importing keeps slugs unique, and afterwards every imported slug is in
/// the library.
pub proof fn law_import_keeps_slugs_unique(existing: Seq<Game>, imported: Seq<Game>)
    requires
        slugs_unique(existing),
    ensures
        slugs_unique(merged(existing, imported)),
        forall|k: int| 0 <= k < imported.len() ==> slug_taken(merged(existing, imported), #[trigger] imported[k].slug@),
    decreases imported.len(),
{
    if imported.len() > 0 {
        let prev = imported.drop_last();
        law_import_keeps_slugs_unique(existing, prev);
        let m = merged(existing, prev);
        let x = imported.last();
        if !slug_taken(m, x.slug@) {
            law_add_keeps_slugs_unique(m, x);
        }
        let r = merged(existing, imported);
        assert forall|k: int| 0 <= k < imported.len() implies slug_taken(r, #[trigger] imported[k].slug@) by {
            if k < imported.len() - 1 {
                assert(imported[k] == prev[k]);
                assert(slug_taken(m, prev[k].slug@));
                let w = choose|w: int| 0 <= w < m.len() && #[trigger] m[w].slug@ == prev[k].slug@;
                if !slug_taken(m, x.slug@) {
                    assert(r[w] == m[w]);
                }
            } else {
                if !slug_taken(m, x.slug@) {
                    assert(r[r.len() - 1] == x);
                }
            }
        }
    }
}

/// Importing games whose slugs the library already has changes nothing:
/// duplicates are skipped.
pub proof fn law_import_skips_taken(existing: Seq<Game>, imported: Seq<Game>)
    requires
        forall|k: int| 0 <= k < imported.len() ==> slug_taken(existing, #[trigger] imported[k].slug@),
    ensures
        merged(existing, imported) == existing,
    decreases imported.len(),
{
    if imported.len() > 0 {
        let prev = imported.drop_last();
        assert forall|k: int| 0 <= k < prev.len() implies slug_taken(existing, #[trigger] prev[k].slug@) by {
            assert(prev[k] == imported[k]);
        }
        law_import_skips_taken(existing, prev);
        assert(slug_taken(existing, imported[imported.len() - 1].slug@));
    }
}

/// Importing an exported library (its slugs unique) into an empty one gives
/// back all of its games, in order.
pub proof fn law_import_into_empty(imported: Seq<Game>)
    requires
        slugs_unique(imported),
    ensures
        merged(Seq::empty(), imported) == imported,
    decreases imported.len(),
{
    if imported.len() > 0 {
        let prev = imported.drop_last();
        assert(slugs_unique(prev)) by {
            assert forall|i: int, j: int| 0 <= i < prev.len() && 0 <= j < prev.len() && i != j implies #[trigger] prev[i].slug@ != #[trigger] prev[j].slug@ by {
                assert(prev[i] == imported[i] && prev[j] == imported[j]);
            }
        }
        law_import_into_empty(prev);
        let x = imported.last();
        if slug_taken(prev, x.slug@) {
            let w = choose|w: int| 0 <= w < prev.len() && #[trigger] prev[w].slug@ == x.slug@;
            assert(prev[w] == imported[w]);
            assert(imported[w].slug@ != imported[imported.len() - 1].slug@);
        }
        assert(prev.push(x) =~= imported);
    }
}

/// The recently played games are exactly as many as the played games, and
/// every one of them has been played.
pub proof fn law_recently_played_are_played(games: Seq<Game>)
    ensures
        sort_latest_first(keep(games, was_played())).len() == keep(games, was_played()).len(),
        forall|k: int|
            0 <= k < sort_latest_first(keep(games, was_played())).len() ==> (#[trigger] sort_latest_first(
                keep(games, was_played()),
            )[k]).last_played is Some,
{
    keep_played_len(keep(games, was_played()));
    lemma_keep_members(games, was_played());
}

/// With no backed-up DLL in the bottle, uninstalling does nothing.
pub proof fn law_uninstall_without_backups_is_noop(bottle: Seq<char>, present: Set<Seq<char>>)
    requires
        forall|k: int|
            0 <= k < dxvk_dlls().len() ==> !present.contains(
                crate::dxvk::dll_backup(crate::dxvk::system32_dir(bottle), #[trigger] dxvk_dlls()[k]),
            ) && !present.contains(
                crate::dxvk::dll_backup(crate::dxvk::syswow64_dir(bottle), dxvk_dlls()[k]),
            ),
    ensures
        spec_uninstall_plan(bottle, present).len() == 0,
{
    lemma_no_restore(crate::dxvk::system32_dir(bottle), dxvk_dlls(), present);
    lemma_no_restore(crate::dxvk::syswow64_dir(bottle), dxvk_dlls(), present);
}

proof fn lemma_no_restore(dir: Seq<char>, dlls: Seq<Seq<char>>, present: Set<Seq<char>>)
    requires
        forall|k: int| 0 <= k < dlls.len() ==> !present.contains(crate::dxvk::dll_backup(dir, #[trigger] dlls[k])),
    ensures
        restore_steps(dir, dlls, present).len() == 0,
    decreases dlls.len(),
{
    if dlls.len() > 0 {
        assert forall|k: int| 0 <= k < dlls.drop_last().len() implies !present.contains(crate::dxvk::dll_backup(dir, #[trigger] dlls.drop_last()[k])) by {
            assert(dlls.drop_last()[k] == dlls[k]);
        }
        lemma_no_restore(dir, dlls.drop_last(), present);
        assert(!present.contains(crate::dxvk::dll_backup(dir, dlls[dlls.len() - 1])));
    }
}

/// No two installations share a binary.
pub open spec fn binaries_distinct(cs: Seq<(Seq<char>, Seq<char>, Map<Seq<char>, Seq<char>>)>) -> bool {
    forall|i: int, j: int| 0 <= i < cs.len() && 0 <= j < cs.len() && i != j ==> #[trigger] cs[i].1 != #[trigger] cs[j].1
}

proof fn lemma_add_found_distinct(
    cs: Seq<(Seq<char>, Seq<char>, Map<Seq<char>, Seq<char>>)>,
    cands: Seq<Seq<char>>,
    present: Set<Seq<char>>,
    gptk: bool,
)
    requires
        binaries_distinct(cs),
    ensures
        binaries_distinct(add_found(cs, cands, present, gptk)),
    decreases cands.len(),
{
    if cands.len() > 0 {
        lemma_add_found_distinct(cs, cands.drop_last(), present, gptk);
        let prev = add_found(cs, cands.drop_last(), present, gptk);
        let p = cands.last();
        if present.contains(p) && !has_binary(prev, p) {
            let r = add_found(cs, cands, present, gptk);
            assert forall|i: int, j: int| 0 <= i < r.len() && 0 <= j < r.len() && i != j implies #[trigger] r[i].1 != #[trigger] r[j].1 by {
                if i < prev.len() && j < prev.len() {
                    assert(r[i] == prev[i] && r[j] == prev[j]);
                } else if i < prev.len() {
                    assert(r[i] == prev[i]);
                    assert(r[j].1 == p);
                } else {
                    assert(r[j] == prev[j]);
                    assert(r[i].1 == p);
                }
            }
        }
    }
}

/// Discovering Wine lists each binary once: a Homebrew or Game Porting
/// Toolkit binary already listed is not listed again (the installations in
/// the application's Wine directory having binaries of their own).
pub proof fn law_discover_lists_binary_once(local: Seq<(Seq<char>, Seq<char>)>, present: Set<Seq<char>>)
    requires
        forall|i: int, j: int| 0 <= i < local.len() && 0 <= j < local.len() && i != j ==> #[trigger] local[i].1 != #[trigger] local[j].1,
    ensures
        binaries_distinct(spec_discover(local, present)),
{
    let l = local.map_values(
        |x: (Seq<char>, Seq<char>)| (x.0, x.1, Map::<Seq<char>, Seq<char>>::empty()),
    );
    assert forall|i: int, j: int| 0 <= i < l.len() && 0 <= j < l.len() && i != j implies #[trigger] l[i].1 != #[trigger] l[j].1 by {
        assert(l[i].1 == local[i].1 && l[j].1 == local[j].1);
    }
    lemma_add_found_distinct(l, crate::wine::homebrew_candidates(), present, false);
    lemma_add_found_distinct(
        add_found(l, crate::wine::homebrew_candidates(), present, false),
        crate::wine::gptk_candidates(),
        present,
        true,
    );
}

/// Removing a slug keeps every game with another slug: whatever the other
/// slug has in common with the removed one.
pub proof fn law_remove_keeps_other_games(games: Seq<Game>, slug: Seq<char>, j: int)
    requires
        0 <= j < games.len(),
        games[j].slug@ != slug,
    ensures
        keep(games, other_slug(slug)).contains(games[j]),
{
    lemma_keep_complete(games, other_slug(slug), j);
}

/// Removing a slug removes exactly the games with that slug: as many games
/// remain as have another slug, and they keep their order.
pub proof fn law_remove_count(games: Seq<Game>, slug: Seq<char>)
    ensures
        keep(games, other_slug(slug)).len() == games.filter(|g: Game| g.slug@ != slug).len(),
        keep(games, other_slug(slug)) == games.filter(|g: Game| g.slug@ != slug),
    decreases games.len(),
{
    reveal(Seq::filter);
    if games.len() > 0 {
        law_remove_count(games.drop_last(), slug);
    }
}

/// The game that applying a bundle adds is the bundle's game: its name and
/// slug, installed in the bottle as a folder, with the bundle's environment
/// and DXVK setting, not played yet.
pub proof fn law_bundle_game_is_the_bundles(g: Game, b: BundleConfig, t: Timestamp)
    requires
        is_bundle_game(g, b, t),
    ensures
        g.name@ == b.game.name@,
        g.slug@ == b.game.slug@,
        g.install_type == InstallType::FolderInstall,
        g.exe@ == "drive_c/"@ + (if b.install.exe_path@.len() == 0 {
            "game.exe"@
        } else {
            b.install.exe_path@
        }),
        g.use_gptk == (spec_to_lowercase(b.wine.backend@) == "gptk"@),
        g.wine_config@ == (if spec_to_lowercase(b.wine.backend@) == "gptk"@ {
            "gptk"@
        } else {
            "default"@
        }),
        g.env@ == b.settings.env@,
        g.dxvk_enabled == b.settings.dxvk_enabled,
        g.added_at == t,
        g.last_played is None,
        g.icon_path is None,
{
}

/// Whether `op` moves the existing backup of DLL `d` in `dir` back to the
/// DLL's place.
pub open spec fn is_restore_of(op: crate::dxvk::Op, dir: Seq<char>, present: Set<Seq<char>>, d: Seq<char>) -> bool {
    &&& present.contains(crate::dxvk::dll_backup(dir, d))
    &&& op == crate::dxvk::Op::Rename(crate::dxvk::dll_backup(dir, d), crate::dxvk::dll_file(dir, d))
}

/// Uninstalling DXVK does nothing but move backups back: every operation
/// of the plan renames the backup of a DXVK DLL that exists, in system32 or
/// syswow64, to that DLL's place.
pub proof fn law_uninstall_only_restores(bottle: Seq<char>, present: Set<Seq<char>>)
    ensures
        forall|i: int|
            #![trigger spec_uninstall_plan(bottle, present)[i]]
            0 <= i < spec_uninstall_plan(bottle, present).len() ==> exists|k: int|
                #![trigger dxvk_dlls()[k]]
                0 <= k < dxvk_dlls().len() && (is_restore_of(
                    spec_uninstall_plan(bottle, present)[i],
                    crate::dxvk::system32_dir(bottle),
                    present,
                    dxvk_dlls()[k],
                ) || is_restore_of(
                    spec_uninstall_plan(bottle, present)[i],
                    crate::dxvk::syswow64_dir(bottle),
                    present,
                    dxvk_dlls()[k],
                )),
{
    let sys = crate::dxvk::system32_dir(bottle);
    let wow = crate::dxvk::syswow64_dir(bottle);
    let s = dxvk_dlls();
    lemma_restores_only(sys, s, present);
    lemma_restores_only(wow, s, present);
    let a = if present.contains(sys) {
        restore_steps(sys, s, present)
    } else {
        Seq::empty()
    };
    let b = if present.contains(wow) {
        restore_steps(wow, s, present)
    } else {
        Seq::empty()
    };
    let plan = spec_uninstall_plan(bottle, present);
    assert(plan == a + b);
    assert forall|i: int| #![trigger plan[i]] 0 <= i < plan.len() implies exists|k: int|
        #![trigger s[k]]
        0 <= k < s.len() && (is_restore_of(plan[i], sys, present, s[k]) || is_restore_of(plan[i], wow, present, s[k])) by {
        if i < a.len() {
            assert(plan[i] == a[i]);
            let k = choose|k: int| #![trigger s[k]] 0 <= k < s.len() && is_restore_of(a[i], sys, present, s[k]);
            assert(is_restore_of(plan[i], sys, present, s[k]));
        } else {
            assert(plan[i] == b[i - a.len()]);
            let k = choose|k: int| #![trigger s[k]] 0 <= k < s.len() && is_restore_of(b[i - a.len()], wow, present, s[k]);
            assert(is_restore_of(plan[i], wow, present, s[k]));
        }
    }
}

proof fn lemma_restores_only(dir: Seq<char>, dlls: Seq<Seq<char>>, present: Set<Seq<char>>)
    ensures
        forall|i: int|
            #![trigger restore_steps(dir, dlls, present)[i]]
            0 <= i < restore_steps(dir, dlls, present).len() ==> exists|k: int|
                #![trigger dlls[k]]
                0 <= k < dlls.len() && is_restore_of(restore_steps(dir, dlls, present)[i], dir, present, dlls[k]),
    decreases dlls.len(),
{
    if dlls.len() > 0 {
        let prev_d = dlls.drop_last();
        lemma_restores_only(dir, prev_d, present);
        let prev = restore_steps(dir, prev_d, present);
        let r = restore_steps(dir, dlls, present);
        assert forall|i: int| #![trigger r[i]] 0 <= i < r.len() implies exists|k: int|
            #![trigger dlls[k]]
            0 <= k < dlls.len() && is_restore_of(r[i], dir, present, dlls[k]) by {
            if i < prev.len() {
                assert(r[i] == prev[i]);
                let k = choose|k: int| #![trigger prev_d[k]] 0 <= k < prev_d.len() && is_restore_of(prev[i], dir, present, prev_d[k]);
                assert(prev_d[k] == dlls[k]);
                assert(is_restore_of(r[i], dir, present, dlls[k]));
            } else {
                let k = dlls.len() - 1;
                assert(dlls[k] == dlls.last());
                assert(is_restore_of(r[i], dir, present, dlls[k]));
            }
        }
    }
}

} // verus!
