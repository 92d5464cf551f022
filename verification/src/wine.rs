//! Wine installations: which ones there are and which one a game runs with.
use vstd::prelude::*;

use crate::config::WineConfig;
use crate::error::{Error, Result};
use crate::path::{file_name, join, spec_file_name, spec_join};
use crate::seq_util::{first_index, lemma_first_index, lemma_first_index_is, lemma_first_index_none};
use crate::string_map::StringMap;
use crate::text::{concat, contains, copy_str, str_contains, str_eq};

verus! {

/// A Wine installation as a value: name, binary and environment.
pub open spec fn wine_view(c: WineConfig) -> (Seq<char>, Seq<char>, Map<Seq<char>, Seq<char>>) {
    (c.name@, c.binary_path@, c.env_overrides@)
}

impl WineConfig {
    /// A copy of this installation.
    pub fn duplicate(&self) -> (r: WineConfig)
        ensures
            wine_view(r) == wine_view(*self),
    {
        WineConfig {
            name: copy_str(self.name.as_str()),
            binary_path: copy_str(self.binary_path.as_str()),
            env_overrides: self.env_overrides.duplicate(),
        }
    }
}

/// The environment recommended for the Game Porting Toolkit.
pub open spec fn spec_gptk_env_overrides() -> Map<Seq<char>, Seq<char>> {
    map!["MTL_HUD_ENABLED"@ => "0"@, "WINEESYNC"@ => "1"@]
}

/// Recommended environment variables for GPTK.
pub fn gptk_env_overrides() -> (r: StringMap)
    ensures
        r@ == spec_gptk_env_overrides(),
{
    let mut env = StringMap::new();
    env.insert(copy_str("MTL_HUD_ENABLED"), copy_str("0"));
    env.insert(copy_str("WINEESYNC"), copy_str("1"));
    assert(env@ =~= spec_gptk_env_overrides());
    env
}

/// Wine binaries installed through Homebrew, in the order they are looked for.
pub open spec fn homebrew_candidates() -> Seq<Seq<char>> {
    seq![
        "/opt/homebrew/bin/wine64"@,
        "/usr/local/bin/wine64"@,
        "/opt/homebrew/bin/wine"@,
        "/usr/local/bin/wine"@,
    ]
}

/// Game Porting Toolkit binaries, in the order they are looked for.
pub open spec fn gptk_candidates() -> Seq<Seq<char>> {
    seq![
        "/opt/homebrew/bin/game-porting-toolkit"@,
        "/usr/local/bin/game-porting-toolkit"@,
        "/opt/homebrew/bin/game-porting-toolkit-no-hud"@,
    ]
}

fn homebrew_paths() -> (r: Vec<String>)
    ensures
        r@.len() == homebrew_candidates().len(),
        forall|i: int| 0 <= i < r@.len() ==> #[trigger] r@[i]@ == homebrew_candidates()[i],
{
    let mut r: Vec<String> = Vec::new();
    r.push(copy_str("/opt/homebrew/bin/wine64"));
    r.push(copy_str("/usr/local/bin/wine64"));
    r.push(copy_str("/opt/homebrew/bin/wine"));
    r.push(copy_str("/usr/local/bin/wine"));
    r
}

fn gptk_paths() -> (r: Vec<String>)
    ensures
        r@.len() == gptk_candidates().len(),
        forall|i: int| 0 <= i < r@.len() ==> #[trigger] r@[i]@ == gptk_candidates()[i],
{
    let mut r: Vec<String> = Vec::new();
    r.push(copy_str("/opt/homebrew/bin/game-porting-toolkit"));
    r.push(copy_str("/usr/local/bin/game-porting-toolkit"));
    r.push(copy_str("/opt/homebrew/bin/game-porting-toolkit-no-hud"));
    r
}

/// The binaries outside the application's Wine directory that are looked
/// for: the Homebrew Wine binaries, then the Game Porting Toolkit ones.
pub fn system_candidates() -> (r: Vec<String>)
    ensures
        r@.len() == homebrew_candidates().len() + gptk_candidates().len(),
        forall|i: int|
            0 <= i < r@.len() ==> #[trigger] r@[i]@ == (homebrew_candidates() + gptk_candidates())[i],
{
    let mut r = homebrew_paths();
    let mut g = gptk_paths();
    r.append(&mut g);
    r
}

/// The name given to a Homebrew Wine binary.
pub open spec fn homebrew_name(path: Seq<char>) -> Seq<char> {
    "homebrew-"@ + match spec_file_name(path) {
        Some(n) => n,
        None => Seq::empty(),
    }
}

/// The name given to a Game Porting Toolkit binary.
pub open spec fn gptk_name(path: Seq<char>) -> Seq<char> {
    if contains(path, "no-hud"@) {
        "gptk-no-hud"@
    } else {
        "gptk"@
    }
}

/// Whether some installation in `cs` has binary `path`.
pub open spec fn has_binary(cs: Seq<(Seq<char>, Seq<char>, Map<Seq<char>, Seq<char>>)>, path: Seq<char>) -> bool {
    exists|i: int| 0 <= i < cs.len() && #[trigger] cs[i].1 == path
}

/// The installations after looking at the candidate binaries `cands`: each
/// one present and not yet listed is added with the name and environment
/// its kind gives it.
pub open spec fn add_found(
    cs: Seq<(Seq<char>, Seq<char>, Map<Seq<char>, Seq<char>>)>,
    cands: Seq<Seq<char>>,
    present: Set<Seq<char>>,
    gptk: bool,
) -> Seq<(Seq<char>, Seq<char>, Map<Seq<char>, Seq<char>>)>
    decreases cands.len(),
{
    if cands.len() == 0 {
        cs
    } else {
        let prev = add_found(cs, cands.drop_last(), present, gptk);
        let p = cands.last();
        if present.contains(p) && !has_binary(prev, p) {
            if gptk {
                prev.push((gptk_name(p), p, spec_gptk_env_overrides()))
            } else {
                prev.push((homebrew_name(p), p, Map::empty()))
            }
        } else {
            prev
        }
    }
}

/// The installations found: those in the application's Wine directory, in
/// the order given, then the Homebrew binaries and the Game Porting Toolkit
/// binaries that are present, each binary listed once.
pub open spec fn spec_discover(
    local: Seq<(Seq<char>, Seq<char>)>,
    present: Set<Seq<char>>,
) -> Seq<(Seq<char>, Seq<char>, Map<Seq<char>, Seq<char>>)> {
    let l = local.map_values(
        |x: (Seq<char>, Seq<char>)| (x.0, x.1, Map::<Seq<char>, Seq<char>>::empty()),
    );
    add_found(add_found(l, homebrew_candidates(), present, false), gptk_candidates(), present, true)
}

fn find_binary(configs: &Vec<WineConfig>, path: &str) -> (r: bool)
    ensures
        r == has_binary(configs@.map_values(|c: WineConfig| wine_view(c)), path@),
{
    let ghost cs = configs@.map_values(|c: WineConfig| wine_view(c));
    let mut i: usize = 0;
    while i < configs.len()
        invariant
            i <= configs@.len(),
            cs == configs@.map_values(|c: WineConfig| wine_view(c)),
            forall|j: int| 0 <= j < i ==> cs[j].1 != path@,
        decreases configs@.len() - i,
    {
        if str_eq(configs[i].binary_path.as_str(), path) {
            assert(cs[i as int].1 == path@);
            return true;
        }
        i += 1;
    }
    false
}

fn add_candidates(
    configs: &mut Vec<WineConfig>,
    cands: &Vec<String>,
    present: &Vec<bool>,
    gptk: bool,
    ghost_cands: Ghost<Seq<Seq<char>>>,
    ghost_present: Ghost<Set<Seq<char>>>,
)
    requires
        cands@.len() == ghost_cands@.len(),
        present@.len() == cands@.len(),
        forall|i: int| 0 <= i < cands@.len() ==> #[trigger] cands@[i]@ == ghost_cands@[i],
        forall|i: int| 0 <= i < cands@.len() ==> present@[i] == ghost_present@.contains(#[trigger] ghost_cands@[i]),
    ensures
        final(configs)@.map_values(|c: WineConfig| wine_view(c)) == add_found(
            old(configs)@.map_values(|c: WineConfig| wine_view(c)),
            ghost_cands@,
            ghost_present@,
            gptk,
        ),
{
    let ghost start = configs@.map_values(|c: WineConfig| wine_view(c));
    let mut i: usize = 0;
    assert(ghost_cands@.take(0) =~= Seq::<Seq<char>>::empty());
    while i < cands.len()
        invariant
            i <= cands@.len(),
            cands@.len() == ghost_cands@.len(),
            present@.len() == cands@.len(),
            forall|j: int| 0 <= j < cands@.len() ==> #[trigger] cands@[j]@ == ghost_cands@[j],
            forall|j: int| 0 <= j < cands@.len() ==> present@[j] == ghost_present@.contains(#[trigger] ghost_cands@[j]),
            configs@.map_values(|c: WineConfig| wine_view(c)) == add_found(
                start,
                ghost_cands@.take(i as int),
                ghost_present@,
                gptk,
            ),
        decreases cands@.len() - i,
    {
        let ghost before = configs@.map_values(|c: WineConfig| wine_view(c));
        assert(ghost_cands@.take(i + 1).drop_last() =~= ghost_cands@.take(i as int));
        assert(ghost_cands@.take(i + 1).last() == cands@[i as int]@);
        let p = &cands[i];
        if present[i] && !find_binary(configs, p.as_str()) {
            let c = if gptk {
                let name = if str_contains(p.as_str(), "no-hud") {
                    copy_str("gptk-no-hud")
                } else {
                    copy_str("gptk")
                };
                WineConfig {
                    name,
                    binary_path: copy_str(p.as_str()),
                    env_overrides: gptk_env_overrides(),
                }
            } else {
                let fname = match file_name(p.as_str()) {
                    Some(f) => f,
                    None => String::new(),
                };
                WineConfig {
                    name: concat("homebrew-", fname.as_str()),
                    binary_path: copy_str(p.as_str()),
                    env_overrides: StringMap::new(),
                }
            };
            configs.push(c);
            assert(configs@.map_values(|c: WineConfig| wine_view(c)) =~= before.push(wine_view(c)));
        } else {
            assert(configs@.map_values(|c: WineConfig| wine_view(c)) =~= before);
        }
        i += 1;
    }
    assert(ghost_cands@.take(cands@.len() as int) =~= ghost_cands@);
}

/// The set of strings that `v` holds.
pub open spec fn string_set(v: Seq<String>) -> Set<Seq<char>> {
    Set::new(|p: Seq<char>| exists|i: int| 0 <= i < v.len() && #[trigger] v[i]@ == p)
}

/// Whether `v` holds `s`.
pub fn holds_string(v: &Vec<String>, s: &str) -> (r: bool)
    ensures
        r == string_set(v@).contains(s@),
{
    let mut i: usize = 0;
    while i < v.len()
        invariant
            i <= v@.len(),
            forall|j: int| 0 <= j < i ==> v@[j]@ != s@,
        decreases v@.len() - i,
    {
        if str_eq(v[i].as_str(), s) {
            return true;
        }
        i += 1;
    }
    false
}

fn presence(cands: &Vec<String>, existing: &Vec<String>) -> (r: Vec<bool>)
    ensures
        r@.len() == cands@.len(),
        forall|i: int| 0 <= i < cands@.len() ==> r@[i] == string_set(existing@).contains(#[trigger] cands@[i]@),
{
    let mut r: Vec<bool> = Vec::new();
    let mut i: usize = 0;
    while i < cands.len()
        invariant
            i <= cands@.len(),
            r@.len() == i,
            forall|j: int| 0 <= j < i ==> r@[j] == string_set(existing@).contains(#[trigger] cands@[j]@),
        decreases cands@.len() - i,
    {
        r.push(holds_string(existing, cands[i].as_str()));
        i += 1;
    }
    r
}

/// The Wine installations: `local` holds the `(name, binary)` of each
/// installation found in the application's Wine directory, in directory
/// order; `existing` holds those of `system_candidates` that exist. Homebrew
/// binaries are named `homebrew-<file name>`; Game Porting Toolkit binaries
/// are named `gptk` (or `gptk-no-hud`) and get the GPTK environment. A binary
/// already listed is not listed again.
pub fn discover(local: &Vec<(String, String)>, existing: &Vec<String>) -> (r: Vec<WineConfig>)
    ensures
        r@.map_values(|c: WineConfig| wine_view(c)) == spec_discover(
            local@.map_values(|x: (String, String)| (x.0@, x.1@)),
            string_set(existing@),
        ),
{
    let ghost lv = local@.map_values(|x: (String, String)| (x.0@, x.1@));
    let ghost present = string_set(existing@);
    let mut configs: Vec<WineConfig> = Vec::new();
    let mut i: usize = 0;
    while i < local.len()
        invariant
            i <= local@.len(),
            lv == local@.map_values(|x: (String, String)| (x.0@, x.1@)),
            configs@.map_values(|c: WineConfig| wine_view(c)) == lv.take(i as int).map_values(
                |x: (Seq<char>, Seq<char>)| (x.0, x.1, Map::<Seq<char>, Seq<char>>::empty()),
            ),
        decreases local@.len() - i,
    {
        let ghost before = configs@.map_values(|c: WineConfig| wine_view(c));
        let c = WineConfig {
            name: copy_str(local[i].0.as_str()),
            binary_path: copy_str(local[i].1.as_str()),
            env_overrides: StringMap::new(),
        };
        assert(wine_view(c) == (lv[i as int].0, lv[i as int].1, Map::<Seq<char>, Seq<char>>::empty()));
        let ghost wc = wine_view(c);
        configs.push(c);
        proof {
            let f = |x: (Seq<char>, Seq<char>)| (x.0, x.1, Map::<Seq<char>, Seq<char>>::empty());
            assert(lv.take(i + 1) =~= lv.take(i as int).push(lv[i as int]));
            assert(lv.take(i + 1).map_values(f) =~= lv.take(i as int).map_values(f).push(
                f(lv[i as int]),
            ));
            assert(configs@.map_values(|c: WineConfig| wine_view(c)) =~= before.push(wc));
        }
        i += 1;
    }
    assert(lv.take(local@.len() as int) =~= lv);
    let brew = homebrew_paths();
    let brew_present = presence(&brew, existing);
    assert forall|k: int| 0 <= k < brew@.len() implies brew_present@[k] == present.contains(
        #[trigger] homebrew_candidates()[k],
    ) by {
        assert(brew@[k]@ == homebrew_candidates()[k]);
    }
    add_candidates(
        &mut configs,
        &brew,
        &brew_present,
        false,
        Ghost(homebrew_candidates()),
        Ghost(present),
    );
    let gptk = gptk_paths();
    let gptk_present = presence(&gptk, existing);
    assert forall|k: int| 0 <= k < gptk@.len() implies gptk_present@[k] == present.contains(
        #[trigger] gptk_candidates()[k],
    ) by {
        assert(gptk@[k]@ == gptk_candidates()[k]);
    }
    add_candidates(
        &mut configs,
        &gptk,
        &gptk_present,
        true,
        Ghost(gptk_candidates()),
        Ghost(present),
    );
    configs
}

/// Whether `name` asks for the default installation.
pub open spec fn is_default_name(name: Seq<char>) -> bool {
    name == "default"@ || name.len() == 0
}

/// The index of the first installation named `name`, or -1.
pub open spec fn first_named(cs: Seq<WineConfig>, name: Seq<char>) -> int
    decreases cs.len(),
{
    if cs.len() == 0 {
        -1
    } else if first_named(cs.drop_last(), name) >= 0 {
        first_named(cs.drop_last(), name)
    } else if cs.last().name@ == name {
        cs.len() - 1
    } else {
        -1
    }
}

proof fn lemma_first_named(cs: Seq<WineConfig>, name: Seq<char>)
    ensures
        -1 <= first_named(cs, name) < cs.len(),
        first_named(cs, name) >= 0 ==> cs[first_named(cs, name)].name@ == name,
        forall|j: int|
            0 <= j < cs.len() && (first_named(cs, name) < 0 || j < first_named(cs, name))
                ==> #[trigger] cs[j].name@ != name,
    decreases cs.len(),
{
    if cs.len() > 0 {
        lemma_first_named(cs.drop_last(), name);
        assert forall|j: int|
            0 <= j < cs.len() && (first_named(cs, name) < 0 || j < first_named(cs, name))
                implies #[trigger] cs[j].name@ != name by {
            if j < cs.len() - 1 {
                assert(cs[j] == cs.drop_last()[j]);
            }
        }
    }
}

/// What `resolve` gives: the first installation for `"default"` or an
/// empty name, otherwise the first one with that name; `WineNotFound` when
/// there is none.
pub open spec fn resolve_ok(cs: Seq<WineConfig>, name: Seq<char>) -> Option<int> {
    if is_default_name(name) {
        if cs.len() > 0 {
            Some(0)
        } else {
            None
        }
    } else if first_named(cs, name) >= 0 {
        Some(first_named(cs, name))
    } else {
        None
    }
}

/// The message of the error for a name that resolves to nothing.
pub open spec fn resolve_error_message(name: Seq<char>) -> Seq<char> {
    if is_default_name(name) {
        "No Wine installations found"@
    } else {
        "Wine config '"@ + name + "' not found"@
    }
}

fn index_named(configs: &[WineConfig], name: &str) -> (r: Option<usize>)
    ensures
        match r {
            Some(i) => i as int == first_named(configs@, name@),
            None => first_named(configs@, name@) == -1,
        },
{
    proof {
        lemma_first_named(configs@, name@);
    }
    let mut i: usize = 0;
    while i < configs.len()
        invariant
            i <= configs@.len(),
            forall|j: int| 0 <= j < i ==> #[trigger] configs@[j].name@ != name@,
            -1 <= first_named(configs@, name@) < configs@.len(),
            first_named(configs@, name@) >= 0 ==> configs@[first_named(configs@, name@)].name@ == name@,
            forall|j: int|
                0 <= j < configs@.len() && (first_named(configs@, name@) < 0 || j < first_named(configs@, name@))
                    ==> #[trigger] configs@[j].name@ != name@,
        decreases configs@.len() - i,
    {
        if str_eq(configs[i].name.as_str(), name) {
            return Some(i);
        }
        i += 1;
    }
    None
}

/// Resolves which installation to use for a configuration name.
pub fn resolve(configs: &[WineConfig], name: &str) -> (r: Result<WineConfig>)
    ensures
        match resolve_ok(configs@, name@) {
            Some(i) => r matches Ok(c) && wine_view(c) == wine_view(configs@[i]),
            None => r matches Err(Error::WineNotFound(m)) && m@ == resolve_error_message(name@),
        },
{
    proof {
        lemma_first_named(configs@, name@);
    }
    if str_eq(name, "default") || name.is_empty() {
        if configs.len() > 0 {
            Ok(configs[0].duplicate())
        } else {
            Err(Error::WineNotFound(copy_str("No Wine installations found")))
        }
    } else {
        assert(!is_default_name(name@));
        match index_named(configs, name) {
            Some(i) => Ok(configs[i].duplicate()),
            None => {
                let mut m = copy_str("Wine config '");
                m.append(name);
                m.append("' not found");
                Err(Error::WineNotFound(m))
            },
        }
    }
}

// ---------------------------------------------------------------------------
// The binary of an installation directory
// ---------------------------------------------------------------------------

/// Where in a directory the Wine binary is looked for, in order.
pub open spec fn binary_paths_in(dir: Seq<char>) -> Seq<Seq<char>> {
    seq![spec_join(dir, "bin/wine64"@), spec_join(dir, "bin/wine"@)]
}

/// Where the Wine binary of an installation directory is looked for, in
/// order: in the directory itself, then in each of its subdirectories (as
/// archives unpack), in listing order.
pub open spec fn wine_binary_candidates(dir: Seq<char>, subdirs: Seq<Seq<char>>) -> Seq<Seq<char>>
    decreases subdirs.len(),
{
    if subdirs.len() == 0 {
        binary_paths_in(dir)
    } else {
        wine_binary_candidates(dir, subdirs.drop_last()) + binary_paths_in(subdirs.last())
    }
}

/// The paths where the Wine binary of `dir` is looked for, `subdirs` being
/// its subdirectories in listing order.
pub fn binary_candidates(dir: &str, subdirs: &Vec<String>) -> (r: Vec<String>)
    ensures
        r@.map_values(|s: String| s@) == wine_binary_candidates(dir@, subdirs@.map_values(|s: String| s@)),
{
    let ghost sv = subdirs@.map_values(|s: String| s@);
    let mut r: Vec<String> = Vec::new();
    r.push(join(dir, "bin/wine64"));
    r.push(join(dir, "bin/wine"));
    assert(r@.map_values(|s: String| s@) =~= wine_binary_candidates(dir@, sv.take(0)));
    let mut i: usize = 0;
    while i < subdirs.len()
        invariant
            i <= subdirs@.len(),
            sv == subdirs@.map_values(|s: String| s@),
            r@.map_values(|s: String| s@) == wine_binary_candidates(dir@, sv.take(i as int)),
        decreases subdirs@.len() - i,
    {
        let ghost before = r@.map_values(|s: String| s@);
        assert(sv.take(i + 1).drop_last() =~= sv.take(i as int));
        assert(sv.take(i + 1).last() == subdirs@[i as int]@);
        r.push(join(subdirs[i].as_str(), "bin/wine64"));
        r.push(join(subdirs[i].as_str(), "bin/wine"));
        assert(r@.map_values(|s: String| s@) =~= before + binary_paths_in(subdirs@[i as int]@));
        i += 1;
    }
    assert(sv.take(subdirs@.len() as int) =~= sv);
    r
}

/// Whether a path is among those that exist.
pub open spec fn exists_in(existing: Set<Seq<char>>) -> spec_fn(Seq<char>) -> bool {
    |p: Seq<char>| existing.contains(p)
}

/// The Wine binary of an installation directory: the first of its
/// `binary_candidates` that exists (`existing` holds those that do).
pub fn find_wine_binary(dir: &str, subdirs: &Vec<String>, existing: &Vec<String>) -> (r: Option<String>)
    ensures
        ({
            let cands = wine_binary_candidates(dir@, subdirs@.map_values(|s: String| s@));
            let k = first_index(cands, exists_in(string_set(existing@)));
            if k >= 0 {
                r matches Some(b) && b@ == cands[k]
            } else {
                r is None
            }
        }),
{
    let cands = binary_candidates(dir, subdirs);
    let ghost cv = cands@.map_values(|s: String| s@);
    let ghost p = exists_in(string_set(existing@));
    assert(cv == wine_binary_candidates(dir@, subdirs@.map_values(|s: String| s@)));
    proof {
        lemma_first_index(cv, p);
    }
    let mut i: usize = 0;
    while i < cands.len()
        invariant
            i <= cands@.len(),
            cv == cands@.map_values(|s: String| s@),
            cv == wine_binary_candidates(dir@, subdirs@.map_values(|s: String| s@)),
            p == exists_in(string_set(existing@)),
            forall|j: int| 0 <= j < i ==> !p(#[trigger] cv[j]),
        decreases cands@.len() - i,
    {
        if holds_string(existing, cands[i].as_str()) {
            proof {
                assert(cv[i as int] == cands@[i as int]@);
                assert(p(cv[i as int]));
                lemma_first_index_is(cv, p, i as int);
            }
            let b = copy_str(cands[i].as_str());
            assert(b@ == cv[i as int]);
            return Some(b);
        }
        assert(cv[i as int] == cands@[i as int]@);
        assert(!p(cv[i as int]));
        i += 1;
    }
    proof {
        lemma_first_index_none(cv, p);
    }
    None
}

} // verus!
