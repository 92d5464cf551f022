//! DXVK: the Direct3D-to-Vulkan DLLs installed into a bottle.
use vstd::prelude::*;

use crate::path::{join, spec_join};
use crate::string_map::StringMap;
use crate::text::{concat, copy_str};
use crate::wine::{holds_string, string_set};

verus! {

/// The DXVK DLL names that get installed into Wine bottles.
pub open spec fn dxvk_dlls() -> Seq<Seq<char>> {
    seq!["d3d9"@, "d3d10core"@, "d3d11"@, "dxgi"@]
}

/// The DXVK DLL names that get installed into Wine bottles.
pub fn dll_names() -> (r: Vec<String>)
    ensures
        r@.len() == dxvk_dlls().len(),
        forall|i: int| 0 <= i < r@.len() ==> #[trigger] r@[i]@ == dxvk_dlls()[i],
{
    let mut r: Vec<String> = Vec::new();
    r.push(copy_str("d3d9"));
    r.push(copy_str("d3d10core"));
    r.push(copy_str("d3d11"));
    r.push(copy_str("dxgi"));
    r
}

/// `"<dll>=n"` for each DLL, joined by `;`.
pub open spec fn overrides_value(dlls: Seq<Seq<char>>) -> Seq<char>
    decreases dlls.len(),
{
    if dlls.len() == 0 {
        Seq::empty()
    } else if dlls.len() == 1 {
        dlls[0] + "=n"@
    } else {
        overrides_value(dlls.drop_last()) + ";"@ + dlls.last() + "=n"@
    }
}

/// The Wine DLL overrides that make Wine load the native DXVK DLLs.
pub open spec fn spec_env_overrides() -> Map<Seq<char>, Seq<char>> {
    map!["WINEDLLOVERRIDES"@ => overrides_value(dxvk_dlls())]
}

/// The environment variables needed for the DXVK DLL overrides.
pub fn env_overrides() -> (r: StringMap)
    ensures
        r@ == spec_env_overrides(),
{
    let dlls = dll_names();
    let mut value = String::new();
    let mut i: usize = 0;
    while i < dlls.len()
        invariant
            i <= dlls@.len(),
            dlls@.len() == dxvk_dlls().len(),
            forall|j: int| 0 <= j < dlls@.len() ==> #[trigger] dlls@[j]@ == dxvk_dlls()[j],
            value@ == overrides_value(dxvk_dlls().take(i as int)),
        decreases dlls@.len() - i,
    {
        let ghost t = dxvk_dlls().take(i + 1);
        assert(t.drop_last() =~= dxvk_dlls().take(i as int));
        assert(t.last() == dlls@[i as int]@);
        if i > 0 {
            value.append(";");
        } else {
            assert(value@ =~= Seq::<char>::empty());
        }
        value.append(dlls[i].as_str());
        value.append("=n");
        proof {
            if i == 0 {
                assert(value@ =~= t[0] + "=n"@);
            }
        }
        i += 1;
    }
    assert(dxvk_dlls().take(4) =~= dxvk_dlls());
    let mut env = StringMap::new();
    env.insert(copy_str("WINEDLLOVERRIDES"), value);
    assert(env@ =~= spec_env_overrides());
    env
}

/// The environment for the DXVK HUD: frame rate and device shown when enabled.
pub open spec fn spec_hud_env(enabled: bool) -> Map<Seq<char>, Seq<char>> {
    if enabled {
        map!["DXVK_HUD"@ => "fps,devinfo"@]
    } else {
        Map::empty()
    }
}

/// The DXVK HUD environment variable.
pub fn hud_env(enabled: bool) -> (r: StringMap)
    ensures
        r@ == spec_hud_env(enabled),
{
    let mut env = StringMap::new();
    if enabled {
        env.insert(copy_str("DXVK_HUD"), copy_str("fps,devinfo"));
        assert(env@ =~= spec_hud_env(enabled));
    } else {
        assert(env@ =~= spec_hud_env(enabled));
    }
    env
}

/// The 64-bit system directory of a bottle.
pub open spec fn system32_dir(bottle: Seq<char>) -> Seq<char> {
    spec_join(bottle, "drive_c/windows/system32"@)
}

/// The 32-bit system directory of a bottle.
pub open spec fn syswow64_dir(bottle: Seq<char>) -> Seq<char> {
    spec_join(bottle, "drive_c/windows/syswow64"@)
}

/// `<dir>/<dll>.dll`.
pub open spec fn dll_file(dir: Seq<char>, dll: Seq<char>) -> Seq<char> {
    spec_join(dir, dll + ".dll"@)
}

/// `<dir>/<dll>.dll.orig`: where an original DLL is kept while DXVK's
/// replaces it.
pub open spec fn dll_backup(dir: Seq<char>, dll: Seq<char>) -> Seq<char> {
    spec_join(dir, dll + ".dll.orig"@)
}

/// The DXVK DLLs that must all be present in a bottle's system32 directory
/// for DXVK to count as installed there.
pub fn installed_dll_paths(bottle_dir: &str) -> (r: Vec<String>)
    ensures
        r@.len() == dxvk_dlls().len(),
        forall|i: int|
            0 <= i < r@.len() ==> #[trigger] r@[i]@ == dll_file(
                system32_dir(bottle_dir@),
                dxvk_dlls()[i],
            ),
{
    let sys32 = join(bottle_dir, "drive_c/windows/system32");
    let dlls = dll_names();
    let mut r: Vec<String> = Vec::new();
    let mut i: usize = 0;
    while i < dlls.len()
        invariant
            i <= dlls@.len(),
            dlls@.len() == dxvk_dlls().len(),
            forall|j: int| 0 <= j < dlls@.len() ==> #[trigger] dlls@[j]@ == dxvk_dlls()[j],
            sys32@ == system32_dir(bottle_dir@),
            r@.len() == i,
            forall|j: int|
                0 <= j < i ==> #[trigger] r@[j]@ == dll_file(system32_dir(bottle_dir@), dxvk_dlls()[j]),
        decreases dlls@.len() - i,
    {
        let name = concat(dlls[i].as_str(), ".dll");
        r.push(join(sys32.as_str(), name.as_str()));
        i += 1;
    }
    r
}

/// Whether DXVK is installed, given which of `installed_dll_paths` exist:
/// all of them must.
pub fn is_installed(present: &[bool]) -> (r: bool)
    ensures
        r == (forall|i: int| 0 <= i < present@.len() ==> #[trigger] present@[i]),
{
    let mut i: usize = 0;
    while i < present.len()
        invariant
            i <= present@.len(),
            forall|j: int| 0 <= j < i ==> #[trigger] present@[j],
        decreases present@.len() - i,
    {
        if !present[i] {
            return false;
        }
        i += 1;
    }
    true
}

// ---------------------------------------------------------------------------
// Installing and uninstalling: the file operations, decided from which of
// the paths involved exist
// ---------------------------------------------------------------------------

/// A file operation, carried out by the caller in order, stopping at the
/// first that fails.
#[derive(Debug, Clone)]
pub enum FileOp {
    /// Create a directory and its missing ancestors.
    CreateDirAll(String),
    /// Move a file to another path, replacing what is there.
    Rename(String, String),
    /// Copy a file to another path, replacing what is there.
    Copy(String, String),
}

/// A file operation as a value.
pub enum Op {
    CreateDirAll(Seq<char>),
    Rename(Seq<char>, Seq<char>),
    Copy(Seq<char>, Seq<char>),
}

pub open spec fn op_view(o: FileOp) -> Op {
    match o {
        FileOp::CreateDirAll(p) => Op::CreateDirAll(p@),
        FileOp::Rename(a, b) => Op::Rename(a@, b@),
        FileOp::Copy(a, b) => Op::Copy(a@, b@),
    }
}

pub open spec fn ops_view(v: Seq<FileOp>) -> Seq<Op> {
    v.map_values(|o: FileOp| op_view(o))
}

pub open spec fn x64_dir(dxvk: Seq<char>) -> Seq<char> {
    spec_join(dxvk, "x64"@)
}

pub open spec fn x32_dir(dxvk: Seq<char>) -> Seq<char> {
    spec_join(dxvk, "x32"@)
}

/// Installing one DLL that `src_dir` provides: move the DLL it replaces in
/// `dst_dir` to its backup, unless a backup is already there, then copy it in.
pub open spec fn install_step(
    src_dir: Seq<char>,
    dst_dir: Seq<char>,
    d: Seq<char>,
    present: Set<Seq<char>>,
) -> Seq<Op> {
    let src = dll_file(src_dir, d);
    let dest = dll_file(dst_dir, d);
    let bak = dll_backup(dst_dir, d);
    if present.contains(src) {
        if present.contains(dest) && !present.contains(bak) {
            seq![Op::Rename(dest, bak), Op::Copy(src, dest)]
        } else {
            seq![Op::Copy(src, dest)]
        }
    } else {
        Seq::empty()
    }
}

/// Installing each DLL in turn.
pub open spec fn install_steps(
    src_dir: Seq<char>,
    dst_dir: Seq<char>,
    dlls: Seq<Seq<char>>,
    present: Set<Seq<char>>,
) -> Seq<Op>
    decreases dlls.len(),
{
    if dlls.len() == 0 {
        Seq::empty()
    } else {
        install_steps(src_dir, dst_dir, dlls.drop_last(), present) + install_step(
            src_dir,
            dst_dir,
            dlls.last(),
            present,
        )
    }
}

/// Installing DXVK from `dxvk` (with its `x64/` and `x32/` DLLs) into a
/// bottle, given the paths that exist: create system32, install the 64-bit
/// DLLs there when `x64/` exists, and the 32-bit ones into syswow64 when
/// both `x32/` and syswow64 exist.
pub open spec fn spec_install_plan(dxvk: Seq<char>, bottle: Seq<char>, present: Set<Seq<char>>) -> Seq<Op> {
    let sys32 = system32_dir(bottle);
    let wow = syswow64_dir(bottle);
    let x64 = if present.contains(x64_dir(dxvk)) {
        install_steps(x64_dir(dxvk), sys32, dxvk_dlls(), present)
    } else {
        Seq::empty()
    };
    let x32 = if present.contains(x32_dir(dxvk)) && present.contains(wow) {
        install_steps(x32_dir(dxvk), wow, dxvk_dlls(), present)
    } else {
        Seq::empty()
    };
    seq![Op::CreateDirAll(sys32)] + x64 + x32
}

/// For each DLL with a backup in `dir`: move the backup back in its place.
pub open spec fn restore_steps(dir: Seq<char>, dlls: Seq<Seq<char>>, present: Set<Seq<char>>) -> Seq<Op>
    decreases dlls.len(),
{
    if dlls.len() == 0 {
        Seq::empty()
    } else {
        let prev = restore_steps(dir, dlls.drop_last(), present);
        let d = dlls.last();
        if present.contains(dll_backup(dir, d)) {
            prev.push(Op::Rename(dll_backup(dir, d), dll_file(dir, d)))
        } else {
            prev
        }
    }
}

/// Uninstalling DXVK from a bottle, given the paths that exist: in system32
/// and in syswow64, where they exist, every backed-up original DLL is moved
/// back in place.
pub open spec fn spec_uninstall_plan(bottle: Seq<char>, present: Set<Seq<char>>) -> Seq<Op> {
    let sys32 = system32_dir(bottle);
    let wow = syswow64_dir(bottle);
    (if present.contains(sys32) {
        restore_steps(sys32, dxvk_dlls(), present)
    } else {
        Seq::empty()
    }) + (if present.contains(wow) {
        restore_steps(wow, dxvk_dlls(), present)
    } else {
        Seq::empty()
    })
}

/// The paths whose existence installing DXVK depends on: for each DLL, its
/// file in `x64/` and `x32/`, and its file and backup in system32 and
/// syswow64; then the directories `x64/`, `x32/`, system32 and syswow64.
pub open spec fn install_probe_paths(dxvk: Seq<char>, bottle: Seq<char>) -> Seq<Seq<char>> {
    dll_probe_paths(dxvk, bottle, dxvk_dlls()) + seq![
        x64_dir(dxvk),
        x32_dir(dxvk),
        system32_dir(bottle),
        syswow64_dir(bottle),
    ]
}

pub open spec fn dll_probe_paths(dxvk: Seq<char>, bottle: Seq<char>, dlls: Seq<Seq<char>>) -> Seq<Seq<char>>
    decreases dlls.len(),
{
    if dlls.len() == 0 {
        Seq::empty()
    } else {
        let d = dlls.last();
        dll_probe_paths(dxvk, bottle, dlls.drop_last()) + seq![
            dll_file(x64_dir(dxvk), d),
            dll_file(system32_dir(bottle), d),
            dll_backup(system32_dir(bottle), d),
            dll_file(x32_dir(dxvk), d),
            dll_file(syswow64_dir(bottle), d),
            dll_backup(syswow64_dir(bottle), d),
        ]
    }
}

/// The paths whose existence installing DXVK depends on.
pub fn install_probes(dxvk_dir: &str, bottle_dir: &str) -> (r: Vec<String>)
    ensures
        r@.map_values(|s: String| s@) == install_probe_paths(dxvk_dir@, bottle_dir@),
{
    let x64 = join(dxvk_dir, "x64");
    let x32 = join(dxvk_dir, "x32");
    let sys32 = join(bottle_dir, "drive_c/windows/system32");
    let wow = join(bottle_dir, "drive_c/windows/syswow64");
    let ghost dx = dxvk_dir@;
    let ghost bo = bottle_dir@;
    let mut r: Vec<String> = Vec::new();
    let dlls = dll_names();
    let mut i: usize = 0;
    while i < dlls.len()
        invariant
            i <= dlls@.len(),
            dlls@.len() == dxvk_dlls().len(),
            forall|j: int| 0 <= j < dlls@.len() ==> #[trigger] dlls@[j]@ == dxvk_dlls()[j],
            x64@ == x64_dir(dx),
            x32@ == x32_dir(dx),
            sys32@ == system32_dir(bo),
            wow@ == syswow64_dir(bo),
            r@.map_values(|s: String| s@) == dll_probe_paths(dx, bo, dxvk_dlls().take(i as int)),
        decreases dlls@.len() - i,
    {
        let ghost before = r@;
        let ghost d = dxvk_dlls()[i as int];
        assert(dxvk_dlls().take(i + 1).drop_last() =~= dxvk_dlls().take(i as int));
        assert(dxvk_dlls().take(i + 1).last() == d);
        let name = concat(dlls[i].as_str(), ".dll");
        let orig = concat(dlls[i].as_str(), ".dll.orig");
        let a = join(x64.as_str(), name.as_str());
        let b = join(sys32.as_str(), name.as_str());
        let c = join(sys32.as_str(), orig.as_str());
        let e = join(x32.as_str(), name.as_str());
        let f = join(wow.as_str(), name.as_str());
        let g = join(wow.as_str(), orig.as_str());
        let ghost vs = seq![a@, b@, c@, e@, f@, g@];
        r.push(a);
        r.push(b);
        r.push(c);
        r.push(e);
        r.push(f);
        r.push(g);
        assert(r@.map_values(|s: String| s@) =~= before.map_values(|s: String| s@) + vs);
        i += 1;
    }
    assert(dxvk_dlls().take(4) =~= dxvk_dlls());
    let ghost before = r@;
    let ghost tail = seq![x64@, x32@, sys32@, wow@];
    r.push(x64);
    r.push(x32);
    r.push(sys32);
    r.push(wow);
    assert(r@.map_values(|s: String| s@) =~= before.map_values(|s: String| s@) + tail);
    r
}

fn install_steps_exec(
    src_dir: &str,
    dst_dir: &str,
    existing: &Vec<String>,
    ops: &mut Vec<FileOp>,
)
    ensures
        ops_view(final(ops)@) == ops_view(old(ops)@) + install_steps(
            src_dir@,
            dst_dir@,
            dxvk_dlls(),
            string_set(existing@),
        ),
{
    let dlls = dll_names();
    let ghost present = string_set(existing@);
    let ghost start = ops_view(ops@);
    let mut i: usize = 0;
    assert(start + install_steps(src_dir@, dst_dir@, dxvk_dlls().take(0), present) =~= start);
    while i < dlls.len()
        invariant
            i <= dlls@.len(),
            dlls@.len() == dxvk_dlls().len(),
            forall|j: int| 0 <= j < dlls@.len() ==> #[trigger] dlls@[j]@ == dxvk_dlls()[j],
            present == string_set(existing@),
            ops_view(ops@) == start + install_steps(src_dir@, dst_dir@, dxvk_dlls().take(i as int), present),
        decreases dlls@.len() - i,
    {
        let ghost before = ops_view(ops@);
        assert(dxvk_dlls().take(i + 1).drop_last() =~= dxvk_dlls().take(i as int));
        assert(dxvk_dlls().take(i + 1).last() == dlls@[i as int]@);
        let name = concat(dlls[i].as_str(), ".dll");
        let orig = concat(dlls[i].as_str(), ".dll.orig");
        let src = join(src_dir, name.as_str());
        let dest = join(dst_dir, name.as_str());
        let bak = join(dst_dir, orig.as_str());
        let ghost step = install_step(src_dir@, dst_dir@, dlls@[i as int]@, present);
        if holds_string(existing, src.as_str()) {
            if holds_string(existing, dest.as_str()) && !holds_string(existing, bak.as_str()) {
                let ghost o = Op::Rename(dest@, bak@);
                ops.push(FileOp::Rename(copy_str(dest.as_str()), bak));
                assert(ops_view(ops@) =~= before.push(o));
            }
            let ghost mid = ops_view(ops@);
            let ghost o2 = Op::Copy(src@, dest@);
            ops.push(FileOp::Copy(src, dest));
            assert(ops_view(ops@) =~= mid.push(o2));
            assert(ops_view(ops@) =~= before + step);
        } else {
            assert(ops_view(ops@) =~= before + step);
        }
        i += 1;
    }
    assert(dxvk_dlls().take(4) =~= dxvk_dlls());
}

/// The file operations that install DXVK from `dxvk_dir` into `bottle_dir`,
/// given which of `install_probes` exist.
pub fn install_plan(dxvk_dir: &str, bottle_dir: &str, existing: &Vec<String>) -> (r: Vec<FileOp>)
    ensures
        ops_view(r@) == spec_install_plan(dxvk_dir@, bottle_dir@, string_set(existing@)),
{
    let x64 = join(dxvk_dir, "x64");
    let x32 = join(dxvk_dir, "x32");
    let sys32 = join(bottle_dir, "drive_c/windows/system32");
    let wow = join(bottle_dir, "drive_c/windows/syswow64");
    let mut ops: Vec<FileOp> = Vec::new();
    ops.push(FileOp::CreateDirAll(copy_str(sys32.as_str())));
    assert(ops_view(ops@) =~= seq![Op::CreateDirAll(sys32@)]);
    if holds_string(existing, x64.as_str()) {
        install_steps_exec(x64.as_str(), sys32.as_str(), existing, &mut ops);
    }
    let ghost mid = ops_view(ops@);
    if holds_string(existing, x32.as_str()) && holds_string(existing, wow.as_str()) {
        install_steps_exec(x32.as_str(), wow.as_str(), existing, &mut ops);
    } else {
        assert(mid + Seq::<Op>::empty() =~= mid);
    }
    proof {
        let p = string_set(existing@);
        let a = if p.contains(x64_dir(dxvk_dir@)) {
            install_steps(x64_dir(dxvk_dir@), sys32@, dxvk_dlls(), p)
        } else {
            Seq::empty()
        };
        if !p.contains(x64_dir(dxvk_dir@)) {
            assert(mid =~= seq![Op::CreateDirAll(sys32@)] + a);
        }
    }
    ops
}

/// The paths whose existence uninstalling DXVK depends on: system32 and
/// syswow64, and the backup of each DLL in them.
pub open spec fn uninstall_probe_paths(bottle: Seq<char>) -> Seq<Seq<char>> {
    seq![system32_dir(bottle), syswow64_dir(bottle)] + dxvk_dlls().map_values(
        |d: Seq<char>| dll_backup(system32_dir(bottle), d),
    ) + dxvk_dlls().map_values(|d: Seq<char>| dll_backup(syswow64_dir(bottle), d))
}

/// The paths whose existence uninstalling DXVK depends on.
pub fn uninstall_probes(bottle_dir: &str) -> (r: Vec<String>)
    ensures
        r@.map_values(|s: String| s@) == uninstall_probe_paths(bottle_dir@),
{
    let sys32 = join(bottle_dir, "drive_c/windows/system32");
    let wow = join(bottle_dir, "drive_c/windows/syswow64");
    let dlls = dll_names();
    let mut backups32: Vec<String> = Vec::new();
    let mut backups64: Vec<String> = Vec::new();
    let mut i: usize = 0;
    while i < dlls.len()
        invariant
            i <= dlls@.len(),
            dlls@.len() == dxvk_dlls().len(),
            forall|j: int| 0 <= j < dlls@.len() ==> #[trigger] dlls@[j]@ == dxvk_dlls()[j],
            sys32@ == system32_dir(bottle_dir@),
            wow@ == syswow64_dir(bottle_dir@),
            backups32@.len() == i,
            backups64@.len() == i,
            forall|j: int| 0 <= j < i ==> #[trigger] backups32@[j]@ == dll_backup(system32_dir(bottle_dir@), dxvk_dlls()[j]),
            forall|j: int| 0 <= j < i ==> #[trigger] backups64@[j]@ == dll_backup(syswow64_dir(bottle_dir@), dxvk_dlls()[j]),
        decreases dlls@.len() - i,
    {
        let orig = concat(dlls[i].as_str(), ".dll.orig");
        backups32.push(join(sys32.as_str(), orig.as_str()));
        backups64.push(join(wow.as_str(), orig.as_str()));
        i += 1;
    }
    let mut r: Vec<String> = Vec::new();
    r.push(sys32);
    r.push(wow);
    r.append(&mut backups32);
    r.append(&mut backups64);
    assert(r@.map_values(|s: String| s@) =~= uninstall_probe_paths(bottle_dir@));
    r
}

fn restore_steps_exec(dir: &str, existing: &Vec<String>, ops: &mut Vec<FileOp>)
    ensures
        ops_view(final(ops)@) == ops_view(old(ops)@) + restore_steps(dir@, dxvk_dlls(), string_set(existing@)),
{
    let dlls = dll_names();
    let ghost present = string_set(existing@);
    let ghost start = ops_view(ops@);
    let mut i: usize = 0;
    assert(start + restore_steps(dir@, dxvk_dlls().take(0), present) =~= start);
    while i < dlls.len()
        invariant
            i <= dlls@.len(),
            dlls@.len() == dxvk_dlls().len(),
            forall|j: int| 0 <= j < dlls@.len() ==> #[trigger] dlls@[j]@ == dxvk_dlls()[j],
            present == string_set(existing@),
            ops_view(ops@) == start + restore_steps(dir@, dxvk_dlls().take(i as int), present),
        decreases dlls@.len() - i,
    {
        let ghost before = ops_view(ops@);
        assert(dxvk_dlls().take(i + 1).drop_last() =~= dxvk_dlls().take(i as int));
        assert(dxvk_dlls().take(i + 1).last() == dlls@[i as int]@);
        let name = concat(dlls[i].as_str(), ".dll");
        let orig = concat(dlls[i].as_str(), ".dll.orig");
        let dest = join(dir, name.as_str());
        let bak = join(dir, orig.as_str());
        if holds_string(existing, bak.as_str()) {
            let ghost o = Op::Rename(bak@, dest@);
            ops.push(FileOp::Rename(bak, dest));
            assert(ops_view(ops@) =~= before.push(o));
        }
        i += 1;
    }
    assert(dxvk_dlls().take(4) =~= dxvk_dlls());
}

/// The file operations that uninstall DXVK from `bottle_dir`, given which of
/// `uninstall_probes` exist.
pub fn uninstall_plan(bottle_dir: &str, existing: &Vec<String>) -> (r: Vec<FileOp>)
    ensures
        ops_view(r@) == spec_uninstall_plan(bottle_dir@, string_set(existing@)),
{
    let sys32 = join(bottle_dir, "drive_c/windows/system32");
    let wow = join(bottle_dir, "drive_c/windows/syswow64");
    let mut ops: Vec<FileOp> = Vec::new();
    assert(ops_view(ops@) =~= Seq::<Op>::empty());
    if holds_string(existing, sys32.as_str()) {
        restore_steps_exec(sys32.as_str(), existing, &mut ops);
    }
    let ghost mid = ops_view(ops@);
    if holds_string(existing, wow.as_str()) {
        restore_steps_exec(wow.as_str(), existing, &mut ops);
    }
    proof {
        let p = string_set(existing@);
        let a = if p.contains(sys32@) {
            restore_steps(sys32@, dxvk_dlls(), p)
        } else {
            Seq::empty()
        };
        let b = if p.contains(wow@) {
            restore_steps(wow@, dxvk_dlls(), p)
        } else {
            Seq::empty()
        };
        assert(mid =~= a);
        assert(ops_view(ops@) =~= a + b);
    }
    ops
}

// ---------------------------------------------------------------------------
// What carrying out file operations does
// ---------------------------------------------------------------------------

/// A file system as a value: the files by path with their contents, and the
/// directories.
pub type FsModel = (Map<Seq<char>, Seq<u8>>, Set<Seq<char>>);

/// The paths that exist: files and directories.
pub open spec fn fs_present(fs: FsModel) -> Set<Seq<char>> {
    fs.0.dom().union(fs.1)
}

/// What one operation does. A rename or copy of a missing file changes
/// nothing (the caller stops there with an error).
pub open spec fn apply_op(fs: FsModel, op: Op) -> FsModel {
    match op {
        Op::CreateDirAll(d) => (fs.0, fs.1.insert(d)),
        Op::Rename(a, b) => if fs.0.dom().contains(a) {
            (fs.0.remove(a).insert(b, fs.0[a]), fs.1)
        } else {
            fs
        },
        Op::Copy(a, b) => if fs.0.dom().contains(a) {
            (fs.0.insert(b, fs.0[a]), fs.1)
        } else {
            fs
        },
    }
}

/// What a list of operations does, carried out in order.
pub open spec fn apply_ops(fs: FsModel, ops: Seq<Op>) -> FsModel
    decreases ops.len(),
{
    if ops.len() == 0 {
        fs
    } else {
        apply_op(apply_ops(fs, ops.drop_last()), ops.last())
    }
}

} // verus!
