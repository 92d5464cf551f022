//! Installing DXVK and uninstalling it again gives a bottle its original
//! DLLs back.
use vstd::prelude::*;

use crate::dxvk::{
    apply_op, apply_ops, dll_backup, dll_file, dxvk_dlls, fs_present, install_step,
    install_steps, restore_steps, spec_install_plan, spec_uninstall_plan, syswow64_dir,
    system32_dir, x32_dir, x64_dir, FsModel, Op,
};
use crate::path::spec_join;

verus! {

/// Whether an operation writes or removes the file at `p`.
pub open spec fn touches(op: Op, p: Seq<char>) -> bool {
    match op {
        Op::CreateDirAll(_) => false,
        Op::Rename(a, b) => a == p || b == p,
        Op::Copy(_, b) => b == p,
    }
}

pub open spec fn untouched(ops: Seq<Op>, p: Seq<char>) -> bool {
    forall|i: int| 0 <= i < ops.len() ==> !touches(#[trigger] ops[i], p)
}

/// Operations that do not touch a file leave it as it was.
proof fn lemma_frame(fs: FsModel, ops: Seq<Op>, p: Seq<char>)
    requires
        untouched(ops, p),
    ensures
        apply_ops(fs, ops).0.dom().contains(p) == fs.0.dom().contains(p),
        fs.0.dom().contains(p) ==> apply_ops(fs, ops).0[p] == fs.0[p],
    decreases ops.len(),
{
    if ops.len() > 0 {
        assert(untouched(ops.drop_last(), p)) by {
            assert forall|i: int| 0 <= i < ops.drop_last().len() implies !touches(#[trigger] ops.drop_last()[i], p) by {
                assert(ops.drop_last()[i] == ops[i]);
            }
        }
        lemma_frame(fs, ops.drop_last(), p);
        assert(!touches(ops[ops.len() - 1], p));
    }
}

/// Directories are never taken away.
proof fn lemma_dirs_grow(fs: FsModel, ops: Seq<Op>, d: Seq<char>)
    requires
        fs.1.contains(d),
    ensures
        apply_ops(fs, ops).1.contains(d),
    decreases ops.len(),
{
    if ops.len() > 0 {
        lemma_dirs_grow(fs, ops.drop_last(), d);
    }
}

/// Carrying out `a` then `b` is carrying out `a + b`.
proof fn lemma_apply_concat(fs: FsModel, a: Seq<Op>, b: Seq<Op>)
    ensures
        apply_ops(fs, a + b) == apply_ops(apply_ops(fs, a), b),
    decreases b.len(),
{
    if b.len() == 0 {
        assert(a + b =~= a);
    } else {
        lemma_apply_concat(fs, a, b.drop_last());
        assert((a + b).drop_last() =~= a + b.drop_last());
        assert((a + b).last() == b.last());
    }
}

// ---------------------------------------------------------------------------
// The paths involved are distinct
// ---------------------------------------------------------------------------

pub open spec fn no_slash(s: Seq<char>) -> bool {
    forall|i: int| 0 <= i < s.len() ==> s[i] != '/'
}

/// A path ending in a name without `/` determines the name and what comes
/// before its `/`.
proof fn lemma_last_segment(d1: Seq<char>, n1: Seq<char>, d2: Seq<char>, n2: Seq<char>)
    requires
        no_slash(n1),
        no_slash(n2),
        d1 + seq!['/'] + n1 == d2 + seq!['/'] + n2,
    ensures
        d1 == d2,
        n1 == n2,
{
    let a1 = d1 + seq!['/'];
    let a2 = d2 + seq!['/'];
    let p = a1 + n1;
    assert(p == a2 + n2);
    assert(p.len() == d1.len() + 1 + n1.len());
    assert(p.len() == d2.len() + 1 + n2.len());
    assert(a1[d1.len() as int] == '/');
    assert(a2[d2.len() as int] == '/');
    assert(p[d1.len() as int] == '/');
    assert(p[d2.len() as int] == '/');
    if d1.len() < d2.len() {
        let x = d2.len() as int;
        assert(x >= a1.len());
        assert(p[x] == n1[x - a1.len()]);
        assert(n1[x - a1.len()] != '/');
    }
    if d2.len() < d1.len() {
        let x = d1.len() as int;
        assert(x >= a2.len());
        assert((a2 + n2)[x] == n2[x - a2.len()]);
        assert(n2[x - a2.len()] != '/');
    }
    assert(d1.len() == d2.len());
    assert(d1 =~= p.take(d1.len() as int));
    assert(d2 =~= p.take(d2.len() as int));
    assert(n1 =~= p.skip(d1.len() as int + 1));
    assert(n2 =~= p.skip(d2.len() as int + 1));
}

/// Joining a relative name to a directory ends in that name.
proof fn lemma_join_suffix(base: Seq<char>, seg: Seq<char>)
    requires
        seg.len() > 0,
        seg[0] != '/',
    ensures
        spec_join(base, seg).len() >= seg.len(),
        spec_join(base, seg).skip(spec_join(base, seg).len() - seg.len()) == seg,
        spec_join(base, seg).last() == seg.last(),
{
    let j = spec_join(base, seg);
    if base.len() == 0 || base.last() == '/' {
        assert(j.skip(j.len() - seg.len()) =~= seg);
    } else {
        assert(j.skip(j.len() - seg.len()) =~= seg);
    }
}

/// A file in a directory whose path does not end in `/` is the directory,
/// `/` and the name.
proof fn lemma_file_shape(dir: Seq<char>, name: Seq<char>)
    requires
        dir.len() > 0,
        dir.last() != '/',
        name.len() > 0,
        name[0] != '/',
    ensures
        spec_join(dir, name) == dir + seq!['/'] + name,
{
}

pub open spec fn file_name_of(d: Seq<char>) -> Seq<char> {
    d + ".dll"@
}

pub open spec fn backup_name_of(d: Seq<char>) -> Seq<char> {
    d + ".dll.orig"@
}

proof fn lemma_names()
    ensures
        forall|k: int| 0 <= k < 4 ==> no_slash(#[trigger] file_name_of(dxvk_dlls()[k])) && no_slash(backup_name_of(dxvk_dlls()[k]))
            && file_name_of(dxvk_dlls()[k]).len() > 0 && file_name_of(dxvk_dlls()[k])[0] != '/'
            && backup_name_of(dxvk_dlls()[k]).len() > 0 && backup_name_of(dxvk_dlls()[k])[0] != '/',
        forall|j: int, k: int|
            0 <= j < 4 && 0 <= k < 4 ==> file_name_of(dxvk_dlls()[j]) != backup_name_of(#[trigger] dxvk_dlls()[k]) && (j != k ==> file_name_of(#[trigger] dxvk_dlls()[j]) != file_name_of(dxvk_dlls()[k]) && backup_name_of(dxvk_dlls()[j]) != backup_name_of(dxvk_dlls()[k])),
{
    reveal_strlit("d3d9");
    reveal_strlit("d3d10core");
    reveal_strlit("d3d11");
    reveal_strlit("dxgi");
    reveal_strlit(".dll");
    reveal_strlit(".dll.orig");
    let s = dxvk_dlls();
    assert forall|k: int| 0 <= k < 4 implies no_slash(#[trigger] file_name_of(s[k])) && no_slash(backup_name_of(s[k]))
        && file_name_of(s[k]).len() > 0 && file_name_of(s[k])[0] != '/' && backup_name_of(s[k]).len() > 0
        && backup_name_of(s[k])[0] != '/' by {
        assert(no_slash(s[k]));
        assert(no_slash(".dll"@));
        assert(no_slash(".dll.orig"@));
    }
    assert forall|j: int, k: int| 0 <= j < 4 && 0 <= k < 4 implies file_name_of(s[j]) != backup_name_of(#[trigger] s[k]) && (j != k ==> file_name_of(#[trigger] s[j]) != file_name_of(s[k]) && backup_name_of(s[j]) != backup_name_of(s[k])) by {
        let fj = file_name_of(s[j]);
        let bk = backup_name_of(s[k]);
        if fj.len() == bk.len() {
            assert(fj[3] != bk[3] || fj[1] != bk[1]);
        }
        if j != k {
            let fk = file_name_of(s[k]);
            let bj = backup_name_of(s[j]);
            if fj.len() == fk.len() {
                assert(fj[1] != fk[1] || fj[3] != fk[3]);
            }
            if bj.len() == bk.len() {
                assert(bj[1] != bk[1] || bj[3] != bk[3]);
            }
        }
    }
}

proof fn lemma_dirs(dxvk: Seq<char>, bottle: Seq<char>)
    ensures
        system32_dir(bottle).len() > 0,
        system32_dir(bottle).last() == '2',
        syswow64_dir(bottle).len() > 0,
        syswow64_dir(bottle).last() == '4',
        x64_dir(dxvk).len() > 0,
        x64_dir(dxvk).last() == '4',
        x32_dir(dxvk).len() > 0,
        x32_dir(dxvk).last() == '2',
        system32_dir(bottle) != syswow64_dir(bottle),
        x64_dir(dxvk) != system32_dir(bottle),
{
    reveal_strlit("drive_c/windows/system32");
    reveal_strlit("drive_c/windows/syswow64");
    reveal_strlit("x64");
    reveal_strlit("x32");
    let l1 = "drive_c/windows/system32"@;
    let l2 = "drive_c/windows/syswow64"@;
    lemma_join_suffix(bottle, l1);
    lemma_join_suffix(bottle, l2);
    lemma_join_suffix(dxvk, "x64"@);
    lemma_join_suffix(dxvk, "x32"@);
    let a = system32_dir(bottle);
    let b = syswow64_dir(bottle);
    assert(a.len() == b.len()) by {
        if bottle.len() == 0 || bottle.last() == '/' {
        } else {
        }
    }
    assert(a.skip(a.len() - l1.len()) == l1);
    assert(b.skip(b.len() - l2.len()) == l2);
    assert(l1[19] != l2[19]);
    if a == b {
        assert(l1 == l2);
    }
}

/// Two files are distinct when their directories or their names differ.
proof fn lemma_distinct_files(da: Seq<char>, na: Seq<char>, db: Seq<char>, nb: Seq<char>)
    requires
        da.len() > 0,
        da.last() != '/',
        db.len() > 0,
        db.last() != '/',
        na.len() > 0,
        na[0] != '/',
        nb.len() > 0,
        nb[0] != '/',
        no_slash(na),
        no_slash(nb),
        da != db || na != nb,
    ensures
        spec_join(da, na) != spec_join(db, nb),
{
    lemma_file_shape(da, na);
    lemma_file_shape(db, nb);
    if spec_join(da, na) == spec_join(db, nb) {
        lemma_last_segment(da, na, db, nb);
    }
}

/// The paths installing and uninstalling DLL `k` depends on are not
/// touched by what is done for the other DLLs, nor in syswow64.
proof fn lemma_separate(dxvk: Seq<char>, bottle: Seq<char>, k: int)
    requires
        0 <= k < 4,
    ensures
        ({
            let s = dxvk_dlls();
            let sys = system32_dir(bottle);
            let wow = syswow64_dir(bottle);
            let src = dll_file(x64_dir(dxvk), s[k]);
            let dest = dll_file(sys, s[k]);
            let bak = dll_backup(sys, s[k]);
            &&& dest != bak
            &&& src != dest
            &&& src != bak
            &&& forall|j: int|
                0 <= j < 4 && j != k ==> {
                    &&& dll_file(sys, #[trigger] s[j]) != dest
                    &&& dll_file(sys, s[j]) != bak
                    &&& dll_file(sys, s[j]) != src
                    &&& dll_backup(sys, s[j]) != dest
                    &&& dll_backup(sys, s[j]) != bak
                    &&& dll_backup(sys, s[j]) != src
                }
            &&& forall|j: int|
                0 <= j < 4 ==> {
                    &&& dll_file(wow, #[trigger] s[j]) != dest
                    &&& dll_file(wow, s[j]) != bak
                    &&& dll_backup(wow, s[j]) != dest
                    &&& dll_backup(wow, s[j]) != bak
                }
        }),
{
    let s = dxvk_dlls();
    let sys = system32_dir(bottle);
    let wow = syswow64_dir(bottle);
    let x64 = x64_dir(dxvk);
    lemma_dirs(dxvk, bottle);
    lemma_names();
    let fk = file_name_of(s[k]);
    let bk = backup_name_of(s[k]);
    assert(dll_file(sys, s[k]) == spec_join(sys, fk));
    lemma_distinct_files(sys, fk, sys, bk);
    lemma_distinct_files(x64, fk, sys, fk);
    lemma_distinct_files(x64, fk, sys, bk);
    assert forall|j: int| 0 <= j < 4 && j != k implies {
        &&& dll_file(sys, #[trigger] s[j]) != dll_file(sys, s[k])
        &&& dll_file(sys, s[j]) != dll_backup(sys, s[k])
        &&& dll_file(sys, s[j]) != dll_file(x64, s[k])
        &&& dll_backup(sys, s[j]) != dll_file(sys, s[k])
        &&& dll_backup(sys, s[j]) != dll_backup(sys, s[k])
        &&& dll_backup(sys, s[j]) != dll_file(x64, s[k])
    } by {
        let fj = file_name_of(s[j]);
        let bj = backup_name_of(s[j]);
        lemma_distinct_files(sys, fj, sys, fk);
        lemma_distinct_files(sys, fj, sys, bk);
        lemma_distinct_files(sys, fj, x64, fk);
        lemma_distinct_files(sys, bj, sys, fk);
        lemma_distinct_files(sys, bj, sys, bk);
        lemma_distinct_files(sys, bj, x64, fk);
    }
    assert forall|j: int| 0 <= j < 4 implies {
        &&& dll_file(wow, #[trigger] s[j]) != dll_file(sys, s[k])
        &&& dll_file(wow, s[j]) != dll_backup(sys, s[k])
        &&& dll_backup(wow, s[j]) != dll_file(sys, s[k])
        &&& dll_backup(wow, s[j]) != dll_backup(sys, s[k])
    } by {
        let fj = file_name_of(s[j]);
        let bj = backup_name_of(s[j]);
        lemma_distinct_files(wow, fj, sys, fk);
        lemma_distinct_files(wow, fj, sys, bk);
        lemma_distinct_files(wow, bj, sys, fk);
        lemma_distinct_files(wow, bj, sys, bk);
    }
}

proof fn lemma_untouched_concat(a: Seq<Op>, b: Seq<Op>, p: Seq<char>)
    requires
        untouched(a, p),
        untouched(b, p),
    ensures
        untouched(a + b, p),
{
    assert forall|i: int| 0 <= i < (a + b).len() implies !touches(#[trigger] (a + b)[i], p) by {
        if i < a.len() {
            assert((a + b)[i] == a[i]);
        } else {
            assert((a + b)[i] == b[i - a.len()]);
        }
    }
}

/// Installing DLLs into `dst` touches only their files and backups there.
proof fn lemma_install_steps_untouched(
    src_dir: Seq<char>,
    dst_dir: Seq<char>,
    dlls: Seq<Seq<char>>,
    present: Set<Seq<char>>,
    p: Seq<char>,
)
    requires
        forall|j: int| 0 <= j < dlls.len() ==> p != dll_file(dst_dir, #[trigger] dlls[j]) && p != dll_backup(dst_dir, dlls[j]),
    ensures
        untouched(install_steps(src_dir, dst_dir, dlls, present), p),
    decreases dlls.len(),
{
    if dlls.len() > 0 {
        assert forall|j: int| 0 <= j < dlls.drop_last().len() implies p != dll_file(dst_dir, #[trigger] dlls.drop_last()[j]) && p != dll_backup(dst_dir, dlls.drop_last()[j]) by {
            assert(dlls.drop_last()[j] == dlls[j]);
        }
        lemma_install_steps_untouched(src_dir, dst_dir, dlls.drop_last(), present, p);
        assert(p != dll_file(dst_dir, dlls[dlls.len() - 1]));
        lemma_untouched_concat(
            install_steps(src_dir, dst_dir, dlls.drop_last(), present),
            install_step(src_dir, dst_dir, dlls.last(), present),
            p,
        );
    }
}

/// Restoring DLLs in `dir` touches only their files and backups there.
proof fn lemma_restore_steps_untouched(dir: Seq<char>, dlls: Seq<Seq<char>>, present: Set<Seq<char>>, p: Seq<char>)
    requires
        forall|j: int| 0 <= j < dlls.len() ==> p != dll_file(dir, #[trigger] dlls[j]) && p != dll_backup(dir, dlls[j]),
    ensures
        untouched(restore_steps(dir, dlls, present), p),
    decreases dlls.len(),
{
    if dlls.len() > 0 {
        assert forall|j: int| 0 <= j < dlls.drop_last().len() implies p != dll_file(dir, #[trigger] dlls.drop_last()[j]) && p != dll_backup(dir, dlls.drop_last()[j]) by {
            assert(dlls.drop_last()[j] == dlls[j]);
        }
        lemma_restore_steps_untouched(dir, dlls.drop_last(), present, p);
        assert(p != dll_file(dir, dlls[dlls.len() - 1]));
        let prev = restore_steps(dir, dlls.drop_last(), present);
        let r = restore_steps(dir, dlls, present);
        assert forall|i: int| 0 <= i < r.len() implies !touches(#[trigger] r[i], p) by {
            if i < prev.len() {
                assert(r[i] == prev[i]);
            }
        }
    }
}

proof fn lemma_install_steps_concat(
    src_dir: Seq<char>,
    dst_dir: Seq<char>,
    a: Seq<Seq<char>>,
    b: Seq<Seq<char>>,
    present: Set<Seq<char>>,
)
    ensures
        install_steps(src_dir, dst_dir, a + b, present) == install_steps(src_dir, dst_dir, a, present)
            + install_steps(src_dir, dst_dir, b, present),
    decreases b.len(),
{
    if b.len() == 0 {
        assert(a + b =~= a);
        assert(install_steps(src_dir, dst_dir, a, present) + Seq::<Op>::empty() =~= install_steps(src_dir, dst_dir, a, present));
    } else {
        lemma_install_steps_concat(src_dir, dst_dir, a, b.drop_last(), present);
        assert((a + b).drop_last() =~= a + b.drop_last());
        assert((a + b).last() == b.last());
        let x = install_steps(src_dir, dst_dir, a, present);
        let y = install_steps(src_dir, dst_dir, b.drop_last(), present);
        let z = install_step(src_dir, dst_dir, b.last(), present);
        assert(x + y + z =~= x + (y + z));
    }
}

proof fn lemma_restore_steps_concat(dir: Seq<char>, a: Seq<Seq<char>>, b: Seq<Seq<char>>, present: Set<Seq<char>>)
    ensures
        restore_steps(dir, a + b, present) == restore_steps(dir, a, present) + restore_steps(dir, b, present),
    decreases b.len(),
{
    if b.len() == 0 {
        assert(a + b =~= a);
        assert(restore_steps(dir, a, present) + Seq::<Op>::empty() =~= restore_steps(dir, a, present));
    } else {
        lemma_restore_steps_concat(dir, a, b.drop_last(), present);
        assert((a + b).drop_last() =~= a + b.drop_last());
        assert((a + b).last() == b.last());
        let x = restore_steps(dir, a, present);
        let y = restore_steps(dir, b.drop_last(), present);
        let d = b.last();
        if present.contains(dll_backup(dir, d)) {
            assert((x + y).push(Op::Rename(dll_backup(dir, d), dll_file(dir, d))) =~= x + y.push(Op::Rename(dll_backup(dir, d), dll_file(dir, d))));
        }
    }
}

/// Installing a single DLL is its one step.
proof fn lemma_install_one(src_dir: Seq<char>, dst_dir: Seq<char>, d: Seq<char>, present: Set<Seq<char>>)
    ensures
        install_steps(src_dir, dst_dir, seq![d], present) == install_step(src_dir, dst_dir, d, present),
{
    let s = seq![d];
    assert(s.drop_last() =~= Seq::<Seq<char>>::empty());
    assert(s.last() == d);
    assert(install_steps(src_dir, dst_dir, Seq::<Seq<char>>::empty(), present) == Seq::<Op>::empty());
    assert(Seq::<Op>::empty() + install_step(src_dir, dst_dir, d, present) =~= install_step(
        src_dir,
        dst_dir,
        d,
        present,
    ));
}

/// Copying a DLL in place of another, after moving that one to its backup
/// where the plan says so: the DLL ends up copied, and the one it replaced,
/// where it was a file, in the backup.
proof fn lemma_copy_over(fs: FsModel, src: Seq<char>, dest: Seq<char>, bak: Seq<char>, with_backup: bool)
    requires
        fs.0.dom().contains(src),
        src != dest,
        src != bak,
        dest != bak,
    ensures
        ({
            let f = apply_ops(
                fs,
                if with_backup {
                    seq![Op::Rename(dest, bak), Op::Copy(src, dest)]
                } else {
                    seq![Op::Copy(src, dest)]
                },
            );
            &&& f.0.dom().contains(dest)
            &&& f.0[dest] == fs.0[src]
            &&& with_backup && fs.0.dom().contains(dest) ==> f.0.dom().contains(bak) && f.0[bak]
                == fs.0[dest]
        }),
{
    let copy = seq![Op::Copy(src, dest)];
    assert(copy.drop_last() =~= Seq::<Op>::empty());
    assert(copy.last() == Op::Copy(src, dest));
    assert(apply_ops(fs, Seq::<Op>::empty()) == fs);
    if with_backup {
        let step = seq![Op::Rename(dest, bak), Op::Copy(src, dest)];
        let first = seq![Op::Rename(dest, bak)];
        assert(step.drop_last() =~= first);
        assert(step.last() == Op::Copy(src, dest));
        assert(first.drop_last() =~= Seq::<Op>::empty());
        assert(first.last() == Op::Rename(dest, bak));
        let g = apply_op(fs, Op::Rename(dest, bak));
        assert(apply_ops(fs, first) == g);
        assert(g.0.dom().contains(src) && g.0[src] == fs.0[src]);
        assert(fs.0.dom().contains(dest) ==> g.0.dom().contains(bak) && g.0[bak] == fs.0[dest]);
        let h = apply_op(g, Op::Copy(src, dest));
        assert(apply_ops(fs, step) == h);
    } else {
        assert(apply_ops(fs, copy) == apply_op(fs, Op::Copy(src, dest)));
    }
}

/// Restoring a single DLL whose backup exists is one move.
proof fn lemma_restore_one(dir: Seq<char>, d: Seq<char>, present: Set<Seq<char>>)
    requires
        present.contains(dll_backup(dir, d)),
    ensures
        restore_steps(dir, seq![d], present) == seq![Op::Rename(dll_backup(dir, d), dll_file(dir, d))],
{
    let s = seq![d];
    assert(s.drop_last() =~= Seq::<Seq<char>>::empty());
    assert(s.last() == d);
    assert(restore_steps(dir, Seq::<Seq<char>>::empty(), present) == Seq::<Op>::empty());
    assert(Seq::<Op>::empty().push(Op::Rename(dll_backup(dir, d), dll_file(dir, d))) =~= seq![
        Op::Rename(dll_backup(dir, d), dll_file(dir, d)),
    ]);
}

/// Moving a backup back in place.
proof fn lemma_move_back(fs: FsModel, bak: Seq<char>, dest: Seq<char>)
    requires
        fs.0.dom().contains(bak),
    ensures
        apply_ops(fs, seq![Op::Rename(bak, dest)]).0.dom().contains(dest),
        apply_ops(fs, seq![Op::Rename(bak, dest)]).0[dest] == fs.0[bak],
        bak != dest ==> !apply_ops(fs, seq![Op::Rename(bak, dest)]).0.dom().contains(bak),
{
    let one = seq![Op::Rename(bak, dest)];
    assert(one.drop_last() =~= Seq::<Op>::empty());
    assert(one.last() == Op::Rename(bak, dest));
    assert(apply_ops(fs, Seq::<Op>::empty()) == fs);
    assert(apply_ops(fs, one) == apply_op(fs, Op::Rename(bak, dest)));
}

/// The DLLs split around the one at `k`.
proof fn lemma_split_dlls(k: int)
    requires
        0 <= k < 4,
    ensures
        dxvk_dlls() == dxvk_dlls().take(k) + seq![dxvk_dlls()[k]] + dxvk_dlls().skip(k + 1),
{
    assert(dxvk_dlls() =~= dxvk_dlls().take(k) + seq![dxvk_dlls()[k]] + dxvk_dlls().skip(k + 1));
}

/// Installing DXVK puts each DLL that its `x64/` directory provides into
/// the bottle's system32, and, where the DLL it replaces was a file without
/// a backup, moves that one to the backup; system32 exists afterwards.
pub proof fn law_install_provides_dll(dxvk: Seq<char>, bottle: Seq<char>, fs: FsModel, k: int)
    requires
        0 <= k < 4,
        fs_present(fs).contains(x64_dir(dxvk)),
        fs.0.dom().contains(dll_file(x64_dir(dxvk), dxvk_dlls()[k])),
    ensures
        ({
            let d = dxvk_dlls()[k];
            let sys = system32_dir(bottle);
            let fs1 = apply_ops(fs, spec_install_plan(dxvk, bottle, fs_present(fs)));
            &&& fs1.0.dom().contains(dll_file(sys, d))
            &&& fs1.0[dll_file(sys, d)] == fs.0[dll_file(x64_dir(dxvk), d)]
            &&& fs.0.dom().contains(dll_file(sys, d)) && !fs_present(fs).contains(dll_backup(sys, d))
                ==> fs1.0.dom().contains(dll_backup(sys, d)) && fs1.0[dll_backup(sys, d)] == fs.0[dll_file(sys, d)]
            &&& fs_present(fs1).contains(sys)
        }),
{
    let s = dxvk_dlls();
    let d = s[k];
    let sys = system32_dir(bottle);
    let wow = syswow64_dir(bottle);
    let x64 = x64_dir(dxvk);
    let src = dll_file(x64, d);
    let dest = dll_file(sys, d);
    let bak = dll_backup(sys, d);
    let pr = fs_present(fs);
    lemma_separate(dxvk, bottle, k);
    lemma_split_dlls(k);
    let before = s.take(k);
    let after = s.skip(k + 1);
    // Installing.
    lemma_install_steps_concat(x64, sys, before + seq![d], after, pr);
    lemma_install_steps_concat(x64, sys, before, seq![d], pr);
    lemma_install_one(x64, sys, d, pr);
    let pre_ops = install_steps(x64, sys, before, pr);
    let step = install_step(x64, sys, d, pr);
    let post_ops = install_steps(x64, sys, after, pr);
    let x32_ops = if pr.contains(x32_dir(dxvk)) && pr.contains(wow) {
        install_steps(x32_dir(dxvk), wow, s, pr)
    } else {
        Seq::empty()
    };
    let c = seq![Op::CreateDirAll(sys)];
    assert(spec_install_plan(dxvk, bottle, pr) =~= c + pre_ops + step + post_ops + x32_ops);
    let with_backup = pr.contains(dest) && !pr.contains(bak);
    assert(step =~= (if with_backup {
        seq![Op::Rename(dest, bak), Op::Copy(src, dest)]
    } else {
        seq![Op::Copy(src, dest)]
    }));
    // Before DLL `k` nothing touches its paths.
    assert forall|j: int| 0 <= j < before.len() implies src != dll_file(sys, #[trigger] before[j]) && src != dll_backup(sys, before[j])
        && dest != dll_file(sys, before[j]) && dest != dll_backup(sys, before[j])
        && bak != dll_file(sys, before[j]) && bak != dll_backup(sys, before[j]) by {
        assert(before[j] == s[j]);
    }
    lemma_install_steps_untouched(x64, sys, before, pr, src);
    lemma_install_steps_untouched(x64, sys, before, pr, dest);
    lemma_install_steps_untouched(x64, sys, before, pr, bak);
    assert(untouched(c, src) && untouched(c, dest) && untouched(c, bak));
    lemma_untouched_concat(c, pre_ops, src);
    lemma_untouched_concat(c, pre_ops, dest);
    lemma_untouched_concat(c, pre_ops, bak);
    let f0 = apply_ops(fs, c + pre_ops);
    lemma_frame(fs, c + pre_ops, src);
    lemma_frame(fs, c + pre_ops, dest);
    lemma_frame(fs, c + pre_ops, bak);
    // DLL `k`: the original goes to the backup, DXVK's in its place.
    lemma_apply_concat(fs, c + pre_ops, step);
    let f1 = apply_ops(f0, step);
    lemma_copy_over(f0, src, dest, bak, with_backup);
    // After it nothing touches them either.
    assert forall|j: int| 0 <= j < after.len() implies dest != dll_file(sys, #[trigger] after[j]) && dest != dll_backup(sys, after[j])
        && bak != dll_file(sys, after[j]) && bak != dll_backup(sys, after[j]) by {
        assert(after[j] == s[j + k + 1]);
    }
    lemma_install_steps_untouched(x64, sys, after, pr, dest);
    lemma_install_steps_untouched(x64, sys, after, pr, bak);
    if pr.contains(x32_dir(dxvk)) && pr.contains(wow) {
        lemma_install_steps_untouched(x32_dir(dxvk), wow, s, pr, dest);
        lemma_install_steps_untouched(x32_dir(dxvk), wow, s, pr, bak);
    }
    assert(untouched(x32_ops, dest) && untouched(x32_ops, bak));
    lemma_untouched_concat(post_ops, x32_ops, dest);
    lemma_untouched_concat(post_ops, x32_ops, bak);
    lemma_apply_concat(fs, c + pre_ops + step, post_ops + x32_ops);
    assert(c + pre_ops + step + (post_ops + x32_ops) =~= c + pre_ops + step + post_ops + x32_ops);
    lemma_apply_concat(fs, c + pre_ops, step);
    let fs1 = apply_ops(fs, spec_install_plan(dxvk, bottle, pr));
    lemma_frame(f1, post_ops + x32_ops, dest);
    lemma_frame(f1, post_ops + x32_ops, bak);
    assert(fs1 == apply_ops(f1, post_ops + x32_ops));
    // system32 exists after installing.
    lemma_apply_concat(fs, c, pre_ops + step + post_ops + x32_ops);
    assert(c + (pre_ops + step + post_ops + x32_ops) =~= c + pre_ops + step + post_ops + x32_ops);
    assert(c.drop_last() =~= Seq::<Op>::empty());
    assert(apply_ops(fs, c).1.contains(sys));
    lemma_dirs_grow(apply_ops(fs, c), pre_ops + step + post_ops + x32_ops, sys);
    assert(fs_present(fs1).contains(sys));
}

/// Installing DXVK into a bottle from a release whose `x64/` directory holds
/// every DXVK DLL leaves every one of them in the bottle's system32: DXVK
/// counts as installed there.
pub proof fn law_install_then_installed(dxvk: Seq<char>, bottle: Seq<char>, fs: FsModel)
    requires
        fs_present(fs).contains(x64_dir(dxvk)),
        forall|k: int| 0 <= k < 4 ==> fs.0.dom().contains(dll_file(x64_dir(dxvk), #[trigger] dxvk_dlls()[k])),
    ensures
        forall|k: int|
            0 <= k < dxvk_dlls().len() ==> fs_present(
                apply_ops(fs, spec_install_plan(dxvk, bottle, fs_present(fs))),
            ).contains(dll_file(system32_dir(bottle), #[trigger] dxvk_dlls()[k])),
{
    assert forall|k: int| 0 <= k < dxvk_dlls().len() implies fs_present(
        apply_ops(fs, spec_install_plan(dxvk, bottle, fs_present(fs))),
    ).contains(dll_file(system32_dir(bottle), #[trigger] dxvk_dlls()[k])) by {
        law_install_provides_dll(dxvk, bottle, fs, k);
    }
}

/// Installing DXVK and then uninstalling it gives the bottle its original
/// DLL back: for a DLL that the DXVK `x64/` directory provides and that the
/// bottle's system32 holds without a backup, installing puts DXVK's DLL in
/// its place and the original in the backup, and uninstalling afterwards
/// puts the original back and leaves no backup behind.
pub proof fn law_install_then_uninstall_restores(dxvk: Seq<char>, bottle: Seq<char>, fs: FsModel, k: int)
    requires
        0 <= k < 4,
        fs_present(fs).contains(x64_dir(dxvk)),
        fs.0.dom().contains(dll_file(x64_dir(dxvk), dxvk_dlls()[k])),
        fs.0.dom().contains(dll_file(system32_dir(bottle), dxvk_dlls()[k])),
        !fs_present(fs).contains(dll_backup(system32_dir(bottle), dxvk_dlls()[k])),
    ensures
        ({
            let d = dxvk_dlls()[k];
            let sys = system32_dir(bottle);
            let fs1 = apply_ops(fs, spec_install_plan(dxvk, bottle, fs_present(fs)));
            let fs2 = apply_ops(fs1, spec_uninstall_plan(bottle, fs_present(fs1)));
            &&& fs1.0.dom().contains(dll_file(sys, d))
            &&& fs1.0[dll_file(sys, d)] == fs.0[dll_file(x64_dir(dxvk), d)]
            &&& fs1.0.dom().contains(dll_backup(sys, d))
            &&& fs1.0[dll_backup(sys, d)] == fs.0[dll_file(sys, d)]
            &&& fs2.0.dom().contains(dll_file(sys, d))
            &&& fs2.0[dll_file(sys, d)] == fs.0[dll_file(sys, d)]
            &&& !fs2.0.dom().contains(dll_backup(sys, d))
        }),
{
    let s = dxvk_dlls();
    let d = s[k];
    let sys = system32_dir(bottle);
    let wow = syswow64_dir(bottle);
    let dest = dll_file(sys, d);
    let bak = dll_backup(sys, d);
    let pr = fs_present(fs);
    law_install_provides_dll(dxvk, bottle, fs, k);
    lemma_separate(dxvk, bottle, k);
    lemma_split_dlls(k);
    let before = s.take(k);
    let after = s.skip(k + 1);
    let fs1 = apply_ops(fs, spec_install_plan(dxvk, bottle, pr));
    let pr1 = fs_present(fs1);
    assert(pr1.contains(sys));
    assert(pr1.contains(bak));
    // Uninstalling.
    lemma_restore_steps_concat(sys, before + seq![d], after, pr1);
    lemma_restore_steps_concat(sys, before, seq![d], pr1);
    lemma_restore_one(sys, d, pr1);
    let r_pre = restore_steps(sys, before, pr1);
    let r_post = restore_steps(sys, after, pr1);
    let r_wow = if pr1.contains(wow) {
        restore_steps(wow, s, pr1)
    } else {
        Seq::empty()
    };
    let r = seq![Op::Rename(bak, dest)];
    assert(spec_uninstall_plan(bottle, pr1) =~= r_pre + r + r_post + r_wow);
    lemma_restore_steps_untouched(sys, before, pr1, dest);
    lemma_restore_steps_untouched(sys, before, pr1, bak);
    lemma_frame(fs1, r_pre, dest);
    lemma_frame(fs1, r_pre, bak);
    let g0 = apply_ops(fs1, r_pre);
    lemma_apply_concat(fs1, r_pre, r);
    assert(r.drop_last() =~= Seq::<Op>::empty());
    let g1 = apply_ops(g0, r);
    lemma_move_back(g0, bak, dest);
    assert(g1.0.dom().contains(dest) && g1.0[dest] == fs.0[dest]);
    assert(!g1.0.dom().contains(bak));
    lemma_restore_steps_untouched(sys, after, pr1, dest);
    lemma_restore_steps_untouched(sys, after, pr1, bak);
    if pr1.contains(wow) {
        lemma_restore_steps_untouched(wow, s, pr1, dest);
        lemma_restore_steps_untouched(wow, s, pr1, bak);
    }
    assert(untouched(r_wow, dest) && untouched(r_wow, bak));
    lemma_untouched_concat(r_post, r_wow, dest);
    lemma_untouched_concat(r_post, r_wow, bak);
    lemma_apply_concat(fs1, r_pre + r, r_post + r_wow);
    assert(r_pre + r + (r_post + r_wow) =~= r_pre + r + r_post + r_wow);
    lemma_frame(g1, r_post + r_wow, dest);
    lemma_frame(g1, r_post + r_wow, bak);
}

// ---------------------------------------------------------------------------
// The 32-bit DLLs in syswow64
// ---------------------------------------------------------------------------

/// The 32-bit DXVK directory is not the bottle's system32.
proof fn lemma_x32_not_system32(dxvk: Seq<char>, bottle: Seq<char>)
    ensures
        x32_dir(dxvk) != system32_dir(bottle),
{
    reveal_strlit("drive_c/windows/system32");
    reveal_strlit("x32");
    let l1 = "drive_c/windows/system32"@;
    lemma_join_suffix(bottle, l1);
    lemma_join_suffix(dxvk, "x32"@);
    let a = x32_dir(dxvk);
    let b = system32_dir(bottle);
    if a == b {
        let n = a.len() as int;
        assert(a.skip(n - 3)[0] == 'x');
        assert(b.skip(n - 24)[21] == 'm');
        assert(a[n - 3] == a.skip(n - 3)[0]);
        assert(b[n - 3] == b.skip(n - 24)[21]);
    }
}

/// A DLL or its backup is never the directory syswow64 itself.
proof fn lemma_dll_not_dir(dir: Seq<char>, d: Seq<char>, bottle: Seq<char>)
    requires
        no_slash(file_name_of(d)),
        file_name_of(d).len() > 0,
        file_name_of(d)[0] != '/',
        backup_name_of(d).len() > 0,
        backup_name_of(d)[0] != '/',
    ensures
        dll_file(dir, d) != syswow64_dir(bottle),
        dll_backup(dir, d) != syswow64_dir(bottle),
{
    reveal_strlit(".dll");
    reveal_strlit(".dll.orig");
    lemma_dirs(dir, bottle);
    lemma_join_suffix(dir, file_name_of(d));
    lemma_join_suffix(dir, backup_name_of(d));
    assert(file_name_of(d).last() == 'l');
    assert(backup_name_of(d).last() == 'g');
}

/// The paths installing and uninstalling 32-bit DLL `k` depends on are not
/// touched by what is done for the other DLLs, nor in system32.
proof fn lemma_separate_wow(dxvk: Seq<char>, bottle: Seq<char>, k: int)
    requires
        0 <= k < 4,
    ensures
        ({
            let s = dxvk_dlls();
            let sys = system32_dir(bottle);
            let wow = syswow64_dir(bottle);
            let src = dll_file(x32_dir(dxvk), s[k]);
            let dest = dll_file(wow, s[k]);
            let bak = dll_backup(wow, s[k]);
            &&& dest != bak
            &&& src != dest
            &&& src != bak
            &&& forall|j: int|
                0 <= j < 4 && j != k ==> {
                    &&& dll_file(wow, #[trigger] s[j]) != dest
                    &&& dll_file(wow, s[j]) != bak
                    &&& dll_file(wow, s[j]) != src
                    &&& dll_backup(wow, s[j]) != dest
                    &&& dll_backup(wow, s[j]) != bak
                    &&& dll_backup(wow, s[j]) != src
                }
            &&& forall|j: int|
                0 <= j < 4 ==> {
                    &&& dll_file(sys, #[trigger] s[j]) != dest
                    &&& dll_file(sys, s[j]) != bak
                    &&& dll_file(sys, s[j]) != src
                    &&& dll_backup(sys, s[j]) != dest
                    &&& dll_backup(sys, s[j]) != bak
                    &&& dll_backup(sys, s[j]) != src
                    &&& dll_file(sys, s[j]) != wow
                    &&& dll_backup(sys, s[j]) != wow
                    &&& dll_file(wow, s[j]) != wow
                    &&& dll_backup(wow, s[j]) != wow
                }
        }),
{
    let s = dxvk_dlls();
    let sys = system32_dir(bottle);
    let wow = syswow64_dir(bottle);
    let x32 = x32_dir(dxvk);
    lemma_dirs(dxvk, bottle);
    lemma_x32_not_system32(dxvk, bottle);
    lemma_names();
    let fk = file_name_of(s[k]);
    let bk = backup_name_of(s[k]);
    lemma_distinct_files(wow, fk, wow, bk);
    lemma_distinct_files(x32, fk, wow, fk);
    lemma_distinct_files(x32, fk, wow, bk);
    assert forall|j: int| 0 <= j < 4 && j != k implies {
        &&& dll_file(wow, #[trigger] s[j]) != dll_file(wow, s[k])
        &&& dll_file(wow, s[j]) != dll_backup(wow, s[k])
        &&& dll_file(wow, s[j]) != dll_file(x32, s[k])
        &&& dll_backup(wow, s[j]) != dll_file(wow, s[k])
        &&& dll_backup(wow, s[j]) != dll_backup(wow, s[k])
        &&& dll_backup(wow, s[j]) != dll_file(x32, s[k])
    } by {
        let fj = file_name_of(s[j]);
        let bj = backup_name_of(s[j]);
        lemma_distinct_files(wow, fj, wow, fk);
        lemma_distinct_files(wow, fj, wow, bk);
        lemma_distinct_files(wow, fj, x32, fk);
        lemma_distinct_files(wow, bj, wow, fk);
        lemma_distinct_files(wow, bj, wow, bk);
        lemma_distinct_files(wow, bj, x32, fk);
    }
    assert forall|j: int| 0 <= j < 4 implies {
        &&& dll_file(sys, #[trigger] s[j]) != dll_file(wow, s[k])
        &&& dll_file(sys, s[j]) != dll_backup(wow, s[k])
        &&& dll_file(sys, s[j]) != dll_file(x32, s[k])
        &&& dll_backup(sys, s[j]) != dll_file(wow, s[k])
        &&& dll_backup(sys, s[j]) != dll_backup(wow, s[k])
        &&& dll_backup(sys, s[j]) != dll_file(x32, s[k])
        &&& dll_file(sys, s[j]) != wow
        &&& dll_backup(sys, s[j]) != wow
        &&& dll_file(wow, s[j]) != wow
        &&& dll_backup(wow, s[j]) != wow
    } by {
        let fj = file_name_of(s[j]);
        let bj = backup_name_of(s[j]);
        lemma_distinct_files(sys, fj, wow, fk);
        lemma_distinct_files(sys, fj, wow, bk);
        lemma_distinct_files(sys, fj, x32, fk);
        lemma_distinct_files(sys, bj, wow, fk);
        lemma_distinct_files(sys, bj, wow, bk);
        lemma_distinct_files(sys, bj, x32, fk);
        lemma_dll_not_dir(sys, s[j], bottle);
        lemma_dll_not_dir(wow, s[j], bottle);
    }
}

/// A path that exists and that no operation touches still exists.
proof fn lemma_present_kept(fs: FsModel, ops: Seq<Op>, p: Seq<char>)
    requires
        fs_present(fs).contains(p),
        untouched(ops, p),
    ensures
        fs_present(apply_ops(fs, ops)).contains(p),
{
    if fs.0.dom().contains(p) {
        lemma_frame(fs, ops, p);
    } else {
        lemma_dirs_grow(fs, ops, p);
    }
}

/// Installing DXVK and then uninstalling it gives the bottle its original
/// 32-bit DLL back too: for a DLL that the DXVK `x32/` directory provides
/// and that the bottle's syswow64 holds without a backup, installing puts
/// DXVK's DLL in its place and the original in the backup, and uninstalling
/// afterwards puts the original back and leaves no backup behind.
pub proof fn law_install_then_uninstall_restores_syswow64(dxvk: Seq<char>, bottle: Seq<char>, fs: FsModel, k: int)
    requires
        0 <= k < 4,
        fs_present(fs).contains(x32_dir(dxvk)),
        fs_present(fs).contains(syswow64_dir(bottle)),
        fs.0.dom().contains(dll_file(x32_dir(dxvk), dxvk_dlls()[k])),
        fs.0.dom().contains(dll_file(syswow64_dir(bottle), dxvk_dlls()[k])),
        !fs_present(fs).contains(dll_backup(syswow64_dir(bottle), dxvk_dlls()[k])),
    ensures
        ({
            let d = dxvk_dlls()[k];
            let wow = syswow64_dir(bottle);
            let fs1 = apply_ops(fs, spec_install_plan(dxvk, bottle, fs_present(fs)));
            let fs2 = apply_ops(fs1, spec_uninstall_plan(bottle, fs_present(fs1)));
            &&& fs1.0.dom().contains(dll_file(wow, d))
            &&& fs1.0[dll_file(wow, d)] == fs.0[dll_file(x32_dir(dxvk), d)]
            &&& fs1.0.dom().contains(dll_backup(wow, d))
            &&& fs1.0[dll_backup(wow, d)] == fs.0[dll_file(wow, d)]
            &&& fs2.0.dom().contains(dll_file(wow, d))
            &&& fs2.0[dll_file(wow, d)] == fs.0[dll_file(wow, d)]
            &&& !fs2.0.dom().contains(dll_backup(wow, d))
        }),
{
    let s = dxvk_dlls();
    let d = s[k];
    let sys = system32_dir(bottle);
    let wow = syswow64_dir(bottle);
    let x64 = x64_dir(dxvk);
    let x32 = x32_dir(dxvk);
    let src = dll_file(x32, d);
    let dest = dll_file(wow, d);
    let bak = dll_backup(wow, d);
    let pr = fs_present(fs);
    lemma_separate_wow(dxvk, bottle, k);
    lemma_split_dlls(k);
    let before = s.take(k);
    let after = s.skip(k + 1);
    // Installing.
    lemma_install_steps_concat(x32, wow, before + seq![d], after, pr);
    lemma_install_steps_concat(x32, wow, before, seq![d], pr);
    lemma_install_one(x32, wow, d, pr);
    let pre_ops = install_steps(x32, wow, before, pr);
    let step = install_step(x32, wow, d, pr);
    let post_ops = install_steps(x32, wow, after, pr);
    let x64_ops = if pr.contains(x64) {
        install_steps(x64, sys, s, pr)
    } else {
        Seq::empty()
    };
    let c = seq![Op::CreateDirAll(sys)];
    let plan = spec_install_plan(dxvk, bottle, pr);
    assert(plan =~= c + x64_ops + pre_ops + step + post_ops);
    assert(step =~= seq![Op::Rename(dest, bak), Op::Copy(src, dest)]);
    // Nothing before DLL `k` touches its paths, nor syswow64.
    assert forall|j: int| 0 <= j < 4 implies src != dll_file(sys, #[trigger] s[j]) && src != dll_backup(sys, s[j])
        && dest != dll_file(sys, s[j]) && dest != dll_backup(sys, s[j])
        && bak != dll_file(sys, s[j]) && bak != dll_backup(sys, s[j])
        && wow != dll_file(sys, s[j]) && wow != dll_backup(sys, s[j])
        && wow != dll_file(wow, s[j]) && wow != dll_backup(wow, s[j]) by {}
    assert forall|j: int| 0 <= j < before.len() implies src != dll_file(wow, #[trigger] before[j]) && src != dll_backup(wow, before[j])
        && dest != dll_file(wow, before[j]) && dest != dll_backup(wow, before[j])
        && bak != dll_file(wow, before[j]) && bak != dll_backup(wow, before[j]) by {
        assert(before[j] == s[j]);
    }
    if pr.contains(x64) {
        lemma_install_steps_untouched(x64, sys, s, pr, src);
        lemma_install_steps_untouched(x64, sys, s, pr, dest);
        lemma_install_steps_untouched(x64, sys, s, pr, bak);
        lemma_install_steps_untouched(x64, sys, s, pr, wow);
    }
    assert(untouched(x64_ops, src) && untouched(x64_ops, dest) && untouched(x64_ops, bak) && untouched(x64_ops, wow));
    lemma_install_steps_untouched(x32, wow, before, pr, src);
    lemma_install_steps_untouched(x32, wow, before, pr, dest);
    lemma_install_steps_untouched(x32, wow, before, pr, bak);
    assert(untouched(c, src) && untouched(c, dest) && untouched(c, bak) && untouched(c, wow));
    let head = c + x64_ops + pre_ops;
    lemma_untouched_concat(c, x64_ops, src);
    lemma_untouched_concat(c, x64_ops, dest);
    lemma_untouched_concat(c, x64_ops, bak);
    lemma_untouched_concat(c + x64_ops, pre_ops, src);
    lemma_untouched_concat(c + x64_ops, pre_ops, dest);
    lemma_untouched_concat(c + x64_ops, pre_ops, bak);
    let f0 = apply_ops(fs, head);
    lemma_frame(fs, head, src);
    lemma_frame(fs, head, dest);
    lemma_frame(fs, head, bak);
    // DLL `k`: the original goes to the backup, DXVK's in its place.
    lemma_apply_concat(fs, head, step);
    let f1 = apply_ops(f0, step);
    lemma_copy_over(f0, src, dest, bak, true);
    // After it nothing touches them either.
    assert forall|j: int| 0 <= j < after.len() implies dest != dll_file(wow, #[trigger] after[j]) && dest != dll_backup(wow, after[j])
        && bak != dll_file(wow, after[j]) && bak != dll_backup(wow, after[j]) by {
        assert(after[j] == s[j + k + 1]);
    }
    lemma_install_steps_untouched(x32, wow, after, pr, dest);
    lemma_install_steps_untouched(x32, wow, after, pr, bak);
    lemma_apply_concat(fs, head + step, post_ops);
    let fs1 = apply_ops(fs, plan);
    lemma_frame(f1, post_ops, dest);
    lemma_frame(f1, post_ops, bak);
    assert(fs1 == apply_ops(f1, post_ops));
    // syswow64 is still there.
    lemma_install_steps_untouched(x32, wow, s, pr, wow);
    lemma_untouched_concat(c, x64_ops, wow);
    lemma_untouched_concat(c + x64_ops, install_steps(x32, wow, s, pr), wow);
    assert(plan =~= c + x64_ops + install_steps(x32, wow, s, pr));
    lemma_present_kept(fs, plan, wow);
    let pr1 = fs_present(fs1);
    assert(pr1.contains(wow));
    assert(pr1.contains(bak));
    // Uninstalling.
    lemma_restore_steps_concat(wow, before + seq![d], after, pr1);
    lemma_restore_steps_concat(wow, before, seq![d], pr1);
    lemma_restore_one(wow, d, pr1);
    let r_sys = if pr1.contains(sys) {
        restore_steps(sys, s, pr1)
    } else {
        Seq::empty()
    };
    let r_pre = restore_steps(wow, before, pr1);
    let r_post = restore_steps(wow, after, pr1);
    let r = seq![Op::Rename(bak, dest)];
    assert(spec_uninstall_plan(bottle, pr1) =~= r_sys + r_pre + r + r_post);
    if pr1.contains(sys) {
        lemma_restore_steps_untouched(sys, s, pr1, dest);
        lemma_restore_steps_untouched(sys, s, pr1, bak);
    }
    assert(untouched(r_sys, dest) && untouched(r_sys, bak));
    lemma_restore_steps_untouched(wow, before, pr1, dest);
    lemma_restore_steps_untouched(wow, before, pr1, bak);
    lemma_untouched_concat(r_sys, r_pre, dest);
    lemma_untouched_concat(r_sys, r_pre, bak);
    lemma_frame(fs1, r_sys + r_pre, dest);
    lemma_frame(fs1, r_sys + r_pre, bak);
    let g0 = apply_ops(fs1, r_sys + r_pre);
    lemma_apply_concat(fs1, r_sys + r_pre, r);
    let g1 = apply_ops(g0, r);
    lemma_move_back(g0, bak, dest);
    assert(g1.0.dom().contains(dest) && g1.0[dest] == fs.0[dest]);
    assert(!g1.0.dom().contains(bak));
    lemma_restore_steps_untouched(wow, after, pr1, dest);
    lemma_restore_steps_untouched(wow, after, pr1, bak);
    lemma_apply_concat(fs1, r_sys + r_pre + r, r_post);
    lemma_frame(g1, r_post, dest);
    lemma_frame(g1, r_post, bak);
}

} // verus!
