//! Paths as strings: joining, file names and extensions, as `std::path` does
//! them on Unix.
use vstd::prelude::*;

use crate::text::{chars_of, copy_str, split, split_chars, string_of};

verus! {

/// `base` joined with `seg` (`Path::join` on Unix): an absolute `seg`
/// replaces `base`; otherwise a `/` is put between them unless `base` is
/// empty or already ends with one.
pub open spec fn spec_join(base: Seq<char>, seg: Seq<char>) -> Seq<char> {
    if seg.len() > 0 && seg[0] == '/' {
        seg
    } else if base.len() == 0 || base.last() == '/' {
        base + seg
    } else {
        base + seq!['/'] + seg
    }
}

/// Joins `seg` onto `base` as `Path::join` does.
pub fn join(base: &str, seg: &str) -> (r: String)
    ensures
        r@ == spec_join(base@, seg@),
{
    let b = chars_of(base);
    let s = chars_of(seg);
    let mut out = b.clone();
    assert(out@ == b@);
    if s.len() > 0 && s[0] == '/' {
        return string_of(s.as_slice());
    }
    if b.len() > 0 && b[b.len() - 1] != '/' {
        out.push('/');
    }
    let mut i: usize = 0;
    let ghost pre = out@;
    while i < s.len()
        invariant
            i <= s.len(),
            out@ == pre + s@.take(i as int),
        decreases s.len() - i,
    {
        out.push(s[i]);
        assert(pre + s@.take(i + 1) =~= (pre + s@.take(i as int)).push(s@[i as int]));
        i += 1;
    }
    assert(s@.take(s.len() as int) =~= s@);
    proof {
        if b@.len() > 0 && b@.last() != '/' {
            assert(out@ =~= b@ + seq!['/'] + s@);
        } else {
            assert(out@ =~= b@ + s@);
        }
    }
    string_of(out.as_slice())
}

pub open spec fn is_dot(s: Seq<char>) -> bool {
    s.len() == 1 && s[0] == '.'
}

pub open spec fn is_dot_dot(s: Seq<char>) -> bool {
    s.len() == 2 && s[0] == '.' && s[1] == '.'
}

/// The index of the last piece that is neither empty nor `.`, or -1.
pub open spec fn last_component(segs: Seq<Seq<char>>) -> int
    decreases segs.len(),
{
    if segs.len() == 0 {
        -1
    } else if segs.last().len() > 0 && !is_dot(segs.last()) {
        segs.len() - 1
    } else {
        last_component(segs.drop_last())
    }
}

proof fn lemma_last_component(segs: Seq<Seq<char>>)
    ensures
        -1 <= last_component(segs) < segs.len(),
        last_component(segs) >= 0 ==> segs[last_component(segs)].len() > 0 && !is_dot(
            segs[last_component(segs)],
        ),
        forall|j: int|
            last_component(segs) < j < segs.len() ==> segs[j].len() == 0 || is_dot(
                #[trigger] segs[j],
            ),
    decreases segs.len(),
{
    if segs.len() > 0 {
        lemma_last_component(segs.drop_last());
        assert forall|j: int|
            last_component(segs) < j < segs.len() implies segs[j].len() == 0 || is_dot(
            #[trigger] segs[j],
        ) by {
            if j < segs.len() - 1 {
                assert(segs[j] == segs.drop_last()[j]);
            }
        }
    }
}

/// The final component of a path (`Path::file_name`): the last piece between
/// `/` that is neither empty nor `.`, unless it is `..`.
pub open spec fn spec_file_name(p: Seq<char>) -> Option<Seq<char>> {
    let segs = split(p, '/');
    let i = last_component(segs);
    if i < 0 || is_dot_dot(segs[i]) {
        None
    } else {
        Some(segs[i])
    }
}

fn last_component_index(segs: &Vec<Vec<char>>) -> (r: Option<usize>)
    ensures
        match r {
            Some(i) => i as int == last_component(segs@.map_values(|s: Vec<char>| s@)) && i
                < segs@.len(),
            None => last_component(segs@.map_values(|s: Vec<char>| s@)) == -1,
        },
{
    let ghost sv = segs@.map_values(|s: Vec<char>| s@);
    let mut i = segs.len();
    proof {
        lemma_last_component(sv);
    }
    while i > 0
        invariant
            i <= segs@.len(),
            sv == segs@.map_values(|s: Vec<char>| s@),
            last_component(sv) < i as int,
        decreases i,
    {
        proof {
            lemma_last_component_take(sv, i as int);
        }
        let s = &segs[i - 1];
        assert(s@ == sv[i - 1]);
        if s.len() > 0 && !(s.len() == 1 && s[0] == '.') {
            return Some(i - 1);
        }
        i -= 1;
    }
    None
}

proof fn lemma_last_component_take(segs: Seq<Seq<char>>, i: int)
    requires
        0 < i <= segs.len(),
        last_component(segs) < i,
    ensures
        (segs[i - 1].len() > 0 && !is_dot(segs[i - 1])) ==> last_component(segs) == i - 1,
        !(segs[i - 1].len() > 0 && !is_dot(segs[i - 1])) ==> last_component(segs) < i - 1,
    decreases segs.len(),
{
    lemma_last_component(segs);
    if i < segs.len() {
        lemma_last_component_take(segs.drop_last(), i);
    }
}

proof fn lemma_split_views(v: Seq<char>, segs: Seq<Vec<char>>)
    requires
        segs.len() == split(v, '/').len(),
        forall|i: int| 0 <= i < segs.len() ==> #[trigger] segs[i]@ == split(v, '/')[i],
    ensures
        segs.map_values(|s: Vec<char>| s@) == split(v, '/'),
{
    assert(segs.map_values(|s: Vec<char>| s@) =~= split(v, '/'));
}

/// The final component of a path, as `Path::file_name` gives it.
pub fn file_name(p: &str) -> (r: Option<String>)
    ensures
        match spec_file_name(p@) {
            Some(n) => r matches Some(s) && s@ == n,
            None => r is None,
        },
{
    let v = chars_of(p);
    let segs = split_chars(v.as_slice(), '/');
    proof {
        lemma_split_views(p@, segs@);
    }
    match last_component_index(&segs) {
        None => None,
        Some(i) => {
            let s = &segs[i];
            if s.len() == 2 && s[0] == '.' && s[1] == '.' {
                None
            } else {
                Some(string_of(s.as_slice()))
            }
        },
    }
}

/// The number of characters before piece `i` of the split path (the pieces
/// before it and their separators).
pub open spec fn piece_start(segs: Seq<Seq<char>>, i: int) -> int
    decreases i,
{
    if i <= 0 {
        0
    } else {
        piece_start(segs, i - 1) + segs[i - 1].len() + 1
    }
}

/// The length of the stem of a file name (`Path::file_stem`): the name up to
/// its last `.`, unless that leaves nothing, or the whole name where it has
/// no `.` or is `..`.
pub open spec fn stem_len(name: Seq<char>) -> int {
    let d = last_dot(name);
    if is_dot_dot(name) || d <= 0 {
        name.len() as int
    } else {
        d
    }
}

/// The index of the last `.` in `s`, or -1.
pub open spec fn last_dot(s: Seq<char>) -> int
    decreases s.len(),
{
    if s.len() == 0 {
        -1
    } else if s.last() == '.' {
        s.len() - 1
    } else {
        last_dot(s.drop_last())
    }
}

/// `p` with the extension of its file name set to `ext`
/// (`Path::with_extension`): the path is cut right after the file stem, and
/// `.` and `ext` are appended when `ext` is not empty. A path without a file
/// name is returned unchanged.
pub open spec fn spec_with_extension(p: Seq<char>, ext: Seq<char>) -> Seq<char> {
    let segs = split(p, '/');
    let i = last_component(segs);
    if i < 0 || is_dot_dot(segs[i]) {
        p
    } else {
        let end = piece_start(segs, i) + stem_len(segs[i]);
        if ext.len() == 0 {
            p.take(end)
        } else {
            p.take(end) + seq!['.'] + ext
        }
    }
}

proof fn lemma_piece_start_nonneg(segs: Seq<Seq<char>>, i: int)
    ensures
        piece_start(segs, i) >= 0,
    decreases i,
{
    if i > 0 {
        lemma_piece_start_nonneg(segs, i - 1);
    }
}

proof fn lemma_piece_start_eq(segs: Seq<Seq<char>>, ps: Seq<Seq<char>>, i: int)
    requires
        forall|j: int| 0 <= j < i ==> segs[j] == ps[j],
    ensures
        piece_start(segs, i) == piece_start(ps, i),
    decreases i,
{
    if i > 0 {
        lemma_piece_start_eq(segs, ps, i - 1);
    }
}

/// Piece `i` of a split path stands at `piece_start` in it.
proof fn lemma_piece_start(v: Seq<char>, i: int)
    requires
        0 <= i < split(v, '/').len(),
    ensures
        0 <= piece_start(split(v, '/'), i),
        piece_start(split(v, '/'), i) + split(v, '/')[i].len() <= v.len(),
        v.subrange(
            piece_start(split(v, '/'), i),
            piece_start(split(v, '/'), i) + split(v, '/')[i].len(),
        ) == split(v, '/')[i],
    decreases v.len(),
{
    let segs = split(v, '/');
    lemma_piece_start_nonneg(segs, i);
    crate::text::lemma_split_nonempty(v, '/');
    if v.len() > 0 {
        let w = v.drop_last();
        let ps = split(w, '/');
        crate::text::lemma_split_nonempty(w, '/');
        if v.last() == '/' {
            assert(segs == ps.push(Seq::<char>::empty()));
            lemma_piece_start_eq(segs, ps, i);
            if i < ps.len() {
                lemma_piece_start(w, i);
                assert(v.subrange(piece_start(segs, i), piece_start(segs, i) + segs[i].len())
                    =~= w.subrange(piece_start(ps, i), piece_start(ps, i) + ps[i].len()));
            } else {
                lemma_piece_total(w);
                lemma_piece_start_eq(segs, ps, i - 1);
                assert(piece_start(segs, i) == v.len());
                assert(v.subrange(piece_start(segs, i), piece_start(segs, i) + segs[i].len())
                    =~= Seq::<char>::empty());
            }
        } else {
            assert(segs == ps.update(ps.len() - 1, ps.last().push(v.last())));
            lemma_piece_start_eq(segs, ps, i);
            lemma_piece_start(w, i);
            if i < ps.len() - 1 {
                assert(v.subrange(piece_start(segs, i), piece_start(segs, i) + segs[i].len())
                    =~= w.subrange(piece_start(ps, i), piece_start(ps, i) + ps[i].len()));
            } else {
                lemma_piece_total(w);
                assert(v.subrange(piece_start(segs, i), piece_start(segs, i) + segs[i].len())
                    =~= w.subrange(piece_start(ps, i), piece_start(ps, i) + ps[i].len()).push(
                    v.last(),
                ));
            }
        }
    }
}

/// The last piece ends where the path ends.
proof fn lemma_piece_total(v: Seq<char>)
    ensures
        split(v, '/').len() >= 1,
        piece_start(split(v, '/'), split(v, '/').len() - 1) + split(v, '/').last().len() == v.len(),
    decreases v.len(),
{
    crate::text::lemma_split_nonempty(v, '/');
    if v.len() > 0 {
        let w = v.drop_last();
        lemma_piece_total(w);
        crate::text::lemma_split_nonempty(w, '/');
        let ps = split(w, '/');
        let segs = split(v, '/');
        if v.last() == '/' {
            assert(segs == ps.push(Seq::<char>::empty()));
            lemma_piece_start_eq(segs, ps, ps.len() - 1);
        } else {
            assert(segs == ps.update(ps.len() - 1, ps.last().push(v.last())));
            lemma_piece_start_eq(segs, ps, ps.len() - 1);
        }
    }
}

fn last_dot_index(s: &Vec<char>) -> (r: Option<usize>)
    ensures
        match r {
            Some(d) => d as int == last_dot(s@) && d < s@.len(),
            None => last_dot(s@) == -1,
        },
{
    let mut i = s.len();
    proof {
        lemma_last_dot(s@);
    }
    while i > 0
        invariant
            i <= s@.len(),
            last_dot(s@) < i as int,
        decreases i,
    {
        proof {
            lemma_last_dot_take(s@, i as int);
        }
        if s[i - 1] == '.' {
            return Some(i - 1);
        }
        i -= 1;
    }
    None
}

proof fn lemma_last_dot(s: Seq<char>)
    ensures
        -1 <= last_dot(s) < s.len(),
        last_dot(s) >= 0 ==> s[last_dot(s)] == '.',
        forall|j: int| last_dot(s) < j < s.len() ==> s[j] != '.',
    decreases s.len(),
{
    if s.len() > 0 {
        lemma_last_dot(s.drop_last());
        assert forall|j: int| last_dot(s) < j < s.len() implies s[j] != '.' by {
            if j < s.len() - 1 {
                assert(s[j] == s.drop_last()[j]);
            }
        }
    }
}

proof fn lemma_last_dot_take(s: Seq<char>, i: int)
    requires
        0 < i <= s.len(),
        last_dot(s) < i,
    ensures
        s[i - 1] == '.' ==> last_dot(s) == i - 1,
        s[i - 1] != '.' ==> last_dot(s) < i - 1,
    decreases s.len(),
{
    lemma_last_dot(s);
    if i < s.len() {
        lemma_last_dot_take(s.drop_last(), i);
    }
}

/// `p` with the extension of its file name set to `ext`, as
/// `Path::with_extension` gives it.
pub fn with_extension(p: &str, ext: &str) -> (r: String)
    ensures
        r@ == spec_with_extension(p@, ext@),
{
    let v = chars_of(p);
    let segs = split_chars(v.as_slice(), '/');
    let ghost sv = split(p@, '/');
    proof {
        lemma_split_views(p@, segs@);
    }
    let i = match last_component_index(&segs) {
        None => {
            return copy_str(p);
        },
        Some(i) => i,
    };
    let name = &segs[i];
    assert(name@ == sv[i as int]);
    if name.len() == 2 && name[0] == '.' && name[1] == '.' {
        return copy_str(p);
    }
    let n = v.len();
    // Where piece `i` starts.
    let mut start: usize = 0;
    let mut j: usize = 0;
    proof {
        lemma_piece_start(p@, i as int);
    }
    while j < i
        invariant
            j <= i < segs@.len(),
            segs@.len() == sv.len(),
            forall|k: int| 0 <= k < segs@.len() ==> #[trigger] segs@[k]@ == sv[k],
            start == piece_start(sv, j as int),
            piece_start(sv, i as int) <= n,
        decreases i - j,
    {
        proof {
            lemma_piece_start_mono(sv, j + 1, i as int);
        }
        assert(segs@[j as int]@ == sv[j as int]);
        assert(piece_start(sv, j + 1) == piece_start(sv, j as int) + sv[j as int].len() + 1);
        start = start + segs[j].len() + 1;
        j += 1;
    }
    let stem: usize = match last_dot_index(name) {
        Some(d) => if d == 0 {
            name.len()
        } else {
            d
        },
        None => name.len(),
    };
    assert(stem == stem_len(name@));
    assert(start as int + stem <= n);
    let end = start + stem;
    let e = chars_of(ext);
    let mut out: Vec<char> = Vec::new();
    let mut k: usize = 0;
    while k < end
        invariant
            k <= end <= v@.len(),
            out@ == v@.take(k as int),
        decreases end - k,
    {
        out.push(v[k]);
        assert(v@.take(k + 1) =~= v@.take(k as int).push(v@[k as int]));
        k += 1;
    }
    if e.len() > 0 {
        out.push('.');
        let ghost pre = out@;
        let mut m: usize = 0;
        while m < e.len()
            invariant
                m <= e@.len(),
                out@ == pre + e@.take(m as int),
            decreases e@.len() - m,
        {
            out.push(e[m]);
            assert(pre + e@.take(m + 1) =~= (pre + e@.take(m as int)).push(e@[m as int]));
            m += 1;
        }
        assert(e@.take(e@.len() as int) =~= e@);
        assert(out@ =~= v@.take(end as int) + seq!['.'] + e@);
    }
    string_of(out.as_slice())
}

proof fn lemma_piece_start_mono(segs: Seq<Seq<char>>, a: int, b: int)
    requires
        0 <= a <= b,
    ensures
        piece_start(segs, a) <= piece_start(segs, b),
    decreases b - a,
{
    if a < b {
        lemma_piece_start_mono(segs, a, b - 1);
    }
}

/// The extension of a path's file name (`Path::extension`): what follows the
/// last `.` of the name, where the name has a `.` after its first character
/// and is not `..`.
pub open spec fn spec_extension(p: Seq<char>) -> Option<Seq<char>> {
    match spec_file_name(p) {
        None => None,
        Some(name) => {
            let d = last_dot(name);
            if d <= 0 {
                None
            } else {
                Some(name.skip(d + 1))
            }
        },
    }
}

/// The extension of a path's file name, as `Path::extension` gives it.
pub fn extension(p: &str) -> (r: Option<String>)
    ensures
        match spec_extension(p@) {
            Some(e) => r matches Some(s) && s@ == e,
            None => r is None,
        },
{
    match file_name(p) {
        None => None,
        Some(name) => {
            let v = chars_of(name.as_str());
            let n = v.len();
            match last_dot_index(&v) {
                Some(d) => if d == 0 {
                    None
                } else {
                    assert(d < n);
                    let mut out: Vec<char> = Vec::new();
                    let mut k = d + 1;
                    while k < v.len()
                        invariant
                            d + 1 <= k <= v@.len(),
                            out@ == v@.subrange(d + 1, k as int),
                        decreases v@.len() - k,
                    {
                        out.push(v[k]);
                        assert(v@.subrange(d + 1, k + 1) =~= v@.subrange(d + 1, k as int).push(
                            v@[k as int],
                        ));
                        k += 1;
                    }
                    assert(v@.subrange(d + 1, v@.len() as int) =~= v@.skip(d + 1));
                    Some(string_of(out.as_slice()))
                },
                None => None,
            }
        },
    }
}

/// The file stem of a path (`Path::file_stem`): its file name up to the
/// last `.`, or all of it where that leaves nothing or it has no `.`.
pub open spec fn spec_file_stem(p: Seq<char>) -> Option<Seq<char>> {
    match spec_file_name(p) {
        None => None,
        Some(name) => Some(name.take(stem_len(name))),
    }
}

/// The file stem of a path, as `Path::file_stem` gives it.
pub fn file_stem(p: &str) -> (r: Option<String>)
    ensures
        match spec_file_stem(p@) {
            Some(s) => r matches Some(x) && x@ == s,
            None => r is None,
        },
{
    match file_name(p) {
        None => None,
        Some(name) => {
            let v = chars_of(name.as_str());
            proof {
                lemma_last_dot(v@);
            }
            let end: usize = match last_dot_index(&v) {
                Some(d) => if d == 0 {
                    v.len()
                } else {
                    d
                },
                None => v.len(),
            };
            assert(!is_dot_dot(v@));
            assert(end as int == stem_len(v@));
            let mut out: Vec<char> = Vec::new();
            let mut k: usize = 0;
            while k < end
                invariant
                    end <= v@.len(),
                    k <= end,
                    out@ == v@.take(k as int),
                decreases end - k,
            {
                out.push(v[k]);
                assert(v@.take(k + 1) =~= v@.take(k as int).push(v@[k as int]));
                k += 1;
            }
            Some(string_of(out.as_slice()))
        },
    }
}

} // verus!
