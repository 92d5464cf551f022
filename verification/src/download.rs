//! Deciding where a downloaded archive goes and what it unpacked.
use vstd::prelude::*;

use crate::seq_util::{first_index, lemma_first_index};
use crate::text::{chars_of, copy_str, string_of};
use crate::wine::{holds_string, string_set};

verus! {

/// The index of the last `/` in `s`, or -1.
pub open spec fn last_slash(s: Seq<char>) -> int
    decreases s.len(),
{
    if s.len() == 0 {
        -1
    } else if s.last() == '/' {
        s.len() - 1
    } else {
        last_slash(s.drop_last())
    }
}

proof fn lemma_last_slash(s: Seq<char>)
    ensures
        -1 <= last_slash(s) < s.len(),
        last_slash(s) >= 0 ==> s[last_slash(s)] == '/',
        forall|j: int| last_slash(s) < j < s.len() ==> s[j] != '/',
    decreases s.len(),
{
    if s.len() > 0 {
        lemma_last_slash(s.drop_last());
        assert forall|j: int| last_slash(s) < j < s.len() implies s[j] != '/' by {
            if j < s.len() - 1 {
                assert(s[j] == s.drop_last()[j]);
            }
        }
    }
}

/// What follows the last `/` of a URL: the name an archive is saved under.
pub open spec fn spec_archive_name(url: Seq<char>) -> Seq<char> {
    url.skip(last_slash(url) + 1)
}

/// The file name of a download: the part of `url` after its last `/` (all
/// of it when it has none).
pub fn archive_name(url: &str) -> (r: String)
    ensures
        r@ == spec_archive_name(url@),
{
    let v = chars_of(url);
    let mut i: usize = v.len();
    assert(v@.take(i as int) =~= v@);
    while i > 0 && v[i - 1] != '/'
        invariant
            i <= v@.len(),
            v@ == url@,
            last_slash(url@) == last_slash(v@.take(i as int)),
        decreases i,
    {
        assert(v@.take(i as int).drop_last() =~= v@.take(i - 1));
        i -= 1;
    }
    proof {
        lemma_last_slash(v@.take(i as int));
    }
    let mut r: Vec<char> = Vec::new();
    let start = i;
    while i < v.len()
        invariant
            start <= i <= v@.len(),
            r@ == v@.subrange(start as int, i as int),
        decreases v@.len() - i,
    {
        r.push(v[i]);
        i += 1;
    }
    assert(v@.take(start as int).len() == start);
    proof {
        if start > 0 {
            assert(v@.take(start as int).last() == '/') by {
                assert(v@.take(start as int)[start - 1] == v@[start - 1]);
            }
        }
    }
    assert(url@.skip(last_slash(url@) + 1) =~= v@.subrange(start as int, v@.len() as int));
    string_of(r.as_slice())
}

/// Whether a directory listed after unpacking was not there before.
pub open spec fn is_new(before: Set<Seq<char>>) -> spec_fn(String) -> bool {
    |d: String| !before.contains(d@)
}

/// The directory that unpacking an archive created: the first of the
/// directories listed afterwards (`after`, in listing order) that was not
/// listed before; `None` when there is none.
pub fn new_directory(before: &Vec<String>, after: &Vec<String>) -> (r: Option<String>)
    ensures
        ({
            let k = first_index(after@, is_new(string_set(before@)));
            match r {
                Some(d) => k >= 0 && d@ == after@[k]@,
                None => k < 0,
            }
        }),
{
    let ghost p = is_new(string_set(before@));
    proof {
        lemma_first_index(after@, p);
    }
    let mut i: usize = 0;
    while i < after.len()
        invariant
            i <= after@.len(),
            p == is_new(string_set(before@)),
            forall|j: int| 0 <= j < i ==> !p(#[trigger] after@[j]),
        decreases after@.len() - i,
    {
        if !holds_string(before, after[i].as_str()) {
            proof {
                crate::seq_util::lemma_first_index_is(after@, p, i as int);
            }
            return Some(copy_str(after[i].as_str()));
        }
        i += 1;
    }
    proof {
        crate::seq_util::lemma_first_index_none(after@, p);
    }
    None
}

} // verus!
