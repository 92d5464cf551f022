//! A map from strings to strings (environment variables, links by name).
use vstd::prelude::*;

use crate::text::{copy_str, str_eq};

verus! {

/// The map that a list of `(key, value)` entries stands for: each entry sets
/// its key, a later entry overriding an earlier one.
pub open spec fn entries_map(s: Seq<(String, String)>) -> Map<Seq<char>, Seq<char>>
    decreases s.len(),
{
    if s.len() == 0 {
        Map::empty()
    } else {
        entries_map(s.drop_last()).insert(s.last().0@, s.last().1@)
    }
}

/// A map from strings to strings, kept as a list of entries in the order
/// they were set.
#[derive(Debug, Clone)]
pub struct StringMap {
    entries: Vec<(String, String)>,
}

impl View for StringMap {
    type V = Map<Seq<char>, Seq<char>>;

    closed spec fn view(&self) -> Map<Seq<char>, Seq<char>> {
        entries_map(self.entries@)
    }
}

proof fn lemma_entries_map_finite(s: Seq<(String, String)>)
    ensures
        entries_map(s).dom().finite(),
    decreases s.len(),
{
    if s.len() > 0 {
        lemma_entries_map_finite(s.drop_last());
    }
}

/// The last index at which `key` is set, if any.
pub open spec fn last_index_of(s: Seq<(String, String)>, key: Seq<char>) -> int
    decreases s.len(),
{
    if s.len() == 0 {
        -1
    } else if s.last().0@ == key {
        s.len() - 1
    } else {
        last_index_of(s.drop_last(), key)
    }
}

proof fn lemma_last_index(s: Seq<(String, String)>, key: Seq<char>)
    ensures
        -1 <= last_index_of(s, key) < s.len(),
        last_index_of(s, key) == -1 <==> !entries_map(s).dom().contains(key),
        last_index_of(s, key) >= 0 ==> s[last_index_of(s, key)].0@ == key && entries_map(s)[key]
            == s[last_index_of(s, key)].1@,
        forall|j: int| last_index_of(s, key) < j < s.len() ==> s[j].0@ != key,
    decreases s.len(),
{
    if s.len() > 0 {
        lemma_last_index(s.drop_last(), key);
        assert forall|j: int| last_index_of(s, key) < j < s.len() implies s[j].0@ != key by {
            if j < s.len() - 1 {
                assert(s[j] == s.drop_last()[j]);
            }
        }
    }
}

proof fn lemma_entries_map_update(s: Seq<(String, String)>, i: int, k: String, v: String)
    requires
        0 <= i < s.len(),
        k@ == s[i].0@,
        forall|j: int| i < j < s.len() ==> s[j].0@ != s[i].0@,
    ensures
        entries_map(s.update(i, (k, v))) == entries_map(s).insert(s[i].0@, v@),
    decreases s.len(),
{
    let t = s.update(i, (k, v));
    if i == s.len() - 1 {
        assert(t.drop_last() =~= s.drop_last());
        assert(entries_map(t) =~= entries_map(s).insert(s[i].0@, v@));
    } else {
        lemma_entries_map_update(s.drop_last(), i, k, v);
        assert(t.drop_last() =~= s.drop_last().update(i, (k, v)));
        assert(entries_map(t) =~= entries_map(s).insert(s[i].0@, v@));
    }
}

impl StringMap {
    /// The empty map.
    pub fn new() -> (r: StringMap)
        ensures
            r@ == Map::<Seq<char>, Seq<char>>::empty(),
    {
        StringMap { entries: Vec::new() }
    }

    /// The map that a list of entries stands for, later entries overriding
    /// earlier ones with the same key.
    pub fn from_entries(entries: Vec<(String, String)>) -> (r: StringMap)
        ensures
            r@ == entries_map(entries@),
    {
        StringMap { entries }
    }

    /// The entries, in the order they were set. A key may occur more than
    /// once; then the last occurrence is the one that counts.
    pub fn entries(&self) -> (r: &Vec<(String, String)>)
        ensures
            entries_map(r@) == self@,
    {
        &self.entries
    }

    /// The keys set in the map are finitely many.
    pub proof fn lemma_finite(&self)
        ensures
            self@.dom().finite(),
    {
        lemma_entries_map_finite(self.entries@);
    }

    fn find_last(&self, key: &str) -> (r: Option<usize>)
        ensures
            match r {
                Some(i) => i as int == last_index_of(self.entries@, key@),
                None => last_index_of(self.entries@, key@) == -1,
            },
    {
        let mut i = self.entries.len();
        proof {
            lemma_last_index(self.entries@, key@);
        }
        while i > 0
            invariant
                i <= self.entries@.len(),
                last_index_of(self.entries@, key@) < i as int,
            decreases i,
        {
            proof {
                lemma_last_index_take(self.entries@, key@, i as int);
            }
            if str_eq(self.entries[i - 1].0.as_str(), key) {
                return Some(i - 1);
            }
            i -= 1;
        }
        proof {
            lemma_last_index(self.entries@, key@);
        }
        None
    }

    /// The value set for `key`, if any.
    pub fn get(&self, key: &str) -> (r: Option<&String>)
        ensures
            match r {
                Some(v) => self@.dom().contains(key@) && self@[key@] == v@,
                None => !self@.dom().contains(key@),
            },
    {
        proof {
            lemma_last_index(self.entries@, key@);
        }
        match self.find_last(key) {
            Some(i) => Some(&self.entries[i].1),
            None => None,
        }
    }

    /// Whether `key` is set.
    pub fn contains_key(&self, key: &str) -> (r: bool)
        ensures
            r == self@.dom().contains(key@),
    {
        self.get(key).is_some()
    }

    /// Sets `key` to `value`, replacing any value it had.
    pub fn insert(&mut self, key: String, value: String)
        ensures
            final(self)@ == old(self)@.insert(key@, value@),
    {
        proof {
            lemma_last_index(self.entries@, key@);
        }
        match self.find_last(key.as_str()) {
            Some(i) => {
                let ghost s = self.entries@;
                let k = copy_str(self.entries[i].0.as_str());
                let ghost kk = k;
                self.entries.set(i, (k, value));
                proof {
                    lemma_entries_map_update(s, i as int, kk, value);
                    assert(self.entries@ =~= s.update(i as int, (kk, value)));
                }
            },
            None => {
                let ghost s = self.entries@;
                self.entries.push((key, value));
                assert(self.entries@.drop_last() =~= s);
            },
        }
    }

    /// Sets every key of `other` to its value there (`HashMap::extend`).
    pub fn extend(&mut self, other: &StringMap)
        ensures
            final(self)@ == old(self)@.union_prefer_right(other@),
    {
        let mut i: usize = 0;
        let ghost start = self@;
        assert(other.entries@.take(0) =~= Seq::<(String, String)>::empty());
        assert(start.union_prefer_right(Map::empty()) =~= start);
        while i < other.entries.len()
            invariant
                i <= other.entries@.len(),
                self@ == start.union_prefer_right(entries_map(other.entries@.take(i as int))),
            decreases other.entries@.len() - i,
        {
            let k = copy_str(other.entries[i].0.as_str());
            let v = copy_str(other.entries[i].1.as_str());
            let ghost prev = other.entries@.take(i as int);
            assert(other.entries@.take(i + 1).drop_last() =~= prev);
            self.insert(k, v);
            assert(self@ =~= start.union_prefer_right(entries_map(other.entries@.take(i + 1))));
            i += 1;
        }
        assert(other.entries@.take(other.entries@.len() as int) =~= other.entries@);
    }

    /// A copy of the map.
    pub fn duplicate(&self) -> (r: StringMap)
        ensures
            r@ == self@,
    {
        let mut out = StringMap::new();
        assert(out@.union_prefer_right(self@) =~= self@);
        out.extend(self);
        out
    }
}

proof fn lemma_last_index_take(s: Seq<(String, String)>, key: Seq<char>, i: int)
    requires
        0 < i <= s.len(),
        last_index_of(s, key) < i,
    ensures
        s[i - 1].0@ == key ==> last_index_of(s, key) == i - 1,
        s[i - 1].0@ != key ==> last_index_of(s, key) < i - 1,
    decreases s.len(),
{
    lemma_last_index(s, key);
    if i < s.len() {
        lemma_last_index_take(s.drop_last(), key, i);
    }
}

} // verus!
