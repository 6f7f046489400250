//! A map from text keys to values, kept in ascending key order.

use crate::text::{chars_lt, chars_of, lemma_text_lt_irreflexive, lemma_text_lt_total, lemma_text_lt_transitive, str_eq, text_lt};
use vstd::prelude::*;

verus! {

/// Whether the keys of `s` strictly ascend.
pub open spec fn keys_ascending<V>(s: Seq<(Seq<char>, V)>) -> bool {
    forall|i: int, j: int| 0 <= i < j < s.len() ==> text_lt(#[trigger] s[i].0, #[trigger] s[j].0)
}

/// Whether `s` maps `key` to `value`.
pub open spec fn maps_to<V>(s: Seq<(Seq<char>, V)>, key: Seq<char>, value: V) -> bool {
    exists|i: int| 0 <= i < s.len() && #[trigger] s[i] == (key, value)
}

/// Whether `s` has an entry for `key`.
pub open spec fn has_key<V>(s: Seq<(Seq<char>, V)>, key: Seq<char>) -> bool {
    exists|i: int| 0 <= i < s.len() && (#[trigger] s[i]).0 == key
}

/// In an ascending sequence, two entries with the same key are the same entry.
pub proof fn lemma_ascending_unique<V>(s: Seq<(Seq<char>, V)>, i: int, j: int)
    requires
        keys_ascending(s),
        0 <= i < s.len(),
        0 <= j < s.len(),
        s[i].0 == s[j].0,
    ensures
        i == j,
{
    if i < j {
        lemma_text_lt_irreflexive(s[i].0);
    } else if j < i {
        lemma_text_lt_irreflexive(s[i].0);
    }
}

/// The keys and values of stored pairs.
pub open spec fn pairs_view(v: Seq<(String, String)>) -> Seq<(Seq<char>, Seq<char>)> {
    v.map_values(|e: (String, String)| (e.0@, e.1@))
}

/// Finds the pair for `key` in `entries`, if any.
fn find_in(entries: &Vec<(String, String)>, key: &str) -> (r: Option<usize>)
    ensures
        match r {
            Some(i) => i < entries@.len() && pairs_view(entries@)[i as int].0 == key@,
            None => !has_key(pairs_view(entries@), key@),
        },
{
    let ghost view = pairs_view(entries@);
    let mut i: usize = 0;
    while i < entries.len()
        invariant
            i <= entries@.len(),
            view == pairs_view(entries@),
            forall|j: int| 0 <= j < i ==> (#[trigger] view[j]).0 != key@,
        decreases entries.len() - i,
    {
        if str_eq(entries[i].0.as_str(), key) {
            return Some(i);
        }
        i = i + 1;
    }
    None
}

/// Finds the first pair in `entries` whose key does not sort before `key`.
fn position_in(entries: &Vec<(String, String)>, key: &str) -> (r: usize)
    ensures
        r <= entries@.len(),
        forall|i: int| 0 <= i < r ==> text_lt(#[trigger] pairs_view(entries@)[i].0, key@),
        r < entries@.len() ==> !text_lt(pairs_view(entries@)[r as int].0, key@),
{
    let ghost view = pairs_view(entries@);
    let target = chars_of(key);
    let mut i: usize = 0;
    while i < entries.len()
        invariant
            i <= entries@.len(),
            view == pairs_view(entries@),
            target@ == key@,
            forall|j: int| 0 <= j < i ==> text_lt(#[trigger] view[j].0, key@),
        decreases entries.len() - i,
    {
        let current = chars_of(entries[i].0.as_str());
        if !chars_lt(&current, &target) {
            return i;
        }
        i = i + 1;
    }
    i
}

/// A map from text keys to text values that iterates in ascending key order
/// and holds at most one value per key.
#[derive(Debug, PartialEq, Eq, Default)]
pub struct TextMap {
    entries: Vec<(String, String)>,
}

impl View for TextMap {
    type V = Seq<(Seq<char>, Seq<char>)>;

    closed spec fn view(&self) -> Seq<(Seq<char>, Seq<char>)> {
        pairs_view(self.entries@)
    }
}

impl Clone for TextMap {
    fn clone(&self) -> (r: Self)
        ensures
            r@ == self@,
    {
        self.duplicate()
    }
}

impl TextMap {
    #[verifier::type_invariant]
    pub open spec fn well_formed(&self) -> bool {
        keys_ascending(self@)
    }

    /// Creates an empty map.
    pub fn new() -> (r: Self)
        ensures
            r@ == Seq::<(Seq<char>, Seq<char>)>::empty(),
    {
        let r = TextMap { entries: Vec::new() };
        assert(r@ =~= Seq::<(Seq<char>, Seq<char>)>::empty());
        r
    }

    /// Returns the number of entries.
    pub fn len(&self) -> (r: usize)
        ensures
            r == self@.len(),
    {
        self.entries.len()
    }

    /// Returns the entries in ascending key order.
    pub fn pairs(&self) -> (r: &Vec<(String, String)>)
        ensures
            pairs_view(r@) == self@,
    {
        &self.entries
    }

    /// Creates a map holding pairs whose keys already ascend.
    pub fn from_ascending_pairs(entries: Vec<(String, String)>) -> (r: Self)
        requires
            keys_ascending(pairs_view(entries@)),
        ensures
            r@ == pairs_view(entries@),
    {
        TextMap { entries }
    }

    /// Returns the key of the entry at a position in iteration order.
    pub fn key_at(&self, index: usize) -> (r: &String)
        requires
            index < self@.len(),
        ensures
            r@ == self@[index as int].0,
    {
        &self.entries[index].0
    }

    /// Returns the value of the entry at a position in iteration order.
    pub fn value_at(&self, index: usize) -> (r: &String)
        requires
            index < self@.len(),
        ensures
            r@ == self@[index as int].1,
    {
        &self.entries[index].1
    }

    /// Returns a copy with the same entries.
    pub fn duplicate(&self) -> (r: Self)
        ensures
            r@ == self@,
    {
        proof {
            use_type_invariant(self);
        }
        let mut out: Vec<(String, String)> = Vec::new();
        let mut i: usize = 0;
        while i < self.entries.len()
            invariant
                i <= self.entries@.len(),
                out@.len() == i,
                pairs_view(out@) =~= self@.subrange(0, i as int),
            decreases self.entries.len() - i,
        {
            let key = self.entries[i].0.clone();
            let value = self.entries[i].1.clone();
            out.push((key, value));
            assert(pairs_view(out@) =~= self@.subrange(
                0,
                i + 1,
            ));
            i = i + 1;
        }
        assert(self@.subrange(0, self@.len() as int) =~= self@);
        TextMap { entries: out }
    }

    /// Returns the value stored for `key`, if any.
    pub fn get(&self, key: &str) -> (r: Option<&String>)
        ensures
            match r {
                Some(v) => maps_to(self@, key@, v@),
                None => !has_key(self@, key@),
            },
    {
        match find_in(&self.entries, key) {
            Some(i) => {
                assert(self@[i as int] == (key@, self.entries@[i as int].1@));
                Some(&self.entries[i].1)
            },
            None => None,
        }
    }

    /// Stores `value` for `key`, returning the value it replaces, if any.
    pub fn insert(&mut self, key: String, value: String) -> (r: Option<String>)
        ensures
            keys_ascending(final(self)@),
            forall|c: Seq<char>| has_key(final(self)@, c) <==> (has_key(old(self)@, c) || c == key@),
            match r {
                Some(previous) => exists|i: int|
                    0 <= i < old(self)@.len() && old(self)@[i] == (key@, previous@)
                        && final(self)@ == old(self)@.update(i, (key@, value@)),
                None => !has_key(old(self)@, key@) && exists|p: int|
                    0 <= p <= old(self)@.len() && final(self)@ == old(self)@.insert(
                        p,
                        (key@, value@),
                    ),
            },
    {
        proof {
            use_type_invariant(&*self);
        }
        let ghost before = self@;
        let ghost k = key@;
        let mut taken = TextMap::new();
        std::mem::swap(self, &mut taken);
        let TextMap { entries: mut entries } = taken;
        assert(pairs_view(entries@) == before);
        match find_in(&entries, key.as_str()) {
            Some(p) => {
                let (_, previous) = entries.remove(p);
                entries.insert(p, (key, value));
                assert(pairs_view(entries@) =~= before.update(
                    p as int,
                    (k, value@),
                ));
                proof {
                    if keys_ascending(before) {
                        assert forall|i: int, j: int| 0 <= i < j < before.len() implies text_lt(
                            #[trigger] before.update(p as int, (k, value@))[i].0,
                            #[trigger] before.update(p as int, (k, value@))[j].0,
                        ) by {
                            assert(before[i].0 == before.update(p as int, (k, value@))[i].0);
                            assert(before[j].0 == before.update(p as int, (k, value@))[j].0);
                        }
                    }
                }
                *self = TextMap { entries };
                proof {
                    let after = self@;
                    assert forall|c: Seq<char>| has_key(after, c) <==> (has_key(before, c) || c == k) by {
                        if has_key(after, c) {
                            let m = choose|m: int| 0 <= m < after.len() && (#[trigger] after[m]).0 == c;
                            if m != p {
                                assert(before[m].0 == c);
                            }
                        }
                        if has_key(before, c) {
                            let m = choose|m: int| 0 <= m < before.len() && (#[trigger] before[m]).0 == c;
                            if m != p {
                                assert(after[m].0 == c);
                            } else {
                                assert(after[m].0 == k);
                            }
                        }
                        if c == k {
                            assert(after[p as int].0 == k);
                        }
                    }
                }
                Some(previous)
            },
            None => {
                let p = position_in(&entries, key.as_str());
                let ghost after = before.insert(p as int, (k, value@));
                proof {
                    if keys_ascending(before) {
                        if p < before.len() {
                            lemma_text_lt_total(before[p as int].0, k);
                        }
                        assert forall|i: int, j: int| 0 <= i < j < after.len() implies text_lt(
                            #[trigger] after[i].0,
                            #[trigger] after[j].0,
                        ) by {
                            if j < p {
                            } else if j == p {
                            } else if i < p {
                                if j - 1 > p {
                                    lemma_text_lt_transitive(k, before[p as int].0, before[j - 1].0);
                                }
                                lemma_text_lt_transitive(before[i].0, k, before[j - 1].0);
                            } else if i == p {
                                if j - 1 > p {
                                    lemma_text_lt_transitive(k, before[p as int].0, before[j - 1].0);
                                }
                            } else {
                            }
                        }
                    }
                }
                entries.insert(p, (key, value));
                assert(pairs_view(entries@) =~= after);
                *self = TextMap { entries };
                proof {
                    assert forall|c: Seq<char>| has_key(after, c) <==> (has_key(before, c) || c == k) by {
                        if has_key(after, c) {
                            let m = choose|m: int| 0 <= m < after.len() && (#[trigger] after[m]).0 == c;
                            if m < p {
                                assert(before[m].0 == c);
                            } else if m > p {
                                assert(before[m - 1].0 == c);
                            }
                        }
                        if has_key(before, c) {
                            let m = choose|m: int| 0 <= m < before.len() && (#[trigger] before[m]).0 == c;
                            if m < p {
                                assert(after[m].0 == c);
                            } else {
                                assert(after[m + 1].0 == c);
                            }
                        }
                        if c == k {
                            assert(after[p as int].0 == k);
                        }
                    }
                }
                None
            },
        }
    }
}

} // verus!
