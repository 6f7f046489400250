//! The chronological order of records: by time, then by identifier text.

use crate::model::UnixTime;
use crate::text::{
    lemma_text_lt_irreflexive, lemma_text_lt_total, lemma_text_lt_transitive, text_less, text_lt,
};
use vstd::prelude::*;

verus! {

/// A record's position in chronological order: its time, then its identifier.
pub type OrderKey = (int, Seq<char>);

/// Whether key `a` comes strictly before key `b`.
pub open spec fn key_lt(a: OrderKey, b: OrderKey) -> bool {
    a.0 < b.0 || (a.0 == b.0 && text_lt(a.1, b.1))
}

/// Whether the keys strictly ascend.
pub open spec fn ascending(ks: Seq<OrderKey>) -> bool {
    forall|i: int, j: int| 0 <= i < j < ks.len() ==> key_lt(#[trigger] ks[i], #[trigger] ks[j])
}

/// `key_lt` is irreflexive.
pub proof fn lemma_key_lt_irreflexive(a: OrderKey)
    ensures
        !key_lt(a, a),
{
    lemma_text_lt_irreflexive(a.1);
}

/// `key_lt` is transitive.
pub proof fn lemma_key_lt_transitive(a: OrderKey, b: OrderKey, c: OrderKey)
    requires
        key_lt(a, b),
        key_lt(b, c),
    ensures
        key_lt(a, c),
{
    if a.0 == b.0 && b.0 == c.0 {
        lemma_text_lt_transitive(a.1, b.1, c.1);
    }
}

/// Two keys are equal or ordered one way or the other.
pub proof fn lemma_key_lt_total(a: OrderKey, b: OrderKey)
    ensures
        a == b || key_lt(a, b) || key_lt(b, a),
{
    lemma_text_lt_total(a.1, b.1);
}

/// Inserting a new key at the position after all smaller keys keeps the
/// keys ascending.
pub proof fn lemma_insert_ascending(ks: Seq<OrderKey>, p: int, k: OrderKey)
    requires
        ascending(ks),
        0 <= p <= ks.len(),
        forall|i: int| 0 <= i < p ==> key_lt(#[trigger] ks[i], k),
        p < ks.len() ==> !key_lt(ks[p], k),
        forall|i: int| 0 <= i < ks.len() ==> #[trigger] ks[i] != k,
    ensures
        ascending(ks.insert(p, k)),
{
    let after = ks.insert(p, k);
    if p < ks.len() {
        lemma_key_lt_total(ks[p], k);
    }
    assert forall|i: int, j: int| 0 <= i < j < after.len() implies key_lt(
        #[trigger] after[i],
        #[trigger] after[j],
    ) by {
        if j < p {
        } else if j == p {
        } else if i < p {
            if j - 1 > p {
                lemma_key_lt_transitive(k, ks[p], ks[j - 1]);
            }
            lemma_key_lt_transitive(ks[i], k, ks[j - 1]);
        } else if i == p {
            if j - 1 > p {
                lemma_key_lt_transitive(k, ks[p], ks[j - 1]);
            }
        } else {
        }
    }
}

/// In ascending keys, equal keys are at the same position.
pub proof fn lemma_ascending_unique(ks: Seq<OrderKey>, i: int, j: int)
    requires
        ascending(ks),
        0 <= i < ks.len(),
        0 <= j < ks.len(),
        ks[i] == ks[j],
    ensures
        i == j,
{
    if i < j || j < i {
        lemma_key_lt_irreflexive(ks[i]);
    }
}

/// Whether `(t1, id1)` comes strictly before `(t2, id2)`.
pub fn key_less(t1: &UnixTime, id1: &str, t2: &UnixTime, id2: &str) -> (r: bool)
    ensures
        r == key_lt((t1@, id1@), (t2@, id2@)),
{
    if t1.is_earlier_than(t2) {
        true
    } else if t1.same_instant(t2) {
        text_less(id1, id2)
    } else {
        false
    }
}

} // verus!
