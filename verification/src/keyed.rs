//! Records that are kept in a list and found by an address.
//!
//! A list in which no address occurs twice stands for a map from the
//! address of each record to the view of the record.

use crate::ident::Address;
use vstd::prelude::*;

verus! {

/// A record that is found by an address.
pub trait Keyed: View {
    /// The address by which the record is found.
    spec fn key(&self) -> Address;
}

/// Whether a record of `s` is found by `a`.
pub open spec fn has_key<T: Keyed>(s: Seq<T>, a: Address) -> bool {
    exists|i: int| 0 <= i < s.len() && (#[trigger] s[i]).key() == a
}

/// Where the record that is found by `a` stands in `s`.
pub open spec fn key_index<T: Keyed>(s: Seq<T>, a: Address) -> int {
    choose|i: int| 0 <= i < s.len() && (#[trigger] s[i]).key() == a
}

/// No address finds two records of `s`.
pub open spec fn distinct_keys<T: Keyed>(s: Seq<T>) -> bool {
    forall|i: int, j: int| 0 <= i < j < s.len() ==> (#[trigger] s[i]).key() != (#[trigger] s[j]).key()
}

/// The map that `s` stands for.
pub open spec fn keyed_map<T: Keyed>(s: Seq<T>) -> Map<Address, T::V> {
    Map::new(|a: Address| has_key(s, a), |a: Address| s[key_index(s, a)]@)
}

/// The record at `i` is the one that its address finds.
pub proof fn lemma_keyed_at<T: Keyed>(s: Seq<T>, i: int)
    requires
        distinct_keys(s),
        0 <= i < s.len(),
    ensures
        has_key(s, s[i].key()),
        key_index(s, s[i].key()) == i,
        keyed_map(s).contains_key(s[i].key()),
        keyed_map(s)[s[i].key()] == s[i]@,
{
    let a = s[i].key();
    let j = key_index(s, a);
    assert(0 <= j < s.len() && s[j].key() == a);
    if j < i {
        assert(s[j].key() != s[i].key());
    } else if i < j {
        assert(s[i].key() != s[j].key());
    }
}

/// An address that finds no record is not in the map.
pub proof fn lemma_keyed_absent<T: Keyed>(s: Seq<T>, a: Address)
    requires
        forall|i: int| 0 <= i < s.len() ==> (#[trigger] s[i]).key() != a,
    ensures
        !has_key(s, a),
        !keyed_map(s).contains_key(a),
{
}

/// Appending a record under a new address inserts it into the map.
pub proof fn lemma_keyed_push<T: Keyed>(s: Seq<T>, x: T)
    requires
        distinct_keys(s),
        !has_key(s, x.key()),
    ensures
        distinct_keys(s.push(x)),
        keyed_map(s.push(x)) == keyed_map(s).insert(x.key(), x@),
{
    let t = s.push(x);
    assert forall|i: int, j: int| 0 <= i < j < t.len() implies (#[trigger] t[i]).key() != (
    #[trigger] t[j]).key() by {
        if j < s.len() {
            assert(s[i].key() != s[j].key());
        } else {
            assert(s[i].key() == t[i].key());
        }
    }
    assert forall|a: Address| has_key(t, a) <==> (has_key(s, a) || a == x.key()) by {
        if has_key(s, a) {
            let i = key_index(s, a);
            assert(t[i].key() == a);
        }
        if a == x.key() {
            assert(t[s.len() as int].key() == a);
        }
        if has_key(t, a) {
            let i = key_index(t, a);
            if i < s.len() {
                assert(s[i].key() == a);
            }
        }
    }
    assert forall|a: Address| has_key(t, a) implies #[trigger] keyed_map(t)[a] == keyed_map(
        s,
    ).insert(x.key(), x@)[a] by {
        let i = key_index(t, a);
        lemma_keyed_at(t, i);
        if i < s.len() {
            assert(s[i].key() == a);
            lemma_keyed_at(s, i);
        }
    }
    assert(keyed_map(t) =~= keyed_map(s).insert(x.key(), x@));
}

/// Replacing a record by one under the same address replaces it in the map.
pub proof fn lemma_keyed_update<T: Keyed>(s: Seq<T>, i: int, x: T)
    requires
        distinct_keys(s),
        0 <= i < s.len(),
        x.key() == s[i].key(),
    ensures
        distinct_keys(s.update(i, x)),
        keyed_map(s.update(i, x)) == keyed_map(s).insert(x.key(), x@),
{
    let t = s.update(i, x);
    assert forall|a: int, b: int| 0 <= a < b < t.len() implies (#[trigger] t[a]).key() != (
    #[trigger] t[b]).key() by {
        assert(s[a].key() != s[b].key());
    }
    assert forall|a: Address| has_key(t, a) <==> has_key(s, a) by {
        if has_key(s, a) {
            let j = key_index(s, a);
            assert(t[j].key() == a);
        }
        if has_key(t, a) {
            let j = key_index(t, a);
            assert(s[j].key() == a);
        }
    }
    assert(has_key(s, x.key()));
    assert forall|a: Address| has_key(t, a) implies #[trigger] keyed_map(t)[a] == keyed_map(
        s,
    ).insert(x.key(), x@)[a] by {
        let j = key_index(t, a);
        lemma_keyed_at(t, j);
        assert(s[j].key() == a);
        lemma_keyed_at(s, j);
    }
    assert(keyed_map(t) =~= keyed_map(s).insert(x.key(), x@));
}

} // verus!
