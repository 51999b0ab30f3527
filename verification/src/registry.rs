//! A name-keyed collection supporting lookup, insert, and remove.
//!
//! Entries are kept in a vector sorted strictly by key, so a registry is a
//! canonical representation of its key-value map: two registries that hold
//! the same map are equal entry for entry.  Reports rendered from the entry
//! order are therefore independent of insertion order.

use vstd::prelude::*;

use crate::text::{lemma_lex_asym, lemma_lex_connected, lemma_lex_irrefl, lemma_lex_trans, lex_lt};
use crate::text::{str_eq, str_lt};

verus! {

/// The key-value pairs of a sequence of entries, later entries overriding
/// earlier ones (as repeated insertion into a map would).
pub open spec fn as_map<M>(s: Seq<(Seq<char>, M)>) -> Map<Seq<char>, M>
    decreases s.len(),
{
    if s.len() == 0 {
        Map::empty()
    } else {
        as_map(s.drop_last()).insert(s.last().0, s.last().1)
    }
}

/// The keys appear in strictly ascending lexicographic order.
pub open spec fn sorted_by_key<M>(s: Seq<(Seq<char>, M)>) -> bool {
    forall|i: int, j: int|
        #![trigger s[i], s[j]]
        0 <= i < j < s.len() ==> lex_lt(s[i].0, s[j].0)
}

/// No key appears twice.
pub open spec fn distinct_keys<M>(s: Seq<(Seq<char>, M)>) -> bool {
    forall|i: int, j: int| #![trigger s[i], s[j]] 0 <= i < j < s.len() ==> s[i].0 != s[j].0
}

/// Strictly sorted keys are distinct.
pub proof fn lemma_sorted_distinct<M>(s: Seq<(Seq<char>, M)>)
    requires
        sorted_by_key(s),
    ensures
        distinct_keys(s),
{
    assert forall|i: int, j: int| #![trigger s[i], s[j]] 0 <= i < j < s.len() implies s[i].0
        != s[j].0 by {
        if s[i].0 == s[j].0 {
            lemma_lex_irrefl(s[i].0);
        }
    }
}

/// A key held by no entry is absent from the map.
pub proof fn lemma_as_map_absent<M>(s: Seq<(Seq<char>, M)>, k: Seq<char>)
    requires
        forall|i: int| 0 <= i < s.len() ==> (#[trigger] s[i]).0 != k,
    ensures
        !as_map(s).contains_key(k),
    decreases s.len(),
{
    if s.len() > 0 {
        assert(forall|i: int| 0 <= i < s.drop_last().len() ==> (#[trigger] s.drop_last()[i]).0
            != k);
        lemma_as_map_absent(s.drop_last(), k);
    }
}

/// With distinct keys, the map sends each entry's key to that entry's value.
pub proof fn lemma_as_map_index<M>(s: Seq<(Seq<char>, M)>, i: int)
    requires
        distinct_keys(s),
        0 <= i < s.len(),
    ensures
        as_map(s).contains_key(s[i].0),
        as_map(s)[s[i].0] == s[i].1,
    decreases s.len(),
{
    if i == s.len() - 1 {
    } else {
        assert(distinct_keys(s.drop_last()));
        lemma_as_map_index(s.drop_last(), i);
        assert(s.drop_last()[i] == s[i]);
        assert(s[i].0 != s.last().0);
    }
}

/// Every key of the map is the key of some entry, and the map sends it to
/// that entry's value.
pub proof fn lemma_as_map_contains<M>(s: Seq<(Seq<char>, M)>, k: Seq<char>)
    requires
        as_map(s).contains_key(k),
    ensures
        exists|i: int|
            0 <= i < s.len() && (#[trigger] s[i]).0 == k && as_map(s)[k] == s[i].1,
    decreases s.len(),
{
    if s.len() > 0 {
        if s.last().0 == k {
            assert(s[s.len() - 1].0 == k && as_map(s)[k] == s[s.len() - 1].1);
        } else {
            lemma_as_map_contains(s.drop_last(), k);
            let i = choose|i: int|
                0 <= i < s.drop_last().len() && (#[trigger] s.drop_last()[i]).0 == k && as_map(
                    s.drop_last(),
                )[k] == s.drop_last()[i].1;
            assert(s[i].0 == k && as_map(s)[k] == s[i].1);
        }
    }
}

/// Replacing the value at position `i`, keeping the key, replaces that key's
/// value in the map.
pub proof fn lemma_as_map_update<M>(s: Seq<(Seq<char>, M)>, i: int, v: M)
    requires
        distinct_keys(s),
        0 <= i < s.len(),
    ensures
        as_map(s.update(i, (s[i].0, v))) == as_map(s).insert(s[i].0, v),
    decreases s.len(),
{
    let t = s.update(i, (s[i].0, v));
    if i == s.len() - 1 {
        assert(t.drop_last() =~= s.drop_last());
        assert(as_map(t) =~= as_map(s).insert(s[i].0, v));
    } else {
        assert(t.drop_last() =~= s.drop_last().update(i, (s[i].0, v)));
        assert(distinct_keys(s.drop_last()));
        assert(s.drop_last()[i] == s[i]);
        lemma_as_map_update(s.drop_last(), i, v);
        assert(s[i].0 != s.last().0);
        assert(t.last() == s.last());
        assert(as_map(t) =~= as_map(s).insert(s[i].0, v));
    }
}

/// Inserting an entry with a fresh key at any position inserts it into the
/// map.
pub proof fn lemma_as_map_insert_at<M>(s: Seq<(Seq<char>, M)>, i: int, k: Seq<char>, v: M)
    requires
        0 <= i <= s.len(),
        forall|j: int| 0 <= j < s.len() ==> (#[trigger] s[j]).0 != k,
    ensures
        as_map(s.insert(i, (k, v))) == as_map(s).insert(k, v),
    decreases s.len(),
{
    let t = s.insert(i, (k, v));
    if i == s.len() {
        assert(t.drop_last() =~= s);
        assert(t.last() == (k, v));
        assert(as_map(t) =~= as_map(s).insert(k, v));
    } else {
        assert(t.drop_last() =~= s.drop_last().insert(i, (k, v)));
        assert(forall|j: int| 0 <= j < s.drop_last().len() ==> (#[trigger] s.drop_last()[j]).0
            != k);
        lemma_as_map_insert_at(s.drop_last(), i, k, v);
        assert(t.last() == s.last());
        assert(s[s.len() - 1].0 != k);
        assert(as_map(t) =~= as_map(s).insert(k, v));
    }
}

/// Removing the entry at position `i` removes its key from the map.
pub proof fn lemma_as_map_remove_at<M>(s: Seq<(Seq<char>, M)>, i: int)
    requires
        distinct_keys(s),
        0 <= i < s.len(),
    ensures
        as_map(s.remove(i)) == as_map(s).remove(s[i].0),
    decreases s.len(),
{
    let t = s.remove(i);
    if i == s.len() - 1 {
        assert(t =~= s.drop_last());
        assert(forall|j: int| 0 <= j < s.drop_last().len() ==> (#[trigger] s.drop_last()[j]).0
            != s[i].0);
        lemma_as_map_absent(s.drop_last(), s[i].0);
        assert(as_map(t) =~= as_map(s).remove(s[i].0));
    } else {
        assert(t.drop_last() =~= s.drop_last().remove(i));
        assert(distinct_keys(s.drop_last()));
        assert(s.drop_last()[i] == s[i]);
        lemma_as_map_remove_at(s.drop_last(), i);
        assert(t.last() == s.last());
        assert(s[i].0 != s.last().0);
        assert(as_map(t) =~= as_map(s).remove(s[i].0));
    }
}

/// Law: entries taken in any order build the same map, provided no key
/// repeats.  Together with the canonical sorted representation this makes
/// every rendering of a registry independent of insertion order.
pub proof fn lemma_as_map_permutation<M>(s1: Seq<(Seq<char>, M)>, s2: Seq<(Seq<char>, M)>)
    requires
        distinct_keys(s1),
        distinct_keys(s2),
        s1.to_multiset() == s2.to_multiset(),
    ensures
        as_map(s1) == as_map(s2),
{
    s1.to_multiset_ensures();
    s2.to_multiset_ensures();
    assert forall|k: Seq<char>|
        #![trigger as_map(s1).contains_key(k)]
        as_map(s1).contains_key(k) implies as_map(s2).contains_key(k) && as_map(s2)[k] == as_map(
        s1,
    )[k] by {
        lemma_as_map_contains(s1, k);
        let i = choose|i: int|
            0 <= i < s1.len() && (#[trigger] s1[i]).0 == k && as_map(s1)[k] == s1[i].1;
        assert(s1.contains(s1[i]));
        assert(s1.to_multiset().count(s1[i]) > 0);
        assert(s2.to_multiset().count(s1[i]) > 0);
        assert(s2.contains(s1[i]));
        let j = choose|j: int| 0 <= j < s2.len() && s2[j] == s1[i];
        lemma_as_map_index(s2, j);
    }
    assert forall|k: Seq<char>|
        #![trigger as_map(s2).contains_key(k)]
        as_map(s2).contains_key(k) implies as_map(s1).contains_key(k) && as_map(s1)[k] == as_map(
        s2,
    )[k] by {
        lemma_as_map_contains(s2, k);
        let i = choose|i: int|
            0 <= i < s2.len() && (#[trigger] s2[i]).0 == k && as_map(s2)[k] == s2[i].1;
        assert(s2.contains(s2[i]));
        assert(s2.to_multiset().count(s2[i]) > 0);
        assert(s1.to_multiset().count(s2[i]) > 0);
        assert(s1.contains(s2[i]));
        let j = choose|j: int| 0 <= j < s1.len() && s1[j] == s2[i];
        lemma_as_map_index(s1, j);
    }
    assert forall|k: Seq<char>|
        as_map(s1).dom().contains(k) <==> as_map(s2).dom().contains(k) by {
        assert(as_map(s1).contains_key(k) <==> as_map(s2).contains_key(k));
    }
    assert(as_map(s1).dom() =~= as_map(s2).dom());
    assert(as_map(s1) =~= as_map(s2));
}

/// A strictly sorted entry sequence is determined by its map: sortedness
/// makes the representation canonical.
pub proof fn lemma_sorted_canonical<M>(s1: Seq<(Seq<char>, M)>, s2: Seq<(Seq<char>, M)>)
    requires
        sorted_by_key(s1),
        sorted_by_key(s2),
        as_map(s1) == as_map(s2),
    ensures
        s1 == s2,
    decreases s1.len(),
{
    lemma_sorted_distinct(s1);
    lemma_sorted_distinct(s2);
    if s1.len() == 0 {
        if s2.len() > 0 {
            lemma_as_map_index(s2, 0);
            lemma_as_map_contains(s1, s2[0].0);
        }
        assert(s1 =~= s2);
    } else if s2.len() == 0 {
        lemma_as_map_index(s1, 0);
        lemma_as_map_contains(s2, s1[0].0);
    } else {
        // The least key of a sorted sequence heads it, and equal maps have
        // the same least key, so the heads share a key.
        lemma_as_map_index(s1, 0);
        lemma_as_map_index(s2, 0);
        lemma_as_map_contains(s2, s1[0].0);
        lemma_as_map_contains(s1, s2[0].0);
        let j2 = choose|i: int| 0 <= i < s2.len() && (#[trigger] s2[i]).0 == s1[0].0;
        let j1 = choose|i: int| 0 <= i < s1.len() && (#[trigger] s1[i]).0 == s2[0].0;
        if j2 > 0 && j1 > 0 {
            assert(lex_lt(s2[0].0, s2[j2].0));
            assert(lex_lt(s1[0].0, s1[j1].0));
            lemma_lex_asym(s1[0].0, s2[0].0);
        }
        assert(s1[0].0 == s2[0].0);
        assert(s1[0].1 == s2[0].1) by {
            assert(as_map(s1)[s1[0].0] == s1[0].1);
            assert(as_map(s2)[s2[0].0] == s2[0].1);
        }
        assert(s1.remove(0) =~= s1.drop_first());
        assert(s2.remove(0) =~= s2.drop_first());
        lemma_as_map_remove_at(s1, 0);
        lemma_as_map_remove_at(s2, 0);
        assert(sorted_by_key(s1.drop_first())) by {
            assert forall|i: int, j: int|
                #![trigger s1.drop_first()[i], s1.drop_first()[j]]
                0 <= i < j < s1.drop_first().len() implies lex_lt(
                s1.drop_first()[i].0,
                s1.drop_first()[j].0,
            ) by {
                assert(s1.drop_first()[i] == s1[i + 1]);
                assert(s1.drop_first()[j] == s1[j + 1]);
            }
        }
        assert(sorted_by_key(s2.drop_first())) by {
            assert forall|i: int, j: int|
                #![trigger s2.drop_first()[i], s2.drop_first()[j]]
                0 <= i < j < s2.drop_first().len() implies lex_lt(
                s2.drop_first()[i].0,
                s2.drop_first()[j].0,
            ) by {
                assert(s2.drop_first()[i] == s2[i + 1]);
                assert(s2.drop_first()[j] == s2[j + 1]);
            }
        }
        lemma_sorted_canonical(s1.drop_first(), s2.drop_first());
        assert(s1[0] == s2[0]);
        assert(s1.drop_first().len() == s1.len() - 1);
        assert(s2.drop_first().len() == s2.len() - 1);
        assert forall|i: int| 0 <= i < s1.len() implies s1[i] == s2[i] by {
            if i > 0 {
                assert(s1[i] == s1.drop_first()[i - 1]);
                assert(s2[i] == s2.drop_first()[i - 1]);
            }
        }
        assert(s1 =~= s2);
    }
}

/// Sortedness survives replacing the value at a position, keeping the key.
proof fn lemma_sorted_update<M>(s: Seq<(Seq<char>, M)>, i: int, v: M)
    requires
        sorted_by_key(s),
        0 <= i < s.len(),
    ensures
        sorted_by_key(s.update(i, (s[i].0, v))),
{
    let t = s.update(i, (s[i].0, v));
    assert forall|a: int, b: int| #![trigger t[a], t[b]] 0 <= a < b < t.len() implies lex_lt(
        t[a].0,
        t[b].0,
    ) by {
        assert(t[a].0 == s[a].0);
        assert(t[b].0 == s[b].0);
    }
}

/// Sortedness survives inserting a key between its neighbours.
proof fn lemma_sorted_insert_at<M>(s: Seq<(Seq<char>, M)>, i: int, k: Seq<char>, v: M)
    requires
        sorted_by_key(s),
        0 <= i <= s.len(),
        forall|j: int| 0 <= j < i ==> lex_lt((#[trigger] s[j]).0, k),
        forall|j: int| i <= j < s.len() ==> lex_lt(k, (#[trigger] s[j]).0),
    ensures
        sorted_by_key(s.insert(i, (k, v))),
{
    let t = s.insert(i, (k, v));
    s.insert_ensures(i, (k, v));
    assert forall|a: int, b: int| #![trigger t[a], t[b]] 0 <= a < b < t.len() implies lex_lt(
        t[a].0,
        t[b].0,
    ) by {
        if a < i {
            assert(t[a] == s[a]);
        } else if a == i {
            assert(t[a] == (k, v));
        } else {
            assert(t[a] == s[a - 1]);
        }
        if b < i {
            assert(t[b] == s[b]);
        } else if b == i {
            assert(t[b] == (k, v));
        } else {
            assert(t[b] == s[b - 1]);
        }
    }
}

/// Sortedness survives removing an entry.
proof fn lemma_sorted_remove<M>(s: Seq<(Seq<char>, M)>, i: int)
    requires
        sorted_by_key(s),
        0 <= i < s.len(),
    ensures
        sorted_by_key(s.remove(i)),
{
    let t = s.remove(i);
    s.remove_ensures(i);
    assert forall|a: int, b: int| #![trigger t[a], t[b]] 0 <= a < b < t.len() implies lex_lt(
        t[a].0,
        t[b].0,
    ) by {
        if a < i {
            assert(t[a] == s[a]);
        } else {
            assert(t[a] == s[a + 1]);
        }
        if b < i {
            assert(t[b] == s[b]);
        } else {
            assert(t[b] == s[b + 1]);
        }
    }
}

/// After the search for `k` stops at position `i` without an exact match,
/// every entry from `i` on lies strictly above `k`, and `k` is absent.
proof fn lemma_no_match<M>(s: Seq<(Seq<char>, M)>, k: Seq<char>, i: int)
    requires
        sorted_by_key(s),
        0 <= i <= s.len(),
        forall|j: int| 0 <= j < i ==> lex_lt((#[trigger] s[j]).0, k),
        i < s.len() ==> !lex_lt(s[i].0, k) && s[i].0 != k,
    ensures
        forall|j: int| i <= j < s.len() ==> lex_lt(k, (#[trigger] s[j]).0),
        forall|j: int| 0 <= j < s.len() ==> (#[trigger] s[j]).0 != k,
        !as_map(s).contains_key(k),
{
    if i < s.len() {
        lemma_lex_connected(s[i].0, k);
    }
    assert forall|j: int| i <= j < s.len() implies lex_lt(k, (#[trigger] s[j]).0) by {
        if j > i {
            assert(lex_lt(s[i].0, s[j].0));
            lemma_lex_trans(k, s[i].0, s[j].0);
        }
    }
    assert forall|j: int| 0 <= j < s.len() implies (#[trigger] s[j]).0 != k by {
        if s[j].0 == k {
            lemma_lex_irrefl(k);
        }
    }
    lemma_as_map_absent(s, k);
}

/// The views of a sequence of owned key-value pairs.
pub open spec fn pairs_view<V: View>(s: Seq<(String, V)>) -> Seq<(Seq<char>, V::V)> {
    Seq::new(s.len(), |i: int| (s[i].0@, s[i].1@))
}

/// A name-keyed collection of values, its entries kept strictly sorted by
/// key so that iteration order is deterministic.
#[derive(Debug, Clone)]
pub struct Registry<V> {
    entries: Vec<(String, V)>,
}

impl<V: View> View for Registry<V> {
    type V = Seq<(Seq<char>, V::V)>;

    closed spec fn view(&self) -> Seq<(Seq<char>, V::V)> {
        pairs_view(self.entries@)
    }
}

/// Borrows the value of the entry at position `i`, for in-place mutation.
fn entry_value_mut<V: View>(v: &mut Vec<(String, V)>, i: usize) -> (r: &mut V)
    requires
        i < old(v)@.len(),
    ensures
        *r == old(v)@[i as int].1,
        final(v)@ == old(v)@.update(i as int, (old(v)@[i as int].0, *final(r))),
{
    &mut v[i].1
}

impl<V: View> Registry<V> {
    /// The keys are strictly sorted, so lookups and the map view agree.
    pub open spec fn wf(&self) -> bool {
        sorted_by_key(self@)
    }

    /// The key-value map this registry holds.
    pub open spec fn map_view(&self) -> Map<Seq<char>, V::V> {
        as_map(self@)
    }

    /// An empty registry.
    pub fn empty() -> (r: Self)
        ensures
            r.wf(),
            r@ == Seq::<(Seq<char>, V::V)>::empty(),
    {
        let r = Registry { entries: Vec::new() };
        proof {
            assert(r@ =~= Seq::<(Seq<char>, V::V)>::empty());
        }
        r
    }

    /// How many entries the registry holds.
    pub fn len(&self) -> (r: usize)
        ensures
            r == self@.len(),
    {
        self.entries.len()
    }

    /// Borrows the entry at position `i`, in key order.
    pub fn pair_at(&self, i: usize) -> (r: &(String, V))
        requires
            i < self@.len(),
        ensures
            (r.0@, r.1@) == self@[i as int],
    {
        &self.entries[i]
    }

    /// The position where `key` is or would be: the first index whose key is
    /// not below `key`.
    fn position(&self, key: &str) -> (r: usize)
        requires
            self.wf(),
        ensures
            r <= self@.len(),
            forall|j: int| 0 <= j < r ==> lex_lt((#[trigger] self@[j]).0, key@),
            r < self@.len() ==> !lex_lt(self@[r as int].0, key@),
    {
        let n = self.entries.len();
        let mut i: usize = 0;
        while i < n
            invariant
                n == self@.len(),
                i <= n,
                forall|j: int| 0 <= j < i ==> lex_lt((#[trigger] self@[j]).0, key@),
            decreases n - i,
        {
            if !str_lt(self.entries[i].0.as_str(), key) {
                return i;
            }
            i += 1;
        }
        n
    }

    /// Looks the key up without granting mutation rights.
    pub fn get(&self, key: &str) -> (r: Option<&V>)
        requires
            self.wf(),
        ensures
            match r {
                Some(v) => self.map_view().contains_key(key@) && v@ == self.map_view()[key@],
                None => !self.map_view().contains_key(key@),
            },
    {
        let i = self.position(key);
        if i < self.entries.len() && str_eq(self.entries[i].0.as_str(), key) {
            proof {
                lemma_sorted_distinct(self@);
                lemma_as_map_index(self@, i as int);
            }
            Some(&self.entries[i].1)
        } else {
            proof {
                lemma_no_match(self@, key@, i as int);
            }
            None
        }
    }

    /// Looks the key up, granting the caller mutation rights over the value.
    pub fn get_mut(&mut self, key: &str) -> (r: Option<&mut V>)
        requires
            old(self).wf(),
        ensures
            match r {
                Some(v) => {
                    &&& old(self).map_view().contains_key(key@)
                    &&& (*v)@ == old(self).map_view()[key@]
                    &&& final(self).wf()
                    &&& final(self)@.len() == old(self)@.len()
                    &&& final(self).map_view() == old(self).map_view().insert(
                        key@,
                        (*final(v))@,
                    )
                },
                None => {
                    &&& !old(self).map_view().contains_key(key@)
                    &&& *final(self) == *old(self)
                },
            },
    {
        let ghost s0 = self@;
        let i = self.position(key);
        if i < self.entries.len() && str_eq(self.entries[i].0.as_str(), key) {
            proof {
                lemma_sorted_distinct(s0);
                lemma_as_map_index(s0, i as int);
            }
            let ghost e0 = self.entries@;
            let r = entry_value_mut(&mut self.entries, i);
            proof {
                let fin_e = e0.update(i as int, (e0[i as int].0, *final(r)));
                assert(pairs_view(fin_e) =~= s0.update(i as int, (s0[i as int].0, (*final(r))@)));
                lemma_as_map_update(s0, i as int, (*final(r))@);
                lemma_sorted_update(s0, i as int, (*final(r))@);
            }
            Some(r)
        } else {
            proof {
                lemma_no_match(s0, key@, i as int);
            }
            None
        }
    }

    /// Inserts the value at `key`, replacing any entry the key had.
    pub fn insert(&mut self, key: String, value: V)
        requires
            old(self).wf(),
        ensures
            final(self).wf(),
            final(self).map_view() == old(self).map_view().insert(key@, value@),
            old(self).map_view().contains_key(key@) ==> final(self)@.len() == old(self)@.len(),
            !old(self).map_view().contains_key(key@) ==> final(self)@.len() == old(self)@.len()
                + 1,
    {
        let ghost s0 = self@;
        let i = self.position(key.as_str());
        if i < self.entries.len() && str_eq(self.entries[i].0.as_str(), key.as_str()) {
            proof {
                lemma_sorted_distinct(s0);
                lemma_as_map_index(s0, i as int);
                lemma_as_map_remove_at(s0, i as int);
                lemma_sorted_remove(s0, i as int);
                s0.remove_ensures(i as int);
            }
            let _replaced = self.entries.remove(i);
            proof {
                assert(self@ =~= s0.remove(i as int));
                assert(forall|j: int|
                    0 <= j < i ==> lex_lt((#[trigger] self@[j]).0, key@) && self@[j].0 != key@)
                    by {
                    lemma_sorted_distinct(s0);
                }
                assert forall|j: int| i <= j < self@.len() implies lex_lt(
                    key@,
                    (#[trigger] self@[j]).0,
                ) && self@[j].0 != key@ by {
                    assert(self@[j] == s0[j + 1]);
                    assert(lex_lt(s0[i as int].0, s0[j + 1].0));
                    lemma_lex_irrefl(key@);
                }
                lemma_sorted_insert_at(self@, i as int, key@, value@);
                lemma_as_map_insert_at(self@, i as int, key@, value@);
            }
            let ghost s1 = self@;
            self.entries.insert(i, (key, value));
            proof {
                assert(self@ =~= s1.insert(i as int, (key@, value@)));
                assert(self.map_view() =~= as_map(s0).insert(key@, value@));
            }
        } else {
            proof {
                lemma_no_match(s0, key@, i as int);
                lemma_sorted_insert_at(s0, i as int, key@, value@);
                lemma_as_map_insert_at(s0, i as int, key@, value@);
            }
            self.entries.insert(i, (key, value));
            proof {
                assert(self@ =~= s0.insert(i as int, (key@, value@)));
                s0.insert_ensures(i as int, (key@, value@));
            }
        }
    }

    /// Removes and returns the entry at `key`, if the key is held.
    pub fn remove(&mut self, key: &str) -> (r: Option<V>)
        requires
            old(self).wf(),
        ensures
            final(self).wf(),
            match r {
                Some(v) => {
                    &&& old(self).map_view().contains_key(key@)
                    &&& v@ == old(self).map_view()[key@]
                    &&& final(self).map_view() == old(self).map_view().remove(key@)
                    &&& final(self)@.len() + 1 == old(self)@.len()
                },
                None => {
                    &&& !old(self).map_view().contains_key(key@)
                    &&& *final(self) == *old(self)
                },
            },
    {
        let ghost s0 = self@;
        let i = self.position(key);
        if i < self.entries.len() && str_eq(self.entries[i].0.as_str(), key) {
            proof {
                lemma_sorted_distinct(s0);
                lemma_as_map_index(s0, i as int);
                lemma_as_map_remove_at(s0, i as int);
                lemma_sorted_remove(s0, i as int);
            }
            let pair = self.entries.remove(i);
            proof {
                assert(self@ =~= s0.remove(i as int));
            }
            Some(pair.1)
        } else {
            proof {
                lemma_no_match(s0, key@, i as int);
            }
            None
        }
    }

    /// Builds a registry from key-value pairs taken in order, a later pair
    /// overriding an earlier one with the same key.
    pub fn from_pairs(pairs: Vec<(String, V)>) -> (r: Self)
        ensures
            r.wf(),
            r.map_view() == as_map(pairs_view(pairs@)),
    {
        let ghost p0 = pairs_view(pairs@);
        let mut src = pairs;
        let mut reg = Registry::<V>::empty();
        proof {
            assert(p0.take(0) =~= Seq::<(Seq<char>, V::V)>::empty());
        }
        while src.len() > 0
            invariant
                reg.wf(),
                src@.len() <= p0.len(),
                pairs_view(src@) =~= p0.skip(p0.len() - src@.len()),
                reg.map_view() == as_map(p0.take(p0.len() - src@.len())),
            decreases src@.len(),
        {
            let ghost src_before = src@;
            let pair = src.remove(0);
            let ghost k = p0.len() - src@.len();
            proof {
                assert(pairs_view(src_before)[0] == (pair.0@, pair.1@));
                assert(p0[k - 1] == (pair.0@, pair.1@));
                assert forall|j: int| 0 <= j < src@.len() implies (#[trigger] pairs_view(src@)[j])
                    == p0.skip(k)[j] by {
                    assert(src@[j] == src_before[j + 1]);
                    assert(pairs_view(src_before)[j + 1] == p0.skip(k - 1)[j + 1]);
                }
                assert(pairs_view(src@) =~= p0.skip(k));
            }
            let ghost m_before = reg.map_view();
            reg.insert(pair.0, pair.1);
            proof {
                assert(p0.take(k).drop_last() =~= p0.take(k - 1));
                assert(p0.take(k).last() == p0[k - 1]);
                assert(as_map(p0.take(k)) == as_map(p0.take(k - 1)).insert(
                    p0[k - 1].0,
                    p0[k - 1].1,
                ));
                assert(reg.map_view() == as_map(p0.take(k)));
            }
        }
        proof {
            assert(p0.take(p0.len() as int) =~= p0);
        }
        reg
    }
}

} // verus!
