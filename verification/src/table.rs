//! A multimap: a table that files any number of values under a key.

use std::collections::HashMap;
use std::collections::HashSet;
use std::hash::Hash;
use vstd::prelude::*;
use vstd::std_specs::hash::*;
use vstd::std_specs::iter::IteratorSpec;

verus! {

broadcast use vstd::std_specs::hash::group_hash_axioms;

/// Whether keys and values are of types that hash and compare as plain
/// data does: equal exactly when they are the same value. The integer
/// types and `bool` are such types.
pub open spec fn plain_data<K, V>() -> bool {
    obeys_key_model::<K>() && obeys_key_model::<V>()
}

/// The pairs that consist of `key` and a value of `values`.
pub open spec fn fiber<K, V>(key: K, values: Set<V>) -> Set<(K, V)> {
    Set::new(|p: (K, V)| p.0 == key && values.contains(p.1))
}

/// Whether entry number `i` of `entries` files the value of `p` under
/// the key of `p`.
pub open spec fn files<K, V>(entries: Seq<(K, Set<V>)>, i: int, p: (K, V)) -> bool {
    entries[i].0 == p.0 && entries[i].1.contains(p.1)
}

/// The pairs that the first `n` entries file.
pub open spec fn filed<K, V>(entries: Seq<(K, Set<V>)>, n: int) -> Set<(K, V)> {
    Set::new(|p: (K, V)| exists|i: int| 0 <= i < n && #[trigger] files(entries, i, p))
}

/// The number of values in the first `n` entries.
pub open spec fn filed_count<K, V>(entries: Seq<(K, Set<V>)>, n: int) -> nat
    decreases n,
{
    if n <= 0 {
        0
    } else {
        filed_count(entries, n - 1) + entries[n - 1].1.len()
    }
}

/// The pairs of a key and a value that a map from keys to sets holds.
pub open spec fn pairs_of<K, V>(map: Map<K, HashSet<V>>) -> Set<(K, V)> {
    Set::new(|p: (K, V)| map.contains_key(p.0) && map[p.0]@.contains(p.1))
}

/// The entries of a map as a walk through it hands them out, each with
/// the values of its set.
pub open spec fn entries_of<K, V>(walk: Seq<(K, HashSet<V>)>) -> Seq<(K, Set<V>)> {
    Seq::new(walk.len(), |i: int| (walk[i].0, walk[i].1@))
}

/// A set of values is finite.
proof fn lemma_values_finite<V>(values: HashSet<V>)
    ensures
        values@.finite(),
{
    let walk = spec_hash_keys_iter(&values).remaining();
    vstd::seq_lib::seq_to_set_is_finite(walk.unref());
}

/// The pairs under one key are as many as the values.
proof fn lemma_fiber_len<K, V>(key: K, values: Set<V>)
    requires
        values.finite(),
    ensures
        fiber(key, values).finite(),
        fiber(key, values).len() == values.len(),
{
    let pair = |v: V| (key, v);
    assert(values.map(pair) =~= fiber(key, values)) by {
        assert forall|p: (K, V)| fiber(key, values).contains(p) implies values.map(pair).contains(
            p,
        ) by {
            assert(values.contains(p.1) && pair(p.1) == p);
        }
    }
    assert(vstd::relations::injective_on(pair, values));
    vstd::set_lib::lemma_map_size(values, fiber(key, values), pair);
}

/// One more entry files the pairs under its key in addition.
proof fn lemma_filed_step<K, V>(entries: Seq<(K, Set<V>)>, n: int)
    requires
        0 < n <= entries.len(),
    ensures
        filed(entries, n) == filed(entries, n - 1).union(
            fiber(entries[n - 1].0, entries[n - 1].1),
        ),
{
    let last = entries[n - 1];
    let sum = filed(entries, n - 1).union(fiber(last.0, last.1));
    assert forall|p: (K, V)| filed(entries, n).contains(p) implies sum.contains(p) by {
        let i = choose|i: int| 0 <= i < n && #[trigger] files(entries, i, p);
        if i < n - 1 {
            assert(filed(entries, n - 1).contains(p));
        }
    }
    assert forall|p: (K, V)| sum.contains(p) implies filed(entries, n).contains(p) by {
        if filed(entries, n - 1).contains(p) {
            let i = choose|i: int| 0 <= i < n - 1 && #[trigger] files(entries, i, p);
            assert(files(entries, i, p));
        } else {
            assert(files(entries, n - 1, p));
        }
    }
    assert(filed(entries, n) =~= sum);
}

/// Finitely many finite entries file finitely many pairs.
proof fn lemma_filed_finite<K, V>(entries: Seq<(K, Set<V>)>, n: int)
    requires
        0 <= n <= entries.len(),
        forall|i: int| 0 <= i < entries.len() ==> (#[trigger] entries[i]).1.finite(),
    ensures
        filed(entries, n).finite(),
    decreases n,
{
    if n == 0 {
        assert(filed(entries, n) =~= Set::<(K, V)>::empty());
    } else {
        lemma_filed_finite(entries, n - 1);
        lemma_fiber_len(entries[n - 1].0, entries[n - 1].1);
        lemma_filed_step(entries, n);
    }
}

/// Entries under distinct keys file as many pairs as they hold values.
proof fn lemma_filed_len<K, V>(entries: Seq<(K, Set<V>)>, n: int)
    requires
        0 <= n <= entries.len(),
        forall|i: int| 0 <= i < entries.len() ==> (#[trigger] entries[i]).1.finite(),
        forall|i: int, j: int|
            0 <= i < j < entries.len() ==> (#[trigger] entries[i]).0 != (#[trigger] entries[j]).0,
    ensures
        filed(entries, n).finite(),
        filed(entries, n).len() == filed_count(entries, n),
    decreases n,
{
    if n == 0 {
        assert(filed(entries, n) =~= Set::<(K, V)>::empty());
    } else {
        let last = entries[n - 1];
        let before = filed(entries, n - 1);
        let under = fiber(last.0, last.1);
        lemma_filed_len(entries, n - 1);
        lemma_fiber_len(last.0, last.1);
        lemma_filed_step(entries, n);
        assert(before.disjoint(under)) by {
            assert forall|p: (K, V)| before.contains(p) implies !under.contains(p) by {
                let i = choose|i: int| 0 <= i < n - 1 && #[trigger] files(entries, i, p);
                assert(entries[i].0 != entries[n - 1].0);
            }
        }
        vstd::set_lib::lemma_set_disjoint_lens(before, under);
    }
}

/// The count of the values grows with the entries.
proof fn lemma_filed_count_grows<K, V>(entries: Seq<(K, Set<V>)>, i: int, n: int)
    requires
        i <= n,
    ensures
        filed_count(entries, i) <= filed_count(entries, n),
    decreases n - i,
{
    if i < n {
        lemma_filed_count_grows(entries, i, n - 1);
    }
}

/// A walk through a map hands out the pairs that the map holds.
proof fn lemma_walk_files_all<K, V>(map: Map<K, HashSet<V>>, walk: Seq<(K, HashSet<V>)>)
    requires
        forall|i: int| 0 <= i < walk.len() ==> map.contains_key(#[trigger] walk[i].0),
        forall|i: int| 0 <= i < walk.len() ==> map[#[trigger] walk[i].0] == walk[i].1,
        forall|k: K| #[trigger] map.contains_key(k) ==> walk.contains((k, map[k])),
    ensures
        filed(entries_of(walk), walk.len() as int) == pairs_of(map),
{
    let entries = entries_of(walk);
    let n = walk.len() as int;
    assert forall|p: (K, V)| filed(entries, n).contains(p) implies pairs_of(map).contains(p) by {
        let i = choose|i: int| 0 <= i < n && #[trigger] files(entries, i, p);
        assert(map.contains_key(walk[i].0));
        assert(map[walk[i].0] == walk[i].1);
    }
    assert forall|p: (K, V)| pairs_of(map).contains(p) implies filed(entries, n).contains(p) by {
        assert(map.contains_key(p.0));
        let i = choose|i: int| 0 <= i < walk.len() && walk[i] == (p.0, map[p.0]);
        assert(files(entries, i, p));
    }
    assert(filed(entries, n) =~= pairs_of(map));
}

/// A table that files values under keys: a key may hold any number of
/// values, and a value is filed under a key at most once.
///
/// Its view is the set of the pairs of a key and a value filed under it.
/// The table takes keys and values of any type that hashes and
/// compares; what its methods promise, they promise for `plain_data`.
#[derive(Debug)]
pub struct Table<K: Hash + Eq, V: Hash + Eq> {
    table: HashMap<K, HashSet<V>>,
}

impl<K: Hash + Eq, V: Hash + Eq> View for Table<K, V> {
    type V = Set<(K, V)>;

    closed spec fn view(&self) -> Set<(K, V)> {
        pairs_of(self.table@)
    }
}

impl<K: Hash + Eq, V: Hash + Eq> Table<K, V> {
    /// A table holds finitely many pairs.
    pub proof fn lemma_finite(&self)
        ensures
            self@.finite(),
    {
        let walk = spec_hash_map_iter(&self.table).remaining().unref();
        let entries = entries_of(walk);
        assert forall|i: int| 0 <= i < entries.len() implies (#[trigger] entries[i]).1.finite() by {
            lemma_values_finite(walk[i].1);
        }
        self.lemma_walk(walk);
        lemma_filed_finite(entries, walk.len() as int);
    }

    /// The walk of the map's own iterator hands out the table's pairs.
    proof fn lemma_walk(&self, walk: Seq<(K, HashSet<V>)>)
        requires
            walk == spec_hash_map_iter(&self.table).remaining().unref(),
        ensures
            filed(entries_of(walk), walk.len() as int) == self@,
    {
        let refs = spec_hash_map_iter(&self.table).remaining();
        let map = self.table@;
        assert forall|i: int| 0 <= i < walk.len() implies map.contains_key(#[trigger] walk[i].0)
            && map[walk[i].0] == walk[i].1 by {
            assert(map.contains_key(*refs[i].0) && map[*refs[i].0] == *refs[i].1);
        }
        assert forall|k: K| #[trigger] map.contains_key(k) implies walk.contains((k, map[k])) by {
            assert(refs.contains((&k, &map[k])));
            let i = choose|i: int| 0 <= i < refs.len() && refs[i] == (&k, &map[k]);
            assert(walk[i] == (k, map[k]));
        }
        lemma_walk_files_all(map, walk);
    }

    /// The empty table.
    pub fn new() -> (table: Self)
        ensures
            table@ == Set::<(K, V)>::empty(),
    {
        let table = Table { table: HashMap::new() };
        assert(table@ =~= Set::<(K, V)>::empty());
        table
    }

    /// Files `v` under `k`. A pair that is filed already stays as it is.
    pub fn add(&mut self, k: K, v: V)
        ensures
            plain_data::<K, V>() ==> final(self)@ == old(self)@.insert((k, v)),
    {
        let values = self.table.entry(k).or_insert(HashSet::new());
        values.insert(v);
        assert(plain_data::<K, V>() ==> self@ =~= old(self)@.insert((k, v)));
    }

    /// The number of pairs in the table: the values of all keys together.
    ///
    /// The sum must fit in `usize`; a table in memory does not hold more
    /// pairs than that.
    pub fn count(&self) -> (n: usize)
        requires
            plain_data::<K, V>(),
            self@.len() <= usize::MAX,
        ensures
            n == self@.len(),
    {
        let mut n: usize = 0;
        let walker = self.table.iter();
        let ghost walk = walker.remaining().unref();
        let ghost entries = entries_of(walk);
        proof {
            let refs = walker.remaining();
            let map = self.table@;
            self.lemma_walk(walk);
            assert forall|i: int| 0 <= i < entries.len() implies (#[trigger] entries[i]).1.finite() by {
                lemma_values_finite(walk[i].1);
            }
            assert forall|i: int, j: int| 0 <= i < j < entries.len() implies (#[trigger] entries[i]).0
                != (#[trigger] entries[j]).0 by {
                assert(map.contains_key(*refs[i].0) && map[*refs[i].0] == *refs[i].1);
                assert(map.contains_key(*refs[j].0) && map[*refs[j].0] == *refs[j].1);
                if entries[i].0 == entries[j].0 {
                    assert(refs[i] == refs[j]);
                }
            }
            lemma_filed_len(entries, walk.len() as int);
        }
        for entry in it: walker
            invariant
                plain_data::<K, V>(),
                it.seq().unref() == walk,
                entries == entries_of(walk),
                n == filed_count(entries, it.index()),
                filed_count(entries, walk.len() as int) == self@.len(),
                self@.len() <= usize::MAX,
        {
            let values = entry.1;
            proof {
                lemma_filed_count_grows(entries, it.index() + 1, walk.len() as int);
            }
            n = n + values.len();
        }
        n
    }

    /// Whether `v` is filed under `k`.
    pub fn contains(&self, k: &K, v: &V) -> (filed: bool)
        ensures
            plain_data::<K, V>() ==> filed == self@.contains((*k, *v)),
    {
        match self.table.get(k) {
            Some(values) => values.contains(v),
            None => false,
        }
    }
}

} // verus!
