//! Finite maps and their operations.
//!
//! The session state is a handful of small maps keyed by slots, candidate
//! identifiers or block identifiers. [`AssocMap`] keeps such a map as a list
//! of entries with distinct keys; its view is the mathematical map.

use vstd::prelude::*;

verus! {

/// A key type whose executable comparison is equality of values.
pub trait Key: Copy {
    /// Whether both keys are the same value.
    fn same(&self, other: &Self) -> (r: bool)
        ensures
            r == (*self == *other),
    ;
}

impl Key for u32 {
    fn same(&self, other: &Self) -> (r: bool) {
        *self == *other
    }
}

/// Whether no key occurs twice in `s`.
pub open spec fn distinct_keys<K, V>(s: Seq<(K, V)>) -> bool {
    forall|i: int, j: int|
        #![trigger s[i], s[j]]
        0 <= i < j < s.len() ==> s[i].0 != s[j].0
}

/// Whether some entry of `s` has the key `k`.
pub open spec fn has_key<K, V>(s: Seq<(K, V)>, k: K) -> bool {
    exists|i: int| 0 <= i < s.len() && (#[trigger] s[i]).0 == k
}

/// The position of an entry of `s` with the key `k`.
pub open spec fn key_index<K, V>(s: Seq<(K, V)>, k: K) -> int {
    choose|i: int| 0 <= i < s.len() && (#[trigger] s[i]).0 == k
}

/// The map that a list of entries with distinct keys stands for.
pub open spec fn entries_map<K, V>(s: Seq<(K, V)>) -> Map<K, V> {
    Map::new(|k: K| has_key(s, k), |k: K| s[key_index(s, k)].1)
}

/// What a lookup of `k` in `m` gives.
pub open spec fn lookup<K, V>(m: Map<K, V>, k: K) -> Option<V> {
    if m.dom().contains(k) {
        Some(m[k])
    } else {
        None
    }
}

/// A finite map kept as a list of entries with distinct keys.
pub struct AssocMap<K, V> {
    entries: Vec<(K, V)>,
}

impl<K, V> View for AssocMap<K, V> {
    type V = Map<K, V>;

    closed spec fn view(&self) -> Map<K, V> {
        entries_map(self.entries@)
    }
}

proof fn lemma_entry<K, V>(s: Seq<(K, V)>, i: int)
    requires
        distinct_keys(s),
        0 <= i < s.len(),
    ensures
        has_key(s, s[i].0),
        key_index(s, s[i].0) == i,
        entries_map(s).dom().contains(s[i].0),
        entries_map(s)[s[i].0] == s[i].1,
{
    let k = s[i].0;
    assert(has_key(s, k));
    let j = key_index(s, k);
    assert(0 <= j < s.len() && s[j].0 == k);
    if j < i {
        assert(s[j].0 != s[i].0);
    } else if i < j {
        assert(s[i].0 != s[j].0);
    }
}

proof fn lemma_push<K, V>(s: Seq<(K, V)>, k: K, v: V)
    requires
        distinct_keys(s),
        !has_key(s, k),
    ensures
        distinct_keys(s.push((k, v))),
        entries_map(s.push((k, v))) == entries_map(s).insert(k, v),
{
    let t = s.push((k, v));
    assert(distinct_keys(t)) by {
        assert forall|i: int, j: int|
            #![trigger t[i], t[j]]
            0 <= i < j < t.len() implies t[i].0 != t[j].0 by {
            if j == s.len() {
                assert(t[i] == s[i]);
            } else {
                assert(t[i] == s[i] && t[j] == s[j]);
            }
        }
    }
    assert(t[s.len() as int] == (k, v));
    lemma_entry(t, s.len() as int);
    assert forall|x: K| has_key(t, x) <==> (has_key(s, x) || x == k) by {
        if has_key(s, x) {
            let i = key_index(s, x);
            assert(t[i] == s[i]);
        }
        if has_key(t, x) && x != k {
            let i = key_index(t, x);
            assert(t[i] == s[i]);
        }
    }
    assert forall|x: K| has_key(s, x) implies entries_map(t)[x] == entries_map(s)[x] by {
        let i = key_index(s, x);
        assert(t[i] == s[i]);
        lemma_entry(s, i);
        lemma_entry(t, i);
    }
    assert(entries_map(t) =~= entries_map(s).insert(k, v));
}

proof fn lemma_update<K, V>(s: Seq<(K, V)>, p: int, v: V)
    requires
        distinct_keys(s),
        0 <= p < s.len(),
    ensures
        distinct_keys(s.update(p, (s[p].0, v))),
        entries_map(s.update(p, (s[p].0, v))) == entries_map(s).insert(s[p].0, v),
{
    let t = s.update(p, (s[p].0, v));
    assert(forall|i: int| 0 <= i < s.len() ==> (#[trigger] t[i]).0 == s[i].0);
    assert(distinct_keys(t)) by {
        assert forall|i: int, j: int|
            #![trigger t[i], t[j]]
            0 <= i < j < t.len() implies t[i].0 != t[j].0 by {
            assert(s[i].0 != s[j].0);
        }
    }
    lemma_entry(t, p);
    lemma_entry(s, p);
    assert forall|x: K| has_key(t, x) <==> has_key(s, x) by {
        if has_key(s, x) {
            let i = key_index(s, x);
            assert(t[i].0 == s[i].0);
        }
        if has_key(t, x) {
            let i = key_index(t, x);
            assert(t[i].0 == s[i].0);
        }
    }
    assert forall|x: K| has_key(s, x) && x != s[p].0 implies entries_map(t)[x] == entries_map(
        s,
    )[x] by {
        let i = key_index(s, x);
        assert(t[i] == s[i]);
        lemma_entry(s, i);
        lemma_entry(t, i);
    }
    assert(entries_map(t) =~= entries_map(s).insert(s[p].0, v));
}

proof fn lemma_remove<K, V>(s: Seq<(K, V)>, p: int)
    requires
        distinct_keys(s),
        0 <= p < s.len(),
    ensures
        distinct_keys(s.remove(p)),
        entries_map(s.remove(p)) == entries_map(s).remove(s[p].0),
{
    let t = s.remove(p);
    let k = s[p].0;
    let back = |i: int| if i < p { i } else { i + 1 };
    assert(forall|i: int| 0 <= i < t.len() ==> #[trigger] t[i] == s[back(i)]);
    assert(distinct_keys(t)) by {
        assert forall|i: int, j: int|
            #![trigger t[i], t[j]]
            0 <= i < j < t.len() implies t[i].0 != t[j].0 by {
            assert(s[back(i)].0 != s[back(j)].0);
        }
    }
    lemma_entry(s, p);
    assert forall|x: K| has_key(t, x) <==> (has_key(s, x) && x != k) by {
        if has_key(s, x) && x != k {
            let i = key_index(s, x);
            let j = if i < p { i } else { i - 1 };
            assert(t[j] == s[i]);
        }
        if has_key(t, x) {
            let i = key_index(t, x);
            assert(s[back(i)].0 == x);
            if x == k {
                lemma_entry(s, back(i));
            }
        }
    }
    assert forall|x: K| has_key(t, x) implies entries_map(t)[x] == entries_map(s)[x] by {
        let i = key_index(t, x);
        lemma_entry(t, i);
        lemma_entry(s, back(i));
    }
    assert(entries_map(t) =~= entries_map(s).remove(k));
}

/// The keys of a list of entries, in the order of the list.
spec fn key_list<K, V>(s: Seq<(K, V)>) -> Seq<K> {
    s.map_values(|e: (K, V)| e.0)
}

proof fn lemma_domain<K, V>(s: Seq<(K, V)>)
    requires
        distinct_keys(s),
    ensures
        key_list(s).no_duplicates(),
        key_list(s).to_set() == entries_map(s).dom(),
        entries_map(s).dom().finite(),
        entries_map(s).dom().len() == s.len(),
{
    let ks = key_list(s);
    assert(ks.no_duplicates()) by {
        assert forall|i: int, j: int|
            0 <= i < ks.len() && 0 <= j < ks.len() && i != j implies ks[i] != ks[j] by {
            if i < j {
                assert(s[i].0 != s[j].0);
            } else {
                assert(s[j].0 != s[i].0);
            }
        }
    }
    assert forall|x: K| ks.to_set().contains(x) <==> entries_map(s).dom().contains(x) by {
        if has_key(s, x) {
            let i = key_index(s, x);
            assert(ks[i] == x);
        }
        if ks.contains(x) {
            let i = choose|i: int| 0 <= i < ks.len() && ks[i] == x;
            assert(s[i].0 == x);
        }
    }
    assert(ks.to_set() =~= entries_map(s).dom());
    ks.unique_seq_to_set();
    vstd::seq_lib::seq_to_set_is_finite(ks);
}

impl<K, V> AssocMap<K, V> {
    #[verifier::type_invariant]
    spec fn well_formed(self) -> bool {
        distinct_keys(self.entries@)
    }
}

impl<K: Key, V> AssocMap<K, V> {
    /// The empty map.
    pub fn new() -> (m: Self)
        ensures
            m@ == Map::<K, V>::empty(),
    {
        let m = AssocMap { entries: Vec::new() };
        assert(m@ =~= Map::<K, V>::empty());
        m
    }

    /// Position of the entry for `key`, or the number of entries.
    fn position(&self, key: &K) -> (p: usize)
        ensures
            p <= self.entries@.len(),
            p < self.entries@.len() ==> self.entries@[p as int].0 == *key,
            p < self.entries@.len() <==> has_key(self.entries@, *key),
            p < self.entries@.len() ==> self@[*key] == self.entries@[p as int].1,
    {
        proof {
            use_type_invariant(self);
        }
        let mut i: usize = 0;
        while i < self.entries.len()
            invariant
                i <= self.entries@.len(),
                distinct_keys(self.entries@),
                forall|j: int| 0 <= j < i ==> (#[trigger] self.entries@[j]).0 != *key,
            decreases self.entries@.len() - i,
        {
            if self.entries[i].0.same(key) {
                proof {
                    lemma_entry(self.entries@, i as int);
                }
                return i;
            }
            i += 1;
        }
        i
    }

    /// The value for `key`, if there is one.
    pub fn get(&self, key: &K) -> (r: Option<&V>)
        ensures
            r is Some <==> self@.dom().contains(*key),
            r matches Some(v) ==> *v == self@[*key],
    {
        let p: usize = self.position(key);
        if p < self.entries.len() {
            Some(&self.entries[p].1)
        } else {
            None
        }
    }

    /// Whether there is a value for `key`.
    pub fn contains_key(&self, key: &K) -> (r: bool)
        ensures
            r == self@.dom().contains(*key),
    {
        self.position(key) < self.entries.len()
    }

    /// Number of keys.
    pub fn len(&self) -> (n: usize)
        ensures
            self@.dom().finite(),
            n == self@.dom().len(),
    {
        proof {
            use_type_invariant(self);
            lemma_domain(self.entries@);
        }
        self.entries.len()
    }

    /// Whether there is no key.
    pub fn is_empty(&self) -> (r: bool)
        ensures
            r == (self@ == Map::<K, V>::empty()),
    {
        proof {
            use_type_invariant(self);
            if self.entries@.len() == 0 {
                assert(self@ =~= Map::<K, V>::empty());
            } else {
                lemma_entry(self.entries@, 0);
                assert(!Map::<K, V>::empty().dom().contains(self.entries@[0].0));
            }
        }
        self.entries.len() == 0
    }

    /// Binds `key` to `value` and hands back the value it was bound to.
    pub fn insert(&mut self, key: K, value: V) -> (r: Option<V>)
        ensures
            final(self)@ == old(self)@.insert(key, value),
            r == lookup(old(self)@, key),
    {
        proof {
            use_type_invariant(&*self);
        }
        let p: usize = self.position(&key);
        let mut entries: Vec<(K, V)> = Vec::new();
        std::mem::swap(&mut entries, &mut self.entries);
        let ghost before = entries@;
        if p < entries.len() {
            let mut slot: (K, V) = (key, value);
            std::mem::swap(&mut slot, &mut entries[p]);
            proof {
                lemma_update(before, p as int, value);
                assert(entries@ =~= before.update(p as int, (key, value)));
            }
            self.entries = entries;
            Some(slot.1)
        } else {
            proof {
                lemma_push(before, key, value);
            }
            entries.push((key, value));
            self.entries = entries;
            None
        }
    }

    /// Unbinds `key` and hands back the value it was bound to.
    pub fn remove(&mut self, key: &K) -> (r: Option<V>)
        ensures
            final(self)@ == old(self)@.remove(*key),
            r == lookup(old(self)@, *key),
    {
        proof {
            use_type_invariant(&*self);
        }
        let p: usize = self.position(key);
        if p < self.entries.len() {
            let mut entries: Vec<(K, V)> = Vec::new();
            std::mem::swap(&mut entries, &mut self.entries);
            proof {
                lemma_remove(entries@, p as int);
            }
            let (_, value) = entries.remove(p);
            self.entries = entries;
            Some(value)
        } else {
            assert(self@ =~= self@.remove(*key));
            None
        }
    }

    /// Unbinds every key.
    pub fn clear(&mut self)
        ensures
            final(self)@ == Map::<K, V>::empty(),
    {
        self.entries = Vec::new();
        assert(self@ =~= Map::<K, V>::empty());
    }

    /// The keys, each once, in no particular order.
    pub fn keys(&self) -> (ks: Vec<K>)
        ensures
            ks@.no_duplicates(),
            ks@.to_set() == self@.dom(),
            forall|k: K| ks@.contains(k) <==> self@.dom().contains(k),
            self@.dom().finite(),
            ks@.len() == self@.dom().len(),
    {
        proof {
            use_type_invariant(self);
            lemma_domain(self.entries@);
        }
        let mut ks: Vec<K> = Vec::new();
        let mut i: usize = 0;
        while i < self.entries.len()
            invariant
                i <= self.entries@.len(),
                ks@ == key_list(self.entries@).take(i as int),
            decreases self.entries@.len() - i,
        {
            ks.push(self.entries[i].0);
            assert(key_list(self.entries@).take(i as int + 1) =~= key_list(self.entries@).take(
                i as int,
            ).push(self.entries@[i as int].0));
            i += 1;
        }
        assert(ks@ =~= key_list(self.entries@));
        assert forall|k: K| ks@.contains(k) <==> self@.dom().contains(k) by {
            assert(ks@.to_set().contains(k) <==> ks@.contains(k));
        }
        ks
    }

    /// Keeps the entries for which `keep` answers `true`.
    pub fn retain<F: Fn(&K, &V) -> bool>(&mut self, keep: F)
        requires
            forall|k: K, v: V| #[trigger] old(self)@.contains_pair(k, v) ==> call_requires(keep, (&k, &v)),
        ensures
            forall|k: K| #[trigger]
                final(self)@.dom().contains(k) ==> old(self)@.dom().contains(k) && final(self)@[k]
                    == old(self)@[k] && call_ensures(keep, (&k, &old(self)@[k]), true),
            forall|k: K| #[trigger]
                old(self)@.dom().contains(k) && !final(self)@.dom().contains(k) ==> call_ensures(
                    keep,
                    (&k, &old(self)@[k]),
                    false,
                ),
    {
        proof {
            use_type_invariant(&*self);
        }
        let ghost before = self@;
        let mut rest: Vec<(K, V)> = Vec::new();
        std::mem::swap(&mut rest, &mut self.entries);
        let ghost all = rest@;
        let mut kept: Vec<(K, V)> = Vec::new();
        while rest.len() > 0
            invariant
                before == entries_map(all),
                distinct_keys(all),
                distinct_keys(kept@),
                rest@ == all.take(rest@.len() as int),
                rest@.len() <= all.len(),
                forall|k: K, v: V| #[trigger] before.contains_pair(k, v) ==> call_requires(keep, (&k, &v)),
                forall|i: int|
                    0 <= i < kept@.len() ==> exists|j: int|
                        rest@.len() <= j < all.len() && all[j] == #[trigger] kept@[i],
                forall|i: int|
                    0 <= i < kept@.len() ==> call_ensures(
                        keep,
                        (&kept@[i].0, &(#[trigger] kept@[i]).1),
                        true,
                    ),
                forall|j: int|
                    rest@.len() <= j < all.len() ==> has_key(kept@, (#[trigger] all[j]).0) || call_ensures(
                        keep,
                        (&all[j].0, &all[j].1),
                        false,
                    ),
            decreases rest@.len(),
        {
            let ghost n = rest@.len();
            let entry: (K, V) = rest.pop().unwrap();
            assert(entry == all[n - 1]);
            assert(rest@ =~= all.take(n - 1));
            proof {
                lemma_entry(all, n - 1);
                assert(before.contains_pair(entry.0, entry.1));
            }
            let ghost kept_before = kept@;
            if keep(&entry.0, &entry.1) {
                proof {
                    if has_key(kept@, entry.0) {
                        let i = key_index(kept@, entry.0);
                        let j = choose|j: int| n <= j < all.len() && all[j] == kept@[i];
                        assert(all[n - 1].0 != all[j].0);
                    }
                    lemma_push(kept@, entry.0, entry.1);
                }
                kept.push(entry);
                assert forall|i: int| 0 <= i < kept@.len() implies exists|j: int|
                    n - 1 <= j < all.len() && all[j] == #[trigger] kept@[i] by {
                    if i < kept_before.len() {
                        assert(kept@[i] == kept_before[i]);
                        let j = choose|j: int| n <= j < all.len() && all[j] == kept_before[i];
                        assert(all[j] == kept@[i]);
                    } else {
                        assert(all[n - 1] == kept@[i]);
                    }
                }
                assert forall|j: int| n - 1 <= j < all.len() implies has_key(
                    kept@,
                    (#[trigger] all[j]).0,
                ) || call_ensures(keep, (&all[j].0, &all[j].1), false) by {
                    if j == n - 1 {
                        assert(kept@[kept_before.len() as int].0 == all[j].0);
                    } else if has_key(kept_before, all[j].0) {
                        let i = key_index(kept_before, all[j].0);
                        assert(kept@[i] == kept_before[i]);
                    }
                }
            }
        }
        self.entries = kept;
        proof {
            let after = entries_map(kept@);
            assert forall|k: K| #[trigger] after.dom().contains(k) implies before.dom().contains(k)
                && after[k] == before[k] && call_ensures(keep, (&k, &before[k]), true) by {
                let i = key_index(kept@, k);
                let j = choose|j: int| 0 <= j < all.len() && all[j] == kept@[i];
                lemma_entry(kept@, i);
                lemma_entry(all, j);
            }
            assert forall|k: K| #[trigger]
                before.dom().contains(k) && !after.dom().contains(k) implies call_ensures(
                keep,
                (&k, &before[k]),
                false,
            ) by {
                let j = key_index(all, k);
                lemma_entry(all, j);
                assert(!has_key(kept@, all[j].0));
            }
        }
    }
}

} // verus!
