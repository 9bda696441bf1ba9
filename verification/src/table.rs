//! A small finite map, kept as two parallel vectors. The protocol keys its
//! records by identity and by sequence number; both are [`TableKey`]s.

use crate::types::Address;
use vstd::prelude::*;

verus! {

/// A plain value that can key a [`Table`]: it can be copied and compared.
pub trait TableKey: Copy + Sized {
    /// Whether the two keys are the same value.
    fn same(&self, other: &Self) -> (b: bool)
        ensures
            b == (*self == *other),
    ;
}

impl TableKey for Address {
    fn same(&self, other: &Self) -> (b: bool) {
        *self == *other
    }
}

impl TableKey for u64 {
    fn same(&self, other: &Self) -> (b: bool) {
        *self == *other
    }
}

/// A finite map from keys to values. No key is held twice.
#[derive(Debug)]
pub struct Table<K, V> {
    keys: Vec<K>,
    values: Vec<V>,
}

/// Whether no element of `keys` occurs at two positions.
pub open spec fn distinct<K>(keys: Seq<K>) -> bool {
    forall|i: int, j: int| 0 <= i < j < keys.len() ==> keys[i] != keys[j]
}

impl<K, V> View for Table<K, V> {
    type V = Map<K, V>;

    closed spec fn view(&self) -> Map<K, V> {
        Map::new(|a: K| self.keys@.contains(a), |a: K| self.values@[self.keys@.index_of(a)])
    }
}

impl<K: TableKey, V> Table<K, V> {
    /// The representation invariant: one value per key, no key twice.
    pub closed spec fn wf(&self) -> bool {
        &&& self.keys@.len() == self.values@.len()
        &&& distinct(self.keys@)
    }

    /// Under the invariant the key at position `i` maps to the value at `i`.
    proof fn lemma_view_at(&self, i: int)
        requires
            self.wf(),
            0 <= i < self.keys@.len(),
        ensures
            self@.contains_key(self.keys@[i]),
            self@[self.keys@[i]] == self.values@[i],
    {
        let a = self.keys@[i];
        assert(self.keys@.contains(a));
        let j = self.keys@.index_of(a);
        assert(0 <= j < self.keys@.len() && self.keys@[j] == a);
        if j < i {
            assert(self.keys@[j] != self.keys@[i]);
        } else if i < j {
            assert(self.keys@[i] != self.keys@[j]);
        }
    }

    /// The map holds finitely many keys, as many as the key vector is long.
    proof fn lemma_dom_len(&self)
        requires
            self.wf(),
        ensures
            self@.dom().finite(),
            self@.dom().len() == self.keys@.len(),
    {
        let keys = self.keys@;
        assert(keys.no_duplicates());
        keys.unique_seq_to_set();
        assert(self@.dom() =~= keys.to_set());
    }

    /// The domain of a well-formed map is finite.
    pub proof fn lemma_finite(&self)
        requires
            self.wf(),
        ensures
            self@.dom().finite(),
    {
        self.lemma_dom_len();
    }

    /// The number of keys held.
    pub fn len(&self) -> (n: usize)
        requires
            self.wf(),
        ensures
            self@.dom().finite(),
            n == self@.dom().len(),
    {
        proof {
            self.lemma_dom_len();
        }
        self.keys.len()
    }

    /// An empty map.
    pub fn new() -> (m: Self)
        ensures
            m.wf(),
            m@ == Map::<K, V>::empty(),
    {
        let m = Table { keys: Vec::new(), values: Vec::new() };
        assert(m@ =~= Map::<K, V>::empty());
        m
    }

    /// The position of `key`, if the map holds it.
    fn find(&self, key: K) -> (r: Option<usize>)
        requires
            self.wf(),
        ensures
            match r {
                Some(i) => i < self.keys@.len() && self.keys@[i as int] == key,
                None => !self.keys@.contains(key),
            },
    {
        let mut i: usize = 0;
        while i < self.keys.len()
            invariant
                i <= self.keys@.len(),
                forall|k: int| 0 <= k < i ==> self.keys@[k] != key,
            decreases self.keys@.len() - i,
        {
            if self.keys[i].same(&key) {
                return Some(i);
            }
            i += 1;
        }
        None
    }

    /// The value stored under `key`, if there is one.
    pub fn get(&self, key: K) -> (r: Option<&V>)
        requires
            self.wf(),
        ensures
            self@.contains_key(key) ==> r == Some(&self@[key]),
            !self@.contains_key(key) ==> r.is_none(),
    {
        match self.find(key) {
            Some(i) => {
                proof {
                    self.lemma_view_at(i as int);
                }
                Some(&self.values[i])
            },
            None => None,
        }
    }

    /// Whether a value is stored under `key`.
    pub fn contains_key(&self, key: K) -> (r: bool)
        requires
            self.wf(),
        ensures
            r == self@.contains_key(key),
    {
        self.find(key).is_some()
    }

    /// Stores `value` under `key`, replacing what was stored there.
    pub fn insert(&mut self, key: K, value: V)
        requires
            old(self).wf(),
        ensures
            final(self).wf(),
            final(self)@ == old(self)@.insert(key, value),
    {
        let ghost before = *self;
        match self.find(key) {
            Some(i) => {
                self.values[i] = value;
                proof {
                    assert(self.wf());
                    assert forall|a: K| #[trigger]
                        self@.contains_key(a) == before@.insert(key, value).contains_key(a) by {}
                    assert forall|a: K| #[trigger] self@.contains_key(a) implies self@[a]
                        == before@.insert(key, value)[a] by {
                        let j = self.keys@.index_of(a);
                        assert(0 <= j < self.keys@.len() && self.keys@[j] == a);
                        self.lemma_view_at(j);
                        before.lemma_view_at(j);
                        before.lemma_view_at(i as int);
                    }
                    assert(self@ =~= before@.insert(key, value));
                }
            },
            None => {
                self.keys.push(key);
                self.values.push(value);
                proof {
                    let n = before.keys@.len() as int;
                    assert(self.keys@ == before.keys@.push(key));
                    assert(self.wf());
                    assert forall|a: K| #[trigger]
                        self@.contains_key(a) == before@.insert(key, value).contains_key(a) by {
                        if before.keys@.contains(a) {
                            let j = choose|j: int| 0 <= j < n && before.keys@[j] == a;
                            assert(self.keys@[j] == a);
                        }
                        if a == key {
                            assert(self.keys@[n] == a);
                        }
                        if self.keys@.contains(a) {
                            let j = choose|j: int| 0 <= j < n + 1 && self.keys@[j] == a;
                            if j < n {
                                assert(before.keys@[j] == a);
                            }
                        }
                    }
                    assert forall|a: K| #[trigger] self@.contains_key(a) implies self@[a]
                        == before@.insert(key, value)[a] by {
                        let j = self.keys@.index_of(a);
                        assert(0 <= j < n + 1 && self.keys@[j] == a);
                        self.lemma_view_at(j);
                        if j < n {
                            assert(before.keys@[j] == a);
                            before.lemma_view_at(j);
                        }
                    }
                    assert(self@ =~= before@.insert(key, value));
                }
            },
        }
    }

    /// Removes what is stored under `key`, if anything, and hands it out.
    pub fn remove(&mut self, key: K) -> (r: Option<V>)
        requires
            old(self).wf(),
        ensures
            final(self).wf(),
            final(self)@ == old(self)@.remove(key),
            old(self)@.contains_key(key) ==> r == Some(old(self)@[key]),
            !old(self)@.contains_key(key) ==> r.is_none(),
    {
        let ghost before = *self;
        match self.find(key) {
            Some(i) => {
                self.keys.swap_remove(i);
                let value = self.values.swap_remove(i);
                proof {
                    before.lemma_view_at(i as int);
                    let n = before.keys@.len() as int;
                    let last = n - 1;
                    // position `p` after the removal holds what position `src(p)` held
                    assert forall|p: int| 0 <= p < n - 1 implies #[trigger] self.keys@[p]
                        == before.keys@[if p == i { last } else { p }] && self.values@[p]
                        == before.values@[if p == i { last } else { p }] by {}
                    assert(self.wf());
                    assert forall|a: K| #[trigger]
                        self@.contains_key(a) == before@.remove(key).contains_key(a) by {
                        if self.keys@.contains(a) {
                            let p = choose|p: int| 0 <= p < n - 1 && self.keys@[p] == a;
                            let q = if p == i { last } else { p };
                            assert(before.keys@[q] == a);
                            assert(q != i);
                        }
                        if before.keys@.contains(a) && a != key {
                            let q = choose|q: int| 0 <= q < n && before.keys@[q] == a;
                            let p = if q == last { i as int } else { q };
                            assert(self.keys@[p] == a);
                        }
                    }
                    assert forall|a: K| #[trigger] self@.contains_key(a) implies self@[a]
                        == before@.remove(key)[a] by {
                        let p = self.keys@.index_of(a);
                        assert(0 <= p < n - 1 && self.keys@[p] == a);
                        let q = if p == i { last } else { p };
                        self.lemma_view_at(p);
                        before.lemma_view_at(q);
                    }
                    assert(self@ =~= before@.remove(key));
                }
                Some(value)
            },
            None => {
                proof {
                    assert(self@ =~= before@.remove(key));
                }
                None
            },
        }
    }
}

/// Whether `entries` lists exactly what `m` holds: every key once, with its
/// value, and no key that `m` lacks.
pub open spec fn lists_map<K, V>(entries: Seq<(K, V)>, m: Map<K, V>) -> bool {
    &&& forall|i: int, j: int|
        0 <= i < j < entries.len() ==> (#[trigger] entries[i]).0 != (#[trigger] entries[j]).0
    &&& forall|i: int|
        0 <= i < entries.len() ==> m.contains_key((#[trigger] entries[i]).0) && m[entries[i].0]
            == entries[i].1
    &&& forall|k: K| #[trigger]
        m.contains_key(k) ==> exists|i: int|
            0 <= i < entries.len() && (#[trigger] entries[i]).0 == k
}

/// Whether `keys` lists exactly the members of `set`, each once.
pub open spec fn lists_set<K>(keys: Seq<K>, set: Set<K>) -> bool {
    &&& distinct(keys)
    &&& forall|i: int| 0 <= i < keys.len() ==> set.contains(#[trigger] keys[i])
    &&& forall|k: K| #[trigger]
        set.contains(k) ==> exists|i: int| 0 <= i < keys.len() && #[trigger] keys[i] == k
}

/// A list of entries determines the map it lists.
pub proof fn lemma_listed_map_unique<K, V>(entries: Seq<(K, V)>, a: Map<K, V>, b: Map<K, V>)
    requires
        lists_map(entries, a),
        lists_map(entries, b),
    ensures
        a == b,
{
    assert forall|k: K| a.contains_key(k) == b.contains_key(k) by {
        if a.contains_key(k) {
            let i = choose|i: int| 0 <= i < entries.len() && (#[trigger] entries[i]).0 == k;
            assert(b.contains_key(entries[i].0));
        }
        if b.contains_key(k) {
            let i = choose|i: int| 0 <= i < entries.len() && (#[trigger] entries[i]).0 == k;
            assert(a.contains_key(entries[i].0));
        }
    }
    assert forall|k: K| a.contains_key(k) implies a[k] == b[k] by {
        let i = choose|i: int| 0 <= i < entries.len() && (#[trigger] entries[i]).0 == k;
        assert(a[entries[i].0] == entries[i].1);
        assert(b[entries[i].0] == entries[i].1);
    }
    assert(a =~= b);
}

/// A list of keys determines the set it lists.
pub proof fn lemma_listed_set_unique<K>(keys: Seq<K>, a: Set<K>, b: Set<K>)
    requires
        lists_set(keys, a),
        lists_set(keys, b),
    ensures
        a == b,
{
    assert forall|k: K| a.contains(k) == b.contains(k) by {
        if a.contains(k) {
            let i = choose|i: int| 0 <= i < keys.len() && #[trigger] keys[i] == k;
            assert(b.contains(keys[i]));
        }
        if b.contains(k) {
            let i = choose|i: int| 0 <= i < keys.len() && #[trigger] keys[i] == k;
            assert(a.contains(keys[i]));
        }
    }
    assert(a =~= b);
}

impl<K: TableKey, V> Table<K, V> {
    /// The keys of the map, each once.
    pub fn to_keys(&self) -> (keys: Vec<K>)
        requires
            self.wf(),
        ensures
            lists_set(keys@, self@.dom()),
    {
        let mut keys: Vec<K> = Vec::new();
        let mut i: usize = 0;
        while i < self.keys.len()
            invariant
                self.wf(),
                i <= self.keys@.len(),
                keys@ == self.keys@.take(i as int),
            decreases self.keys@.len() - i,
        {
            keys.push(self.keys[i]);
            assert(keys@ =~= self.keys@.take(i + 1));
            i += 1;
        }
        proof {
            assert(keys@ =~= self.keys@);
            assert forall|j: int| 0 <= j < keys@.len() implies self@.dom().contains(
                #[trigger] keys@[j],
            ) by {
                self.lemma_view_at(j);
            }
            assert forall|k: K| #[trigger] self@.dom().contains(k) implies exists|j: int|
                0 <= j < keys@.len() && #[trigger] keys@[j] == k by {
                let j = self.keys@.index_of(k);
                assert(0 <= j < keys@.len() && keys@[j] == k);
            }
        }
        keys
    }

    /// Builds the map that `entries` lists. `None` if a key occurs twice.
    pub fn from_entries(entries: Vec<(K, V)>) -> (r: Option<Table<K, V>>)
        ensures
            match r {
                Some(t) => t.wf() && lists_map(entries@, t@),
                None => exists|i: int, j: int|
                    0 <= i < j < entries@.len() && (#[trigger] entries@[i]).0 == (
                    #[trigger] entries@[j]).0,
            },
    {
        let ghost all = entries@;
        let mut rest = entries;
        let mut table: Table<K, V> = Table::new();
        while rest.len() > 0
            invariant
                table.wf(),
                all == entries@,
                rest@.len() <= all.len(),
                rest@ == all.take(rest@.len() as int),
                forall|i: int, j: int|
                    rest@.len() <= i < j < all.len() ==> (#[trigger] all[i]).0 != (
                    #[trigger] all[j]).0,
                forall|i: int|
                    rest@.len() <= i < all.len() ==> table@.contains_key((#[trigger] all[i]).0)
                        && table@[all[i].0] == all[i].1,
                forall|k: K| #[trigger]
                    table@.contains_key(k) ==> exists|i: int|
                        rest@.len() <= i < all.len() && (#[trigger] all[i]).0 == k,
            decreases rest@.len(),
        {
            let ghost m = rest@.len() - 1;
            let ghost before = table@;
            let (key, value) = match rest.pop() {
                Some(entry) => entry,
                None => {
                    return None;
                },
            };
            assert(all[m] == (key, value));
            assert(rest@ =~= all.take(m));
            if table.contains_key(key) {
                proof {
                    let j = choose|j: int| m < j < all.len() && (#[trigger] all[j]).0 == key;
                    assert(all[m].0 == all[j].0);
                }
                return None;
            }
            table.insert(key, value);
            proof {
                assert forall|k: K| #[trigger] table@.contains_key(k) implies exists|i: int|
                    m <= i < all.len() && (#[trigger] all[i]).0 == k by {
                    if k == key {
                        assert(all[m].0 == k);
                    } else {
                        assert(before.contains_key(k));
                        let i = choose|i: int| m < i < all.len() && (#[trigger] all[i]).0 == k;
                        assert(all[i].0 == k);
                    }
                }
            }
        }
        Some(table)
    }
}

impl<K: TableKey, V: Copy> Table<K, V> {
    /// The entries of the map, each key once.
    pub fn to_entries(&self) -> (entries: Vec<(K, V)>)
        requires
            self.wf(),
        ensures
            lists_map(entries@, self@),
    {
        let mut entries: Vec<(K, V)> = Vec::new();
        let mut i: usize = 0;
        while i < self.keys.len()
            invariant
                self.wf(),
                i <= self.keys@.len(),
                entries@.len() == i,
                forall|j: int|
                    0 <= j < i ==> (#[trigger] entries@[j]) == (self.keys@[j], self.values@[j]),
            decreases self.keys@.len() - i,
        {
            entries.push((self.keys[i], self.values[i]));
            i += 1;
        }
        proof {
            assert forall|j: int| 0 <= j < entries@.len() implies self@.contains_key(
                (#[trigger] entries@[j]).0,
            ) && self@[entries@[j].0] == entries@[j].1 by {
                self.lemma_view_at(j);
            }
            assert forall|k: K| #[trigger] self@.contains_key(k) implies exists|j: int|
                0 <= j < entries@.len() && (#[trigger] entries@[j]).0 == k by {
                let j = self.keys@.index_of(k);
                assert(0 <= j < entries@.len() && entries@[j].0 == k);
            }
        }
        entries
    }
}

/// A finite set of keys.
#[derive(Debug)]
pub struct KeySet<K> {
    members: Table<K, ()>,
}

impl<K> View for KeySet<K> {
    type V = Set<K>;

    closed spec fn view(&self) -> Set<K> {
        self.members@.dom()
    }
}

impl<K: TableKey> KeySet<K> {
    /// The representation invariant.
    pub closed spec fn wf(&self) -> bool {
        self.members.wf()
    }

    /// An empty set.
    pub fn new() -> (s: Self)
        ensures
            s.wf(),
            s@ == Set::<K>::empty(),
    {
        let s = KeySet { members: Table::new() };
        assert(s@ =~= Set::<K>::empty());
        s
    }

    /// Whether `key` is a member.
    pub fn contains(&self, key: K) -> (r: bool)
        requires
            self.wf(),
        ensures
            r == self@.contains(key),
    {
        self.members.contains_key(key)
    }

    /// Makes `key` a member.
    pub fn insert(&mut self, key: K)
        requires
            old(self).wf(),
        ensures
            final(self).wf(),
            final(self)@ == old(self)@.insert(key),
    {
        self.members.insert(key, ());
        assert(self@ =~= old(self)@.insert(key));
    }

    /// Makes `key` no member.
    pub fn remove(&mut self, key: K)
        requires
            old(self).wf(),
        ensures
            final(self).wf(),
            final(self)@ == old(self)@.remove(key),
    {
        self.members.remove(key);
        assert(self@ =~= old(self)@.remove(key));
    }

    /// The members, each once.
    pub fn to_keys(&self) -> (keys: Vec<K>)
        requires
            self.wf(),
        ensures
            lists_set(keys@, self@),
    {
        self.members.to_keys()
    }

    /// Builds the set that `keys` lists. `None` if a key occurs twice.
    pub fn from_keys(keys: Vec<K>) -> (r: Option<KeySet<K>>)
        ensures
            match r {
                Some(s) => s.wf() && lists_set(keys@, s@),
                None => !distinct(keys@),
            },
    {
        let mut entries: Vec<(K, ())> = Vec::new();
        let mut i: usize = 0;
        while i < keys.len()
            invariant
                i <= keys@.len(),
                entries@.len() == i,
                forall|k: int| 0 <= k < i ==> (#[trigger] entries@[k]).0 == keys@[k],
            decreases keys@.len() - i,
        {
            entries.push((keys[i], ()));
            i += 1;
        }
        let ghost listed = entries@;
        match Table::from_entries(entries) {
            Some(members) => {
                let s = KeySet { members };
                proof {
                    assert forall|a: int, b: int| 0 <= a < b < keys@.len() implies keys@[a]
                        != keys@[b] by {
                        assert(listed[a].0 != listed[b].0);
                    }
                    assert forall|k: int| 0 <= k < keys@.len() implies s@.contains(
                        #[trigger] keys@[k],
                    ) by {
                        assert(members@.contains_key(listed[k].0));
                    }
                    assert forall|key: K| #[trigger] s@.contains(key) implies exists|k: int|
                        0 <= k < keys@.len() && #[trigger] keys@[k] == key by {
                        let k = choose|k: int|
                            0 <= k < listed.len() && (#[trigger] listed[k]).0 == key;
                        assert(keys@[k] == key);
                    }
                }
                Some(s)
            },
            None => {
                proof {
                    let (a, b) = choose|a: int, b: int|
                        0 <= a < b < listed.len() && (#[trigger] listed[a]).0 == (
                        #[trigger] listed[b]).0;
                    assert(keys@[a] == keys@[b]);
                }
                None
            },
        }
    }
}

} // verus!
