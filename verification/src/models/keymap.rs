//! A map kept as a list of entries with distinct keys, in insertion order.

use vstd::prelude::*;

verus! {

/// Keys of a `KeyMap`: compared by their spec-level key.
pub trait MapKey: Sized {
    type Key;

    spec fn key(&self) -> Self::Key;

    fn same_key(&self, other: &Self) -> (r: bool)
        ensures
            r == (self.key() == other.key()),
    ;

    fn dup(&self) -> (r: Self)
        ensures
            r.key() == self.key(),
    ;
}

impl MapKey for String {
    type Key = Seq<char>;

    open spec fn key(&self) -> Seq<char> {
        self@
    }

    fn same_key(&self, other: &Self) -> (r: bool) {
        *self == *other
    }

    fn dup(&self) -> (r: Self) {
        self.clone()
    }
}

impl MapKey for u64 {
    type Key = u64;

    open spec fn key(&self) -> u64 {
        *self
    }

    fn same_key(&self, other: &Self) -> (r: bool) {
        *self == *other
    }

    fn dup(&self) -> (r: Self) {
        *self
    }
}

/// The map that a list of entries stands for (later entries win).
pub open spec fn map_of<K: MapKey, V>(e: Seq<(K, V)>) -> Map<K::Key, V>
    decreases e.len(),
{
    if e.len() == 0 {
        Map::empty()
    } else {
        map_of(e.drop_last()).insert(e.last().0.key(), e.last().1)
    }
}

pub open spec fn keys_distinct<K: MapKey, V>(e: Seq<(K, V)>) -> bool {
    forall|i: int, j: int| 0 <= i < j < e.len() ==> e[i].0.key() != e[j].0.key()
}

pub proof fn lemma_map_of_contains<K: MapKey, V>(e: Seq<(K, V)>, k: K::Key)
    requires
        keys_distinct(e),
    ensures
        map_of(e).contains_key(k) <==> exists|i: int| 0 <= i < e.len() && e[i].0.key() == k,
        forall|i: int| 0 <= i < e.len() && e[i].0.key() == k ==> map_of(e)[k] == e[i].1,
        map_of(e).dom().finite(),
        map_of(e).dom().len() == e.len(),
    decreases e.len(),
{
    if e.len() > 0 {
        let p = e.drop_last();
        assert(keys_distinct(p)) by {
            assert forall|i: int, j: int| 0 <= i < j < p.len() implies p[i].0.key() != p[j].0.key() by {
                assert(p[i] == e[i] && p[j] == e[j]);
            }
        }
        lemma_map_of_contains(p, k);
        lemma_map_of_contains(p, e.last().0.key());
        assert forall|i: int| 0 <= i < e.len() && e[i].0.key() == k implies map_of(e)[k] == e[i].1 by {
            if i < e.len() - 1 {
                assert(p[i] == e[i]);
                assert(e[i].0.key() != e[e.len() - 1].0.key());
            }
        }
        if exists|i: int| 0 <= i < e.len() && e[i].0.key() == k {
            let i = choose|i: int| 0 <= i < e.len() && e[i].0.key() == k;
            if i < e.len() - 1 {
                assert(p[i] == e[i]);
            }
        }
        if exists|i: int| 0 <= i < p.len() && p[i].0.key() == k {
            let i = choose|i: int| 0 <= i < p.len() && p[i].0.key() == k;
            assert(e[i] == p[i]);
        }
        assert(!map_of(p).contains_key(e.last().0.key())) by {
            if map_of(p).contains_key(e.last().0.key()) {
                let i = choose|i: int| 0 <= i < p.len() && p[i].0.key() == e.last().0.key();
                assert(p[i] == e[i]);
            }
        }
    }
}

/// A map whose entries keep their insertion order.
#[derive(Debug)]
pub struct KeyMap<K: MapKey, V> {
    entries: Vec<(K, V)>,
}

impl<K: MapKey, V> KeyMap<K, V> {
    #[verifier::type_invariant]
    spec fn distinct(self) -> bool {
        keys_distinct(self.entries@)
    }

    /// The entries, in insertion order.
    pub closed spec fn entry_seq(&self) -> Seq<(K, V)> {
        self.entries@
    }

    pub closed spec fn view(&self) -> Map<K::Key, V> {
        map_of(self.entries@)
    }

    /// What the entries say of the map: distinct keys, one entry per key.
    pub fn view_facts(&self)
        ensures
            keys_distinct(self.entry_seq()),
            self.view() == map_of(self.entry_seq()),
            forall|k: K::Key| #[trigger]
                self.view().contains_key(k) <==> exists|i: int|
                    0 <= i < self.entry_seq().len() && self.entry_seq()[i].0.key() == k,
            forall|i: int|
                0 <= i < self.entry_seq().len() ==> #[trigger] self.view()[self.entry_seq()[i].0.key()]
                    == self.entry_seq()[i].1,
            self.view().dom().finite(),
            self.view().dom().len() == self.entry_seq().len(),
    {
        proof {
            use_type_invariant(self);
        }
        assert forall|k: K::Key| #[trigger]
            self.view().contains_key(k) <==> exists|i: int|
                0 <= i < self.entry_seq().len() && self.entry_seq()[i].0.key() == k by {
            lemma_map_of_contains(self.entries@, k);
            assert(self.entry_seq() == self.entries@);
            assert(self.view() == map_of(self.entries@));
        }
        assert forall|i: int|
            0 <= i < self.entry_seq().len() implies #[trigger] self.view()[self.entry_seq()[i].0.key()]
                == self.entry_seq()[i].1 by {
            lemma_map_of_contains(self.entries@, self.entry_seq()[i].0.key());
        }
        proof {
            lemma_map_of_contains(self.entries@, arbitrary());
        }
    }

    pub fn new() -> (r: Self)
        ensures
            r.view() == Map::<K::Key, V>::empty(),
            r.entry_seq().len() == 0,
    {
        KeyMap { entries: Vec::new() }
    }

    pub fn len(&self) -> (r: usize)
        ensures
            r == self.view().dom().len(),
            r == self.entry_seq().len(),
    {
        self.view_facts();
        self.entries.len()
    }

    pub fn is_empty(&self) -> (r: bool)
        ensures
            r == (self.view().dom().len() == 0),
    {
        self.len() == 0
    }

    /// The entries, in insertion order.
    pub fn entries(&self) -> (r: &Vec<(K, V)>)
        ensures
            r@ == self.entry_seq(),
    {
        &self.entries
    }

    /// Index of the entry with key `k`.
    #[verifier::loop_isolation(false)]
    pub fn position(&self, k: &K) -> (r: Option<usize>)
        ensures
            match r {
                Some(i) => i < self.entry_seq().len() && self.entry_seq()[i as int].0.key()
                    == k.key() && self.view().contains_key(k.key()),
                None => !self.view().contains_key(k.key()),
            },
    {
        self.view_facts();
        let mut i: usize = 0;
        while i < self.entries.len()
            invariant
                i <= self.entries@.len(),
                forall|j: int| 0 <= j < i ==> self.entries@[j].0.key() != k.key(),
            decreases self.entries@.len() - i,
        {
            if self.entries[i].0.same_key(k) {
                assert(self.entry_seq()[i as int].0.key() == k.key());
                assert(self.view().contains_key(k.key()));
                return Some(i);
            }
            i = i + 1;
        }
        None
    }

    pub fn lookup(&self, k: &K) -> (r: Option<&V>)
        ensures
            match r {
                Some(v) => self.view().contains_key(k.key()) && *v == self.view()[k.key()],
                None => !self.view().contains_key(k.key()),
            },
    {
        self.view_facts();
        match self.position(k) {
            Some(i) => Some(&self.entries[i].1),
            None => None,
        }
    }

    pub fn has_key(&self, k: &K) -> (r: bool)
        ensures
            r == self.view().contains_key(k.key()),
    {
        self.position(k).is_some()
    }

    /// Insert or replace; a new key goes last, a present key keeps its place.
    pub fn insert(&mut self, k: K, v: V)
        ensures
            final(self).view() == old(self).view().insert(k.key(), v),
            old(self).view().contains_key(k.key()) ==> final(self).entry_seq().len()
                == old(self).entry_seq().len(),
            !old(self).view().contains_key(k.key()) ==> final(self).entry_seq() == old(
                self,
            ).entry_seq().push((k, v)),
    {
        self.view_facts();
        let ghost old_e = self.entries@;
        match self.position(&k) {
            Some(i) => {
                let ghost kk = k.key();
                let mut e: Vec<(K, V)> = Vec::new();
                std::mem::swap(&mut e, &mut self.entries);
                proof {
                    lemma_map_of_update(old_e, i as int, k, v);
                }
                e.set(i, (k, v));
                self.entries = e;
            },
            None => {
                let mut e: Vec<(K, V)> = Vec::new();
                std::mem::swap(&mut e, &mut self.entries);
                proof {
                    assert(e@.push((k, v)).drop_last() =~= e@);
                    assert(keys_distinct(e@.push((k, v)))) by {
                        assert forall|a: int, b: int| 0 <= a < b < e@.len() + 1 implies e@.push(
                            (k, v),
                        )[a].0.key() != e@.push((k, v))[b].0.key() by {
                            if b == e@.len() {
                                lemma_map_of_contains(old_e, k.key());
                            }
                        }
                    }
                }
                e.push((k, v));
                self.entries = e;
            },
        }
    }

    /// Put `v` under the present key `k`, in the same place, and hand back
    /// the value it replaces.
    pub fn replace(&mut self, k: &K, v: V) -> (prev: V)
        requires
            old(self).view().contains_key(k.key()),
        ensures
            final(self).view() == old(self).view().insert(k.key(), v),
            prev == old(self).view()[k.key()],
            final(self).entry_seq().len() == old(self).entry_seq().len(),
    {
        self.view_facts();
        let ghost old_e = self.entries@;
        let i = self.position(k).unwrap();
        let mut e: Vec<(K, V)> = Vec::new();
        std::mem::swap(&mut e, &mut self.entries);
        let (kk, prev) = e.remove(i);
        proof {
            assert(old_e[i as int] == (kk, prev));
            lemma_map_of_update(old_e, i as int, kk, v);
        }
        e.insert(i, (kk, v));
        proof {
            assert(e@ =~= old_e.update(i as int, (kk, v)));
        }
        self.entries = e;
        prev
    }

    /// Remove the entry with key `k`, keeping the order of the others.
    pub fn remove(&mut self, k: &K)
        ensures
            final(self).view() == old(self).view().remove(k.key()),
    {
        self.view_facts();
        let ghost old_e = self.entries@;
        match self.position(k) {
            Some(i) => {
                let mut e: Vec<(K, V)> = Vec::new();
                std::mem::swap(&mut e, &mut self.entries);
                proof {
                    lemma_map_of_remove(old_e, i as int);
                }
                e.remove(i);
                self.entries = e;
            },
            None => {
                assert(old(self).view().remove(k.key()) =~= old(self).view());
            },
        }
    }
}

pub proof fn lemma_map_of_update<K: MapKey, V>(e: Seq<(K, V)>, i: int, k: K, v: V)
    requires
        keys_distinct(e),
        0 <= i < e.len(),
        e[i].0.key() == k.key(),
    ensures
        keys_distinct(e.update(i, (k, v))),
        map_of(e.update(i, (k, v))) == map_of(e).insert(k.key(), v),
    decreases e.len(),
{
    let u = e.update(i, (k, v));
    assert(keys_distinct(u)) by {
        assert forall|a: int, b: int| 0 <= a < b < u.len() implies u[a].0.key() != u[b].0.key() by {
            assert(e[a].0.key() != e[b].0.key());
        }
    }
    let p = e.drop_last();
    assert(keys_distinct(p)) by {
        assert forall|a: int, b: int| 0 <= a < b < p.len() implies p[a].0.key() != p[b].0.key() by {
            assert(p[a] == e[a] && p[b] == e[b]);
        }
    }
    if i == e.len() - 1 {
        assert(u.drop_last() =~= p);
        lemma_map_of_contains(p, k.key());
        assert(!map_of(p).contains_key(k.key())) by {
            if map_of(p).contains_key(k.key()) {
                let j = choose|j: int| 0 <= j < p.len() && p[j].0.key() == k.key();
                assert(p[j] == e[j]);
            }
        }
        assert(map_of(u) =~= map_of(e).insert(k.key(), v));
    } else {
        lemma_map_of_update(p, i, k, v);
        assert(u.drop_last() =~= p.update(i, (k, v)));
        assert(u.last() == e.last());
        assert(e.last().0.key() != k.key());
        assert(map_of(u) =~= map_of(e).insert(k.key(), v));
    }
}

pub proof fn lemma_map_of_remove<K: MapKey, V>(e: Seq<(K, V)>, i: int)
    requires
        keys_distinct(e),
        0 <= i < e.len(),
    ensures
        keys_distinct(e.remove(i)),
        map_of(e.remove(i)) == map_of(e).remove(e[i].0.key()),
    decreases e.len(),
{
    let u = e.remove(i);
    let k = e[i].0.key();
    assert(keys_distinct(u)) by {
        assert forall|a: int, b: int| 0 <= a < b < u.len() implies u[a].0.key() != u[b].0.key() by {
            let a2 = if a < i {
                a
            } else {
                a + 1
            };
            let b2 = if b < i {
                b
            } else {
                b + 1
            };
            assert(u[a] == e[a2] && u[b] == e[b2]);
        }
    }
    let p = e.drop_last();
    assert(keys_distinct(p)) by {
        assert forall|a: int, b: int| 0 <= a < b < p.len() implies p[a].0.key() != p[b].0.key() by {
            assert(p[a] == e[a] && p[b] == e[b]);
        }
    }
    lemma_map_of_contains(p, k);
    if i == e.len() - 1 {
        assert(u =~= p);
        assert(!map_of(p).contains_key(k)) by {
            if map_of(p).contains_key(k) {
                let j = choose|j: int| 0 <= j < p.len() && p[j].0.key() == k;
                assert(p[j] == e[j]);
            }
        }
        assert(map_of(u) =~= map_of(e).remove(k));
    } else {
        lemma_map_of_remove(p, i);
        assert(u.drop_last() =~= p.remove(i));
        assert(u.last() == e.last());
        assert(e.last().0.key() != k);
        assert(map_of(u) =~= map_of(e).remove(k));
    }
}

impl<V> KeyMap<String, V> {
    pub fn get(&self, k: &str) -> (r: Option<&V>)
        ensures
            match r {
                Some(v) => self.view().contains_key(k@) && *v == self.view()[k@],
                None => !self.view().contains_key(k@),
            },
    {
        let key = k.to_string();
        self.lookup(&key)
    }

    pub fn contains_key(&self, k: &str) -> (r: bool)
        ensures
            r == self.view().contains_key(k@),
    {
        let key = k.to_string();
        self.has_key(&key)
    }
}

impl<V> KeyMap<u64, V> {
    pub fn get(&self, k: &u64) -> (r: Option<&V>)
        ensures
            match r {
                Some(v) => self.view().contains_key(*k) && *v == self.view()[*k],
                None => !self.view().contains_key(*k),
            },
    {
        self.lookup(k)
    }

    pub fn contains_key(&self, k: &u64) -> (r: bool)
        ensures
            r == self.view().contains_key(*k),
    {
        self.has_key(k)
    }
}

} // verus!
