//! An association list keyed by pairs of byte strings: the persistent storage
//! of the registry.
use vstd::prelude::*;

use crate::types::{bytes_equal, copy_slice};

verus! {

/// The abstract key of a store entry.
pub type KeyView = (Seq<u8>, Seq<u8>);

/// A finite map from pairs of byte strings to values.
pub struct Store<V> {
    keys: Vec<(Vec<u8>, Vec<u8>)>,
    vals: Vec<V>,
    map: Ghost<Map<KeyView, V>>,
}

/// The map the first `n` entries spell, a later entry replacing an earlier
/// one with the same key.
pub open spec fn entries_map<V>(keys: Seq<KeyView>, vals: Seq<V>, n: nat) -> Map<KeyView, V>
    decreases n,
{
    if n == 0 {
        Map::empty()
    } else {
        entries_map(keys, vals, (n - 1) as nat).insert(keys[n - 1], vals[n - 1])
    }
}

/// The abstract keys of a list of byte-string pairs.
pub open spec fn key_views(keys: Seq<(Vec<u8>, Vec<u8>)>) -> Seq<KeyView> {
    keys.map_values(|k: (Vec<u8>, Vec<u8>)| (k.0@, k.1@))
}

/// A store's entries as plain vectors: the keys, and the value of each key.
pub struct StoreParts<V> {
    pub keys: Vec<(Vec<u8>, Vec<u8>)>,
    pub vals: Vec<V>,
}

impl<V> StoreParts<V> {
    /// The map the entries spell (the unpaired tail of the longer vector ignored).
    pub open spec fn spelled(self) -> Map<KeyView, V> {
        entries_map(
            key_views(self.keys@),
            self.vals@,
            if self.keys@.len() <= self.vals@.len() {
                self.keys@.len()
            } else {
                self.vals@.len()
            },
        )
    }
}

impl<V> Store<V> {
    pub closed spec fn key_at(self, i: int) -> KeyView {
        (self.keys@[i].0@, self.keys@[i].1@)
    }

    /// The contents of the store.
    pub closed spec fn view(self) -> Map<KeyView, V> {
        self.map@
    }

    /// The vectors and the map describe the same entries, each key once.
    pub closed spec fn wf(self) -> bool {
        &&& self.keys@.len() == self.vals@.len()
        &&& forall|i: int|
            0 <= i < self.keys@.len() ==> #[trigger] self.map@.contains_key(self.key_at(i))
                && self.map@[self.key_at(i)] == self.vals@[i]
        &&& forall|k: KeyView| #[trigger]
            self.map@.contains_key(k) ==> exists|i: int|
                0 <= i < self.keys@.len() && self.key_at(i) == k
        &&& forall|i: int, j: int|
            0 <= i < self.keys@.len() && 0 <= j < self.keys@.len() && i != j ==> self.key_at(i)
                != self.key_at(j)
    }

    pub fn new() -> (s: Self)
        ensures
            s.wf(),
            s.view() == Map::<KeyView, V>::empty(),
    {
        Store { keys: Vec::new(), vals: Vec::new(), map: Ghost(Map::empty()) }
    }

    fn find(&self, a: &[u8], b: &[u8]) -> (r: Option<usize>)
        requires
            self.wf(),
        ensures
            match r {
                Some(i) => i < self.keys@.len() && self.key_at(i as int) == (a@, b@),
                None => !self.view().contains_key((a@, b@)),
            },
    {
        let mut i: usize = 0;
        while i < self.keys.len()
            invariant
                self.wf(),
                i <= self.keys@.len(),
                forall|j: int| 0 <= j < i ==> self.key_at(j) != (a@, b@),
            decreases self.keys@.len() - i,
        {
            let (ka, kb) = &self.keys[i];
            if bytes_equal(ka.as_slice(), a) && bytes_equal(kb.as_slice(), b) {
                return Some(i);
            }
            i = i + 1;
        }
        proof {
            if self.map@.contains_key((a@, b@)) {
                let j = choose|j: int| 0 <= j < self.keys@.len() && self.key_at(j) == (a@, b@);
                assert(self.key_at(j) != (a@, b@));
            }
        }
        None
    }

    /// Whether every key of this store is also a key of `other`.
    pub fn keys_within<W>(&self, other: &Store<W>) -> (r: bool)
        requires
            self.wf(),
            other.wf(),
        ensures
            r == self.view().dom().subset_of(other.view().dom()),
    {
        let mut i: usize = 0;
        while i < self.keys.len()
            invariant
                self.wf(),
                other.wf(),
                i <= self.keys@.len(),
                forall|j: int| 0 <= j < i ==> other.view().contains_key(#[trigger] self.key_at(j)),
            decreases self.keys@.len() - i,
        {
            let (a, b) = &self.keys[i];
            if !other.contains(a.as_slice(), b.as_slice()) {
                assert(self.map@.contains_key(self.key_at(i as int)));
                return false;
            }
            i = i + 1;
        }
        assert forall|k: KeyView| self.view().dom().contains(k) implies other.view().dom().contains(k) by {
            let j = choose|j: int| 0 <= j < self.keys@.len() && self.key_at(j) == k;
            assert(other.view().contains_key(self.key_at(j)));
        }
        true
    }

    /// Whether the store holds an entry for `(a, b)`.
    pub fn contains(&self, a: &[u8], b: &[u8]) -> (r: bool)
        requires
            self.wf(),
        ensures
            r == self.view().contains_key((a@, b@)),
    {
        match self.find(a, b) {
            Some(i) => {
                assert(self.map@.contains_key(self.key_at(i as int)));
                true
            },
            None => false,
        }
    }

    /// The value stored under `(a, b)`, if any.
    pub fn get(&self, a: &[u8], b: &[u8]) -> (r: Option<&V>)
        requires
            self.wf(),
        ensures
            match r {
                Some(v) => self.view().contains_key((a@, b@)) && *v == self.view()[(a@, b@)],
                None => !self.view().contains_key((a@, b@)),
            },
    {
        match self.find(a, b) {
            Some(i) => {
                assert(self.map@.contains_key(self.key_at(i as int)));
                Some(&self.vals[i])
            },
            None => None,
        }
    }

    /// Stores `v` under `(a, b)`, replacing any earlier value.
    pub fn insert(&mut self, a: &[u8], b: &[u8], v: V)
        requires
            old(self).wf(),
        ensures
            final(self).wf(),
            final(self).view() == old(self).view().insert((a@, b@), v),
    {
        let ghost k = (a@, b@);
        match self.find(a, b) {
            Some(i) => {
                let ghost old_self = *self;
                self.vals.set(i, v);
                self.map = Ghost(self.map@.insert(k, v));
                assert forall|j: int| 0 <= j < self.keys@.len() implies #[trigger] self.key_at(j)
                    == old_self.key_at(j) by {}
                assert forall|j: int| 0 <= j < self.keys@.len() implies #[trigger] self.map@.contains_key(
                    self.key_at(j),
                ) && self.map@[self.key_at(j)] == self.vals@[j] by {
                    assert(self.key_at(j) == old_self.key_at(j));
                    if j != i {
                        assert(old_self.key_at(j) != old_self.key_at(i as int));
                    }
                }
                assert forall|kk: KeyView| #[trigger] self.map@.contains_key(kk) implies exists|j: int|
                    0 <= j < self.keys@.len() && self.key_at(j) == kk by {
                    if kk != k {
                        assert(old_self.map@.contains_key(kk));
                        let j = choose|j: int|
                            0 <= j < old_self.keys@.len() && old_self.key_at(j) == kk;
                        assert(self.key_at(j) == kk);
                    } else {
                        assert(self.key_at(i as int) == kk);
                    }
                }
            },
            None => {
                let ghost old_self = *self;
                let ka = copy_slice(a);
                let kb = copy_slice(b);
                self.keys.push((ka, kb));
                self.vals.push(v);
                self.map = Ghost(self.map@.insert(k, v));
                let ghost n = old_self.keys@.len() as int;
                assert(self.key_at(n) == k);
                assert forall|j: int| 0 <= j < self.keys@.len() implies #[trigger] self.map@.contains_key(
                    self.key_at(j),
                ) && self.map@[self.key_at(j)] == self.vals@[j] by {
                    if j < n {
                        assert(self.key_at(j) == old_self.key_at(j));
                        assert(old_self.map@.contains_key(old_self.key_at(j)));
                    }
                }
                assert forall|kk: KeyView| #[trigger] self.map@.contains_key(kk) implies exists|j: int|
                    0 <= j < self.keys@.len() && self.key_at(j) == kk by {
                    if kk != k {
                        assert(old_self.map@.contains_key(kk));
                        let j = choose|j: int|
                            0 <= j < old_self.keys@.len() && old_self.key_at(j) == kk;
                        assert(self.key_at(j) == kk);
                    } else {
                        assert(self.key_at(n) == kk);
                    }
                }
                assert forall|x: int, y: int|
                    0 <= x < self.keys@.len() && 0 <= y < self.keys@.len() && x != y implies self.key_at(
                    x,
                ) != self.key_at(y) by {
                    if x < n && y < n {
                        assert(self.key_at(x) == old_self.key_at(x));
                        assert(self.key_at(y) == old_self.key_at(y));
                    } else if x < n {
                        assert(self.key_at(x) == old_self.key_at(x));
                        assert(old_self.map@.contains_key(old_self.key_at(x)));
                    } else {
                        assert(self.key_at(y) == old_self.key_at(y));
                        assert(old_self.map@.contains_key(old_self.key_at(y)));
                    }
                }
            },
        }
    }

    /// Removes the entry for `(a, b)`, if there is one.
    pub fn remove(&mut self, a: &[u8], b: &[u8])
        requires
            old(self).wf(),
        ensures
            final(self).wf(),
            final(self).view() == old(self).view().remove((a@, b@)),
    {
        let ghost k = (a@, b@);
        match self.find(a, b) {
            Some(i) => {
                let ghost old_self = *self;
                let _ = self.keys.remove(i);
                let _ = self.vals.remove(i);
                self.map = Ghost(self.map@.remove(k));
                assert forall|j: int| 0 <= j < self.keys@.len() implies #[trigger] self.map@.contains_key(
                    self.key_at(j),
                ) && self.map@[self.key_at(j)] == self.vals@[j] by {
                    let oj = if j < i { j } else { j + 1 };
                    assert(self.key_at(j) == old_self.key_at(oj));
                    assert(old_self.key_at(oj) != old_self.key_at(i as int));
                    assert(old_self.map@.contains_key(old_self.key_at(oj)));
                }
                assert forall|kk: KeyView| #[trigger] self.map@.contains_key(kk) implies exists|j: int|
                    0 <= j < self.keys@.len() && self.key_at(j) == kk by {
                    assert(old_self.map@.contains_key(kk));
                    let oj = choose|oj: int|
                        0 <= oj < old_self.keys@.len() && old_self.key_at(oj) == kk;
                    if oj < i {
                        assert(self.key_at(oj) == kk);
                    } else {
                        assert(oj != i);
                        assert(self.key_at(oj - 1) == kk);
                    }
                }
                assert forall|x: int, y: int|
                    0 <= x < self.keys@.len() && 0 <= y < self.keys@.len() && x != y implies self.key_at(
                    x,
                ) != self.key_at(y) by {
                    let ox = if x < i { x } else { x + 1 };
                    let oy = if y < i { y } else { y + 1 };
                    assert(self.key_at(x) == old_self.key_at(ox));
                    assert(self.key_at(y) == old_self.key_at(oy));
                }
            },
            None => {
                assert(self.map@.remove(k) =~= self.map@);
            },
        }
    }

    proof fn lemma_prefix_map(self, n: nat)
        requires
            self.wf(),
            n <= self.keys@.len(),
        ensures
            forall|k: KeyView| #[trigger]
                entries_map(
                    key_views(self.keys@),
                    self.vals@,
                    n,
                ).contains_key(k) <==> exists|i: int| 0 <= i < n && self.key_at(i) == k,
            forall|i: int|
                0 <= i < n ==> #[trigger] entries_map(
                    key_views(self.keys@),
                    self.vals@,
                    n,
                )[self.key_at(i)] == self.vals@[i],
        decreases n,
    {
        let kv = key_views(self.keys@);
        if n > 0 {
            self.lemma_prefix_map((n - 1) as nat);
            let m = (n - 1) as int;
            let prev = entries_map(kv, self.vals@, (n - 1) as nat);
            assert(entries_map(kv, self.vals@, n) == prev.insert(kv[m], self.vals@[m]));
            assert(kv[m] == self.key_at(m));
            assert forall|k: KeyView| #[trigger] entries_map(kv, self.vals@, n).contains_key(k) <==> exists|
                i: int,
            | 0 <= i < n && self.key_at(i) == k by {
                if entries_map(kv, self.vals@, n).contains_key(k) {
                    if k != kv[m] {
                        assert(prev.contains_key(k));
                        let i = choose|i: int| 0 <= i < n - 1 && self.key_at(i) == k;
                        assert(0 <= i < n && self.key_at(i) == k);
                    } else {
                        assert(self.key_at(m) == k);
                    }
                }
                if exists|i: int| 0 <= i < n && self.key_at(i) == k {
                    let i = choose|i: int| 0 <= i < n && self.key_at(i) == k;
                    if i < m {
                        assert(prev.contains_key(self.key_at(i)));
                    }
                }
            }
            assert forall|i: int| 0 <= i < n implies #[trigger] entries_map(kv, self.vals@, n)[self.key_at(
                i,
            )] == self.vals@[i] by {
                if i < m {
                    assert(self.key_at(i) != self.key_at(m));
                    assert(prev[self.key_at(i)] == self.vals@[i]);
                }
            }
        }
    }

    /// The entries, as plain vectors.
    pub fn into_parts(self) -> (r: StoreParts<V>)
        requires
            self.wf(),
        ensures
            r.keys@.len() == r.vals@.len(),
            r.spelled() == self.view(),
    {
        proof {
            self.lemma_prefix_map(self.keys@.len());
            let kv = key_views(self.keys@);
            let m = entries_map(kv, self.vals@, self.keys@.len());
            assert forall|k: KeyView| #[trigger] m.contains_key(k) <==> self.map@.contains_key(k) by {
                if self.map@.contains_key(k) {
                    let i = choose|i: int| 0 <= i < self.keys@.len() && self.key_at(i) == k;
                    assert(m.contains_key(self.key_at(i)));
                }
                if m.contains_key(k) {
                    let i = choose|i: int| 0 <= i < self.keys@.len() && self.key_at(i) == k;
                    assert(self.map@.contains_key(self.key_at(i)));
                }
            }
            assert forall|k: KeyView| #[trigger] m.contains_key(k) implies m[k] == self.map@[k] by {
                let i = choose|i: int| 0 <= i < self.keys@.len() && self.key_at(i) == k;
                assert(m[self.key_at(i)] == self.vals@[i]);
                assert(self.map@[self.key_at(i)] == self.vals@[i]);
            }
            assert(m =~= self.map@);
        }
        StoreParts { keys: self.keys, vals: self.vals }
    }

    /// A store holding the entries, a later entry replacing an earlier one
    /// with the same key.
    pub fn from_parts(parts: StoreParts<V>) -> (s: Self)
        ensures
            s.wf(),
            s.view() == parts.spelled(),
    {
        let StoreParts { keys, mut vals } = parts;
        let ghost kv = key_views(keys@);
        let ghost all_vals = vals@;
        let n: usize = if keys.len() <= vals.len() {
            keys.len()
        } else {
            vals.len()
        };
        vals.truncate(n);
        let mut s = Store::new();
        let mut rest: Vec<V> = Vec::new();
        // Take the values off the end, then insert them front to back.
        while vals.len() > 0
            invariant
                vals@.len() + rest@.len() == n,
                n <= all_vals.len(),
                forall|i: int| 0 <= i < vals@.len() ==> vals@[i] == all_vals[i],
                forall|j: int|
                    0 <= j < rest@.len() ==> #[trigger] rest@[j] == all_vals[n - 1 - j],
            decreases vals@.len(),
        {
            let v = vals.pop().unwrap();
            rest.push(v);
        }
        let mut i: usize = 0;
        while i < n
            invariant
                n <= keys@.len(),
                n <= all_vals.len(),
                kv == key_views(keys@),
                i <= n,
                rest@.len() == n - i,
                forall|j: int|
                    0 <= j < rest@.len() ==> #[trigger] rest@[j] == all_vals[n - 1 - j],
                s.wf(),
                s.view() == entries_map(kv, all_vals, i as nat),
            decreases n - i,
        {
            let v = rest.pop().unwrap();
            let (a, b) = &keys[i];
            assert(kv[i as int] == (a@, b@));
            s.insert(a.as_slice(), b.as_slice(), v);
            i = i + 1;
        }
        s
    }
}

} // verus!
