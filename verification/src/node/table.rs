//! A small map from operation ids to values, kept as a list of entries.

use vstd::prelude::*;

verus! {

/// No two entries share a key.
pub open spec fn keys_distinct<V>(s: Seq<(u32, V)>) -> bool {
    forall|i: int, j: int| 0 <= i < s.len() && 0 <= j < s.len() && i != j ==> s[i].0 != s[j].0
}

/// Whether some entry has this key.
pub open spec fn has_key<V>(s: Seq<(u32, V)>, k: u32) -> bool {
    exists|i: int| 0 <= i < s.len() && s[i].0 == k
}

/// The position of the entry with this key.
pub open spec fn key_index<V>(s: Seq<(u32, V)>, k: u32) -> int {
    choose|i: int| 0 <= i < s.len() && s[i].0 == k
}

/// The entries as a map.
pub open spec fn entries_map<V>(s: Seq<(u32, V)>) -> Map<u32, V> {
    Map::new(|k: u32| has_key(s, k), |k: u32| s[key_index(s, k)].1)
}

/// With distinct keys, the entry at `i` is the one the map reports for its key.
pub proof fn lemma_index_unique<V>(s: Seq<(u32, V)>, i: int)
    requires
        keys_distinct(s),
        0 <= i < s.len(),
    ensures
        has_key(s, s[i].0),
        key_index(s, s[i].0) == i,
        entries_map(s).contains_key(s[i].0),
        entries_map(s)[s[i].0] == s[i].1,
{
    let k = s[i].0;
    assert(has_key(s, k));
    let j = key_index(s, k);
    if j != i {
        assert(s[j].0 != s[i].0);
    }
}

/// A map from `u32` keys to values.
pub struct KeyTable<V> {
    entries: Vec<(u32, V)>,
}

impl<V> KeyTable<V> {
    /// The entries, as a map.
    pub closed spec fn view(&self) -> Map<u32, V> {
        entries_map(self.entries@)
    }

    /// No two entries share a key.
    pub closed spec fn wf(&self) -> bool {
        keys_distinct(self.entries@)
    }

    /// An empty table.
    pub fn new() -> (t: KeyTable<V>)
        ensures
            t.wf(),
            t.view() == Map::<u32, V>::empty(),
    {
        let t = KeyTable { entries: Vec::new() };
        assert(t.view() =~= Map::<u32, V>::empty());
        t
    }

    /// The position of the entry with this key, if any.
    fn find(&self, k: u32) -> (res: Option<usize>)
        requires
            self.wf(),
        ensures
            res is None <==> !self.view().contains_key(k),
            res matches Some(i) ==> i < self.entries@.len() && self.entries@[i as int].0 == k,
    {
        let mut i: usize = 0;
        while i < self.entries.len()
            invariant
                0 <= i <= self.entries@.len(),
                forall|j: int| 0 <= j < i ==> self.entries@[j].0 != k,
            decreases self.entries@.len() - i,
        {
            if self.entries[i].0 == k {
                return Some(i);
            }
            i = i + 1;
        }
        None
    }

    /// Whether the key is present.
    pub fn contains_key(&self, k: u32) -> (b: bool)
        requires
            self.wf(),
        ensures
            b == self.view().contains_key(k),
    {
        self.find(k).is_some()
    }

    /// The value under this key, if any.
    pub fn get(&self, k: u32) -> (res: Option<&V>)
        requires
            self.wf(),
        ensures
            res is None <==> !self.view().contains_key(k),
            res matches Some(v) ==> *v == self.view()[k],
    {
        match self.find(k) {
            Some(i) => {
                proof {
                    lemma_index_unique(self.entries@, i as int);
                }
                Some(&self.entries[i].1)
            },
            None => None,
        }
    }

    /// Records `v` under `k`, replacing a value already there.
    pub fn insert(&mut self, k: u32, v: V)
        requires
            old(self).wf(),
        ensures
            final(self).wf(),
            final(self).view() == old(self).view().insert(k, v),
    {
        let ghost o = self.entries@;
        match self.find(k) {
            Some(i) => {
                self.entries.set(i, (k, v));
                proof {
                    let s = self.entries@;
                    assert forall|x: int, y: int| 0 <= x < s.len() && 0 <= y < s.len() && x != y implies s[x].0
                        != s[y].0 by {
                        assert(o[x].0 != o[y].0);
                    }
                    assert forall|key: u32| #[trigger] has_key(s, key) <==> has_key(o, key) || key == k by {
                        if has_key(o, key) {
                            let j = key_index(o, key);
                            assert(s[j].0 == key);
                        }
                        if has_key(s, key) {
                            let j = key_index(s, key);
                            assert(o[j].0 == key);
                        }
                    }
                    assert forall|key: u32| has_key(s, key) implies #[trigger] entries_map(s)[key] == old(
                        self,
                    ).view().insert(k, v)[key] by {
                        let j = key_index(s, key);
                        lemma_index_unique(s, j);
                        if key != k {
                            lemma_index_unique(o, j);
                        }
                    }
                    assert(self.view() =~= old(self).view().insert(k, v));
                }
            },
            None => {
                self.entries.push((k, v));
                proof {
                    let s = self.entries@;
                    let n = o.len() as int;
                    assert forall|x: int, y: int| 0 <= x < s.len() && 0 <= y < s.len() && x != y implies s[x].0
                        != s[y].0 by {
                        if x == n {
                            assert(!has_key(o, k));
                            assert(o[y].0 != k);
                        } else if y == n {
                            assert(!has_key(o, k));
                            assert(o[x].0 != k);
                        } else {
                            assert(o[x].0 != o[y].0);
                        }
                    }
                    assert forall|key: u32| #[trigger] has_key(s, key) <==> has_key(o, key) || key == k by {
                        if has_key(o, key) {
                            let j = key_index(o, key);
                            assert(s[j].0 == key);
                        }
                        if key == k {
                            assert(s[n].0 == k);
                        }
                    }
                    assert forall|key: u32| has_key(s, key) implies #[trigger] entries_map(s)[key] == old(
                        self,
                    ).view().insert(k, v)[key] by {
                        let j = key_index(s, key);
                        lemma_index_unique(s, j);
                        if key != k {
                            assert(j != n);
                            lemma_index_unique(o, j);
                        }
                    }
                    assert(self.view() =~= old(self).view().insert(k, v));
                }
            },
        }
    }

    /// Removes the entry with this key and returns its value, if any.
    pub fn remove(&mut self, k: u32) -> (res: Option<V>)
        requires
            old(self).wf(),
        ensures
            final(self).wf(),
            final(self).view() == old(self).view().remove(k),
            res is None <==> !old(self).view().contains_key(k),
            res matches Some(v) ==> v == old(self).view()[k],
    {
        let ghost o = self.entries@;
        match self.find(k) {
            Some(i) => {
                proof {
                    lemma_index_unique(o, i as int);
                }
                let (_, v) = self.entries.remove(i);
                proof {
                    let s = self.entries@;
                    let ii = i as int;
                    assert forall|x: int| 0 <= x < s.len() implies #[trigger] s[x] == o[if x < ii {
                        x
                    } else {
                        x + 1
                    }] by {}
                    assert forall|x: int, y: int| 0 <= x < s.len() && 0 <= y < s.len() && x != y implies s[x].0
                        != s[y].0 by {
                        let ox = if x < ii { x } else { x + 1 };
                        let oy = if y < ii { y } else { y + 1 };
                        assert(s[x] == o[ox] && s[y] == o[oy]);
                        assert(o[ox].0 != o[oy].0);
                    }
                    assert forall|key: u32| #[trigger] has_key(s, key) <==> has_key(o, key) && key != k by {
                        if has_key(s, key) {
                            let j = key_index(s, key);
                            let oj = if j < ii { j } else { j + 1 };
                            assert(o[oj] == s[j]);
                            assert(oj != ii);
                            assert(o[oj].0 != o[ii].0);
                        }
                        if has_key(o, key) && key != k {
                            let j = key_index(o, key);
                            assert(j != ii);
                            let sj = if j < ii { j } else { j - 1 };
                            assert(s[sj] == o[j]);
                        }
                    }
                    assert forall|key: u32| has_key(s, key) implies #[trigger] entries_map(s)[key] == old(
                        self,
                    ).view().remove(k)[key] by {
                        let j = key_index(s, key);
                        lemma_index_unique(s, j);
                        let oj = if j < ii { j } else { j + 1 };
                        assert(o[oj] == s[j]);
                        lemma_index_unique(o, oj);
                    }
                    assert(self.view() =~= old(self).view().remove(k));
                }
                Some(v)
            },
            None => {
                assert(self.view() =~= old(self).view().remove(k));
                None
            },
        }
    }

    /// The largest key, if the table is not empty.
    pub fn max_key(&self) -> (res: Option<u32>)
        requires
            self.wf(),
        ensures
            res is None <==> self.view().dom() == Set::<u32>::empty(),
            res matches Some(m) ==> self.view().contains_key(m) && forall|k: u32|
                #[trigger] self.view().contains_key(k) ==> k <= m,
    {
        let mut best: Option<u32> = None;
        let mut i: usize = 0;
        while i < self.entries.len()
            invariant
                0 <= i <= self.entries@.len(),
                best is None <==> i == 0,
                best matches Some(m) ==> (exists|j: int| 0 <= j < i && self.entries@[j].0 == m)
                    && forall|j: int| 0 <= j < i ==> self.entries@[j].0 <= m,
            decreases self.entries@.len() - i,
        {
            let k = self.entries[i].0;
            match best {
                Some(m) => {
                    if k > m {
                        best = Some(k);
                    }
                },
                None => {
                    best = Some(k);
                },
            }
            i = i + 1;
        }
        proof {
            match best {
                Some(m) => {
                    let j = choose|j: int| 0 <= j < i && self.entries@[j].0 == m;
                    assert(has_key(self.entries@, m));
                    assert forall|k: u32| #[trigger] self.view().contains_key(k) implies k <= m by {
                        let x = key_index(self.entries@, k);
                        assert(self.entries@[x].0 <= m);
                    }
                    assert(self.view().dom().contains(m));
                },
                None => {
                    assert(self.view().dom() =~= Set::<u32>::empty());
                },
            }
        }
        best
    }
}

} // verus!
