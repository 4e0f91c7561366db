//! The open connections of a node's network layer: each under a random id,
//! with the peer's address and when it was last used, the least recently
//! used one dropped when the limit is reached.

use vstd::prelude::*;

use crate::address::NodeAddr;

verus! {

/// An open connection.
#[derive(Clone, Copy, Debug, PartialEq, Eq, Structural)]
pub struct ConnEntry {
    pub id: u64,
    pub addr: NodeAddr,
    /// When the connection was last used, in milliseconds.
    pub last_used: u64,
}

/// No two connections share an id.
pub open spec fn ids_distinct(s: Seq<ConnEntry>) -> bool {
    forall|i: int, j: int| 0 <= i < s.len() && 0 <= j < s.len() && i != j ==> s[i].id != s[j].id
}

/// Whether a connection has this id.
pub open spec fn has_id(s: Seq<ConnEntry>, id: u64) -> bool {
    exists|i: int| 0 <= i < s.len() && s[i].id == id
}

/// The position of the connection with this id.
pub open spec fn id_index(s: Seq<ConnEntry>, id: u64) -> int {
    choose|i: int| 0 <= i < s.len() && s[i].id == id
}

/// The connections without the one with this id.
pub open spec fn without_id(s: Seq<ConnEntry>, id: u64) -> Seq<ConnEntry> {
    if has_id(s, id) {
        s.remove(id_index(s, id))
    } else {
        s
    }
}

/// A random id for a new connection: `rand::random::<u64>()`, which draws
/// from the thread-local generator; nothing is claimed of the value.
#[verifier::external_body]
fn random_conn_id() -> (id: u64) {
    rand::random::<u64>()
}

/// The open connections and their limit.
#[derive(Debug)]
pub struct ConnTable {
    pub entries: Vec<ConnEntry>,
    pub max_conns: usize,
}

impl ConnTable {
    /// No two connections share an id.
    pub open spec fn wf(&self) -> bool {
        ids_distinct(self.entries@)
    }

    /// No connection, at most `max_conns` of them.
    pub fn new(max_conns: usize) -> (t: ConnTable)
        ensures
            t.wf(),
            t.entries@.len() == 0,
            t.max_conns == max_conns,
    {
        ConnTable { entries: Vec::new(), max_conns }
    }

    /// The position of the connection with this id, if any.
    fn find_id(&self, id: u64) -> (res: Option<usize>)
        requires
            self.wf(),
        ensures
            res is None <==> !has_id(self.entries@, id),
            res matches Some(i) ==> i == id_index(self.entries@, id) && i < self.entries@.len(),
    {
        let mut i: usize = 0;
        while i < self.entries.len()
            invariant
                self.wf(),
                0 <= i <= self.entries@.len(),
                forall|j: int| 0 <= j < i ==> self.entries@[j].id != id,
            decreases self.entries@.len() - i,
        {
            if self.entries[i].id == id {
                proof {
                    let k = id_index(self.entries@, id);
                    assert(self.entries@[k].id == id);
                    if k != i as int {
                        assert(self.entries@[k].id != self.entries@[i as int].id);
                    }
                }
                return Some(i);
            }
            i = i + 1;
        }
        None
    }

    /// Removes the connection with this id and returns it, if any.
    pub fn remove(&mut self, id: u64) -> (res: Option<ConnEntry>)
        requires
            old(self).wf(),
        ensures
            final(self).wf(),
            final(self).max_conns == old(self).max_conns,
            final(self).entries@ == without_id(old(self).entries@, id),
            res is None <==> !has_id(old(self).entries@, id),
            res matches Some(e) ==> e == old(self).entries@[id_index(old(self).entries@, id)],
    {
        match self.find_id(id) {
            Some(i) => {
                let e = self.entries.remove(i);
                proof {
                    let s = self.entries@;
                    let o = old(self).entries@;
                    assert forall|x: int, y: int| 0 <= x < s.len() && 0 <= y < s.len() && x != y implies s[x].id
                        != s[y].id by {
                        let ox = if x < i { x } else { x + 1 };
                        let oy = if y < i { y } else { y + 1 };
                        assert(s[x] == o[ox] && s[y] == o[oy]);
                    }
                }
                Some(e)
            },
            None => None,
        }
    }

    /// Finds a connection to `addr` to reuse and marks it used at `now`;
    /// `None` when there is none.
    pub fn find_by_addr(&mut self, addr: NodeAddr, now: u64) -> (res: Option<u64>)
        requires
            old(self).wf(),
        ensures
            final(self).wf(),
            final(self).max_conns == old(self).max_conns,
            res is None <==> forall|i: int|
                0 <= i < old(self).entries@.len() ==> #[trigger] old(self).entries@[i].addr != addr,
            res is None ==> final(self).entries@ == old(self).entries@,
            res matches Some(id) ==> exists|i: int|
                0 <= i < old(self).entries@.len() && #[trigger] old(self).entries@[i].addr == addr
                    && old(self).entries@[i].id == id && final(self).entries@ == old(
                    self,
                ).entries@.update(i, ConnEntry { last_used: now, ..old(self).entries@[i] }),
    {
        let mut i: usize = 0;
        while i < self.entries.len()
            invariant
                0 <= i <= self.entries@.len(),
                *self == *old(self),
                self.wf(),
                forall|j: int| 0 <= j < i ==> #[trigger] self.entries@[j].addr != addr,
            decreases self.entries@.len() - i,
        {
            if self.entries[i].addr == addr {
                let e = self.entries[i];
                self.entries.set(i, ConnEntry { last_used: now, ..e });
                proof {
                    let s = self.entries@;
                    let o = old(self).entries@;
                    assert forall|x: int, y: int| 0 <= x < s.len() && 0 <= y < s.len() && x != y implies s[x].id
                        != s[y].id by {
                        assert(o[x].id != o[y].id);
                    }
                    assert(o[i as int].addr == addr);
                }
                return Some(e.id);
            }
            i = i + 1;
        }
        None
    }

    /// Drops a least recently used connection and returns it; `None` when
    /// there is no connection.
    pub fn remove_last_recently_used(&mut self) -> (res: Option<ConnEntry>)
        requires
            old(self).wf(),
        ensures
            final(self).wf(),
            final(self).max_conns == old(self).max_conns,
            old(self).entries@.len() == 0 ==> res is None && final(self).entries@ == old(
                self,
            ).entries@,
            old(self).entries@.len() > 0 ==> res is Some,
            res matches Some(e) ==> {
                &&& has_id(old(self).entries@, e.id)
                &&& e == old(self).entries@[id_index(old(self).entries@, e.id)]
                &&& forall|j: int|
                    0 <= j < old(self).entries@.len() ==> e.last_used
                        <= #[trigger] old(self).entries@[j].last_used
                &&& final(self).entries@ == without_id(old(self).entries@, e.id)
            },
    {
        if self.entries.len() == 0 {
            return None;
        }
        let mut best: usize = 0;
        let mut i: usize = 1;
        while i < self.entries.len()
            invariant
                1 <= i <= self.entries@.len(),
                best < i,
                forall|j: int| 0 <= j < i ==> self.entries@[best as int].last_used
                    <= #[trigger] self.entries@[j].last_used,
            decreases self.entries@.len() - i,
        {
            if self.entries[i].last_used < self.entries[best].last_used {
                best = i;
            }
            i = i + 1;
        }
        let id = self.entries[best].id;
        proof {
            assert(has_id(self.entries@, id));
            let k = id_index(self.entries@, id);
            if k != best as int {
                assert(self.entries@[k].id != self.entries@[best as int].id);
            }
        }
        self.remove(id)
    }

    /// At the limit, drops a least recently used connection and returns it;
    /// below it, nothing changes.
    pub fn evict_lru_if_full(&mut self) -> (res: Option<ConnEntry>)
        requires
            old(self).wf(),
        ensures
            final(self).wf(),
            final(self).max_conns == old(self).max_conns,
            (old(self).entries@.len() < old(self).max_conns || old(self).entries@.len() == 0)
                ==> res is None && final(self).entries@ == old(self).entries@,
            (old(self).entries@.len() >= old(self).max_conns && old(self).entries@.len() > 0)
                ==> res is Some,
            res matches Some(e) ==> {
                &&& has_id(old(self).entries@, e.id)
                &&& e == old(self).entries@[id_index(old(self).entries@, e.id)]
                &&& forall|j: int|
                    0 <= j < old(self).entries@.len() ==> e.last_used
                        <= #[trigger] old(self).entries@[j].last_used
                &&& final(self).entries@ == without_id(old(self).entries@, e.id)
            },
    {
        if self.entries.len() < self.max_conns {
            return None;
        }
        self.remove_last_recently_used()
    }

    /// Records a new connection to `addr`, used at `now`, under a random id,
    /// which is returned; a connection that had the same id is replaced.
    pub fn register(&mut self, addr: NodeAddr, now: u64) -> (id: u64)
        requires
            old(self).wf(),
        ensures
            final(self).wf(),
            final(self).max_conns == old(self).max_conns,
            final(self).entries@ == without_id(old(self).entries@, id).push(
                ConnEntry { id, addr, last_used: now },
            ),
    {
        let id = random_conn_id();
        let _ = self.remove(id);
        let ghost before = self.entries@;
        proof {
            assert(!has_id(before, id)) by {
                if has_id(before, id) {
                    let k = id_index(before, id);
                    let o = old(self).entries@;
                    let ok = id_index(o, id);
                    let x = if k < ok { k } else { k + 1 };
                    assert(before[k] == o[x]);
                    assert(o[x].id == id && x != ok);
                }
            }
        }
        self.entries.push(ConnEntry { id, addr, last_used: now });
        proof {
            let s = self.entries@;
            assert forall|x: int, y: int| 0 <= x < s.len() && 0 <= y < s.len() && x != y implies s[x].id
                != s[y].id by {
                if x == before.len() {
                    assert(before[y].id != id);
                } else if y == before.len() {
                    assert(before[x].id != id);
                }
            }
        }
        id
    }

    /// The number of open connections.
    pub fn len(&self) -> (n: usize)
        ensures
            n == self.entries@.len(),
    {
        self.entries.len()
    }
}

} // verus!
