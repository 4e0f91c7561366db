//! Cluster membership: node ids and their addresses, in the order nodes
//! became known.

use vstd::prelude::*;

use crate::address::NodeAddr;

verus! {

/// Whether a member with this id is listed.
pub open spec fn cluster_has(s: Seq<(u64, NodeAddr)>, id: u64) -> bool {
    exists|i: int| 0 <= i < s.len() && s[i].0 == id
}

/// The position of the member with this id.
pub open spec fn cluster_index(s: Seq<(u64, NodeAddr)>, id: u64) -> int {
    choose|i: int| 0 <= i < s.len() && s[i].0 == id
}

/// No two members share an id.
pub open spec fn cluster_wf(s: Seq<(u64, NodeAddr)>) -> bool {
    forall|i: int, j: int| 0 <= i < s.len() && 0 <= j < s.len() && i != j ==> s[i].0 != s[j].0
}

/// The members with `(id, addr)` recorded: the address replaced when the id
/// is known, the member appended otherwise.
pub open spec fn cluster_insert(s: Seq<(u64, NodeAddr)>, id: u64, addr: NodeAddr) -> Seq<
    (u64, NodeAddr),
> {
    if cluster_has(s, id) {
        s.update(cluster_index(s, id), (id, addr))
    } else {
        s.push((id, addr))
    }
}

/// The members without the one with this id.
pub open spec fn cluster_remove(s: Seq<(u64, NodeAddr)>, id: u64) -> Seq<(u64, NodeAddr)> {
    if cluster_has(s, id) {
        s.remove(cluster_index(s, id))
    } else {
        s
    }
}

/// The members recorded one after the other, starting from none.
pub open spec fn cluster_from(members: Seq<(u64, NodeAddr)>) -> Seq<(u64, NodeAddr)>
    decreases members.len(),
{
    if members.len() == 0 {
        Seq::empty()
    } else {
        cluster_insert(cluster_from(members.drop_last()), members.last().0, members.last().1)
    }
}

/// A test on a member.
pub enum Pick {
    /// Its id differs from this one.
    IdOtherThan(u64),
    /// Its id is above this one.
    IdAbove(u64),
    /// Its address differs from this one.
    AddrOtherThan(NodeAddr),
    /// Its address differs from both.
    AddrOtherThan2(NodeAddr, NodeAddr),
    /// Its address is this one.
    AddrIs(NodeAddr),
}

/// Whether the member passes the test.
pub open spec fn picks(p: Pick, e: (u64, NodeAddr)) -> bool {
    match p {
        Pick::IdOtherThan(id) => e.0 != id,
        Pick::IdAbove(id) => e.0 > id,
        Pick::AddrOtherThan(a) => e.1 != a,
        Pick::AddrOtherThan2(a, b) => e.1 != a && e.1 != b,
        Pick::AddrIs(a) => e.1 == a,
    }
}

/// The addresses of the members that satisfy `p`, in order.
pub open spec fn addrs_where(s: Seq<(u64, NodeAddr)>, p: Pick) -> Seq<
    NodeAddr,
>
    decreases s.len(),
{
    if s.len() == 0 {
        Seq::empty()
    } else {
        let r = addrs_where(s.drop_last(), p);
        if picks(p, s.last()) {
            r.push(s.last().1)
        } else {
            r
        }
    }
}

/// The members that do not satisfy `p`, in order.
pub open spec fn drop_where(s: Seq<(u64, NodeAddr)>, p: Pick) -> Seq<
    (u64, NodeAddr),
>
    decreases s.len(),
{
    if s.len() == 0 {
        Seq::empty()
    } else {
        let r = drop_where(s.drop_last(), p);
        if picks(p, s.last()) {
            r
        } else {
            r.push(s.last())
        }
    }
}

/// The addresses of the members other than `id`.
pub open spec fn peers_of(s: Seq<(u64, NodeAddr)>, id: u64) -> Seq<NodeAddr> {
    addrs_where(s, Pick::IdOtherThan(id))
}

/// The addresses of the members with an id above `id`.
pub open spec fn higher_than(s: Seq<(u64, NodeAddr)>, id: u64) -> Seq<NodeAddr> {
    addrs_where(s, Pick::IdAbove(id))
}

/// The addresses other than `a`.
pub open spec fn addrs_other_than(s: Seq<(u64, NodeAddr)>, a: NodeAddr) -> Seq<NodeAddr> {
    addrs_where(s, Pick::AddrOtherThan(a))
}

/// The addresses other than `a` and `b`.
pub open spec fn addrs_other_than2(s: Seq<(u64, NodeAddr)>, a: NodeAddr, b: NodeAddr) -> Seq<
    NodeAddr,
> {
    addrs_where(s, Pick::AddrOtherThan2(a, b))
}

/// One more member in the prefix adds its address when it satisfies `p`.
pub proof fn lemma_addrs_where_step(
    s: Seq<(u64, NodeAddr)>,
    i: int,
    p: Pick,
)
    requires
        0 <= i < s.len(),
    ensures
        addrs_where(s.take(i + 1), p) == if picks(p, s[i]) {
            addrs_where(s.take(i), p).push(s[i].1)
        } else {
            addrs_where(s.take(i), p)
        },
{
    assert(s.take(i + 1).drop_last() =~= s.take(i));
    assert(s.take(i + 1).last() == s[i]);
}

/// One more member in the prefix is kept when it does not satisfy `p`.
pub proof fn lemma_drop_where_step(
    s: Seq<(u64, NodeAddr)>,
    i: int,
    p: Pick,
)
    requires
        0 <= i < s.len(),
    ensures
        drop_where(s.take(i + 1), p) == if picks(p, s[i]) {
            drop_where(s.take(i), p)
        } else {
            drop_where(s.take(i), p).push(s[i])
        },
{
    assert(s.take(i + 1).drop_last() =~= s.take(i));
    assert(s.take(i + 1).last() == s[i]);
}

/// Cluster membership.
#[derive(Debug)]
pub struct Cluster {
    pub members: Vec<(u64, NodeAddr)>,
}

impl Cluster {
    /// The members, in order.
    pub open spec fn view(&self) -> Seq<(u64, NodeAddr)> {
        self.members@
    }

    /// No two members share an id.
    pub open spec fn wf(&self) -> bool {
        cluster_wf(self.members@)
    }

    /// A cluster with one member.
    pub fn single(id: u64, addr: NodeAddr) -> (c: Cluster)
        ensures
            c.wf(),
            c.view() == seq![(id, addr)],
    {
        let mut members: Vec<(u64, NodeAddr)> = Vec::new();
        members.push((id, addr));
        assert(members@ =~= seq![(id, addr)]);
        Cluster { members }
    }

    /// The number of members.
    pub fn len(&self) -> (n: usize)
        ensures
            n == self.view().len(),
    {
        self.members.len()
    }

    /// The position of the member with this id, if listed.
    fn find(&self, id: u64) -> (res: Option<usize>)
        requires
            self.wf(),
        ensures
            res is None <==> !cluster_has(self.view(), id),
            res matches Some(i) ==> i == cluster_index(self.view(), id) && i < self.view().len(),
    {
        let mut i: usize = 0;
        while i < self.members.len()
            invariant
                self.wf(),
                0 <= i <= self.members@.len(),
                forall|j: int| 0 <= j < i ==> self.members@[j].0 != id,
            decreases self.members@.len() - i,
        {
            if self.members[i].0 == id {
                proof {
                    let k = cluster_index(self.view(), id);
                    assert(self.members@[k].0 == id);
                    if k != i as int {
                        assert(self.members@[k].0 != self.members@[i as int].0);
                    }
                }
                return Some(i);
            }
            i = i + 1;
        }
        None
    }

    /// Whether a member with this id is listed.
    pub fn contains_key(&self, id: u64) -> (b: bool)
        requires
            self.wf(),
        ensures
            b == cluster_has(self.view(), id),
    {
        self.find(id).is_some()
    }

    /// Records `(id, addr)`.
    pub fn insert(&mut self, id: u64, addr: NodeAddr)
        requires
            old(self).wf(),
        ensures
            final(self).wf(),
            final(self).view() == cluster_insert(old(self).view(), id, addr),
    {
        match self.find(id) {
            Some(i) => {
                self.members.set(i, (id, addr));
            },
            None => {
                self.members.push((id, addr));
                proof {
                    let s = self.members@;
                    assert forall|i: int, j: int| 0 <= i < s.len() && 0 <= j < s.len() && i != j implies s[i].0
                        != s[j].0 by {
                        if i == s.len() - 1 {
                            assert(old(self).members@[j].0 != id);
                        } else if j == s.len() - 1 {
                            assert(old(self).members@[i].0 != id);
                        } else {
                            assert(s[i] == old(self).members@[i] && s[j] == old(self).members@[j]);
                        }
                    }
                }
            },
        }
    }

    /// Removes the member with this id; returns its address if it was listed.
    pub fn remove(&mut self, id: u64) -> (res: Option<NodeAddr>)
        requires
            old(self).wf(),
        ensures
            final(self).wf(),
            final(self).view() == cluster_remove(old(self).view(), id),
            res is Some <==> cluster_has(old(self).view(), id),
    {
        match self.find(id) {
            Some(i) => {
                let (_, a) = self.members.remove(i);
                proof {
                    let s = self.members@;
                    let o = old(self).members@;
                    assert forall|x: int, y: int| 0 <= x < s.len() && 0 <= y < s.len() && x != y implies s[x].0
                        != s[y].0 by {
                        let ox = if x < i { x } else { x + 1 };
                        let oy = if y < i { y } else { y + 1 };
                        assert(s[x] == o[ox] && s[y] == o[oy]);
                    }
                }
                Some(a)
            },
            None => None,
        }
    }

    /// Removes every member listed with this address.
    pub fn retain_addr_ne(&mut self, addr: NodeAddr)
        requires
            old(self).wf(),
        ensures
            final(self).wf(),
            final(self).view() == drop_where(old(self).view(), Pick::AddrIs(addr)),
    {
        let ghost p = Pick::AddrIs(addr);
        let ghost s = self.members@;
        let ghost mut idx: Seq<int> = Seq::empty();
        let mut kept: Vec<(u64, NodeAddr)> = Vec::new();
        let mut i: usize = 0;
        while i < self.members.len()
            invariant
                p == Pick::AddrIs(addr),
                s == self.members@,
                cluster_wf(s),
                0 <= i <= s.len(),
                kept@ == drop_where(s.take(i as int), p),
                idx.len() == kept@.len(),
                forall|k: int| 0 <= k < idx.len() ==> 0 <= #[trigger] idx[k] < i && s[idx[k]] == kept@[k],
                forall|k: int, l: int| 0 <= k < l < idx.len() ==> #[trigger] idx[k] < #[trigger] idx[l],
            decreases s.len() - i,
        {
            proof {
                lemma_drop_where_step(s, i as int, p);
            }
            let e = self.members[i];
            if e.1 != addr {
                kept.push(e);
                proof {
                    idx = idx.push(i as int);
                }
            }
            i = i + 1;
        }
        proof {
            assert(s.take(s.len() as int) =~= s);
            assert forall|x: int, y: int| 0 <= x < kept@.len() && 0 <= y < kept@.len() && x != y implies kept@[x].0
                != kept@[y].0 by {
                assert(idx[x] != idx[y]);
                assert(s[idx[x]] == kept@[x] && s[idx[y]] == kept@[y]);
            }
        }
        self.members = kept;
    }

    /// Replaces the members with `members`, recorded one after the other.
    pub fn reset_to(&mut self, members: &Vec<(u64, NodeAddr)>)
        ensures
            final(self).wf(),
            final(self).view() == cluster_from(members@),
    {
        self.members = Vec::new();
        let mut i: usize = 0;
        while i < members.len()
            invariant
                0 <= i <= members@.len(),
                self.wf(),
                self.view() == cluster_from(members@.take(i as int)),
            decreases members@.len() - i,
        {
            let (id, addr) = members[i];
            proof {
                let t = members@.take(i as int + 1);
                assert(t.drop_last() =~= members@.take(i as int));
                assert(t.last() == members@[i as int]);
            }
            self.insert(id, addr);
            i = i + 1;
        }
        proof {
            assert(members@.take(members@.len() as int) =~= members@);
        }
    }

    /// A copy of the members.
    pub fn to_vec(&self) -> (v: Vec<(u64, NodeAddr)>)
        ensures
            v@ == self.view(),
    {
        let mut v: Vec<(u64, NodeAddr)> = Vec::new();
        let mut i: usize = 0;
        while i < self.members.len()
            invariant
                0 <= i <= self.members@.len(),
                v@ == self.members@.take(i as int),
            decreases self.members@.len() - i,
        {
            v.push(self.members[i]);
            i = i + 1;
            assert(v@ =~= self.members@.take(i as int));
        }
        assert(self.members@.take(self.members@.len() as int) =~= self.members@);
        v
    }

    /// The addresses of the members other than `id`.
    pub fn peers_of(&self, id: u64) -> (v: Vec<NodeAddr>)
        ensures
            v@ == peers_of(self.view(), id),
    {
        let ghost p = Pick::IdOtherThan(id);
        let mut v: Vec<NodeAddr> = Vec::new();
        let mut i: usize = 0;
        while i < self.members.len()
            invariant
                p == Pick::IdOtherThan(id),
                0 <= i <= self.members@.len(),
                v@ == addrs_where(self.members@.take(i as int), p),
            decreases self.members@.len() - i,
        {
            proof {
                lemma_addrs_where_step(self.members@, i as int, p);
            }
            if self.members[i].0 != id {
                v.push(self.members[i].1);
            }
            i = i + 1;
        }
        assert(self.members@.take(self.members@.len() as int) =~= self.members@);
        v
    }

    /// The addresses of the members with an id above `id`.
    pub fn higher_than(&self, id: u64) -> (v: Vec<NodeAddr>)
        ensures
            v@ == higher_than(self.view(), id),
    {
        let ghost p = Pick::IdAbove(id);
        let mut v: Vec<NodeAddr> = Vec::new();
        let mut i: usize = 0;
        while i < self.members.len()
            invariant
                p == Pick::IdAbove(id),
                0 <= i <= self.members@.len(),
                v@ == addrs_where(self.members@.take(i as int), p),
            decreases self.members@.len() - i,
        {
            proof {
                lemma_addrs_where_step(self.members@, i as int, p);
            }
            if self.members[i].0 > id {
                v.push(self.members[i].1);
            }
            i = i + 1;
        }
        assert(self.members@.take(self.members@.len() as int) =~= self.members@);
        v
    }

    /// The member addresses other than `a`.
    pub fn addrs_other_than(&self, a: NodeAddr) -> (v: Vec<NodeAddr>)
        ensures
            v@ == addrs_other_than(self.view(), a),
    {
        let ghost p = Pick::AddrOtherThan(a);
        let mut v: Vec<NodeAddr> = Vec::new();
        let mut i: usize = 0;
        while i < self.members.len()
            invariant
                p == Pick::AddrOtherThan(a),
                0 <= i <= self.members@.len(),
                v@ == addrs_where(self.members@.take(i as int), p),
            decreases self.members@.len() - i,
        {
            proof {
                lemma_addrs_where_step(self.members@, i as int, p);
            }
            if self.members[i].1 != a {
                v.push(self.members[i].1);
            }
            i = i + 1;
        }
        assert(self.members@.take(self.members@.len() as int) =~= self.members@);
        v
    }

    /// The member addresses other than `a` and `b`.
    pub fn addrs_other_than2(&self, a: NodeAddr, b: NodeAddr) -> (v: Vec<NodeAddr>)
        ensures
            v@ == addrs_other_than2(self.view(), a, b),
    {
        let ghost p = Pick::AddrOtherThan2(a, b);
        let mut v: Vec<NodeAddr> = Vec::new();
        let mut i: usize = 0;
        while i < self.members.len()
            invariant
                p == Pick::AddrOtherThan2(a, b),
                0 <= i <= self.members@.len(),
                v@ == addrs_where(self.members@.take(i as int), p),
            decreases self.members@.len() - i,
        {
            proof {
                lemma_addrs_where_step(self.members@, i as int, p);
            }
            if self.members[i].1 != a && self.members[i].1 != b {
                v.push(self.members[i].1);
            }
            i = i + 1;
        }
        assert(self.members@.take(self.members@.len() as int) =~= self.members@);
        v
    }
}

} // verus!
