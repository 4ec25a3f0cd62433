use vstd::prelude::*;

use crate::ast::RegWidth;

verus! {

/// The register class of a virtual register.
#[derive(Debug, Clone, Copy, PartialEq, Eq, Hash, Structural)]
pub enum VRegType {
    Int,
    Float,
}

/// A virtual register.
#[derive(Debug, Clone, Copy, PartialEq, Eq, Hash, Structural)]
pub struct VReg {
    pub id: usize,
    pub ty: VRegType,
    pub width: RegWidth,
}

impl VReg {
    /// Whether this register holds integers or addresses.
    pub fn is_gpr(&self) -> (r: bool)
        ensures
            r <==> self.ty == VRegType::Int,
    {
        self.ty == VRegType::Int
    }

    /// Whether this register holds floating-point values.
    pub fn is_fpr(&self) -> (r: bool)
        ensures
            r <==> self.ty == VRegType::Float,
    {
        self.ty == VRegType::Float
    }
}

/// An undirected graph over virtual registers: an edge joins two registers that are
/// live at the same time.
#[derive(Debug)]
pub struct InterferenceGraph {
    pub adj: Vec<(VReg, Vec<VReg>)>,
}

pub open spec fn list_set(l: Seq<VReg>) -> Set<VReg> {
    l.to_set()
}

impl InterferenceGraph {
    /// Whether `v` is a node of the graph.
    pub open spec fn has(self, v: VReg) -> bool {
        exists|i: int| 0 <= i < self.adj@.len() && self.adj@[i].0 == v
    }

    pub open spec fn key_index(self, v: VReg) -> int {
        choose|i: int| 0 <= i < self.adj@.len() && self.adj@[i].0 == v
    }

    /// Each node with the set of its neighbors.
    pub open spec fn view(self) -> Map<VReg, Set<VReg>> {
        Map::new(|v: VReg| self.has(v), |v: VReg| self.adj@[self.key_index(v)].1@.to_set())
    }

    /// The representation invariant: one entry per node, no repeated neighbor, no
    /// self-loop, and every edge recorded at both ends.
    pub open spec fn wf(self) -> bool {
        &&& forall|i: int, j: int|
            0 <= i < self.adj@.len() && 0 <= j < self.adj@.len() && i != j ==> self.adj@[i].0
                != self.adj@[j].0
        &&& forall|i: int| 0 <= i < self.adj@.len() ==> (#[trigger] self.adj@[i]).1@.no_duplicates()
        &&& forall|u: VReg, v: VReg|
            #![trigger self@[u].contains(v)]
            self@.dom().contains(u) && self@[u].contains(v) ==> u != v && self@.dom().contains(v)
                && self@[v].contains(u)
    }

    pub proof fn lemma_key_index(self, i: int)
        requires
            self.wf(),
            0 <= i < self.adj@.len(),
        ensures
            self.has(self.adj@[i].0),
            self.key_index(self.adj@[i].0) == i,
            self@[self.adj@[i].0] == self.adj@[i].1@.to_set(),
    {
        let v = self.adj@[i].0;
        assert(self.has(v));
    }

    /// Position of `v`'s entry.
    fn find(&self, v: VReg) -> (r: Option<usize>)
        requires
            self.wf(),
        ensures
            r is None <==> !self.has(v),
            r matches Some(i) ==> i < self.adj@.len() && self.adj@[i as int].0 == v
                && self.key_index(v) == i,
    {
        let mut i: usize = 0;
        while i < self.adj.len()
            invariant
                i <= self.adj@.len(),
                self.wf(),
                forall|j: int| 0 <= j < i ==> self.adj@[j].0 != v,
            decreases self.adj@.len() - i,
        {
            if self.adj[i].0 == v {
                proof {
                    self.lemma_key_index(i as int);
                }
                return Some(i);
            }
            i = i + 1;
        }
        None
    }

    /// The empty graph.
    pub fn new() -> (g: InterferenceGraph)
        ensures
            g.wf(),
            g@ == Map::<VReg, Set<VReg>>::empty(),
    {
        let g = InterferenceGraph { adj: Vec::new() };
        assert(g@ =~= Map::<VReg, Set<VReg>>::empty());
        g
    }

    /// Adds `vreg` as a node, keeping its neighbors if it is already there.
    pub fn add_node(&mut self, vreg: VReg)
        requires
            old(self).wf(),
        ensures
            final(self).wf(),
            final(self)@ == (if old(self)@.dom().contains(vreg) {
                old(self)@
            } else {
                old(self)@.insert(vreg, Set::empty())
            }),
    {
        if self.find(vreg).is_none() {
            let ghost old_g = *self;
            self.adj.push((vreg, Vec::new()));
            proof {
                let g = *self;
                assert forall|i: int| 0 <= i < old_g.adj@.len() implies g.adj@[i] == old_g.adj@[i] by {}
                assert forall|u: VReg| #[trigger] g.has(u) <==> old_g.has(u) || u == vreg by {
                    if old_g.has(u) {
                        let i = old_g.key_index(u);
                        assert(g.adj@[i].0 == u);
                    }
                    if u == vreg {
                        assert(g.adj@[old_g.adj@.len() as int].0 == u);
                    }
                }
                assert forall|u: VReg| #[trigger] g.has(u) implies g@[u] == (if u == vreg {
                    Set::<VReg>::empty()
                } else {
                    old_g@[u]
                }) by {
                    let k = g.key_index(u);
                    g.lemma_key_index_raw(k);
                    if u == vreg {
                        assert(g.adj@[k].1@ =~= Seq::<VReg>::empty());
                    } else {
                        old_g.lemma_key_index(k);
                    }
                }
                assert(g@ =~= old_g@.insert(vreg, Set::empty()));
            }
        }
    }

    /// Adds an undirected edge between two distinct registers, adding them as nodes first.
    pub fn add_edge(&mut self, v1: VReg, v2: VReg)
        requires
            old(self).wf(),
        ensures
            final(self).wf(),
            v1 == v2 ==> final(self)@ == old(self)@,
            v1 != v2 ==> {
                let g1 = if old(self)@.dom().contains(v1) {
                    old(self)@
                } else {
                    old(self)@.insert(v1, Set::empty())
                };
                let g2 = if g1.dom().contains(v2) {
                    g1
                } else {
                    g1.insert(v2, Set::empty())
                };
                final(self)@ == g2.insert(v1, g2[v1].insert(v2)).insert(v2, g2[v2].insert(v1))
            },
    {
        if v1 == v2 {
            return;
        }
        self.add_node(v1);
        self.add_node(v2);
        proof {
            assert(self@.dom().contains(v1));
            assert(self@.dom().contains(v2));
        }
        let ghost g = *self;
        let mut out: Vec<(VReg, Vec<VReg>)> = Vec::new();
        let mut i: usize = 0;
        while i < self.adj.len()
            invariant
                *self == g,
                g.wf(),
                v1 != v2,
                g.has(v1),
                g.has(v2),
                i <= g.adj@.len(),
                out@.len() == i,
                forall|j: int|
                    #![trigger out@[j]]
                    0 <= j < i ==> out@[j].0 == g.adj@[j].0 && out@[j].1@.no_duplicates()
                        && out@[j].1@.to_set() == (if g.adj@[j].0 == v1 {
                        g.adj@[j].1@.to_set().insert(v2)
                    } else if g.adj@[j].0 == v2 {
                        g.adj@[j].1@.to_set().insert(v1)
                    } else {
                        g.adj@[j].1@.to_set()
                    }),
            decreases g.adj@.len() - i,
        {
            let k = self.adj[i].0;
            let mut l = copy_list(&self.adj[i].1);
            proof {
                assert(g.adj@[i as int].1@.no_duplicates());
            }
            if k == v1 {
                if !list_contains(&l, v2) {
                    let ghost before = l@;
                    l.push(v2);
                    proof {
                        before.lemma_push_to_set_commute(v2);
                        assert(l@ == before.push(v2));
                        assert forall|p: int, q: int| 0 <= p < l@.len() && 0 <= q < l@.len() && p != q implies l@[p] != l@[q] by {
                            if p == before.len() {
                                assert(before.contains(l@[q]));
                            } else if q == before.len() {
                                assert(before.contains(l@[p]));
                            }
                        }
                    }
                } else {
                    proof {
                        assert(l@.to_set() =~= g.adj@[i as int].1@.to_set().insert(v2));
                    }
                }
            } else if k == v2 {
                if !list_contains(&l, v1) {
                    let ghost before = l@;
                    l.push(v1);
                    proof {
                        before.lemma_push_to_set_commute(v1);
                        assert(l@ == before.push(v1));
                        assert forall|p: int, q: int| 0 <= p < l@.len() && 0 <= q < l@.len() && p != q implies l@[p] != l@[q] by {
                            if p == before.len() {
                                assert(before.contains(l@[q]));
                            } else if q == before.len() {
                                assert(before.contains(l@[p]));
                            }
                        }
                    }
                } else {
                    proof {
                        assert(l@.to_set() =~= g.adj@[i as int].1@.to_set().insert(v1));
                    }
                }
            }
            out.push((k, l));
            i = i + 1;
        }
        self.adj = out;
        proof {
            let n = *self;
            assert forall|u: VReg| #[trigger] n.has(u) <==> g.has(u) by {
                if n.has(u) {
                    let k = n.key_index(u);
                    assert(g.adj@[k].0 == u);
                }
                if g.has(u) {
                    let k = g.key_index(u);
                    assert(n.adj@[k].0 == u);
                }
            }
            assert forall|u: VReg| #[trigger] n.has(u) implies n@[u] == (if u == v1 {
                g@[u].insert(v2)
            } else if u == v2 {
                g@[u].insert(v1)
            } else {
                g@[u]
            }) by {
                let k = n.key_index(u);
                n.lemma_key_index_raw(k);
                g.lemma_key_index(k);
            }
            assert(n@ =~= g@.insert(v1, g@[v1].insert(v2)).insert(v2, g@[v2].insert(v1)));
            assert forall|a: int, b: int|
                0 <= a < n.adj@.len() && 0 <= b < n.adj@.len() && a != b implies n.adj@[a].0
                != n.adj@[b].0 by {}
            assert forall|a: int| 0 <= a < n.adj@.len() implies (#[trigger] n.adj@[a]).1@.no_duplicates() by {}
        }
    }

    /// The neighbors of `vreg`, each listed once.
    pub fn neighbors(&self, vreg: &VReg) -> (r: &Vec<VReg>)
        requires
            self.wf(),
            self@.dom().contains(*vreg),
        ensures
            r@.to_set() == self@[*vreg],
            r@.no_duplicates(),
    {
        let i = self.find(*vreg).unwrap();
        proof {
            self.lemma_key_index(i as int);
        }
        &self.adj[i].1
    }

    /// The number of neighbors of `vreg`.
    pub fn degree(&self, vreg: &VReg) -> (r: usize)
        requires
            self.wf(),
            self@.dom().contains(*vreg),
        ensures
            r == self@[*vreg].len(),
    {
        let n = self.neighbors(vreg);
        proof {
            n@.unique_seq_to_set();
        }
        n.len()
    }

    /// Removes `vreg` and every edge that touches it.
    pub fn remove_node(&mut self, vreg: &VReg)
        requires
            old(self).wf(),
        ensures
            final(self).wf(),
            final(self)@ == Map::new(
                |u: VReg| old(self)@.dom().contains(u) && u != *vreg,
                |u: VReg| old(self)@[u].remove(*vreg),
            ),
            old(self)@.dom().contains(*vreg) ==> final(self).adj@.len() < old(self).adj@.len(),
            final(self).adj@.len() <= old(self).adj@.len(),
    {
        let ghost g = *self;
        let v = *vreg;
        let mut out: Vec<(VReg, Vec<VReg>)> = Vec::new();
        let ghost mut pos: Seq<int> = Seq::empty();
        let mut i: usize = 0;
        while i < self.adj.len()
            invariant
                *self == g,
                g.wf(),
                i <= g.adj@.len(),
                pos.len() == out@.len(),
                pos.len() <= i,
                (exists|kk: int| 0 <= kk < i && g.adj@[kk].0 == v) ==> pos.len() < i,
                forall|j: int| 0 <= j < pos.len() ==> 0 <= #[trigger] pos[j] < i,
                forall|j: int, k: int| 0 <= j < k < pos.len() ==> pos[j] < pos[k],
                forall|j: int|
                    #![trigger out@[j]]
                    0 <= j < out@.len() ==> out@[j].0 == g.adj@[pos[j]].0 && out@[j].0 != v
                        && out@[j].1@.no_duplicates() && out@[j].1@.to_set() == g.adj@[pos[
                        j]].1@.to_set().remove(v),
                forall|k: int| 0 <= k < i && g.adj@[k].0 != v ==> exists|j: int| 0 <= j < pos.len() && #[trigger] pos[j] == k,
            decreases g.adj@.len() - i,
        {
            let k = self.adj[i].0;
            if k != v {
                proof {
                    assert(g.adj@[i as int].1@.no_duplicates());
                }
                let l = list_without(&self.adj[i].1, v);
                out.push((k, l));
                proof {
                    let old_pos = pos;
                    pos = pos.push(i as int);
                    assert(pos[pos.len() - 1] == i);
                    if exists|kk: int| 0 <= kk < i + 1 && g.adj@[kk].0 == v {
                        let kk = choose|kk: int| 0 <= kk < i + 1 && g.adj@[kk].0 == v;
                        assert(kk < i);
                    }
                    assert forall|kk: int| 0 <= kk < i + 1 && g.adj@[kk].0 != v implies exists|j: int| 0 <= j < pos.len() && #[trigger] pos[j] == kk by {
                        if kk == i {
                            assert(pos[pos.len() - 1] == kk);
                        } else {
                            let j = choose|j: int| 0 <= j < old_pos.len() && #[trigger] old_pos[j] == kk;
                            assert(pos[j] == kk);
                        }
                    }
                }
            }
            i = i + 1;
        }
        self.adj = out;
        proof {
            let n = *self;
            assert forall|u: VReg| #[trigger] n.has(u) <==> g.has(u) && u != v by {
                if n.has(u) {
                    let k = n.key_index(u);
                    assert(g.adj@[pos[k]].0 == u);
                }
                if g.has(u) && u != v {
                    let k = g.key_index(u);
                    let j = choose|j: int| 0 <= j < pos.len() && #[trigger] pos[j] == k;
                    assert(n.adj@[j].0 == u);
                }
            }
            assert forall|a: int, b: int|
                0 <= a < n.adj@.len() && 0 <= b < n.adj@.len() && a != b implies n.adj@[a].0
                != n.adj@[b].0 by {
                if a < b {
                    assert(pos[a] < pos[b]);
                } else {
                    assert(pos[b] < pos[a]);
                }
            }
            assert forall|u: VReg| #[trigger] n.has(u) implies n@[u] == g@[u].remove(v) by {
                let k = n.key_index(u);
                n.lemma_key_index_raw(k);
                g.lemma_key_index(pos[k]);
            }
            if g@.dom().contains(v) {
                assert(g.adj@[g.key_index(v)].0 == v);
            }
            assert(n@ =~= Map::new(
                |u: VReg| g@.dom().contains(u) && u != v,
                |u: VReg| g@[u].remove(v),
            ));
            assert forall|a: int| 0 <= a < n.adj@.len() implies (#[trigger] n.adj@[a]).1@.no_duplicates() by {}
        }
    }

    /// A copy of the graph.
    pub fn duplicate(&self) -> (r: InterferenceGraph)
        requires
            self.wf(),
        ensures
            r.wf(),
            r@ == self@,
            r.adj@.len() == self.adj@.len(),
    {
        let mut out: Vec<(VReg, Vec<VReg>)> = Vec::new();
        let mut i: usize = 0;
        while i < self.adj.len()
            invariant
                i <= self.adj@.len(),
                out@.len() == i,
                forall|j: int| #![trigger out@[j]] 0 <= j < i ==> out@[j].0 == self.adj@[j].0 && out@[j].1@ == self.adj@[j].1@,
            decreases self.adj@.len() - i,
        {
            out.push((self.adj[i].0, copy_list(&self.adj[i].1)));
            i = i + 1;
        }
        let r = InterferenceGraph { adj: out };
        proof {
            assert forall|u: VReg| #[trigger] r.has(u) <==> self.has(u) by {
                if r.has(u) {
                    let k = r.key_index(u);
                    assert(self.adj@[k].0 == u);
                }
                if self.has(u) {
                    let k = self.key_index(u);
                    assert(r.adj@[k].0 == u);
                }
            }
            assert forall|a: int, b: int|
                0 <= a < r.adj@.len() && 0 <= b < r.adj@.len() && a != b implies r.adj@[a].0
                != r.adj@[b].0 by {}
            assert forall|u: VReg| #[trigger] r.has(u) implies r@[u] == self@[u] by {
                let k = r.key_index(u);
                r.lemma_key_index_raw(k);
                self.lemma_key_index(k);
            }
            assert(r@ =~= self@);
            assert forall|a: int| 0 <= a < r.adj@.len() implies (#[trigger] r.adj@[a]).1@.no_duplicates() by {
                assert(self.adj@[a].1@.no_duplicates());
            }
        }
        r
    }

    /// The number of entries of the graph.
    pub fn len(&self) -> (r: usize)
        ensures
            r == self.adj@.len(),
    {
        self.adj.len()
    }

    proof fn lemma_key_index_raw(self, k: int)
        requires
            0 <= k < self.adj@.len(),
            forall|i: int, j: int|
                0 <= i < self.adj@.len() && 0 <= j < self.adj@.len() && i != j ==> self.adj@[i].0
                    != self.adj@[j].0,
        ensures
            self.key_index(self.adj@[k].0) == k,
    {
        assert(self.has(self.adj@[k].0));
    }
}

/// The span of instruction indices over which a virtual register is live, both ends
/// included.
#[derive(Debug, Clone, Copy, PartialEq, Eq, Hash, Structural)]
pub struct LiveRange {
    pub vreg: VReg,
    pub start: usize,
    pub end: usize,
}

pub open spec fn spec_ranges_interfere(r1: LiveRange, r2: LiveRange) -> bool {
    r1.start <= r2.end && r2.start <= r1.end
}

/// Whether two live ranges overlap.
pub fn ranges_interfere(r1: &LiveRange, r2: &LiveRange) -> (b: bool)
    ensures
        b == spec_ranges_interfere(*r1, *r2),
{
    r1.start <= r2.end && r2.start <= r1.end
}

/// Overlap of live ranges is symmetric.
pub proof fn law_interference_symmetric(r1: LiveRange, r2: LiveRange)
    ensures
        spec_ranges_interfere(r1, r2) == spec_ranges_interfere(r2, r1),
{
}

/// No two ranges belong to the same register.
pub open spec fn distinct_vregs(lr: Seq<LiveRange>) -> bool {
    forall|i: int, j: int| 0 <= i < lr.len() && 0 <= j < lr.len() && i != j ==> lr[i].vreg != lr[j].vreg
}

spec fn pair_done(a: int, b: int, i: int, j: int) -> bool {
    let p = if a < b { a } else { b };
    let q = if a < b { b } else { a };
    p < i || (p == i && q < j)
}

/// The graph with one node per live range and an edge between every two ranges that
/// overlap.
pub fn build_interference_graph(live_ranges: &Vec<LiveRange>) -> (g: InterferenceGraph)
    requires
        distinct_vregs(live_ranges@),
    ensures
        g.wf(),
        forall|u: VReg|
            g@.dom().contains(u) <==> exists|i: int|
                0 <= i < live_ranges@.len() && (#[trigger] live_ranges@[i]).vreg == u,
        forall|i: int, j: int|
            #![trigger live_ranges@[i], live_ranges@[j]]
            0 <= i < live_ranges@.len() && 0 <= j < live_ranges@.len() ==> (g@[live_ranges@[
                i].vreg].contains(live_ranges@[j].vreg) <==> i != j && spec_ranges_interfere(
                live_ranges@[i],
                live_ranges@[j],
            )),
{
    let lr = live_ranges;
    let n = lr.len();
    let mut graph = InterferenceGraph::new();
    let mut i: usize = 0;
    while i < n
        invariant
            n == lr@.len(),
            i <= n,
            graph.wf(),
            distinct_vregs(lr@),
            forall|u: VReg|
                graph@.dom().contains(u) <==> exists|k: int| 0 <= k < i && (#[trigger] lr@[k]).vreg == u,
            forall|u: VReg| graph@.dom().contains(u) ==> graph@[u] == Set::<VReg>::empty(),
        decreases n - i,
    {
        proof {
            assert(!graph@.dom().contains(lr@[i as int].vreg));
        }
        graph.add_node(lr[i].vreg);
        proof {
            assert forall|u: VReg|
                (exists|k: int| 0 <= k < i + 1 && (#[trigger] lr@[k]).vreg == u) implies graph@.dom().contains(u) by {
                let k = choose|k: int| 0 <= k < i + 1 && (#[trigger] lr@[k]).vreg == u;
                if k < i {
                    assert(exists|k2: int| 0 <= k2 < i && (#[trigger] lr@[k2]).vreg == u);
                }
            }
            assert forall|u: VReg|
                graph@.dom().contains(u) implies exists|k: int| 0 <= k < i + 1 && (#[trigger] lr@[k]).vreg == u by {
                if u != lr@[i as int].vreg {
                    let k = choose|k: int| 0 <= k < i && (#[trigger] lr@[k]).vreg == u;
                } else {
                    assert(lr@[i as int].vreg == u);
                }
            }
        }
        i = i + 1;
    }
    proof {
        assert forall|a: int, b: int|
            #![trigger lr@[a], lr@[b]]
            0 <= a < n && 0 <= b < n implies (graph@[lr@[a].vreg].contains(lr@[b].vreg) <==> a != b
                && spec_ranges_interfere(lr@[a], lr@[b]) && pair_done(a, b, 0, 0)) by {
            assert(graph@.dom().contains(lr@[a].vreg));
        }
    }
    let mut i: usize = 0;
    while i < n
        invariant
            n == lr@.len(),
            i <= n,
            graph.wf(),
            distinct_vregs(lr@),
            forall|u: VReg|
                graph@.dom().contains(u) <==> exists|k: int| 0 <= k < n && (#[trigger] lr@[k]).vreg == u,
            forall|a: int, b: int|
                #![trigger lr@[a], lr@[b]]
                0 <= a < n && 0 <= b < n ==> (graph@[lr@[a].vreg].contains(lr@[b].vreg) <==> a != b
                    && spec_ranges_interfere(lr@[a], lr@[b]) && pair_done(a, b, i as int, 0)),
        decreases n - i,
    {
        let mut j: usize = i + 1;
        proof {
            assert forall|a: int, b: int|
                #![trigger lr@[a], lr@[b]]
                0 <= a < n && 0 <= b < n && a != b implies (pair_done(a, b, i as int, 0) <==> pair_done(a, b, i as int, j as int)) by {}
        }
        while j < n
            invariant
                n == lr@.len(),
                i < n,
                i + 1 <= j <= n,
                graph.wf(),
                distinct_vregs(lr@),
                forall|u: VReg|
                    graph@.dom().contains(u) <==> exists|k: int| 0 <= k < n && (#[trigger] lr@[k]).vreg == u,
                forall|a: int, b: int|
                    #![trigger lr@[a], lr@[b]]
                    0 <= a < n && 0 <= b < n ==> (graph@[lr@[a].vreg].contains(lr@[b].vreg) <==> a
                        != b && spec_ranges_interfere(lr@[a], lr@[b]) && pair_done(a, b, i as int, j as int)),
            decreases n - j,
        {
            let ghost before = graph@;
            if ranges_interfere(&lr[i], &lr[j]) {
                let vi = lr[i].vreg;
                let vj = lr[j].vreg;
                proof {
                    assert(graph@.dom().contains(vi));
                    assert(graph@.dom().contains(vj));
                    assert(vi != vj);
                }
                graph.add_edge(vi, vj);
                proof {
                    assert(graph@ == before.insert(vi, before[vi].insert(vj)).insert(vj, before[vj].insert(vi)));
                    assert forall|u: VReg|
                        graph@.dom().contains(u) <==> exists|k: int| 0 <= k < n && (#[trigger] lr@[k]).vreg == u by {
                        assert(graph@.dom().contains(u) <==> before.dom().contains(u));
                    }
                }
            }
            proof {
                assert forall|a: int, b: int|
                    #![trigger lr@[a], lr@[b]]
                    0 <= a < n && 0 <= b < n implies (graph@[lr@[a].vreg].contains(lr@[b].vreg) <==> a
                        != b && spec_ranges_interfere(lr@[a], lr@[b]) && pair_done(a, b, i as int, j + 1)) by {
                    let pa = lr@[a].vreg;
                    let pb = lr@[b].vreg;
                    if (a == i && b == j) || (a == j && b == i) {
                    } else {
                        if spec_ranges_interfere(lr@[i as int], lr@[j as int]) {
                            assert(pa == lr@[i as int].vreg ==> a == i);
                            assert(pa == lr@[j as int].vreg ==> a == j);
                            assert(pb == lr@[i as int].vreg ==> b == i);
                            assert(pb == lr@[j as int].vreg ==> b == j);
                            assert(graph@[pa].contains(pb) == before[pa].contains(pb));
                        }
                    }
                }
            }
            j = j + 1;
        }
        proof {
            assert forall|a: int, b: int|
                #![trigger lr@[a], lr@[b]]
                0 <= a < n && 0 <= b < n implies (pair_done(a, b, i as int, n as int) <==> pair_done(a, b, i + 1, 0)) by {}
        }
        i = i + 1;
    }
    proof {
        assert forall|a: int, b: int|
            #![trigger lr@[a], lr@[b]]
            0 <= a < n && 0 <= b < n implies pair_done(a, b, n as int, 0) || a == b by {}
    }
    graph
}

fn copy_list(l: &Vec<VReg>) -> (r: Vec<VReg>)
    ensures
        r@ == l@,
{
    let mut out: Vec<VReg> = Vec::new();
    let mut i: usize = 0;
    while i < l.len()
        invariant
            i <= l@.len(),
            out@ == l@.take(i as int),
        decreases l@.len() - i,
    {
        out.push(l[i]);
        i = i + 1;
        proof {
            assert(out@ =~= l@.take(i as int));
        }
    }
    proof {
        assert(l@.take(l@.len() as int) =~= l@);
    }
    out
}

fn list_contains(l: &Vec<VReg>, v: VReg) -> (r: bool)
    ensures
        r <==> l@.contains(v),
{
    let mut i: usize = 0;
    while i < l.len()
        invariant
            i <= l@.len(),
            forall|j: int| 0 <= j < i ==> l@[j] != v,
        decreases l@.len() - i,
    {
        if l[i] == v {
            proof {
                assert(l@[i as int] == v);
            }
            return true;
        }
        i = i + 1;
    }
    false
}

fn list_without(l: &Vec<VReg>, v: VReg) -> (r: Vec<VReg>)
    requires
        l@.no_duplicates(),
    ensures
        r@.no_duplicates(),
        r@.to_set() == l@.to_set().remove(v),
{
    let mut out: Vec<VReg> = Vec::new();
    let mut i: usize = 0;
    while i < l.len()
        invariant
            i <= l@.len(),
            l@.no_duplicates(),
            out@.no_duplicates(),
            out@.to_set() == l@.take(i as int).to_set().remove(v),
            forall|x: VReg| out@.contains(x) ==> l@.take(i as int).contains(x),
        decreases l@.len() - i,
    {
        let x = l[i];
        proof {
            assert(l@.take(i as int + 1) =~= l@.take(i as int).push(x));
            assert(!l@.take(i as int).contains(x));
        }
        let ghost before = out@;
        if x != v {
            out.push(x);
            proof {
                before.lemma_push_to_set_commute(x);
                assert(!before.contains(x));
                assert forall|p: int, q: int| 0 <= p < out@.len() && 0 <= q < out@.len() && p != q implies out@[p] != out@[q] by {
                    if p == before.len() {
                        assert(before.contains(out@[q]));
                    } else if q == before.len() {
                        assert(before.contains(out@[p]));
                    }
                }
            }
        }
        proof {
            l@.take(i as int).lemma_push_to_set_commute(x);
            assert forall|y: VReg| out@.contains(y) implies l@.take(i as int + 1).contains(y) by {
                if y != x {
                    assert(before.contains(y));
                    let k = choose|k: int| 0 <= k < i && l@.take(i as int)[k] == y;
                    assert(l@.take(i as int + 1)[k] == y);
                } else {
                    assert(l@.take(i as int + 1)[i as int] == y);
                }
            }
        }
        i = i + 1;
        proof {
            assert(out@.to_set() =~= l@.take(i as int).to_set().remove(v));
        }
    }
    proof {
        assert(l@.take(l@.len() as int) =~= l@);
    }
    out
}

} // verus!
