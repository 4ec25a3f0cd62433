use vstd::prelude::*;

use crate::interference::{InterferenceGraph, VReg};
use crate::regs::{X86RegFpr, X86RegGpr, X86Regs};

verus! {

/// The graph with the nodes of `s` and every edge touching them removed.
pub open spec fn graph_minus(g: Map<VReg, Set<VReg>>, s: Set<VReg>) -> Map<VReg, Set<VReg>> {
    Map::new(|u: VReg| g.dom().contains(u) && !s.contains(u), |u: VReg| g[u].difference(s))
}

/// At position `p` of a simplification order, the node removed either had fewer than `k`
/// neighbors left, or every node left had at least `k` neighbors.
pub open spec fn simplify_step_ok(g: Map<VReg, Set<VReg>>, order: Seq<VReg>, p: int, k: nat) -> bool {
    let h = graph_minus(g, order.take(p).to_set());
    h.dom().contains(order[p]) && (h[order[p]].len() < k || forall|u: VReg|
        #[trigger] h.dom().contains(u) ==> h[u].len() >= k)
}

proof fn lemma_graph_minus_step(g: Map<VReg, Set<VReg>>, s: Seq<VReg>, v: VReg)
    ensures
        Map::new(
            |u: VReg| graph_minus(g, s.to_set()).dom().contains(u) && u != v,
            |u: VReg| graph_minus(g, s.to_set())[u].remove(v),
        ) == graph_minus(g, s.push(v).to_set()),
{
    s.lemma_push_to_set_commute(v);
    let a = Map::new(
        |u: VReg| graph_minus(g, s.to_set()).dom().contains(u) && u != v,
        |u: VReg| graph_minus(g, s.to_set())[u].remove(v),
    );
    let b = graph_minus(g, s.push(v).to_set());
    assert(a.dom() =~= b.dom());
    assert forall|u: VReg| #[trigger] a.dom().contains(u) implies a[u] == b[u] by {
        assert(a[u] =~= b[u]);
    }
    assert(a =~= b);
}

/// Orders the nodes for coloring: repeatedly removes a node with fewer than `k`
/// neighbors, or, when there is none, one with the most neighbors.
pub fn simplify_graph(graph: &InterferenceGraph, k: usize) -> (stack: Vec<VReg>)
    requires
        graph.wf(),
    ensures
        stack@.no_duplicates(),
        forall|v: VReg| stack@.contains(v) <==> graph@.dom().contains(v),
        forall|p: int| 0 <= p < stack@.len() ==> simplify_step_ok(graph@, stack@, p, k as nat),
{
    let mut stack: Vec<VReg> = Vec::new();
    let mut work = graph.duplicate();
    proof {
        assert(graph_minus(graph@, stack@.to_set()) =~= graph@) by {
            assert forall|u: VReg| #[trigger] graph@.dom().contains(u) implies graph@[u].difference(
                stack@.to_set(),
            ) == graph@[u] by {
                assert(graph@[u].difference(stack@.to_set()) =~= graph@[u]);
            }
        }
    }
    loop
        invariant
            graph.wf(),
            work.wf(),
            work@ == graph_minus(graph@, stack@.to_set()),
            stack@.no_duplicates(),
            forall|v: VReg| stack@.contains(v) ==> graph@.dom().contains(v),
            forall|p: int| 0 <= p < stack@.len() ==> simplify_step_ok(graph@, stack@, p, k as nat),
        ensures
            forall|v: VReg| !work@.dom().contains(v),
        decreases work.adj@.len(),
    {
        let n = work.adj.len();
        if n == 0 {
            proof {
                assert forall|v: VReg| !work@.dom().contains(v) by {}
            }
            break;
        }
        let mut pick: usize = n;
        let mut i: usize = 0;
        while i < n
            invariant
                n == work.adj@.len(),
                i <= n,
                pick == n || (pick < n && work.adj@[pick as int].1@.len() < k),
                pick == n ==> forall|j: int| 0 <= j < i ==> work.adj@[j].1@.len() >= k,
            ensures
                pick == n || (pick < n && work.adj@[pick as int].1@.len() < k),
                pick == n ==> forall|j: int| 0 <= j < n ==> work.adj@[j].1@.len() >= k,
            decreases n - i,
        {
            if work.adj[i].1.len() < k {
                pick = i;
                break;
            }
            i = i + 1;
        }
        let ghost low = pick < n;
        if pick == n {
            pick = 0;
            let mut j: usize = 1;
            while j < n
                invariant
                    n == work.adj@.len(),
                    1 <= j <= n,
                    pick < n,
                decreases n - j,
            {
                if work.adj[j].1.len() > work.adj[pick].1.len() {
                    pick = j;
                }
                j = j + 1;
            }
        }
        let node = work.adj[pick].0;
        proof {
            work.lemma_key_index(pick as int);
            let h = graph_minus(graph@, stack@.to_set());
            assert(work@.dom().contains(node));
            assert(h.dom().contains(node));
            assert(!stack@.to_set().contains(node));
            assert(stack@.push(node).take(stack@.len() as int) =~= stack@);
            assert(work.adj@[pick as int].1@.no_duplicates());
            work.adj@[pick as int].1@.unique_seq_to_set();
            if !low {
                assert forall|u: VReg| #[trigger] h.dom().contains(u) implies h[u].len() >= k by {
                    let q = work.key_index(u);
                    work.lemma_key_index(q);
                    assert(work.adj@[q].1@.no_duplicates());
                    work.adj@[q].1@.unique_seq_to_set();
                }
            }
        }
        let ghost old_stack = stack@;
        let ghost old_work = work@;
        stack.push(node);
        work.remove_node(&node);
        proof {
            lemma_graph_minus_step(graph@, old_stack, node);
            assert(!old_stack.contains(node));
            assert(graph@.dom().contains(node));
            assert forall|v: VReg| stack@.contains(v) implies graph@.dom().contains(v) by {
                if v != node {
                    assert(old_stack.contains(v));
                }
            }
            assert forall|p: int| 0 <= p < stack@.len() implies simplify_step_ok(graph@, stack@, p, k as nat) by {
                if p < old_stack.len() {
                    assert(stack@.take(p) =~= old_stack.take(p));
                    assert(stack@[p] == old_stack[p]);
                    assert(simplify_step_ok(graph@, old_stack, p, k as nat));
                } else {
                    assert(stack@.take(p) =~= old_stack);
                }
            }
        }
    }
    proof {
        assert forall|v: VReg| #[trigger] graph@.dom().contains(v) implies stack@.contains(v) by {
            if !stack@.contains(v) {
                assert(!stack@.to_set().contains(v));
                assert(work@.dom().contains(v));
            }
        }
    }
    stack
}

/// Where the coloring puts a virtual register: a color, that is an index into the list of
/// allocatable registers, or a stack slot at an offset from the frame base.
#[derive(Debug, Clone, Copy, PartialEq, Eq, Structural)]
pub enum Slot {
    Reg(usize),
    Stack(i32),
}

/// The colors already given to neighbors of `v`.
pub open spec fn used_colors(g: Map<VReg, Set<VReg>>, a: Seq<(VReg, Slot)>, v: VReg) -> Set<nat> {
    Set::new(
        |c: nat|
            exists|j: int|
                0 <= j < a.len() && g[v].contains(#[trigger] a[j].0) && a[j].1 == Slot::Reg(c as usize),
    )
}

/// The least color in `c..k` that is not used.
pub open spec fn first_free(used: Set<nat>, c: nat, k: nat) -> Option<nat>
    decreases k - c,
{
    if c >= k {
        None
    } else if !used.contains(c) {
        Some(c)
    } else {
        first_free(used, c + 1, k)
    }
}

/// Colors the nodes in `order`: each gets the least of `k` colors that no earlier
/// neighbor has, or else the next stack slot, 8 bytes past the previous one.
pub open spec fn spec_color(g: Map<VReg, Set<VReg>>, order: Seq<VReg>, k: nat, off: int) -> (Seq<(VReg, Slot)>, int)
    decreases order.len(),
{
    if order.len() == 0 {
        (Seq::empty(), off)
    } else {
        let (a, o) = spec_color(g, order.drop_last(), k, off);
        let v = order.last();
        match first_free(used_colors(g, a, v), 0, k) {
            Some(c) => (a.push((v, Slot::Reg(c as usize))), o),
            None => (a.push((v, Slot::Stack(o as i32))), o + 8),
        }
    }
}

proof fn lemma_first_free(used: Set<nat>, s: nat, c: nat, k: nat)
    requires
        s <= c,
        forall|d: nat| s <= d < c ==> used.contains(d),
    ensures
        first_free(used, s, k) == first_free(used, c, k),
    decreases c - s,
{
    if s < c {
        lemma_first_free(used, s + 1, c, k);
    }
}

proof fn lemma_first_free_props(used: Set<nat>, s: nat, k: nat)
    ensures
        first_free(used, s, k) matches Some(c) ==> s <= c < k && !used.contains(c),
        first_free(used, s, k) is None ==> forall|d: nat| s <= d < k ==> used.contains(d),
    decreases k - s,
{
    if s < k && used.contains(s) {
        lemma_first_free_props(used, s + 1, k);
    }
}

proof fn lemma_spec_color_len(g: Map<VReg, Set<VReg>>, order: Seq<VReg>, k: nat, off: int)
    ensures
        spec_color(g, order, k, off).0.len() == order.len(),
        off <= spec_color(g, order, k, off).1 <= off + 8 * order.len(),
        forall|j: int| 0 <= j < order.len() ==> (#[trigger] spec_color(g, order, k, off).0[j]).0 == order[j],
        forall|j: int| 0 <= j < order.len() ==> ((#[trigger] spec_color(g, order, k, off).0[j]).1 matches Slot::Reg(c) ==> c < k),
    decreases order.len(),
{
    if order.len() > 0 {
        lemma_spec_color_len(g, order.drop_last(), k, off);
        let (a, o) = spec_color(g, order.drop_last(), k, off);
        lemma_first_free_props(used_colors(g, a, order.last()), 0, k);
    }
}

/// Assigns registers in the reverse of the order `stack`: each node gets the least of
/// `k` colors that no already colored neighbor has, or else a fresh 8-byte stack slot
/// starting at `current_stack_offset`. Returns the assignment and the next free offset.
pub fn color_graph(stack: &Vec<VReg>, graph: &InterferenceGraph, current_stack_offset: i32, k: usize) -> (r: (Vec<(VReg, Slot)>, i32))
    requires
        graph.wf(),
        forall|v: VReg| stack@.contains(v) ==> graph@.dom().contains(v),
        current_stack_offset + 8 * stack@.len() <= i32::MAX,
    ensures
        r.0@ == spec_color(graph@, stack@.reverse(), k as nat, current_stack_offset as int).0,
        r.1 == spec_color(graph@, stack@.reverse(), k as nat, current_stack_offset as int).1,
{
    let ghost order = stack@.reverse();
    let ghost g = graph@;
    let mut alloc: Vec<(VReg, Slot)> = Vec::new();
    let mut offset: i32 = current_stack_offset;
    let n = stack.len();
    let mut i: usize = 0;
    while i < n
        invariant
            n == stack@.len(),
            order == stack@.reverse(),
            g == graph@,
            graph.wf(),
            forall|v: VReg| stack@.contains(v) ==> graph@.dom().contains(v),
            current_stack_offset + 8 * stack@.len() <= i32::MAX,
            i <= n,
            alloc@ == spec_color(g, order.take(i as int), k as nat, current_stack_offset as int).0,
            offset as int == spec_color(g, order.take(i as int), k as nat, current_stack_offset as int).1,
        decreases n - i,
    {
        let node = stack[n - 1 - i];
        let ghost pre = order.take(i as int + 1);
        proof {
            assert(pre.drop_last() =~= order.take(i as int));
            assert(pre.last() == order[i as int]);
            assert(order[i as int] == stack@[n - 1 - i]);
            assert(stack@.contains(node));
            lemma_spec_color_len(g, order.take(i as int), k as nat, current_stack_offset as int);
        }
        let nbrs = graph.neighbors(&node);
        let mut used: Vec<bool> = Vec::new();
        let mut c: usize = 0;
        while c < k
            invariant
                c <= k,
                used@.len() == c,
                forall|d: int| 0 <= d < c ==> !used@[d],
            decreases k - c,
        {
            used.push(false);
            c = c + 1;
        }
        let ghost a = alloc@;
        let mut j: usize = 0;
        while j < alloc.len()
            invariant
                a == alloc@,
                j <= a.len(),
                used@.len() == k,
                nbrs@.to_set() == g[node],
                forall|jj: int| 0 <= jj < a.len() ==> ((#[trigger] a[jj]).1 matches Slot::Reg(cc) ==> cc < k),
                forall|d: int|
                    0 <= d < k ==> (used@[d] <==> exists|jj: int|
                        0 <= jj < j && g[node].contains(#[trigger] a[jj].0) && a[jj].1 == Slot::Reg(d as usize)),
            decreases a.len() - j,
        {
            if let Slot::Reg(cc) = alloc[j].1 {
                if list_has(nbrs, alloc[j].0) {
                    used.set(cc, true);
                    proof {
                        assert forall|d: int|
                            0 <= d < k implies (used@[d] <==> exists|jj: int|
                                0 <= jj < j + 1 && g[node].contains(#[trigger] a[jj].0) && a[jj].1 == Slot::Reg(d as usize)) by {
                            if d == cc {
                                assert(g[node].contains(a[j as int].0));
                            } else if used@[d] {
                                let jj = choose|jj: int| 0 <= jj < j && g[node].contains(#[trigger] a[jj].0) && a[jj].1 == Slot::Reg(d as usize);
                            }
                        }
                    }
                } else {
                    proof {
                        assert forall|d: int|
                            0 <= d < k implies (used@[d] <==> exists|jj: int|
                                0 <= jj < j + 1 && g[node].contains(#[trigger] a[jj].0) && a[jj].1 == Slot::Reg(d as usize)) by {
                            if exists|jj: int| 0 <= jj < j + 1 && g[node].contains(#[trigger] a[jj].0) && a[jj].1 == Slot::Reg(d as usize) {
                                let jj = choose|jj: int| 0 <= jj < j + 1 && g[node].contains(#[trigger] a[jj].0) && a[jj].1 == Slot::Reg(d as usize);
                                assert(jj != j);
                            }
                        }
                    }
                }
            } else {
                proof {
                    assert forall|d: int|
                        0 <= d < k implies (used@[d] <==> exists|jj: int|
                            0 <= jj < j + 1 && g[node].contains(#[trigger] a[jj].0) && a[jj].1 == Slot::Reg(d as usize)) by {
                        if exists|jj: int| 0 <= jj < j + 1 && g[node].contains(#[trigger] a[jj].0) && a[jj].1 == Slot::Reg(d as usize) {
                            let jj = choose|jj: int| 0 <= jj < j + 1 && g[node].contains(#[trigger] a[jj].0) && a[jj].1 == Slot::Reg(d as usize);
                            assert(jj != j);
                        }
                    }
                }
            }
            j = j + 1;
        }
        let ghost u = used_colors(g, a, node);
        proof {
            assert forall|d: nat| d < k implies (#[trigger] u.contains(d) <==> used@[d as int]) by {}
        }
        let mut c: usize = 0;
        while c < k && used[c]
            invariant
                c <= k,
                used@.len() == k,
                forall|d: nat| d < k ==> (#[trigger] u.contains(d) <==> used@[d as int]),
                forall|d: nat| d < c ==> u.contains(d),
            decreases k - c,
        {
            c = c + 1;
        }
        proof {
            lemma_first_free(u, 0, c as nat, k as nat);
            lemma_spec_color_len(g, order.take(i as int), k as nat, current_stack_offset as int);
        }
        if c < k {
            alloc.push((node, Slot::Reg(c)));
        } else {
            alloc.push((node, Slot::Stack(offset)));
            offset = offset + 8;
        }
        i = i + 1;
    }
    proof {
        assert(order.take(n as int) =~= order);
    }
    (alloc, offset)
}

/// Every edge is recorded at both ends.
pub open spec fn symmetric(g: Map<VReg, Set<VReg>>) -> bool {
    forall|u: VReg, v: VReg|
        #![trigger g[u].contains(v)]
        g.dom().contains(u) && g[u].contains(v) ==> g.dom().contains(v) && g[v].contains(u)
}

/// The coloring is proper: two neighbors never get the same register, two spilled
/// registers never share a stack slot, every color is below `k`, and every slot lies
/// between the starting offset and the returned next free offset.
pub proof fn law_coloring_proper(g: Map<VReg, Set<VReg>>, order: Seq<VReg>, k: nat, off: int)
    requires
        symmetric(g),
        forall|j: int| 0 <= j < order.len() ==> g.dom().contains(#[trigger] order[j]),
        i32::MIN <= off,
        off + 8 * order.len() <= i32::MAX,
    ensures
        ({
            let (a, o) = spec_color(g, order, k, off);
            &&& forall|i: int, j: int|
                #![trigger a[i], a[j]]
                0 <= i < a.len() && 0 <= j < a.len() && i != j && g[a[i].0].contains(a[j].0)
                    && a[i].1 is Reg ==> a[i].1 != a[j].1
            &&& forall|i: int, j: int|
                #![trigger a[i], a[j]]
                0 <= i < a.len() && 0 <= j < a.len() && i != j && a[i].1 is Stack ==> a[i].1 != a[j].1
            &&& forall|i: int|
                0 <= i < a.len() ==> ((#[trigger] a[i]).1 matches Slot::Stack(s) ==> off <= s && s + 8 <= o)
            &&& forall|i: int| 0 <= i < a.len() ==> ((#[trigger] a[i]).1 matches Slot::Reg(c) ==> c < k)
        }),
    decreases order.len(),
{
    lemma_spec_color_len(g, order, k, off);
    if order.len() > 0 {
        let prev = order.drop_last();
        law_coloring_proper(g, prev, k, off);
        lemma_spec_color_len(g, prev, k, off);
        let (a0, o0) = spec_color(g, prev, k, off);
        let (a, o) = spec_color(g, order, k, off);
        let v = order.last();
        let u = used_colors(g, a0, v);
        lemma_first_free_props(u, 0, k);
        let last = a.len() - 1;
        assert(a.drop_last() =~= a0);
        assert forall|j: int| 0 <= j < prev.len() implies g.dom().contains(#[trigger] prev[j]) by {
            assert(prev[j] == order[j]);
        }
        assert forall|i: int, j: int|
            #![trigger a[i], a[j]]
            0 <= i < a.len() && 0 <= j < a.len() && i != j && g[a[i].0].contains(a[j].0)
                && a[i].1 is Reg implies a[i].1 != a[j].1 by {
            if i < last && j < last {
                assert(a[i] == a0[i] && a[j] == a0[j]);
            } else if j == last {
                assert(a[i] == a0[i]);
                assert(a[j].0 == v);
                if a[j].1 == a[i].1 {
                    let c = a[i].1->Reg_0;
                    assert(g.dom().contains(order[i]));
                    assert(g[v].contains(a0[i].0));
                    assert(u.contains(c as nat));
                }
            } else {
                assert(a[j] == a0[j]);
                assert(a[i].0 == v);
                if a[j].1 == a[i].1 {
                    let c = a[i].1->Reg_0;
                    assert(u.contains(c as nat));
                }
            }
        }
        assert forall|i: int, j: int|
            #![trigger a[i], a[j]]
            0 <= i < a.len() && 0 <= j < a.len() && i != j && a[i].1 is Stack implies a[i].1 != a[j].1 by {
            if i < last && j < last {
                assert(a[i] == a0[i] && a[j] == a0[j]);
            } else if j == last {
                assert(a[i] == a0[i]);
            } else {
                assert(a[j] == a0[j]);
            }
        }
        assert forall|i: int|
            0 <= i < a.len() implies ((#[trigger] a[i]).1 matches Slot::Stack(s) ==> off <= s && s + 8 <= o) by {
            if i < last {
                assert(a[i] == a0[i]);
            }
        }
    }
}

/// The interference graph's edges go both ways.
pub proof fn law_graph_symmetric(g: InterferenceGraph)
    requires
        g.wf(),
    ensures
        symmetric(g@),
{
}

/// A physical register of one of the two register classes.
#[derive(Debug, Clone, Copy, PartialEq, Eq, Hash)]
pub enum RegRef<R, F> {
    GprReg(R),
    FprReg(F),
}

/// Where a virtual register lives after allocation.
#[derive(Debug, Clone, Copy)]
pub enum Loc<R, F> {
    PhysReg(RegRef<R, F>),
    Stack(i32),
}

/// The x86-64 location of a general-purpose slot.
pub open spec fn x86_gpr_loc(s: Slot) -> Loc<X86RegGpr, X86RegFpr> {
    match s {
        Slot::Reg(c) => Loc::PhysReg(RegRef::GprReg(X86Regs::spec_allocatable_regs()[c as int])),
        Slot::Stack(o) => Loc::Stack(o),
    }
}

/// The x86-64 location of a floating-point slot.
pub open spec fn x86_fpr_loc(s: Slot) -> Loc<X86RegGpr, X86RegFpr> {
    match s {
        Slot::Reg(c) => Loc::PhysReg(RegRef::FprReg(X86Regs::spec_float_regs()[c as int])),
        Slot::Stack(o) => Loc::Stack(o),
    }
}

impl X86Regs {
    /// Number of general-purpose registers the allocator may use.
    pub open spec fn spec_num_allocatable() -> nat {
        14
    }

    /// Number of SSE registers the allocator may use.
    pub open spec fn spec_fpr_allocatable() -> nat {
        15
    }

    /// Colors the integer virtual registers of `graph` with the allocatable registers,
    /// spilling to 8-byte stack slots from `current_stack_offset` on.
    pub fn color_graph_gpr(&self, stack: Vec<VReg>, graph: &InterferenceGraph, current_stack_offset: i32) -> (r: (Vec<(VReg, Loc<X86RegGpr, X86RegFpr>)>, i32))
        requires
            graph.wf(),
            forall|v: VReg| stack@.contains(v) ==> graph@.dom().contains(v),
            current_stack_offset + 8 * stack@.len() <= i32::MAX,
        ensures
            ({
                let (a, o) = spec_color(graph@, stack@.reverse(), Self::spec_num_allocatable(), current_stack_offset as int);
                &&& r.1 == o
                &&& r.0@.len() == a.len()
                &&& forall|i: int| #![trigger r.0@[i]] 0 <= i < a.len() ==> r.0@[i].0 == a[i].0 && r.0@[i].1 == x86_gpr_loc(a[i].1)
            }),
    {
        let regs = self.allocatable_regs();
        let (slots, off) = color_graph(&stack, graph, current_stack_offset, 14);
        proof {
            lemma_spec_color_len(graph@, stack@.reverse(), 14, current_stack_offset as int);
        }
        let mut out: Vec<(VReg, Loc<X86RegGpr, X86RegFpr>)> = Vec::new();
        let mut i: usize = 0;
        while i < slots.len()
            invariant
                i <= slots@.len(),
                regs@ == X86Regs::spec_allocatable_regs(),
                forall|j: int| 0 <= j < slots@.len() ==> ((#[trigger] slots@[j]).1 matches Slot::Reg(c) ==> c < 14),
                out@.len() == i,
                forall|j: int| #![trigger out@[j]] 0 <= j < i ==> out@[j].0 == slots@[j].0 && out@[j].1 == x86_gpr_loc(slots@[j].1),
            decreases slots@.len() - i,
        {
            let loc = match slots[i].1 {
                Slot::Reg(c) => Loc::PhysReg(RegRef::GprReg(regs[c])),
                Slot::Stack(o) => Loc::Stack(o),
            };
            out.push((slots[i].0, loc));
            i = i + 1;
        }
        (out, off)
    }

    /// Colors the floating-point virtual registers of `graph` with the SSE registers,
    /// spilling to 8-byte stack slots from `current_stack_offset` on.
    pub fn color_graph_fpr(&self, stack: Vec<VReg>, graph: &InterferenceGraph, current_stack_offset: i32) -> (r: (Vec<(VReg, Loc<X86RegGpr, X86RegFpr>)>, i32))
        requires
            graph.wf(),
            forall|v: VReg| stack@.contains(v) ==> graph@.dom().contains(v),
            current_stack_offset + 8 * stack@.len() <= i32::MAX,
        ensures
            ({
                let (a, o) = spec_color(graph@, stack@.reverse(), Self::spec_fpr_allocatable(), current_stack_offset as int);
                &&& r.1 == o
                &&& r.0@.len() == a.len()
                &&& forall|i: int| #![trigger r.0@[i]] 0 <= i < a.len() ==> r.0@[i].0 == a[i].0 && r.0@[i].1 == x86_fpr_loc(a[i].1)
            }),
    {
        let regs = self.float_regs();
        let (slots, off) = color_graph(&stack, graph, current_stack_offset, 15);
        proof {
            lemma_spec_color_len(graph@, stack@.reverse(), 15, current_stack_offset as int);
        }
        let mut out: Vec<(VReg, Loc<X86RegGpr, X86RegFpr>)> = Vec::new();
        let mut i: usize = 0;
        while i < slots.len()
            invariant
                i <= slots@.len(),
                regs@ == X86Regs::spec_float_regs(),
                forall|j: int| 0 <= j < slots@.len() ==> ((#[trigger] slots@[j]).1 matches Slot::Reg(c) ==> c < 15),
                out@.len() == i,
                forall|j: int| #![trigger out@[j]] 0 <= j < i ==> out@[j].0 == slots@[j].0 && out@[j].1 == x86_fpr_loc(slots@[j].1),
            decreases slots@.len() - i,
        {
            let loc = match slots[i].1 {
                Slot::Reg(c) => Loc::PhysReg(RegRef::FprReg(regs[c])),
                Slot::Stack(o) => Loc::Stack(o),
            };
            out.push((slots[i].0, loc));
            i = i + 1;
        }
        (out, off)
    }
}

/// On x86-64, two interfering integer registers are never given the same physical
/// register.
pub proof fn law_x86_gpr_allocation_proper(g: Map<VReg, Set<VReg>>, order: Seq<VReg>, off: int)
    requires
        symmetric(g),
        forall|j: int| 0 <= j < order.len() ==> g.dom().contains(#[trigger] order[j]),
        i32::MIN <= off,
        off + 8 * order.len() <= i32::MAX,
    ensures
        ({
            let a = spec_color(g, order, X86Regs::spec_num_allocatable(), off).0;
            forall|i: int, j: int|
                #![trigger a[i], a[j]]
                0 <= i < a.len() && 0 <= j < a.len() && i != j && g[a[i].0].contains(a[j].0)
                    && x86_gpr_loc(a[i].1) is PhysReg ==> x86_gpr_loc(a[i].1) != x86_gpr_loc(a[j].1)
        }),
{
    law_coloring_proper(g, order, X86Regs::spec_num_allocatable(), off);
    crate::regs::law_x86_register_classes(X86RegGpr::RAX);
    let a = spec_color(g, order, X86Regs::spec_num_allocatable(), off).0;
    let regs = X86Regs::spec_allocatable_regs();
    assert forall|i: int, j: int|
        #![trigger a[i], a[j]]
        0 <= i < a.len() && 0 <= j < a.len() && i != j && g[a[i].0].contains(a[j].0)
            && x86_gpr_loc(a[i].1) is PhysReg implies x86_gpr_loc(a[i].1) != x86_gpr_loc(a[j].1) by {
        if let Slot::Reg(ci) = a[i].1 {
            if let Slot::Reg(cj) = a[j].1 {
                assert(ci != cj);
                assert(regs[ci as int] != regs[cj as int]);
            }
        }
    }
}

fn list_has(l: &Vec<VReg>, v: VReg) -> (r: bool)
    ensures
        r <==> l@.to_set().contains(v),
{
    let mut i: usize = 0;
    while i < l.len()
        invariant
            i <= l@.len(),
            forall|j: int| 0 <= j < i ==> l@[j] != v,
        decreases l@.len() - i,
    {
        if l[i] == v {
            proof {
                assert(l@.contains(v));
            }
            return true;
        }
        i = i + 1;
    }
    false
}


/// A comparison that a conditional instruction tests.
#[derive(Debug, Clone, Copy, PartialEq, Eq, Structural)]
pub enum CmpOp {
    Eq,
    Ne,
    Lt,
    Le,
    Gt,
    Ge,
}

/// What a call instruction calls: a function by its symbol, or the address in a register.
#[derive(Debug, Clone, Copy)]
pub enum CallTarget<R> {
    Direct(crate::symbols::SymId),
    Indirect(R),
}

/// A struct as the low-level code sees it: each field with its offset and type.
#[derive(Debug)]
pub struct LStructDef {
    pub name: String,
    pub fields: crate::alias::Table<(i32, crate::ast::Type)>,
    pub is_union: bool,
}


impl X86Regs {
    /// The number of colors for a register of class `ty`.
    pub open spec fn colors_for(ty: crate::interference::VRegType) -> nat {
        match ty {
            crate::interference::VRegType::Int => Self::spec_num_allocatable(),
            crate::interference::VRegType::Float => Self::spec_fpr_allocatable(),
        }
    }

    /// The nodes of `graph` with fewer neighbors than there are registers of their class,
    /// each once.
    pub fn find_node_with_degree_less_than_k(&self, graph: &InterferenceGraph) -> (r: Vec<VReg>)
        requires
            graph.wf(),
        ensures
            r@.no_duplicates(),
            forall|v: VReg| r@.contains(v) <==> (graph@.dom().contains(v) && graph@[v].len() < Self::colors_for(v.ty)),
    {
        let mut out: Vec<VReg> = Vec::new();
        let mut i: usize = 0;
        while i < graph.adj.len()
            invariant
                i <= graph.adj@.len(),
                graph.wf(),
                out@.no_duplicates(),
                forall|v: VReg| out@.contains(v) <==> (exists|j: int| 0 <= j < i && #[trigger] graph.adj@[j].0 == v
                    && graph@[v].len() < Self::colors_for(v.ty)),
            decreases graph.adj@.len() - i,
        {
            let node = graph.adj[i].0;
            proof {
                graph.lemma_key_index(i as int);
                graph.adj@[i as int].1@.unique_seq_to_set();
            }
            let deg = graph.adj[i].1.len();
            let k: usize = match node.ty {
                crate::interference::VRegType::Int => 14,
                crate::interference::VRegType::Float => 15,
            };
            let ghost before = out@;
            if deg < k {
                proof {
                    assert(!before.contains(node)) by {
                        if before.contains(node) {
                            let j = choose|j: int| 0 <= j < i && #[trigger] graph.adj@[j].0 == node
                                && graph@[node].len() < Self::colors_for(node.ty);
                            assert(graph.adj@[j].0 != graph.adj@[i as int].0);
                        }
                    }
                }
                out.push(node);
                proof {
                    assert forall|v: VReg| out@.contains(v) <==> (exists|j: int| 0 <= j < i + 1 && #[trigger] graph.adj@[j].0 == v
                        && graph@[v].len() < Self::colors_for(v.ty)) by {
                        if out@.contains(v) && v != node {
                            let q = choose|q: int| 0 <= q < out@.len() && out@[q] == v;
                            assert(before[q] == v);
                            assert(before.contains(v));
                        }
                        if v != node && (exists|j: int| 0 <= j < i + 1 && #[trigger] graph.adj@[j].0 == v
                            && graph@[v].len() < Self::colors_for(v.ty)) {
                            let j = choose|j: int| 0 <= j < i + 1 && #[trigger] graph.adj@[j].0 == v
                                && graph@[v].len() < Self::colors_for(v.ty);
                            assert(j < i);
                            assert(before.contains(v));
                            let q = choose|q: int| 0 <= q < before.len() && before[q] == v;
                            assert(out@[q] == v);
                        }
                        if v == node {
                            assert(out@[before.len() as int] == v);
                        }
                    }
                }
            } else {
                proof {
                    assert forall|v: VReg| out@.contains(v) <==> (exists|j: int| 0 <= j < i + 1 && #[trigger] graph.adj@[j].0 == v
                        && graph@[v].len() < Self::colors_for(v.ty)) by {
                        if exists|j: int| 0 <= j < i + 1 && #[trigger] graph.adj@[j].0 == v
                            && graph@[v].len() < Self::colors_for(v.ty) {
                            let j = choose|j: int| 0 <= j < i + 1 && #[trigger] graph.adj@[j].0 == v
                                && graph@[v].len() < Self::colors_for(v.ty);
                            if j == i {
                                assert(v == node);
                            }
                        }
                    }
                }
            }
            i = i + 1;
        }
        proof {
            assert forall|v: VReg| out@.contains(v) <==> (graph@.dom().contains(v) && graph@[v].len() < Self::colors_for(v.ty)) by {
                if graph@.dom().contains(v) {
                    let j = graph.key_index(v);
                    assert(graph.adj@[j].0 == v);
                }
            }
        }
        out
    }
}

} // verus!
