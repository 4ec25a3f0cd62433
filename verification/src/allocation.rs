use vstd::prelude::*;

use crate::interference::{
    InterferenceGraph, LiveRange, VReg, VRegType, build_interference_graph, distinct_vregs,
    spec_ranges_interfere,
};
use crate::ir::IRFunction;
use crate::liveness::{flattened, function_live_ranges, is_live_range, live_ranges_of, touch_lists};
use crate::regalloc::{Loc, RegRef, Slot, simplify_graph, simplify_step_ok, spec_color, x86_fpr_loc, x86_gpr_loc};
use crate::regs::{X86RegFpr, X86RegGpr, X86Regs, x86_callee_saved, x86_fp_callee_saved};
use crate::symbols::SymId;

verus! {

/// Where each virtual register, local and global of a function lives, which
/// callee-saved registers it uses, and how much stack it needs. In `vreg_loc` a later
/// entry for a register replaces an earlier one.
#[derive(Debug)]
pub struct Allocation<R, F> {
    pub vreg_loc: Vec<(VReg, Loc<R, F>)>,
    pub local_loc: Vec<(usize, i32)>,
    pub global_loc: Vec<(usize, SymId)>,
    pub used_callee_saved: Vec<R>,
    pub used_callee_saved_fp: Vec<F>,
    pub stack_size: i32,
}

/// The registers of `ps` of class `ty`, in order.
pub open spec fn params_of_class(ps: Seq<VReg>, ty: VRegType) -> Seq<VReg>
    decreases ps.len(),
{
    if ps.len() == 0 {
        Seq::empty()
    } else if ps.last().ty == ty {
        params_of_class(ps.drop_last(), ty).push(ps.last())
    } else {
        params_of_class(ps.drop_last(), ty)
    }
}

/// The ranges of `rs` whose register is of class `ty`, in order.
pub open spec fn ranges_of_class(rs: Seq<LiveRange>, ty: VRegType) -> Seq<LiveRange>
    decreases rs.len(),
{
    if rs.len() == 0 {
        Seq::empty()
    } else if rs.last().vreg.ty == ty {
        ranges_of_class(rs.drop_last(), ty).push(rs.last())
    } else {
        ranges_of_class(rs.drop_last(), ty)
    }
}

pub open spec fn min_nat(a: nat, b: nat) -> nat {
    if a < b {
        a
    } else {
        b
    }
}

/// The integer parameters in the integer argument registers and the floating-point
/// parameters in the floating-point ones, in order, as far as there are registers.
pub open spec fn param_locs(params: Seq<VReg>) -> Seq<(VReg, Loc<X86RegGpr, X86RegFpr>)> {
    let ints = params_of_class(params, VRegType::Int);
    let floats = params_of_class(params, VRegType::Float);
    gp_param_locs(ints, min_nat(ints.len(), 6)) + fp_param_locs(floats, min_nat(floats.len(), 8))
}

/// The first `n` integer parameters, each in its argument register.
pub open spec fn gp_param_locs(ints: Seq<VReg>, n: nat) -> Seq<(VReg, Loc<X86RegGpr, X86RegFpr>)> {
    Seq::new(n, |i: int| (ints[i], Loc::PhysReg(RegRef::GprReg(X86Regs::spec_arg_regs()[i]))))
}

/// The first `n` floating-point parameters, each in its argument register.
pub open spec fn fp_param_locs(floats: Seq<VReg>, n: nat) -> Seq<(VReg, Loc<X86RegGpr, X86RegFpr>)> {
    Seq::new(n, |i: int| (floats[i], Loc::PhysReg(RegRef::FprReg(X86Regs::spec_fp_arg_regs()[i]))))
}

/// The interference graph of a list of live ranges: one node per range, and an edge
/// between two ranges that overlap.
pub open spec fn range_graph(lr: Seq<LiveRange>) -> Map<VReg, Set<VReg>> {
    Map::new(
        |u: VReg| exists|i: int| 0 <= i < lr.len() && (#[trigger] lr[i]).vreg == u,
        |u: VReg| Set::new(|v: VReg| exists|i: int, j: int|
            0 <= i < lr.len() && 0 <= j < lr.len() && i != j && (#[trigger] lr[i]).vreg == u
                && (#[trigger] lr[j]).vreg == v && spec_ranges_interfere(lr[i], lr[j])),
    )
}

/// `order` is an order that `simplify_graph` may give for `g` with `k` colors.
pub open spec fn simplify_order_ok(g: Map<VReg, Set<VReg>>, order: Seq<VReg>, k: nat) -> bool {
    &&& order.no_duplicates()
    &&& forall|v: VReg| order.contains(v) <==> g.dom().contains(v)
    &&& forall|p: int| 0 <= p < order.len() ==> simplify_step_ok(g, order, p, k)
}

pub open spec fn gpr_locs(a: Seq<(VReg, Slot)>) -> Seq<(VReg, Loc<X86RegGpr, X86RegFpr>)> {
    Seq::new(a.len(), |i: int| (a[i].0, x86_gpr_loc(a[i].1)))
}

pub open spec fn fpr_locs(a: Seq<(VReg, Slot)>) -> Seq<(VReg, Loc<X86RegGpr, X86RegFpr>)> {
    Seq::new(a.len(), |i: int| (a[i].0, x86_fpr_loc(a[i].1)))
}

/// The callee-saved general-purpose registers among the locations, in order.
pub open spec fn callee_saved_used(ls: Seq<(VReg, Loc<X86RegGpr, X86RegFpr>)>) -> Seq<X86RegGpr>
    decreases ls.len(),
{
    if ls.len() == 0 {
        Seq::empty()
    } else {
        let rest = callee_saved_used(ls.drop_last());
        match ls.last().1 {
            Loc::PhysReg(RegRef::GprReg(r)) => if x86_callee_saved(r) {
                rest.push(r)
            } else {
                rest
            },
            _ => rest,
        }
    }
}

/// The callee-saved SSE registers among the locations, in order.
pub open spec fn fp_callee_saved_used(ls: Seq<(VReg, Loc<X86RegGpr, X86RegFpr>)>) -> Seq<X86RegFpr>
    decreases ls.len(),
{
    if ls.len() == 0 {
        Seq::empty()
    } else {
        let rest = fp_callee_saved_used(ls.drop_last());
        match ls.last().1 {
            Loc::PhysReg(RegRef::FprReg(r)) => if x86_fp_callee_saved(r) {
                rest.push(r)
            } else {
                rest
            },
            _ => rest,
        }
    }
}

/// The registers that `ts` touches.
pub open spec fn touched_set(ts: Seq<Seq<VReg>>) -> Set<VReg> {
    Set::new(|v: VReg| exists|i: int| 0 <= i < ts.len() && ts[i].contains(v))
}

/// What `regalloc` gives for a function with parameters `params`, stack offset `off`
/// and touch lists `ts`, once the live ranges `rs` and the simplification orders `og`
/// and `of` are chosen: the parameters in their argument registers, then the colorings
/// of the integer and of the floating-point interference graphs, the callee-saved
/// registers these use, and the stack offset after the spills.
pub open spec fn regalloc_result(
    params: Seq<VReg>,
    off: int,
    ts: Seq<Seq<VReg>>,
    rs: Seq<LiveRange>,
    og: Seq<VReg>,
    of: Seq<VReg>,
    a: Allocation<X86RegGpr, X86RegFpr>,
) -> bool {
    let gg = range_graph(ranges_of_class(rs, VRegType::Int));
    let gf = range_graph(ranges_of_class(rs, VRegType::Float));
    let (ca, o1) = spec_color(gg, og.reverse(), 14, off);
    let (cf, o2) = spec_color(gf, of.reverse(), 15, o1);
    &&& live_ranges_of(ts, rs)
    &&& simplify_order_ok(gg, og, 14)
    &&& simplify_order_ok(gf, of, 15)
    &&& a.vreg_loc@ == param_locs(params) + gpr_locs(ca) + fpr_locs(cf)
    &&& a.used_callee_saved@ == callee_saved_used(gpr_locs(ca))
    &&& a.used_callee_saved_fp@ == fp_callee_saved_used(fpr_locs(cf))
    &&& a.local_loc@.len() == 0
    &&& a.global_loc@.len() == 0
    &&& a.stack_size == o2
}


proof fn lemma_color_offset(g: Map<VReg, Set<VReg>>, order: Seq<VReg>, k: nat, off: int)
    ensures
        spec_color(g, order, k, off).0.len() == order.len(),
        off <= spec_color(g, order, k, off).1 <= off + 8 * order.len(),
    decreases order.len(),
{
    if order.len() > 0 {
        lemma_color_offset(g, order.drop_last(), k, off);
    }
}

/// Two lists without repeats that hold the same items are equally long.
proof fn lemma_same_items_same_len(a: Seq<VReg>, b: Seq<VReg>)
    requires
        a.no_duplicates(),
        b.no_duplicates(),
        forall|v: VReg| a.contains(v) <==> b.contains(v),
    ensures
        a.len() == b.len(),
{
    a.unique_seq_to_set();
    b.unique_seq_to_set();
    assert(a.to_set() =~= b.to_set());
}

pub open spec fn range_vregs(rs: Seq<LiveRange>) -> Seq<VReg> {
    Seq::new(rs.len(), |i: int| rs[i].vreg)
}

proof fn lemma_range_vregs_no_dup(rs: Seq<LiveRange>)
    requires
        distinct_vregs(rs),
    ensures
        range_vregs(rs).no_duplicates(),
        forall|v: VReg| range_vregs(rs).contains(v) <==> exists|i: int| 0 <= i < rs.len() && (#[trigger] rs[i]).vreg == v,
{
    let vs = range_vregs(rs);
    assert forall|v: VReg| vs.contains(v) implies exists|i: int| 0 <= i < rs.len() && (#[trigger] rs[i]).vreg == v by {
        let i = choose|i: int| 0 <= i < vs.len() && vs[i] == v;
        assert(rs[i].vreg == v);
    }
    assert forall|v: VReg| (exists|i: int| 0 <= i < rs.len() && (#[trigger] rs[i]).vreg == v) implies vs.contains(v) by {
        let i = choose|i: int| 0 <= i < rs.len() && (#[trigger] rs[i]).vreg == v;
        assert(vs[i] == v);
    }
}

/// The live ranges of `ts` are as many as the registers it touches.
proof fn lemma_ranges_count(ts: Seq<Seq<VReg>>, rs: Seq<LiveRange>)
    requires
        live_ranges_of(ts, rs),
    ensures
        rs.len() == touched_set(ts).len(),
        touched_set(ts).finite(),
{
    assert(distinct_vregs(rs)) by {
        assert forall|i: int, j: int| 0 <= i < rs.len() && 0 <= j < rs.len() && i != j implies rs[i].vreg != rs[j].vreg by {
            assert(rs[i].vreg != rs[j].vreg);
        }
    }
    lemma_range_vregs_no_dup(rs);
    let vs = range_vregs(rs);
    vs.unique_seq_to_set();
    assert forall|v: VReg| vs.to_set().contains(v) <==> touched_set(ts).contains(v) by {
        if vs.to_set().contains(v) {
            let i = choose|i: int| 0 <= i < rs.len() && (#[trigger] rs[i]).vreg == v;
            assert(is_live_range(ts, rs[i]));
            assert(ts[rs[i].start as int].contains(v));
        }
        if touched_set(ts).contains(v) {
            let i = choose|i: int| 0 <= i < ts.len() && ts[i].contains(v);
            assert(ts[i].contains(v));
        }
    }
    assert(vs.to_set() =~= touched_set(ts));
}

proof fn lemma_class_partition(rs: Seq<LiveRange>)
    ensures
        ranges_of_class(rs, VRegType::Int).len() + ranges_of_class(rs, VRegType::Float).len() == rs.len(),
    decreases rs.len(),
{
    if rs.len() > 0 {
        lemma_class_partition(rs.drop_last());
    }
}

/// The registers of `ps` of class `ty`; see `params_of_class`.
fn class_params(ps: &Vec<VReg>, ty: VRegType) -> (r: Vec<VReg>)
    ensures
        r@ == params_of_class(ps@, ty),
{
    let mut out: Vec<VReg> = Vec::new();
    let mut i: usize = 0;
    proof {
        assert(ps@.take(0) =~= Seq::<VReg>::empty());
    }
    while i < ps.len()
        invariant
            i <= ps@.len(),
            out@ == params_of_class(ps@.take(i as int), ty),
        decreases ps@.len() - i,
    {
        proof {
            assert(ps@.take(i + 1).drop_last() =~= ps@.take(i as int));
        }
        if ps[i].ty == ty {
            out.push(ps[i]);
        }
        i = i + 1;
    }
    proof {
        assert(ps@.take(ps@.len() as int) =~= ps@);
    }
    out
}

/// The ranges of `rs` of class `ty`; see `ranges_of_class`.
fn class_ranges(rs: &Vec<LiveRange>, ty: VRegType) -> (r: Vec<LiveRange>)
    requires
        distinct_vregs(rs@),
    ensures
        r@ == ranges_of_class(rs@, ty),
        distinct_vregs(r@),
{
    let mut out: Vec<LiveRange> = Vec::new();
    let mut i: usize = 0;
    proof {
        assert(rs@.take(0) =~= Seq::<LiveRange>::empty());
    }
    while i < rs.len()
        invariant
            i <= rs@.len(),
            distinct_vregs(rs@),
            out@ == ranges_of_class(rs@.take(i as int), ty),
            distinct_vregs(out@),
            forall|k: int| 0 <= k < out@.len() ==> exists|m: int| 0 <= m < i && rs@[m] == #[trigger] out@[k],
        decreases rs@.len() - i,
    {
        proof {
            assert(rs@.take(i + 1).drop_last() =~= rs@.take(i as int));
        }
        if rs[i].vreg.ty == ty {
            let ghost before = out@;
            out.push(rs[i]);
            proof {
                assert forall|k: int| 0 <= k < out@.len() implies exists|m: int| 0 <= m < i + 1 && rs@[m] == #[trigger] out@[k] by {
                    if k < before.len() {
                        assert(out@[k] == before[k]);
                    } else {
                        assert(rs@[i as int] == out@[k]);
                    }
                }
                assert forall|a: int, b: int| 0 <= a < out@.len() && 0 <= b < out@.len() && a != b implies out@[a].vreg != out@[b].vreg by {
                    if a < before.len() && b < before.len() {
                        assert(out@[a] == before[a] && out@[b] == before[b]);
                    } else if a < before.len() {
                        assert(out@[a] == before[a]);
                        let m = choose|m: int| 0 <= m < i && rs@[m] == before[a];
                        assert(rs@[m].vreg != rs@[i as int].vreg);
                    } else {
                        assert(out@[b] == before[b]);
                        let m = choose|m: int| 0 <= m < i && rs@[m] == before[b];
                        assert(rs@[m].vreg != rs@[i as int].vreg);
                    }
                }
            }
        }
        i = i + 1;
    }
    proof {
        assert(rs@.take(rs@.len() as int) =~= rs@);
    }
    out
}


/// The graph that `build_interference_graph` gives for `lr` is `range_graph(lr)`.
proof fn lemma_built_graph(lr: Seq<LiveRange>, g: Map<VReg, Set<VReg>>)
    requires
        distinct_vregs(lr),
        forall|u: VReg| g.dom().contains(u) <==> exists|i: int| 0 <= i < lr.len() && (#[trigger] lr[i]).vreg == u,
        forall|i: int, j: int|
            #![trigger lr[i], lr[j]]
            0 <= i < lr.len() && 0 <= j < lr.len() ==> (g[lr[i].vreg].contains(lr[j].vreg) <==> i != j
                && spec_ranges_interfere(lr[i], lr[j])),
        forall|u: VReg, v: VReg| g.dom().contains(u) && #[trigger] g[u].contains(v) ==> g.dom().contains(v),
    ensures
        g == range_graph(lr),
{
    let h = range_graph(lr);
    assert(g.dom() =~= h.dom());
    assert forall|u: VReg| #[trigger] g.dom().contains(u) implies g[u] == h[u] by {
        let i = choose|i: int| 0 <= i < lr.len() && (#[trigger] lr[i]).vreg == u;
        assert forall|v: VReg| g[u].contains(v) <==> h[u].contains(v) by {
            if g[u].contains(v) {
                let j = choose|j: int| 0 <= j < lr.len() && (#[trigger] lr[j]).vreg == v;
                assert(g[lr[i].vreg].contains(lr[j].vreg));
                assert(i != j && spec_ranges_interfere(lr[i], lr[j]));
            }
            if h[u].contains(v) {
                let (i2, j2) = choose|i2: int, j2: int|
                    0 <= i2 < lr.len() && 0 <= j2 < lr.len() && i2 != j2 && (#[trigger] lr[i2]).vreg == u
                        && (#[trigger] lr[j2]).vreg == v && spec_ranges_interfere(lr[i2], lr[j2]);
                assert(g[lr[i2].vreg].contains(lr[j2].vreg));
            }
        }
        assert(g[u] =~= h[u]);
    }
    assert(g =~= h);
}

/// A graph built from live ranges, its simplification order for `k` colors, and the
/// number of its nodes.
fn graph_and_order(lr: &Vec<LiveRange>, k: usize) -> (r: (InterferenceGraph, Vec<VReg>))
    requires
        distinct_vregs(lr@),
    ensures
        r.0.wf(),
        r.0@ == range_graph(lr@),
        simplify_order_ok(r.0@, r.1@, k as nat),
        r.1@.len() == lr@.len(),
        forall|v: VReg| r.1@.contains(v) ==> r.0@.dom().contains(v),
{
    let g = build_interference_graph(lr);
    proof {
        lemma_built_graph(lr@, g@);
    }
    let order = simplify_graph(&g, k);
    proof {
        lemma_range_vregs_no_dup(lr@);
        lemma_same_items_same_len(order@, range_vregs(lr@));
    }
    (g, order)
}

impl X86Regs {
    /// Allocates the virtual registers of `func`: the parameters go to the argument
    /// registers; every register the blocks touch gets a live range; the integer and the
    /// floating-point registers each get an interference graph, which is simplified and
    /// colored with the allocatable registers, spilling to 8-byte stack slots from the
    /// function's offset on; the callee-saved registers the coloring uses are listed.
    /// The orders of the ranges and of the simplification are the ones the algorithm
    /// picks; `regalloc_result` says what follows from them.
    pub fn regalloc(&self, func: &IRFunction) -> (r: Allocation<X86RegGpr, X86RegFpr>)
        requires
            flattened(func.blocks@).len() <= usize::MAX,
            func.offset + 8 * touched_set(touch_lists(flattened(func.blocks@))).len() <= i32::MAX,
        ensures
            exists|rs: Seq<LiveRange>, og: Seq<VReg>, of: Seq<VReg>|
                #[trigger] regalloc_result(
                    func.params@,
                    func.offset as int,
                    touch_lists(flattened(func.blocks@)),
                    rs,
                    og,
                    of,
                    r,
                ),
    {
        let ghost ts = touch_lists(flattened(func.blocks@));
        let mut vreg_loc: Vec<(VReg, Loc<X86RegGpr, X86RegFpr>)> = Vec::new();
        let gp_args = self.arg_regs();
        let fp_args = self.fp_arg_regs();
        let ints = class_params(&func.params, VRegType::Int);
        let floats = class_params(&func.params, VRegType::Float);
        let ni: usize = if ints.len() < 6 { ints.len() } else { 6 };
        let nf: usize = if floats.len() < 8 { floats.len() } else { 8 };
        let mut k: usize = 0;
        proof {
            assert(vreg_loc@ =~= gp_param_locs(ints@, 0));
        }
        while k < ni
            invariant
                k <= ni,
                ni <= ints@.len(),
                ni <= 6,
                gp_args@ == X86Regs::spec_arg_regs(),
                vreg_loc@ == gp_param_locs(ints@, k as nat),
            decreases ni - k,
        {
            vreg_loc.push((ints[k], Loc::PhysReg(RegRef::GprReg(gp_args[k]))));
            proof {
                assert(vreg_loc@ =~= gp_param_locs(ints@, (k + 1) as nat));
            }
            k = k + 1;
        }
        let ghost p1 = vreg_loc@;
        k = 0;
        proof {
            assert(p1 + fp_param_locs(floats@, 0) =~= p1);
        }
        while k < nf
            invariant
                k <= nf,
                nf <= floats@.len(),
                nf <= 8,
                fp_args@ == X86Regs::spec_fp_arg_regs(),
                vreg_loc@ == p1 + fp_param_locs(floats@, k as nat),
            decreases nf - k,
        {
            vreg_loc.push((floats[k], Loc::PhysReg(RegRef::FprReg(fp_args[k]))));
            proof {
                assert(vreg_loc@ =~= p1 + fp_param_locs(floats@, (k + 1) as nat));
            }
            k = k + 1;
        }
        proof {
            assert(vreg_loc@ =~= param_locs(func.params@));
        }
        let rs = function_live_ranges(&func.blocks);
        proof {
            lemma_ranges_count(ts, rs@);
            lemma_class_partition(rs@);
            assert(distinct_vregs(rs@)) by {
                assert forall|i: int, j: int| 0 <= i < rs@.len() && 0 <= j < rs@.len() && i != j implies rs@[i].vreg != rs@[j].vreg by {
                    assert(rs@[i].vreg != rs@[j].vreg);
                }
            }
        }
        let gr = class_ranges(&rs, VRegType::Int);
        let fr = class_ranges(&rs, VRegType::Float);
        let (gg, og) = graph_and_order(&gr, 14);
        let (gf, of) = graph_and_order(&fr, 15);
        let ghost og_v = og@;
        let ghost of_v = of@;
        proof {
            lemma_color_offset(gg@, og@.reverse(), 14, func.offset as int);
        }
        let (g_alloc, o1) = self.color_graph_gpr(og, &gg, func.offset);
        let (f_alloc, o2) = self.color_graph_fpr(of, &gf, o1);
        let ghost base = vreg_loc@;
        let mut used: Vec<X86RegGpr> = Vec::new();
        let mut i: usize = 0;
        proof {
            assert(g_alloc@.take(0) =~= Seq::<(VReg, Loc<X86RegGpr, X86RegFpr>)>::empty());
            assert(base + g_alloc@.take(0) =~= base);
        }
        while i < g_alloc.len()
            invariant
                i <= g_alloc@.len(),
                vreg_loc@ == base + g_alloc@.take(i as int),
                used@ == callee_saved_used(g_alloc@.take(i as int)),
            decreases g_alloc@.len() - i,
        {
            let entry = g_alloc[i];
            vreg_loc.push(entry);
            if let Loc::PhysReg(RegRef::GprReg(reg)) = entry.1 {
                if self.is_callee_saved(&reg) {
                    used.push(reg);
                }
            }
            proof {
                assert(g_alloc@.take(i + 1).drop_last() =~= g_alloc@.take(i as int));
                assert(vreg_loc@ =~= base + g_alloc@.take(i + 1));
            }
            i = i + 1;
        }
        let ghost base2 = vreg_loc@;
        let mut used_fp: Vec<X86RegFpr> = Vec::new();
        i = 0;
        proof {
            assert(f_alloc@.take(0) =~= Seq::<(VReg, Loc<X86RegGpr, X86RegFpr>)>::empty());
            assert(base2 + f_alloc@.take(0) =~= base2);
        }
        while i < f_alloc.len()
            invariant
                i <= f_alloc@.len(),
                vreg_loc@ == base2 + f_alloc@.take(i as int),
                used_fp@ == fp_callee_saved_used(f_alloc@.take(i as int)),
            decreases f_alloc@.len() - i,
        {
            let entry = f_alloc[i];
            vreg_loc.push(entry);
            if let Loc::PhysReg(RegRef::FprReg(reg)) = entry.1 {
                if self.fp_is_callee_saved(reg) {
                    used_fp.push(reg);
                }
            }
            proof {
                assert(f_alloc@.take(i + 1).drop_last() =~= f_alloc@.take(i as int));
                assert(vreg_loc@ =~= base2 + f_alloc@.take(i + 1));
            }
            i = i + 1;
        }
        let r = Allocation {
            vreg_loc,
            local_loc: Vec::new(),
            global_loc: Vec::new(),
            used_callee_saved: used,
            used_callee_saved_fp: used_fp,
            stack_size: o2,
        };
        proof {
            let (ca, c1) = spec_color(gg@, og_v.reverse(), 14, func.offset as int);
            let (cf, c2) = spec_color(gf@, of_v.reverse(), 15, c1);
            assert(g_alloc@.take(g_alloc@.len() as int) =~= gpr_locs(ca));
            assert(f_alloc@.take(f_alloc@.len() as int) =~= fpr_locs(cf));
            assert(r.vreg_loc@ =~= param_locs(func.params@) + gpr_locs(ca) + fpr_locs(cf));
            assert(regalloc_result(func.params@, func.offset as int, ts, rs@, og_v, of_v, r));
        }
        r
    }
}

} // verus!
