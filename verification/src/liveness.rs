use vstd::prelude::*;

use crate::interference::{LiveRange, VReg};
use crate::ir::{IRBlock, IRInstruction, Terminator, Value};

verus! {

/// An instruction or the terminator of a block, in the order the blocks lay them out.
#[derive(Debug)]
pub enum LifetimeInstr {
    IRInstruction(IRInstruction),
    Terminator(Terminator),
}

/// The virtual register an operand names, if any.
pub open spec fn value_vregs(v: Value) -> Seq<VReg> {
    match v {
        Value::Reg(r) => seq![r],
        _ => Seq::empty(),
    }
}

pub open spec fn opt_vregs(o: Option<VReg>) -> Seq<VReg> {
    match o {
        Some(r) => seq![r],
        None => Seq::empty(),
    }
}

/// The virtual registers that a list of operands names, in order.
pub open spec fn values_vregs(vs: Seq<Value>) -> Seq<VReg>
    decreases vs.len(),
{
    if vs.len() == 0 {
        Seq::empty()
    } else {
        values_vregs(vs.drop_last()) + value_vregs(vs.last())
    }
}

pub open spec fn binary_vregs(reg: VReg, left: Value, right: Value) -> Seq<VReg> {
    value_vregs(right) + value_vregs(left) + seq![reg]
}

/// The virtual registers an instruction reads or writes: the operands of arithmetic and
/// comparisons and their result, the source and result of casts, loads, moves, address
/// computations and copies, the address and value of stores, the result and arguments of
/// calls, and the value a block returns or branches on. The index of a `Gep` is not
/// counted.
pub open spec fn touched(i: LifetimeInstr) -> Seq<VReg> {
    match i {
        LifetimeInstr::IRInstruction(ins) => match ins {
            IRInstruction::Add { reg, left, right } => binary_vregs(reg, left, right),
            IRInstruction::Sub { reg, left, right } => binary_vregs(reg, left, right),
            IRInstruction::Mul { reg, left, right } => binary_vregs(reg, left, right),
            IRInstruction::Div { reg, left, right } => binary_vregs(reg, left, right),
            IRInstruction::Mod { reg, left, right } => binary_vregs(reg, left, right),
            IRInstruction::Eq { reg, left, right } => binary_vregs(reg, left, right),
            IRInstruction::Ne { reg, left, right } => binary_vregs(reg, left, right),
            IRInstruction::Lt { reg, left, right } => binary_vregs(reg, left, right),
            IRInstruction::Le { reg, left, right } => binary_vregs(reg, left, right),
            IRInstruction::Ge { reg, left, right } => binary_vregs(reg, left, right),
            IRInstruction::Gt { reg, left, right } => binary_vregs(reg, left, right),
            IRInstruction::Cast { reg, src, .. } => value_vregs(src).push(reg),
            IRInstruction::Load { reg, addr, .. } => value_vregs(addr).push(reg),
            IRInstruction::Store { value, addr, .. } => value_vregs(addr) + value_vregs(value),
            IRInstruction::Gep { dest, base, .. } => seq![dest] + value_vregs(base),
            IRInstruction::Call { reg, args, .. } => opt_vregs(reg) + values_vregs(args@),
            IRInstruction::Move { dest, from } => seq![dest] + value_vregs(from),
            IRInstruction::AddressOf { dest, src } => seq![dest] + value_vregs(src),
            IRInstruction::Memcpy { dst, src, .. } => value_vregs(src) + value_vregs(dst),
            IRInstruction::Declaration(_) => Seq::empty(),
        },
        LifetimeInstr::Terminator(t) => match t {
            Terminator::Return { value: Some(v) } => value_vregs(v),
            Terminator::Branch { condition, .. } => value_vregs(condition),
            _ => Seq::empty(),
        },
    }
}

/// The registers each instruction touches.
pub open spec fn touch_lists(insts: Seq<LifetimeInstr>) -> Seq<Seq<VReg>> {
    Seq::new(insts.len(), |i: int| touched(insts[i]))
}

/// `r` spans from the first to the last instruction of `ts` that touches its register.
pub open spec fn is_live_range(ts: Seq<Seq<VReg>>, r: LiveRange) -> bool {
    &&& r.start <= r.end < ts.len()
    &&& ts[r.start as int].contains(r.vreg)
    &&& ts[r.end as int].contains(r.vreg)
    &&& forall|j: int| 0 <= j < r.start ==> !(#[trigger] ts[j]).contains(r.vreg)
    &&& forall|j: int| r.end < j < ts.len() ==> !(#[trigger] ts[j]).contains(r.vreg)
}

/// `rs` holds one live range for each register that `ts` touches, and no other.
pub open spec fn live_ranges_of(ts: Seq<Seq<VReg>>, rs: Seq<LiveRange>) -> bool {
    &&& forall|k: int| 0 <= k < rs.len() ==> is_live_range(ts, #[trigger] rs[k])
    &&& forall|k1: int, k2: int| 0 <= k1 < rs.len() && 0 <= k2 < rs.len() && k1 != k2 ==> (#[trigger] rs[k1]).vreg != (#[trigger] rs[k2]).vreg
    &&& forall|i: int, v: VReg| #![trigger ts[i].contains(v)] 0 <= i < ts.len() && ts[i].contains(v) ==> exists|k: int| 0 <= k < rs.len() && (#[trigger] rs[k]).vreg == v
}

/// The register an operand names, if any.
pub fn vreg_of_value(value: &Value) -> (r: Option<&VReg>)
    ensures
        opt_vregs(match r {
            Some(x) => Some(*x),
            None => None,
        }) == value_vregs(*value),
{
    if let Value::Reg(vreg) = value {
        return Some(vreg);
    }
    None
}

fn push_value(out: &mut Vec<VReg>, v: &Value)
    ensures
        final(out)@ == old(out)@ + value_vregs(*v),
{
    match vreg_of_value(v) {
        Some(r) => {
            out.push(*r);
        },
        None => {
            proof {
                assert(old(out)@ + value_vregs(*v) =~= old(out)@);
            }
        },
    }
}

fn push_binary(out: &mut Vec<VReg>, reg: &VReg, left: &Value, right: &Value)
    requires
        old(out)@.len() == 0,
    ensures
        final(out)@ == binary_vregs(*reg, *left, *right),
{
    push_value(out, right);
    push_value(out, left);
    out.push(*reg);
    proof {
        assert(out@ =~= binary_vregs(*reg, *left, *right));
    }
}

/// The registers the instruction `ins` touches; see `touched`.
pub fn inst_touches(ins: &IRInstruction) -> (r: Vec<VReg>)
    ensures
        r@ == touched(LifetimeInstr::IRInstruction(*ins)),
{
    let mut out: Vec<VReg> = Vec::new();
    proof {
        assert(out@ =~= Seq::<VReg>::empty());
    }
    match ins {
        IRInstruction::Add { reg, left, right } => push_binary(&mut out, reg, left, right),
        IRInstruction::Sub { reg, left, right } => push_binary(&mut out, reg, left, right),
        IRInstruction::Mul { reg, left, right } => push_binary(&mut out, reg, left, right),
        IRInstruction::Div { reg, left, right } => push_binary(&mut out, reg, left, right),
        IRInstruction::Mod { reg, left, right } => push_binary(&mut out, reg, left, right),
        IRInstruction::Eq { reg, left, right } => push_binary(&mut out, reg, left, right),
        IRInstruction::Ne { reg, left, right } => push_binary(&mut out, reg, left, right),
        IRInstruction::Lt { reg, left, right } => push_binary(&mut out, reg, left, right),
        IRInstruction::Le { reg, left, right } => push_binary(&mut out, reg, left, right),
        IRInstruction::Ge { reg, left, right } => push_binary(&mut out, reg, left, right),
        IRInstruction::Gt { reg, left, right } => push_binary(&mut out, reg, left, right),
        IRInstruction::Cast { reg, src, .. } => {
            push_value(&mut out, src);
            out.push(*reg);
        },
        IRInstruction::Load { reg, addr, .. } => {
            push_value(&mut out, addr);
            out.push(*reg);
        },
        IRInstruction::Store { value, addr, .. } => {
            push_value(&mut out, addr);
            push_value(&mut out, value);
        },
        IRInstruction::Gep { dest, base, .. } => {
            out.push(*dest);
            push_value(&mut out, base);
        },
        IRInstruction::Call { reg, args, .. } => {
            if let Some(r) = reg {
                out.push(*r);
            }
            let ghost first = out@;
            proof {
                assert(first =~= opt_vregs(*reg));
                assert(args@.take(0) =~= Seq::<Value>::empty());
            }
            let mut i: usize = 0;
            while i < args.len()
                invariant
                    i <= args@.len(),
                    out@ == first + values_vregs(args@.take(i as int)),
                decreases args@.len() - i,
            {
                push_value(&mut out, &args[i]);
                proof {
                    assert(args@.take(i + 1).drop_last() =~= args@.take(i as int));
                    assert(out@ =~= first + values_vregs(args@.take(i + 1)));
                }
                i = i + 1;
            }
            proof {
                assert(args@.take(args@.len() as int) =~= args@);
            }
        },
        IRInstruction::Move { dest, from } => {
            out.push(*dest);
            push_value(&mut out, from);
        },
        IRInstruction::AddressOf { dest, src } => {
            out.push(*dest);
            push_value(&mut out, src);
        },
        IRInstruction::Memcpy { dst, src, .. } => {
            push_value(&mut out, src);
            push_value(&mut out, dst);
        },
        IRInstruction::Declaration(_) => {},
    }
    proof {
        assert(out@ =~= touched(LifetimeInstr::IRInstruction(*ins)));
    }
    out
}

/// The registers a terminator touches; see `touched`.
pub fn term_touches(t: &Terminator) -> (r: Vec<VReg>)
    ensures
        r@ == touched(LifetimeInstr::Terminator(*t)),
{
    let mut out: Vec<VReg> = Vec::new();
    match t {
        Terminator::Return { value: Some(v) } => push_value(&mut out, v),
        Terminator::Branch { condition, .. } => push_value(&mut out, condition),
        _ => {},
    }
    proof {
        assert(out@ =~= touched(LifetimeInstr::Terminator(*t)));
    }
    out
}

/// The registers `inst` touches; see `touched`.
pub fn touched_vregs(inst: &LifetimeInstr) -> (r: Vec<VReg>)
    ensures
        r@ == touched(*inst),
{
    match inst {
        LifetimeInstr::IRInstruction(ins) => inst_touches(ins),
        LifetimeInstr::Terminator(t) => term_touches(t),
    }
}

proof fn lemma_push_contains(s: Seq<VReg>, x: VReg, y: VReg)
    ensures
        s.push(x).contains(y) <==> (s.contains(y) || x == y),
{
    if s.push(x).contains(y) {
        let i = choose|i: int| 0 <= i < s.push(x).len() && s.push(x)[i] == y;
        if i < s.len() {
            assert(s[i] == y);
        }
    }
    if s.contains(y) {
        let i = choose|i: int| 0 <= i < s.len() && s[i] == y;
        assert(s.push(x)[i] == y);
    }
    if x == y {
        assert(s.push(x)[s.len() as int] == y);
    }
}

/// Adding `vreg` to the last instruction changes, for any other register, nothing that
/// `is_live_range` looks at.
proof fn lemma_other_ranges_kept(done: Seq<Seq<VReg>>, cur: Seq<VReg>, vreg: VReg, r: LiveRange)
    requires
        is_live_range(done.push(cur), r),
        r.vreg != vreg,
    ensures
        is_live_range(done.push(cur.push(vreg)), r),
{
    let before = done.push(cur);
    let after = done.push(cur.push(vreg));
    assert forall|j: int| 0 <= j < after.len() implies (#[trigger] after[j]).contains(r.vreg) == before[j].contains(r.vreg) by {
        if j < done.len() {
            assert(after[j] == before[j]);
        } else {
            lemma_push_contains(cur, vreg, r.vreg);
        }
    }
    assert(after[r.start as int].contains(r.vreg) == before[r.start as int].contains(r.vreg));
    assert(after[r.end as int].contains(r.vreg) == before[r.end as int].contains(r.vreg));
}

/// Records that the instruction at `idx` touches `vreg`: its range now ends at `idx`, or
/// starts there when `vreg` was not touched before.
fn update_live_range(vreg: VReg, ranges: &mut Vec<LiveRange>, idx: usize, Ghost(done): Ghost<Seq<Seq<VReg>>>, Ghost(cur): Ghost<Seq<VReg>>)
    requires
        idx == done.len(),
        live_ranges_of(done.push(cur), old(ranges)@),
    ensures
        live_ranges_of(done.push(cur.push(vreg)), final(ranges)@),
{
    let ghost before = done.push(cur);
    let ghost after = done.push(cur.push(vreg));
    let ghost rs0 = ranges@;
    proof {
        lemma_push_contains(cur, vreg, vreg);
        assert(after[idx as int].contains(vreg));
    }
    let mut k: usize = 0;
    while k < ranges.len()
        invariant
            k <= ranges@.len(),
            ranges@ == rs0,
            forall|m: int| 0 <= m < k ==> (#[trigger] rs0[m]).vreg != vreg,
            idx == done.len(),
            before == done.push(cur),
            after == done.push(cur.push(vreg)),
            after[idx as int].contains(vreg),
            live_ranges_of(before, rs0),
        decreases ranges@.len() - k,
    {
        if ranges[k].vreg == vreg {
            let r = LiveRange { vreg, start: ranges[k].start, end: idx };
            ranges.set(k, r);
            proof {
                let rs = ranges@;
                assert forall|m: int| 0 <= m < rs.len() implies is_live_range(after, #[trigger] rs[m]) by {
                    if m == k {
                        assert(is_live_range(before, rs0[m]));
                        let s0 = rs0[m].start as int;
                        if s0 < idx {
                            assert(after[s0] == before[s0]);
                        }
                        assert forall|j: int| 0 <= j < r.start implies !(#[trigger] after[j]).contains(r.vreg) by {
                            assert(after[j] == before[j]);
                        }
                    } else {
                        assert(rs[m] == rs0[m]);
                        assert(rs0[m].vreg != rs0[k as int].vreg);
                        lemma_other_ranges_kept(done, cur, vreg, rs0[m]);
                    }
                }
                assert forall|k1: int, k2: int| 0 <= k1 < rs.len() && 0 <= k2 < rs.len() && k1 != k2 implies (#[trigger] rs[k1]).vreg != (#[trigger] rs[k2]).vreg by {
                    assert(rs0[k1].vreg != rs0[k2].vreg);
                }
                assert forall|i: int, v: VReg| 0 <= i < after.len() && after[i].contains(v) implies exists|q: int| 0 <= q < rs.len() && (#[trigger] rs[q]).vreg == v by {
                    if v == vreg {
                        assert(rs[k as int].vreg == v);
                    } else {
                        if i < done.len() {
                            assert(after[i] == before[i]);
                        } else {
                            lemma_push_contains(cur, vreg, v);
                        }
                        assert(before[i].contains(v));
                        let q = choose|q: int| 0 <= q < rs0.len() && (#[trigger] rs0[q]).vreg == v;
                        assert(rs[q].vreg == v);
                    }
                }
            }
            return;
        }
        k = k + 1;
    }
    ranges.push(LiveRange { vreg, start: idx, end: idx });
    proof {
        let rs = ranges@;
        let n = rs0.len() as int;
        assert forall|i: int| 0 <= i < before.len() implies !(#[trigger] before[i]).contains(vreg) by {
            if before[i].contains(vreg) {
                let q = choose|q: int| 0 <= q < rs0.len() && (#[trigger] rs0[q]).vreg == vreg;
                assert(rs0[q].vreg != vreg);
            }
        }
        assert forall|m: int| 0 <= m < rs.len() implies is_live_range(after, #[trigger] rs[m]) by {
            if m == n {
                assert forall|j: int| 0 <= j < idx implies !(#[trigger] after[j]).contains(vreg) by {
                    assert(after[j] == before[j]);
                }
            } else {
                assert(rs[m] == rs0[m]);
                lemma_other_ranges_kept(done, cur, vreg, rs0[m]);
            }
        }
        assert forall|k1: int, k2: int| 0 <= k1 < rs.len() && 0 <= k2 < rs.len() && k1 != k2 implies (#[trigger] rs[k1]).vreg != (#[trigger] rs[k2]).vreg by {
            if k1 < n && k2 < n {
                assert(rs0[k1].vreg != rs0[k2].vreg);
            }
        }
        assert forall|i: int, v: VReg| 0 <= i < after.len() && after[i].contains(v) implies exists|q: int| 0 <= q < rs.len() && (#[trigger] rs[q]).vreg == v by {
            if v == vreg {
                assert(rs[n].vreg == v);
            } else {
                if i < done.len() {
                    assert(after[i] == before[i]);
                } else {
                    lemma_push_contains(cur, vreg, v);
                }
                assert(before[i].contains(v));
                let q = choose|q: int| 0 <= q < rs0.len() && (#[trigger] rs0[q]).vreg == v;
                assert(rs[q].vreg == v);
            }
        }
    }
}

proof fn lemma_ranges_push_empty(ts: Seq<Seq<VReg>>, rs: Seq<LiveRange>)
    requires
        live_ranges_of(ts, rs),
    ensures
        live_ranges_of(ts.push(Seq::empty()), rs),
{
    let t2 = ts.push(Seq::<VReg>::empty());
    assert forall|k: int| 0 <= k < rs.len() implies is_live_range(t2, #[trigger] rs[k]) by {
        assert(is_live_range(ts, rs[k]));
        assert(t2[rs[k].start as int] == ts[rs[k].start as int]);
        assert(t2[rs[k].end as int] == ts[rs[k].end as int]);
        assert forall|j: int| 0 <= j < rs[k].start implies !(#[trigger] t2[j]).contains(rs[k].vreg) by {
            assert(t2[j] == ts[j]);
        }
        assert forall|j: int| rs[k].end < j < t2.len() implies !(#[trigger] t2[j]).contains(rs[k].vreg) by {
            if j < ts.len() {
                assert(t2[j] == ts[j]);
            }
        }
    }
    assert forall|i: int, v: VReg| 0 <= i < t2.len() && t2[i].contains(v) implies exists|q: int| 0 <= q < rs.len() && (#[trigger] rs[q]).vreg == v by {
        if i < ts.len() {
            assert(t2[i] == ts[i]);
            assert(ts[i].contains(v));
        }
    }
}

/// Records every register of `vs` as touched by the instruction at `idx`.
fn record_touches(vs: &Vec<VReg>, ranges: &mut Vec<LiveRange>, idx: usize, Ghost(done): Ghost<Seq<Seq<VReg>>>)
    requires
        idx == done.len(),
        live_ranges_of(done, old(ranges)@),
    ensures
        live_ranges_of(done.push(vs@), final(ranges)@),
{
    proof {
        lemma_ranges_push_empty(done, ranges@);
        assert(vs@.take(0) =~= Seq::<VReg>::empty());
    }
    let mut j: usize = 0;
    while j < vs.len()
        invariant
            j <= vs@.len(),
            done.len() == idx,
            live_ranges_of(done.push(vs@.take(j as int)), ranges@),
        decreases vs@.len() - j,
    {
        update_live_range(vs[j], ranges, idx, Ghost(done), Ghost(vs@.take(j as int)));
        proof {
            assert(vs@.take(j as int).push(vs@[j as int]) =~= vs@.take(j + 1));
        }
        j = j + 1;
    }
    proof {
        assert(vs@.take(vs@.len() as int) =~= vs@);
    }
}

/// The live range of every virtual register that `insts` touches: from the index of the
/// first instruction that touches it to the index of the last, one range per register.
pub fn assign_live_ranges(insts: Vec<LifetimeInstr>) -> (rs: Vec<LiveRange>)
    ensures
        live_ranges_of(touch_lists(insts@), rs@),
{
    let ghost ts = touch_lists(insts@);
    let mut ranges: Vec<LiveRange> = Vec::new();
    let mut idx: usize = 0;
    proof {
        assert(ts.take(0) =~= Seq::<Seq<VReg>>::empty());
    }
    while idx < insts.len()
        invariant
            idx <= insts@.len(),
            ts == touch_lists(insts@),
            live_ranges_of(ts.take(idx as int), ranges@),
        decreases insts@.len() - idx,
    {
        let vs = touched_vregs(&insts[idx]);
        record_touches(&vs, &mut ranges, idx, Ghost(ts.take(idx as int)));
        proof {
            assert(ts.take(idx as int).push(vs@) =~= ts.take(idx + 1));
        }
        idx = idx + 1;
    }
    proof {
        assert(ts.take(insts@.len() as int) =~= ts);
    }
    ranges
}

/// The instructions of a block, then its terminator.
pub open spec fn block_instrs(b: IRBlock) -> Seq<LifetimeInstr> {
    Seq::new(b.instructions@.len(), |i: int| LifetimeInstr::IRInstruction(b.instructions@[i])).push(
        LifetimeInstr::Terminator(b.terminator),
    )
}

/// The blocks laid out one after the other.
pub open spec fn flattened(blocks: Seq<IRBlock>) -> Seq<LifetimeInstr>
    decreases blocks.len(),
{
    if blocks.len() == 0 {
        Seq::empty()
    } else {
        flattened(blocks.drop_last()) + block_instrs(blocks.last())
    }
}

/// Lays the blocks out one after the other, each as its instructions and then its
/// terminator.
pub fn flatten_blocks(blocks: Vec<IRBlock>) -> (r: Vec<LifetimeInstr>)
    ensures
        r@ == flattened(blocks@),
{
    let ghost orig = blocks@;
    let mut blocks = blocks;
    let mut out: Vec<LifetimeInstr> = Vec::new();
    let mut i: usize = 0;
    let _n = blocks.len();
    proof {
        assert(orig.skip(0) =~= orig);
        assert(orig.take(0) =~= Seq::<IRBlock>::empty());
    }
    while blocks.len() > 0
        invariant
            i + blocks@.len() == orig.len(),
            orig.len() <= usize::MAX,
            blocks@ == orig.skip(i as int),
            out@ == flattened(orig.take(i as int)),
        decreases blocks@.len(),
    {
        let b = blocks.remove(0);
        let ghost bv = b;
        proof {
            assert(bv == orig[i as int]);
            assert(blocks@ =~= orig.skip(i + 1));
        }
        let IRBlock { id: _, instructions, terminator } = b;
        let ghost base = out@;
        let ghost ins0 = instructions@;
        let mut ins = instructions;
        let mut k: usize = 0;
        let _m = ins.len();
        proof {
            assert(ins0.skip(0) =~= ins0);
        }
        while ins.len() > 0
            invariant
                k + ins@.len() == ins0.len(),
                ins0.len() <= usize::MAX,
                ins@ == ins0.skip(k as int),
                out@ == base + Seq::new(k as nat, |j: int| LifetimeInstr::IRInstruction(ins0[j])),
            decreases ins@.len(),
        {
            let x = ins.remove(0);
            proof {
                assert(x == ins0[k as int]);
                assert(ins@ =~= ins0.skip(k + 1));
            }
            out.push(LifetimeInstr::IRInstruction(x));
            proof {
                assert(out@ =~= base + Seq::new((k + 1) as nat, |j: int| LifetimeInstr::IRInstruction(ins0[j])));
            }
            k = k + 1;
        }
        out.push(LifetimeInstr::Terminator(terminator));
        proof {
            assert(orig.take(i + 1).drop_last() =~= orig.take(i as int));
            assert(orig.take(i + 1).last() == bv);
            assert(out@ =~= flattened(orig.take(i as int)) + block_instrs(bv));
        }
        i = i + 1;
    }
    proof {
        assert(orig.take(i as int) =~= orig);
    }
    out
}


proof fn lemma_flattened_step(blocks: Seq<IRBlock>, i: int)
    requires
        0 <= i < blocks.len(),
    ensures
        flattened(blocks.take(i + 1)) == flattened(blocks.take(i)) + block_instrs(blocks[i]),
        touch_lists(flattened(blocks.take(i + 1))) == touch_lists(flattened(blocks.take(i)))
            + Seq::new(
            blocks[i].instructions@.len(),
            |k: int| touched(LifetimeInstr::IRInstruction(blocks[i].instructions@[k])),
        ).push(touched(LifetimeInstr::Terminator(blocks[i].terminator))),
{
    assert(blocks.take(i + 1).drop_last() =~= blocks.take(i));
    let a = flattened(blocks.take(i));
    let b = block_instrs(blocks[i]);
    assert(touch_lists(a + b) =~= touch_lists(a) + Seq::new(
        blocks[i].instructions@.len(),
        |k: int| touched(LifetimeInstr::IRInstruction(blocks[i].instructions@[k])),
    ).push(touched(LifetimeInstr::Terminator(blocks[i].terminator))));
}

/// The live range of every virtual register that the blocks touch, the blocks laid out
/// one after the other; see `assign_live_ranges`.
pub fn function_live_ranges(blocks: &Vec<IRBlock>) -> (rs: Vec<LiveRange>)
    requires
        flattened(blocks@).len() <= usize::MAX,
    ensures
        live_ranges_of(touch_lists(flattened(blocks@)), rs@),
{
    let mut ranges: Vec<LiveRange> = Vec::new();
    let mut idx: usize = 0;
    let mut i: usize = 0;
    proof {
        assert(blocks@.take(0) =~= Seq::<IRBlock>::empty());
        assert(touch_lists(flattened(blocks@.take(0))) =~= Seq::<Seq<VReg>>::empty());
    }
    while i < blocks.len()
        invariant
            i <= blocks@.len(),
            flattened(blocks@).len() <= usize::MAX,
            idx == flattened(blocks@.take(i as int)).len(),
            live_ranges_of(touch_lists(flattened(blocks@.take(i as int))), ranges@),
        decreases blocks@.len() - i,
    {
        let b = &blocks[i];
        let ghost t0 = touch_lists(flattened(blocks@.take(i as int)));
        let ghost ins = b.instructions@;
        proof {
            lemma_flattened_step(blocks@, i as int);
            lemma_flattened_prefix_len(blocks@, i + 1);
        }
        let mut j: usize = 0;
        proof {
            assert(t0 + Seq::new(0, |k: int| touched(LifetimeInstr::IRInstruction(ins[k]))) =~= t0);
        }
        while j < b.instructions.len()
            invariant
                j <= ins.len(),
                ins == b.instructions@,
                i < blocks@.len(),
                *b == blocks@[i as int],
                t0 == touch_lists(flattened(blocks@.take(i as int))),
                t0.len() == flattened(blocks@.take(i as int)).len(),
                flattened(blocks@.take(i + 1)).len() <= usize::MAX,
                flattened(blocks@.take(i + 1)) == flattened(blocks@.take(i as int)) + block_instrs(blocks@[i as int]),
                idx == t0.len() + j,
                live_ranges_of(t0 + Seq::new(j as nat, |k: int| touched(LifetimeInstr::IRInstruction(ins[k]))), ranges@),
            decreases ins.len() - j,
        {
            let vs = inst_touches(&b.instructions[j]);
            let ghost before = t0 + Seq::new(j as nat, |k: int| touched(LifetimeInstr::IRInstruction(ins[k])));
            record_touches(&vs, &mut ranges, idx, Ghost(before));
            proof {
                assert(before.push(vs@) =~= t0 + Seq::new((j + 1) as nat, |k: int| touched(LifetimeInstr::IRInstruction(ins[k]))));
            }
            idx = idx + 1;
            j = j + 1;
        }
        let vs = term_touches(&b.terminator);
        let ghost before = t0 + Seq::new(ins.len(), |k: int| touched(LifetimeInstr::IRInstruction(ins[k])));
        proof {
            assert(t0 + Seq::new(j as nat, |k: int| touched(LifetimeInstr::IRInstruction(ins[k]))) =~= before);
        }
        record_touches(&vs, &mut ranges, idx, Ghost(before));
        idx = idx + 1;
        i = i + 1;
    }
    proof {
        assert(blocks@.take(blocks@.len() as int) =~= blocks@);
    }
    ranges
}

/// A prefix of the blocks lays out to no more instructions than all of them.
proof fn lemma_flattened_prefix_len(blocks: Seq<IRBlock>, i: int)
    requires
        0 <= i <= blocks.len(),
    ensures
        flattened(blocks.take(i)).len() <= flattened(blocks).len(),
    decreases blocks.len() - i,
{
    if i < blocks.len() {
        lemma_flattened_prefix_len(blocks, i + 1);
        lemma_flattened_step(blocks, i);
    } else {
        assert(blocks.take(i) =~= blocks);
    }
}

} // verus!
