use vstd::prelude::*;

use crate::ast::RegWidth;
use crate::interference::{VReg, VRegType};

verus! {

/// The id of a basic block.
#[derive(Debug, Clone, Copy, Default, Hash, PartialEq, Eq, PartialOrd, Ord, Structural)]
pub struct BlockId(pub usize);

/// Hands out block ids 0, 1, 2, ...
#[derive(Debug, Default, Clone)]
pub struct BlockIdGen {
    pub next: usize,
}

impl BlockIdGen {
    /// A generator whose first id is 0.
    pub fn new() -> (g: BlockIdGen)
        ensures
            g.next == 0,
    {
        BlockIdGen { next: 0 }
    }

    /// The next unused block id.
    pub fn fresh(&mut self) -> (id: BlockId)
        requires
            old(self).next < usize::MAX,
        ensures
            id.0 == old(self).next,
            final(self).next == old(self).next + 1,
    {
        let id = BlockId(self.next);
        self.next = self.next + 1;
        id
    }
}

/// Hands out virtual registers with ids 0, 1, 2, ...
#[derive(Debug, Default)]
pub struct VRegGenerator {
    pub next: usize,
}

impl VRegGenerator {
    /// A new virtual register of the given class and width.
    pub fn fresh(&mut self, is_float: bool, width: RegWidth) -> (reg: VReg)
        requires
            old(self).next < usize::MAX,
        ensures
            reg.id == old(self).next,
            reg.ty == (if is_float { VRegType::Float } else { VRegType::Int }),
            reg.width == width,
            final(self).next == old(self).next + 1,
    {
        let reg = VReg {
            id: self.next,
            ty: if is_float {
                VRegType::Float
            } else {
                VRegType::Int
            },
            width,
        };
        self.next = self.next + 1;
        reg
    }
}

/// Hands out local variable ids 0, 1, 2, ...
#[derive(Debug, Default, Clone)]
pub struct VarGenerator {
    pub next: usize,
}

impl VarGenerator {
    /// The next unused local id.
    pub fn fresh(&mut self) -> (id: usize)
        requires
            old(self).next < usize::MAX,
        ensures
            id == old(self).next,
            final(self).next == old(self).next + 1,
    {
        let id = self.next;
        self.next = self.next + 1;
        id
    }
}

/// Hands out global ids 0, 1, 2, ...
#[derive(Debug, Default, Clone)]
pub struct GlobalGenerator {
    pub next: usize,
}

impl GlobalGenerator {
    /// The next unused global id.
    pub fn fresh(&mut self) -> (id: usize)
        requires
            old(self).next < usize::MAX,
        ensures
            id == old(self).next,
            final(self).next == old(self).next + 1,
    {
        let id = self.next;
        self.next = self.next + 1;
        id
    }
}

/// Ids handed out by successive calls of a generator are distinct: every id handed out
/// is below the generator's counter, which only grows.
pub proof fn law_fresh_ids_distinct(first: usize, counter_after_first: usize, second: usize)
    requires
        counter_after_first == first + 1,
        second >= counter_after_first,
    ensures
        first != second,
{
}


/// A struct of the program: each field with its offset and type, and the struct's size.
#[derive(Debug)]
pub struct StructDef {
    pub name: String,
    pub fields: crate::alias::Table<(i32, crate::ast::Type)>,
    pub is_union: bool,
    pub size: usize,
}


/// A generator that starts at 0 and is asked `k` times hands out 0, 1, ..., k - 1, in
/// increasing order, and ends with its counter at `k`: `counters[i]` is its counter before
/// call `i`, and `ids[i]` what call `i` returned.
pub proof fn law_fresh_ids_count_up(counters: Seq<int>, ids: Seq<int>)
    requires
        counters.len() == ids.len() + 1,
        counters[0] == 0,
        forall|i: int| 0 <= i < ids.len() ==> #[trigger] ids[i] == counters[i] && counters[i + 1] == counters[i] + 1,
    ensures
        forall|i: int| 0 <= i < ids.len() ==> #[trigger] ids[i] == i,
        counters.last() == ids.len(),
        forall|i: int, j: int| 0 <= i < j < ids.len() ==> ids[i] < ids[j],
    decreases ids.len(),
{
    if ids.len() > 0 {
        let c2 = counters.drop_last();
        let i2 = ids.drop_last();
        assert forall|i: int| 0 <= i < i2.len() implies #[trigger] i2[i] == c2[i] && c2[i + 1] == c2[i] + 1 by {
            assert(ids[i] == counters[i] && counters[i + 1] == counters[i] + 1);
        }
        law_fresh_ids_count_up(c2, i2);
        assert forall|i: int| 0 <= i < ids.len() implies #[trigger] ids[i] == i by {
            if i < i2.len() {
                assert(i2[i] == i);
            } else {
                assert(ids[i] == counters[i]);
                assert(c2.last() == i2.len());
            }
        }
        let n: int = ids.len() - 1;
        assert(ids[n] == n);
        assert(counters[n + 1] == counters[n] + 1);
        assert(counters[n] == c2.last());
        assert(counters.last() == counters[n + 1]);
    }
}

} // verus!
