use vstd::prelude::*;

use std::collections::VecDeque;

use crate::alias::Table;
use crate::ast::{Stmt, Type, TypeV};
use crate::consts::trunc_div;
use crate::layout::StructLayout;

verus! {

/// The state of the x86-64 code generator: the text written so far, the free scratch
/// registers, the functions still to generate, the locals of the current function with
/// their struct type, stack offset and type, the stack used so far, the externs and the
/// struct layouts.
pub struct CodeGen {
    pub output: String,
    pub regs: VecDeque<String>,
    pub fp_regs: VecDeque<String>,
    pub jmp_count: u32,
    pub functions: Vec<(String, Vec<(String, Type)>, Vec<Stmt>)>,
    pub locals: Table<(Option<String>, i32, Type)>,
    pub stack_size: i32,
    pub externs: Vec<String>,
    pub structes: Table<(StructLayout, Stmt)>,
    pub aarch64: bool,
}

/// The struct a local of type `t` refers to: the struct itself, or the struct a pointer
/// points to.
pub open spec fn local_struct(t: TypeV) -> Option<Seq<char>> {
    match t {
        TypeV::Pointer(inner) => match *inner {
            TypeV::Struct { name, .. } => Some(name),
            _ => None,
        },
        TypeV::Struct { name, .. } => Some(name),
        _ => None,
    }
}

pub open spec fn opt_name_view(o: Option<String>) -> Option<Seq<char>> {
    match o {
        Some(s) => Some(s@),
        None => None,
    }
}

/// Whether a call made with `stack_size` bytes of locals on the stack needs 8 bytes of
/// padding to keep the stack 16-byte aligned: an odd number of 8-byte slots.
pub open spec fn needs_pad(stack_size: i32) -> bool {
    ((trunc_div(stack_size as int, 8) as i32) & 1i32) != 0
}

fn struct_of(ty: &Type) -> (r: Option<String>)
    ensures
        opt_name_view(r) == local_struct(ty@),
{
    match ty {
        Type::Pointer(inner) => {
            match &**inner {
                Type::Struct { name: cls_name, .. } => Some(cls_name.clone()),
                other => {
                    assert(!(other@ is Struct));
                    None
                },
            }
        },
        Type::Struct { name: cls_name, .. } => Some(cls_name.clone()),
        _ => None,
    }
}

impl CodeGen {
    /// Reserves an 8-byte stack slot for the local `name` of type `ty` and returns its
    /// offset below the frame base.
    pub fn alloc_local(&mut self, name: &str, ty: &Type) -> (r: i32)
        requires
            old(self).stack_size + 8 <= i32::MAX,
        ensures
            r == old(self).stack_size + 8,
            final(self).stack_size == r,
            final(self).output@ == old(self).output@ + "sub rsp, 8\n"@,
            final(self).locals@.dom() == old(self).locals@.dom().insert(name@),
            forall|k: Seq<char>| k != name@ && #[trigger] old(self).locals@.contains_key(k) ==> final(self).locals@[k] == old(self).locals@[k],
            opt_name_view(final(self).locals@[name@].0) == local_struct(ty@),
            final(self).locals@[name@].1 == r,
            final(self).locals@[name@].2@ == ty@,
            final(self).regs == old(self).regs,
            final(self).fp_regs == old(self).fp_regs,
            final(self).jmp_count == old(self).jmp_count,
            final(self).functions == old(self).functions,
            final(self).externs == old(self).externs,
            final(self).structes == old(self).structes,
            final(self).aarch64 == old(self).aarch64,
    {
        self.stack_size = self.stack_size + 8;
        self.output.append("sub rsp, 8\n");
        let offset = self.stack_size;
        let struct_info = struct_of(ty);
        self.locals.insert(name.to_owned(), (struct_info, offset, ty.duplicate()));
        offset
    }

    /// The stack offset of the local `name`, if it is one.
    pub fn local_offset(&self, name: &str) -> (r: Option<i32>)
        ensures
            r == (if self.locals@.contains_key(name@) {
                Some(self.locals@[name@].1)
            } else {
                None
            }),
    {
        match self.locals.get(name) {
            Some(info) => Some(info.1),
            None => None,
        }
    }

    /// Calls `target`, padding the stack by 8 bytes around the call when an odd number of
    /// 8-byte slots is in use.
    pub fn call_with_alignment(&mut self, target: &str)
        ensures
            final(self).output@ == old(self).output@ + (if needs_pad(old(self).stack_size) {
                "sub rsp, 8\n"@
            } else {
                Seq::empty()
            }) + "call "@ + target@ + "\n"@ + (if needs_pad(old(self).stack_size) {
                "add rsp, 8\n"@
            } else {
                Seq::empty()
            }),
            final(self).stack_size == old(self).stack_size,
            final(self).locals == old(self).locals,
            final(self).regs == old(self).regs,
            final(self).fp_regs == old(self).fp_regs,
            final(self).jmp_count == old(self).jmp_count,
            final(self).functions == old(self).functions,
            final(self).externs == old(self).externs,
            final(self).structes == old(self).structes,
            final(self).aarch64 == old(self).aarch64,
    {
        let slots = self.stack_size / 8;
        let need_pad = (slots & 1) != 0;
        let ghost before = self.output@;
        if need_pad {
            self.output.append("sub rsp, 8\n");
        }
        let ghost mid = self.output@;
        self.output.append("call ");
        self.output.append(target);
        self.output.append("\n");
        if need_pad {
            self.output.append("add rsp, 8\n");
        }
        proof {
            assert(slots as int == trunc_div(old(self).stack_size as int, 8));
            if need_pad {
                assert(self.output@ =~= before + "sub rsp, 8\n"@ + "call "@ + target@ + "\n"@ + "add rsp, 8\n"@);
            } else {
                assert(self.output@ =~= before + Seq::<char>::empty() + "call "@ + target@ + "\n"@ + Seq::<char>::empty());
            }
        }
    }
}


/// Pushes `name` onto the back of `q`.
fn push_name(q: &mut VecDeque<String>, name: &str)
    ensures
        final(q)@.map_values(|s: String| s@) == old(q)@.map_values(|s: String| s@).push(name@),
{
    q.push_back(name.to_owned());
    proof {
        assert(q@.map_values(|s: String| s@) =~= old(q)@.map_values(|s: String| s@).push(name@));
    }
}

impl CodeGen {
    /// A generator with nothing written yet, no locals, and the scratch registers `rcx`,
    /// `rdx`, `rax`, `r8` to `r14` and `xmm0` to `xmm7` free.
    pub fn new() -> (r: CodeGen)
        ensures
            r.output@ == Seq::<char>::empty(),
            r.regs@.map_values(|s: String| s@) == seq![
                "rcx"@, "rdx"@, "rax"@, "r8"@, "r9"@, "r10"@, "r11"@, "r12"@, "r13"@, "r14"@,
            ],
            r.fp_regs@.map_values(|s: String| s@) == seq![
                "xmm0"@, "xmm1"@, "xmm2"@, "xmm3"@, "xmm4"@, "xmm5"@, "xmm6"@, "xmm7"@,
            ],
            r.jmp_count == 0,
            r.functions@.len() == 0,
            r.locals@ == Map::<Seq<char>, (Option<String>, i32, Type)>::empty(),
            r.stack_size == 0,
            r.externs@.len() == 0,
            r.structes@ == Map::<Seq<char>, (StructLayout, Stmt)>::empty(),
            !r.aarch64,
    {
        let mut regs: VecDeque<String> = VecDeque::new();
        proof {
            assert(regs@.map_values(|s: String| s@) =~= Seq::<Seq<char>>::empty());
        }
        push_name(&mut regs, "rcx");
        push_name(&mut regs, "rdx");
        push_name(&mut regs, "rax");
        push_name(&mut regs, "r8");
        push_name(&mut regs, "r9");
        push_name(&mut regs, "r10");
        push_name(&mut regs, "r11");
        push_name(&mut regs, "r12");
        push_name(&mut regs, "r13");
        push_name(&mut regs, "r14");
        let mut fp_regs: VecDeque<String> = VecDeque::new();
        proof {
            assert(fp_regs@.map_values(|s: String| s@) =~= Seq::<Seq<char>>::empty());
        }
        push_name(&mut fp_regs, "xmm0");
        push_name(&mut fp_regs, "xmm1");
        push_name(&mut fp_regs, "xmm2");
        push_name(&mut fp_regs, "xmm3");
        push_name(&mut fp_regs, "xmm4");
        push_name(&mut fp_regs, "xmm5");
        push_name(&mut fp_regs, "xmm6");
        push_name(&mut fp_regs, "xmm7");
        proof {
            assert(regs@.map_values(|s: String| s@) =~= seq![
                "rcx"@, "rdx"@, "rax"@, "r8"@, "r9"@, "r10"@, "r11"@, "r12"@, "r13"@, "r14"@,
            ]);
            assert(fp_regs@.map_values(|s: String| s@) =~= seq![
                "xmm0"@, "xmm1"@, "xmm2"@, "xmm3"@, "xmm4"@, "xmm5"@, "xmm6"@, "xmm7"@,
            ]);
        }
        CodeGen {
            output: String::new(),
            regs,
            fp_regs,
            jmp_count: 0,
            functions: Vec::new(),
            locals: Table::new(),
            stack_size: 0,
            externs: Vec::new(),
            structes: Table::new(),
            aarch64: false,
        }
    }
}

} // verus!
