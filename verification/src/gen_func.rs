use vstd::prelude::*;

use crate::alias::{decimal, push_decimal};
use crate::ast::{Stmt, StmtV, Type, TypeV, fields_view, size_fits, spec_type_size, stmts_view};
use crate::codegen::CodeGen;
use crate::gen_expr::{CgModel, abi_reg, emit_m, int_text, malloc_call, push_int, push_reg, spec_gen_expr};
use crate::gen_stmt::{spec_gen_stmt, stmt_result};
use crate::layout::{fold_fields_fit, spec_field_offset, spec_fold_fields, spec_struct_size_align};
use crate::regs::{x86_reg32_of, x86_reg8_of};

verus! {

/// `return` inside a function: the value moved to `rax` (or `rax` cleared when the
/// expression has none), then a jump to the function's epilogue `epi`; any other
/// statement is emitted as usual.
pub open spec fn gen_stmt_epi(m: CgModel, s: StmtV, epi: Seq<char>) -> Option<CgModel> {
    match s {
        StmtV::Return(o) => {
            let m1 = match o {
                None => Some(m),
                Some(e) => match spec_gen_expr(m, e) {
                    None => None,
                    Some((m1, Some(r))) => if r == "rax"@ {
                        Some(m1)
                    } else {
                        Some(push_reg(emit_m(m1, "mov rax, "@ + r + "\n"@), r))
                    },
                    Some((m1, None)) => Some(emit_m(m1, "xor rax, rax\n"@)),
                },
            };
            match m1 {
                None => None,
                Some(m2) => Some(emit_m(m2, "jmp "@ + epi + "\n"@)),
            }
        },
        _ => spec_gen_stmt(m, s),
    }
}

/// The statements of a function body emitted in order, each `return` jumping to `epi`.
pub open spec fn gen_body(m: CgModel, ss: Seq<StmtV>, epi: Seq<char>) -> Option<CgModel>
    decreases ss.len(),
{
    if ss.len() == 0 {
        Some(m)
    } else {
        match gen_stmt_epi(m, ss[0], epi) {
            None => None,
            Some(m1) => gen_body(m1, ss.skip(1), epi),
        }
    }
}

/// The bytes the first `n` parameters take.
pub open spec fn param_bytes(ps: Seq<(Seq<char>, TypeV)>, n: nat) -> nat
    decreases n,
{
    if n == 0 || n > ps.len() {
        0
    } else {
        param_bytes(ps, (n - 1) as nat) + spec_type_size(ps[n - 1].1)
    }
}

/// The struct a parameter of type `t` refers to, under any number of pointers.
pub open spec fn pointee_struct(t: TypeV) -> Option<Seq<char>>
    decreases t,
{
    match t {
        TypeV::Pointer(inner) => pointee_struct(*inner),
        TypeV::Struct { name, .. } => Some(name),
        _ => None,
    }
}

/// The line that saves parameter `i` from its argument register to its slot at `off`.
pub open spec fn param_line(t: TypeV, off: nat, i: int) -> Seq<char> {
    match t {
        TypeV::Char | TypeV::Bool => "mov byte [rbp - "@ + decimal(off) + "], "@ + x86_reg8_of(abi_reg(i)) + "\n"@,
        TypeV::Int => "mov dword [rbp - "@ + decimal(off) + "], "@ + x86_reg32_of(abi_reg(i)) + "\n"@,
        _ => "mov qword [rbp - "@ + decimal(off) + "], "@ + abi_reg(i) + "\n"@,
    }
}

/// The lines that save the first `n` parameters.
pub open spec fn param_lines(ps: Seq<(Seq<char>, TypeV)>, n: nat) -> Seq<char>
    decreases n,
{
    if n == 0 || n > ps.len() {
        Seq::empty()
    } else {
        param_lines(ps, (n - 1) as nat) + param_line(ps[n - 1].1, param_bytes(ps, n), n - 1)
    }
}

/// The locals the first `n` parameters give, each at its slot.
pub open spec fn param_locals(ps: Seq<(Seq<char>, TypeV)>, n: nat) -> Map<Seq<char>, (Option<Seq<char>>, i32, TypeV)>
    decreases n,
{
    if n == 0 || n > ps.len() {
        Map::empty()
    } else {
        param_locals(ps, (n - 1) as nat).insert(
            ps[n - 1].0,
            (pointee_struct(ps[n - 1].1), param_bytes(ps, n) as i32, ps[n - 1].1),
        )
    }
}

/// A function: its label, a frame with the parameters' bytes rounded up to 16 and each
/// parameter saved from its argument register, the body with each `return` jumping to
/// the epilogue `.Lret_name`, `rax` cleared at the end of `main`, and the epilogue.
/// `None` where the generator panics: a parameter whose size overflows, more than five
/// parameters, a slot offset beyond `i32`, or a panic in the body.
#[verifier::opaque]
pub open spec fn gen_function(m: CgModel, name: Seq<char>, ps: Seq<(Seq<char>, TypeV)>, body: Seq<StmtV>) -> Option<CgModel> {
    if !frame_fits(ps) {
        None
    } else {
        match gen_body(function_frame(m, name, ps), body, ".Lret_"@ + name) {
            None => None,
            Some(m2) => Some(emit_m(m2, function_tail(name))),
        }
    }
}

/// Whether a function's parameters can be laid out: each size and their sum fit, there
/// are at most five, and each slot offset fits an `i32`.
pub open spec fn frame_fits(ps: Seq<(Seq<char>, TypeV)>) -> bool {
    let total = param_bytes(ps, ps.len());
    &&& forall|i: int| 0 <= i < ps.len() ==> size_fits(#[trigger] ps[i].1)
    &&& total + 15 <= usize::MAX
    &&& ps.len() <= 5
    &&& ps.len() > 0 ==> total <= i32::MAX
}

/// The frame size for `total` bytes of parameters: rounded up to a multiple of 16.
pub open spec fn frame_size(total: nat) -> usize {
    ((total + 15) as usize & !15usize) as usize
}

/// A function's label and frame, its parameters saved, and its locals the parameters.
pub open spec fn function_frame(m: CgModel, name: Seq<char>, ps: Seq<(Seq<char>, TypeV)>) -> CgModel {
    let aligned = frame_size(param_bytes(ps, ps.len()));
    CgModel {
        out: m.out + "global "@ + name + "\n"@ + name + ":\n"@ + "push rbp\nmov rbp, rsp\n"@ + "sub rsp, "@
            + decimal(aligned as nat) + "\n"@ + param_lines(ps, ps.len()),
        regs: m.regs,
        jmp: m.jmp,
        locals: param_locals(ps, ps.len()),
        stack: aligned as i32,
        structs: m.structs,
        aarch64: m.aarch64,
    }
}

/// A function's end: `rax` cleared in `main`, and the epilogue.
pub open spec fn function_tail(name: Seq<char>) -> Seq<char> {
    (if name == "main"@ {
        "xor rax, rax\n"@
    } else {
        Seq::empty()
    }) + ".Lret_"@ + name + ":\n"@ + "mov rsp, rbp\npop rbp\nret\n"@
}

} // verus!

verus! {

proof fn lemma_param_bytes_mono(ps: Seq<(Seq<char>, TypeV)>, a: nat, b: nat)
    requires
        a <= b <= ps.len(),
    ensures
        param_bytes(ps, a) <= param_bytes(ps, b),
    decreases b,
{
    if a < b {
        lemma_param_bytes_mono(ps, a, (b - 1) as nat);
    }
}

/// The struct a value of type `t` refers to, under any number of pointers.
fn pointee_struct_exec(t: &Type) -> (r: Option<String>)
    ensures
        crate::codegen::opt_name_view(r) == pointee_struct(t@),
    decreases t,
{
    match t {
        Type::Pointer(inner) => pointee_struct_exec(&**inner),
        Type::Struct { name, .. } => Some(name.clone()),
        _ => None,
    }
}

impl CodeGen {
    /// Emits a statement of a function body; a `return` moves its value to `rax` and
    /// jumps to `epilogue`.
    pub fn handle_stmt_with_epilogue(&mut self, stmt: &Stmt, epilogue: &str) -> (r: Result<(), ()>)
        ensures
            stmt_result(r, final(self).model()) == gen_stmt_epi(old(self).model(), stmt@, epilogue@),
    {
        proof {
            reveal(crate::ast::stmt_view);
        }
        match stmt {
            Stmt::Return(opt) => {
                match opt {
                    None => {},
                    Some(ex) => match self.handle_expr(ex, None) {
                        Err(_) => {
                            return Err(());
                        },
                        Ok(Some(reg)) => {
                            let rax = "rax".to_owned();
                            if reg != rax {
                                let l = crate::gen_expr::cat(crate::gen_expr::cat("mov rax, ", reg.as_str()).as_str(), "\n");
                                self.emit(l.as_str());
                                self.give_reg(reg);
                            }
                        },
                        Ok(None) => {
                            self.emit("xor rax, rax\n");
                        },
                    },
                }
                let l = crate::gen_expr::cat(crate::gen_expr::cat("jmp ", epilogue).as_str(), "\n");
                self.emit(l.as_str());
                Ok(())
            },
            _ => self.handle_stmt(stmt),
        }
    }
}

/// The bytes all parameters take; `None` where a size or the sum overflows.
fn param_total(params: &Vec<(String, Type)>) -> (r: Option<usize>)
    ensures
        match r {
            Some(t) => t == param_bytes(fields_view(params@), params@.len())
                && forall|j: int| 0 <= j < params@.len() ==> size_fits(#[trigger] fields_view(params@)[j].1),
            None => (exists|j: int| 0 <= j < params@.len() && !size_fits(#[trigger] fields_view(params@)[j].1))
                || param_bytes(fields_view(params@), params@.len()) > usize::MAX,
        },
{
    let ghost ps = fields_view(params@);
    let mut total: usize = 0;
    let mut i: usize = 0;
    while i < params.len()
        invariant
            i <= params@.len(),
            ps == fields_view(params@),
            ps.len() == params@.len(),
            forall|j: int| 0 <= j < params@.len() ==> #[trigger] ps[j] == (params@[j].0@, params@[j].1@),
            total == param_bytes(ps, i as nat),
            forall|j: int| 0 <= j < i ==> size_fits(#[trigger] ps[j].1),
        decreases params@.len() - i,
    {
        let sz = match crate::gen_expr::checked_type_size(&params[i].1) {
            None => {
                assert(!size_fits(ps[i as int].1));
                return None;
            },
            Some(sz) => sz,
        };
        if total > usize::MAX - sz {
            proof {
                lemma_param_bytes_mono(ps, (i + 1) as nat, ps.len());
            }
            return None;
        }
        total = total + sz;
        i = i + 1;
    }
    Some(total)
}

impl CodeGen {
    /// Emits the statements of a function body, each `return` jumping to `epilogue`.
    fn body_exec(&mut self, body: &Vec<Stmt>, epilogue: &str) -> (r: Result<(), ()>)
        ensures
            stmt_result(r, final(self).model()) == gen_body(old(self).model(), stmts_view(body@), epilogue@),
    {
        proof {
            crate::ast::lemma_stmts_view_len(body@);
            assert(stmts_view(body@).skip(0) =~= stmts_view(body@));
        }
        let ghost bv = stmts_view(body@);
        let mut b: usize = 0;
        while b < body.len()
            invariant
                b <= body@.len(),
                bv == stmts_view(body@),
                bv.len() == body@.len(),
                forall|j: int| 0 <= j < body@.len() ==> #[trigger] bv[j] == body@[j]@,
                gen_body(old(self).model(), bv, epilogue@) == gen_body(self.model(), bv.skip(b as int), epilogue@),
            decreases body@.len() - b,
        {
            proof {
                assert(bv.skip(b as int)[0] == bv[b as int]);
                assert(bv.skip(b as int).skip(1) =~= bv.skip(b + 1));
            }
            match self.handle_stmt_with_epilogue(&body[b], epilogue) {
                Err(_) => {
                    return Err(());
                },
                Ok(_) => {},
            }
            b = b + 1;
        }
        proof {
            assert(bv.skip(b as int) =~= Seq::<StmtV>::empty());
        }
        Ok(())
    }

    /// Emits the function `name` with its parameters and body.
    #[verifier::rlimit(40)]
    pub fn generate_function(&mut self, name: &str, params: &Vec<(String, Type)>, body: &Vec<Stmt>) -> (r: Result<(), ()>)
        ensures
            stmt_result(r, final(self).model()) == gen_function(old(self).model(), name@, fields_view(params@), stmts_view(body@)),
    {
        proof {
            reveal(gen_function);
        }
        let total = match param_total(params) {
            None => {
                return Err(());
            },
            Some(t) => t,
        };
        if total > usize::MAX - 15 || params.len() > 5 || (params.len() > 0 && total > 2147483647usize) {
            return Err(());
        }
        self.frame_exec(name, params, total);
        let mut epilogue = ".Lret_".to_owned();
        epilogue.append(name);
        match self.body_exec(body, epilogue.as_str()) {
            Err(_) => {
                return Err(());
            },
            Ok(_) => {},
        }
        self.finish_function(name, epilogue.as_str());
        Ok(())
    }

    /// Writes a function's end.
    fn finish_function(&mut self, name: &str, epilogue: &str)
        requires
            epilogue@ == ".Lret_"@ + name@,
        ensures
            final(self).model() == emit_m(old(self).model(), function_tail(name@)),
    {
        let ghost before = self.model();
        let main_name = "main".to_owned();
        let is_main = name.to_owned() == main_name;
        if is_main {
            self.output.append("xor rax, rax\n");
        }
        self.output.append(epilogue);
        self.output.append(":\n");
        self.output.append("mov rsp, rbp\npop rbp\nret\n");
        proof {
            assert(self.model().out =~= before.out + function_tail(name@));
        }
    }

    /// Writes a function's label and frame and saves its parameters.
    #[verifier::rlimit(40)]
    fn frame_exec(&mut self, name: &str, params: &Vec<(String, Type)>, total: usize)
        requires
            total == param_bytes(fields_view(params@), params@.len()),
            forall|j: int| 0 <= j < params@.len() ==> size_fits(#[trigger] fields_view(params@)[j].1),
            total + 15 <= usize::MAX,
            params@.len() <= 5,
            params@.len() > 0 ==> total <= i32::MAX,
        ensures
            final(self).model() == function_frame(old(self).model(), name@, fields_view(params@)),
    {
        let ghost ps = fields_view(params@);
        let ghost m0 = self.model();
        proof {
            assert forall|j: int| 0 <= j < params@.len() implies #[trigger] ps[j] == (params@[j].0@, params@[j].1@) by {}
        }
        let aligned: usize = (total + 15) & !15usize;
        self.locals = crate::alias::Table::new();
        self.stack_size = aligned as i32;
        let mut head = "global ".to_owned();
        head.append(name);
        head.append("\n");
        head.append(name);
        head.append(":\n");
        head.append("push rbp\nmov rbp, rsp\n");
        head.append("sub rsp, ");
        push_decimal(&mut head, aligned);
        head.append("\n");
        self.output.append(head.as_str());
        proof {
            assert(self.model().locals =~= param_locals(ps, 0));
            assert(self.model().out =~= m0.out + "global "@ + name@ + "\n"@ + name@ + ":\n"@ + "push rbp\nmov rbp, rsp\n"@
                + "sub rsp, "@ + decimal(aligned as nat) + "\n"@ + param_lines(ps, 0));
        }
        let ghost start = m0.out + "global "@ + name@ + "\n"@ + name@ + ":\n"@ + "push rbp\nmov rbp, rsp\n"@ + "sub rsp, "@
            + decimal(aligned as nat) + "\n"@;
        let mut off: usize = 0;
        let mut k: usize = 0;
        while k < params.len()
            invariant
                k <= params@.len() <= 5,
                ps == fields_view(params@),
                ps.len() == params@.len(),
                forall|j: int| 0 <= j < params@.len() ==> #[trigger] ps[j] == (params@[j].0@, params@[j].1@),
                forall|j: int| 0 <= j < params@.len() ==> size_fits(#[trigger] ps[j].1),
                total == param_bytes(ps, ps.len()),
                params@.len() > 0 ==> total <= i32::MAX,
                off == param_bytes(ps, k as nat),
                self.model().out == start + param_lines(ps, k as nat),
                self.model().locals == param_locals(ps, k as nat),
                self.model().regs == m0.regs,
                self.model().jmp == m0.jmp,
                self.model().structs == m0.structs,
                self.model().aarch64 == m0.aarch64,
                self.model().stack == aligned as i32,
            decreases params@.len() - k,
        {
            proof {
                lemma_param_bytes_mono(ps, (k + 1) as nat, ps.len());
            }
            let sz = params[k].1.size();
            off = off + sz;
            let save = match k {
                0 => "rdi",
                1 => "rsi",
                2 => "rdx",
                3 => "rcx",
                _ => "r8",
            };
            let mut l = String::new();
            match &params[k].1 {
                Type::Char | Type::Bool => {
                    l.append("mov byte [rbp - ");
                    push_decimal(&mut l, off);
                    l.append("], ");
                    l.append(crate::regs::reg8(save));
                },
                Type::Int => {
                    l.append("mov dword [rbp - ");
                    push_decimal(&mut l, off);
                    l.append("], ");
                    l.append(crate::regs::reg32(save));
                },
                _ => {
                    l.append("mov qword [rbp - ");
                    push_decimal(&mut l, off);
                    l.append("], ");
                    l.append(save);
                },
            }
            l.append("\n");
            proof {
                assert(save@ == abi_reg(k as int));
                assert(l@ =~= param_line(ps[k as int].1, off as nat, k as int));
            }
            self.output.append(l.as_str());
            let st = pointee_struct_exec(&params[k].1);
            let ghost before = self.model().locals;
            self.locals.insert(params[k].0.clone(), (st, off as i32, params[k].1.duplicate()));
            proof {
                assert(self.model().locals =~= before.insert(
                    ps[k as int].0,
                    (pointee_struct(ps[k as int].1), off as i32, ps[k as int].1),
                ));
                assert(self.model().out =~= start + param_lines(ps, (k + 1) as nat));
            }
            k = k + 1;
        }
        proof {
            assert(aligned == frame_size(total as nat));
        }
    }
}

/// The bytes a constructor reserves on its stack for an argument of type `t`.
pub open spec fn slot_bytes(t: TypeV) -> int {
    match t {
        TypeV::Int | TypeV::Float => 4,
        TypeV::Char | TypeV::Bool => 1,
        _ => 8,
    }
}

/// The bytes the first `n` constructor arguments take on its stack.
pub open spec fn slot_sum(fs: Seq<(Seq<char>, TypeV)>, n: nat) -> int
    decreases n,
{
    if n == 0 || n > fs.len() {
        0
    } else {
        slot_sum(fs, (n - 1) as nat) + slot_bytes(fs[n - 1].1)
    }
}

/// The fields of a struct with their offsets.
pub open spec fn field_offsets(fs: Seq<(Seq<char>, TypeV)>) -> Seq<(Seq<char>, usize)> {
    Seq::new(fs.len(), |i: int| (fs[i].0, spec_field_offset(fs, i) as usize))
}

/// A `%define` of the offset of each of the first `n` fields.
pub open spec fn layout_defines(name: Seq<char>, lay: Seq<(Seq<char>, usize)>, n: nat) -> Seq<char>
    decreases n,
{
    if n == 0 || n > lay.len() {
        Seq::empty()
    } else {
        layout_defines(name, lay, (n - 1) as nat) + "%define "@ + name + "."@ + lay[n - 1].0 + " "@ + decimal(
            lay[n - 1].1 as nat,
        ) + "\n"@
    }
}

/// The line that saves constructor argument `i` to its slot.
pub open spec fn arg_store_line(t: TypeV, slot: int, i: int) -> Seq<char> {
    match t {
        TypeV::Int => "mov dword [rbp - "@ + int_text(slot) + "], "@ + x86_reg32_of(abi_reg(i)) + "\n"@,
        TypeV::Char | TypeV::Bool => "mov byte [rbp - "@ + int_text(slot) + "], "@ + x86_reg8_of(abi_reg(i)) + "\n"@,
        _ => "mov qword [rbp - "@ + int_text(slot) + "], "@ + abi_reg(i) + "\n"@,
    }
}

/// The lines that save the first `n` constructor arguments.
pub open spec fn arg_stores(fs: Seq<(Seq<char>, TypeV)>, n: nat) -> Seq<char>
    decreases n,
{
    if n == 0 || n > fs.len() {
        Seq::empty()
    } else {
        arg_stores(fs, (n - 1) as nat) + arg_store_line(fs[n - 1].1, slot_sum(fs, n), n - 1)
    }
}

/// The lines that copy a saved argument into its field of the new object.
pub open spec fn field_copy_line(t: TypeV, slot: int, off: usize) -> Seq<char> {
    match t {
        TypeV::Array(..) | TypeV::Pointer(_) => "mov rax, qword [rbp - "@ + int_text(slot) + "]\n"@ + "mov qword [rcx + "@
            + decimal(off as nat) + "], rax\n"@,
        TypeV::Int => "mov eax, dword [rbp - "@ + int_text(slot) + "]\n"@ + "mov dword [rcx + "@ + decimal(off as nat)
            + "], eax\n"@,
        TypeV::Char | TypeV::Bool => "mov al, byte [rbp - "@ + int_text(slot) + "]\n"@ + "mov byte [rcx + "@ + decimal(
            off as nat,
        ) + "], al\n"@,
        _ => "; TODO: unsupported field type in ctor\n"@,
    }
}

/// The copies of the first `n` saved arguments into the new object.
pub open spec fn field_copies(fs: Seq<(Seq<char>, TypeV)>, n: nat) -> Seq<char>
    decreases n,
{
    if n == 0 || n > fs.len() {
        Seq::empty()
    } else {
        field_copies(fs, (n - 1) as nat) + field_copy_line(fs[n - 1].1, slot_sum(fs, n), field_offsets(fs)[n - 1].1)
    }
}

/// Whether the layout of a struct with fields `fs` fits in a `usize`.
pub open spec fn struct_fits(fs: Seq<(Seq<char>, TypeV)>) -> bool {
    &&& fold_fields_fit(fs)
    &&& spec_fold_fields(fs).0 + spec_fold_fields(fs).1 - 1 <= usize::MAX
}

/// The constructor's stack frame: the argument bytes plus their remainder modulo 8.
pub open spec fn ctor_frame(fs: Seq<(Seq<char>, TypeV)>) -> int {
    slot_sum(fs, fs.len()) + slot_sum(fs, fs.len()) % 8
}

/// How many constructor arguments come in registers: at most five.
pub open spec fn reg_args(fs: Seq<(Seq<char>, TypeV)>) -> nat {
    if fs.len() < 5 {
        fs.len()
    } else {
        5
    }
}

/// The text a struct declaration gives: its layout as `%define`s, and a constructor
/// `name.new` that saves its register arguments, allocates `name_size` bytes and copies
/// each argument into its field.
pub open spec fn struct_text(m: CgModel, name: Seq<char>, fs: Seq<(Seq<char>, TypeV)>) -> Seq<char> {
    let frame = ctor_frame(fs);
    let nf = reg_args(fs);
    let lay = field_offsets(fs);
    "; ----- Layout: "@ + name + " -----\n"@ + "%define "@ + name + "_size "@ + decimal(spec_struct_size_align(fs).0)
        + "\n"@ + layout_defines(name, lay, lay.len()) + "\n"@ + "global "@ + name + ".new\n"@ + name + ".new:\n"@
        + "push rbp\nmov rbp, rsp\n"@ + "sub rsp, "@ + int_text(frame) + "\n"@ + arg_stores(fs, nf) + "mov rdi, "@
        + name + "_size\n"@ + malloc_call(m) + "mov rcx, rax\n"@ + field_copies(fs, nf) + "mov rax, rcx\n"@ + (if nf
        > 0 {
        "add rsp, "@ + int_text(frame) + "\n"@
    } else {
        Seq::empty()
    }) + "mov rsp, rbp\npop rbp\nret\n\n"@
}

/// A struct declaration: its text written and its layout recorded with the declaration;
/// `None` where the layout or the constructor's frame overflows.
#[verifier::opaque]
pub open spec fn gen_struct(m: CgModel, name: Seq<char>, fs: Seq<(Seq<char>, TypeV)>, union: bool) -> Option<CgModel> {
    if !struct_fits(fs) || ctor_frame(fs) > i32::MAX {
        None
    } else {
        Some(
            CgModel {
                out: m.out + struct_text(m, name, fs),
                regs: m.regs,
                jmp: m.jmp,
                locals: m.locals,
                stack: m.stack,
                structs: m.structs.insert(name, (field_offsets(fs), StmtV::StructDecl { name, instances: fs, union })),
                aarch64: m.aarch64,
            },
        )
    }
}

proof fn lemma_slot_sum_mono(fs: Seq<(Seq<char>, TypeV)>, a: nat, b: nat)
    requires
        a <= b <= fs.len(),
    ensures
        0 <= slot_sum(fs, a) <= slot_sum(fs, b),
    decreases b,
{
    lemma_slot_sum_nonneg(fs, a);
    if a < b {
        lemma_slot_sum_mono(fs, a, (b - 1) as nat);
    }
}

proof fn lemma_slot_sum_nonneg(fs: Seq<(Seq<char>, TypeV)>, n: nat)
    ensures
        0 <= slot_sum(fs, n),
    decreases n,
{
    if n > 0 {
        lemma_slot_sum_nonneg(fs, (n - 1) as nat);
    }
}

/// The argument register a constructor or function takes its argument `i` in.
fn abi_reg_exec(i: usize) -> (r: &'static str)
    ensures
        r@ == abi_reg(i as int),
{
    match i {
        0 => "rdi",
        1 => "rsi",
        2 => "rdx",
        3 => "rcx",
        _ => "r8",
    }
}

/// The bytes a constructor reserves for an argument of type `t`.
fn slot_bytes_exec(t: &Type) -> (r: i32)
    ensures
        r == slot_bytes(t@),
{
    match t {
        Type::Int | Type::Float => 4,
        Type::Char | Type::Bool => 1,
        _ => 8,
    }
}

/// The constructor's stack frame, or `None` where it overflows an `i32`.
fn ctor_frame_exec(fs: &Vec<(String, Type)>) -> (r: Option<i32>)
    ensures
        match r {
            Some(f) => f == ctor_frame(fields_view(fs@)) && ctor_frame(fields_view(fs@)) <= i32::MAX,
            None => ctor_frame(fields_view(fs@)) > i32::MAX,
        },
{
    let ghost fv = fields_view(fs@);
    let mut total: i32 = 0;
    let mut i: usize = 0;
    while i < fs.len()
        invariant
            i <= fs@.len(),
            fv == fields_view(fs@),
            fv.len() == fs@.len(),
            forall|j: int| 0 <= j < fs@.len() ==> #[trigger] fv[j] == (fs@[j].0@, fs@[j].1@),
            total == slot_sum(fv, i as nat),
            total >= 0,
        decreases fs@.len() - i,
    {
        let b = slot_bytes_exec(&fs[i].1);
        if total > i32::MAX - b {
            proof {
                lemma_slot_sum_mono(fv, (i + 1) as nat, fv.len());
            }
            return None;
        }
        total = total + b;
        i = i + 1;
    }
    if total > i32::MAX - total % 8 {
        return None;
    }
    Some(total + total % 8)
}

/// The `%define`s of the field offsets of `lay`.
fn layout_defines_text(name: &str, lay: &Vec<crate::layout::FieldLayout>) -> (r: String)
    ensures
        r@ == layout_defines(name@, crate::gen_expr::layout_view(lay@), lay@.len()),
{
    let ghost lv = crate::gen_expr::layout_view(lay@);
    let mut t = String::new();
    let mut i: usize = 0;
    while i < lay.len()
        invariant
            i <= lay@.len(),
            lv == crate::gen_expr::layout_view(lay@),
            lv.len() == lay@.len(),
            t@ == layout_defines(name@, lv, i as nat),
        decreases lay@.len() - i,
    {
        let ghost before = t@;
        t.append("%define ");
        t.append(name);
        t.append(".");
        t.append(lay[i].name.as_str());
        t.append(" ");
        push_decimal(&mut t, lay[i].offset);
        t.append("\n");
        proof {
            assert(lv[i as int] == (lay@[i as int].name@, lay@[i as int].offset));
            assert(t@ =~= layout_defines(name@, lv, (i + 1) as nat));
        }
        i = i + 1;
    }
    t
}

/// The lines that save the first `nf` constructor arguments.
fn arg_stores_text(fs: &Vec<(String, Type)>, nf: usize) -> (r: String)
    requires
        nf <= fs@.len(),
        nf <= 5,
        slot_sum(fields_view(fs@), fs@.len()) <= i32::MAX,
    ensures
        r@ == arg_stores(fields_view(fs@), nf as nat),
{
    let ghost fv = fields_view(fs@);
    let mut t = String::new();
    let mut slot: i32 = 0;
    let mut i: usize = 0;
    while i < nf
        invariant
            i <= nf <= fs@.len(),
            nf <= 5,
            fv == fields_view(fs@),
            fv.len() == fs@.len(),
            forall|j: int| 0 <= j < fs@.len() ==> #[trigger] fv[j] == (fs@[j].0@, fs@[j].1@),
            slot_sum(fv, fv.len()) <= i32::MAX,
            slot == slot_sum(fv, i as nat),
            t@ == arg_stores(fv, i as nat),
        decreases nf - i,
    {
        proof {
            lemma_slot_sum_mono(fv, (i + 1) as nat, fv.len());
        }
        slot = slot + slot_bytes_exec(&fs[i].1);
        let reg = abi_reg_exec(i);
        let ghost before = t@;
        match &fs[i].1 {
            Type::Int => {
                t.append("mov dword [rbp - ");
                push_int(&mut t, slot);
                t.append("], ");
                t.append(crate::regs::reg32(reg));
                t.append("\n");
            },
            Type::Char | Type::Bool => {
                t.append("mov byte [rbp - ");
                push_int(&mut t, slot);
                t.append("], ");
                t.append(crate::regs::reg8(reg));
                t.append("\n");
            },
            _ => {
                t.append("mov qword [rbp - ");
                push_int(&mut t, slot);
                t.append("], ");
                t.append(reg);
                t.append("\n");
            },
        }
        proof {
            assert(t@ =~= before + arg_store_line(fv[i as int].1, slot as int, i as int));
        }
        i = i + 1;
    }
    t
}

/// The copies of the first `nf` saved arguments into the new object.
fn field_copies_text(fs: &Vec<(String, Type)>, lay: &Vec<crate::layout::FieldLayout>, nf: usize) -> (r: String)
    requires
        nf <= fs@.len(),
        lay@.len() == fs@.len(),
        forall|i: int| 0 <= i < fs@.len() ==> #[trigger] lay@[i].offset == spec_field_offset(fields_view(fs@), i),
        slot_sum(fields_view(fs@), fs@.len()) <= i32::MAX,
    ensures
        r@ == field_copies(fields_view(fs@), nf as nat),
{
    let ghost fv = fields_view(fs@);
    let mut t = String::new();
    let mut slot: i32 = 0;
    let mut i: usize = 0;
    while i < nf
        invariant
            i <= nf <= fs@.len(),
            lay@.len() == fs@.len(),
            forall|j: int| 0 <= j < fs@.len() ==> #[trigger] lay@[j].offset == spec_field_offset(fv, j),
            fv == fields_view(fs@),
            fv.len() == fs@.len(),
            forall|j: int| 0 <= j < fs@.len() ==> #[trigger] fv[j] == (fs@[j].0@, fs@[j].1@),
            slot_sum(fv, fv.len()) <= i32::MAX,
            slot == slot_sum(fv, i as nat),
            t@ == field_copies(fv, i as nat),
        decreases nf - i,
    {
        proof {
            lemma_slot_sum_mono(fv, (i + 1) as nat, fv.len());
        }
        slot = slot + slot_bytes_exec(&fs[i].1);
        let off = lay[i].offset;
        let ghost before = t@;
        match &fs[i].1 {
            Type::Array(..) | Type::Pointer(_) => {
                t.append("mov rax, qword [rbp - ");
                push_int(&mut t, slot);
                t.append("]\n");
                t.append("mov qword [rcx + ");
                push_decimal(&mut t, off);
                t.append("], rax\n");
            },
            Type::Int => {
                t.append("mov eax, dword [rbp - ");
                push_int(&mut t, slot);
                t.append("]\n");
                t.append("mov dword [rcx + ");
                push_decimal(&mut t, off);
                t.append("], eax\n");
            },
            Type::Char | Type::Bool => {
                t.append("mov al, byte [rbp - ");
                push_int(&mut t, slot);
                t.append("]\n");
                t.append("mov byte [rcx + ");
                push_decimal(&mut t, off);
                t.append("], al\n");
            },
            _ => {
                t.append("; TODO: unsupported field type in ctor\n");
            },
        }
        proof {
            assert(field_offsets(fv)[i as int].1 == off);
            assert(t@ =~= before + field_copy_line(fv[i as int].1, slot as int, off));
        }
        i = i + 1;
    }
    t
}

impl CodeGen {
    /// Emits the layout and constructor of the struct `name` and records its layout.
    #[verifier::rlimit(40)]
    pub fn generate_struct(&mut self, name: &str, instances: &Vec<(String, Type)>, union: bool) -> (r: Result<(), ()>)
        ensures
            stmt_result(r, final(self).model()) == gen_struct(old(self).model(), name@, fields_view(instances@), union),
    {
        proof {
            reveal(gen_struct);
        }
        let ghost fv = fields_view(instances@);
        let fit = match crate::gen_expr::checked_fold_fields(instances) {
            None => {
                return Err(());
            },
            Some(p) => p,
        };
        if fit.1 > 0 && fit.0 > usize::MAX - (fit.1 - 1) {
            return Err(());
        }
        let frame = match ctor_frame_exec(instances) {
            None => {
                return Err(());
            },
            Some(f) => f,
        };
        proof {
            lemma_slot_sum_nonneg(fv, fv.len());
        }
        let lay = crate::layout::layout_fields(instances.as_slice());
        let nf: usize = if instances.len() < 5 {
            instances.len()
        } else {
            5
        };
        let ghost m0 = self.model();
        let mut t = "; ----- Layout: ".to_owned();
        t.append(name);
        t.append(" -----\n");
        t.append("%define ");
        t.append(name);
        t.append("_size ");
        push_decimal(&mut t, lay.size);
        t.append("\n");
        let defs = layout_defines_text(name, &lay.fields);
        t.append(defs.as_str());
        t.append("\n");
        t.append("global ");
        t.append(name);
        t.append(".new\n");
        t.append(name);
        t.append(".new:\n");
        t.append("push rbp\nmov rbp, rsp\n");
        t.append("sub rsp, ");
        push_int(&mut t, frame);
        t.append("\n");
        let stores = arg_stores_text(instances, nf);
        t.append(stores.as_str());
        t.append("mov rdi, ");
        t.append(name);
        t.append("_size\n");
        t.append(if self.aarch64 { "call _malloc\n" } else { "call malloc\n" });
        t.append("mov rcx, rax\n");
        let copies = field_copies_text(instances, &lay.fields, nf);
        t.append(copies.as_str());
        t.append("mov rax, rcx\n");
        if nf > 0 {
            t.append("add rsp, ");
            push_int(&mut t, frame);
            t.append("\n");
        }
        t.append("mov rsp, rbp\npop rbp\nret\n\n");
        proof {
            assert(crate::gen_expr::layout_view(lay.fields@) =~= field_offsets(fv));
            assert(t@ =~= struct_text(m0, name@, fv));
        }
        self.output.append(t.as_str());
        let decl_fields = crate::ast::duplicate_fields(instances);
        let decl = Stmt::StructDecl { name: name.to_owned(), instances: decl_fields, union };
        proof {
            reveal(crate::ast::stmt_view);
            assert(fields_view(decl_fields@) =~= fv);
        }
        self.structes.insert(name.to_owned(), (lay, decl));
        proof {
            assert(self.model().structs =~= m0.structs.insert(
                name@,
                (field_offsets(fv), StmtV::StructDecl { name: name@, instances: fv, union }),
            ));
        }
        Ok(())
    }
}

/// The start of every program: the allocator declared, and an entry point that calls
/// `main` and exits with its result.
pub open spec fn start_text(aarch64: bool) -> Seq<char> {
    (if aarch64 {
        "extern _malloc\n"@
    } else {
        "extern malloc\n"@
    }) + "global _start\n_start:\n"@ + "call main\n"@ + "mov rbx, rax\n"@ + "mov rdi, rax\n"@ + (if aarch64 {
        "mov rax, 0x2000001\n"@
    } else {
        "mov rax, 60\n"@
    }) + "syscall\n"@
}

/// The generator before any declaration: the start written, the scratch registers free.
pub open spec fn initial_model(aarch64: bool) -> CgModel {
    CgModel {
        out: start_text(aarch64),
        regs: seq!["rcx"@, "rdx"@, "rax"@, "r8"@, "r9"@, "r10"@, "r11"@, "r12"@, "r13"@, "r14"@],
        jmp: 0,
        locals: Map::empty(),
        stack: 0,
        structs: Map::empty(),
        aarch64,
    }
}

/// The first pass over the first `n` top-level statements: `main` emitted where it is
/// declared (without parameters), every struct laid out with its constructor, and the
/// other functions kept, in order, for later. Also whether `main` was seen.
pub open spec fn gen_decls(m: CgModel, ss: Seq<StmtV>, n: nat) -> Option<(CgModel, bool, Seq<StmtV>)>
    decreases n,
{
    if n == 0 || n > ss.len() {
        Some((m, false, Seq::empty()))
    } else {
        match gen_decls(m, ss, (n - 1) as nat) {
            None => None,
            Some((m1, seen, fs)) => match ss[n - 1] {
                StmtV::FunDecl { name, body, .. } => if name == "main"@ {
                    match gen_function(m1, "main"@, Seq::empty(), body) {
                        None => None,
                        Some(m2) => Some((m2, true, fs)),
                    }
                } else {
                    Some((m1, seen, fs.push(ss[n - 1])))
                },
                StmtV::StructDecl { name, instances, union } => match gen_struct(m1, name, instances, union) {
                    None => None,
                    Some(m2) => Some((m2, seen, fs)),
                },
                _ => Some((m1, seen, fs)),
            },
        }
    }
}

/// The first `n` of the kept functions emitted in order.
pub open spec fn gen_funcs(m: CgModel, fs: Seq<StmtV>, n: nat) -> Option<CgModel>
    decreases n,
{
    if n == 0 || n > fs.len() {
        Some(m)
    } else {
        match gen_funcs(m, fs, (n - 1) as nat) {
            None => None,
            Some(m1) => match fs[n - 1] {
                StmtV::FunDecl { name, params, body, .. } => gen_function(m1, name, params, body),
                _ => Some(m1),
            },
        }
    }
}

/// A top-level statement emitted as any other statement.
#[verifier::opaque]
pub open spec fn top_stmt(m: CgModel, s: StmtV) -> Option<CgModel> {
    spec_gen_stmt(m, s)
}

/// The first `n` top-level statements other than function declarations emitted in order.
pub open spec fn gen_tops(m: CgModel, ss: Seq<StmtV>, n: nat) -> Option<CgModel>
    decreases n,
{
    if n == 0 || n > ss.len() {
        Some(m)
    } else {
        match gen_tops(m, ss, (n - 1) as nat) {
            None => None,
            Some(m1) => if ss[n - 1] is FunDecl {
                Some(m1)
            } else {
                top_stmt(m1, ss[n - 1])
            },
        }
    }
}

/// The assembly of a program: the start, `main` and the structs in the first pass, the
/// other functions, the other top-level statements, then the print and memory routines,
/// each followed by a newline; `None` where there is no `main` or the generator panics.
pub open spec fn spec_generate(ss: Seq<StmtV>, print: Seq<char>, mem: Seq<char>, aarch64: bool) -> Option<Seq<char>> {
    match gen_decls(initial_model(aarch64), ss, ss.len()) {
        None => None,
        Some((m1, seen, fs)) => if !seen {
            None
        } else {
            match gen_funcs(m1, fs, fs.len()) {
                None => None,
                Some(m2) => match gen_tops(m2, ss, ss.len()) {
                    None => None,
                    Some(m3) => Some(m3.out + print + "\n"@ + mem + "\n"@),
                },
            }
        },
    }
}

proof fn lemma_decls_none(m: CgModel, ss: Seq<StmtV>, a: nat, b: nat)
    requires
        a <= b <= ss.len(),
        gen_decls(m, ss, a) is None,
    ensures
        gen_decls(m, ss, b) is None,
    decreases b,
{
    if a < b {
        lemma_decls_none(m, ss, a, (b - 1) as nat);
    }
}

proof fn lemma_funcs_none(m: CgModel, fs: Seq<StmtV>, a: nat, b: nat)
    requires
        a <= b <= fs.len(),
        gen_funcs(m, fs, a) is None,
    ensures
        gen_funcs(m, fs, b) is None,
    decreases b,
{
    if a < b {
        lemma_funcs_none(m, fs, a, (b - 1) as nat);
    }
}

proof fn lemma_tops_none(m: CgModel, ss: Seq<StmtV>, a: nat, b: nat)
    requires
        a <= b <= ss.len(),
        gen_tops(m, ss, a) is None,
    ensures
        gen_tops(m, ss, b) is None,
    decreases b,
{
    if a < b {
        lemma_tops_none(m, ss, a, (b - 1) as nat);
    }
}

impl CodeGen {
    /// A top-level statement: nothing for a function declaration, else the statement.
    fn top_exec(&mut self, s: &Stmt) -> (r: Result<(), ()>)
        ensures
            stmt_result(r, final(self).model()) == (if s@ is FunDecl {
                Some(old(self).model())
            } else {
                top_stmt(old(self).model(), s@)
            }),
    {
        proof {
            crate::ast::lemma_decl_views(*s);
            reveal(top_stmt);
        }
        match s {
            Stmt::FunDecl { .. } => Ok(()),
            _ => self.handle_stmt(s),
        }
    }

    /// A generator with the start of a program written.
    fn start(aarch64: bool) -> (r: CodeGen)
        ensures
            r.model() == initial_model(aarch64),
    {
        let mut code = CodeGen::new();
        code.aarch64 = aarch64;
        code.output.append(if aarch64 { "extern _malloc\n" } else { "extern malloc\n" });
        code.output.append("global _start\n_start:\n");
        code.output.append("call main\n");
        code.output.append("mov rbx, rax\n");
        code.output.append("mov rdi, rax\n");
        code.output.append(if aarch64 { "mov rax, 0x2000001\n" } else { "mov rax, 60\n" });
        code.output.append("syscall\n");
        proof {
            assert(code.model().out =~= start_text(aarch64));
            assert(code.model().locals =~= Map::empty());
            assert(code.model().structs =~= Map::empty());
        }
        code
    }

    /// The first pass: `main` and the structs emitted, the other functions' positions kept.
    fn decls_exec(&mut self, stmts: &Vec<Stmt>) -> (r: Result<(bool, Vec<usize>), ()>)
        ensures
            match r {
                Ok((seen, idx)) => gen_decls(old(self).model(), stmts_view(stmts@), stmts@.len()) == Some(
                    (final(self).model(), seen, idx@.map_values(|j: usize| stmts_view(stmts@)[j as int])),
                ) && (forall|k: int| 0 <= k < idx@.len() ==> #[trigger] idx@[k] < stmts@.len() && stmts@[idx@[k] as int] is FunDecl),
                Err(_) => gen_decls(old(self).model(), stmts_view(stmts@), stmts@.len()) is None,
            },
    {
        let ghost sv = stmts_view(stmts@);
        let ghost m0 = self.model();
        proof {
            crate::ast::lemma_stmts_view_len(stmts@);
        }
        let main_name = "main".to_owned();
        let mut seen = false;
        let mut idx: Vec<usize> = Vec::new();
        proof {
            assert(idx@.map_values(|j: usize| sv[j as int]) =~= Seq::<StmtV>::empty());
        }
        let mut i: usize = 0;
        while i < stmts.len()
            invariant
                i <= stmts@.len(),
                sv == stmts_view(stmts@),
                sv.len() == stmts@.len(),
                forall|j: int| 0 <= j < stmts@.len() ==> #[trigger] sv[j] == stmts@[j]@,
                main_name@ == "main"@,
                m0 == old(self).model(),
                gen_decls(m0, sv, i as nat) == Some((self.model(), seen, idx@.map_values(|j: usize| sv[j as int]))),
                forall|k: int| 0 <= k < idx@.len() ==> #[trigger] idx@[k] < stmts@.len() && stmts@[idx@[k] as int] is FunDecl,
            decreases stmts@.len() - i,
        {
            let ghost fs = idx@.map_values(|j: usize| sv[j as int]);
            match &stmts[i] {
                Stmt::FunDecl { name, params, return_type, body, attributes } => {
                    proof {
                        crate::ast::lemma_stmt_lists_view(*name, *params, *return_type, *body, *attributes);
                    }
                    if *name == main_name {
                        let none: Vec<(String, Type)> = Vec::new();
                        proof {
                            assert(fields_view(none@) =~= Seq::<(Seq<char>, TypeV)>::empty());
                        }
                        match self.generate_function("main", &none, body) {
                            Err(_) => {
                                proof {
                                    lemma_decls_none(m0, sv, (i + 1) as nat, sv.len());
                                }
                                return Err(());
                            },
                            Ok(_) => {},
                        }
                        seen = true;
                    } else {
                        idx.push(i);
                        proof {
                            assert(idx@.map_values(|j: usize| sv[j as int]) =~= fs.push(sv[i as int]));
                        }
                    }
                },
                Stmt::StructDecl { name, instances, union } => {
                    proof {
                        crate::ast::lemma_decl_views(stmts@[i as int]);
                    }
                    match self.generate_struct(name.as_str(), instances, *union) {
                        Err(_) => {
                            proof {
                                lemma_decls_none(m0, sv, (i + 1) as nat, sv.len());
                            }
                            return Err(());
                        },
                        Ok(_) => {},
                    }
                },
                _ => {
                    proof {
                        crate::ast::lemma_decl_views(stmts@[i as int]);
                    }
                },
            }
            i = i + 1;
        }
        Ok((seen, idx))
    }

    /// The kept functions emitted in order.
    fn funcs_exec(&mut self, stmts: &Vec<Stmt>, idx: &Vec<usize>) -> (r: Result<(), ()>)
        requires
            forall|k: int| 0 <= k < idx@.len() ==> #[trigger] idx@[k] < stmts@.len() && stmts@[idx@[k] as int] is FunDecl,
        ensures
            stmt_result(r, final(self).model()) == gen_funcs(
                old(self).model(),
                idx@.map_values(|j: usize| stmts_view(stmts@)[j as int]),
                idx@.len(),
            ),
    {
        let ghost sv = stmts_view(stmts@);
        let ghost fs = idx@.map_values(|j: usize| sv[j as int]);
        let ghost m0 = self.model();
        proof {
            crate::ast::lemma_stmts_view_len(stmts@);
        }
        let mut k: usize = 0;
        while k < idx.len()
            invariant
                k <= idx@.len(),
                sv == stmts_view(stmts@),
                sv.len() == stmts@.len(),
                forall|j: int| 0 <= j < stmts@.len() ==> #[trigger] sv[j] == stmts@[j]@,
                fs == idx@.map_values(|j: usize| sv[j as int]),
                m0 == old(self).model(),
                forall|q: int| 0 <= q < idx@.len() ==> #[trigger] idx@[q] < stmts@.len() && stmts@[idx@[q] as int] is FunDecl,
                gen_funcs(m0, fs, k as nat) == Some(self.model()),
            decreases idx@.len() - k,
        {
            let j = idx[k];
            match &stmts[j] {
                Stmt::FunDecl { name, params, return_type, body, attributes } => {
                    proof {
                        crate::ast::lemma_stmt_lists_view(*name, *params, *return_type, *body, *attributes);
                        assert(fs[k as int] == sv[j as int]);
                    }
                    match self.generate_function(name.as_str(), params, body) {
                        Err(_) => {
                            proof {
                                lemma_funcs_none(m0, fs, (k + 1) as nat, fs.len());
                            }
                            return Err(());
                        },
                        Ok(_) => {},
                    }
                },
                _ => {},
            }
            k = k + 1;
        }
        Ok(())
    }

    /// The top-level statements other than function declarations emitted in order.
    fn tops_exec(&mut self, stmts: &Vec<Stmt>) -> (r: Result<(), ()>)
        ensures
            stmt_result(r, final(self).model()) == gen_tops(old(self).model(), stmts_view(stmts@), stmts@.len()),
    {
        let ghost sv = stmts_view(stmts@);
        let ghost m0 = self.model();
        proof {
            crate::ast::lemma_stmts_view_len(stmts@);
        }
        let mut i: usize = 0;
        while i < stmts.len()
            invariant
                i <= stmts@.len(),
                sv == stmts_view(stmts@),
                sv.len() == stmts@.len(),
                forall|j: int| 0 <= j < stmts@.len() ==> #[trigger] sv[j] == stmts@[j]@,
                gen_tops(m0, sv, i as nat) == Some(self.model()),
                m0 == old(self).model(),
            decreases stmts@.len() - i,
        {
            match self.top_exec(&stmts[i]) {
                Err(_) => {
                    proof {
                        lemma_tops_none(m0, sv, (i + 1) as nat, sv.len());
                    }
                    return Err(());
                },
                Ok(_) => {},
            }
            i = i + 1;
        }
        Ok(())
    }

    /// The assembly of the program `stmts`, followed by the print routines `print_asm` and
    /// the memory routines `mem_asm`, each with a newline after it; calls to the C
    /// allocator and the exit system call go by their AArch64 Darwin names where
    /// `aarch64` holds. `None` where the program has no `main` or the generator cannot go
    /// on. No extern beyond the allocator is declared, as no construct records one.
    pub fn generate(stmts: &Vec<Stmt>, print_asm: &str, mem_asm: &str, aarch64: bool) -> (r: Option<String>)
        ensures
            crate::codegen::opt_name_view(r) == spec_generate(stmts_view(stmts@), print_asm@, mem_asm@, aarch64),
    {
        proof {
            crate::ast::lemma_stmts_view_len(stmts@);
        }
        let mut code = CodeGen::start(aarch64);
        let (seen, idx) = match code.decls_exec(stmts) {
            Err(_) => {
                return None;
            },
            Ok(p) => p,
        };
        if !seen {
            return None;
        }
        match code.funcs_exec(stmts, &idx) {
            Err(_) => {
                return None;
            },
            Ok(_) => {},
        }
        match code.tops_exec(stmts) {
            Err(_) => {
                return None;
            },
            Ok(_) => {},
        }
        let mut out = code.output;
        out.append(print_asm);
        out.append("\n");
        out.append(mem_asm);
        out.append("\n");
        Some(out)
    }
}

/// A struct declaration records each field at the offset the layout gives it, which is a
/// multiple of the field's alignment and leaves the field before it room; every field
/// ends within the size the constructor allocates.
pub proof fn law_struct_fields_laid_out(m: CgModel, name: Seq<char>, fs: Seq<(Seq<char>, TypeV)>, union: bool, i: int)
    requires
        gen_struct(m, name, fs, union) is Some,
        0 <= i < fs.len(),
    ensures
        ({
            let m2 = gen_struct(m, name, fs, union)->0;
            &&& m2.structs.contains_key(name)
            &&& m2.structs[name].0[i] == (fs[i].0, spec_field_offset(fs, i) as usize)
            &&& spec_field_offset(fs, i) % crate::layout::spec_size_align(fs[i].1).1 == 0
            &&& spec_field_offset(fs, i) + crate::layout::spec_size_align(fs[i].1).0 <= spec_struct_size_align(fs).0
            &&& (i + 1 < fs.len() ==> spec_field_offset(fs, i) + crate::layout::spec_size_align(fs[i].1).0
                <= spec_field_offset(fs, i + 1))
        }),
{
    reveal(gen_struct);
    crate::layout::law_field_offset_aligned(fs, i);
    crate::layout::law_fields_disjoint(fs, i);
}

/// A function's frame holds all its parameters and keeps the stack 16-byte aligned.
pub proof fn law_frame_aligned(total: nat)
    requires
        total + 15 <= usize::MAX,
    ensures
        frame_size(total) % 16 == 0,
        total <= frame_size(total) < total + 16,
{
    let x = (total + 15) as usize;
    assert(x & !15usize == x - x % 16) by (bit_vector);
    assert((x - x % 16) % 16 == 0) by (nonlinear_arith)
        requires
            x >= x % 16,
    {
        vstd::arithmetic::div_mod::lemma_fundamental_div_mod(x as int, 16);
        vstd::arithmetic::div_mod::lemma_mod_multiples_basic(x as int / 16, 16);
    }
}

/// Whether `s` declares the function `main`.
pub open spec fn declares_main(s: StmtV) -> bool {
    s matches StmtV::FunDecl { name, .. } && name == "main"@
}

/// `main` seen in the first pass is declared among the statements.
proof fn lemma_decls_seen(m: CgModel, ss: Seq<StmtV>, n: nat)
    requires
        gen_decls(m, ss, n) matches Some((_, seen, _)) && seen,
    ensures
        exists|i: int| 0 <= i < n && i < ss.len() && declares_main(#[trigger] ss[i]),
    decreases n,
{
    if n > 0 && n <= ss.len() {
        let prev = gen_decls(m, ss, (n - 1) as nat);
        if prev matches Some((_, s, _)) && s {
            lemma_decls_seen(m, ss, (n - 1) as nat);
        } else {
            assert(declares_main(ss[n - 1]));
        }
    }
}

/// A program without a function named `main` gives no assembly.
pub proof fn law_no_main_no_program(ss: Seq<StmtV>, print: Seq<char>, mem: Seq<char>, aarch64: bool)
    requires
        forall|i: int| 0 <= i < ss.len() ==> !declares_main(#[trigger] ss[i]),
    ensures
        spec_generate(ss, print, mem, aarch64) is None,
{
    if let Some((_, seen, _)) = gen_decls(initial_model(aarch64), ss, ss.len()) {
        if seen {
            lemma_decls_seen(initial_model(aarch64), ss, ss.len());
        }
    }
}

/// Every program's assembly ends with the print routines and then the memory routines,
/// each followed by a newline.
pub proof fn law_program_ends_with_routines(ss: Seq<StmtV>, print: Seq<char>, mem: Seq<char>, aarch64: bool)
    requires
        spec_generate(ss, print, mem, aarch64) is Some,
    ensures
        ({
            let out = spec_generate(ss, print, mem, aarch64)->0;
            let tail = print + "\n"@ + mem + "\n"@;
            out.len() >= tail.len() && out.subrange(out.len() - tail.len(), out.len() as int) == tail
        }),
{
    let (m1, seen, fs) = gen_decls(initial_model(aarch64), ss, ss.len())->0;
    let m2 = gen_funcs(m1, fs, fs.len())->0;
    let m3 = gen_tops(m2, ss, ss.len())->0;
    let out = spec_generate(ss, print, mem, aarch64)->0;
    let tail = print + "\n"@ + mem + "\n"@;
    assert(out == m3.out + tail);
    assert(out.subrange(out.len() - tail.len(), out.len() as int) =~= tail);
}

} // verus!
