use vstd::prelude::*;

use crate::alias::{decimal, push_decimal};
use crate::ast::{BinaryOp, Expr, ExprV, StmtV, Type, TypeV, UnaryOp, expr_view, stmt_view};
use crate::codegen::{CodeGen, needs_pad, opt_name_view};
use crate::layout::{
    FieldLayout, align_up, is_power_of_two, lemma_align_values, lemma_pow2_aligns, layout_fits, size_align_of,
    spec_align_up, spec_size_align,
};
use crate::lexer::string_push;
use crate::regs::{reg32, reg8, x86_reg32_of, x86_reg8_of};

verus! {

/// What the code generator's expression and statement emission sees of it: the text
/// written so far, the free scratch registers in order, the jump counter, the locals
/// with their struct, stack offset and type, the stack in use, the laid-out structs
/// (field names with their offsets, and the declaration), and whether calls to the C
/// allocator go by its AArch64 Darwin name.
pub struct CgModel {
    pub out: Seq<char>,
    pub regs: Seq<Seq<char>>,
    pub jmp: u32,
    pub locals: Map<Seq<char>, (Option<Seq<char>>, i32, TypeV)>,
    pub stack: i32,
    pub structs: Map<Seq<char>, (Seq<(Seq<char>, usize)>, StmtV)>,
    pub aarch64: bool,
}

/// The field names and offsets of a struct layout.
pub open spec fn layout_view(fs: Seq<FieldLayout>) -> Seq<(Seq<char>, usize)> {
    fs.map_values(|f: FieldLayout| (f.name@, f.offset))
}

impl CodeGen {
    /// What emission sees of this generator.
    pub open spec fn model(&self) -> CgModel {
        CgModel {
            out: self.output@,
            regs: self.regs@.map_values(|s: String| s@),
            jmp: self.jmp_count,
            locals: self.locals@.map_values(|l: (Option<String>, i32, Type)| (opt_name_view(l.0), l.1, l.2@)),
            stack: self.stack_size,
            structs: self.structes@.map_values(
                |p: (crate::layout::StructLayout, crate::ast::Stmt)| (layout_view(p.0.fields@), p.1@),
            ),
            aarch64: self.aarch64,
        }
    }
}

pub open spec fn with_out(m: CgModel, out: Seq<char>) -> CgModel {
    CgModel { out, regs: m.regs, jmp: m.jmp, locals: m.locals, stack: m.stack, structs: m.structs, aarch64: m.aarch64 }
}

pub open spec fn with_regs(m: CgModel, regs: Seq<Seq<char>>) -> CgModel {
    CgModel { out: m.out, regs, jmp: m.jmp, locals: m.locals, stack: m.stack, structs: m.structs, aarch64: m.aarch64 }
}

pub open spec fn with_jmp(m: CgModel, jmp: u32) -> CgModel {
    CgModel { out: m.out, regs: m.regs, jmp, locals: m.locals, stack: m.stack, structs: m.structs, aarch64: m.aarch64 }
}

/// The generator with `s` written.
pub open spec fn emit_m(m: CgModel, s: Seq<char>) -> CgModel {
    with_out(m, m.out + s)
}

/// The first free register taken, or `None` when none is free.
pub open spec fn pop_reg(m: CgModel) -> Option<(CgModel, Seq<char>)> {
    if m.regs.len() == 0 {
        None
    } else {
        Some((with_regs(m, m.regs.drop_first()), m.regs[0]))
    }
}

/// The register `r` given back, at the end of the free ones.
pub open spec fn push_reg(m: CgModel, r: Seq<char>) -> CgModel {
    with_regs(m, m.regs.push(r))
}

/// The decimal text of an integer, with a `-` before a negative one.
pub open spec fn int_text(n: int) -> Seq<char> {
    if n < 0 {
        seq!['-'] + decimal((-n) as nat)
    } else {
        decimal(n as nat)
    }
}

/// The name of the C allocator the generated code calls.
pub open spec fn malloc_call(m: CgModel) -> Seq<char> {
    if m.aarch64 {
        "call _malloc\n"@
    } else {
        "call malloc\n"@
    }
}

/// The text of a call that keeps the stack 16-byte aligned.
pub open spec fn aligned_call_text(stack: i32, target: Seq<char>) -> Seq<char> {
    (if needs_pad(stack) {
        "sub rsp, 8\n"@
    } else {
        Seq::empty()
    }) + "call "@ + target + "\n"@ + (if needs_pad(stack) {
        "add rsp, 8\n"@
    } else {
        Seq::empty()
    })
}

/// Every free register named `rax` taken out, walking a snapshot of the free registers
/// by position and removing at that position from the registers as they now are.
pub open spec fn drop_rax_from(live: Seq<Seq<char>>, snap: Seq<Seq<char>>, i: nat) -> Seq<Seq<char>>
    decreases snap.len() - i,
{
    if i >= snap.len() {
        live
    } else {
        let next = if snap[i as int] == "rax"@ && i < live.len() {
            live.remove(i as int)
        } else {
            live
        };
        drop_rax_from(next, snap, i + 1)
    }
}

pub open spec fn drop_rax(m: CgModel) -> CgModel {
    with_regs(m, drop_rax_from(m.regs, m.regs, 0))
}

/// Appends the decimal text of `n`.
pub(crate) fn push_int(l: &mut String, n: i32)
    ensures
        final(l)@ == old(l)@ + int_text(n as int),
{
    if n < 0 {
        string_push(l, '-');
        let k: i64 = n as i64;
        let p: i64 = -k;
        push_decimal(l, p as usize);
        proof {
            assert(l@ =~= old(l)@ + int_text(n as int));
        }
    } else {
        push_decimal(l, n as usize);
    }
}

/// The number of bytes of the UTF-8 encoding of `c`.
pub open spec fn char_utf8_len(c: char) -> nat {
    if (c as u32) < 0x80 {
        1
    } else if (c as u32) < 0x800 {
        2
    } else if (c as u32) < 0x10000 {
        3
    } else {
        4
    }
}

/// The number of bytes of the UTF-8 encoding of `s`.
pub open spec fn utf8_len(s: Seq<char>) -> nat
    decreases s.len(),
{
    if s.len() == 0 {
        0
    } else {
        utf8_len(s.drop_last()) + char_utf8_len(s.last())
    }
}

/// Whether `c` is white space in the Unicode sense.
pub open spec fn is_white(c: char) -> bool {
    let u = c as u32;
    ||| 0x9 <= u <= 0xd
    ||| u == 0x20
    ||| u == 0x85
    ||| u == 0xa0
    ||| u == 0x1680
    ||| 0x2000 <= u <= 0x200a
    ||| u == 0x2028
    ||| u == 0x2029
    ||| u == 0x202f
    ||| u == 0x205f
    ||| u == 0x3000
}

/// `s` without white space at its start.
pub open spec fn trim_start(s: Seq<char>) -> Seq<char>
    decreases s.len(),
{
    if s.len() > 0 && is_white(s[0]) {
        trim_start(s.drop_first())
    } else {
        s
    }
}

/// `s` without white space at its end.
pub open spec fn trim_end(s: Seq<char>) -> Seq<char>
    decreases s.len(),
{
    if s.len() > 0 && is_white(s.last()) {
        trim_end(s.drop_last())
    } else {
        s
    }
}

/// `s` without white space at either end.
pub open spec fn trimmed(s: Seq<char>) -> Seq<char> {
    trim_end(trim_start(s))
}

/// The argument registers, in order.
pub open spec fn abi_reg(i: int) -> Seq<char> {
    if i == 0 {
        "rdi"@
    } else if i == 1 {
        "rsi"@
    } else if i == 2 {
        "rdx"@
    } else if i == 3 {
        "rcx"@
    } else {
        "r8"@
    }
}

/// The offset of the first field named `f` in a layout.
pub open spec fn first_offset(fs: Seq<(Seq<char>, usize)>, f: Seq<char>) -> Option<usize>
    decreases fs.len(),
{
    if fs.len() == 0 {
        None
    } else if fs[0].0 == f {
        Some(fs[0].1)
    } else {
        first_offset(fs.drop_first(), f)
    }
}

/// The position of the last field named `f` in a layout.
pub open spec fn last_position(fs: Seq<(Seq<char>, usize)>, f: Seq<char>) -> Option<int>
    decreases fs.len(),
{
    if fs.len() == 0 {
        None
    } else if fs.last().0 == f {
        Some(fs.len() - 1)
    } else {
        last_position(fs.drop_last(), f)
    }
}

/// The type of the first field named `f` of a struct declaration.
pub open spec fn decl_field_type(decl: StmtV, f: Seq<char>) -> Option<TypeV> {
    match decl {
        StmtV::StructDecl { instances, .. } => crate::typecheck::field_type_of(instances, f),
        _ => None,
    }
}

/// Moves each value into its argument register, unless it is already there.
pub open spec fn move_args(m: CgModel, vals: Seq<Seq<char>>, i: nat) -> CgModel
    decreases vals.len() - i,
{
    if i >= vals.len() {
        m
    } else {
        let m1 = if vals[i as int] != abi_reg(i as int) {
            emit_m(m, "mov "@ + abi_reg(i as int) + ", "@ + vals[i as int] + "\n"@)
        } else {
            m
        };
        move_args(m1, vals, i + 1)
    }
}

/// Gives every register of `vals` back, in order.
pub open spec fn give_all(m: CgModel, vals: Seq<Seq<char>>, i: nat) -> CgModel
    decreases vals.len() - i,
{
    if i >= vals.len() {
        m
    } else {
        give_all(push_reg(m, vals[i as int]), vals, i + 1)
    }
}

/// The registers that are not empty, in order.
pub open spec fn nonempty(s: Seq<Seq<char>>) -> Seq<Seq<char>>
    decreases s.len(),
{
    if s.len() == 0 {
        Seq::empty()
    } else if s.last().len() > 0 {
        nonempty(s.drop_last()).push(s.last())
    } else {
        nonempty(s.drop_last())
    }
}

/// The values of named initializers placed at the positions of their fields.
pub open spec fn place_args(
    slots: Seq<Seq<char>>,
    lay: Seq<(Seq<char>, usize)>,
    names: Seq<Seq<char>>,
    vals: Seq<Seq<char>>,
    i: nat,
) -> Option<Seq<Seq<char>>>
    decreases names.len() - i,
{
    if i >= names.len() {
        Some(slots)
    } else {
        match last_position(lay, names[i as int]) {
            None => None,
            Some(p) => place_args(slots.update(p, vals[i as int]), lay, names, vals, i + 1),
        }
    }
}

/// Writes a string literal's characters, one byte at a time, into the block the
/// allocator returned.
pub open spec fn string_bytes(m: CgModel, cs: Seq<char>, i: nat) -> Option<CgModel>
    decreases cs.len() - i,
{
    if i >= cs.len() {
        Some(m)
    } else {
        match pop_reg(m) {
            None => None,
            Some((m1, r)) => {
                let m2 = emit_m(m1, ("mov "@ + x86_reg8_of(r) + ", '"@).push(cs[i as int]) + "'\n"@);
                let m3 = emit_m(m2, "mov byte [rax + "@ + decimal(i) + "], "@ + x86_reg8_of(r) + "\n"@);
                string_bytes(push_reg(m3, r), cs, i + 1)
            },
        }
    }
}

/// Loads a local: 32 bits for an `int` or `float`, 8 for a `char` or `bool`, 64 otherwise.
pub open spec fn gen_variable(m: CgModel, name: Seq<char>) -> Option<(CgModel, Option<Seq<char>>)> {
    if !m.locals.contains_key(name) {
        None
    } else {
        let off = m.locals[name].1;
        match pop_reg(m) {
            None => None,
            Some((m1, r)) => {
                let line = match m.locals[name].2 {
                    TypeV::Int | TypeV::Float => "mov "@ + x86_reg32_of(r) + ", dword [rbp - "@ + int_text(off as int) + "]\n"@,
                    TypeV::Char | TypeV::Bool => "mov "@ + x86_reg8_of(r) + ", byte [rbp - "@ + int_text(off as int) + "]\n"@,
                    _ => "mov "@ + r + ", qword [rbp - "@ + int_text(off as int) + "]\n"@,
                };
                Some((emit_m(m1, line), Some(r)))
            },
        }
    }
}

/// Loads an immediate into a fresh register.
pub open spec fn gen_imm(m: CgModel, text: Seq<char>) -> Option<(CgModel, Option<Seq<char>>)> {
    match pop_reg(m) {
        None => None,
        Some((m1, r)) => Some((emit_m(m1, "mov "@ + r + ", "@ + text + "\n"@), Some(r))),
    }
}

pub open spec fn char_text(c: char) -> Seq<char> {
    "'"@.push(c).push('\'')
}

pub open spec fn bool_text(b: bool) -> Seq<char> {
    if b {
        "1"@
    } else {
        "0"@
    }
}

/// The values of expressions, in order, each needing a register; more than five is a panic.
pub open spec fn gen_args(m: CgModel, args: Seq<ExprV>, idx: nat, vals: Seq<Seq<char>>) -> Option<(CgModel, Seq<Seq<char>>)>
    decreases args, 0nat,
{
    if args.len() == 0 {
        Some((m, vals))
    } else {
        match spec_gen_expr(m, args[0]) {
            Some((m1, Some(r))) => if idx >= 5 {
                None
            } else {
                gen_args(m1, args.skip(1), idx + 1, vals.push(r))
            },
            _ => None,
        }
    }
}

/// The values of named initializers, in order.
pub open spec fn gen_params(m: CgModel, ps: Seq<(Seq<char>, ExprV)>, vals: Seq<Seq<char>>) -> Option<(CgModel, Seq<Seq<char>>)>
    decreases ps, 0nat,
{
    if ps.len() == 0 {
        Some((m, vals))
    } else {
        match spec_gen_expr(m, ps[0].1) {
            Some((m1, Some(r))) => gen_params(m1, ps.skip(1), vals.push(r)),
            _ => None,
        }
    }
}

/// The end of a constructor call, once the values sit in field order in `slots`: the
/// values that are there moved to the argument registers, given back, and the call.
pub open spec fn struct_ctor_rest(m1: CgModel, name: Seq<char>, slots: Seq<Seq<char>>) -> Option<CgModel> {
    let args = nonempty(slots);
    if args.len() > 5 {
        None
    } else {
        let m2 = give_all(move_args(m1, args, 0), args, 0);
        Some(emit_m(m2, aligned_call_text(m2.stack, name + ".new"@)))
    }
}

/// A call of a struct's constructor on a struct literal's initializers: their values in
/// registers, moved to the argument registers in field order.
pub open spec fn struct_ctor(m: CgModel, e: ExprV) -> Option<CgModel>
    decreases e, 0nat,
{
    match e {
        ExprV::StructInit { name, params } => if !m.structs.contains_key(name) {
            None
        } else {
            let lay = m.structs[name].0;
            match gen_params(m, params, Seq::empty()) {
                None => None,
                Some((m1, vals)) => match place_args(
                    Seq::new(lay.len(), |i: int| Seq::<char>::empty()),
                    lay,
                    params.map_values(|p: (Seq<char>, ExprV)| p.0),
                    vals,
                    0,
                ) {
                    None => None,
                    Some(slots) => struct_ctor_rest(m1, name, slots),
                },
            }
        },
        _ => None,
    }
}

/// A struct literal: the constructor called, and its result copied to a fresh register.
pub open spec fn gen_struct_init(m: CgModel, e: ExprV) -> Option<(CgModel, Option<Seq<char>>)>
    decreases e, 1nat,
{
    match struct_ctor(m, e) {
        None => None,
        Some(m3) => match pop_reg(m3) {
            None => None,
            Some((m4, r)) => Some((emit_m(m4, "mov "@ + r + ", rax\n"@), Some(r))),
        },
    }
}

/// `class.field = value`: the value stored at the field's offset in the struct the
/// local points to.
pub open spec fn gen_field_assign(m: CgModel, e: ExprV) -> Option<(CgModel, Option<Seq<char>>)>
    decreases e, 1nat,
{
    match e {
        ExprV::FieldAssign { class_name, field, value } => if !m.locals.contains_key(class_name) {
            None
        } else {
            match m.locals[class_name].0 {
                None => None,
                Some(st) => {
                    let soff = m.locals[class_name].1;
                    if !m.structs.contains_key(st) {
                        None
                    } else {
                        match first_offset(m.structs[st].0, field) {
                            None => None,
                            Some(foff) => match decl_field_type(m.structs[st].1, field) {
                                None => None,
                                Some(ft) => match spec_gen_expr(m, *value) {
                                    Some((m1, Some(v))) => match pop_reg(m1) {
                                        None => None,
                                        Some((m2, r)) => {
                                            let m3 = emit_m(m2, "mov "@ + r + ", [rbp - "@ + int_text(soff as int) + "]\n"@);
                                            let line = match ft {
                                                TypeV::Int => "mov dword ["@ + r + " + "@ + decimal(foff as nat) + "], "@ + x86_reg32_of(v) + "\n"@,
                                                TypeV::Bool | TypeV::Char => "mov byte ["@ + r + " + "@ + decimal(foff as nat) + "], "@ + x86_reg8_of(v) + "\n"@,
                                                _ => "mov qword ["@ + r + " + "@ + decimal(foff as nat) + "], "@ + v + "\n"@,
                                            };
                                            Some((push_reg(push_reg(emit_m(m3, line), v), r), None))
                                        },
                                    },
                                    _ => None,
                                },
                            },
                        }
                    }
                },
            }
        },
        _ => None,
    }
}

/// `[..]` on a struct's field: the field read through the struct pointer the local holds,
/// 32 bits for an `int`, 8 for a `char` or `bool`, 64 otherwise.
pub open spec fn field_load_line(ft: TypeV, val: Seq<char>, ptr: Seq<char>, off: i32) -> Seq<char> {
    match ft {
        TypeV::Int => "mov "@ + x86_reg32_of(val) + ", dword ["@ + ptr + " + "@ + int_text(off as int) + "]\n"@,
        TypeV::Char | TypeV::Bool => "mov "@ + x86_reg8_of(val) + ", byte ["@ + ptr + " + "@ + int_text(off as int) + "]\n"@,
        _ => "mov "@ + val + ", qword ["@ + ptr + " + "@ + int_text(off as int) + "]\n"@,
    }
}

/// Reads the field `iname` of the struct the local `sn` points to into a fresh
/// register; the pointer's register comes back too. With `recheck`, the field's type is
/// looked up once more under the untrimmed struct name.
pub open spec fn field_read(m: CgModel, sn: Seq<char>, iname: Seq<char>, recheck: bool) -> Option<(CgModel, Seq<char>, Seq<char>)> {
    match pop_reg(m) {
        None => None,
        Some((m1, val)) => if !m1.locals.contains_key(sn) {
            None
        } else {
            match m1.locals[sn].0 {
                None => None,
                Some(st) => match gen_variable(m1, sn) {
                    Some((m2, Some(ptr))) => {
                        let tst = trimmed(st);
                        if !m2.structs.contains_key(tst) {
                            None
                        } else {
                            match first_offset(m2.structs[tst].0, iname) {
                                None => None,
                                Some(foff) => match decl_field_type(m2.structs[tst].1, iname) {
                                    None => None,
                                    Some(ft) => {
                                        let m3 = emit_m(m2, field_load_line(ft, val, ptr, foff as i32));
                                        if recheck && (!m3.structs.contains_key(st) || decl_field_type(m3.structs[st].1, iname) is None) {
                                            None
                                        } else {
                                            Some((m3, val, ptr))
                                        }
                                    },
                                },
                            }
                        }
                    },
                    _ => None,
                },
            }
        },
    }
}

/// An element of a local array, at a literal or computed index.
pub open spec fn gen_index(m: CgModel, e: ExprV) -> Option<(CgModel, Option<Seq<char>>)>
    decreases e, 1nat,
{
    match e {
        ExprV::ArrayAccess { array, index } => match *array {
            ExprV::Variable(n, _) => if !m.locals.contains_key(n) {
                None
            } else {
                let base = m.locals[n].1;
                match pop_reg(m) {
                    None => None,
                    Some((m1, dst)) => match *index {
                        ExprV::IntLiteral(k) => {
                            let off = base - k * 8;
                            if k * 8 < i32::MIN || k * 8 > i32::MAX || off < i32::MIN || off > i32::MAX {
                                None
                            } else {
                                Some((emit_m(m1, "mov "@ + dst + ", qword [rbp - "@ + int_text(off) + "]\n"@), Some(dst)))
                            }
                        },
                        _ => match spec_gen_expr(m1, *index) {
                            Some((m2, Some(idx))) => Some((
                                push_reg(emit_m(m2, "mov "@ + dst + ", qword [rbp + "@ + idx + "*8 - "@ + int_text(base as int) + "]\n"@), idx),
                                Some(dst),
                            )),
                            _ => None,
                        },
                    },
                }
            },
            _ => None,
        },
        _ => None,
    }
}

/// An assignment to a local: a literal or another local stored directly, a string
/// literal built on the heap, a struct field through its pointer, anything else through
/// a register.
pub open spec fn gen_assign(m: CgModel, e: ExprV) -> Option<(CgModel, Option<Seq<char>>)>
    decreases e, 1nat,
{
    match e {
        ExprV::Assign { name, value } => if !m.locals.contains_key(name) {
            None
        } else {
            let offset = m.locals[name].1;
            match *value {
                ExprV::Variable(x, _) => if !m.locals.contains_key(x) {
                    None
                } else {
                    Some((emit_m(m, "mov qword [rbp - "@ + int_text(offset as int) + "], [rbp - "@ + int_text(m.locals[x].1 as int) + "]"@), None))
                },
                ExprV::IntLiteral(n) => Some((emit_m(m, "mov dword [rbp - "@ + int_text(offset as int) + "], "@ + int_text(n as int) + "\n"@), None)),
                ExprV::BoolLiteral(b) => Some((emit_m(m, "mov byte [rbp - "@ + int_text(offset as int) + "], "@ + bool_text(b) + "\n"@), None)),
                ExprV::CharLiteral(c) => Some((emit_m(m, ("mov byte [rbp - "@ + int_text(offset as int) + "], "@).push(c) + "\n"@), None)),
                ExprV::StringLiteral(st) => {
                    let len = utf8_len(st);
                    let m1 = emit_m(m, "mov rdi, "@ + decimal(len) + "\ncall malloc\n"@);
                    match string_bytes(m1, st, 0) {
                        None => None,
                        Some(m2) => {
                            let m3 = emit_m(m2, "mov rdi, "@ + decimal(len) + "\nmov rsi, rax\n"@);
                            let m4 = emit_m(m3, "call string.new\n"@);
                            Some((emit_m(m4, "mov qword [rbp - "@ + int_text(offset as int) + "], rax\n"@), None))
                        },
                    }
                },
                ExprV::InstanceVar(sn, fname) => if !m.locals.contains_key(sn) {
                    None
                } else {
                    let poff = m.locals[sn].1;
                    match pop_reg(m) {
                        None => None,
                        Some((m1, pr)) => {
                            let m2 = emit_m(m1, "mov "@ + pr + ", qword [rbp - "@ + int_text(poff as int) + "]\n"@);
                            match m2.locals[sn].0 {
                                None => None,
                                Some(st) => if !m2.structs.contains_key(st) {
                                    None
                                } else {
                                    match first_offset(m2.structs[st].0, fname) {
                                        None => None,
                                        Some(foff) => match spec_gen_expr(m2, *value) {
                                            Some((m3, Some(v))) => {
                                                let line = match spec_get_type_of(*value) {
                                                    TypeV::Int => "mov dword ["@ + pr + " + "@ + decimal(foff as nat) + "], "@ + x86_reg32_of(v) + "\n"@,
                                                    TypeV::Char | TypeV::Bool => "mov byte ["@ + pr + " + "@ + decimal(foff as nat) + "], "@ + x86_reg8_of(v) + "\n"@,
                                                    _ => "mov qword ["@ + pr + " + "@ + decimal(foff as nat) + "], "@ + v + "\n"@,
                                                };
                                                Some((push_reg(push_reg(emit_m(m3, line), pr), v), None))
                                            },
                                            _ => None,
                                        },
                                    }
                                },
                            }
                        },
                    }
                },
                _ => match spec_gen_expr(m, *value) {
                    None => None,
                    Some((m1, None)) => Some((m1, None)),
                    Some((m1, Some(v))) => Some((
                        push_reg(emit_m(m1, "mov qword [rbp - "@ + int_text(offset as int) + "], "@ + v + "\n"@), v),
                        None,
                    )),
                },
            }
        },
        _ => None,
    }
}

/// `&x`: the address of a local, of an array element, of a field, or of a new struct.
pub open spec fn gen_address(m: CgModel, e: ExprV) -> Option<(CgModel, Option<Seq<char>>)>
    decreases e, 1nat,
{
    match e {
        ExprV::Unary { op: UnaryOp::AddressOf, expr, .. } => match *expr {
            ExprV::Unary { op: UnaryOp::Dereference, expr: inner, .. } => spec_gen_expr(m, *inner),
            ExprV::Variable(v, _) => if !m.locals.contains_key(v) {
                None
            } else {
                match pop_reg(m) {
                    None => None,
                    Some((m1, r)) => Some((emit_m(m1, "lea "@ + r + ", [rbp - "@ + int_text(m.locals[v].1 as int) + "]\n"@), Some(r))),
                }
            },
            ExprV::ArrayAccess { array, index } => match *array {
                ExprV::Variable(n, _) => if !m.locals.contains_key(n) {
                    None
                } else {
                    let base = m.locals[n].1;
                    let idx = match *index {
                        ExprV::IntLiteral(k) => match pop_reg(m) {
                            None => None,
                            Some((m1, r)) => Some((emit_m(m1, "mov "@ + r + ", "@ + int_text(k as int) + "\n"@), Some(r))),
                        },
                        _ => spec_gen_expr(m, *index),
                    };
                    match idx {
                        Some((m1, Some(ir))) => match pop_reg(m1) {
                            None => None,
                            Some((m2, a)) => Some((
                                push_reg(emit_m(m2, "lea "@ + a + ", [rbp + "@ + ir + "*8 - "@ + int_text(base as int) + "]\n"@), ir),
                                Some(a),
                            )),
                        },
                        _ => None,
                    }
                },
                _ => None,
            },
            ExprV::StructInit { .. } => gen_struct_init(m, *expr),
            ExprV::InstanceVar(sn, fname) => match gen_variable(m, sn) {
                Some((m1, Some(obj))) => if !m1.locals.contains_key(sn) {
                    None
                } else {
                    match m1.locals[sn].0 {
                        None => None,
                        Some(st) => if !m1.structs.contains_key(st) {
                            None
                        } else {
                            match first_offset(m1.structs[st].0, fname) {
                                None => None,
                                Some(foff) => match pop_reg(m1) {
                                    None => None,
                                    Some((m2, a)) => Some((
                                        push_reg(emit_m(m2, "lea "@ + a + ", ["@ + obj + " + "@ + decimal(foff as nat) + "]\n"@), obj),
                                        Some(a),
                                    )),
                                },
                            }
                        },
                    }
                },
                _ => None,
            },
            _ => None,
        },
        _ => None,
    }
}

/// `*x`: a pointer loaded and followed.
pub open spec fn gen_deref(m: CgModel, e: ExprV) -> Option<(CgModel, Option<Seq<char>>)>
    decreases e, 1nat,
{
    match e {
        ExprV::Unary { op: UnaryOp::Dereference, expr, .. } => match *expr {
            ExprV::Unary { op: UnaryOp::AddressOf, expr: inner, .. } => spec_gen_expr(m, *inner),
            ExprV::Unary { op: UnaryOp::Dereference, expr: inner, .. } => spec_gen_expr(m, *inner),
            ExprV::Variable(_, _) => match spec_gen_expr(m, *expr) {
                Some((m1, Some(p))) => Some((emit_m(m1, "mov "@ + p + ", qword ["@ + p + "]\n"@), Some(p))),
                _ => None,
            },
            ExprV::InstanceVar(sn, iname) => match field_read(m, sn, iname, false) {
                None => None,
                Some((m1, val, ptr)) => Some((push_reg(emit_m(m1, "mov "@ + ptr + ", qword ["@ + val + "]\n"@), val), Some(ptr))),
            },
            _ => spec_gen_expr(m, *expr),
        },
        _ => None,
    }
}

/// `*target = value`: the value stored through the pointer, 32 bits for an `int` or
/// `float`, 8 for a `bool` or `char`, 64 otherwise.
pub open spec fn gen_deref_assign(m: CgModel, e: ExprV) -> Option<(CgModel, Option<Seq<char>>)>
    decreases e, 1nat,
{
    match e {
        ExprV::DerefAssign { target, value } => match spec_gen_expr(m, *target) {
            Some((m1, Some(p))) => match spec_gen_expr(m1, *value) {
                None => None,
                Some((m2, None)) => Some((push_reg(m2, p), None)),
                Some((m2, Some(v))) => {
                    let line = match spec_get_type_of(*value) {
                        TypeV::Int | TypeV::Float => "mov dword ["@ + p + "], "@ + x86_reg32_of(v) + "\n"@,
                        TypeV::Bool | TypeV::Char => "mov byte ["@ + p + "], "@ + x86_reg8_of(v) + "\n"@,
                        _ => "mov qword ["@ + p + "], "@ + v + "\n"@,
                    };
                    Some((push_reg(push_reg(emit_m(m2, line), p), v), None))
                },
            },
            _ => None,
        },
        _ => None,
    }
}

/// The three ways the pointer-arithmetic checks of a binary operation end: a panic, a
/// result, or going on to the general case from a state.
pub enum Stage {
    Halt,
    Ret(CgModel, Option<Seq<char>>),
    Go(CgModel),
}

/// `p + n` or `p - n` with `p` a pointer and `n` an `int` literal: `n` scaled by the size
/// of what `p` points to.
pub open spec fn pointer_left(m: CgModel, e: ExprV) -> Stage
    decreases e, 0nat,
{
    match e {
        ExprV::Binary { left, op, right, .. } => match spec_get_type_of(*left) {
            TypeV::Pointer(inside) => if spec_get_type_of(*right) == TypeV::Int {
                if !crate::ast::size_fits(*inside) {
                    Stage::Halt
                } else {
                    let size = crate::ast::spec_type_size(*inside);
                    match spec_gen_expr(m, *left) {
                        Some((m1, Some(lhs))) => match *right {
                            ExprV::IntLiteral(n) => match pop_reg(m1) {
                                None => Stage::Halt,
                                Some((m2, r)) => {
                                    let m3 = emit_m(m2, "mov "@ + x86_reg32_of(r) + ", "@ + int_text(n as int) + "\n"@);
                                    let m4 = if size > 1 {
                                        emit_m(m3, "imul "@ + r + ", "@ + decimal(size) + "\n"@)
                                    } else {
                                        m3
                                    };
                                    match op {
                                        BinaryOp::Add => Stage::Ret(push_reg(emit_m(m4, "add "@ + lhs + ", "@ + r + "\n"@), r), Some(lhs)),
                                        BinaryOp::Sub => Stage::Ret(push_reg(emit_m(m4, "sub "@ + lhs + ", "@ + r + "\n"@), r), Some(lhs)),
                                        _ => Stage::Ret(m4, None),
                                    }
                                },
                            },
                            _ => Stage::Go(m1),
                        },
                        _ => Stage::Halt,
                    }
                }
            } else {
                Stage::Go(m)
            },
            _ => Stage::Go(m),
        },
        _ => Stage::Go(m),
    }
}

/// `n + p` or `n - p` with `p` a pointer and `n` an `int` literal.
pub open spec fn pointer_right(m: CgModel, e: ExprV) -> Stage
    decreases e, 0nat,
{
    match e {
        ExprV::Binary { left, op, right, .. } => match spec_get_type_of(*right) {
            TypeV::Pointer(inside) => if spec_get_type_of(*left) == TypeV::Int {
                if !crate::ast::size_fits(*inside) {
                    Stage::Halt
                } else {
                    let size = crate::ast::spec_type_size(*inside);
                    match spec_gen_expr(m, *right) {
                        Some((m1, Some(rhs))) => match *left {
                            ExprV::IntLiteral(n) => match pop_reg(m1) {
                                None => Stage::Halt,
                                Some((m2, r)) => {
                                    let m3 = emit_m(m2, "mov "@ + r + ", "@ + int_text(n as int) + "\n"@);
                                    let m4 = if size > 1 {
                                        emit_m(m3, "imul "@ + r + ", "@ + decimal(size) + "\n"@)
                                    } else {
                                        m3
                                    };
                                    match op {
                                        BinaryOp::Add => Stage::Ret(push_reg(emit_m(m4, "add "@ + rhs + ", "@ + r + "\n"@), r), Some(rhs)),
                                        BinaryOp::Sub => Stage::Ret(push_reg(emit_m(m4, "sub "@ + rhs + ", "@ + r + "\n"@), r), Some(rhs)),
                                        _ => Stage::Ret(m4, None),
                                    }
                                },
                            },
                            _ => Stage::Go(m1),
                        },
                        _ => Stage::Halt,
                    }
                }
            } else {
                Stage::Go(m)
            },
            _ => Stage::Go(m),
        },
        _ => Stage::Go(m),
    }
}

/// The `setcc` instruction of a comparison.
pub open spec fn set_cc(op: BinaryOp) -> Seq<char> {
    match op {
        BinaryOp::Equal => "sete"@,
        BinaryOp::NotEqual => "setne"@,
        BinaryOp::Less => "setl"@,
        BinaryOp::LessEqual => "setle"@,
        BinaryOp::Greater => "setg"@,
        _ => "setge"@,
    }
}

/// A binary operation on two registers.
pub open spec fn binary_on(m: CgModel, op: BinaryOp, lhs: Seq<char>, rhs: Seq<char>) -> Option<(CgModel, Option<Seq<char>>)> {
    match op {
        BinaryOp::Add => Some((push_reg(emit_m(m, "add "@ + lhs + ", "@ + rhs + "\n"@), rhs), Some(lhs))),
        BinaryOp::Sub => Some((push_reg(emit_m(m, "sub "@ + lhs + ", "@ + rhs + "\n"@), rhs), Some(lhs))),
        BinaryOp::Mul => Some((push_reg(emit_m(m, "imul "@ + lhs + ", "@ + rhs + "\n"@), rhs), Some(lhs))),
        BinaryOp::Div => {
            let m1 = emit_m(emit_m(emit_m(m, "mov rax, "@ + lhs + "\n"@), "xor rdx, rdx\n"@), "div "@ + rhs + "\n"@);
            Some((push_reg(push_reg(m1, lhs), rhs), Some("rax"@)))
        },
        BinaryOp::Mod => {
            let m1 = emit_m(
                emit_m(emit_m(emit_m(m, "mov rax, "@ + lhs + "\n"@), "xor rdx, rdx\n"@), "div "@ + rhs + "\n"@),
                "mov rax, rdx\n"@,
            );
            Some((push_reg(push_reg(m1, lhs), rhs), Some("rax"@)))
        },
        BinaryOp::And | BinaryOp::Or => if m.jmp == u32::MAX {
            None
        } else {
            let and = op == BinaryOp::And;
            let kind = if and {
                "and"@
            } else {
                "or"@
            };
            let end_label = "."@ + kind + "_end_"@ + decimal(m.jmp as nat);
            let m1 = with_jmp(m, (m.jmp + 1) as u32);
            let jcc = if and {
                "jne "@
            } else {
                "je "@
            };
            let first = if and {
                "mov rax, 1\n"@
            } else {
                "mov rax, 0\n"@
            };
            let second = if and {
                "mov rax, 0\n"@
            } else {
                "mov rax, 1\n"@
            };
            let m2 = emit_m(m1, "cmp "@ + lhs + ", 1\n"@);
            let m3 = emit_m(m2, jcc + end_label + "\n"@);
            let m4 = emit_m(m3, "cmp "@ + rhs + ", 1\n"@);
            let m5 = emit_m(m4, jcc + end_label + "\n"@);
            let m6 = emit_m(m5, first);
            let m7 = emit_m(m6, "jmp ."@ + kind + "_done_"@ + decimal(m1.jmp as nat) + "\n"@);
            let m8 = emit_m(m7, end_label + ":\n"@);
            let m9 = emit_m(m8, second);
            let m10 = emit_m(m9, "."@ + kind + "_done_"@ + decimal(m1.jmp as nat) + ":\n"@);
            Some((push_reg(push_reg(m10, lhs), rhs), Some("rax"@)))
        },
        _ => {
            let m1 = emit_m(emit_m(emit_m(m, "cmp "@ + lhs + ", "@ + rhs + "\n"@), set_cc(op) + " al\n"@), "movzx rax, al\n"@);
            Some((push_reg(push_reg(m1, lhs), rhs), Some("rax"@)))
        },
    }
}

/// The general case of a binary operation: both operands in registers.
pub open spec fn binary_general(m: CgModel, e: ExprV) -> Option<(CgModel, Option<Seq<char>>)>
    decreases e, 0nat,
{
    match e {
        ExprV::Binary { left, op, right, .. } => match spec_gen_expr(m, *left) {
            Some((m1, Some(lhs))) => match spec_gen_expr(m1, *right) {
                Some((m2, Some(rhs))) => binary_on(m2, op, lhs, rhs),
                _ => None,
            },
            _ => None,
        },
        _ => None,
    }
}

/// A binary operation: pointer arithmetic first, then the general case.
pub open spec fn gen_binary(m: CgModel, e: ExprV) -> Option<(CgModel, Option<Seq<char>>)>
    decreases e, 1nat,
{
    match pointer_left(m, e) {
        Stage::Halt => None,
        Stage::Ret(m1, r) => Some((m1, r)),
        Stage::Go(m1) => match pointer_right(m1, e) {
            Stage::Halt => None,
            Stage::Ret(m2, r) => Some((m2, r)),
            Stage::Go(m2) => binary_general(m2, e),
        },
    }
}

/// The type of an expression before type checking.
pub open spec fn spec_get_type_of(e: ExprV) -> TypeV {
    crate::ast::spec_get_type(e)
}

/// What emitting `e` writes and which register, if any, holds its value; `None` where
/// the generator panics.
pub open spec fn spec_gen_expr(m: CgModel, e: ExprV) -> Option<(CgModel, Option<Seq<char>>)>
    decreases e, 2nat,
{
    match e {
        ExprV::FieldAssign { .. } => gen_field_assign(m, e),
        ExprV::Array(elements, ty) => if !layout_fits(ty) {
            None
        } else {
            let s0 = spec_size_align(ty).0;
            let s1 = spec_size_align(ty).1;
            let size = s0 * elements.len();
            if size > usize::MAX || size + s1 - 1 > usize::MAX {
                None
            } else {
                let m1 = emit_m(
                    emit_m(m, "sub rsp, 8\npush rdi\nmov rdi, "@ + decimal(spec_align_up(size as int, s1 as int) as nat) + "\nadd rsp, 8\n"@),
                    malloc_call(m),
                );
                match pop_reg(m1) {
                    None => None,
                    Some((m2, r)) => Some((emit_m(m2, "mov "@ + r + ", rax\n"@), Some(r))),
                }
            }
        },
        ExprV::Call { name, args, .. } => if name == "sizeof"@ {
            if args.len() != 1 || !crate::ast::size_fits(spec_get_type_of(args[0])) {
                None
            } else {
                Some((emit_m(drop_rax(m), "mov rax, "@ + decimal(crate::ast::spec_type_size(spec_get_type_of(args[0]))) + "\n"@), Some("rax"@)))
            }
        } else {
            match gen_args(m, args, 0, Seq::empty()) {
                None => None,
                Some((m1, vals)) => {
                    let m2 = give_all(move_args(m1, vals, 0), vals, 0);
                    Some((drop_rax(emit_m(m2, aligned_call_text(m2.stack, name))), Some("rax"@)))
                },
            }
        },
        ExprV::FloatLiteral(_) => Some((m, None)),
        ExprV::CharLiteral(c) => gen_imm(m, char_text(c)),
        ExprV::BoolLiteral(b) => gen_imm(m, bool_text(b)),
        ExprV::IntLiteral(n) => gen_imm(m, int_text(n as int)),
        ExprV::InstanceVar(sn, iname) => match field_read(m, sn, iname, true) {
            None => None,
            Some((m1, val, ptr)) => Some((push_reg(m1, ptr), Some(val))),
        },
        ExprV::Variable(name, _) => gen_variable(m, name),
        ExprV::ArrayAccess { .. } => gen_index(m, e),
        ExprV::StructInit { .. } => gen_struct_init(m, e),
        ExprV::Assign { .. } => gen_assign(m, e),
        ExprV::Unary { op: UnaryOp::AddressOf, .. } => gen_address(m, e),
        ExprV::Unary { op: UnaryOp::Dereference, .. } => gen_deref(m, e),
        ExprV::DerefAssign { .. } => gen_deref_assign(m, e),
        ExprV::Binary { .. } => gen_binary(m, e),
        _ => Some((m, None)),
    }
}

/// The size and alignment of `ty`, or `None` when laying it out overflows a machine word.
pub fn checked_size_align(ty: &Type) -> (r: Option<(usize, usize)>)
    ensures
        r is None <==> !layout_fits(ty@),
        r matches Some(p) ==> p.0 == spec_size_align(ty@).0 && p.1 == spec_size_align(ty@).1,
    decreases ty,
{
    match ty {
        Type::Struct { name, instances } => {
            proof {
                crate::ast::lemma_struct_view(*name, *instances);
                lemma_pow2_aligns();
            }
            match checked_fold_fields(instances) {
                None => None,
                Some((off, max_a)) => {
                    proof {
                        crate::layout::lemma_fold_fields_align(crate::ast::fields_view(instances@));
                    }
                    if off > usize::MAX - (max_a - 1) {
                        None
                    } else {
                        Some((align_up(off, max_a), max_a))
                    }
                },
            }
        },
        _ => Some(size_align_of(ty)),
    }
}

/// The end offset and largest alignment of laying out `fs`, or `None` on overflow.
pub(crate) fn checked_fold_fields(fs: &Vec<(String, Type)>) -> (r: Option<(usize, usize)>)
    ensures
        r is None <==> !crate::layout::fold_fields_fit(crate::ast::fields_view(fs@)),
        r matches Some(p) ==> p.0 == crate::layout::spec_fold_fields(crate::ast::fields_view(fs@)).0
            && p.1 == crate::layout::spec_fold_fields(crate::ast::fields_view(fs@)).1,
    decreases fs,
{
    let ghost fv = crate::ast::fields_view(fs@);
    proof {
        lemma_pow2_aligns();
        assert(fv.take(0) =~= Seq::<(Seq<char>, TypeV)>::empty());
    }
    let mut off: usize = 0;
    let mut max_a: usize = 1;
    let mut i: usize = 0;
    while i < fs.len()
        invariant
            i <= fs@.len(),
            fv == crate::ast::fields_view(fs@),
            crate::layout::fold_fields_fit(fv.take(i as int)),
            off == crate::layout::spec_fold_fields(fv.take(i as int)).0,
            max_a == crate::layout::spec_fold_fields(fv.take(i as int)).1,
            is_power_of_two(1),
            is_power_of_two(4),
            is_power_of_two(8),
        decreases fs@.len() - i,
    {
        let ghost pre = fv.take(i as int + 1);
        proof {
            assert(pre.drop_last() =~= fv.take(i as int));
            assert(pre.last() == fv[i as int]);
            assert(decreases_to!(fs => fs@[i as int].1));
            lemma_align_values(fv[i as int].1);
        }
        let (sz, al) = match checked_size_align(&fs[i].1) {
            None => {
                proof {
                    if crate::layout::fold_fields_fit(fv) {
                        crate::layout::lemma_fold_fields_fit_prefix(fv);
                        assert(crate::layout::fold_fields_fit(pre));
                    }
                }
                return None;
            },
            Some(p) => p,
        };
        let al = if al >= 1 { al } else { 1 };
        if off > usize::MAX - (al - 1) {
            proof {
                if crate::layout::fold_fields_fit(fv) {
                    crate::layout::lemma_fold_fields_fit_prefix(fv);
                    assert(crate::layout::fold_fields_fit(pre));
                }
            }
            return None;
        }
        let aligned = align_up(off, al);
        if aligned > usize::MAX - sz {
            proof {
                if crate::layout::fold_fields_fit(fv) {
                    crate::layout::lemma_fold_fields_fit_prefix(fv);
                    assert(crate::layout::fold_fields_fit(pre));
                }
            }
            return None;
        }
        off = aligned + sz;
        max_a = if max_a >= al { max_a } else { al };
        i = i + 1;
    }
    proof {
        assert(fv.take(fv.len() as int) =~= fv);
    }
    Some((off, max_a))
}

/// The size of a value of type `t`, or `None` when computing it overflows a machine word.
pub fn checked_type_size(t: &Type) -> (r: Option<usize>)
    ensures
        r is None <==> !crate::ast::size_fits(t@),
        r matches Some(k) ==> k == crate::ast::spec_type_size(t@),
    decreases t,
{
    match t {
        Type::Array(e, n) => match checked_type_size(&**e) {
            None => None,
            Some(es) => {
                let k: usize = match n {
                    Some(k) => *k,
                    None => 0,
                };
                if k != 0 && es > usize::MAX / k {
                    proof {
                        vstd::arithmetic::div_mod::lemma_fundamental_div_mod(usize::MAX as int, k as int);
                        assert(es * k > usize::MAX) by (nonlinear_arith)
                            requires es > usize::MAX / k, k > 0, usize::MAX == k * (usize::MAX / k) + usize::MAX % k, usize::MAX % k < k;
                    }
                    None
                } else {
                    proof {
                        if k != 0 {
                            assert(es * k <= usize::MAX) by (nonlinear_arith)
                                requires es <= usize::MAX / k, k > 0;
                        }
                    }
                    Some(es * k)
                }
            },
        },
        Type::Struct { .. } => match checked_size_align(t) {
            None => None,
            Some(p) => Some(p.0),
        },
        _ => Some(t.size()),
    }
}

proof fn lemma_gen_params_len(m: CgModel, ps: Seq<(Seq<char>, ExprV)>, vals: Seq<Seq<char>>)
    ensures
        gen_params(m, ps, vals) matches Some((_, v)) ==> v.len() == vals.len() + ps.len(),
    decreases ps.len(),
{
    if ps.len() > 0 {
        match spec_gen_expr(m, ps[0].1) {
            Some((m1, Some(r))) => lemma_gen_params_len(m1, ps.skip(1), vals.push(r)),
            _ => {},
        }
    }
}

proof fn lemma_gen_args_len(m: CgModel, args: Seq<ExprV>, idx: nat, vals: Seq<Seq<char>>)
    requires
        vals.len() == idx,
        idx <= 5,
    ensures
        gen_args(m, args, idx, vals) matches Some((_, v)) ==> v.len() <= 5,
    decreases args.len(),
{
    if args.len() > 0 {
        match spec_gen_expr(m, args[0]) {
            Some((m1, Some(r))) => if idx < 5 {
                lemma_gen_args_len(m1, args.skip(1), idx + 1, vals.push(r));
            },
            _ => {},
        }
    }
}

/// The position of the first field named `f`.
fn find_field_index(fs: &Vec<(String, Type)>, f: &String) -> (r: Option<usize>)
    ensures
        match r {
            Some(i) => i < fs@.len() && crate::typecheck::field_type_of(crate::ast::fields_view(fs@), f@) == Some(fs@[i as int].1@),
            None => crate::typecheck::field_type_of(crate::ast::fields_view(fs@), f@) is None,
        },
{
    let ghost fv = crate::ast::fields_view(fs@);
    proof {
        assert(fv.skip(0) =~= fv);
    }
    let mut i: usize = 0;
    while i < fs.len()
        invariant
            i <= fs@.len(),
            fv == crate::ast::fields_view(fs@),
            crate::typecheck::field_type_of(fv, f@) == crate::typecheck::field_type_of(fv.skip(i as int), f@),
        decreases fs@.len() - i,
    {
        proof {
            assert(fv.skip(i as int)[0] == fv[i as int]);
            assert(fv.skip(i as int).skip(1) =~= fv.skip(i + 1));
        }
        if fs[i].0 == *f {
            return Some(i);
        }
        i = i + 1;
    }
    proof {
        assert(fv.skip(i as int).len() == 0);
    }
    None
}

/// Whether `c` is white space in the Unicode sense.
fn is_white_char(c: char) -> (r: bool)
    ensures
        r == is_white(c),
{
    let u = c as u32;
    (0x9 <= u && u <= 0xd) || u == 0x20 || u == 0x85 || u == 0xa0 || u == 0x1680 || (0x2000 <= u && u <= 0x200a)
        || u == 0x2028 || u == 0x2029 || u == 0x202f || u == 0x205f || u == 0x3000
}

/// `s` without white space at either end.
fn trim_string(s: &String) -> (r: String)
    ensures
        r@ == trimmed(s@),
{
    let cs = crate::lexer::str_chars(s.as_str());
    let ghost v = cs@;
    let mut a: usize = 0;
    proof {
        assert(v.skip(0) =~= v);
    }
    while a < cs.len() && is_white_char(cs[a])
        invariant
            a <= cs@.len(),
            v == cs@,
            trim_start(v) == trim_start(v.skip(a as int)),
        decreases cs@.len() - a,
    {
        proof {
            assert(v.skip(a as int).drop_first() =~= v.skip(a + 1));
        }
        a = a + 1;
    }
    let ghost t = v.skip(a as int);
    proof {
        assert(trim_start(t) == t);
        assert(t.take(t.len() as int) =~= t);
    }
    let mut b: usize = cs.len();
    while b > a && is_white_char(cs[b - 1])
        invariant
            a <= b <= cs@.len(),
            v == cs@,
            t == v.skip(a as int),
            trim_end(t) == trim_end(t.take(b - a)),
        decreases b,
    {
        proof {
            assert(t.take(b - a).drop_last() =~= t.take(b - 1 - a));
            assert(t.take(b - a).last() == v[b - 1]);
        }
        b = b - 1;
    }
    proof {
        if b > a {
            assert(t.take(b - a).last() == v[b - 1]);
        }
        assert(trim_end(t.take(b - a)) == t.take(b - a));
    }
    let mut out = String::new();
    let mut k: usize = a;
    while k < b
        invariant
            a <= k <= b <= cs@.len(),
            v == cs@,
            out@ == v.subrange(a as int, k as int),
        decreases b - k,
    {
        string_push(&mut out, cs[k]);
        proof {
            assert(out@ =~= v.subrange(a as int, k + 1));
        }
        k = k + 1;
    }
    proof {
        assert(out@ =~= t.take(b - a));
    }
    out
}

/// The position of the last layout field named `f`.
fn last_position_exec(names: &Vec<String>, f: &String) -> (r: Option<usize>)
    ensures
        match r {
            Some(i) => i < names@.len() && last_position_names(names@.map_values(|s: String| s@), f@) == Some(i as int),
            None => last_position_names(names@.map_values(|s: String| s@), f@) is None,
        },
{
    let ghost nv = names@.map_values(|s: String| s@);
    proof {
        assert(nv.take(nv.len() as int) =~= nv);
    }
    let mut j: usize = names.len();
    while j > 0
        invariant
            j <= names@.len(),
            nv == names@.map_values(|s: String| s@),
            last_position_names(nv, f@) == last_position_names(nv.take(j as int), f@),
        decreases j,
    {
        proof {
            assert(nv.take(j as int).drop_last() =~= nv.take(j - 1));
            assert(nv.take(j as int).last() == nv[j - 1]);
        }
        if names[j - 1] == *f {
            return Some(j - 1);
        }
        j = j - 1;
    }
    None
}

/// The registers that are not empty, in order.
fn nonempty_exec(slots: &Vec<String>) -> (r: Vec<String>)
    ensures
        r@.map_values(|s: String| s@) == nonempty(slots@.map_values(|s: String| s@)),
{
    let ghost sv = slots@.map_values(|s: String| s@);
    let mut out: Vec<String> = Vec::new();
    let mut i: usize = 0;
    proof {
        assert(sv.take(0) =~= Seq::<Seq<char>>::empty());
        assert(out@.map_values(|s: String| s@) =~= Seq::<Seq<char>>::empty());
    }
    while i < slots.len()
        invariant
            i <= slots@.len(),
            sv == slots@.map_values(|s: String| s@),
            out@.map_values(|s: String| s@) == nonempty(sv.take(i as int)),
        decreases slots@.len() - i,
    {
        let ghost before = out@.map_values(|s: String| s@);
        proof {
            assert(sv.take(i + 1).drop_last() =~= sv.take(i as int));
            assert(sv.take(i + 1).last() == sv[i as int]);
            assert(sv[i as int] == slots@[i as int]@);
            if sv[i as int].len() == 0 {
                assert(sv[i as int] =~= Seq::<char>::empty());
            }
        }
        if !(slots[i] == String::new()) {
            out.push(slots[i].clone());
            proof {
                assert(out@.map_values(|s: String| s@) =~= before.push(sv[i as int]));
            }
        }
        i = i + 1;
    }
    proof {
        assert(sv.take(i as int) =~= sv);
    }
    out
}

/// The position of the last name equal to `f`.
pub open spec fn last_position_names(ns: Seq<Seq<char>>, f: Seq<char>) -> Option<int>
    decreases ns.len(),
{
    if ns.len() == 0 {
        None
    } else if ns.last() == f {
        Some(ns.len() - 1)
    } else {
        last_position_names(ns.drop_last(), f)
    }
}

proof fn lemma_last_position_names(lay: Seq<(Seq<char>, usize)>, f: Seq<char>)
    ensures
        last_position(lay, f) == last_position_names(lay.map_values(|p: (Seq<char>, usize)| p.0), f),
    decreases lay.len(),
{
    if lay.len() > 0 {
        assert(lay.drop_last().map_values(|p: (Seq<char>, usize)| p.0) =~= lay.map_values(|p: (Seq<char>, usize)| p.0).drop_last());
        lemma_last_position_names(lay.drop_last(), f);
    }
}

/// `String::len` of std: the length of `s` in bytes, each character taking the number
/// of bytes of its UTF-8 encoding.
#[verifier::external_body]
pub(crate) fn byte_len(s: &String) -> (r: usize)
    ensures
        r == utf8_len(s@),
{
    s.len()
}

/// The jump mnemonics and values of a short-circuit operation.
fn logic_parts(and: bool) -> (r: (&'static str, &'static str, &'static str, &'static str))
    ensures
        r.0@ == (if and { "and"@ } else { "or"@ }),
        r.1@ == (if and { "jne "@ } else { "je "@ }),
        r.2@ == (if and { "mov rax, 1\n"@ } else { "mov rax, 0\n"@ }),
        r.3@ == (if and { "mov rax, 0\n"@ } else { "mov rax, 1\n"@ }),
{
    if and {
        ("and", "jne ", "mov rax, 1\n", "mov rax, 0\n")
    } else {
        ("or", "je ", "mov rax, 0\n", "mov rax, 1\n")
    }
}

/// The `setcc` instruction of a comparison.
fn set_cc_exec(op: BinaryOp) -> (r: &'static str)
    ensures
        r@ == set_cc(op),
{
    match op {
        BinaryOp::Equal => "sete",
        BinaryOp::NotEqual => "setne",
        BinaryOp::Less => "setl",
        BinaryOp::LessEqual => "setle",
        BinaryOp::Greater => "setg",
        _ => "setge",
    }
}

/// What an emission that returns `r`, leaving the generator in state `m`, reports.
pub open spec fn gen_result(r: Result<Option<String>, ()>, m: CgModel) -> Option<(CgModel, Option<Seq<char>>)> {
    match r {
        Ok(o) => Some((m, opt_name_view(o))),
        Err(_) => None,
    }
}

/// `a` followed by `b`.
pub(crate) fn cat(a: &str, b: &str) -> (r: String)
    ensures
        r@ == a@ + b@,
{
    let mut s = a.to_owned();
    s.append(b);
    s
}

impl CodeGen {
    /// The stack offset and type kind of the local `name`: 0 for `int` or `float`, 1 for
    /// `char` or `bool`, 2 otherwise.
    pub(crate) fn local_info(&self, name: &String) -> (r: Option<(i32, u8, Option<String>)>)
        ensures
            match r {
                None => !self.model().locals.contains_key(name@),
                Some((off, kind, st)) => self.model().locals.contains_key(name@)
                    && off == self.model().locals[name@].1
                    && opt_name_view(st) == self.model().locals[name@].0
                    && (kind == 0 <==> (self.model().locals[name@].2 is Int || self.model().locals[name@].2 is Float))
                    && (kind == 1 <==> (self.model().locals[name@].2 is Char || self.model().locals[name@].2 is Bool))
                    && kind <= 2,
            },
    {
        match self.locals.get(name.as_str()) {
            None => None,
            Some(info) => {
                let kind: u8 = match &info.2 {
                    Type::Int | Type::Float => 0,
                    Type::Char | Type::Bool => 1,
                    _ => 2,
                };
                let st = match &info.0 {
                    Some(x) => Some(x.clone()),
                    None => None,
                };
                Some((info.1, kind, st))
            },
        }
    }

    /// Loads the local `name` into a fresh register.
    fn variable_load(&mut self, name: &String) -> (r: Result<Option<String>, ()>)
        ensures
            gen_result(r, final(self).model()) == gen_variable(old(self).model(), name@),
    {
        let (off, kind, _) = match self.local_info(name) {
            None => {
                return Err(());
            },
            Some(i) => i,
        };
        let r = match self.take_reg() {
            None => {
                return Err(());
            },
            Some(r) => r,
        };
        let mut l = "mov ".to_owned();
        if kind == 0 {
            l.append(reg32(r.as_str()));
            l.append(", dword [rbp - ");
        } else if kind == 1 {
            l.append(reg8(r.as_str()));
            l.append(", byte [rbp - ");
        } else {
            l.append(r.as_str());
            l.append(", qword [rbp - ");
        }
        push_int(&mut l, off);
        l.append("]\n");
        self.emit(l.as_str());
        Ok(Some(r))
    }

    /// Loads an immediate written as `text` into a fresh register.
    fn imm(&mut self, text: &str) -> (r: Result<Option<String>, ()>)
        ensures
            gen_result(r, final(self).model()) == gen_imm(old(self).model(), text@),
    {
        let r = match self.take_reg() {
            None => {
                return Err(());
            },
            Some(r) => r,
        };
        let mut l = "mov ".to_owned();
        l.append(r.as_str());
        l.append(", ");
        l.append(text);
        l.append("\n");
        self.emit(l.as_str());
        Ok(Some(r))
    }

    /// Moves each value into its argument register, unless it is already there.
    fn move_args_exec(&mut self, vals: &Vec<String>)
        requires
            vals@.len() <= 5,
        ensures
            final(self).model() == move_args(old(self).model(), vals@.map_values(|s: String| s@), 0),
    {
        let ghost vv = vals@.map_values(|s: String| s@);
        let mut i: usize = 0;
        while i < vals.len()
            invariant
                i <= vals@.len(),
                vals@.len() <= 5,
                vv == vals@.map_values(|s: String| s@),
                move_args(old(self).model(), vv, 0) == move_args(self.model(), vv, i as nat),
            decreases vals@.len() - i,
        {
            let reg: &str = if i == 0 {
                "rdi"
            } else if i == 1 {
                "rsi"
            } else if i == 2 {
                "rdx"
            } else if i == 3 {
                "rcx"
            } else {
                "r8"
            };
            let same = vals[i] == reg.to_owned();
            if !same {
                let mut l = "mov ".to_owned();
                l.append(reg);
                l.append(", ");
                l.append(vals[i].as_str());
                l.append("\n");
                self.emit(l.as_str());
            }
            i = i + 1;
        }
    }

    /// Gives every register of `vals` back, in order.
    fn give_all_exec(&mut self, vals: Vec<String>)
        ensures
            final(self).model() == give_all(old(self).model(), vals@.map_values(|s: String| s@), 0),
    {
        let ghost vv = vals@.map_values(|s: String| s@);
        let mut i: usize = 0;
        while i < vals.len()
            invariant
                i <= vals@.len(),
                vv == vals@.map_values(|s: String| s@),
                give_all(old(self).model(), vv, 0) == give_all(self.model(), vv, i as nat),
            decreases vals@.len() - i,
        {
            self.give_reg(vals[i].clone());
            i = i + 1;
        }
    }

    /// The values of the arguments, in order.
    fn args_exec(&mut self, args: &Vec<Expr>) -> (r: Result<Vec<String>, ()>)
        ensures
            match r {
                Ok(v) => gen_args(old(self).model(), crate::ast::exprs_view(args@), 0, Seq::empty())
                    == Some((final(self).model(), v@.map_values(|s: String| s@))),
                Err(_) => gen_args(old(self).model(), crate::ast::exprs_view(args@), 0, Seq::empty()) is None,
            },
        decreases args, 0nat,
    {
        let ghost av = crate::ast::exprs_view(args@);
        let ghost whole = gen_args(self.model(), av, 0, Seq::empty());
        let mut vals: Vec<String> = Vec::new();
        proof {
            crate::ast::lemma_exprs_view(args@);
            assert(av.skip(0) =~= av);
            assert(vals@.map_values(|s: String| s@) =~= Seq::<Seq<char>>::empty());
        }
        let mut i: usize = 0;
        while i < args.len()
            invariant
                i <= args@.len(),
                av == crate::ast::exprs_view(args@),
                av.len() == args@.len(),
                forall|j: int| 0 <= j < args@.len() ==> #[trigger] av[j] == args@[j]@,
                whole == gen_args(old(self).model(), av, 0, Seq::empty()),
                whole == gen_args(self.model(), av.skip(i as int), i as nat, vals@.map_values(|s: String| s@)),
                vals@.len() == i,
            decreases args@.len() - i,
        {
            proof {
                assert(av.skip(i as int)[0] == av[i as int]);
                assert(av.skip(i as int).skip(1) =~= av.skip(i + 1));
                assert(decreases_to!(args => args@[i as int]));
            }
            let ghost vv = vals@.map_values(|s: String| s@);
            match self.handle_expr(&args[i], None) {
                Ok(Some(r)) => {
                    if i >= 5 {
                        return Err(());
                    }
                    vals.push(r);
                    proof {
                        assert(vals@.map_values(|s: String| s@) =~= vv.push(vals@[i as int]@));
                    }
                },
                _ => {
                    return Err(());
                },
            }
            i = i + 1;
        }
        proof {
            assert(av.skip(i as int) =~= Seq::<ExprV>::empty());
        }
        Ok(vals)
    }

    /// Emits `expr` and returns the register that holds its value, if it has one.
    #[verifier::rlimit(50)]
    pub fn handle_expr(&mut self, expr: &Expr, ident: Option<String>) -> (r: Result<Option<String>, ()>)
        ensures
            gen_result(r, final(self).model()) == spec_gen_expr(old(self).model(), expr@),
        decreases expr, 2nat,
    {
        proof {
            reveal(expr_view);
        }
        match expr {
            Expr::Call { .. } => self.gen_call_exec(expr),
            Expr::FloatLiteral(_) => Ok(None),
            Expr::CharLiteral(c) => {
                let mut t = "'".to_owned();
                string_push(&mut t, *c);
                string_push(&mut t, '\'');
                self.imm(t.as_str())
            },
            Expr::BoolLiteral(b) => self.imm(if *b { "1" } else { "0" }),
            Expr::IntLiteral(n) => {
                let mut t = String::new();
                push_int(&mut t, *n);
                proof {
                    assert(t@ =~= int_text(*n as int));
                }
                self.imm(t.as_str())
            },
            Expr::Variable(name, _) => self.variable_load(name),
            Expr::FieldAssign { .. } => self.field_assign_exec(expr),
            Expr::Array(..) => self.gen_array_exec(expr),
            Expr::InstanceVar(sn, iname) => match self.field_read_exec(sn, iname, true) {
                Err(_) => Err(()),
                Ok((val, ptr)) => {
                    self.give_reg(ptr);
                    Ok(Some(val))
                },
            },
            Expr::ArrayAccess { .. } => self.index_exec(expr),
            Expr::StructInit { .. } => self.struct_init_exec(expr),
            Expr::Assign { .. } => self.assign_exec(expr),
            Expr::Unary { op: UnaryOp::AddressOf, .. } => self.address_exec(expr),
            Expr::Unary { op: UnaryOp::Dereference, .. } => self.deref_exec(expr),
            Expr::DerefAssign { .. } => self.deref_assign_exec(expr),
            Expr::Binary { .. } => self.binary_exec(expr),
            _ => Ok(None),
        }
    }

    /// A heap block for an array literal's elements.
    fn gen_array_exec(&mut self, expr: &Expr) -> (r: Result<Option<String>, ()>)
        requires
            expr is Array,
        ensures
            gen_result(r, final(self).model()) == spec_gen_expr(old(self).model(), expr@),
    {
        proof {
            reveal(expr_view);
        }
        match expr {
            Expr::Array(elements, ty) => {
                proof {
                    crate::ast::lemma_array_view(*elements, *ty);
                    crate::ast::lemma_exprs_view(elements@);
                }
                let (s0, s1) = match checked_size_align(ty) {
                    None => {
                        return Err(());
                    },
                    Some(p) => p,
                };
                let n = elements.len();
                if n != 0 && s0 > usize::MAX / n {
                    proof {
                        vstd::arithmetic::div_mod::lemma_fundamental_div_mod(usize::MAX as int, n as int);
                        assert(s0 * n > usize::MAX) by (nonlinear_arith)
                            requires s0 > usize::MAX / n, n > 0, usize::MAX == n * (usize::MAX / n) + usize::MAX % n, usize::MAX % n < n;
                    }
                    return Err(());
                }
                proof {
                    if n != 0 {
                        assert(s0 * n <= usize::MAX) by (nonlinear_arith)
                            requires s0 <= usize::MAX / n, n > 0;
                    } else {
                        assert(s0 * n == 0) by (nonlinear_arith)
                            requires n == 0;
                    }
                    lemma_align_values(ty@);
                    lemma_pow2_aligns();
                }
                let size = s0 * n;
                if size > usize::MAX - (s1 - 1) {
                    return Err(());
                }
                let size = align_up(size, s1);
                let mut l = "sub rsp, 8\npush rdi\nmov rdi, ".to_owned();
                push_decimal(&mut l, size);
                l.append("\nadd rsp, 8\n");
                self.emit(l.as_str());
                if self.aarch64 {
                    self.emit("call _malloc\n");
                } else {
                    self.emit("call malloc\n");
                }
                let r = match self.take_reg() {
                    None => {
                        return Err(());
                    },
                    Some(r) => r,
                };
                let l2 = cat(cat("mov ", r.as_str()).as_str(), ", rax\n");
                self.emit(l2.as_str());
                Ok(Some(r))
            },
            _ => Err(()),
        }
    }

    /// The struct and the two lookups of a field: the offset of its first occurrence in the
    /// struct's layout, and its type in the struct's declaration.
    pub(crate) fn field_offset_of(&self, st: &String, f: &String) -> (r: Option<usize>)
        ensures
            r is Some <==> (self.model().structs.contains_key(st@) && first_offset(self.model().structs[st@].0, f@) is Some),
            r matches Some(o) ==> first_offset(self.model().structs[st@].0, f@) == Some(o),
    {
        match self.structes.get(st.as_str()) {
            None => None,
            Some(info) => {
                let ghost lv = layout_view(info.0.fields@);
                proof {
                    assert(self.model().structs[st@].0 == lv);
                    assert(lv.skip(0) =~= lv);
                }
                let mut i: usize = 0;
                while i < info.0.fields.len()
                    invariant
                        i <= info.0.fields@.len(),
                        lv == layout_view(info.0.fields@),
                        self.model().structs.contains_key(st@),
                        self.model().structs[st@].0 == lv,
                        first_offset(lv, f@) == first_offset(lv.skip(i as int), f@),
                    decreases info.0.fields@.len() - i,
                {
                    proof {
                        assert(lv.skip(i as int).drop_first() =~= lv.skip(i + 1));
                        assert(lv.skip(i as int)[0] == lv[i as int]);
                        assert(lv[i as int] == (info.0.fields@[i as int].name@, info.0.fields@[i as int].offset));
                    }
                    if info.0.fields[i].name == *f {
                        return Some(info.0.fields[i].offset);
                    }
                    i = i + 1;
                }
                proof {
                    assert(lv.skip(i as int).len() == 0);
                }
                None
            },
        }
    }

    /// The kind of the type of the field `f` in the declaration of the struct `st`: 0 for
    /// `int`, 1 for `char` or `bool`, 3 for `float`, 2 otherwise; `None` when the struct or
    /// the field is not declared.
    fn field_kind_of(&self, st: &String, f: &String) -> (r: Option<u8>)
        ensures
            r is Some <==> (self.model().structs.contains_key(st@) && decl_field_type(self.model().structs[st@].1, f@) is Some),
            r matches Some(k) ==> {
                let t = decl_field_type(self.model().structs[st@].1, f@)->0;
                &&& (k == 0 <==> t is Int)
                &&& (k == 1 <==> (t is Char || t is Bool))
                &&& (k == 3 <==> t is Float)
                &&& k <= 3
            },
    {
        proof {
            reveal(stmt_view);
        }
        match self.structes.get(st.as_str()) {
            None => None,
            Some(info) => {
                proof {
                    assert(self.model().structs[st@].1 == info.1@);
                }
                match &info.1 {
                    crate::ast::Stmt::StructDecl { name, instances, union } => {
                        proof {
                            assert(info.1@ == StmtV::StructDecl { name: name@, instances: crate::ast::fields_view(instances@), union: *union });
                        }
                        match find_field_index(instances, f) {
                            None => None,
                            Some(i) => {
                                let k: u8 = match &instances[i].1 {
                                    Type::Int => 0,
                                    Type::Char | Type::Bool => 1,
                                    Type::Float => 3,
                                    _ => 2,
                                };
                                Some(k)
                            },
                        }
                    },
                    _ => None,
                }
            },
        }
    }

    /// Reads the field `iname` of the struct the local `sn` points to.
    fn field_read_exec(&mut self, sn: &String, iname: &String, recheck: bool) -> (r: Result<(String, String), ()>)
        ensures
            match r {
                Ok((val, ptr)) => field_read(old(self).model(), sn@, iname@, recheck) == Some((final(self).model(), val@, ptr@)),
                Err(_) => field_read(old(self).model(), sn@, iname@, recheck) is None,
            },
    {
        let val = match self.take_reg() {
            None => {
                return Err(());
            },
            Some(v) => v,
        };
        let st = match self.local_info(sn) {
            None => {
                return Err(());
            },
            Some((_, _, None)) => {
                return Err(());
            },
            Some((_, _, Some(st))) => st,
        };
        let ptr = match self.variable_load(sn) {
            Ok(Some(p)) => p,
            _ => {
                return Err(());
            },
        };
        let tst = trim_string(&st);
        let foff = match self.field_offset_of(&tst, iname) {
            None => {
                return Err(());
            },
            Some(o) => o,
        };
        let kind = match self.field_kind_of(&tst, iname) {
            None => {
                return Err(());
            },
            Some(k) => k,
        };
        let mut l = "mov ".to_owned();
        if kind == 0 {
            l.append(reg32(val.as_str()));
            l.append(", dword [");
        } else if kind == 1 {
            l.append(reg8(val.as_str()));
            l.append(", byte [");
        } else {
            l.append(val.as_str());
            l.append(", qword [");
        }
        l.append(ptr.as_str());
        l.append(" + ");
        push_int(&mut l, foff as i32);
        l.append("]\n");
        self.emit(l.as_str());
        if recheck {
            if self.field_kind_of(&st, iname).is_none() {
                return Err(());
            }
        }
        Ok((val, ptr))
    }

    /// `class.field = value`.
    fn field_assign_exec(&mut self, expr: &Expr) -> (r: Result<Option<String>, ()>)
        requires
            expr is FieldAssign,
        ensures
            gen_result(r, final(self).model()) == gen_field_assign(old(self).model(), expr@),
        decreases expr, 1nat,
    {
        proof {
            reveal(expr_view);
        }
        match expr {
            Expr::FieldAssign { class_name, field, value } => {
                let (soff, st) = match self.local_info(class_name) {
                    None => {
                        return Err(());
                    },
                    Some((_, _, None)) => {
                        return Err(());
                    },
                    Some((o, _, Some(st))) => (o, st),
                };
                let foff = match self.field_offset_of(&st, field) {
                    None => {
                        return Err(());
                    },
                    Some(o) => o,
                };
                let kind = match self.field_kind_of(&st, field) {
                    None => {
                        return Err(());
                    },
                    Some(k) => k,
                };
                let v = match self.handle_expr(&**value, None) {
                    Ok(Some(v)) => v,
                    _ => {
                        return Err(());
                    },
                };
                let r = match self.take_reg() {
                    None => {
                        return Err(());
                    },
                    Some(r) => r,
                };
                let mut l = "mov ".to_owned();
                l.append(r.as_str());
                l.append(", [rbp - ");
                push_int(&mut l, soff);
                l.append("]\n");
                self.emit(l.as_str());
                let mut l2 = String::new();
                if kind == 0 {
                    l2.append("mov dword [");
                } else if kind == 1 {
                    l2.append("mov byte [");
                } else {
                    l2.append("mov qword [");
                }
                l2.append(r.as_str());
                l2.append(" + ");
                push_decimal(&mut l2, foff);
                l2.append("], ");
                if kind == 0 {
                    l2.append(reg32(v.as_str()));
                } else if kind == 1 {
                    l2.append(reg8(v.as_str()));
                } else {
                    l2.append(v.as_str());
                }
                l2.append("\n");
                proof {
                    let ft = decl_field_type(old(self).model().structs[st@].1, field@)->0;
                    let line = match ft {
                        TypeV::Int => "mov dword ["@ + r@ + " + "@ + decimal(foff as nat) + "], "@ + x86_reg32_of(v@) + "\n"@,
                        TypeV::Bool | TypeV::Char => "mov byte ["@ + r@ + " + "@ + decimal(foff as nat) + "], "@ + x86_reg8_of(v@) + "\n"@,
                        _ => "mov qword ["@ + r@ + " + "@ + decimal(foff as nat) + "], "@ + v@ + "\n"@,
                    };
                    assert(l2@ =~= line);
                }
                self.emit(l2.as_str());
                self.give_reg(v);
                self.give_reg(r);
                Ok(None)
            },
            _ => Err(()),
        }
    }

    /// An element of a local array.
    fn index_exec(&mut self, expr: &Expr) -> (r: Result<Option<String>, ()>)
        requires
            expr is ArrayAccess,
        ensures
            gen_result(r, final(self).model()) == gen_index(old(self).model(), expr@),
        decreases expr, 1nat,
    {
        proof {
            reveal(expr_view);
        }
        match expr {
            Expr::ArrayAccess { array, index } => match &**array {
                Expr::Variable(n, ty) => {
                    proof {
                        assert((**array)@ == ExprV::Variable(n@, ty@));
                    }
                    let base = match self.local_info(n) {
                        None => {
                            return Err(());
                        },
                        Some((o, _, _)) => o,
                    };
                    let dst = match self.take_reg() {
                        None => {
                            return Err(());
                        },
                        Some(d) => d,
                    };
                    match &**index {
                        Expr::IntLiteral(k) => {
                            proof {
                                assert((**index)@ == ExprV::IntLiteral(*k));
                            }
                            let k8: i64 = (*k as i64) * 8;
                            if k8 < -2147483648i64 || k8 > 2147483647i64 {
                                return Err(());
                            }
                            let off64: i64 = (base as i64) - k8;
                            if off64 < -2147483648i64 || off64 > 2147483647i64 {
                                return Err(());
                            }
                            let off = off64 as i32;
                            let mut l = "mov ".to_owned();
                            l.append(dst.as_str());
                            l.append(", qword [rbp - ");
                            push_int(&mut l, off);
                            l.append("]\n");
                            self.emit(l.as_str());
                            Ok(Some(dst))
                        },
                        other => {
                            proof {
                                assert(!((**index)@ is IntLiteral));
                            }
                            match self.handle_expr(other, None) {
                                Ok(Some(idx)) => {
                                    let mut l = "mov ".to_owned();
                                    l.append(dst.as_str());
                                    l.append(", qword [rbp + ");
                                    l.append(idx.as_str());
                                    l.append("*8 - ");
                                    push_int(&mut l, base);
                                    l.append("]\n");
                                    self.emit(l.as_str());
                                    self.give_reg(idx);
                                    Ok(Some(dst))
                                },
                                _ => Err(()),
                            }
                        },
                    }
                },
                other => {
                    proof {
                        assert(!((**array)@ is Variable));
                    }
                    Err(())
                },
            },
            _ => Err(()),
        }
    }

    /// The values of named initializers, in order.
    fn params_exec(&mut self, ps: &Vec<(String, Expr)>) -> (r: Result<Vec<String>, ()>)
        ensures
            match r {
                Ok(v) => gen_params(old(self).model(), crate::ast::named_exprs_view(ps@), Seq::empty())
                    == Some((final(self).model(), v@.map_values(|s: String| s@))),
                Err(_) => gen_params(old(self).model(), crate::ast::named_exprs_view(ps@), Seq::empty()) is None,
            },
        decreases ps, 0nat,
    {
        let ghost pv = crate::ast::named_exprs_view(ps@);
        let ghost whole = gen_params(self.model(), pv, Seq::empty());
        let mut vals: Vec<String> = Vec::new();
        proof {
            crate::ast::lemma_named_exprs_view(ps@);
            assert(pv.skip(0) =~= pv);
            assert(vals@.map_values(|s: String| s@) =~= Seq::<Seq<char>>::empty());
        }
        let mut i: usize = 0;
        while i < ps.len()
            invariant
                i <= ps@.len(),
                pv == crate::ast::named_exprs_view(ps@),
                pv.len() == ps@.len(),
                forall|j: int| 0 <= j < ps@.len() ==> #[trigger] pv[j] == (ps@[j].0@, ps@[j].1@),
                whole == gen_params(old(self).model(), pv, Seq::empty()),
                whole == gen_params(self.model(), pv.skip(i as int), vals@.map_values(|s: String| s@)),
                vals@.len() == i,
            decreases ps@.len() - i,
        {
            proof {
                assert(pv.skip(i as int)[0] == pv[i as int]);
                assert(pv.skip(i as int).skip(1) =~= pv.skip(i + 1));
                assert(decreases_to!(ps => ps@[i as int].1));
            }
            let ghost vv = vals@.map_values(|s: String| s@);
            match self.handle_expr(&ps[i].1, None) {
                Ok(Some(r)) => {
                    vals.push(r);
                    proof {
                        assert(vals@.map_values(|s: String| s@) =~= vv.push(vals@[i as int]@));
                    }
                },
                _ => {
                    return Err(());
                },
            }
            i = i + 1;
        }
        proof {
            assert(pv.skip(i as int) =~= Seq::<(Seq<char>, ExprV)>::empty());
        }
        Ok(vals)
    }

    /// The names of the fields of the laid-out struct `name`.
    fn layout_names(&self, name: &String) -> (r: Option<Vec<String>>)
        ensures
            r is Some <==> self.model().structs.contains_key(name@),
            r matches Some(v) ==> v@.map_values(|s: String| s@) == self.model().structs[name@].0.map_values(|p: (Seq<char>, usize)| p.0),
    {
        match self.structes.get(name.as_str()) {
            None => None,
            Some(info) => {
                let ghost lv = layout_view(info.0.fields@);
                proof {
                    assert(self.model().structs[name@].0 == lv);
                }
                let mut out: Vec<String> = Vec::new();
                let mut i: usize = 0;
                while i < info.0.fields.len()
                    invariant
                        i <= info.0.fields@.len(),
                        lv == layout_view(info.0.fields@),
                        out@.len() == i,
                        forall|j: int| 0 <= j < i ==> #[trigger] out@[j]@ == lv[j].0,
                    decreases info.0.fields@.len() - i,
                {
                    out.push(info.0.fields[i].name.clone());
                    i = i + 1;
                }
                proof {
                    assert(out@.map_values(|s: String| s@) =~= lv.map_values(|p: (Seq<char>, usize)| p.0));
                }
                Some(out)
            },
        }
    }

    /// A call of the constructor on a struct literal's initializers.
    pub(crate) fn struct_ctor_exec(&mut self, expr: &Expr) -> (r: Result<(), ()>)
        requires
            expr is StructInit,
        ensures
            match r {
                Ok(_) => struct_ctor(old(self).model(), expr@) == Some(final(self).model()),
                Err(_) => struct_ctor(old(self).model(), expr@) is None,
            },
        decreases expr, 0nat,
    {
        proof {
            reveal(expr_view);
        }
        match expr {
            Expr::StructInit { name, params } => {
                proof {
                    crate::ast::lemma_struct_init_view(*name, *params);
                    crate::ast::lemma_named_exprs_view(params@);
                }
                let ghost m0 = self.model();
                let names = match self.layout_names(name) {
                    None => {
                        return Err(());
                    },
                    Some(n) => n,
                };
                let ghost lay = m0.structs[name@].0;
                let vals = match self.params_exec(params) {
                    Err(_) => {
                        return Err(());
                    },
                    Ok(v) => v,
                };
                let ghost pnames = crate::ast::named_exprs_view(params@).map_values(|p: (Seq<char>, ExprV)| p.0);
                let ghost vv = vals@.map_values(|s: String| s@);
                proof {
                    lemma_gen_params_len(m0, crate::ast::named_exprs_view(params@), Seq::empty());
                }
                let mut slots: Vec<String> = Vec::new();
                let mut j: usize = 0;
                while j < names.len()
                    invariant
                        j <= names@.len(),
                        slots@.len() == j,
                        forall|k: int| 0 <= k < j ==> #[trigger] slots@[k]@ == Seq::<char>::empty(),
                    decreases names@.len() - j,
                {
                    slots.push(String::new());
                    j = j + 1;
                }
                proof {
                    assert(names@.map_values(|s: String| s@).len() == lay.len());
                    assert(slots@.map_values(|s: String| s@) =~= Seq::new(lay.len(), |i: int| Seq::<char>::empty()));
                    lemma_last_position_names(lay, Seq::empty());
                }
                let ghost whole = place_args(
                    Seq::new(lay.len(), |i: int| Seq::<char>::empty()),
                    lay,
                    pnames,
                    vv,
                    0,
                );
                proof {
                    assert(struct_ctor(old(self).model(), expr@) == (match whole {
                        None => None,
                        Some(sl) => struct_ctor_rest(self.model(), name@, sl),
                    }));
                }
                let mut i: usize = 0;
                while i < params.len()
                    invariant
                        struct_ctor(old(self).model(), expr@) == (match whole {
                            None => None,
                            Some(sl) => struct_ctor_rest(self.model(), name@, sl),
                        }),
                        i <= params@.len(),
                        vals@.len() == params@.len(),
                        pnames.len() == params@.len(),
                        forall|k: int| 0 <= k < params@.len() ==> #[trigger] pnames[k] == params@[k].0@,
                        vv == vals@.map_values(|s: String| s@),
                        names@.map_values(|s: String| s@) == lay.map_values(|p: (Seq<char>, usize)| p.0),
                        slots@.len() == lay.len(),
                        whole == place_args(slots@.map_values(|s: String| s@), lay, pnames, vv, i as nat),
                    decreases params@.len() - i,
                {
                    proof {
                        lemma_last_position_names(lay, pnames[i as int]);
                    }
                    let pos = match last_position_exec(&names, &params[i].0) {
                        None => {
                            return Err(());
                        },
                        Some(p) => p,
                    };
                    let ghost before = slots@.map_values(|s: String| s@);
                    slots.set(pos, vals[i].clone());
                    proof {
                        assert(slots@.map_values(|s: String| s@) =~= before.update(pos as int, vv[i as int]));
                    }
                    i = i + 1;
                }
                let args = nonempty_exec(&slots);
                if args.len() > 5 {
                    return Err(());
                }
                self.move_args_exec(&args);
                self.give_all_exec(args);
                let ctor = cat(name.as_str(), ".new");
                self.call_aligned(ctor.as_str());
                Ok(())
            },
            _ => Err(()),
        }
    }

    /// A struct literal.
    fn struct_init_exec(&mut self, expr: &Expr) -> (r: Result<Option<String>, ()>)
        requires
            expr is StructInit,
        ensures
            gen_result(r, final(self).model()) == gen_struct_init(old(self).model(), expr@),
        decreases expr, 1nat,
    {
        match self.struct_ctor_exec(expr) {
            Err(_) => Err(()),
            Ok(_) => {
                let r = match self.take_reg() {
                    None => {
                        return Err(());
                    },
                    Some(r) => r,
                };
                let l = cat(cat("mov ", r.as_str()).as_str(), ", rax\n");
                self.emit(l.as_str());
                Ok(Some(r))
            },
        }
    }

    /// Writes a string literal's characters into the block the allocator returned.
    pub(crate) fn string_bytes_exec(&mut self, st: &String) -> (r: Result<(), ()>)
        ensures
            match r {
                Ok(_) => string_bytes(old(self).model(), st@, 0) == Some(final(self).model()),
                Err(_) => string_bytes(old(self).model(), st@, 0) is None,
            },
    {
        let cs = crate::lexer::str_chars(st.as_str());
        let ghost whole = string_bytes(self.model(), st@, 0);
        let mut i: usize = 0;
        while i < cs.len()
            invariant
                i <= cs@.len(),
                cs@ == st@,
                whole == string_bytes(old(self).model(), st@, 0),
                whole == string_bytes(self.model(), st@, i as nat),
            decreases cs@.len() - i,
        {
            let r = match self.take_reg() {
                None => {
                    return Err(());
                },
                Some(r) => r,
            };
            let mut l = "mov ".to_owned();
            l.append(reg8(r.as_str()));
            l.append(", '");
            string_push(&mut l, cs[i]);
            l.append("'\n");
            self.emit(l.as_str());
            let mut l2 = "mov byte [rax + ".to_owned();
            push_decimal(&mut l2, i);
            l2.append("], ");
            l2.append(reg8(r.as_str()));
            l2.append("\n");
            self.emit(l2.as_str());
            self.give_reg(r);
            i = i + 1;
        }
        Ok(())
    }

    /// An assignment to a local.
    fn assign_exec(&mut self, expr: &Expr) -> (r: Result<Option<String>, ()>)
        requires
            expr is Assign,
        ensures
            gen_result(r, final(self).model()) == gen_assign(old(self).model(), expr@),
        decreases expr, 1nat,
    {
        proof {
            reveal(expr_view);
        }
        match expr {
            Expr::Assign { name, value } => {
                let offset = match self.local_info(name) {
                    None => {
                        return Err(());
                    },
                    Some((o, _, _)) => o,
                };
                match &**value {
                    Expr::Variable(x, xt) => {
                        proof {
                            assert((**value)@ == ExprV::Variable(x@, xt@));
                        }
                        let xo = match self.local_info(x) {
                            None => {
                                return Err(());
                            },
                            Some((o, _, _)) => o,
                        };
                        let mut l = "mov qword [rbp - ".to_owned();
                        push_int(&mut l, offset);
                        l.append("], [rbp - ");
                        push_int(&mut l, xo);
                        l.append("]");
                        self.emit(l.as_str());
                        Ok(None)
                    },
                    Expr::IntLiteral(n) => {
                        proof {
                            assert((**value)@ == ExprV::IntLiteral(*n));
                        }
                        let mut l = "mov dword [rbp - ".to_owned();
                        push_int(&mut l, offset);
                        l.append("], ");
                        push_int(&mut l, *n);
                        l.append("\n");
                        self.emit(l.as_str());
                        Ok(None)
                    },
                    Expr::BoolLiteral(b) => {
                        proof {
                            assert((**value)@ == ExprV::BoolLiteral(*b));
                        }
                        let mut l = "mov byte [rbp - ".to_owned();
                        push_int(&mut l, offset);
                        l.append("], ");
                        l.append(if *b { "1" } else { "0" });
                        l.append("\n");
                        self.emit(l.as_str());
                        Ok(None)
                    },
                    Expr::CharLiteral(c) => {
                        proof {
                            assert((**value)@ == ExprV::CharLiteral(*c));
                        }
                        let mut l = "mov byte [rbp - ".to_owned();
                        push_int(&mut l, offset);
                        l.append("], ");
                        string_push(&mut l, *c);
                        l.append("\n");
                        self.emit(l.as_str());
                        Ok(None)
                    },
                    Expr::StringLiteral(st) => {
                        proof {
                            assert((**value)@ == ExprV::StringLiteral(st@));
                        }
                        let len = byte_len(st);
                        let mut l = "mov rdi, ".to_owned();
                        push_decimal(&mut l, len);
                        l.append("\ncall malloc\n");
                        self.emit(l.as_str());
                        match self.string_bytes_exec(st) {
                            Err(_) => {
                                return Err(());
                            },
                            Ok(_) => {},
                        }
                        let mut l2 = "mov rdi, ".to_owned();
                        push_decimal(&mut l2, len);
                        l2.append("\nmov rsi, rax\n");
                        self.emit(l2.as_str());
                        self.emit("call string.new\n");
                        let mut l3 = "mov qword [rbp - ".to_owned();
                        push_int(&mut l3, offset);
                        l3.append("], rax\n");
                        self.emit(l3.as_str());
                        Ok(None)
                    },
                    Expr::InstanceVar(sn, fname) => {
                        proof {
                            assert((**value)@ == ExprV::InstanceVar(sn@, fname@));
                        }
                        let poff = match self.local_info(sn) {
                            None => {
                                return Err(());
                            },
                            Some((o, _, _)) => o,
                        };
                        let pr = match self.take_reg() {
                            None => {
                                return Err(());
                            },
                            Some(r) => r,
                        };
                        let mut l = "mov ".to_owned();
                        l.append(pr.as_str());
                        l.append(", qword [rbp - ");
                        push_int(&mut l, poff);
                        l.append("]\n");
                        self.emit(l.as_str());
                        let st = match self.local_info(sn) {
                            Some((_, _, Some(st))) => st,
                            _ => {
                                return Err(());
                            },
                        };
                        let foff = match self.field_offset_of(&st, fname) {
                            None => {
                                return Err(());
                            },
                            Some(o) => o,
                        };
                        let v = match self.handle_expr(&**value, None) {
                            Ok(Some(v)) => v,
                            _ => {
                                return Err(());
                            },
                        };
                        let t = value.get_type();
                        let kind: u8 = match &t {
                            Type::Int => 0,
                            Type::Char | Type::Bool => 1,
                            _ => 2,
                        };
                        let mut l2 = String::new();
                        if kind == 0 {
                            l2.append("mov dword [");
                        } else if kind == 1 {
                            l2.append("mov byte [");
                        } else {
                            l2.append("mov qword [");
                        }
                        l2.append(pr.as_str());
                        l2.append(" + ");
                        push_decimal(&mut l2, foff);
                        l2.append("], ");
                        if kind == 0 {
                            l2.append(reg32(v.as_str()));
                        } else if kind == 1 {
                            l2.append(reg8(v.as_str()));
                        } else {
                            l2.append(v.as_str());
                        }
                        l2.append("\n");
                        proof {
                            let line = match spec_get_type_of((**value)@) {
                                TypeV::Int => "mov dword ["@ + pr@ + " + "@ + decimal(foff as nat) + "], "@ + x86_reg32_of(v@) + "\n"@,
                                TypeV::Char | TypeV::Bool => "mov byte ["@ + pr@ + " + "@ + decimal(foff as nat) + "], "@ + x86_reg8_of(v@) + "\n"@,
                                _ => "mov qword ["@ + pr@ + " + "@ + decimal(foff as nat) + "], "@ + v@ + "\n"@,
                            };
                            assert(l2@ =~= line);
                        }
                        self.emit(l2.as_str());
                        self.give_reg(pr);
                        self.give_reg(v);
                        Ok(None)
                    },
                    other => {
                        proof {
                            assert(!((**value)@ is Variable) && !((**value)@ is IntLiteral) && !((**value)@ is BoolLiteral)
                                && !((**value)@ is CharLiteral) && !((**value)@ is StringLiteral) && !((**value)@ is InstanceVar));
                        }
                        match self.handle_expr(other, None) {
                            Err(_) => Err(()),
                            Ok(None) => Ok(None),
                            Ok(Some(v)) => {
                                let mut l = "mov qword [rbp - ".to_owned();
                                push_int(&mut l, offset);
                                l.append("], ");
                                l.append(v.as_str());
                                l.append("\n");
                                self.emit(l.as_str());
                                self.give_reg(v);
                                Ok(None)
                            },
                        }
                    },
                }
            },
            _ => Err(()),
        }
    }

    /// `&x`.
    fn address_exec(&mut self, expr: &Expr) -> (r: Result<Option<String>, ()>)
        requires
            expr matches Expr::Unary { op: UnaryOp::AddressOf, .. },
        ensures
            gen_result(r, final(self).model()) == gen_address(old(self).model(), expr@),
        decreases expr, 1nat,
    {
        proof {
            reveal(expr_view);
        }
        match expr {
            Expr::Unary { op: UnaryOp::AddressOf, expr: x, .. } => match &**x {
                Expr::Unary { op: UnaryOp::Dereference, expr: inner, result_type } => {
                    proof {
                        assert((**x)@ == ExprV::Unary { op: UnaryOp::Dereference, expr: Box::new((**inner)@), result_type: result_type@ });
                        assert(decreases_to!(*expr => **inner));
                    }
                    self.handle_expr(&**inner, None)
                },
                Expr::Variable(v, vt) => {
                    proof {
                        assert((**x)@ == ExprV::Variable(v@, vt@));
                    }
                    let off = match self.local_info(v) {
                        None => {
                            return Err(());
                        },
                        Some((o, _, _)) => o,
                    };
                    let r = match self.take_reg() {
                        None => {
                            return Err(());
                        },
                        Some(r) => r,
                    };
                    let mut l = "lea ".to_owned();
                    l.append(r.as_str());
                    l.append(", [rbp - ");
                    push_int(&mut l, off);
                    l.append("]\n");
                    self.emit(l.as_str());
                    Ok(Some(r))
                },
                Expr::ArrayAccess { array, index } => {
                    proof {
                        assert((**x)@ == ExprV::ArrayAccess { array: Box::new((**array)@), index: Box::new((**index)@) });
                    }
                    match &**array {
                        Expr::Variable(n, nt) => {
                            proof {
                                assert((**array)@ == ExprV::Variable(n@, nt@));
                            }
                            let base = match self.local_info(n) {
                                None => {
                                    return Err(());
                                },
                                Some((o, _, _)) => o,
                            };
                            let ir = match &**index {
                                Expr::IntLiteral(k) => {
                                    proof {
                                        assert((**index)@ == ExprV::IntLiteral(*k));
                                    }
                                    let r = match self.take_reg() {
                                        None => {
                                            return Err(());
                                        },
                                        Some(r) => r,
                                    };
                                    let mut l = "mov ".to_owned();
                                    l.append(r.as_str());
                                    l.append(", ");
                                    push_int(&mut l, *k);
                                    l.append("\n");
                                    self.emit(l.as_str());
                                    r
                                },
                                other => {
                                    proof {
                                        assert(!((**index)@ is IntLiteral));
                                        assert(decreases_to!(*expr => **index));
                                    }
                                    match self.handle_expr(other, None) {
                                        Ok(Some(r)) => r,
                                        _ => {
                                            return Err(());
                                        },
                                    }
                                },
                            };
                            let a = match self.take_reg() {
                                None => {
                                    return Err(());
                                },
                                Some(a) => a,
                            };
                            let mut l = "lea ".to_owned();
                            l.append(a.as_str());
                            l.append(", [rbp + ");
                            l.append(ir.as_str());
                            l.append("*8 - ");
                            push_int(&mut l, base);
                            l.append("]\n");
                            self.emit(l.as_str());
                            self.give_reg(ir);
                            Ok(Some(a))
                        },
                        _ => {
                            proof {
                                assert(!((**array)@ is Variable));
                            }
                            Err(())
                        },
                    }
                },
                Expr::StructInit { .. } => {
                    proof {
                        assert(decreases_to!(*expr => **x));
                    }
                    self.struct_init_exec(&**x)
                },
                Expr::InstanceVar(sn, fname) => {
                    proof {
                        assert((**x)@ == ExprV::InstanceVar(sn@, fname@));
                    }
                    let obj = match self.variable_load(sn) {
                        Ok(Some(o)) => o,
                        _ => {
                            return Err(());
                        },
                    };
                    let st = match self.local_info(sn) {
                        Some((_, _, Some(st))) => st,
                        _ => {
                            return Err(());
                        },
                    };
                    let foff = match self.field_offset_of(&st, fname) {
                        None => {
                            return Err(());
                        },
                        Some(o) => o,
                    };
                    let a = match self.take_reg() {
                        None => {
                            return Err(());
                        },
                        Some(a) => a,
                    };
                    let mut l = "lea ".to_owned();
                    l.append(a.as_str());
                    l.append(", [");
                    l.append(obj.as_str());
                    l.append(" + ");
                    push_decimal(&mut l, foff);
                    l.append("]\n");
                    self.emit(l.as_str());
                    self.give_reg(obj);
                    Ok(Some(a))
                },
                _ => {
                    proof {
                        assert(!((**x)@ is Variable) && !((**x)@ is ArrayAccess) && !((**x)@ is StructInit)
                            && !((**x)@ is InstanceVar) && !((**x)@ matches ExprV::Unary { op: UnaryOp::Dereference, .. }));
                    }
                    Err(())
                },
            },
            _ => Err(()),
        }
    }

    /// `*x`.
    fn deref_exec(&mut self, expr: &Expr) -> (r: Result<Option<String>, ()>)
        requires
            expr matches Expr::Unary { op: UnaryOp::Dereference, .. },
        ensures
            gen_result(r, final(self).model()) == gen_deref(old(self).model(), expr@),
        decreases expr, 1nat,
    {
        proof {
            reveal(expr_view);
        }
        match expr {
            Expr::Unary { op: UnaryOp::Dereference, expr: x, .. } => match &**x {
                Expr::Unary { op: UnaryOp::AddressOf, expr: inner, result_type } => {
                    proof {
                        assert((**x)@ == ExprV::Unary { op: UnaryOp::AddressOf, expr: Box::new((**inner)@), result_type: result_type@ });
                        assert(decreases_to!(*expr => **inner));
                    }
                    self.handle_expr(&**inner, None)
                },
                Expr::Unary { op: UnaryOp::Dereference, expr: inner, result_type } => {
                    proof {
                        assert((**x)@ == ExprV::Unary { op: UnaryOp::Dereference, expr: Box::new((**inner)@), result_type: result_type@ });
                        assert(decreases_to!(*expr => **inner));
                    }
                    self.handle_expr(&**inner, None)
                },
                Expr::Variable(vn, vt) => {
                    proof {
                        assert((**x)@ == ExprV::Variable(vn@, vt@));
                    }
                    match self.handle_expr(&**x, None) {
                        Ok(Some(p)) => {
                            let mut l = "mov ".to_owned();
                            l.append(p.as_str());
                            l.append(", qword [");
                            l.append(p.as_str());
                            l.append("]\n");
                            self.emit(l.as_str());
                            Ok(Some(p))
                        },
                        _ => Err(()),
                    }
                },
                Expr::InstanceVar(sn, iname) => {
                    proof {
                        assert((**x)@ == ExprV::InstanceVar(sn@, iname@));
                    }
                    match self.field_read_exec(sn, iname, false) {
                        Err(_) => Err(()),
                        Ok((val, ptr)) => {
                            let mut l = "mov ".to_owned();
                            l.append(ptr.as_str());
                            l.append(", qword [");
                            l.append(val.as_str());
                            l.append("]\n");
                            self.emit(l.as_str());
                            self.give_reg(val);
                            Ok(Some(ptr))
                        },
                    }
                },
                other => {
                    proof {
                        assert(!((**x)@ is Variable) && !((**x)@ is InstanceVar)
                            && !((**x)@ matches ExprV::Unary { op: UnaryOp::Dereference, .. })
                            && !((**x)@ matches ExprV::Unary { op: UnaryOp::AddressOf, .. }));
                    }
                    self.handle_expr(other, None)
                },
            },
            _ => Err(()),
        }
    }

    /// `*target = value`.
    fn deref_assign_exec(&mut self, expr: &Expr) -> (r: Result<Option<String>, ()>)
        requires
            expr is DerefAssign,
        ensures
            gen_result(r, final(self).model()) == gen_deref_assign(old(self).model(), expr@),
        decreases expr, 1nat,
    {
        proof {
            reveal(expr_view);
        }
        match expr {
            Expr::DerefAssign { target, value } => {
                let p = match self.handle_expr(&**target, None) {
                    Ok(Some(p)) => p,
                    _ => {
                        return Err(());
                    },
                };
                let t = value.get_type();
                let kind: u8 = match &t {
                    Type::Int | Type::Float => 0,
                    Type::Bool | Type::Char => 1,
                    _ => 2,
                };
                match self.handle_expr(&**value, None) {
                    Err(_) => Err(()),
                    Ok(None) => {
                        self.give_reg(p);
                        Ok(None)
                    },
                    Ok(Some(v)) => {
                        let mut l = String::new();
                        if kind == 0 {
                            l.append("mov dword [");
                        } else if kind == 1 {
                            l.append("mov byte [");
                        } else {
                            l.append("mov qword [");
                        }
                        l.append(p.as_str());
                        l.append("], ");
                        if kind == 0 {
                            l.append(reg32(v.as_str()));
                        } else if kind == 1 {
                            l.append(reg8(v.as_str()));
                        } else {
                            l.append(v.as_str());
                        }
                        l.append("\n");
                        proof {
                            let line = match spec_get_type_of((**value)@) {
                                TypeV::Int | TypeV::Float => "mov dword ["@ + p@ + "], "@ + x86_reg32_of(v@) + "\n"@,
                                TypeV::Bool | TypeV::Char => "mov byte ["@ + p@ + "], "@ + x86_reg8_of(v@) + "\n"@,
                                _ => "mov qword ["@ + p@ + "], "@ + v@ + "\n"@,
                            };
                            assert(l@ =~= line);
                        }
                        self.emit(l.as_str());
                        self.give_reg(p);
                        self.give_reg(v);
                        Ok(None)
                    },
                }
            },
            _ => Err(()),
        }
    }

    /// A binary operation on two registers.
    fn binary_on_exec(&mut self, op: BinaryOp, lhs: String, rhs: String) -> (r: Result<Option<String>, ()>)
        ensures
            gen_result(r, final(self).model()) == binary_on(old(self).model(), op, lhs@, rhs@),
    {
        match op {
            BinaryOp::Add | BinaryOp::Sub | BinaryOp::Mul => {
                let mn = match op {
                    BinaryOp::Add => "add ",
                    BinaryOp::Sub => "sub ",
                    _ => "imul ",
                };
                let mut l = mn.to_owned();
                l.append(lhs.as_str());
                l.append(", ");
                l.append(rhs.as_str());
                l.append("\n");
                self.emit(l.as_str());
                self.give_reg(rhs);
                Ok(Some(lhs))
            },
            BinaryOp::Div | BinaryOp::Mod => {
                let l = cat(cat("mov rax, ", lhs.as_str()).as_str(), "\n");
                self.emit(l.as_str());
                self.emit("xor rdx, rdx\n");
                let l2 = cat(cat("div ", rhs.as_str()).as_str(), "\n");
                self.emit(l2.as_str());
                if op == BinaryOp::Mod {
                    self.emit("mov rax, rdx\n");
                }
                self.give_reg(lhs);
                self.give_reg(rhs);
                Ok(Some("rax".to_owned()))
            },
            BinaryOp::And | BinaryOp::Or => {
                if self.jmp_count == u32::MAX {
                    return Err(());
                }
                let and = op == BinaryOp::And;
                let (kind, jcc, first, second) = logic_parts(and);
                let mut end_label = ".".to_owned();
                end_label.append(kind);
                end_label.append("_end_");
                push_decimal(&mut end_label, self.jmp_count as usize);
                self.jmp_count = self.jmp_count + 1;
                let jmp = self.jmp_count;
                self.emit(cat(cat("cmp ", lhs.as_str()).as_str(), ", 1\n").as_str());
                self.emit(cat(cat(jcc, end_label.as_str()).as_str(), "\n").as_str());
                self.emit(cat(cat("cmp ", rhs.as_str()).as_str(), ", 1\n").as_str());
                self.emit(cat(cat(jcc, end_label.as_str()).as_str(), "\n").as_str());
                self.emit(first);
                let mut l = "jmp .".to_owned();
                l.append(kind);
                l.append("_done_");
                push_decimal(&mut l, jmp as usize);
                l.append("\n");
                self.emit(l.as_str());
                self.emit(cat(end_label.as_str(), ":\n").as_str());
                self.emit(second);
                let mut l2 = ".".to_owned();
                l2.append(kind);
                l2.append("_done_");
                push_decimal(&mut l2, jmp as usize);
                l2.append(":\n");
                self.emit(l2.as_str());
                self.give_reg(lhs);
                self.give_reg(rhs);
                Ok(Some("rax".to_owned()))
            },
            _ => {
                let l = cat(cat(cat(cat("cmp ", lhs.as_str()).as_str(), ", ").as_str(), rhs.as_str()).as_str(), "\n");
                self.emit(l.as_str());
                self.emit(cat(set_cc_exec(op), " al\n").as_str());
                self.emit("movzx rax, al\n");
                self.give_reg(lhs);
                self.give_reg(rhs);
                Ok(Some("rax".to_owned()))
            },
        }
    }

    /// `p + n` or `p - n` with `p` a pointer and `n` an `int` literal; `Ok(None)` means
    /// going on to the general case.
    fn pointer_left_exec(&mut self, expr: &Expr) -> (r: Result<Option<Option<String>>, ()>)
        requires
            expr is Binary,
        ensures
            match r {
                Err(_) => pointer_left(old(self).model(), expr@) is Halt,
                Ok(None) => pointer_left(old(self).model(), expr@) == Stage::Go(final(self).model()),
                Ok(Some(o)) => pointer_left(old(self).model(), expr@) == Stage::Ret(final(self).model(), opt_name_view(o)),
            },
        decreases expr, 0nat,
    {
        proof {
            reveal(expr_view);
        }
        match expr {
            Expr::Binary { left, op, right, .. } => {
                let lt = left.get_type();
                let rt = right.get_type();
                let inside = match lt {
                    Type::Pointer(inside) => inside,
                    _ => {
                        return Ok(None);
                    },
                };
                match rt {
                    Type::Int => {},
                    _ => {
                        return Ok(None);
                    },
                }
                let size = match checked_type_size(&*inside) {
                    None => {
                        return Err(());
                    },
                    Some(k) => k,
                };
                let lhs = match self.handle_expr(&**left, None) {
                    Ok(Some(l)) => l,
                    _ => {
                        return Err(());
                    },
                };
                match &**right {
                    Expr::IntLiteral(n) => {
                        proof {
                            assert((**right)@ == ExprV::IntLiteral(*n));
                        }
                        let r = match self.take_reg() {
                            None => {
                                return Err(());
                            },
                            Some(r) => r,
                        };
                        let mut l = "mov ".to_owned();
                        l.append(reg32(r.as_str()));
                        l.append(", ");
                        push_int(&mut l, *n);
                        l.append("\n");
                        self.emit(l.as_str());
                        if size > 1 {
                            let mut l2 = "imul ".to_owned();
                            l2.append(r.as_str());
                            l2.append(", ");
                            push_decimal(&mut l2, size);
                            l2.append("\n");
                            self.emit(l2.as_str());
                        }
                        match op {
                            BinaryOp::Add | BinaryOp::Sub => {
                                let mn = if *op == BinaryOp::Add { "add " } else { "sub " };
                                let mut l3 = mn.to_owned();
                                l3.append(lhs.as_str());
                                l3.append(", ");
                                l3.append(r.as_str());
                                l3.append("\n");
                                self.emit(l3.as_str());
                                self.give_reg(r);
                                Ok(Some(Some(lhs)))
                            },
                            _ => Ok(Some(None)),
                        }
                    },
                    _ => {
                        proof {
                            assert(!((**right)@ is IntLiteral));
                        }
                        Ok(None)
                    },
                }
            },
            _ => Err(()),
        }
    }

    /// `n + p` or `n - p` with `p` a pointer and `n` an `int` literal.
    fn pointer_right_exec(&mut self, expr: &Expr) -> (r: Result<Option<Option<String>>, ()>)
        requires
            expr is Binary,
        ensures
            match r {
                Err(_) => pointer_right(old(self).model(), expr@) is Halt,
                Ok(None) => pointer_right(old(self).model(), expr@) == Stage::Go(final(self).model()),
                Ok(Some(o)) => pointer_right(old(self).model(), expr@) == Stage::Ret(final(self).model(), opt_name_view(o)),
            },
        decreases expr, 0nat,
    {
        proof {
            reveal(expr_view);
        }
        match expr {
            Expr::Binary { left, op, right, .. } => {
                let lt = left.get_type();
                let rt = right.get_type();
                let inside = match rt {
                    Type::Pointer(inside) => inside,
                    _ => {
                        return Ok(None);
                    },
                };
                match lt {
                    Type::Int => {},
                    _ => {
                        return Ok(None);
                    },
                }
                let size = match checked_type_size(&*inside) {
                    None => {
                        return Err(());
                    },
                    Some(k) => k,
                };
                let rhs = match self.handle_expr(&**right, None) {
                    Ok(Some(l)) => l,
                    _ => {
                        return Err(());
                    },
                };
                match &**left {
                    Expr::IntLiteral(n) => {
                        proof {
                            assert((**left)@ == ExprV::IntLiteral(*n));
                        }
                        let r = match self.take_reg() {
                            None => {
                                return Err(());
                            },
                            Some(r) => r,
                        };
                        let mut l = "mov ".to_owned();
                        l.append(r.as_str());
                        l.append(", ");
                        push_int(&mut l, *n);
                        l.append("\n");
                        self.emit(l.as_str());
                        if size > 1 {
                            let mut l2 = "imul ".to_owned();
                            l2.append(r.as_str());
                            l2.append(", ");
                            push_decimal(&mut l2, size);
                            l2.append("\n");
                            self.emit(l2.as_str());
                        }
                        match op {
                            BinaryOp::Add | BinaryOp::Sub => {
                                let mn = if *op == BinaryOp::Add { "add " } else { "sub " };
                                let mut l3 = mn.to_owned();
                                l3.append(rhs.as_str());
                                l3.append(", ");
                                l3.append(r.as_str());
                                l3.append("\n");
                                self.emit(l3.as_str());
                                self.give_reg(r);
                                Ok(Some(Some(rhs)))
                            },
                            _ => Ok(Some(None)),
                        }
                    },
                    _ => {
                        proof {
                            assert(!((**left)@ is IntLiteral));
                        }
                        Ok(None)
                    },
                }
            },
            _ => Err(()),
        }
    }

    /// A binary operation with both operands in registers.
    fn binary_general_exec(&mut self, expr: &Expr) -> (r: Result<Option<String>, ()>)
        requires
            expr is Binary,
        ensures
            gen_result(r, final(self).model()) == binary_general(old(self).model(), expr@),
        decreases expr, 0nat,
    {
        proof {
            reveal(expr_view);
        }
        match expr {
            Expr::Binary { left, op, right, .. } => {
                let lhs = match self.handle_expr(&**left, None) {
                    Ok(Some(l)) => l,
                    _ => {
                        return Err(());
                    },
                };
                let rhs = match self.handle_expr(&**right, None) {
                    Ok(Some(r)) => r,
                    _ => {
                        return Err(());
                    },
                };
                self.binary_on_exec(*op, lhs, rhs)
            },
            _ => Err(()),
        }
    }

    /// A binary operation.
    fn binary_exec(&mut self, expr: &Expr) -> (r: Result<Option<String>, ()>)
        requires
            expr is Binary,
        ensures
            gen_result(r, final(self).model()) == gen_binary(old(self).model(), expr@),
        decreases expr, 1nat,
    {
        match self.pointer_left_exec(expr) {
            Err(_) => {
                return Err(());
            },
            Ok(Some(o)) => {
                return Ok(o);
            },
            Ok(None) => {},
        }
        match self.pointer_right_exec(expr) {
            Err(_) => {
                return Err(());
            },
            Ok(Some(o)) => {
                return Ok(o);
            },
            Ok(None) => {},
        }
        self.binary_general_exec(expr)
    }

    /// A call: `sizeof` gives the size of its argument's type in `rax`; any other call
    /// moves its arguments into the argument registers and calls the function.
    fn gen_call_exec(&mut self, expr: &Expr) -> (r: Result<Option<String>, ()>)
        requires
            expr is Call,
        ensures
            gen_result(r, final(self).model()) == spec_gen_expr(old(self).model(), expr@),
        decreases expr, 1nat,
    {
        proof {
            reveal(expr_view);
        }
        match expr {
            Expr::Call { name, args, return_type } => {
                proof {
                    crate::ast::lemma_call_view(*name, *args, *return_type);
                    crate::ast::lemma_exprs_view(args@);
                }
                let sizeof = "sizeof".to_owned();
                if *name == sizeof {
                    if args.len() != 1 {
                        return Err(());
                    }
                    let t = args[0].get_type();
                    let size = match checked_type_size(&t) {
                        None => {
                            return Err(());
                        },
                        Some(k) => k,
                    };
                    self.drop_rax_regs();
                    let mut l = "mov rax, ".to_owned();
                    push_decimal(&mut l, size);
                    l.append("\n");
                    self.emit(l.as_str());
                    return Ok(Some("rax".to_owned()));
                }
                let ghost m0 = self.model();
                let vals = match self.args_exec(args) {
                    Err(_) => {
                        return Err(());
                    },
                    Ok(v) => v,
                };
                proof {
                    lemma_gen_args_len(m0, crate::ast::exprs_view(args@), 0, Seq::empty());
                }
                self.move_args_exec(&vals);
                self.give_all_exec(vals);
                self.call_aligned(name.as_str());
                self.drop_rax_regs();
                Ok(Some("rax".to_owned()))
            },
            _ => Err(()),
        }
    }
}

impl CodeGen {
    /// Writes `s`.
    pub(crate) fn emit(&mut self, s: &str)
        ensures
            final(self).model() == emit_m(old(self).model(), s@),
    {
        self.output.append(s);
    }

    /// Takes the first free register.
    pub(crate) fn take_reg(&mut self) -> (r: Option<String>)
        ensures
            match r {
                Some(x) => pop_reg(old(self).model()) == Some((final(self).model(), x@)),
                None => pop_reg(old(self).model()) is None && final(self).model() == old(self).model(),
            },
    {
        let r = self.regs.pop_front();
        proof {
            if r is Some {
                assert(self.model().regs =~= old(self).model().regs.drop_first());
            } else {
                assert(self.model().regs =~= old(self).model().regs);
            }
        }
        r
    }

    /// Gives the register `r` back.
    pub(crate) fn give_reg(&mut self, r: String)
        ensures
            final(self).model() == push_reg(old(self).model(), r@),
    {
        let ghost v = r@;
        self.regs.push_back(r);
        proof {
            assert(self.model().regs =~= old(self).model().regs.push(v));
        }
    }

    /// Calls `target` with the stack kept 16-byte aligned.
    pub(crate) fn call_aligned(&mut self, target: &str)
        ensures
            final(self).model() == emit_m(old(self).model(), aligned_call_text(old(self).model().stack, target@)),
    {
        self.call_with_alignment(target);
        proof {
            assert(self.model().out =~= old(self).model().out + aligned_call_text(old(self).model().stack, target@));
        }
    }

    /// Takes every free register named `rax` out of the free ones.
    fn drop_rax_regs(&mut self)
        ensures
            final(self).model() == drop_rax(old(self).model()),
    {
        let ghost snapv = self.model().regs;
        let mut snap: Vec<String> = Vec::new();
        let mut j: usize = 0;
        while j < self.regs.len()
            invariant
                j <= self.regs@.len(),
                snapv == self.model().regs,
                snap@.len() == j,
                forall|k: int| 0 <= k < j ==> #[trigger] snap@[k]@ == snapv[k],
            decreases self.regs@.len() - j,
        {
            snap.push(self.regs[j].clone());
            j = j + 1;
        }
        let ghost start = self.model();
        let rax = "rax".to_owned();
        let mut i: usize = 0;
        while i < snap.len()
            invariant
                i <= snap@.len(),
                snap@.len() == snapv.len(),
                forall|k: int| 0 <= k < snap@.len() ==> #[trigger] snap@[k]@ == snapv[k],
                drop_rax(start) == with_regs(self.model(), drop_rax_from(self.model().regs, snapv, i as nat)),
                self.model() == with_regs(start, self.model().regs),
                rax@ == "rax"@,
            decreases snap@.len() - i,
        {
            let is_rax = snap[i] == rax;
            let ghost before = self.model().regs;
            if is_rax {
                let _ = self.regs.remove(i);
            }
            proof {
                if is_rax && i < before.len() {
                    assert(self.model().regs =~= before.remove(i as int));
                } else {
                    assert(self.model().regs =~= before);
                }
            }
            i = i + 1;
        }
    }
}

} // verus!
