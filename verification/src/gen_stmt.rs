use vstd::prelude::*;

use crate::alias::{decimal, push_decimal};
use crate::ast::{Expr, ExprV, Stmt, StmtV, Type, TypeV, UnaryOp, expr_view, exprs_view, type_view, spec_base_type, spec_get_type, stmt_view};
use crate::lexer::string_push;
use crate::codegen::{CodeGen, local_struct};
use crate::gen_expr::{
    CgModel, bool_text, byte_len, cat, char_text, emit_m, first_offset, gen_result, int_text, pop_reg, push_int,
    push_reg, spec_gen_expr, string_bytes, struct_ctor, utf8_len,
};

verus! {

/// An 8-byte stack slot reserved for the local `name` of type `t`, and its offset; `None`
/// where the stack size would overflow.
pub open spec fn alloc_m(m: CgModel, name: Seq<char>, t: TypeV) -> Option<(CgModel, i32)> {
    if m.stack + 8 > i32::MAX {
        None
    } else {
        let off = (m.stack + 8) as i32;
        Some(
            (
                CgModel {
                    out: m.out + "sub rsp, 8\n"@,
                    regs: m.regs,
                    jmp: m.jmp,
                    locals: m.locals.insert(name, (local_struct(t), off, t)),
                    stack: off,
                    structs: m.structs,
                    aarch64: m.aarch64,
                },
                off,
            ),
        )
    }
}

/// The slot of the local `name`: the one it has, or a fresh one.
pub open spec fn slot_of(m: CgModel, name: Seq<char>, t: TypeV) -> Option<(CgModel, i32)> {
    if m.locals.contains_key(name) {
        Some((m, m.locals[name].1))
    } else {
        alloc_m(m, name, t)
    }
}

/// `mov qword [rbp - off], src`.
pub open spec fn store_line(off: i32, src: Seq<char>) -> Seq<char> {
    "mov qword [rbp - "@ + int_text(off as int) + "], "@ + src + "\n"@
}

/// The value an expression left in a register stored at `off`, and the register given
/// back; an expression without a value stores nothing.
pub open spec fn store_value(off: i32, res: Option<(CgModel, Option<Seq<char>>)>) -> Option<CgModel> {
    match res {
        None => None,
        Some((m1, Some(r))) => Some(push_reg(emit_m(m1, store_line(off, r)), r)),
        Some((m1, None)) => Some(m1),
    }
}

/// A string object built on the heap from a literal: a block for its bytes, the bytes
/// written, and `string.new` called on the length and the block, which leaves the
/// object in `rax`.
pub open spec fn string_object(m: CgModel, s: Seq<char>) -> Option<CgModel> {
    let n = decimal(utf8_len(s));
    match string_bytes(emit_m(m, "mov rdi, "@ + n + "\ncall malloc\n"@), s, 0) {
        None => None,
        Some(m1) => Some(emit_m(m1, "mov rdi, "@ + n + "\nmov rsi, rax\ncall string.new\n"@)),
    }
}

/// The type of the local a string literal initialises: a pointer to the `string` struct.
pub open spec fn string_ptr_type() -> TypeV {
    TypeV::Pointer(
        Box::new(
            TypeV::Struct {
                name: "string"@,
                instances: seq![("size"@, TypeV::Int), ("data"@, TypeV::Pointer(Box::new(TypeV::Char)))],
            },
        ),
    )
}

/// One element of an array literal stored in its slot at `off`.
pub open spec fn array_elem(m: CgModel, off: i32, e: ExprV) -> Option<CgModel> {
    match e {
        ExprV::IntLiteral(n) => Some(emit_m(m, store_line(off, int_text(n as int)))),
        ExprV::BoolLiteral(b) => Some(emit_m(m, store_line(off, bool_text(b)))),
        ExprV::CharLiteral(c) => Some(emit_m(m, store_line(off, char_text(c)))),
        ExprV::StringLiteral(s) => match string_object(m, s) {
            None => None,
            Some(m1) => Some(emit_m(m1, store_line(off, "rax"@))),
        },
        _ => store_value(off, spec_gen_expr(m, e)),
    }
}

/// The slot of element `i` of an array whose first element sits at `base`: 8 bytes
/// further up per element, `None` where that overflows an `i32`.
pub open spec fn elem_offset(base: i32, i: nat) -> Option<i32> {
    let k = (i as i32) as int * 8;
    if k > i32::MAX || k < i32::MIN || base - k < i32::MIN || base - k > i32::MAX {
        None
    } else {
        Some((base - k) as i32)
    }
}

/// The elements of an array literal from position `i` on, each stored in its slot.
pub open spec fn array_elems(m: CgModel, base: i32, es: Seq<ExprV>, i: nat) -> Option<CgModel>
    decreases es.len() - i,
{
    if i >= es.len() {
        Some(m)
    } else {
        match elem_offset(base, i) {
            None => None,
            Some(off) => match array_elem(m, off, es[i as int]) {
                None => None,
                Some(m1) => array_elems(m1, base, es, i + 1),
            },
        }
    }
}

/// An array literal bound to `name`: 8 bytes of stack per element, the local recorded
/// with the array type, and the elements stored from the base slot upwards.
pub open spec fn gen_array_decl(m: CgModel, name: Seq<char>, es: Seq<ExprV>, ety: TypeV) -> Option<CgModel> {
    let total = (es.len() as i32) as int * 8;
    if total > i32::MAX || total < i32::MIN || m.stack + total > i32::MAX || m.stack + total < i32::MIN {
        None
    } else {
        let base = (m.stack + total) as i32;
        let m1 = CgModel {
            out: m.out + "sub rsp, "@ + int_text(total) + "\n"@,
            regs: m.regs,
            jmp: m.jmp,
            locals: m.locals.insert(name, (None, base, TypeV::Array(Box::new(ety), Some(es.len() as usize)))),
            stack: base,
            structs: m.structs,
            aarch64: m.aarch64,
        };
        array_elems(m1, base, es, 0)
    }
}

/// `name = sn.f` as a declaration: the field read through the struct pointer held in
/// the local `sn`, 32 bits for an `int`, 8 for a `char` or `bool`, 64 otherwise, and
/// copied through `eax`, `al` or `rax` to the slot of `name`.
pub open spec fn gen_field_decl(m: CgModel, name: Seq<char>, t: TypeV, sn: Seq<char>, f: Seq<char>) -> Option<CgModel> {
    if !m.locals.contains_key(sn) {
        None
    } else {
        match m.locals[sn].0 {
            None => None,
            Some(st) => {
                let soff = m.locals[sn].1;
                if !m.structs.contains_key(st) {
                    None
                } else {
                    match first_offset(m.structs[st].0, f) {
                        None => None,
                        Some(fo) => match slot_of(m, name, t) {
                            None => None,
                            Some((m1, o)) => match pop_reg(m1) {
                                None => None,
                                Some((m2, p)) => {
                                    let load = "mov "@ + p + ", qword [rbp - "@ + int_text(soff as int) + "]\n"@;
                                    let src = "["@ + p + " + "@ + decimal(fo as nat) + "]\n"@;
                                    let dst = "[rbp - "@ + int_text(o as int) + "], "@;
                                    let copy = match t {
                                        TypeV::Int => "mov eax, dword "@ + src + "mov dword "@ + dst + "eax\n"@,
                                        TypeV::Char | TypeV::Bool => "mov al, byte "@ + src + "mov byte "@ + dst + "al\n"@,
                                        _ => "mov rax, qword "@ + src + "mov qword "@ + dst + "rax\n"@,
                                    };
                                    Some(push_reg(emit_m(m2, load + copy), p))
                                },
                            },
                        },
                    }
                }
            },
        }
    }
}

/// `mov qword [rbp - o], [rbp - o + 8]`, what a declaration from an address writes.
pub open spec fn address_line(o: i32) -> Seq<char> {
    "mov qword [rbp - "@ + int_text(o as int) + "], [rbp - "@ + int_text(o as int) + " + 8]\n"@
}

/// A variable declaration `name: t = value`.
pub open spec fn gen_var_decl(m: CgModel, name: Seq<char>, t: TypeV, value: ExprV) -> Option<CgModel> {
    match value {
        ExprV::Array(es, ety) => gen_array_decl(m, name, es, ety),
        ExprV::StringLiteral(s) => match alloc_m(m, name, string_ptr_type()) {
            None => None,
            Some((m1, off)) => match string_object(m1, s) {
                None => None,
                Some(m2) => Some(emit_m(m2, store_line(off, "rax"@))),
            },
        },
        ExprV::StructInit { .. } => match struct_ctor(m, value) {
            None => None,
            Some(m1) => match alloc_m(m1, name, TypeV::Pointer(Box::new(spec_get_type(value)))) {
                None => None,
                Some((m2, off)) => Some(emit_m(m2, store_line(off, "rax"@))),
            },
        },
        ExprV::AddressOf(inner) => {
            let first = if spec_base_type(t) is Struct {
                match spec_gen_expr(m, *inner) {
                    None => None,
                    Some((m1, _)) => Some(m1),
                }
            } else {
                Some(m)
            };
            match first {
                None => None,
                Some(m1) => match slot_of(m1, name, t) {
                    None => None,
                    Some((m2, o)) => Some(emit_m(m2, address_line(o))),
                },
            }
        },
        ExprV::Unary { op: UnaryOp::Dereference, expr: inner, .. } => match spec_gen_expr(m, *inner) {
            Some((m1, Some(p))) => match alloc_m(m1, name, t) {
                None => None,
                Some((m2, off)) => Some(push_reg(emit_m(m2, store_line(off, p)), p)),
            },
            _ => None,
        },
        ExprV::InstanceVar(sn, f) => gen_field_decl(m, name, t, sn, f),
        _ => match slot_of(m, name, t) {
            None => None,
            Some((m1, o)) => store_value(o, spec_gen_expr(m1, value)),
        },
    }
}

/// The next jump label number taken; `None` where the counter would overflow.
pub open spec fn next_label(m: CgModel) -> Option<(CgModel, Seq<char>)> {
    if m.jmp == u32::MAX {
        None
    } else {
        Some((
            CgModel {
                out: m.out,
                regs: m.regs,
                jmp: (m.jmp + 1) as u32,
                locals: m.locals,
                stack: m.stack,
                structs: m.structs,
                aarch64: m.aarch64,
            },
            decimal(m.jmp as nat),
        ))
    }
}

/// The test at the top of a loop on the condition's register `r`: compare with 1 and
/// leave to the end label `.while_end_d` unless equal.
pub open spec fn loop_exit_test(r: Seq<char>, d: Seq<char>) -> Seq<char> {
    "cmp "@ + r + ", 1\njne .while_end_"@ + d + "\n"@
}

/// The test of an `if` on the condition's register `r`: compare with 0 and go to the
/// `else` label `.else d` when equal.
pub open spec fn branch_test(r: Seq<char>, d: Seq<char>) -> Seq<char> {
    "cmp "@ + r + ", 0\nje .else"@ + d + "\n"@
}

/// What emitting the statement `s` writes; `None` where the generator panics.
pub open spec fn spec_gen_stmt(m: CgModel, s: StmtV) -> Option<CgModel>
    decreases s,
{
    match s {
        StmtV::While { condition, body } => match next_label(m) {
            None => None,
            Some((m1, d)) => match spec_gen_expr(emit_m(m1, ".while_start_"@ + d + ":\n"@), condition) {
                Some((m2, Some(r))) => match spec_gen_stmt(
                    push_reg(emit_m(m2, loop_exit_test(r, d)), r),
                    *body,
                ) {
                    None => None,
                    Some(m3) => Some(emit_m(m3, "jmp .while_start_"@ + d + "\n.while_end_"@ + d + ":\n"@)),
                },
                _ => None,
            },
        },
        StmtV::VarDecl { name, var_type, value } => gen_var_decl(m, name, var_type, value),
        StmtV::Expression(e) => match spec_gen_expr(m, e) {
            None => None,
            Some((m1, Some(r))) => Some(push_reg(m1, r)),
            Some((m1, None)) => Some(m1),
        },
        StmtV::Return(Some(e)) => match spec_gen_expr(m, e) {
            None => None,
            Some((m1, _)) => Some(m1),
        },
        StmtV::If { condition, then_stmt, else_stmt } => match spec_gen_expr(m, condition) {
            Some((m1, Some(r))) => match next_label(m1) {
                None => None,
                Some((m2, d)) => match spec_gen_stmt(
                    push_reg(emit_m(m2, branch_test(r, d)), r),
                    *then_stmt,
                ) {
                    None => None,
                    Some(m3) => match else_stmt {
                        None => Some(emit_m(m3, ".else"@ + d + ":\n"@)),
                        Some(es) => match spec_gen_stmt(emit_m(m3, "jmp .endif"@ + d + "\n.else"@ + d + ":\n"@), *es) {
                            None => None,
                            Some(m4) => Some(emit_m(m4, ".endif"@ + d + ":\n"@)),
                        },
                    },
                },
            },
            _ => None,
        },
        StmtV::Block(ss) => gen_stmts(m, ss),
        _ => Some(m),
    }
}

/// The statements `ss` emitted in order.
pub open spec fn gen_stmts(m: CgModel, ss: Seq<StmtV>) -> Option<CgModel>
    decreases ss,
{
    if ss.len() == 0 {
        Some(m)
    } else {
        match spec_gen_stmt(m, ss[0]) {
            None => None,
            Some(m1) => gen_stmts(m1, ss.skip(1)),
        }
    }
}

} // verus!

verus! {

/// What a statement's emission gives: the generator after it, or `None` for a panic.
pub open spec fn stmt_result(r: Result<(), ()>, m: CgModel) -> Option<CgModel> {
    match r {
        Ok(_) => Some(m),
        Err(_) => None,
    }
}

/// The type of the local a string literal initialises.
fn string_type() -> (t: Type)
    ensures
        t@ == string_ptr_type(),
{
    let mut instances: Vec<(String, Type)> = Vec::new();
    let size_name = "size".to_owned();
    let data_name = "data".to_owned();
    let name = "string".to_owned();
    let data_ty = Type::Pointer(Box::new(Type::Char));
    proof {
        assert(type_view(Type::Char) == TypeV::Char);
        assert(data_ty@ == TypeV::Pointer(Box::new(TypeV::Char)));
        assert(type_view(Type::Int) == TypeV::Int);
    }
    instances.push((size_name, Type::Int));
    instances.push((data_name, data_ty));
    let ghost iv = instances@;
    let t = Type::Struct { name, instances };
    proof {
        crate::ast::lemma_struct_view(t->Struct_name, t->Struct_instances);
        assert(iv.len() == 2);
        assert(crate::ast::fields_view(iv) =~= string_ptr_type()->Pointer_0->Struct_instances);
    }
    Type::Pointer(Box::new(t))
}

/// `mov qword [rbp - off], src`.
fn store_text(off: i32, src: &str) -> (r: String)
    ensures
        r@ == store_line(off, src@),
{
    let mut l = "mov qword [rbp - ".to_owned();
    push_int(&mut l, off);
    l.append("], ");
    l.append(src);
    l.append("\n");
    l
}

impl CodeGen {
    /// Reserves a stack slot for the local `name` of type `ty`.
    fn alloc_exec(&mut self, name: &String, ty: &Type) -> (r: Result<i32, ()>)
        ensures
            match r {
                Ok(off) => alloc_m(old(self).model(), name@, ty@) == Some((final(self).model(), off)),
                Err(_) => alloc_m(old(self).model(), name@, ty@) is None,
            },
    {
        if self.stack_size > i32::MAX - 8 {
            return Err(());
        }
        let off = self.alloc_local(name.as_str(), ty);
        proof {
            let m0 = old(self).model();
            let want = m0.locals.insert(name@, (local_struct(ty@), off, ty@));
            assert(self.model().locals =~= want) by {
                assert forall|k: Seq<char>| #[trigger] want.contains_key(k) implies self.model().locals.contains_key(k)
                    && self.model().locals[k] == want[k] by {
                    if k != name@ {
                        assert(old(self).locals@.contains_key(k));
                    }
                }
            }
        }
        Ok(off)
    }

    /// The slot of the local `name`: the one it has, or a fresh one.
    fn slot_exec(&mut self, name: &String, ty: &Type) -> (r: Result<i32, ()>)
        ensures
            match r {
                Ok(off) => slot_of(old(self).model(), name@, ty@) == Some((final(self).model(), off)),
                Err(_) => slot_of(old(self).model(), name@, ty@) is None,
            },
    {
        match self.local_offset(name.as_str()) {
            Some(o) => Ok(o),
            None => self.alloc_exec(name, ty),
        }
    }

    /// Takes the next jump label number.
    fn label_exec(&mut self) -> (r: Result<String, ()>)
        ensures
            match r {
                Ok(d) => next_label(old(self).model()) == Some((final(self).model(), d@)),
                Err(_) => next_label(old(self).model()) is None,
            },
    {
        if self.jmp_count == u32::MAX {
            return Err(());
        }
        let id = self.jmp_count;
        self.jmp_count = self.jmp_count + 1;
        let mut d = String::new();
        push_decimal(&mut d, id as usize);
        proof {
            assert(d@ =~= decimal(id as nat));
        }
        Ok(d)
    }

    /// Builds a string object from the literal `s`; it is left in `rax`.
    fn string_object_exec(&mut self, s: &String) -> (r: Result<(), ()>)
        ensures
            stmt_result(r, final(self).model()) == string_object(old(self).model(), s@),
    {
        let n = byte_len(s);
        let mut d = String::new();
        push_decimal(&mut d, n);
        let mut l = "mov rdi, ".to_owned();
        l.append(d.as_str());
        l.append("\ncall malloc\n");
        proof {
            assert(l@ =~= "mov rdi, "@ + decimal(utf8_len(s@)) + "\ncall malloc\n"@);
        }
        self.emit(l.as_str());
        match self.string_bytes_exec(s) {
            Err(_) => Err(()),
            Ok(_) => {
                let mut l2 = "mov rdi, ".to_owned();
                l2.append(d.as_str());
                l2.append("\nmov rsi, rax\ncall string.new\n");
                proof {
                    assert(l2@ =~= "mov rdi, "@ + decimal(utf8_len(s@)) + "\nmov rsi, rax\ncall string.new\n"@);
                }
                self.emit(l2.as_str());
                Ok(())
            },
        }
    }

    /// Stores the value an expression left in a register at `off`.
    fn store_result(&mut self, off: i32, res: Result<Option<String>, ()>) -> (r: Result<(), ()>)
        ensures
            stmt_result(r, final(self).model()) == store_value(off, gen_result(res, old(self).model())),
    {
        match res {
            Err(_) => Err(()),
            Ok(None) => Ok(()),
            Ok(Some(reg)) => {
                let l = store_text(off, reg.as_str());
                self.emit(l.as_str());
                self.give_reg(reg);
                Ok(())
            },
        }
    }
}

impl CodeGen {
    /// One element of an array literal stored at `off`.
    fn array_elem_exec(&mut self, off: i32, e: &Expr) -> (r: Result<(), ()>)
        ensures
            stmt_result(r, final(self).model()) == array_elem(old(self).model(), off, e@),
    {
        proof {
            reveal(expr_view);
        }
        match e {
            Expr::IntLiteral(n) => {
                let mut t = String::new();
                push_int(&mut t, *n);
                let l = store_text(off, t.as_str());
                self.emit(l.as_str());
                Ok(())
            },
            Expr::BoolLiteral(b) => {
                let l = store_text(off, if *b { "1" } else { "0" });
                self.emit(l.as_str());
                Ok(())
            },
            Expr::CharLiteral(c) => {
                let mut t = "'".to_owned();
                string_push(&mut t, *c);
                string_push(&mut t, '\'');
                proof {
                    assert(t@ =~= char_text(*c));
                }
                let l = store_text(off, t.as_str());
                self.emit(l.as_str());
                Ok(())
            },
            Expr::StringLiteral(st) => match self.string_object_exec(st) {
                Err(_) => Err(()),
                Ok(_) => {
                    let l = store_text(off, "rax");
                    self.emit(l.as_str());
                    Ok(())
                },
            },
            _ => {
                let res = self.handle_expr(e, None);
                self.store_result(off, res)
            },
        }
    }

    /// An array literal bound to `name`.
    fn array_decl_exec(&mut self, name: &String, es: &Vec<Expr>, ety: &Type) -> (r: Result<(), ()>)
        ensures
            stmt_result(r, final(self).model()) == gen_array_decl(old(self).model(), name@, exprs_view(es@), ety@),
    {
        proof {
            crate::ast::lemma_exprs_view(es@);
        }
        let ghost ev = exprs_view(es@);
        let c32 = es.len() as i32;
        let total = match c32.checked_mul(8) {
            None => {
                return Err(());
            },
            Some(t) => t,
        };
        let base = match self.stack_size.checked_add(total) {
            None => {
                return Err(());
            },
            Some(b) => b,
        };
        let ghost m0 = self.model();
        self.stack_size = base;
        let mut l = "sub rsp, ".to_owned();
        push_int(&mut l, total);
        l.append("\n");
        self.output.append(l.as_str());
        let t = Type::Array(Box::new(ety.duplicate()), Some(es.len()));
        self.locals.insert(name.clone(), (None, base, t));
        proof {
            assert(self.model().locals =~= m0.locals.insert(
                name@,
                (None, base, TypeV::Array(Box::new(ety@), Some(es@.len() as usize))),
            ));
            assert(self.model().out =~= m0.out + "sub rsp, "@ + int_text(total as int) + "\n"@);
        }
        let mut i: usize = 0;
        while i < es.len()
            invariant
                i <= es@.len(),
                ev == exprs_view(es@),
                ev.len() == es@.len(),
                forall|j: int| 0 <= j < es@.len() ==> #[trigger] ev[j] == es@[j]@,
                gen_array_decl(old(self).model(), name@, ev, ety@) == array_elems(self.model(), base, ev, i as nat),
            decreases es@.len() - i,
        {
            let ii = i as i32;
            let k = match ii.checked_mul(8) {
                None => {
                    return Err(());
                },
                Some(k) => k,
            };
            let off = match base.checked_sub(k) {
                None => {
                    return Err(());
                },
                Some(o) => o,
            };
            match self.array_elem_exec(off, &es[i]) {
                Err(_) => {
                    return Err(());
                },
                Ok(_) => {},
            }
            i = i + 1;
        }
        Ok(())
    }

    /// `name = sn.f` as a declaration.
    fn field_decl_exec(&mut self, name: &String, ty: &Type, sn: &String, f: &String) -> (r: Result<(), ()>)
        ensures
            stmt_result(r, final(self).model()) == gen_field_decl(old(self).model(), name@, ty@, sn@, f@),
    {
        let (soff, _kind, st) = match self.local_info(sn) {
            None => {
                return Err(());
            },
            Some(x) => x,
        };
        let st = match st {
            None => {
                return Err(());
            },
            Some(s) => s,
        };
        let fo = match self.field_offset_of(&st, f) {
            None => {
                return Err(());
            },
            Some(o) => o,
        };
        let o = match self.slot_exec(name, ty) {
            Err(_) => {
                return Err(());
            },
            Ok(o) => o,
        };
        let p = match self.take_reg() {
            None => {
                return Err(());
            },
            Some(p) => p,
        };
        let mut l = "mov ".to_owned();
        l.append(p.as_str());
        l.append(", qword [rbp - ");
        push_int(&mut l, soff);
        l.append("]\n");
        let mut src = "[".to_owned();
        src.append(p.as_str());
        src.append(" + ");
        push_decimal(&mut src, fo);
        src.append("]\n");
        let mut dst = "[rbp - ".to_owned();
        push_int(&mut dst, o);
        dst.append("], ");
        let ghost load = l@;
        match ty {
            Type::Int => {
                l.append("mov eax, dword ");
                l.append(src.as_str());
                l.append("mov dword ");
                l.append(dst.as_str());
                l.append("eax\n");
            },
            Type::Char | Type::Bool => {
                l.append("mov al, byte ");
                l.append(src.as_str());
                l.append("mov byte ");
                l.append(dst.as_str());
                l.append("al\n");
            },
            _ => {
                l.append("mov rax, qword ");
                l.append(src.as_str());
                l.append("mov qword ");
                l.append(dst.as_str());
                l.append("rax\n");
            },
        }
        proof {
            let copy = match ty@ {
                TypeV::Int => "mov eax, dword "@ + src@ + "mov dword "@ + dst@ + "eax\n"@,
                TypeV::Char | TypeV::Bool => "mov al, byte "@ + src@ + "mov byte "@ + dst@ + "al\n"@,
                _ => "mov rax, qword "@ + src@ + "mov qword "@ + dst@ + "rax\n"@,
            };
            assert(l@ =~= load + copy);
        }
        self.emit(l.as_str());
        self.give_reg(p);
        Ok(())
    }
}

impl CodeGen {
    /// A string literal bound to `name`.
    #[verifier::rlimit(40)]
    fn string_decl_exec(&mut self, name: &String, ty: &Type, value: &Expr) -> (r: Result<(), ()>)
        requires
            value is StringLiteral,
        ensures
            stmt_result(r, final(self).model()) == gen_var_decl(old(self).model(), name@, ty@, value@),
    {
        proof {
            reveal(expr_view);
        }
        match value {
            Expr::StringLiteral(st) => {
                let string_ty = string_type();
                let off = match self.alloc_exec(name, &string_ty) {
                    Err(_) => {
                        return Err(());
                    },
                    Ok(o) => o,
                };
                match self.string_object_exec(st) {
                    Err(_) => Err(()),
                    Ok(_) => {
                        let l = store_text(off, "rax");
                        self.emit(l.as_str());
                        Ok(())
                    },
                }
            },
            _ => Err(()),
        }
    }

    /// A struct literal bound to `name`.
    fn struct_decl_exec(&mut self, name: &String, ty: &Type, value: &Expr) -> (r: Result<(), ()>)
        requires
            value is StructInit,
        ensures
            stmt_result(r, final(self).model()) == gen_var_decl(old(self).model(), name@, ty@, value@),
    {
        proof {
            reveal(expr_view);
        }
        match value {
            Expr::StructInit { .. } => match self.struct_ctor_exec(value) {
                Err(_) => Err(()),
                Ok(_) => {
                    let t = Type::Pointer(Box::new(value.get_type()));
                    let off = match self.alloc_exec(name, &t) {
                        Err(_) => {
                            return Err(());
                        },
                        Ok(o) => o,
                    };
                    let l = store_text(off, "rax");
                    self.emit(l.as_str());
                    Ok(())
                },
            },
            _ => Err(()),
        }
    }

    /// A declaration from an address.
    fn address_decl_exec(&mut self, name: &String, ty: &Type, value: &Expr) -> (r: Result<(), ()>)
        requires
            value is AddressOf,
        ensures
            stmt_result(r, final(self).model()) == gen_var_decl(old(self).model(), name@, ty@, value@),
    {
        proof {
            reveal(expr_view);
        }
        match value {
            Expr::AddressOf(inner) => {
                let bt = crate::ast::base_type(ty);
                let is_struct = match bt {
                    Type::Struct { .. } => true,
                    _ => false,
                };
                if is_struct {
                    match self.handle_expr(&**inner, None) {
                        Err(_) => {
                            return Err(());
                        },
                        Ok(_) => {},
                    }
                }
                let o = match self.slot_exec(name, ty) {
                    Err(_) => {
                        return Err(());
                    },
                    Ok(o) => o,
                };
                let mut l = "mov qword [rbp - ".to_owned();
                push_int(&mut l, o);
                l.append("], [rbp - ");
                push_int(&mut l, o);
                l.append(" + 8]\n");
                proof {
                    assert(l@ =~= address_line(o));
                }
                self.emit(l.as_str());
                Ok(())
            },
            _ => Err(()),
        }
    }

    /// A declaration from a dereference.
    fn deref_decl_exec(&mut self, name: &String, ty: &Type, value: &Expr) -> (r: Result<(), ()>)
        requires
            value is Unary,
            value->Unary_op == UnaryOp::Dereference,
        ensures
            stmt_result(r, final(self).model()) == gen_var_decl(old(self).model(), name@, ty@, value@),
    {
        proof {
            reveal(expr_view);
        }
        match value {
            Expr::Unary { op: UnaryOp::Dereference, expr: inner, .. } => match self.handle_expr(&**inner, None) {
                Ok(Some(p)) => {
                    let off = match self.alloc_exec(name, ty) {
                        Err(_) => {
                            return Err(());
                        },
                        Ok(o) => o,
                    };
                    let l = store_text(off, p.as_str());
                    self.emit(l.as_str());
                    self.give_reg(p);
                    Ok(())
                },
                _ => Err(()),
            },
            _ => Err(()),
        }
    }

    /// A declaration from any other expression: its value stored in the slot of `name`.
    fn plain_decl_exec(&mut self, name: &String, ty: &Type, value: &Expr) -> (r: Result<(), ()>)
        requires
            !(value is Array || value is StringLiteral || value is StructInit || value is AddressOf
                || value is InstanceVar || (value is Unary && value->Unary_op == UnaryOp::Dereference)),
        ensures
            stmt_result(r, final(self).model()) == gen_var_decl(old(self).model(), name@, ty@, value@),
    {
        proof {
            reveal(expr_view);
        }
        let o = match self.slot_exec(name, ty) {
            Err(_) => {
                return Err(());
            },
            Ok(o) => o,
        };
        let res = self.handle_expr(value, None);
        self.store_result(o, res)
    }

    /// A variable declaration `name: ty = value`.
    fn var_decl_exec(&mut self, name: &String, ty: &Type, value: &Expr) -> (r: Result<(), ()>)
        ensures
            stmt_result(r, final(self).model()) == gen_var_decl(old(self).model(), name@, ty@, value@),
    {
        proof {
            reveal(expr_view);
        }
        match value {
            Expr::Array(es, ety) => {
                proof {
                    crate::ast::lemma_array_view(*es, *ety);
                }
                self.array_decl_exec(name, es, ety)
            },
            Expr::StringLiteral(_) => self.string_decl_exec(name, ty, value),
            Expr::StructInit { .. } => self.struct_decl_exec(name, ty, value),
            Expr::AddressOf(_) => self.address_decl_exec(name, ty, value),
            Expr::Unary { op: UnaryOp::Dereference, .. } => self.deref_decl_exec(name, ty, value),
            Expr::InstanceVar(sn, f) => self.field_decl_exec(name, ty, sn, f),
            _ => self.plain_decl_exec(name, ty, value),
        }
    }

    /// Emits the statements `stmts` in order.
    fn block_exec(&mut self, stmts: &Vec<Stmt>) -> (r: Result<(), ()>)
        ensures
            stmt_result(r, final(self).model()) == gen_stmts(old(self).model(), crate::ast::stmts_view(stmts@)),
        decreases stmts,
    {
        let ghost sv = crate::ast::stmts_view(stmts@);
        proof {
            crate::ast::lemma_stmts_view_len(stmts@);
            assert(sv.skip(0) =~= sv);
        }
        let mut i: usize = 0;
        while i < stmts.len()
            invariant
                i <= stmts@.len(),
                sv == crate::ast::stmts_view(stmts@),
                sv.len() == stmts@.len(),
                forall|j: int| 0 <= j < stmts@.len() ==> #[trigger] sv[j] == stmts@[j]@,
                gen_stmts(old(self).model(), sv) == gen_stmts(self.model(), sv.skip(i as int)),
            decreases stmts@.len() - i,
        {
            proof {
                assert(sv.skip(i as int)[0] == sv[i as int]);
                assert(sv.skip(i as int).skip(1) =~= sv.skip(i + 1));
                assert(decreases_to!(stmts => stmts@[i as int]));
            }
            match self.handle_stmt(&stmts[i]) {
                Err(_) => {
                    return Err(());
                },
                Ok(_) => {},
            }
            i = i + 1;
        }
        proof {
            assert(sv.skip(i as int) =~= Seq::<StmtV>::empty());
        }
        Ok(())
    }

    /// Emits the statement `stmt`; `Err` where the generator panics.
    pub fn handle_stmt(&mut self, stmt: &Stmt) -> (r: Result<(), ()>)
        ensures
            stmt_result(r, final(self).model()) == spec_gen_stmt(old(self).model(), stmt@),
        decreases stmt,
    {
        proof {
            reveal(stmt_view);
        }
        match stmt {
            Stmt::While { condition, body } => {
                let d = match self.label_exec() {
                    Err(_) => {
                        return Err(());
                    },
                    Ok(d) => d,
                };
                let l = cat(cat(".while_start_", d.as_str()).as_str(), ":\n");
                self.emit(l.as_str());
                match self.handle_expr(condition, None) {
                    Ok(Some(r)) => {
                        let mut l2 = "cmp ".to_owned();
                        l2.append(r.as_str());
                        l2.append(", 1\njne .while_end_");
                        l2.append(d.as_str());
                        l2.append("\n");
                        self.emit(l2.as_str());
                        self.give_reg(r);
                        match self.handle_stmt(&**body) {
                            Err(_) => {
                                return Err(());
                            },
                            Ok(_) => {},
                        }
                        let mut l3 = "jmp .while_start_".to_owned();
                        l3.append(d.as_str());
                        l3.append("\n.while_end_");
                        l3.append(d.as_str());
                        l3.append(":\n");
                        self.emit(l3.as_str());
                        Ok(())
                    },
                    _ => Err(()),
                }
            },
            Stmt::VarDecl { name, var_type, value } => self.var_decl_exec(name, var_type, value),
            Stmt::Expression(e) => match self.handle_expr(e, None) {
                Err(_) => Err(()),
                Ok(Some(r)) => {
                    self.give_reg(r);
                    Ok(())
                },
                Ok(None) => Ok(()),
            },
            Stmt::Return(Some(e)) => match self.handle_expr(e, None) {
                Err(_) => Err(()),
                Ok(_) => Ok(()),
            },
            Stmt::If { condition, then_stmt, else_stmt } => match self.handle_expr(condition, None) {
                Ok(Some(r)) => {
                    let d = match self.label_exec() {
                        Err(_) => {
                            return Err(());
                        },
                        Ok(d) => d,
                    };
                    let mut l = "cmp ".to_owned();
                    l.append(r.as_str());
                    l.append(", 0\nje .else");
                    l.append(d.as_str());
                    l.append("\n");
                    self.emit(l.as_str());
                    self.give_reg(r);
                    match self.handle_stmt(&**then_stmt) {
                        Err(_) => {
                            return Err(());
                        },
                        Ok(_) => {},
                    }
                    match else_stmt {
                        None => {
                            let l2 = cat(cat(".else", d.as_str()).as_str(), ":\n");
                            self.emit(l2.as_str());
                            Ok(())
                        },
                        Some(es) => {
                            let mut l2 = "jmp .endif".to_owned();
                            l2.append(d.as_str());
                            l2.append("\n.else");
                            l2.append(d.as_str());
                            l2.append(":\n");
                            self.emit(l2.as_str());
                            match self.handle_stmt(&**es) {
                                Err(_) => {
                                    return Err(());
                                },
                                Ok(_) => {},
                            }
                            let l3 = cat(cat(".endif", d.as_str()).as_str(), ":\n");
                            self.emit(l3.as_str());
                            Ok(())
                        },
                    }
                },
                _ => Err(()),
            },
            Stmt::Block(stmts) => {
                proof {
                    crate::ast::lemma_stmts_view_len(stmts@);
                    assert(stmt@->Block_0 =~= crate::ast::stmts_view(stmts@));
                }
                self.block_exec(stmts)
            },
            _ => Ok(()),
        }
    }
}

} // verus!
