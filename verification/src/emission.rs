use vstd::prelude::*;

use crate::ast::{BinaryOp, ExprV, StmtV, TypeV, UnaryOp};
use crate::gen_func::{
    function_frame, gen_body, gen_decls, gen_function, gen_funcs, gen_stmt_epi, gen_struct, gen_tops, initial_model, spec_generate,
    start_text, top_stmt,
};
use crate::gen_stmt::{
    alloc_m, array_elem, branch_test, loop_exit_test, array_elems, elem_offset, gen_stmts, gen_var_decl, next_label, slot_of, spec_gen_stmt, string_object,
    string_ptr_type,
};
use crate::gen_expr::{
    CgModel, Stage, abi_reg, binary_on, set_cc, aligned_call_text, binary_general, drop_rax, emit_m, field_read, gen_address, gen_args, gen_assign,
    gen_binary, gen_deref, gen_deref_assign, gen_field_assign, gen_index, gen_params, gen_struct_init, give_all, int_text,
    move_args, nonempty, place_args, pointer_left, pointer_right, pop_reg, push_reg, spec_gen_expr, string_bytes,
    struct_ctor, utf8_len,
};

verus! {

/// The generator `b` has everything `a` wrote, and possibly more after it, and its jump
/// label counter has not gone back, so no label `a` could still hand out was used twice.
pub open spec fn grows(a: CgModel, b: CgModel) -> bool {
    &&& a.jmp <= b.jmp
    &&& a.out.len() <= b.out.len()
    &&& forall|i: int| 0 <= i < a.out.len() ==> #[trigger] b.out[i] == a.out[i]
}

proof fn lemma_move_args_grows(m: CgModel, vals: Seq<Seq<char>>, i: nat)
    ensures
        grows(m, move_args(m, vals, i)),
    decreases vals.len() - i,
{
    if i < vals.len() {
        let m1 = if vals[i as int] != abi_reg(i as int) {
            emit_m(m, "mov "@ + abi_reg(i as int) + ", "@ + vals[i as int] + "\n"@)
        } else {
            m
        };
        lemma_move_args_grows(m1, vals, i + 1);
    }
}

proof fn lemma_give_all_grows(m: CgModel, vals: Seq<Seq<char>>, i: nat)
    ensures
        grows(m, give_all(m, vals, i)),
        give_all(m, vals, i).out == m.out,
    decreases vals.len() - i,
{
    if i < vals.len() {
        lemma_give_all_grows(push_reg(m, vals[i as int]), vals, i + 1);
    }
}

proof fn lemma_string_bytes_grows(m: CgModel, cs: Seq<char>, i: nat)
    ensures
        string_bytes(m, cs, i) matches Some(m2) ==> grows(m, m2),
    decreases cs.len() - i,
{
    if i < cs.len() {
        if let Some((m1, r)) = pop_reg(m) {
            let m2 = emit_m(m1, ("mov "@ + crate::regs::x86_reg8_of(r) + ", '"@).push(cs[i as int]) + "'\n"@);
            let m3 = emit_m(m2, "mov byte [rax + "@ + crate::alias::decimal(i) + "], "@ + crate::regs::x86_reg8_of(r) + "\n"@);
            lemma_string_bytes_grows(push_reg(m3, r), cs, i + 1);
        }
    }
}

proof fn lemma_args_grows(m: CgModel, args: Seq<ExprV>, idx: nat, vals: Seq<Seq<char>>)
    ensures
        gen_args(m, args, idx, vals) matches Some((m2, _)) ==> grows(m, m2),
    decreases args, 0nat,
{
    if args.len() > 0 {
        lemma_expr_grows(m, args[0]);
        if let Some((m1, Some(r))) = spec_gen_expr(m, args[0]) {
            if idx < 5 {
                lemma_args_grows(m1, args.skip(1), idx + 1, vals.push(r));
            }
        }
    }
}

proof fn lemma_params_grows(m: CgModel, ps: Seq<(Seq<char>, ExprV)>, vals: Seq<Seq<char>>)
    ensures
        gen_params(m, ps, vals) matches Some((m2, _)) ==> grows(m, m2),
    decreases ps, 0nat,
{
    if ps.len() > 0 {
        lemma_expr_grows(m, ps[0].1);
        if let Some((m1, Some(r))) = spec_gen_expr(m, ps[0].1) {
            lemma_params_grows(m1, ps.skip(1), vals.push(r));
        }
    }
}

/// A constructor call only adds to what was written.
pub proof fn lemma_ctor_grows(m: CgModel, e: ExprV)
    ensures
        struct_ctor(m, e) matches Some(m2) ==> grows(m, m2),
    decreases e, 0nat,
{
    if let ExprV::StructInit { name, params } = e {
        if m.structs.contains_key(name) {
            lemma_params_grows(m, params, Seq::empty());
            if let Some((m1, vals)) = gen_params(m, params, Seq::empty()) {
                let lay = m.structs[name].0;
                if let Some(slots) = place_args(
                    Seq::new(lay.len(), |i: int| Seq::<char>::empty()),
                    lay,
                    params.map_values(|p: (Seq<char>, ExprV)| p.0),
                    vals,
                    0,
                ) {
                    let args = nonempty(slots);
                    lemma_move_args_grows(m1, args, 0);
                    lemma_give_all_grows(move_args(m1, args, 0), args, 0);
                }
            }
        }
    }
}

proof fn lemma_field_read_grows(m: CgModel, sn: Seq<char>, iname: Seq<char>, recheck: bool)
    ensures
        field_read(m, sn, iname, recheck) matches Some((m2, _, _)) ==> grows(m, m2),
{
}

proof fn lemma_drop_rax_out(m: CgModel)
    ensures
        drop_rax(m).out == m.out,
{
}

proof fn lemma_pointer_left_grows(m: CgModel, e: ExprV)
    ensures
        pointer_left(m, e) matches Stage::Ret(m2, _) ==> grows(m, m2),
        pointer_left(m, e) matches Stage::Go(m2) ==> grows(m, m2),
    decreases e, 0nat,
{
    if let ExprV::Binary { left, .. } = e {
        lemma_expr_grows(m, *left);
    }
}

proof fn lemma_pointer_right_grows(m: CgModel, e: ExprV)
    ensures
        pointer_right(m, e) matches Stage::Ret(m2, _) ==> grows(m, m2),
        pointer_right(m, e) matches Stage::Go(m2) ==> grows(m, m2),
    decreases e, 0nat,
{
    if let ExprV::Binary { right, .. } = e {
        lemma_expr_grows(m, *right);
    }
}

proof fn lemma_binary_general_grows(m: CgModel, e: ExprV)
    ensures
        binary_general(m, e) matches Some((m2, _)) ==> grows(m, m2),
    decreases e, 0nat,
{
    if let ExprV::Binary { left, op, right, .. } = e {
        lemma_expr_grows(m, *left);
        if let Some((m1, Some(lhs))) = spec_gen_expr(m, *left) {
            lemma_expr_grows(m1, *right);
        }
    }
}

#[verifier::rlimit(80)]
proof fn lemma_sub_grows(m: CgModel, e: ExprV)
    ensures
        gen_field_assign(m, e) matches Some((m2, _)) ==> grows(m, m2),
        gen_index(m, e) matches Some((m2, _)) ==> grows(m, m2),
        gen_assign(m, e) matches Some((m2, _)) ==> grows(m, m2),
        gen_address(m, e) matches Some((m2, _)) ==> grows(m, m2),
        gen_deref(m, e) matches Some((m2, _)) ==> grows(m, m2),
        gen_deref_assign(m, e) matches Some((m2, _)) ==> grows(m, m2),
        gen_struct_init(m, e) matches Some((m2, _)) ==> grows(m, m2),
        gen_binary(m, e) matches Some((m2, _)) ==> grows(m, m2),
    decreases e, 1nat,
{
    lemma_ctor_grows(m, e);
    lemma_pointer_left_grows(m, e);
    if let Stage::Go(m1) = pointer_left(m, e) {
        lemma_pointer_right_grows(m1, e);
        if let Stage::Go(m2) = pointer_right(m1, e) {
            lemma_binary_general_grows(m2, e);
        }
    }
    match e {
        ExprV::FieldAssign { value, .. } => {
            lemma_expr_grows(m, *value);
        },
        ExprV::ArrayAccess { array, index } => {
            if let Some((m1, _)) = pop_reg(m) {
                lemma_expr_grows(m1, *index);
            }
            lemma_expr_grows(m, *index);
        },
        ExprV::Assign { name, value } => {
            lemma_expr_grows(m, *value);
            if let ExprV::StringLiteral(st) = *value {
                let len = utf8_len(st);
                let m1 = emit_m(m, "mov rdi, "@ + crate::alias::decimal(len) + "\ncall malloc\n"@);
                lemma_string_bytes_grows(m1, st, 0);
            }
            if let ExprV::InstanceVar(sn, _) = *value {
                if m.locals.contains_key(sn) {
                    if let Some((m1, pr)) = pop_reg(m) {
                        let m2 = emit_m(m1, "mov "@ + pr + ", qword [rbp - "@ + int_text(m.locals[sn].1 as int) + "]\n"@);
                        lemma_expr_grows(m2, *value);
                    }
                }
            }
        },
        ExprV::Unary { op: UnaryOp::AddressOf, expr, .. } => {
            lemma_expr_grows(m, *expr);
            match *expr {
                ExprV::Unary { op: UnaryOp::Dereference, expr: inner, .. } => {
                    lemma_expr_grows(m, *inner);
                },
                ExprV::ArrayAccess { index, .. } => {
                    lemma_expr_grows(m, *index);
                },
                ExprV::StructInit { .. } => {
                    lemma_ctor_grows(m, *expr);
                },
                _ => {},
            }
        },
        ExprV::Unary { op: UnaryOp::Dereference, expr, .. } => {
            lemma_expr_grows(m, *expr);
            match *expr {
                ExprV::Unary { expr: inner, .. } => {
                    lemma_expr_grows(m, *inner);
                },
                ExprV::InstanceVar(sn, iname) => {
                    lemma_field_read_grows(m, sn, iname, false);
                },
                _ => {},
            }
        },
        ExprV::DerefAssign { target, value } => {
            lemma_expr_grows(m, *target);
            if let Some((m1, Some(p))) = spec_gen_expr(m, *target) {
                lemma_expr_grows(m1, *value);
            }
        },
        _ => {},
    }
}

/// Emitting an expression only adds to what was written.
pub proof fn lemma_expr_grows(m: CgModel, e: ExprV)
    ensures
        spec_gen_expr(m, e) matches Some((m2, _)) ==> grows(m, m2),
    decreases e, 2nat,
{
    lemma_sub_grows(m, e);
    match e {
        ExprV::Call { name, args, .. } => {
            lemma_args_grows(m, args, 0, Seq::empty());
            if let Some((m1, vals)) = gen_args(m, args, 0, Seq::empty()) {
                lemma_move_args_grows(m1, vals, 0);
                lemma_give_all_grows(move_args(m1, vals, 0), vals, 0);
                let m2 = give_all(move_args(m1, vals, 0), vals, 0);
                lemma_drop_rax_out(emit_m(m2, aligned_call_text(m2.stack, name)));
            }
            lemma_drop_rax_out(m);
        },
        ExprV::InstanceVar(sn, iname) => {
            lemma_field_read_grows(m, sn, iname, true);
        },
        _ => {},
    }
}

proof fn lemma_string_object_grows(m: CgModel, st: Seq<char>)
    ensures
        string_object(m, st) matches Some(m2) ==> grows(m, m2),
{
    let n = crate::alias::decimal(utf8_len(st));
    lemma_string_bytes_grows(emit_m(m, "mov rdi, "@ + n + "\ncall malloc\n"@), st, 0);
}

proof fn lemma_array_elems_grows(m: CgModel, base: i32, es: Seq<ExprV>, i: nat)
    ensures
        array_elems(m, base, es, i) matches Some(m2) ==> grows(m, m2),
    decreases es.len() - i,
{
    if i < es.len() {
        if let Some(off) = elem_offset(base, i) {
            lemma_expr_grows(m, es[i as int]);
            if let ExprV::StringLiteral(st) = es[i as int] {
                lemma_string_object_grows(m, st);
            }
            if let Some(m1) = array_elem(m, off, es[i as int]) {
                lemma_array_elems_grows(m1, base, es, i + 1);
            }
        }
    }
}

proof fn lemma_var_decl_grows(m: CgModel, name: Seq<char>, t: TypeV, value: ExprV)
    ensures
        gen_var_decl(m, name, t, value) matches Some(m2) ==> grows(m, m2),
{
    match value {
        ExprV::Array(es, ety) => {
            let total = (es.len() as i32) as int * 8;
            if !(total > i32::MAX || total < i32::MIN || m.stack + total > i32::MAX || m.stack + total < i32::MIN) {
                let base = (m.stack + total) as i32;
                let m1 = CgModel {
                    out: m.out + "sub rsp, "@ + int_text(total) + "\n"@,
                    regs: m.regs,
                    jmp: m.jmp,
                    locals: m.locals.insert(name, (None, base, TypeV::Array(Box::new(ety), Some(es.len() as usize)))),
                    stack: base,
                    structs: m.structs,
                    aarch64: m.aarch64,
                };
                lemma_array_elems_grows(m1, base, es, 0);
            }
        },
        ExprV::StringLiteral(st) => {
            if let Some((m1, _)) = alloc_m(m, name, string_ptr_type()) {
                lemma_string_object_grows(m1, st);
            }
        },
        ExprV::StructInit { .. } => {
            lemma_ctor_grows(m, value);
        },
        ExprV::AddressOf(inner) => {
            lemma_expr_grows(m, *inner);
        },
        ExprV::Unary { expr: inner, .. } => {
            lemma_expr_grows(m, *inner);
            if let Some((m1, _)) = slot_of(m, name, t) {
                lemma_expr_grows(m1, value);
            }
        },
        _ => {
            if let Some((m1, _)) = slot_of(m, name, t) {
                lemma_expr_grows(m1, value);
            }
        },
    }
}

/// Emitting a statement only adds to what was written.
pub proof fn lemma_stmt_grows(m: CgModel, s: StmtV)
    ensures
        spec_gen_stmt(m, s) matches Some(m2) ==> grows(m, m2),
    decreases s,
{
    match s {
        StmtV::While { condition, body } => {
            if let Some((m1, d)) = next_label(m) {
                let m1e = emit_m(m1, ".while_start_"@ + d + ":\n"@);
                lemma_expr_grows(m1e, condition);
                if let Some((m2, Some(r))) = spec_gen_expr(m1e, condition) {
                    lemma_stmt_grows(push_reg(emit_m(m2, loop_exit_test(r, d)), r), *body);
                }
            }
        },
        StmtV::VarDecl { name, var_type, value } => {
            lemma_var_decl_grows(m, name, var_type, value);
        },
        StmtV::Expression(e) => {
            lemma_expr_grows(m, e);
        },
        StmtV::Return(Some(e)) => {
            lemma_expr_grows(m, e);
        },
        StmtV::If { condition, then_stmt, else_stmt } => {
            lemma_expr_grows(m, condition);
            if let Some((m1, Some(r))) = spec_gen_expr(m, condition) {
                if let Some((m2, d)) = next_label(m1) {
                    let m2e = push_reg(emit_m(m2, branch_test(r, d)), r);
                    lemma_stmt_grows(m2e, *then_stmt);
                    if let Some(m3) = spec_gen_stmt(m2e, *then_stmt) {
                        if let Some(es) = else_stmt {
                            lemma_stmt_grows(emit_m(m3, "jmp .endif"@ + d + "\n.else"@ + d + ":\n"@), *es);
                        }
                    }
                }
            }
        },
        StmtV::Block(ss) => {
            lemma_stmts_grows(m, ss);
        },
        _ => {},
    }
}

proof fn lemma_stmts_grows(m: CgModel, ss: Seq<StmtV>)
    ensures
        gen_stmts(m, ss) matches Some(m2) ==> grows(m, m2),
    decreases ss,
{
    if ss.len() > 0 {
        lemma_stmt_grows(m, ss[0]);
        if let Some(m1) = spec_gen_stmt(m, ss[0]) {
            lemma_stmts_grows(m1, ss.skip(1));
        }
    }
}

proof fn lemma_body_grows(m: CgModel, ss: Seq<StmtV>, epi: Seq<char>)
    ensures
        gen_body(m, ss, epi) matches Some(m2) ==> grows(m, m2),
    decreases ss.len(),
{
    if ss.len() > 0 {
        match ss[0] {
            StmtV::Return(Some(e)) => {
                lemma_expr_grows(m, e);
            },
            _ => {
                lemma_stmt_grows(m, ss[0]);
            },
        }
        if let Some(m1) = gen_stmt_epi(m, ss[0], epi) {
            lemma_body_grows(m1, ss.skip(1), epi);
        }
    }
}

/// Emitting a function only adds to what was written.
pub proof fn lemma_function_grows(m: CgModel, name: Seq<char>, ps: Seq<(Seq<char>, TypeV)>, body: Seq<StmtV>)
    ensures
        gen_function(m, name, ps, body) matches Some(m2) ==> grows(m, m2),
{
    reveal(gen_function);
    lemma_body_grows(function_frame(m, name, ps), body, ".Lret_"@ + name);
}

proof fn lemma_decls_grows(m: CgModel, ss: Seq<StmtV>, n: nat)
    ensures
        gen_decls(m, ss, n) matches Some((m2, _, _)) ==> grows(m, m2),
    decreases n,
{
    if n > 0 && n <= ss.len() {
        lemma_decls_grows(m, ss, (n - 1) as nat);
        if let Some((m1, _, _)) = gen_decls(m, ss, (n - 1) as nat) {
            reveal(gen_struct);
            if let StmtV::FunDecl { body, .. } = ss[n - 1] {
                lemma_function_grows(m1, "main"@, Seq::empty(), body);
            }
        }
    }
}

proof fn lemma_funcs_grows(m: CgModel, fs: Seq<StmtV>, n: nat)
    ensures
        gen_funcs(m, fs, n) matches Some(m2) ==> grows(m, m2),
    decreases n,
{
    if n > 0 && n <= fs.len() {
        lemma_funcs_grows(m, fs, (n - 1) as nat);
        if let Some(m1) = gen_funcs(m, fs, (n - 1) as nat) {
            if let StmtV::FunDecl { name, params, body, .. } = fs[n - 1] {
                lemma_function_grows(m1, name, params, body);
            }
        }
    }
}

proof fn lemma_tops_grows(m: CgModel, ss: Seq<StmtV>, n: nat)
    ensures
        gen_tops(m, ss, n) matches Some(m2) ==> grows(m, m2),
    decreases n,
{
    if n > 0 && n <= ss.len() {
        lemma_tops_grows(m, ss, (n - 1) as nat);
        if let Some(m1) = gen_tops(m, ss, (n - 1) as nat) {
            reveal(top_stmt);
            lemma_stmt_grows(m1, ss[n - 1]);
        }
    }
}

/// Emitting an expression or a statement never changes what was already written: the
/// text before it stays, and the new text comes after it; and the jump label counter
/// only moves forward.
pub proof fn law_emission_appends(m: CgModel, e: ExprV, s: StmtV)
    ensures
        spec_gen_expr(m, e) matches Some((m2, _)) ==> grows(m, m2),
        spec_gen_stmt(m, s) matches Some(m2) ==> grows(m, m2),
{
    lemma_expr_grows(m, e);
    lemma_stmt_grows(m, s);
}

/// Every program's assembly begins with the entry point: the allocator declared, `main`
/// called and its result passed to the exit system call.
pub proof fn law_program_starts_with_entry(ss: Seq<StmtV>, print: Seq<char>, mem: Seq<char>, aarch64: bool)
    requires
        spec_generate(ss, print, mem, aarch64) is Some,
    ensures
        ({
            let out = spec_generate(ss, print, mem, aarch64)->0;
            out.len() >= start_text(aarch64).len() && out.subrange(0, start_text(aarch64).len() as int)
                == start_text(aarch64)
        }),
{
    let m0 = initial_model(aarch64);
    lemma_decls_grows(m0, ss, ss.len());
    let (m1, _, fs) = gen_decls(m0, ss, ss.len())->0;
    lemma_funcs_grows(m1, fs, fs.len());
    let m2 = gen_funcs(m1, fs, fs.len())->0;
    lemma_tops_grows(m2, ss, ss.len());
    let m3 = gen_tops(m2, ss, ss.len())->0;
    let out = spec_generate(ss, print, mem, aarch64)->0;
    assert(out == m3.out + print + "\n"@ + mem + "\n"@);
    assert(out.subrange(0, start_text(aarch64).len() as int) =~= start_text(aarch64));
}

/// Whether the instruction `cc al`, after `cmp a, b` on the signed values `a` and `b`,
/// sets `al` to 1: each `set` instruction of x86-64 tests its own condition.
pub open spec fn set_after_cmp(cc: Seq<char>, a: int, b: int) -> bool {
    if cc == "sete"@ {
        a == b
    } else if cc == "setne"@ {
        a != b
    } else if cc == "setl"@ {
        a < b
    } else if cc == "setle"@ {
        a <= b
    } else if cc == "setg"@ {
        a > b
    } else if cc == "setge"@ {
        a >= b
    } else {
        false
    }
}

/// The names of the six `set` instructions differ.
proof fn lemma_set_names_differ()
    ensures
        "setne"@ != "sete"@,
        "setl"@ != "sete"@ && "setl"@ != "setne"@,
        "setle"@ != "sete"@ && "setle"@ != "setne"@ && "setle"@ != "setl"@,
        "setg"@ != "sete"@ && "setg"@ != "setne"@ && "setg"@ != "setl"@ && "setg"@ != "setle"@,
        "setge"@ != "sete"@ && "setge"@ != "setne"@ && "setge"@ != "setl"@ && "setge"@ != "setle"@
            && "setge"@ != "setg"@,
{
    reveal_strlit("sete");
    reveal_strlit("setne");
    reveal_strlit("setl");
    reveal_strlit("setle");
    reveal_strlit("setg");
    reveal_strlit("setge");
    assert("setne"@.len() != "sete"@.len());
    assert("setl"@[3] != "sete"@[3]);
    assert("setl"@.len() != "setne"@.len());
    assert("setle"@.len() != "sete"@.len());
    assert("setle"@[3] != "setne"@[3]);
    assert("setle"@.len() != "setl"@.len());
    assert("setg"@[3] != "sete"@[3]);
    assert("setg"@.len() != "setne"@.len());
    assert("setg"@[3] != "setl"@[3]);
    assert("setg"@.len() != "setle"@.len());
    assert("setge"@.len() != "sete"@.len());
    assert("setge"@[3] != "setne"@[3]);
    assert("setge"@.len() != "setl"@.len());
    assert("setge"@[3] != "setle"@[3]);
    assert("setge"@.len() != "setg"@.len());
}

/// Whether the comparison `a op b` holds.
pub open spec fn comparison_holds(op: BinaryOp, a: int, b: int) -> bool {
    match op {
        BinaryOp::Equal => a == b,
        BinaryOp::NotEqual => a != b,
        BinaryOp::Less => a < b,
        BinaryOp::LessEqual => a <= b,
        BinaryOp::Greater => a > b,
        BinaryOp::GreaterEqual => a >= b,
        _ => false,
    }
}

/// Whether `op` is one of the six comparisons.
pub open spec fn is_comparison(op: BinaryOp) -> bool {
    op is Equal || op is NotEqual || op is Less || op is LessEqual || op is Greater || op is GreaterEqual
}

/// A comparison of the registers `lhs` and `rhs` compares them in that order, then sets
/// `rax` to 1 exactly when the comparison holds of their values, and 0 otherwise: the
/// `set` instruction it emits tests the condition the operator names.
pub proof fn law_comparison_sets_its_condition(m: CgModel, op: BinaryOp, lhs: Seq<char>, rhs: Seq<char>)
    requires
        is_comparison(op),
    ensures
        binary_on(m, op, lhs, rhs) matches Some((m2, Some(res))) && res == "rax"@ && exists|cc: Seq<char>|
            m2.out == m.out + "cmp "@ + lhs + ", "@ + rhs + "\n"@ + cc + " al\n"@ + "movzx rax, al\n"@
                && forall|a: int, b: int| #[trigger] set_after_cmp(cc, a, b) == comparison_holds(op, a, b),
{
    reveal_strlit("sete");
    reveal_strlit("setne");
    reveal_strlit("setl");
    reveal_strlit("setle");
    reveal_strlit("setg");
    reveal_strlit("setge");
    let cc = set_cc(op);
    let (m2, _) = binary_on(m, op, lhs, rhs)->0;
    assert(m2.out =~= m.out + "cmp "@ + lhs + ", "@ + rhs + "\n"@ + cc + " al\n"@ + "movzx rax, al\n"@);
    lemma_set_names_differ();
    assert forall|a: int, b: int| #[trigger] set_after_cmp(cc, a, b) == comparison_holds(op, a, b) by {}
}

/// The value x86-64 `mn dst, src` leaves in `dst` for `add`, `sub` and `imul`.
pub open spec fn alu_result(mn: Seq<char>, a: int, b: int) -> int {
    if mn == "add"@ {
        a + b
    } else if mn == "sub"@ {
        a - b
    } else if mn == "imul"@ {
        a * b
    } else {
        0
    }
}

/// The value of `a op b` for `+`, `-` and `*`.
pub open spec fn arith_value(op: BinaryOp, a: int, b: int) -> int {
    match op {
        BinaryOp::Add => a + b,
        BinaryOp::Sub => a - b,
        BinaryOp::Mul => a * b,
        _ => 0,
    }
}

/// `+`, `-` and `*` on the registers `lhs` and `rhs` leave the sum, difference or product
/// in `lhs`, which holds the result: the instruction emitted computes the operator.
pub proof fn law_arithmetic_computes_its_operator(m: CgModel, op: BinaryOp, lhs: Seq<char>, rhs: Seq<char>)
    requires
        op is Add || op is Sub || op is Mul,
    ensures
        binary_on(m, op, lhs, rhs) matches Some((m2, Some(res))) && res == lhs && exists|mn: Seq<char>|
            m2.out == m.out + mn + " "@ + lhs + ", "@ + rhs + "\n"@ && forall|a: int, b: int| #[trigger] alu_result(mn, a, b)
                == arith_value(op, a, b),
{
    reveal_strlit("add");
    reveal_strlit("sub");
    reveal_strlit("imul");
    let mn = if op is Add {
        "add"@
    } else if op is Sub {
        "sub"@
    } else {
        "imul"@
    };
    let (m2, _) = binary_on(m, op, lhs, rhs)->0;
    reveal_strlit("add ");
    reveal_strlit("sub ");
    reveal_strlit("imul ");
    reveal_strlit(" ");
    assert(m2.out =~= m.out + mn + " "@ + lhs + ", "@ + rhs + "\n"@);
    assert("sub"@ != "add"@) by {
        assert("sub"@[0] != "add"@[0]);
    }
    assert("imul"@ != "add"@ && "imul"@ != "sub"@) by {
        assert("imul"@.len() != "add"@.len());
    }
    assert forall|a: int, b: int| #[trigger] alu_result(mn, a, b) == arith_value(op, a, b) by {}
}

/// Whether the x86-64 jump `jcc`, after `cmp` of a value `v` with `k`, is taken.
pub open spec fn jump_taken(jcc: Seq<char>, v: int, k: int) -> bool {
    if jcc == "je"@ {
        v == k
    } else if jcc == "jne"@ {
        v != k
    } else {
        false
    }
}

/// The test at the top of a `while` loop compares the condition's register with 1 and
/// leaves the loop, to its end label, exactly when the value is not 1.
pub proof fn law_loop_exit_test(r: Seq<char>, d: Seq<char>)
    ensures
        exists|jcc: Seq<char>|
            loop_exit_test(r, d) == "cmp "@ + r + ", 1\n"@ + jcc + " .while_end_"@ + d + "\n"@ && forall|v: int|
                #[trigger] jump_taken(jcc, v, 1) == (v != 1),
{
    reveal_strlit(", 1\njne .while_end_");
    reveal_strlit(", 1\n");
    reveal_strlit("jne");
    reveal_strlit("je");
    reveal_strlit(" .while_end_");
    assert(loop_exit_test(r, d) =~= "cmp "@ + r + ", 1\n"@ + "jne"@ + " .while_end_"@ + d + "\n"@);
    assert("jne"@ != "je"@) by {
        assert("jne"@.len() != "je"@.len());
    }
    assert forall|v: int| #[trigger] jump_taken("jne"@, v, 1) == (v != 1) by {}
}

/// The test of an `if` compares the condition's register with 0 and jumps past the
/// `then` branch, to the `else` label, exactly when the value is 0.
pub proof fn law_branch_test(r: Seq<char>, d: Seq<char>)
    ensures
        exists|jcc: Seq<char>|
            branch_test(r, d) == "cmp "@ + r + ", 0\n"@ + jcc + " .else"@ + d + "\n"@ && forall|v: int|
                #[trigger] jump_taken(jcc, v, 0) == (v == 0),
{
    reveal_strlit(", 0\nje .else");
    reveal_strlit(", 0\n");
    reveal_strlit("je");
    reveal_strlit(" .else");
    assert(branch_test(r, d) =~= "cmp "@ + r + ", 0\n"@ + "je"@ + " .else"@ + d + "\n"@);
    assert forall|v: int| #[trigger] jump_taken("je"@, v, 0) == (v == 0) by {}
}

} // verus!
