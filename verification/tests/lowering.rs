use lib::assembly::{add_print_int, const_section, AsmSection, Codegen, TargetCodegen, X86Codegen, PRINT_INT_ROUTINE};
use lib::ast::{BinaryOp, Expr, RegWidth, Type, UnaryOp};
use lib::consts::{const_eval_int, parse_escapes};
use lib::interference::{VReg, VRegType};
use lib::ir::{AtDecl, IRBlock, IRFunction, IRInstruction, Terminator, Value};
use lib::regalloc::{Loc, RegRef};
use lib::regs::{X86RegFpr, X86RegGpr};
use lib::liveness::function_live_ranges;
use lib::liveness::{assign_live_ranges, flatten_blocks, touched_vregs, vreg_of_value, LifetimeInstr};
use lib::mir::BlockId;
use lib::regs::{reg8, X86Regs};

fn v(id: usize) -> VReg {
    VReg { id, ty: VRegType::Int, width: RegWidth::W64 }
}

fn x86() -> Codegen {
    Codegen::new(TargetCodegen::X86(X86Codegen { target_regs: X86Regs }))
}

#[test]
fn add_line_appends_to_one_section() {
    let mut cg = x86();
    cg.add_line(AsmSection::TEXT, "mov rax, 1");
    cg.add_line(AsmSection::TEXT, "ret");
    cg.add_line(AsmSection::EXTERN, "extern malloc");
    assert_eq!(cg.sections.text, "mov rax, 1\nret\n");
    assert_eq!(cg.sections.externs, "extern malloc\n");
    assert_eq!(cg.sections.data, "");
}

#[test]
fn emit_lays_out_sections_per_target() {
    let mut cg = x86();
    cg.add_line(AsmSection::EXTERN, "extern f");
    cg.add_line(AsmSection::RODATA, "c: db 1");
    cg.add_line(AsmSection::TEXT, "ret");
    assert_eq!(
        cg.emit(true, false),
        "extern f\n\nsection .rodata\nc: db 1\nsection .data\nsection .bss\nsection .text\nret\n"
    );
    assert_eq!(
        cg.emit(false, false),
        "extern f\n\n.section .rodata\nc: db 1\n.section .data\n.section .bss\n.section .text\nret\n"
    );
    assert_eq!(
        cg.emit(false, true),
        "extern f\n\n.section __TEXT,__cstring\n.section __TEXT,__const\nc: db 1\n.section __DATA,__data\n.section __DATA,__bss\n.section __TEXT,__text\nret\n"
    );
}

#[test]
fn string_constants_go_to_cstring_on_macos() {
    assert_eq!(const_section(true, true), AsmSection::CSTRING);
    assert_eq!(const_section(true, false), AsmSection::RODATA);
    assert_eq!(const_section(false, true), AsmSection::RODATA);
}

#[test]
fn print_int_routine_is_appended() {
    let mut s = String::from("; start\n");
    add_print_int(&mut s);
    assert!(s.starts_with("; start\nsection .text\nglobal print_int\n"));
    assert!(s.ends_with("int_buf resb 21  ;\n"));
    assert_eq!(s.len(), "; start\n".len() + PRINT_INT_ROUTINE.len());
}

#[test]
fn eight_bit_register_names() {
    assert_eq!(reg8("rax"), "al");
    assert_eq!(reg8("rsi"), "sil");
    assert_eq!(reg8("r12"), "r12b");
    assert_eq!(reg8("xmm0"), "al");
}

#[test]
fn attributes_by_name() {
    assert!(matches!(AtDecl::parse_attribute("inline"), Some(AtDecl::Inline)));
    assert!(matches!(AtDecl::parse_attribute("no_frame"), Some(AtDecl::NoFrame)));
    assert!(matches!(AtDecl::parse_attribute("trust_ret"), Some(AtDecl::TrustRet)));
    assert!(matches!(AtDecl::parse_attribute("variadic"), Some(AtDecl::Variadic)));
    assert!(AtDecl::parse_attribute("pure").is_none());
}

#[test]
fn operands_and_touched_registers() {
    assert_eq!(vreg_of_value(&Value::Reg(v(3))), Some(&v(3)));
    assert!(vreg_of_value(&Value::Const(3)).is_none());
    let add = LifetimeInstr::IRInstruction(IRInstruction::Add { reg: v(2), left: Value::Reg(v(0)), right: Value::Reg(v(1)) });
    assert_eq!(touched_vregs(&add), vec![v(1), v(0), v(2)]);
    let call = LifetimeInstr::IRInstruction(IRInstruction::Call {
        reg: None,
        func: "f".to_string(),
        args: vec![Value::Reg(v(4)), Value::Const(1), Value::Reg(v(5))],
    });
    assert_eq!(touched_vregs(&call), vec![v(4), v(5)]);
    let gep = LifetimeInstr::IRInstruction(IRInstruction::Gep { dest: v(6), base: Value::Local(0), index: Value::Reg(v(7)), scale: 8 });
    assert_eq!(touched_vregs(&gep), vec![v(6)]);
    let store = LifetimeInstr::IRInstruction(IRInstruction::Store { value: Value::Reg(v(8)), addr: Value::Reg(v(9)), offset: 0, ty: Type::Int });
    assert_eq!(touched_vregs(&store), vec![v(9), v(8)]);
}

#[test]
fn live_ranges_span_first_to_last_use() {
    let blocks = vec![
        IRBlock {
            id: BlockId(0),
            instructions: vec![
                IRInstruction::Move { dest: v(0), from: Value::Const(1) },
                IRInstruction::Move { dest: v(1), from: Value::Const(2) },
                IRInstruction::Add { reg: v(2), left: Value::Reg(v(0)), right: Value::Reg(v(1)) },
            ],
            terminator: Terminator::Jump { block: BlockId(1) },
        },
        IRBlock {
            id: BlockId(1),
            instructions: vec![IRInstruction::Cast { reg: v(3), src: Value::Reg(v(0)), ty: Type::Long }],
            terminator: Terminator::Return { value: Some(Value::Reg(v(2))) },
        },
    ];
    let flat = flatten_blocks(blocks);
    assert_eq!(flat.len(), 6);
    assert!(matches!(flat[3], LifetimeInstr::Terminator(Terminator::Jump { .. })));
    let mut ranges = assign_live_ranges(flat);
    ranges.sort_by_key(|r| r.vreg.id);
    let spans: Vec<(usize, usize, usize)> = ranges.iter().map(|r| (r.vreg.id, r.start, r.end)).collect();
    assert_eq!(spans, vec![(0, 0, 4), (1, 1, 2), (2, 2, 5), (3, 4, 4)]);
}

#[test]
fn escapes_are_replaced() {
    assert_eq!(parse_escapes("a\\nb"), vec!['a', '\n', 'b']);
    assert_eq!(parse_escapes("\\t\\\\\\\"\\0"), vec!['\t', '\\', '"', '\0']);
    assert_eq!(parse_escapes("\\q"), vec!['q']);
    assert_eq!(parse_escapes("end\\"), vec!['e', 'n', 'd', '\\']);
    assert_eq!(parse_escapes(""), Vec::<char>::new());
}

#[test]
fn constant_expressions_fold() {
    let bin = |l: Expr, op: BinaryOp, r: Expr| Expr::Binary { left: Box::new(l), op, right: Box::new(r), result_type: Type::Long };
    assert_eq!(const_eval_int(&Expr::IntLiteral(7)), Some(7));
    assert_eq!(const_eval_int(&bin(Expr::IntLiteral(2), BinaryOp::Add, bin(Expr::IntLiteral(3), BinaryOp::Mul, Expr::LongLiteral(4)))), Some(14));
    assert_eq!(const_eval_int(&bin(Expr::IntLiteral(-7), BinaryOp::Div, Expr::IntLiteral(2))), Some(-3));
    assert_eq!(const_eval_int(&bin(Expr::IntLiteral(-7), BinaryOp::Mod, Expr::IntLiteral(2))), Some(-1));
    assert_eq!(const_eval_int(&bin(Expr::IntLiteral(7), BinaryOp::Mod, Expr::IntLiteral(-2))), Some(1));
    assert_eq!(const_eval_int(&Expr::Unary { op: UnaryOp::Negate, expr: Box::new(Expr::IntLiteral(5)), result_type: Type::Int }), Some(-5));
    assert_eq!(const_eval_int(&bin(Expr::IntLiteral(1), BinaryOp::Less, Expr::IntLiteral(2))), None);
    assert_eq!(const_eval_int(&Expr::BoolLiteral(true)), None);
}

fn f(id: usize) -> VReg {
    VReg { id, ty: VRegType::Float, width: RegWidth::W64 }
}

fn sample_function() -> IRFunction {
    IRFunction {
        name: "add3".to_string(),
        params: vec![v(0), f(1), v(2)],
        ret_type: Type::Int,
        blocks: vec![IRBlock {
            id: BlockId(0),
            instructions: vec![
                IRInstruction::Add { reg: v(3), left: Value::Reg(v(0)), right: Value::Reg(v(2)) },
                IRInstruction::Cast { reg: v(4), src: Value::Reg(f(1)), ty: Type::Int },
                IRInstruction::Add { reg: v(5), left: Value::Reg(v(3)), right: Value::Reg(v(4)) },
            ],
            terminator: Terminator::Return { value: Some(Value::Reg(v(5))) },
        }],
        entry: BlockId(0),
        attributes: vec![],
        offset: 16,
    }
}

#[test]
fn function_ranges_follow_the_blocks() {
    let func = sample_function();
    let mut ranges = function_live_ranges(&func.blocks);
    ranges.sort_by_key(|r| r.vreg.id);
    let spans: Vec<(usize, usize, usize)> = ranges.iter().map(|r| (r.vreg.id, r.start, r.end)).collect();
    assert_eq!(spans, vec![(0, 0, 0), (1, 1, 1), (2, 0, 0), (3, 0, 2), (4, 1, 2), (5, 2, 3)]);
}

#[test]
fn regalloc_places_params_and_colors_the_rest() {
    let func = sample_function();
    let a = X86Regs.regalloc(&func);
    assert!(matches!(a.vreg_loc[0], (r, Loc::PhysReg(RegRef::GprReg(X86RegGpr::RDI))) if r == v(0)));
    assert!(matches!(a.vreg_loc[1], (r, Loc::PhysReg(RegRef::GprReg(X86RegGpr::RSI))) if r == v(2)));
    assert!(matches!(a.vreg_loc[2], (r, Loc::PhysReg(RegRef::FprReg(X86RegFpr::XMM0))) if r == f(1)));
    assert_eq!(a.vreg_loc.len(), 3 + 6);
    assert_eq!(a.stack_size, 16);
    assert!(a.local_loc.is_empty() && a.global_loc.is_empty());
    for (_, loc) in &a.vreg_loc {
        assert!(matches!(loc, Loc::PhysReg(_)));
    }
}

#[test]
fn thirty_two_bit_register_names() {
    assert_eq!(lib::regs::reg32("rdi"), "edi");
    assert_eq!(lib::regs::reg32("r9"), "r9d");
    assert_eq!(lib::regs::reg32("rbp"), "eax");
}

#[test]
fn qualified_names_do_not_clash_across_modules() {
    assert_ne!(lib::alias::qualify_name("x", 1), lib::alias::qualify_name("x", 11));
    assert_ne!(lib::alias::qualify_name("x", 2), lib::alias::qualify_name("x", 20));
}

#[test]
fn codegen_locals_and_aligned_calls() {
    let mut cg = lib::codegen::CodeGen::new();
    assert_eq!(cg.regs.len(), 10);
    let off = cg.alloc_local("p", &Type::Pointer(Box::new(Type::Struct { name: "P".to_string(), instances: vec![] })));
    assert_eq!(off, 8);
    assert_eq!(cg.output, "sub rsp, 8\n");
    assert_eq!(cg.local_offset("p"), Some(8));
    assert_eq!(cg.local_offset("q"), None);
    assert_eq!(cg.locals.get("p").unwrap().0, Some("P".to_string()));
    cg.call_with_alignment("f");
    assert_eq!(cg.output, "sub rsp, 8\nsub rsp, 8\ncall f\nadd rsp, 8\n");
    let off2 = cg.alloc_local("x", &Type::Int);
    assert_eq!(off2, 16);
    cg.call_with_alignment("g");
    assert!(cg.output.ends_with("sub rsp, 8\ncall g\n"));
    assert!(cg.locals.get("x").unwrap().0.is_none());
}
