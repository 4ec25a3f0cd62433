use lib::ast::{Expr, Stmt, Type};
use lib::codegen::CodeGen;

fn main_fn(body: Vec<Stmt>) -> Stmt {
    Stmt::FunDecl {
        name: "main".to_string(),
        params: vec![],
        return_type: Type::Int,
        body,
        attributes: vec![],
    }
}

const START: &str = "extern malloc\nglobal _start\n_start:\ncall main\nmov rbx, rax\nmov rdi, rax\nmov rax, 60\nsyscall\n";

#[test]
fn generate_minimal_main() {
    let prog = vec![main_fn(vec![Stmt::Return(Some(Expr::IntLiteral(0)))])];
    let out = CodeGen::generate(&prog, "PRINT", "MEM", false).unwrap();
    let expected = format!(
        "{START}global main\nmain:\npush rbp\nmov rbp, rsp\nsub rsp, 0\nmov rcx, 0\nmov rax, rcx\njmp .Lret_main\nxor rax, rax\n.Lret_main:\nmov rsp, rbp\npop rbp\nret\nPRINT\nMEM\n"
    );
    assert_eq!(out, expected);
}

#[test]
fn generate_without_main_fails() {
    let prog = vec![Stmt::FunDecl {
        name: "helper".to_string(),
        params: vec![],
        return_type: Type::Int,
        body: vec![],
        attributes: vec![],
    }];
    assert!(CodeGen::generate(&prog, "", "", false).is_none());
}

#[test]
fn generate_aarch64_start() {
    let prog = vec![main_fn(vec![])];
    let out = CodeGen::generate(&prog, "", "", true).unwrap();
    assert!(out.starts_with(
        "extern _malloc\nglobal _start\n_start:\ncall main\nmov rbx, rax\nmov rdi, rax\nmov rax, 0x2000001\nsyscall\n"
    ));
}

#[test]
fn generate_other_functions_after_main() {
    let helper = Stmt::FunDecl {
        name: "helper".to_string(),
        params: vec![],
        return_type: Type::Void,
        body: vec![],
        attributes: vec![],
    };
    let prog = vec![helper, main_fn(vec![])];
    let out = CodeGen::generate(&prog, "P", "M", false).unwrap();
    let expected = format!(
        "{START}global main\nmain:\npush rbp\nmov rbp, rsp\nsub rsp, 0\nxor rax, rax\n.Lret_main:\nmov rsp, rbp\npop rbp\nret\nglobal helper\nhelper:\npush rbp\nmov rbp, rsp\nsub rsp, 0\n.Lret_helper:\nmov rsp, rbp\npop rbp\nret\nP\nM\n"
    );
    assert_eq!(out, expected);
}

#[test]
fn struct_layout_and_constructor() {
    let mut code = CodeGen::new();
    let fields = vec![("x".to_string(), Type::Int), ("y".to_string(), Type::Int)];
    assert!(code.generate_struct("Point", &fields, false).is_ok());
    assert_eq!(
        code.output,
        "; ----- Layout: Point -----\n%define Point_size 8\n%define Point.x 0\n%define Point.y 4\n\nglobal Point.new\nPoint.new:\npush rbp\nmov rbp, rsp\nsub rsp, 8\nmov dword [rbp - 4], edi\nmov dword [rbp - 8], esi\nmov rdi, Point_size\ncall malloc\nmov rcx, rax\nmov eax, dword [rbp - 4]\nmov dword [rcx + 0], eax\nmov eax, dword [rbp - 8]\nmov dword [rcx + 4], eax\nmov rax, rcx\nadd rsp, 8\nmov rsp, rbp\npop rbp\nret\n\n"
    );
}

#[test]
fn function_saves_parameters() {
    let mut code = CodeGen::new();
    let params = vec![("a".to_string(), Type::Int)];
    let body = vec![Stmt::Return(Some(Expr::Variable("a".to_string(), Type::Int)))];
    assert!(code.generate_function("f", &params, &body).is_ok());
    assert_eq!(
        code.output,
        "global f\nf:\npush rbp\nmov rbp, rsp\nsub rsp, 16\nmov dword [rbp - 4], edi\nmov ecx, dword [rbp - 4]\nmov rax, rcx\njmp .Lret_f\n.Lret_f:\nmov rsp, rbp\npop rbp\nret\n"
    );
    assert_eq!(code.stack_size, 16);
}

#[test]
fn more_than_five_parameters_fail() {
    let mut code = CodeGen::new();
    let params: Vec<(String, Type)> = (0..6).map(|i| (format!("p{i}"), Type::Int)).collect();
    assert!(code.generate_function("g", &params, &vec![]).is_err());
}

#[test]
fn while_loop_labels() {
    let mut code = CodeGen::new();
    let stmt = Stmt::While { condition: Expr::BoolLiteral(true), body: Box::new(Stmt::Block(vec![])) };
    assert!(code.handle_stmt(&stmt).is_ok());
    assert_eq!(code.output, ".while_start_0:\nmov rcx, 1\ncmp rcx, 1\njne .while_end_0\njmp .while_start_0\n.while_end_0:\n");
    assert_eq!(code.jmp_count, 1);
    assert_eq!(code.regs.back().unwrap(), "rcx");
}

#[test]
fn if_else_labels() {
    let mut code = CodeGen::new();
    let stmt = Stmt::If {
        condition: Expr::BoolLiteral(false),
        then_stmt: Box::new(Stmt::Block(vec![])),
        else_stmt: Some(Box::new(Stmt::Block(vec![]))),
    };
    assert!(code.handle_stmt(&stmt).is_ok());
    assert_eq!(code.output, "mov rcx, 0\ncmp rcx, 0\nje .else0\njmp .endif0\n.else0:\n.endif0:\n");
}

#[test]
fn variable_declaration_gets_a_slot() {
    let mut code = CodeGen::new();
    let stmt = Stmt::VarDecl { name: "x".to_string(), var_type: Type::Int, value: Expr::IntLiteral(5) };
    assert!(code.handle_stmt(&stmt).is_ok());
    assert_eq!(code.output, "sub rsp, 8\nmov rcx, 5\nmov qword [rbp - 8], rcx\n");
    assert_eq!(code.stack_size, 8);
    assert_eq!(code.local_offset("x"), Some(8));
}

#[test]
fn array_declaration_stores_elements() {
    let mut code = CodeGen::new();
    let stmt = Stmt::VarDecl {
        name: "arr".to_string(),
        var_type: Type::Array(Box::new(Type::Int), Some(2)),
        value: Expr::Array(vec![Expr::IntLiteral(1), Expr::IntLiteral(2)], Type::Int),
    };
    assert!(code.handle_stmt(&stmt).is_ok());
    assert_eq!(code.output, "sub rsp, 16\nmov qword [rbp - 16], 1\nmov qword [rbp - 8], 2\n");
    assert_eq!(code.local_offset("arr"), Some(16));
}

#[test]
fn unknown_variable_fails() {
    let mut code = CodeGen::new();
    let stmt = Stmt::Expression(Expr::Variable("nope".to_string(), Type::Int));
    assert!(code.handle_stmt(&stmt).is_err());
}

#[test]
fn return_jumps_to_epilogue() {
    let mut code = CodeGen::new();
    assert!(code.handle_stmt_with_epilogue(&Stmt::Return(None), ".Lret_k").is_ok());
    assert_eq!(code.output, "jmp .Lret_k\n");
}

#[test]
fn two_loops_use_distinct_labels() {
    let mut code = CodeGen::new();
    let stmt = Stmt::While { condition: Expr::BoolLiteral(true), body: Box::new(Stmt::Block(vec![])) };
    assert!(code.handle_stmt(&stmt).is_ok());
    let first = code.output.clone();
    assert!(code.handle_stmt(&stmt).is_ok());
    assert!(code.output.starts_with(&first));
    assert!(code.output[first.len()..].starts_with(".while_start_1:\n"));
    assert_eq!(code.jmp_count, 2);
}

#[test]
fn program_ends_with_routines() {
    let prog = vec![main_fn(vec![Stmt::Expression(Expr::IntLiteral(3))])];
    let out = CodeGen::generate(&prog, "PR", "ME", false).unwrap();
    assert!(out.starts_with(START));
    assert!(out.ends_with("PR\nME\n"));
}
