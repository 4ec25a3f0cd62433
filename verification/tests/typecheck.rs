use lib::analyzer::TypeChecker;
use lib::ast::{BinaryOp, Expr, Stmt, Type, UnaryOp};
use lib::typecheck::TypeError;

fn lit(v: i32) -> Expr {
    Expr::IntLiteral(v)
}

fn var(name: &str) -> Expr {
    Expr::Variable(name.to_string(), Type::Unknown)
}

fn var_decl(name: &str, ty: Type, value: Expr) -> Stmt {
    Stmt::VarDecl { name: name.to_string(), var_type: ty, value }
}

fn fun(name: &str, params: Vec<(&str, Type)>, ret: Type, body: Vec<Stmt>) -> Stmt {
    Stmt::FunDecl {
        name: name.to_string(),
        params: params.into_iter().map(|(n, t)| (n.to_string(), t)).collect(),
        return_type: ret,
        body,
        attributes: Vec::new(),
    }
}

fn point_decl() -> Stmt {
    Stmt::StructDecl {
        name: "Point".to_string(),
        instances: vec![("x".to_string(), Type::Int), ("y".to_string(), Type::Int)],
        union: false,
    }
}

fn point_type() -> Type {
    Type::Struct { name: "Point".to_string(), instances: Vec::new() }
}

fn point_init(fields: Vec<(&str, Expr)>) -> Expr {
    Expr::StructInit {
        name: "Point".to_string(),
        params: fields.into_iter().map(|(n, e)| (n.to_string(), e)).collect(),
    }
}

fn import_io() -> Stmt {
    Stmt::AtDecl("import".to_string(), Some("io".to_string()), None, None, None)
}

fn call(name: &str, args: Vec<Expr>) -> Expr {
    Expr::Call { name: name.to_string(), args, return_type: Type::Unknown }
}

#[test]
fn literals_have_their_types() {
    let mut tc = TypeChecker::new();
    assert!(matches!(tc.type_check_expr(&lit(3)), Ok(Type::Int)));
    assert!(matches!(tc.type_check_expr(&Expr::BoolLiteral(true)), Ok(Type::Bool)));
    assert!(matches!(tc.type_check_expr(&Expr::CharLiteral('a')), Ok(Type::Char)));
    match tc.type_check_expr(&Expr::StringLiteral("hi".to_string())) {
        Ok(Type::Struct { name, instances }) => {
            assert_eq!(name, "string");
            assert_eq!(instances.len(), 1);
            assert_eq!(instances[0].0, "chars");
            assert!(matches!(instances[0].1, Type::Array(_, None)));
        },
        other => panic!("unexpected {other:?}"),
    }
}

#[test]
fn undeclared_variable_is_reported() {
    let mut tc = TypeChecker::new();
    match tc.type_check_expr(&var("x")) {
        Err(TypeError::UndeclaredVariable { name }) => assert_eq!(name, "x"),
        other => panic!("unexpected {other:?}"),
    }
}

#[test]
fn declared_variable_has_its_type() {
    let mut tc = TypeChecker::new();
    assert!(tc.declare_var("x", Type::Float).is_ok());
    assert!(matches!(tc.type_check_expr(&var("x")), Ok(Type::Float)));
}

#[test]
fn binary_operations() {
    let mut tc = TypeChecker::new();
    let sum = Expr::binary(lit(1), BinaryOp::Add, lit(2));
    assert!(matches!(tc.type_check_expr(&sum), Ok(Type::Int)));
    let less = Expr::binary(lit(1), BinaryOp::Less, lit(2));
    assert!(matches!(tc.type_check_expr(&less), Ok(Type::Bool)));
    let mixed = Expr::binary(lit(1), BinaryOp::Add, Expr::BoolLiteral(true));
    assert!(matches!(tc.type_check_expr(&mixed), Err(TypeError::BinaryMismatch { left: Type::Int, right: Type::Bool })));
    let bools = Expr::binary(Expr::BoolLiteral(true), BinaryOp::Add, Expr::BoolLiteral(false));
    assert!(matches!(tc.type_check_expr(&bools), Err(TypeError::ArithmeticNeedsNumbers { found: Type::Bool })));
    let and = Expr::binary(lit(1), BinaryOp::And, lit(2));
    assert!(matches!(tc.type_check_expr(&and), Err(TypeError::LogicalNeedsBools)));
}

#[test]
fn unary_operations() {
    let mut tc = TypeChecker::new();
    let not_int = Expr::unary(UnaryOp::Not, lit(1), Type::Unknown);
    assert!(matches!(tc.type_check_expr(&not_int), Err(TypeError::NotNeedsBool)));
    let addr = Expr::AddressOf(Box::new(lit(1)));
    match tc.type_check_expr(&addr) {
        Ok(Type::Pointer(inner)) => assert!(matches!(*inner, Type::Int)),
        other => panic!("unexpected {other:?}"),
    }
    let deref = Expr::unary(UnaryOp::Dereference, lit(1), Type::Unknown);
    assert!(matches!(tc.type_check_expr(&deref), Err(TypeError::DerefNonPointer)));
}

#[test]
fn casts() {
    let mut tc = TypeChecker::new();
    let ok = Expr::cast(lit(1), Type::Float);
    assert!(matches!(tc.type_check_expr(&ok), Ok(Type::Float)));
    let bad = Expr::cast(Expr::BoolLiteral(true), Type::Int);
    assert!(matches!(tc.type_check_expr(&bad), Err(TypeError::InvalidCast { from: Type::Bool, to: Type::Int })));
}

#[test]
fn calls_check_arity_and_arguments() {
    let mut tc = TypeChecker::new();
    assert!(matches!(tc.type_check_expr(&call("f", vec![])), Err(TypeError::UndefinedFunction { .. })));
    assert!(tc.declare_fn("f", vec![Type::Int], Type::Bool).is_ok());
    assert!(matches!(tc.type_check_expr(&call("f", vec![lit(1)])), Ok(Type::Bool)));
    match tc.type_check_expr(&call("f", vec![])) {
        Err(TypeError::ArgumentCount { name, expected, got }) => {
            assert_eq!(name, "f");
            assert_eq!(expected, 1);
            assert_eq!(got, 0);
        },
        other => panic!("unexpected {other:?}"),
    }
    assert!(matches!(
        tc.type_check_expr(&call("f", vec![Expr::BoolLiteral(true)])),
        Err(TypeError::ArgumentMismatch { expected: Type::Int, got: Type::Bool, .. })
    ));
}

#[test]
fn array_literals_and_indexing() {
    let mut tc = TypeChecker::new();
    let arr = Expr::Array(vec![lit(1), lit(2)], Type::Int);
    match tc.type_check_expr(&arr) {
        Ok(Type::Array(elem, Some(2))) => assert!(matches!(*elem, Type::Int)),
        other => panic!("unexpected {other:?}"),
    }
    assert!(matches!(tc.type_check_expr(&Expr::Array(vec![], Type::Int)), Err(TypeError::EmptyArray)));
    let mixed = Expr::Array(vec![lit(1), Expr::BoolLiteral(true)], Type::Int);
    assert!(matches!(tc.type_check_expr(&mixed), Err(TypeError::ArrayElementMismatch)));
    assert!(tc.declare_var("a", Type::Array(Box::new(Type::Char), Some(3))).is_ok());
    assert!(matches!(tc.type_check_expr(&Expr::array_access(var("a"), lit(1))), Ok(Type::Char)));
    assert!(matches!(tc.type_check_expr(&Expr::array_access(var("a"), lit(3))), Err(TypeError::IndexOutOfBounds)));
    assert!(matches!(
        tc.type_check_expr(&Expr::array_access(var("a"), Expr::BoolLiteral(true))),
        Err(TypeError::IndexNotInt)
    ));
}

#[test]
fn program_with_function_checks() {
    let body = vec![var_decl("x", Type::Int, lit(1)), Stmt::Return(Some(var("x")))];
    let program = vec![fun("main", vec![], Type::Int, body)];
    let checked = TypeChecker::analyze_program(Vec::new(), program);
    match checked {
        Ok(stmts) => assert_eq!(stmts.len(), 1),
        Err(e) => panic!("unexpected {e:?}"),
    }
}

#[test]
fn missing_return_is_reported() {
    let program = vec![fun("main", vec![], Type::Int, vec![Stmt::Expression(lit(1))])];
    match TypeChecker::analyze_program(Vec::new(), program) {
        Err(TypeError::MissingReturn { name, return_type: Type::Int }) => assert_eq!(name, "main"),
        other => panic!("unexpected {other:?}"),
    }
}

#[test]
fn function_declared_twice_is_reported() {
    let program = vec![fun("f", vec![], Type::Void, vec![]), fun("f", vec![], Type::Void, vec![])];
    match TypeChecker::analyze_program(Vec::new(), program) {
        Err(TypeError::FunctionRedeclared { name }) => assert_eq!(name, "f"),
        other => panic!("unexpected {other:?}"),
    }
}

#[test]
fn return_mismatch_and_outside_function() {
    let program = vec![fun("f", vec![], Type::Int, vec![Stmt::Return(Some(Expr::BoolLiteral(true)))])];
    assert!(matches!(
        TypeChecker::analyze_program(Vec::new(), program),
        Err(TypeError::ReturnMismatch { expected: Type::Int, found: Type::Bool })
    ));
    let program = vec![Stmt::Return(None)];
    assert!(matches!(TypeChecker::analyze_program(Vec::new(), program), Err(TypeError::ReturnOutsideFunction)));
}

#[test]
fn break_needs_a_loop() {
    let program = vec![Stmt::Break];
    assert!(matches!(TypeChecker::analyze_program(Vec::new(), program), Err(TypeError::BreakOutsideLoop)));
    let in_loop = Stmt::While { condition: Expr::BoolLiteral(true), body: Box::new(Stmt::Block(vec![Stmt::Break])) };
    assert!(TypeChecker::analyze_program(Vec::new(), vec![in_loop]).is_ok());
    let bad_cond = Stmt::While { condition: lit(1), body: Box::new(Stmt::Block(vec![])) };
    assert!(matches!(
        TypeChecker::analyze_program(Vec::new(), vec![bad_cond]),
        Err(TypeError::WhileConditionNotBool)
    ));
}

#[test]
fn variable_redeclared_in_one_scope() {
    let program = vec![var_decl("x", Type::Int, lit(1)), var_decl("x", Type::Int, lit(2))];
    match TypeChecker::analyze_program(Vec::new(), program) {
        Err(TypeError::VariableRedeclared { name }) => assert_eq!(name, "x"),
        other => panic!("unexpected {other:?}"),
    }
    let shadowed = vec![var_decl("x", Type::Int, lit(1)), Stmt::Block(vec![var_decl("x", Type::Int, lit(2))])];
    assert!(TypeChecker::analyze_program(Vec::new(), shadowed).is_ok());
}

#[test]
fn importing_io_declares_print_functions() {
    let uses = Stmt::Expression(call("print_int", vec![lit(1)]));
    let program = vec![import_io(), uses];
    assert!(TypeChecker::analyze_program(Vec::new(), program).is_ok());
    let without = vec![Stmt::Expression(call("print_int", vec![lit(1)]))];
    assert!(matches!(
        TypeChecker::analyze_program(Vec::new(), without),
        Err(TypeError::UndefinedFunction { .. })
    ));
    let unknown = vec![Stmt::AtDecl("export".to_string(), None, None, None, None)];
    assert!(matches!(
        TypeChecker::analyze_program(Vec::new(), unknown),
        Err(TypeError::UnknownDeclaration { .. })
    ));
}

#[test]
fn imported_statements_come_first() {
    let imported = vec![fun("helper", vec![("n", Type::Int)], Type::Int, vec![Stmt::Return(Some(var("n")))])];
    let program = vec![var_decl("y", Type::Int, call("helper", vec![lit(4)]))];
    match TypeChecker::analyze_program(imported, program) {
        Ok(stmts) => assert_eq!(stmts.len(), 2),
        Err(e) => panic!("unexpected {e:?}"),
    }
}

#[test]
fn struct_literals_and_fields() {
    let good = vec![
        point_decl(),
        var_decl("p", point_type(), point_init(vec![("x", lit(1)), ("y", lit(2))])),
        Stmt::Expression(Expr::InstanceVar("p".to_string(), "y".to_string())),
    ];
    match TypeChecker::analyze_program(Vec::new(), good) {
        Ok(stmts) => match &stmts[1] {
            Stmt::VarDecl { var_type: Type::Struct { name, instances }, .. } => {
                assert_eq!(name, "Point");
                assert_eq!(instances.len(), 2);
            },
            other => panic!("unexpected {other:?}"),
        },
        Err(e) => panic!("unexpected {e:?}"),
    }
    let missing = vec![point_decl(), var_decl("p", point_type(), point_init(vec![("x", lit(1))]))];
    match TypeChecker::analyze_program(Vec::new(), missing) {
        Err(TypeError::MissingInitializer { class, field }) => {
            assert_eq!(class, "Point");
            assert_eq!(field, "y");
        },
        other => panic!("unexpected {other:?}"),
    }
    let twice = vec![point_decl(), var_decl("p", point_type(), point_init(vec![("x", lit(1)), ("x", lit(2))]))];
    assert!(matches!(TypeChecker::analyze_program(Vec::new(), twice), Err(TypeError::DuplicateField { .. })));
    let unknown_field = vec![
        point_decl(),
        var_decl("p", point_type(), point_init(vec![("x", lit(1)), ("y", lit(2))])),
        Stmt::Expression(Expr::InstanceVar("p".to_string(), "z".to_string())),
    ];
    assert!(matches!(
        TypeChecker::analyze_program(Vec::new(), unknown_field),
        Err(TypeError::UnknownField { .. })
    ));
    let shared = vec![Stmt::StructDecl {
        name: "S".to_string(),
        instances: vec![("a".to_string(), Type::Int), ("a".to_string(), Type::Char)],
        union: false,
    }];
    assert!(matches!(TypeChecker::analyze_program(Vec::new(), shared), Err(TypeError::InstancesShareName)));
}

#[test]
fn array_declaration_sizes() {
    let short = vec![var_decl("a", Type::Array(Box::new(Type::Int), Some(3)), Expr::Array(vec![lit(1), lit(2)], Type::Int))];
    match TypeChecker::analyze_program(Vec::new(), short) {
        Err(TypeError::ArraySizeMismatch { name, expected, found }) => {
            assert_eq!(name, "a");
            assert_eq!(expected, 3);
            assert_eq!(found, 2);
        },
        other => panic!("unexpected {other:?}"),
    }
    let exact = vec![var_decl("a", Type::Array(Box::new(Type::Int), Some(2)), Expr::Array(vec![lit(1), lit(2)], Type::Int))];
    assert!(TypeChecker::analyze_program(Vec::new(), exact).is_ok());
}

#[test]
fn for_loop_scope_and_condition() {
    let for_stmt = Stmt::For {
        init: Some(Box::new(var_decl("i", Type::Int, lit(0)))),
        condition: Some(Expr::binary(var("i"), BinaryOp::Less, lit(3))),
        update: None,
        body: Box::new(Stmt::Block(vec![Stmt::Continue])),
    };
    let after = Stmt::Expression(var("i"));
    match TypeChecker::analyze_program(Vec::new(), vec![for_stmt, after]) {
        Err(TypeError::UndeclaredVariable { name }) => assert_eq!(name, "i"),
        other => panic!("unexpected {other:?}"),
    }
}

#[test]
fn block_scope_closes_after_block() {
    let program = vec![Stmt::Block(vec![var_decl("x", Type::Int, lit(1))]), Stmt::Expression(var("x"))];
    match TypeChecker::analyze_program(Vec::new(), program) {
        Err(TypeError::UndeclaredVariable { name }) => assert_eq!(name, "x"),
        other => panic!("unexpected {other:?}"),
    }
    let visible = vec![var_decl("x", Type::Char, Expr::CharLiteral('c')), Stmt::Expression(var("x"))];
    assert!(TypeChecker::analyze_program(Vec::new(), visible).is_ok());
}

#[test]
fn checking_a_statement_updates_the_checker() {
    let mut tc = TypeChecker::new();
    let decl = var_decl("n", Type::Int, lit(5));
    assert!(tc.type_check_stmt(decl).is_ok());
    assert!(matches!(tc.type_check_expr(&var("n")), Ok(Type::Int)));
    let again = var_decl("n", Type::Int, lit(6));
    assert!(matches!(tc.type_check_stmt(again), Err(TypeError::VariableRedeclared { .. })));
}

#[test]
fn messages_read_as_the_checker_words_them() {
    let e = TypeError::BinaryMismatch { left: Type::Int, right: Type::Bool };
    assert_eq!(e.message(), "Type mismatch in binary operation: left is int, right is Bool");
    let e = TypeError::UndeclaredVariable { name: "x".to_string() };
    assert_eq!(e.message(), "Undeclared variable 'x'");
    let e = TypeError::ArgumentCount { name: "f".to_string(), expected: 2, got: 10 };
    assert_eq!(e.message(), "Function 'f' expected 2 arguments, got 10");
    let e = TypeError::InvalidCast { from: Type::Array(Box::new(Type::Char), Some(3)), to: Type::Pointer(Box::new(Type::Float)) };
    assert_eq!(e.message(), "Invalid cast from Array(Char, Some(3)) to Pointer(float)");
    let st = Type::Struct { name: "P".to_string(), instances: vec![("a".to_string(), Type::Int), ("b\"".to_string(), Type::Char)] };
    let e = TypeError::ReturnMismatch { expected: st, found: Type::Array(Box::new(Type::Int), None) };
    assert_eq!(
        e.message(),
        "Return type mismatch: expected Struct { name: \"P\", instances: [(\"a\", int), (\"b\\\"\", Char)] }, found Array(int, None)"
    );
    let e = TypeError::MissingInitializer { class: "Point".to_string(), field: "y".to_string() };
    assert_eq!(e.message(), "Missing initializer for field 'Point.y'");
}

#[test]
fn try_variants_report_panics_as_none() {
    let mut tc = TypeChecker::new();
    assert!(tc.declare_var("a", Type::Array(Box::new(Type::Int), Some(3_000_000_000))).is_ok());
    assert!(tc.try_type_check_expr(&Expr::array_access(var("a"), lit(1))).is_none());
    assert!(matches!(tc.try_type_check_expr(&lit(1)), Some(Ok(Type::Int))));
    let pathless = vec![Stmt::AtDecl("import".to_string(), None, None, None, None)];
    assert!(TypeChecker::try_analyze_program(Vec::new(), pathless).is_none());
    let fine = vec![var_decl("x", Type::Int, lit(1))];
    assert!(matches!(TypeChecker::try_analyze_program(Vec::new(), fine), Some(Ok(_))));
    let no_len = Stmt::VarDecl {
        name: "a".to_string(),
        var_type: Type::Array(Box::new(Type::Int), None),
        value: Expr::Array(vec![lit(1)], Type::Int),
    };
    let mut tc = TypeChecker::new();
    assert!(tc.try_type_check_stmt(no_len).is_none());
}
