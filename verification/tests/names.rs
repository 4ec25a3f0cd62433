use lib::alias::{qualify_name, qualify_type, AliasManager, ModuleSymbols, QuorFile, Table};
use lib::ast::{Expr, Stmt, Type};
use lib::first_pass::first_pass_names_present;

fn at(decl: &str, name: Option<&str>, alias: Option<&str>) -> Stmt {
    Stmt::AtDecl(decl.to_string(), name.map(|s| s.to_string()), None, None, alias.map(|s| s.to_string()))
}

#[test]
fn table_last_insert_wins() {
    let mut t: Table<i32> = Table::new();
    assert!(t.get("a").is_none());
    t.insert("a".to_string(), 1);
    t.insert("b".to_string(), 2);
    t.insert("a".to_string(), 3);
    assert_eq!(t.get("a"), Some(&3));
    assert_eq!(t.get("b"), Some(&2));
    assert!(t.contains_key("b"));
    assert!(!t.contains_key("c"));
    if let Some(v) = t.get_mut("b") {
        *v = 7;
    }
    assert_eq!(t.get("b"), Some(&7));
}

#[test]
fn qualified_names_carry_module_number() {
    assert_eq!(qualify_name("Point", 0), "Point.0");
    assert_eq!(qualify_name("add", 12), "add.12");
    match qualify_type(&Type::StructLiteral("P".to_string()), 3) {
        Type::StructLiteral(n) => assert_eq!(n, "P.3"),
        other => panic!("unexpected {other:?}"),
    }
    match qualify_type(&Type::Pointer(Box::new(Type::StructLiteral("P".to_string()))), 1) {
        Type::Pointer(inner) => assert!(matches!(*inner, Type::StructLiteral(ref n) if n == "P.1")),
        other => panic!("unexpected {other:?}"),
    }
    assert!(matches!(qualify_type(&Type::Int, 5), Type::Int));
}

#[test]
fn resolve_name_cases() {
    let mut manager = AliasManager::new();
    manager.register_module("/src/main.qu".to_string());
    manager.register_module("/src/math.qu".to_string());
    let mut main = QuorFile::new("/src/main.qu".to_string(), 0);
    main.aliases.insert("m".to_string(), "/src/math.qu".to_string());
    let locals = vec!["x".to_string()];
    assert_eq!(main.resolve_name("x", &manager, &locals), "x");
    assert_eq!(main.resolve_name("y", &manager, &locals), "y.0");
    assert_eq!(main.resolve_name("m::add", &manager, &locals), "add.1");
    assert_eq!(main.resolve_name("q::add", &manager, &locals), "q::add");
    assert_eq!(main.resolve_name("a::b::c", &manager, &locals), "a::b::c");
}

#[test]
fn manager_lookups_through_aliases() {
    let mut manager = AliasManager::new();
    let mut symbols = ModuleSymbols::new();
    symbols.functions.insert("add.0".to_string(), (vec![Type::Int, Type::Int], Type::Int, vec![]));
    symbols.structs.insert("P.0".to_string(), false);
    manager.register_file("/lib/math.qu".to_string(), symbols, Table::new());
    let mut aliases = Table::new();
    aliases.insert("m".to_string(), "/lib/math.qu".to_string());
    manager.register_file("/lib/main.qu".to_string(), ModuleSymbols::new(), aliases);
    let main = "/lib/main.qu".to_string();
    let m = "m".to_string();
    assert!(manager.is_viable_func(&main, &m, &"add.0".to_string()));
    assert!(!manager.is_viable_func(&main, &m, &"sub.0".to_string()));
    assert!(manager.is_viable_struct(&main, &m, &"P.0".to_string()));
    assert_eq!(manager.get_struct_is_union(&main, &m, &"P.0".to_string()), Some(&false));
    let info = manager.get_function_info(&main, &m, &"add.0".to_string()).expect("function");
    assert_eq!(info.0.len(), 2);
    assert!(manager.get_module(&"/lib/math.qu".to_string()).is_some());
    assert!(manager.get_module(&"/lib/none.qu".to_string()).is_none());
}

#[test]
fn first_pass_qualifies_and_records() {
    let mut file = QuorFile::new("/p/main.qu".to_string(), 4);
    let mut resolved = Table::new();
    resolved.insert("util.qu".to_string(), "/p/lib/util.qu".to_string());
    let stmts = vec![
        Stmt::FunDecl {
            name: "f".to_string(),
            params: vec![("a".to_string(), Type::StructLiteral("P".to_string()))],
            return_type: Type::Int,
            body: vec![],
            attributes: vec!["inline".to_string()],
        },
        Stmt::StructDecl { name: "P".to_string(), instances: vec![("x".to_string(), Type::Int)], union: false },
        at("import", Some("util.qu"), None),
        at("import", Some("util.qu"), Some("u")),
        Stmt::AtDecl("const".to_string(), Some("K".to_string()), Some(Expr::IntLiteral(3)), None, None),
    ];
    let out = file.determine_symbols_stmts_first_pass(stmts, &resolved).expect("every import is resolved");
    assert_eq!(out.len(), 5);
    match &out[0] {
        Stmt::FunDecl { name, params, .. } => {
            assert_eq!(name, "f.4");
            assert!(matches!(&params[0].1, Type::StructLiteral(n) if n == "P.4"));
        }
        other => panic!("unexpected {other:?}"),
    }
    assert!(matches!(&out[1], Stmt::StructDecl { name, .. } if name == "P.4"));
    assert!(matches!(&out[2], Stmt::AtDecl(_, _, _, _, Some(a)) if a == "util"));
    assert!(matches!(&out[3], Stmt::AtDecl(_, _, _, _, Some(a)) if a == "u"));
    assert!(matches!(&out[4], Stmt::AtDecl(_, Some(n), _, _, _) if n == "K.4"));
    assert!(file.symbols.lookup_fn("f.4").is_some());
    assert_eq!(file.symbols.lookup_struct("P.4"), Some(&false));
    assert!(matches!(file.symbols.lookup_global("K.4"), Some(Type::Int)));
    assert_eq!(file.aliases.get("util"), Some(&"/p/lib/util.qu".to_string()));
    assert_eq!(file.aliases.get("u"), Some(&"/p/lib/util.qu".to_string()));
}

#[test]
fn first_pass_reports_unresolved_import() {
    let mut file = QuorFile::new("/p/main.qu".to_string(), 0);
    let resolved = Table::new();
    let stmts = vec![Stmt::Block(vec![at("import", Some("gone.qu"), None)])];
    let r = file.determine_symbols_stmts_first_pass(stmts, &resolved);
    assert_eq!(r.err(), Some("gone.qu".to_string()));
}

#[test]
fn second_pass_resolves_names_and_scopes() {
    let mut manager = AliasManager::new();
    manager.register_module("/p/main.qu".to_string());
    let file = QuorFile::new("/p/main.qu".to_string(), 0);
    let stmts = vec![
        Stmt::VarDecl { name: "x".to_string(), var_type: Type::Int, value: Expr::Variable("g".to_string(), Type::Int) },
        Stmt::Expression(Expr::Variable("x".to_string(), Type::Int)),
    ];
    let mut scope: Vec<String> = Vec::new();
    let out = file.determine_symbols_stmts_second_pass(stmts, &mut scope, &manager);
    assert_eq!(scope, vec!["x".to_string()]);
    assert!(matches!(&out[0], Stmt::VarDecl { value: Expr::Variable(n, _), .. } if n == "g.0"));
    assert!(matches!(&out[1], Stmt::Expression(Expr::Variable(n, _)) if n == "x"));
}

#[test]
fn names_present_check() {
    assert!(first_pass_names_present(&vec![at("import", Some("a.qu"), None), at("other", None, None)]));
    assert!(!first_pass_names_present(&vec![Stmt::Block(vec![at("const", None, None)])]));
    assert!(!first_pass_names_present(&vec![at("import", None, None)]));
}

#[test]
fn scopes_shadow_and_restore() {
    let mut tc = lib::analyzer::TypeChecker::new();
    assert!(tc.declare_var("x", Type::Int).is_ok());
    assert_eq!(
        tc.declare_var("x", Type::Bool).err(),
        Some("Variable 'x' already declared in this scope".to_string())
    );
    tc.enter_scope();
    assert!(tc.declare_var("x", Type::Bool).is_ok());
    assert!(matches!(tc.lookup_var("x"), Some(Type::Bool)));
    tc.exit_scope();
    assert!(matches!(tc.lookup_var("x"), Some(Type::Int)));
    assert!(tc.lookup_var("y").is_none());
    assert!(tc.lookup_fn("f").is_none());
    assert!(tc.declare_fn("f", vec![Type::Int], Type::Void).is_ok());
    assert!(matches!(tc.lookup_fn("f"), Some((ps, Type::Void)) if ps.len() == 1));
}
