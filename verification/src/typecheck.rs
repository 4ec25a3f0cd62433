use vstd::prelude::*;

use crate::analyzer::{TypeChecker, lookup_in};
use crate::alias::Table;
use crate::ast::{
    Stmt, StmtV, lemma_list_views_empty, lemma_list_views_push, lemma_stmt_lists_view, lemma_stmts_view_index,
    stmt_view, stmts_view,
    BinaryOp, Expr, ExprV, Type, TypeV, UnaryOp, base_type, duplicate_fields, expr_view, exprs_view, fields_view,
    lemma_array_view, lemma_call_view, lemma_exprs_view, lemma_named_exprs_view, lemma_struct_init_view,
    lemma_struct_view, named_exprs_view, spec_base_type, type_view,
};
use crate::first_pass::{names_view, types_view};
use crate::alias::{decimal, push_decimal};
use crate::lexer::{str_chars, string_push};

verus! {

/// Why a program does not type-check.
#[derive(Debug)]
pub enum TypeError {
    UndeclaredVariable { name: String },
    AssignToUndeclared { name: String },
    AssignMismatch { name: String, expected: Type, found: Type },
    BinaryMismatch { left: Type, right: Type },
    ArithmeticNeedsNumbers { found: Type },
    ComparisonNeedsNumbers { found: Type },
    LogicalNeedsBools,
    NotNeedsBool,
    NegateNeedsNumber,
    DerefNonPointer,
    UndefinedFunction { name: String },
    ArgumentCount { name: String, expected: usize, got: usize },
    ArgumentMismatch { name: String, expected: Type, got: Type },
    InvalidCast { from: Type, to: Type },
    EmptyArray,
    ArrayElementMismatch,
    IndexNotInt,
    ArrayTypeError,
    IndexOutOfBounds,
    DerefAssignMismatch { expected: Type, found: Type },
    AssignThroughNonPointer,
    UndefinedClass { name: String },
    DuplicateField { field: String },
    NoSuchField { class: String, field: String },
    FieldMismatch { field: String, expected: Type, got: Type },
    MissingInitializer { class: String, field: String },
    UnknownVariable { name: String },
    UnknownField { field: String, class: String },
    NotAnInstance { name: String },
    FieldAssignMismatch { class: String, field: String },
    UnsupportedExpression,
    UnknownDeclaration { decl: String },
    DeclarationClassMismatch { name: String, expected: String, found: String },
    DeclarationNotClass { name: String, expected: String, found: Type },
    DeclarationMismatch { name: String, expected: Type, found: Type },
    ArraySizeMismatch { name: String, expected: usize, found: usize },
    VariableRedeclared { name: String },
    MissingReturn { name: String, return_type: Type },
    IfConditionNotBool,
    WhileConditionNotBool,
    ReturnMismatch { expected: Type, found: Type },
    ReturnOutsideFunction,
    BreakOutsideLoop,
    ContinueOutsideLoop,
    InstancesShareName,
    FunctionRedeclared { name: String },
}

/// The model of a `TypeError`.
pub enum TypeErrorV {
    UndeclaredVariable { name: Seq<char> },
    AssignToUndeclared { name: Seq<char> },
    AssignMismatch { name: Seq<char>, expected: TypeV, found: TypeV },
    BinaryMismatch { left: TypeV, right: TypeV },
    ArithmeticNeedsNumbers { found: TypeV },
    ComparisonNeedsNumbers { found: TypeV },
    LogicalNeedsBools,
    NotNeedsBool,
    NegateNeedsNumber,
    DerefNonPointer,
    UndefinedFunction { name: Seq<char> },
    ArgumentCount { name: Seq<char>, expected: nat, got: nat },
    ArgumentMismatch { name: Seq<char>, expected: TypeV, got: TypeV },
    InvalidCast { from: TypeV, to: TypeV },
    EmptyArray,
    ArrayElementMismatch,
    IndexNotInt,
    ArrayTypeError,
    IndexOutOfBounds,
    DerefAssignMismatch { expected: TypeV, found: TypeV },
    AssignThroughNonPointer,
    UndefinedClass { name: Seq<char> },
    DuplicateField { field: Seq<char> },
    NoSuchField { class: Seq<char>, field: Seq<char> },
    FieldMismatch { field: Seq<char>, expected: TypeV, got: TypeV },
    MissingInitializer { class: Seq<char>, field: Seq<char> },
    UnknownVariable { name: Seq<char> },
    UnknownField { field: Seq<char>, class: Seq<char> },
    NotAnInstance { name: Seq<char> },
    FieldAssignMismatch { class: Seq<char>, field: Seq<char> },
    UnsupportedExpression,
    UnknownDeclaration { decl: Seq<char> },
    DeclarationClassMismatch { name: Seq<char>, expected: Seq<char>, found: Seq<char> },
    DeclarationNotClass { name: Seq<char>, expected: Seq<char>, found: TypeV },
    DeclarationMismatch { name: Seq<char>, expected: TypeV, found: TypeV },
    ArraySizeMismatch { name: Seq<char>, expected: nat, found: nat },
    VariableRedeclared { name: Seq<char> },
    MissingReturn { name: Seq<char>, return_type: TypeV },
    IfConditionNotBool,
    WhileConditionNotBool,
    ReturnMismatch { expected: TypeV, found: TypeV },
    ReturnOutsideFunction,
    BreakOutsideLoop,
    ContinueOutsideLoop,
    InstancesShareName,
    FunctionRedeclared { name: Seq<char> },
}

impl View for TypeError {
    type V = TypeErrorV;

    open spec fn view(&self) -> TypeErrorV {
        match self {
            TypeError::UndeclaredVariable { name } => TypeErrorV::UndeclaredVariable { name: name@ },
            TypeError::AssignToUndeclared { name } => TypeErrorV::AssignToUndeclared { name: name@ },
            TypeError::AssignMismatch { name, expected, found } => TypeErrorV::AssignMismatch { name: name@, expected: expected@, found: found@ },
            TypeError::BinaryMismatch { left, right } => TypeErrorV::BinaryMismatch { left: left@, right: right@ },
            TypeError::ArithmeticNeedsNumbers { found } => TypeErrorV::ArithmeticNeedsNumbers { found: found@ },
            TypeError::ComparisonNeedsNumbers { found } => TypeErrorV::ComparisonNeedsNumbers { found: found@ },
            TypeError::LogicalNeedsBools => TypeErrorV::LogicalNeedsBools,
            TypeError::NotNeedsBool => TypeErrorV::NotNeedsBool,
            TypeError::NegateNeedsNumber => TypeErrorV::NegateNeedsNumber,
            TypeError::DerefNonPointer => TypeErrorV::DerefNonPointer,
            TypeError::UndefinedFunction { name } => TypeErrorV::UndefinedFunction { name: name@ },
            TypeError::ArgumentCount { name, expected, got } => TypeErrorV::ArgumentCount { name: name@, expected: *expected as nat, got: *got as nat },
            TypeError::ArgumentMismatch { name, expected, got } => TypeErrorV::ArgumentMismatch { name: name@, expected: expected@, got: got@ },
            TypeError::InvalidCast { from, to } => TypeErrorV::InvalidCast { from: from@, to: to@ },
            TypeError::EmptyArray => TypeErrorV::EmptyArray,
            TypeError::ArrayElementMismatch => TypeErrorV::ArrayElementMismatch,
            TypeError::IndexNotInt => TypeErrorV::IndexNotInt,
            TypeError::ArrayTypeError => TypeErrorV::ArrayTypeError,
            TypeError::IndexOutOfBounds => TypeErrorV::IndexOutOfBounds,
            TypeError::DerefAssignMismatch { expected, found } => TypeErrorV::DerefAssignMismatch { expected: expected@, found: found@ },
            TypeError::AssignThroughNonPointer => TypeErrorV::AssignThroughNonPointer,
            TypeError::UndefinedClass { name } => TypeErrorV::UndefinedClass { name: name@ },
            TypeError::DuplicateField { field } => TypeErrorV::DuplicateField { field: field@ },
            TypeError::NoSuchField { class, field } => TypeErrorV::NoSuchField { class: class@, field: field@ },
            TypeError::FieldMismatch { field, expected, got } => TypeErrorV::FieldMismatch { field: field@, expected: expected@, got: got@ },
            TypeError::MissingInitializer { class, field } => TypeErrorV::MissingInitializer { class: class@, field: field@ },
            TypeError::UnknownVariable { name } => TypeErrorV::UnknownVariable { name: name@ },
            TypeError::UnknownField { field, class } => TypeErrorV::UnknownField { field: field@, class: class@ },
            TypeError::NotAnInstance { name } => TypeErrorV::NotAnInstance { name: name@ },
            TypeError::FieldAssignMismatch { class, field } => TypeErrorV::FieldAssignMismatch { class: class@, field: field@ },
            TypeError::UnsupportedExpression => TypeErrorV::UnsupportedExpression,
            TypeError::UnknownDeclaration { decl } => TypeErrorV::UnknownDeclaration { decl: decl@ },
            TypeError::DeclarationClassMismatch { name, expected, found } => TypeErrorV::DeclarationClassMismatch { name: name@, expected: expected@, found: found@ },
            TypeError::DeclarationNotClass { name, expected, found } => TypeErrorV::DeclarationNotClass { name: name@, expected: expected@, found: found@ },
            TypeError::DeclarationMismatch { name, expected, found } => TypeErrorV::DeclarationMismatch { name: name@, expected: expected@, found: found@ },
            TypeError::ArraySizeMismatch { name, expected, found } => TypeErrorV::ArraySizeMismatch { name: name@, expected: *expected as nat, found: *found as nat },
            TypeError::VariableRedeclared { name } => TypeErrorV::VariableRedeclared { name: name@ },
            TypeError::MissingReturn { name, return_type } => TypeErrorV::MissingReturn { name: name@, return_type: return_type@ },
            TypeError::IfConditionNotBool => TypeErrorV::IfConditionNotBool,
            TypeError::WhileConditionNotBool => TypeErrorV::WhileConditionNotBool,
            TypeError::ReturnMismatch { expected, found } => TypeErrorV::ReturnMismatch { expected: expected@, found: found@ },
            TypeError::ReturnOutsideFunction => TypeErrorV::ReturnOutsideFunction,
            TypeError::BreakOutsideLoop => TypeErrorV::BreakOutsideLoop,
            TypeError::ContinueOutsideLoop => TypeErrorV::ContinueOutsideLoop,
            TypeError::InstancesShareName => TypeErrorV::InstancesShareName,
            TypeError::FunctionRedeclared { name } => TypeErrorV::FunctionRedeclared { name: name@ },
        }
    }
}

/// What type checking sees of the checker: the scopes of variables (innermost last), the
/// functions, the classes with their fields, the return type of the function being
/// checked and whether a loop is open.
pub struct TcModel {
    pub vars: Seq<Map<Seq<char>, TypeV>>,
    pub fns: Map<Seq<char>, (Seq<TypeV>, TypeV)>,
    pub classes: Seq<Seq<char>>,
    pub fields: Map<Seq<char>, Seq<(Seq<char>, TypeV)>>,
    pub ret: Option<TypeV>,
    pub in_loop: bool,
}

/// The result of checking: a value, an error, or a panic of the checker.
pub enum Outcome<T> {
    Done(T),
    Fail(TypeErrorV),
    Panic,
}

/// The type `name` has in the innermost scope that declares it.
pub open spec fn lookup_v(vars: Seq<Map<Seq<char>, TypeV>>, name: Seq<char>) -> Option<TypeV>
    decreases vars.len(),
{
    if vars.len() == 0 {
        None
    } else if vars.last().contains_key(name) {
        Some(vars.last()[name])
    } else {
        lookup_v(vars.drop_last(), name)
    }
}

pub open spec fn is_numeric(t: TypeV) -> bool {
    t == TypeV::Int || t == TypeV::Float
}

/// The type of a string literal: a `string` struct holding its characters.
pub open spec fn string_type() -> TypeV {
    TypeV::Struct {
        name: "string"@,
        instances: seq![("chars"@, TypeV::Array(Box::new(TypeV::Char), None))],
    }
}

/// The type of the first field named `f`.
pub open spec fn field_type_of(fs: Seq<(Seq<char>, TypeV)>, f: Seq<char>) -> Option<TypeV>
    decreases fs.len(),
{
    if fs.len() == 0 {
        None
    } else if fs[0].0 == f {
        Some(fs[0].1)
    } else {
        field_type_of(fs.skip(1), f)
    }
}

/// The type of the last field named `f`.
pub open spec fn last_field_type(fs: Seq<(Seq<char>, TypeV)>, f: Seq<char>) -> Option<TypeV>
    decreases fs.len(),
{
    if fs.len() == 0 {
        None
    } else if fs.last().0 == f {
        Some(fs.last().1)
    } else {
        last_field_type(fs.drop_last(), f)
    }
}

/// The name of the first field not among `seen`.
pub open spec fn first_missing_field(fs: Seq<(Seq<char>, TypeV)>, seen: Seq<Seq<char>>) -> Option<Seq<char>>
    decreases fs.len(),
{
    if fs.len() == 0 {
        None
    } else if !seen.contains(fs[0].0) {
        Some(fs[0].0)
    } else {
        first_missing_field(fs.skip(1), seen)
    }
}

/// A struct type with its fields erased; any other type as it is.
pub open spec fn erase_fields(t: TypeV) -> TypeV {
    match t {
        TypeV::Struct { name, .. } => TypeV::Struct { name, instances: Seq::empty() },
        _ => t,
    }
}

/// Whether a cast from `from` to `to` is allowed: between `int` and `float`, between
/// `char` and `int`, or to the same type.
pub open spec fn cast_ok(from: TypeV, to: TypeV) -> bool {
    ||| (from == TypeV::Int && to == TypeV::Float)
    ||| (from == TypeV::Float && to == TypeV::Int)
    ||| (from == TypeV::Char && to == TypeV::Int)
    ||| (from == TypeV::Int && to == TypeV::Char)
    ||| from == to
}

/// The field `field` of the struct `sname`, reached through the variable `class_name`.
pub open spec fn struct_field(m: TcModel, sname: Seq<char>, field: Seq<char>, class_name: Seq<char>) -> Outcome<TypeV> {
    if !m.fields.contains_key(sname) {
        Outcome::Panic
    } else {
        match field_type_of(m.fields[sname], field) {
            Some(t) => Outcome::Done(t),
            None => Outcome::Fail(TypeErrorV::UnknownField { field, class: class_name }),
        }
    }
}

/// The type of `class_name.field`: the variable must hold a struct or a pointer to one.
pub open spec fn instance_of(m: TcModel, class_name: Seq<char>, field: Seq<char>) -> Outcome<TypeV> {
    match lookup_v(m.vars, class_name) {
        None => Outcome::Fail(TypeErrorV::UnknownVariable { name: class_name }),
        Some(TypeV::Pointer(inner)) => match *inner {
            TypeV::Struct { name, .. } => struct_field(m, name, field, class_name),
            _ => Outcome::Fail(TypeErrorV::NotAnInstance { name: class_name }),
        },
        Some(TypeV::Struct { name, .. }) => struct_field(m, name, field, class_name),
        Some(_) => Outcome::Fail(TypeErrorV::NotAnInstance { name: class_name }),
    }
}

pub open spec fn binary_result(op: BinaryOp, t: TypeV) -> Outcome<TypeV> {
    match op {
        BinaryOp::Add | BinaryOp::Sub | BinaryOp::Mul | BinaryOp::Div | BinaryOp::Mod => if !is_numeric(t) {
            Outcome::Fail(TypeErrorV::ArithmeticNeedsNumbers { found: t })
        } else {
            Outcome::Done(t)
        },
        BinaryOp::Equal | BinaryOp::NotEqual => Outcome::Done(TypeV::Bool),
        BinaryOp::Less | BinaryOp::LessEqual | BinaryOp::Greater | BinaryOp::GreaterEqual => if !is_numeric(t) {
            Outcome::Fail(TypeErrorV::ComparisonNeedsNumbers { found: t })
        } else {
            Outcome::Done(TypeV::Bool)
        },
        BinaryOp::And | BinaryOp::Or => if t != TypeV::Bool {
            Outcome::Fail(TypeErrorV::LogicalNeedsBools)
        } else {
            Outcome::Done(TypeV::Bool)
        },
    }
}

pub open spec fn unary_result(op: UnaryOp, t: TypeV) -> Outcome<TypeV> {
    match op {
        UnaryOp::Not => if t != TypeV::Bool {
            Outcome::Fail(TypeErrorV::NotNeedsBool)
        } else {
            Outcome::Done(TypeV::Bool)
        },
        UnaryOp::Negate => if !is_numeric(t) {
            Outcome::Fail(TypeErrorV::NegateNeedsNumber)
        } else {
            Outcome::Done(t)
        },
        UnaryOp::AddressOf => Outcome::Done(TypeV::Pointer(Box::new(t))),
        UnaryOp::Dereference => match t {
            TypeV::Pointer(inner) => Outcome::Done(*inner),
            _ => Outcome::Fail(TypeErrorV::DerefNonPointer),
        },
    }
}

/// The type of an element of the array variable `name`, indexed by `index`.
pub open spec fn array_access(m: TcModel, name: Seq<char>, index: ExprV) -> Outcome<TypeV> {
    match lookup_v(m.vars, name) {
        None => Outcome::Fail(TypeErrorV::UndeclaredVariable { name }),
        Some(TypeV::Array(ty, len)) => match (index, len) {
            (ExprV::IntLiteral(n), Some(l)) => if l > i32::MAX {
                Outcome::Panic
            } else if n >= l {
                Outcome::Fail(TypeErrorV::IndexOutOfBounds)
            } else {
                Outcome::Done(*ty)
            },
            _ => Outcome::Done(*ty),
        },
        Some(_) => Outcome::Fail(TypeErrorV::ArrayTypeError),
    }
}

/// The type of an expression in the checker's state `m`.
pub open spec fn spec_check_expr(m: TcModel, e: ExprV) -> Outcome<TypeV>
    decreases e,
{
    match e {
        ExprV::FieldAssign { class_name, field, value } => match instance_of(m, class_name, field) {
            Outcome::Done(ty) => match spec_check_expr(m, *value) {
                Outcome::Done(vt) => if ty != vt {
                    Outcome::Fail(TypeErrorV::FieldAssignMismatch { class: class_name, field })
                } else {
                    Outcome::Done(ty)
                },
                other => other,
            },
            other => other,
        },
        ExprV::StringLiteral(_) => Outcome::Done(string_type()),
        ExprV::BoolLiteral(_) => Outcome::Done(TypeV::Bool),
        ExprV::IntLiteral(_) => Outcome::Done(TypeV::Int),
        ExprV::LongLiteral(_) => Outcome::Done(TypeV::Long),
        ExprV::FloatLiteral(_) => Outcome::Done(TypeV::Float),
        ExprV::CharLiteral(_) => Outcome::Done(TypeV::Char),
        ExprV::Variable(name, _) => match lookup_v(m.vars, name) {
            Some(t) => Outcome::Done(t),
            None => Outcome::Fail(TypeErrorV::UndeclaredVariable { name }),
        },
        ExprV::Assign { name, value } => match spec_check_expr(m, *value) {
            Outcome::Done(vt) => match lookup_v(m.vars, name) {
                None => Outcome::Fail(TypeErrorV::AssignToUndeclared { name }),
                Some(var) => if vt != var {
                    Outcome::Fail(TypeErrorV::AssignMismatch { name, expected: var, found: vt })
                } else {
                    Outcome::Done(vt)
                },
            },
            other => other,
        },
        ExprV::Binary { left, op, right, .. } => match spec_check_expr(m, *left) {
            Outcome::Done(lt) => match spec_check_expr(m, *right) {
                Outcome::Done(rt) => if lt != rt {
                    Outcome::Fail(TypeErrorV::BinaryMismatch { left: lt, right: rt })
                } else {
                    binary_result(op, lt)
                },
                other => other,
            },
            other => other,
        },
        ExprV::Unary { op, expr, .. } => match spec_check_expr(m, *expr) {
            Outcome::Done(t) => unary_result(op, t),
            other => other,
        },
        ExprV::Call { name, args, .. } => if !m.fns.contains_key(name) {
            Outcome::Fail(TypeErrorV::UndefinedFunction { name })
        } else if m.fns[name].0.len() != args.len() {
            Outcome::Fail(TypeErrorV::ArgumentCount { name, expected: m.fns[name].0.len(), got: args.len() })
        } else {
            match spec_check_args(m, name, m.fns[name].0, args) {
                Outcome::Done(_) => Outcome::Done(m.fns[name].1),
                Outcome::Fail(x) => Outcome::Fail(x),
                Outcome::Panic => Outcome::Panic,
            }
        },
        ExprV::Cast { expr, target_type } => match spec_check_expr(m, *expr) {
            Outcome::Done(t) => if cast_ok(t, target_type) {
                Outcome::Done(target_type)
            } else {
                Outcome::Fail(TypeErrorV::InvalidCast { from: t, to: target_type })
            },
            other => other,
        },
        ExprV::Array(es, elem) => if es.len() == 0 {
            Outcome::Fail(TypeErrorV::EmptyArray)
        } else {
            match spec_check_elems(m, elem, es) {
                Outcome::Done(_) => Outcome::Done(TypeV::Array(Box::new(elem), Some(es.len() as usize))),
                Outcome::Fail(x) => Outcome::Fail(x),
                Outcome::Panic => Outcome::Panic,
            }
        },
        ExprV::ArrayAccess { array, index } => match spec_check_expr(m, *index) {
            Outcome::Done(it) => if it != TypeV::Int {
                Outcome::Fail(TypeErrorV::IndexNotInt)
            } else {
                match *array {
                    ExprV::Variable(name, _) => array_access(m, name, *index),
                    _ => Outcome::Fail(TypeErrorV::ArrayTypeError),
                }
            },
            other => other,
        },
        ExprV::AddressOf(x) => match spec_check_expr(m, *x) {
            Outcome::Done(t) => Outcome::Done(TypeV::Pointer(Box::new(t))),
            other => other,
        },
        ExprV::DerefAssign { target, value } => match spec_check_expr(m, *target) {
            Outcome::Done(TypeV::Pointer(inner)) => match spec_check_expr(m, *value) {
                Outcome::Done(vt) => if vt != *inner {
                    Outcome::Fail(TypeErrorV::DerefAssignMismatch { expected: *inner, found: vt })
                } else {
                    Outcome::Done(*inner)
                },
                other => other,
            },
            Outcome::Done(_) => Outcome::Fail(TypeErrorV::AssignThroughNonPointer),
            other => other,
        },
        ExprV::StructInit { name, params } => if !m.fields.contains_key(name) {
            Outcome::Fail(TypeErrorV::UndefinedClass { name })
        } else {
            match spec_check_inits(m, name, m.fields[name], params, Seq::empty()) {
                Outcome::Done(seen) => match first_missing_field(m.fields[name], seen) {
                    Some(f) => Outcome::Fail(TypeErrorV::MissingInitializer { class: name, field: f }),
                    None => Outcome::Done(TypeV::Struct { name, instances: m.fields[name] }),
                },
                Outcome::Fail(x) => Outcome::Fail(x),
                Outcome::Panic => Outcome::Panic,
            }
        },
        ExprV::InstanceVar(class_name, field) => instance_of(m, class_name, field),
        _ => Outcome::Fail(TypeErrorV::UnsupportedExpression),
    }
}

/// The arguments of a call checked in order against the parameter types, each argument's
/// type taken without array lengths or struct fields.
pub open spec fn spec_check_args(m: TcModel, name: Seq<char>, ps: Seq<TypeV>, args: Seq<ExprV>) -> Outcome<()>
    decreases args,
{
    if args.len() == 0 || ps.len() == 0 {
        Outcome::Done(())
    } else {
        match spec_check_expr(m, args[0]) {
            Outcome::Done(t) => if spec_base_type(t) != ps[0] {
                Outcome::Fail(TypeErrorV::ArgumentMismatch { name, expected: ps[0], got: spec_base_type(t) })
            } else {
                spec_check_args(m, name, ps.skip(1), args.skip(1))
            },
            Outcome::Fail(x) => Outcome::Fail(x),
            Outcome::Panic => Outcome::Panic,
        }
    }
}

/// The elements of an array literal checked in order against its element type.
pub open spec fn spec_check_elems(m: TcModel, elem: TypeV, es: Seq<ExprV>) -> Outcome<()>
    decreases es,
{
    if es.len() == 0 {
        Outcome::Done(())
    } else {
        match spec_check_expr(m, es[0]) {
            Outcome::Done(t) => if t != elem {
                Outcome::Fail(TypeErrorV::ArrayElementMismatch)
            } else {
                spec_check_elems(m, elem, es.skip(1))
            },
            Outcome::Fail(x) => Outcome::Fail(x),
            Outcome::Panic => Outcome::Panic,
        }
    }
}

/// The initializers of a struct literal checked in order: no field twice, every field
/// declared, and each value of the field's type (arrays of any length, structs by name);
/// the result is the set of fields initialized.
pub open spec fn spec_check_inits(
    m: TcModel,
    sname: Seq<char>,
    fs: Seq<(Seq<char>, TypeV)>,
    params: Seq<(Seq<char>, ExprV)>,
    seen: Seq<Seq<char>>,
) -> Outcome<Seq<Seq<char>>>
    decreases params,
{
    if params.len() == 0 {
        Outcome::Done(seen)
    } else {
        let fname = params[0].0;
        if seen.contains(fname) {
            Outcome::Fail(TypeErrorV::DuplicateField { field: fname })
        } else {
            match last_field_type(fs, fname) {
                None => Outcome::Fail(TypeErrorV::NoSuchField { class: sname, field: fname }),
                Some(expected) => match spec_check_expr(m, params[0].1) {
                    Outcome::Done(got) => if !(erase_fields(got) is Array) && erase_fields(got) != expected {
                        Outcome::Fail(TypeErrorV::FieldMismatch { field: fname, expected, got: erase_fields(got) })
                    } else {
                        spec_check_inits(m, sname, fs, params.skip(1), seen.push(fname))
                    },
                    Outcome::Fail(x) => Outcome::Fail(x),
                    Outcome::Panic => Outcome::Panic,
                },
            }
        }
    }
}

/// A failure or panic carried over to an outcome of another type.
pub open spec fn carry<A, B>(o: Outcome<A>) -> Outcome<B> {
    match o {
        Outcome::Fail(x) => Outcome::Fail(x),
        _ => Outcome::Panic,
    }
}

pub open spec fn with_vars(m: TcModel, vars: Seq<Map<Seq<char>, TypeV>>) -> TcModel {
    TcModel { vars, fns: m.fns, classes: m.classes, fields: m.fields, ret: m.ret, in_loop: m.in_loop }
}

pub open spec fn with_ret(m: TcModel, ret: Option<TypeV>) -> TcModel {
    TcModel { vars: m.vars, fns: m.fns, classes: m.classes, fields: m.fields, ret, in_loop: m.in_loop }
}

pub open spec fn with_loop(m: TcModel, in_loop: bool) -> TcModel {
    TcModel { vars: m.vars, fns: m.fns, classes: m.classes, fields: m.fields, ret: m.ret, in_loop }
}

pub open spec fn with_fn(m: TcModel, name: Seq<char>, sig: (Seq<TypeV>, TypeV)) -> TcModel {
    TcModel { vars: m.vars, fns: m.fns.insert(name, sig), classes: m.classes, fields: m.fields, ret: m.ret, in_loop: m.in_loop }
}

/// The checker with a new, empty innermost scope.
pub open spec fn entered(m: TcModel) -> TcModel {
    with_vars(m, m.vars.push(Map::empty()))
}

/// The checker with `name` of type `t` declared in its innermost scope, or why not.
pub open spec fn declare_in(m: TcModel, name: Seq<char>, t: TypeV) -> (TcModel, Outcome<()>) {
    if m.vars.len() == 0 {
        (m, Outcome::Panic)
    } else if m.vars.last().contains_key(name) {
        (m, Outcome::Fail(TypeErrorV::VariableRedeclared { name }))
    } else {
        (with_vars(m, m.vars.update(m.vars.len() - 1, m.vars.last().insert(name, t))), Outcome::Done(()))
    }
}

/// The parameters of a function declared in order.
pub open spec fn declare_params(m: TcModel, ps: Seq<(Seq<char>, TypeV)>) -> (TcModel, Outcome<()>)
    decreases ps.len(),
{
    if ps.len() == 0 {
        (m, Outcome::Done(()))
    } else {
        let (m1, o) = declare_in(m, ps[0].0, ps[0].1);
        match o {
            Outcome::Done(_) => declare_params(m1, ps.skip(1)),
            _ => (m1, o),
        }
    }
}

/// The declared type of a variable, a struct named without fields taking its class's fields.
pub open spec fn resolve_decl_type(m: TcModel, t: TypeV) -> Outcome<TypeV> {
    match t {
        TypeV::Struct { name, instances } => if instances.len() == 0 {
            if m.fields.contains_key(name) {
                Outcome::Done(TypeV::Struct { name, instances: m.fields[name] })
            } else {
                Outcome::Fail(TypeErrorV::UndefinedClass { name })
            }
        } else {
            Outcome::Done(t)
        },
        _ => Outcome::Done(t),
    }
}

/// Whether a value of type `vt` may initialise the variable `name` declared of type
/// `resolved`: structs by name; an array value by its element type; any other value as it is.
pub open spec fn decl_value_check(name: Seq<char>, resolved: TypeV, vt: TypeV) -> Outcome<()> {
    match resolved {
        TypeV::Struct { name: cn, .. } => match vt {
            TypeV::Struct { name: vn, .. } => if cn != vn {
                Outcome::Fail(TypeErrorV::DeclarationClassMismatch { name, expected: cn, found: vn })
            } else {
                Outcome::Done(())
            },
            _ => Outcome::Fail(TypeErrorV::DeclarationNotClass { name, expected: cn, found: vt }),
        },
        _ => if vt != resolved {
            match vt {
                TypeV::Array(t1, _) => match resolved {
                    TypeV::Array(t, _) => if t1 != t {
                        Outcome::Fail(TypeErrorV::DeclarationMismatch { name, expected: resolved, found: vt })
                    } else {
                        Outcome::Done(())
                    },
                    _ => Outcome::Fail(TypeErrorV::DeclarationMismatch { name, expected: resolved, found: vt }),
                },
                _ => Outcome::Done(()),
            }
        } else {
            Outcome::Done(())
        },
    }
}

/// An array literal given to an array variable has as many elements as its declared length.
pub open spec fn array_size_check(name: Seq<char>, var_type: TypeV, value: ExprV) -> Outcome<()> {
    match (var_type, value) {
        (TypeV::Array(_, size), ExprV::Array(elems, _)) => match size {
            None => Outcome::Panic,
            Some(n) => if elems.len() != 0 && elems.len() != n {
                Outcome::Fail(TypeErrorV::ArraySizeMismatch { name, expected: n as nat, found: elems.len() })
            } else {
                Outcome::Done(())
            },
        },
        _ => Outcome::Done(()),
    }
}

/// Whether one of the statements is a `return`.
pub open spec fn has_return(ss: Seq<StmtV>) -> bool {
    exists|i: int| 0 <= i < ss.len() && ss[i] is Return
}

/// Whether two of the fields share a name.
pub open spec fn fields_share_name(fs: Seq<(Seq<char>, TypeV)>) -> bool {
    exists|i: int, j: int| 0 <= i < fs.len() && 0 <= j < fs.len() && i != j && fs[i].0 == fs[j].0
}

/// The checker after a closed scope, or a panic when only the global scope is open.
pub open spec fn exited(m: TcModel) -> Option<TcModel> {
    if m.vars.len() <= 1 {
        None
    } else {
        Some(with_vars(m, m.vars.drop_last()))
    }
}

/// The checker's state after checking `s` in state `m`, and the checked statement: a
/// variable declared with a struct type named without fields takes its class's fields.
pub open spec fn spec_check_stmt(m: TcModel, s: StmtV) -> (TcModel, Outcome<StmtV>)
    decreases s,
{
    match s {
        StmtV::AtDecl(decl, _, _, _, _) => if decl == "import"@ || decl == "public"@ || decl == "private"@ {
            (m, Outcome::Done(s))
        } else {
            (m, Outcome::Fail(TypeErrorV::UnknownDeclaration { decl }))
        },
        StmtV::VarDecl { name, var_type, value } => match resolve_decl_type(m, var_type) {
            Outcome::Done(resolved) => match spec_check_expr(m, value) {
                Outcome::Done(vt) => match decl_value_check(name, resolved, vt) {
                    Outcome::Done(_) => match array_size_check(name, var_type, value) {
                        Outcome::Done(_) => {
                            let (m1, o) = declare_in(m, name, resolved);
                            match o {
                                Outcome::Done(_) => (m1, Outcome::Done(StmtV::VarDecl { name, var_type: resolved, value })),
                                other => (m1, carry(other)),
                            }
                        },
                        other => (m, carry(other)),
                    },
                    other => (m, carry(other)),
                },
                other => (m, carry(other)),
            },
            other => (m, carry(other)),
        },
        StmtV::FunDecl { name, params, return_type, body, attributes } => {
            let m1 = with_ret(entered(with_fn(m, name, (params.map_values(|p: (Seq<char>, TypeV)| p.1), return_type))), Some(return_type));
            let (m2, o) = declare_params(m1, params);
            match o {
                Outcome::Done(_) => {
                    let (m3, ob) = spec_check_stmts(m2, body, Seq::empty());
                    match ob {
                        Outcome::Done(checked) => if return_type != TypeV::Void && !has_return(checked) {
                            (m3, Outcome::Fail(TypeErrorV::MissingReturn { name, return_type }))
                        } else {
                            match exited(m3) {
                                None => (m3, Outcome::Panic),
                                Some(m4) => (with_ret(m4, None), Outcome::Done(StmtV::FunDecl { name, params, return_type, body: checked, attributes })),
                            }
                        },
                        other => (m3, carry(other)),
                    }
                },
                other => (m2, carry(other)),
            }
        },
        StmtV::StructDecl { instances, .. } => if fields_share_name(instances) {
            (m, Outcome::Fail(TypeErrorV::InstancesShareName))
        } else {
            (m, Outcome::Done(s))
        },
        StmtV::If { condition, then_stmt, else_stmt } => match spec_check_expr(m, condition) {
            Outcome::Done(ct) => if ct != TypeV::Bool {
                (m, Outcome::Fail(TypeErrorV::IfConditionNotBool))
            } else {
                let (m1, o1) = spec_check_stmt(m, *then_stmt);
                match o1 {
                    Outcome::Done(t1) => match else_stmt {
                        None => (m1, Outcome::Done(StmtV::If { condition, then_stmt: Box::new(t1), else_stmt: None })),
                        Some(e) => {
                            let (m2, o2) = spec_check_stmt(m1, *e);
                            match o2 {
                                Outcome::Done(e1) => (m2, Outcome::Done(StmtV::If { condition, then_stmt: Box::new(t1), else_stmt: Some(Box::new(e1)) })),
                                other => (m2, other),
                            }
                        },
                    },
                    other => (m1, other),
                }
            },
            other => (m, carry(other)),
        },
        StmtV::While { condition, body } => match spec_check_expr(m, condition) {
            Outcome::Done(ct) => if ct != TypeV::Bool {
                (m, Outcome::Fail(TypeErrorV::WhileConditionNotBool))
            } else {
                let (m1, o) = spec_check_stmt(with_loop(m, true), *body);
                match o {
                    Outcome::Done(b) => (with_loop(m1, m.in_loop), Outcome::Done(StmtV::While { condition, body: Box::new(b) })),
                    other => (m1, other),
                }
            },
            other => (m, carry(other)),
        },
        StmtV::For { init, condition, update, body } => {
            let m1 = with_loop(entered(m), true);
            let (m2, oi) = match init {
                Some(i) => {
                    let (a, b) = spec_check_stmt(m1, *i);
                    (a, match b {
                        Outcome::Done(x) => Outcome::Done(Some(Box::new(x))),
                        other => carry(other),
                    })
                },
                None => (m1, Outcome::Done(None)),
            };
            match oi {
                Outcome::Done(ci) => {
                    let oc = match condition {
                        Some(c) => spec_check_expr(m2, c),
                        None => Outcome::Done(TypeV::Void),
                    };
                    let ou = match update {
                        Some(u) => spec_check_expr(m2, u),
                        None => Outcome::Done(TypeV::Void),
                    };
                    if !(oc is Done) {
                        (m2, carry(oc))
                    } else if !(ou is Done) {
                        (m2, carry(ou))
                    } else {
                        let (m3, ob) = spec_check_stmt(m2, *body);
                        match ob {
                            Outcome::Done(b) => match exited(m3) {
                                None => (m3, Outcome::Panic),
                                Some(m4) => (with_loop(m4, m.in_loop), Outcome::Done(StmtV::For { init: ci, condition, update, body: Box::new(b) })),
                            },
                            other => (m3, other),
                        }
                    }
                },
                other => (m2, carry(other)),
            }
        },
        StmtV::Block(ss) => {
            let (m1, o) = spec_check_stmts(entered(m), ss, Seq::empty());
            match o {
                Outcome::Done(c) => match exited(m1) {
                    None => (m1, Outcome::Panic),
                    Some(m2) => (m2, Outcome::Done(StmtV::Block(c))),
                },
                other => (m1, carry(other)),
            }
        },
        StmtV::Expression(e) => match spec_check_expr(m, e) {
            Outcome::Done(_) => (m, Outcome::Done(s)),
            other => (m, carry(other)),
        },
        StmtV::Return(o) => {
            let rt = match o {
                Some(e) => spec_check_expr(m, e),
                None => Outcome::Done(TypeV::Void),
            };
            match rt {
                Outcome::Done(t) => match m.ret {
                    None => (m, Outcome::Fail(TypeErrorV::ReturnOutsideFunction)),
                    Some(expected) => if expected != spec_base_type(t) {
                        (m, Outcome::Fail(TypeErrorV::ReturnMismatch { expected, found: spec_base_type(t) }))
                    } else {
                        (m, Outcome::Done(s))
                    },
                },
                other => (m, carry(other)),
            }
        },
        StmtV::Break => if !m.in_loop {
            (m, Outcome::Fail(TypeErrorV::BreakOutsideLoop))
        } else {
            (m, Outcome::Done(s))
        },
        StmtV::Continue => if !m.in_loop {
            (m, Outcome::Fail(TypeErrorV::ContinueOutsideLoop))
        } else {
            (m, Outcome::Done(s))
        },
    }
}

/// The statements checked in order, the checked ones appended to `done`; checking stops
/// at the first failure.
pub open spec fn spec_check_stmts(m: TcModel, ss: Seq<StmtV>, done: Seq<StmtV>) -> (TcModel, Outcome<Seq<StmtV>>)
    decreases ss,
{
    if ss.len() == 0 {
        (m, Outcome::Done(done))
    } else {
        let (m1, o) = spec_check_stmt(m, ss[0]);
        match o {
            Outcome::Done(c) => spec_check_stmts(m1, ss.skip(1), done.push(c)),
            other => (m1, carry(other)),
        }
    }
}

/// A checker with one empty global scope and nothing declared.
pub open spec fn initial_model() -> TcModel {
    TcModel {
        vars: seq![Map::empty()],
        fns: Map::empty(),
        classes: Seq::empty(),
        fields: Map::empty(),
        ret: None,
        in_loop: false,
    }
}

/// The functions that importing `io` declares.
pub open spec fn with_io(m: TcModel) -> TcModel {
    with_fn(
        with_fn(
            with_fn(m, "print_int"@, (seq![TypeV::Int], TypeV::Void)),
            "print_bool"@,
            (seq![TypeV::Bool], TypeV::Void),
        ),
        "print_char"@,
        (seq![TypeV::Char], TypeV::Void),
    )
}

/// Whether a statement is `@import` of the path `p`.
pub open spec fn is_import_of(s: StmtV, p: Option<Seq<char>>) -> bool {
    s matches StmtV::AtDecl(d, q, _, _, _) && d == "import"@ && q == p
}

/// Whether the program imports `io`.
pub open spec fn imports_io(prog: Seq<StmtV>) -> bool {
    exists|i: int| 0 <= i < prog.len() && is_import_of(prog[i], Some("io"@))
}

/// Whether some import of the program names no path.
pub open spec fn import_without_path(prog: Seq<StmtV>) -> bool {
    exists|i: int| 0 <= i < prog.len() && is_import_of(prog[i], None)
}

pub open spec fn with_class(m: TcModel, name: Seq<char>, fs: Seq<(Seq<char>, TypeV)>) -> TcModel {
    TcModel {
        vars: m.vars,
        fns: m.fns,
        classes: m.classes.push(name),
        fields: m.fields.insert(name, fs),
        ret: m.ret,
        in_loop: m.in_loop,
    }
}

/// The checker with the program's functions and structs registered in order; a function
/// declared twice is an error.
pub open spec fn register_decls(m: TcModel, prog: Seq<StmtV>, seen: Seq<Seq<char>>) -> (TcModel, Outcome<()>)
    decreases prog.len(),
{
    if prog.len() == 0 {
        (m, Outcome::Done(()))
    } else {
        match prog[0] {
            StmtV::FunDecl { name, params, return_type, .. } => if seen.contains(name) {
                (m, Outcome::Fail(TypeErrorV::FunctionRedeclared { name }))
            } else {
                register_decls(
                    with_fn(m, name, (params.map_values(|p: (Seq<char>, TypeV)| p.1), return_type)),
                    prog.skip(1),
                    seen.push(name),
                )
            },
            StmtV::StructDecl { name, instances, .. } => register_decls(with_class(m, name, instances), prog.skip(1), seen),
            _ => register_decls(m, prog.skip(1), seen),
        }
    }
}

/// What checking a program reports: the statements of the imported files come first, the
/// builtins of `io` are declared when the program imports it, then every function and
/// struct is registered, and then every statement is checked in order.
pub open spec fn spec_analyze(imported: Seq<StmtV>, program: Seq<StmtV>) -> Outcome<Seq<StmtV>> {
    if import_without_path(program) {
        Outcome::Panic
    } else {
        let m1 = if imports_io(program) {
            with_io(initial_model())
        } else {
            initial_model()
        };
        let (m2, o) = register_decls(m1, imported + program, Seq::empty());
        match o {
            Outcome::Done(_) => spec_check_stmts(m2, imported + program, Seq::empty()).1,
            other => carry(other),
        }
    }
}

/// How a character of a name is written inside double quotes: `"`, `\`, newline,
/// carriage return, tab and NUL escaped with a backslash, any other character as it is.
pub open spec fn escape_char_text(c: char) -> Seq<char> {
    if c == '"' {
        seq!['\\', '"']
    } else if c == '\\' {
        seq!['\\', '\\']
    } else if c == '\n' {
        seq!['\\', 'n']
    } else if c == '\r' {
        seq!['\\', 'r']
    } else if c == '\t' {
        seq!['\\', 't']
    } else if c == '\0' {
        seq!['\\', '0']
    } else {
        seq![c]
    }
}

pub open spec fn escaped_text(s: Seq<char>) -> Seq<char>
    decreases s.len(),
{
    if s.len() == 0 {
        Seq::empty()
    } else {
        escaped_text(s.drop_last()) + escape_char_text(s.last())
    }
}

/// A name in double quotes, its characters escaped.
pub open spec fn quoted(s: Seq<char>) -> Seq<char> {
    seq!['"'] + escaped_text(s) + seq!['"']
}

pub open spec fn opt_len_text(n: Option<usize>) -> Seq<char> {
    match n {
        Some(k) => "Some("@ + decimal(k as nat) + ")"@,
        None => "None"@,
    }
}

/// How a type is written in error messages: its variant, with its parts in brackets.
pub open spec fn type_text(t: TypeV) -> Seq<char>
    decreases t,
{
    match t {
        TypeV::Int => "int"@,
        TypeV::Float => "float"@,
        TypeV::Long => "Long"@,
        TypeV::Char => "Char"@,
        TypeV::Null => "null"@,
        TypeV::Bool => "Bool"@,
        TypeV::Array(e, n) => "Array("@ + type_text(*e) + ", "@ + opt_len_text(n) + ")"@,
        TypeV::Function => "Function"@,
        TypeV::Struct { name, instances } => "Struct { name: "@ + quoted(name) + ", instances: ["@ + fields_text(instances)
            + "] }"@,
        TypeV::StructLiteral(n) => "StructLiteral("@ + quoted(n) + ")"@,
        TypeV::Void => "Void"@,
        TypeV::Unknown => "Unknown"@,
        TypeV::Pointer(e) => "Pointer("@ + type_text(*e) + ")"@,
    }
}

/// The fields of a struct type, each as `("name", type)`, separated by `, `.
pub open spec fn fields_text(fs: Seq<(Seq<char>, TypeV)>) -> Seq<char>
    decreases fs,
{
    if fs.len() == 0 {
        Seq::empty()
    } else if fs.len() == 1 {
        "("@ + quoted(fs[0].0) + ", "@ + type_text(fs[0].1) + ")"@
    } else {
        fields_text(fs.drop_last()) + ", "@ + "("@ + quoted(fs[fs.len() - 1].0) + ", "@ + type_text(fs[fs.len() - 1].1) + ")"@
    }
}

/// Appends the escaped form of `c`.
fn push_escaped(out: &mut String, c: char)
    ensures
        final(out)@ == old(out)@ + escape_char_text(c),
{
    if c == '"' {
        string_push(out, '\\');
        string_push(out, '"');
    } else if c == '\\' {
        string_push(out, '\\');
        string_push(out, '\\');
    } else if c == '\n' {
        string_push(out, '\\');
        string_push(out, 'n');
    } else if c == '\r' {
        string_push(out, '\\');
        string_push(out, 'r');
    } else if c == '\t' {
        string_push(out, '\\');
        string_push(out, 't');
    } else if c == '\0' {
        string_push(out, '\\');
        string_push(out, '0');
    } else {
        string_push(out, c);
    }
    proof {
        assert(out@ =~= old(out)@ + escape_char_text(c));
    }
}

/// Appends `s` in double quotes, its characters escaped.
fn push_quoted(out: &mut String, s: &String)
    ensures
        final(out)@ == old(out)@ + quoted(s@),
{
    string_push(out, '"');
    let ghost start = out@;
    let cs = str_chars(s.as_str());
    proof {
        assert(cs@.take(0) =~= Seq::<char>::empty());
        assert(out@ =~= start + escaped_text(cs@.take(0)));
    }
    let mut i: usize = 0;
    while i < cs.len()
        invariant
            i <= cs@.len(),
            cs@ == s@,
            out@ == start + escaped_text(cs@.take(i as int)),
        decreases cs@.len() - i,
    {
        push_escaped(out, cs[i]);
        proof {
            assert(cs@.take(i + 1).drop_last() =~= cs@.take(i as int));
            assert(cs@.take(i + 1).last() == cs@[i as int]);
            assert(out@ =~= start + escaped_text(cs@.take(i + 1)));
        }
        i = i + 1;
    }
    string_push(out, '"');
    proof {
        assert(cs@.take(cs@.len() as int) =~= cs@);
        assert(out@ =~= old(out)@ + quoted(s@));
    }
}

/// Appends how `t` is written in error messages.
fn push_type_text(out: &mut String, t: &Type)
    ensures
        final(out)@ == old(out)@ + type_text(t@),
    decreases t,
{
    match t {
        Type::Int => out.append("int"),
        Type::Float => out.append("float"),
        Type::Long => out.append("Long"),
        Type::Char => out.append("Char"),
        Type::Null => out.append("null"),
        Type::Bool => out.append("Bool"),
        Type::Array(e, n) => {
            out.append("Array(");
            push_type_text(out, &**e);
            out.append(", ");
            match n {
                Some(k) => {
                    out.append("Some(");
                    push_decimal(out, *k);
                    out.append(")");
                },
                None => out.append("None"),
            }
            out.append(")");
        },
        Type::Function => out.append("Function"),
        Type::Struct { name, instances } => {
            proof {
                lemma_struct_view(*name, *instances);
            }
            out.append("Struct { name: ");
            push_quoted(out, name);
            out.append(", instances: [");
            push_fields_text(out, instances);
            out.append("] }");
        },
        Type::StructLiteral(n) => {
            out.append("StructLiteral(");
            push_quoted(out, n);
            out.append(")");
        },
        Type::Void => out.append("Void"),
        Type::Unknown => out.append("Unknown"),
        Type::Pointer(e) => {
            out.append("Pointer(");
            push_type_text(out, &**e);
            out.append(")");
        },
    }
    proof {
        assert(out@ =~= old(out)@ + type_text(t@));
    }
}

/// Appends how the fields `fs` are written in error messages.
fn push_fields_text(out: &mut String, fs: &Vec<(String, Type)>)
    ensures
        final(out)@ == old(out)@ + fields_text(fields_view(fs@)),
    decreases fs,
{
    let ghost fv = fields_view(fs@);
    let ghost start = out@;
    proof {
        assert(fv.take(0) =~= Seq::<(Seq<char>, TypeV)>::empty());
        assert(out@ =~= start + fields_text(fv.take(0)));
    }
    let mut i: usize = 0;
    while i < fs.len()
        invariant
            i <= fs@.len(),
            fv == fields_view(fs@),
            out@ == start + fields_text(fv.take(i as int)),
        decreases fs@.len() - i,
    {
        proof {
            assert(decreases_to!(fs => fs@[i as int].1));
        }
        let ghost before = out@;
        if i > 0 {
            out.append(", ");
        }
        out.append("(");
        push_quoted(out, &fs[i].0);
        out.append(", ");
        push_type_text(out, &fs[i].1);
        out.append(")");
        proof {
            let t = fv.take(i + 1);
            assert(t.drop_last() =~= fv.take(i as int));
            assert(t[t.len() - 1] == fv[i as int]);
            if i == 0 {
                assert(t[0] == fv[0]);
                assert(out@ =~= start + fields_text(t));
            } else {
                assert(out@ =~= start + fields_text(t));
            }
        }
        i = i + 1;
    }
    proof {
        assert(fv.take(fs@.len() as int) =~= fv);
    }
}

/// The text of a type error, as the checker words it.
pub open spec fn error_text(e: TypeErrorV) -> Seq<char> {
    match e {
        TypeErrorV::UndeclaredVariable { name } => "Undeclared variable '"@ + name + "'"@,
        TypeErrorV::AssignToUndeclared { name } => "Assignment to undeclared variable '"@ + name + "'"@,
        TypeErrorV::AssignMismatch { name, expected, found } => "Type mismatch in assignment to '"@ + name + "': expected "@ + type_text(expected) + ", found "@ + type_text(found),
        TypeErrorV::BinaryMismatch { left, right } => "Type mismatch in binary operation: left is "@ + type_text(left) + ", right is "@ + type_text(right),
        TypeErrorV::ArithmeticNeedsNumbers { found } => "Arithmetic operations require numeric types, found "@ + type_text(found),
        TypeErrorV::ComparisonNeedsNumbers { found } => "Comparison operations require numeric types, found "@ + type_text(found),
        TypeErrorV::LogicalNeedsBools => "Logical operations require boolean operands"@,
        TypeErrorV::NotNeedsBool => "Logical NOT requires a boolean operand"@,
        TypeErrorV::NegateNeedsNumber => "Negation requires a numeric operand"@,
        TypeErrorV::DerefNonPointer => "Cannot dereference a non-pointer type"@,
        TypeErrorV::UndefinedFunction { name } => "Undefined function '"@ + name + "'"@,
        TypeErrorV::ArgumentCount { name, expected, got } => "Function '"@ + name + "' expected "@ + decimal(expected) + " arguments, got "@ + decimal(got),
        TypeErrorV::ArgumentMismatch { name, expected, got } => "Argument type mismatch in call to '"@ + name + "': expected "@ + type_text(expected) + ", got "@ + type_text(got),
        TypeErrorV::InvalidCast { from, to } => "Invalid cast from "@ + type_text(from) + " to "@ + type_text(to),
        TypeErrorV::EmptyArray => "Cannot infer type of empty array"@,
        TypeErrorV::ArrayElementMismatch => "Array elements must all have the same type"@,
        TypeErrorV::IndexNotInt => "Array index must be of type int"@,
        TypeErrorV::ArrayTypeError => "Array type error"@,
        TypeErrorV::IndexOutOfBounds => "Index out of bounds"@,
        TypeErrorV::DerefAssignMismatch { expected, found } => "Type mismatch in deref assignment: expected "@ + type_text(expected) + ", found "@ + type_text(found),
        TypeErrorV::AssignThroughNonPointer => "Cannot assign through a non-pointer value"@,
        TypeErrorV::UndefinedClass { name } => "Undefined class: '"@ + name + "'"@,
        TypeErrorV::DuplicateField { field } => "Duplicate field initializer '"@ + field + "'"@,
        TypeErrorV::NoSuchField { class, field } => "Class '"@ + class + "' has no field '"@ + field + "'"@,
        TypeErrorV::FieldMismatch { field, expected, got } => "Type mismatch for field '"@ + field + "': expected "@ + type_text(expected) + ", got "@ + type_text(got),
        TypeErrorV::MissingInitializer { class, field } => "Missing initializer for field '"@ + class + "."@ + field + "'"@,
        TypeErrorV::UnknownVariable { name } => "Unknown variable: '"@ + name + "'"@,
        TypeErrorV::UnknownField { field, class } => "Unknown field '"@ + field + "' in class '"@ + class + "'"@,
        TypeErrorV::NotAnInstance { name } => "'"@ + name + "' is not a class instance"@,
        TypeErrorV::FieldAssignMismatch { class, field } => "Error with class: "@ + class + ", field: "@ + field,
        TypeErrorV::UnsupportedExpression => "Unsupported expression"@,
        TypeErrorV::UnknownDeclaration { decl } => "unknown declaration '"@ + decl + "'"@,
        TypeErrorV::DeclarationClassMismatch { name, expected, found } => "Type mismatch in declaration of '"@ + name + "': expected class '"@ + expected + "', found class '"@ + found + "'"@,
        TypeErrorV::DeclarationNotClass { name, expected, found } => "Type mismatch in declaration of '"@ + name + "': expected class '"@ + expected + "', found "@ + type_text(found),
        TypeErrorV::DeclarationMismatch { name, expected, found } => "Type mismatch in declaration of '"@ + name + "': expected "@ + type_text(expected) + ", found "@ + type_text(found),
        TypeErrorV::ArraySizeMismatch { name, expected, found } => "Array size mismatch in '"@ + name + "': expected "@ + decimal(expected) + ", found "@ + decimal(found),
        TypeErrorV::VariableRedeclared { name } => "Variable '"@ + name + "' already declared in this scope"@,
        TypeErrorV::MissingReturn { name, return_type } => "Function '"@ + name + "' with return type "@ + type_text(return_type) + " is missing a return statement"@,
        TypeErrorV::IfConditionNotBool => "If condition must be boolean"@,
        TypeErrorV::WhileConditionNotBool => "While condition must be boolean"@,
        TypeErrorV::ReturnMismatch { expected, found } => "Return type mismatch: expected "@ + type_text(expected) + ", found "@ + type_text(found),
        TypeErrorV::ReturnOutsideFunction => "Return statement outside of function"@,
        TypeErrorV::BreakOutsideLoop => "Break statement outside of loop"@,
        TypeErrorV::ContinueOutsideLoop => "Continue statement outside of loop"@,
        TypeErrorV::InstancesShareName => "Instances may not share a name"@,
        TypeErrorV::FunctionRedeclared { name } => "Function '"@ + name + "' already declared"@,
    }
}

impl TypeError {
    /// The text of this error, as the checker words it.
    pub fn message(&self) -> (r: String)
        ensures
            r@ == error_text(self@),
    {
        match self {
            TypeError::UndeclaredVariable { name } => {
                let mut out = "Undeclared variable '".to_owned();
                out.append(name.as_str());
                out.append("'");
                out
            },
            TypeError::AssignToUndeclared { name } => {
                let mut out = "Assignment to undeclared variable '".to_owned();
                out.append(name.as_str());
                out.append("'");
                out
            },
            TypeError::AssignMismatch { name, expected, found } => {
                let mut out = "Type mismatch in assignment to '".to_owned();
                out.append(name.as_str());
                out.append("': expected ");
                push_type_text(&mut out, expected);
                out.append(", found ");
                push_type_text(&mut out, found);
                out
            },
            TypeError::BinaryMismatch { left, right } => {
                let mut out = "Type mismatch in binary operation: left is ".to_owned();
                push_type_text(&mut out, left);
                out.append(", right is ");
                push_type_text(&mut out, right);
                out
            },
            TypeError::ArithmeticNeedsNumbers { found } => {
                let mut out = "Arithmetic operations require numeric types, found ".to_owned();
                push_type_text(&mut out, found);
                out
            },
            TypeError::ComparisonNeedsNumbers { found } => {
                let mut out = "Comparison operations require numeric types, found ".to_owned();
                push_type_text(&mut out, found);
                out
            },
            TypeError::LogicalNeedsBools => {
                let mut out = "Logical operations require boolean operands".to_owned();
                out
            },
            TypeError::NotNeedsBool => {
                let mut out = "Logical NOT requires a boolean operand".to_owned();
                out
            },
            TypeError::NegateNeedsNumber => {
                let mut out = "Negation requires a numeric operand".to_owned();
                out
            },
            TypeError::DerefNonPointer => {
                let mut out = "Cannot dereference a non-pointer type".to_owned();
                out
            },
            TypeError::UndefinedFunction { name } => {
                let mut out = "Undefined function '".to_owned();
                out.append(name.as_str());
                out.append("'");
                out
            },
            TypeError::ArgumentCount { name, expected, got } => {
                let mut out = "Function '".to_owned();
                out.append(name.as_str());
                out.append("' expected ");
                push_decimal(&mut out, *expected);
                out.append(" arguments, got ");
                push_decimal(&mut out, *got);
                out
            },
            TypeError::ArgumentMismatch { name, expected, got } => {
                let mut out = "Argument type mismatch in call to '".to_owned();
                out.append(name.as_str());
                out.append("': expected ");
                push_type_text(&mut out, expected);
                out.append(", got ");
                push_type_text(&mut out, got);
                out
            },
            TypeError::InvalidCast { from, to } => {
                let mut out = "Invalid cast from ".to_owned();
                push_type_text(&mut out, from);
                out.append(" to ");
                push_type_text(&mut out, to);
                out
            },
            TypeError::EmptyArray => {
                let mut out = "Cannot infer type of empty array".to_owned();
                out
            },
            TypeError::ArrayElementMismatch => {
                let mut out = "Array elements must all have the same type".to_owned();
                out
            },
            TypeError::IndexNotInt => {
                let mut out = "Array index must be of type int".to_owned();
                out
            },
            TypeError::ArrayTypeError => {
                let mut out = "Array type error".to_owned();
                out
            },
            TypeError::IndexOutOfBounds => {
                let mut out = "Index out of bounds".to_owned();
                out
            },
            TypeError::DerefAssignMismatch { expected, found } => {
                let mut out = "Type mismatch in deref assignment: expected ".to_owned();
                push_type_text(&mut out, expected);
                out.append(", found ");
                push_type_text(&mut out, found);
                out
            },
            TypeError::AssignThroughNonPointer => {
                let mut out = "Cannot assign through a non-pointer value".to_owned();
                out
            },
            TypeError::UndefinedClass { name } => {
                let mut out = "Undefined class: '".to_owned();
                out.append(name.as_str());
                out.append("'");
                out
            },
            TypeError::DuplicateField { field } => {
                let mut out = "Duplicate field initializer '".to_owned();
                out.append(field.as_str());
                out.append("'");
                out
            },
            TypeError::NoSuchField { class, field } => {
                let mut out = "Class '".to_owned();
                out.append(class.as_str());
                out.append("' has no field '");
                out.append(field.as_str());
                out.append("'");
                out
            },
            TypeError::FieldMismatch { field, expected, got } => {
                let mut out = "Type mismatch for field '".to_owned();
                out.append(field.as_str());
                out.append("': expected ");
                push_type_text(&mut out, expected);
                out.append(", got ");
                push_type_text(&mut out, got);
                out
            },
            TypeError::MissingInitializer { class, field } => {
                let mut out = "Missing initializer for field '".to_owned();
                out.append(class.as_str());
                out.append(".");
                out.append(field.as_str());
                out.append("'");
                out
            },
            TypeError::UnknownVariable { name } => {
                let mut out = "Unknown variable: '".to_owned();
                out.append(name.as_str());
                out.append("'");
                out
            },
            TypeError::UnknownField { field, class } => {
                let mut out = "Unknown field '".to_owned();
                out.append(field.as_str());
                out.append("' in class '");
                out.append(class.as_str());
                out.append("'");
                out
            },
            TypeError::NotAnInstance { name } => {
                let mut out = "'".to_owned();
                out.append(name.as_str());
                out.append("' is not a class instance");
                out
            },
            TypeError::FieldAssignMismatch { class, field } => {
                let mut out = "Error with class: ".to_owned();
                out.append(class.as_str());
                out.append(", field: ");
                out.append(field.as_str());
                out
            },
            TypeError::UnsupportedExpression => {
                let mut out = "Unsupported expression".to_owned();
                out
            },
            TypeError::UnknownDeclaration { decl } => {
                let mut out = "unknown declaration '".to_owned();
                out.append(decl.as_str());
                out.append("'");
                out
            },
            TypeError::DeclarationClassMismatch { name, expected, found } => {
                let mut out = "Type mismatch in declaration of '".to_owned();
                out.append(name.as_str());
                out.append("': expected class '");
                out.append(expected.as_str());
                out.append("', found class '");
                out.append(found.as_str());
                out.append("'");
                out
            },
            TypeError::DeclarationNotClass { name, expected, found } => {
                let mut out = "Type mismatch in declaration of '".to_owned();
                out.append(name.as_str());
                out.append("': expected class '");
                out.append(expected.as_str());
                out.append("', found ");
                push_type_text(&mut out, found);
                out
            },
            TypeError::DeclarationMismatch { name, expected, found } => {
                let mut out = "Type mismatch in declaration of '".to_owned();
                out.append(name.as_str());
                out.append("': expected ");
                push_type_text(&mut out, expected);
                out.append(", found ");
                push_type_text(&mut out, found);
                out
            },
            TypeError::ArraySizeMismatch { name, expected, found } => {
                let mut out = "Array size mismatch in '".to_owned();
                out.append(name.as_str());
                out.append("': expected ");
                push_decimal(&mut out, *expected);
                out.append(", found ");
                push_decimal(&mut out, *found);
                out
            },
            TypeError::VariableRedeclared { name } => {
                let mut out = "Variable '".to_owned();
                out.append(name.as_str());
                out.append("' already declared in this scope");
                out
            },
            TypeError::MissingReturn { name, return_type } => {
                let mut out = "Function '".to_owned();
                out.append(name.as_str());
                out.append("' with return type ");
                push_type_text(&mut out, return_type);
                out.append(" is missing a return statement");
                out
            },
            TypeError::IfConditionNotBool => {
                let mut out = "If condition must be boolean".to_owned();
                out
            },
            TypeError::WhileConditionNotBool => {
                let mut out = "While condition must be boolean".to_owned();
                out
            },
            TypeError::ReturnMismatch { expected, found } => {
                let mut out = "Return type mismatch: expected ".to_owned();
                push_type_text(&mut out, expected);
                out.append(", found ");
                push_type_text(&mut out, found);
                out
            },
            TypeError::ReturnOutsideFunction => {
                let mut out = "Return statement outside of function".to_owned();
                out
            },
            TypeError::BreakOutsideLoop => {
                let mut out = "Break statement outside of loop".to_owned();
                out
            },
            TypeError::ContinueOutsideLoop => {
                let mut out = "Continue statement outside of loop".to_owned();
                out
            },
            TypeError::InstancesShareName => {
                let mut out = "Instances may not share a name".to_owned();
                out
            },
            TypeError::FunctionRedeclared { name } => {
                let mut out = "Function '".to_owned();
                out.append(name.as_str());
                out.append("' already declared");
                out
            },
        }
    }
}

/// The model of one scope.
pub open spec fn scope_view(s: Map<Seq<char>, Type>) -> Map<Seq<char>, TypeV> {
    s.map_values(|t: Type| t@)
}

/// The models of the open scopes.
pub open spec fn scopes_view(ss: Seq<Map<Seq<char>, Type>>) -> Seq<Map<Seq<char>, TypeV>> {
    Seq::new(ss.len(), |i: int| scope_view(ss[i]))
}

pub open spec fn opt_type_view(t: Option<Type>) -> Option<TypeV> {
    match t {
        Some(t) => Some(t@),
        None => None,
    }
}

/// What a check that returns `r` reports.
pub open spec fn outcome_of(r: Result<Type, TypeError>) -> Outcome<TypeV> {
    match r {
        Ok(t) => Outcome::Done(t@),
        Err(e) => Outcome::Fail(e@),
    }
}

/// What a check that returns `r` and gives nothing reports.
pub open spec fn unit_outcome_of(r: Result<(), TypeError>) -> Outcome<()> {
    match r {
        Ok(_) => Outcome::Done(()),
        Err(e) => Outcome::Fail(e@),
    }
}

proof fn lemma_lookup_view(ss: Seq<Map<Seq<char>, Type>>, name: Seq<char>)
    ensures
        lookup_v(scopes_view(ss), name) == opt_type_view(lookup_in(ss, name)),
    decreases ss.len(),
{
    if ss.len() > 0 {
        assert(scopes_view(ss).drop_last() =~= scopes_view(ss.drop_last()));
        assert(scopes_view(ss).last() == scope_view(ss.last()));
        lemma_lookup_view(ss.drop_last(), name);
    }
}

/// The model of a checker whose fields hold one empty scope and nothing else.
pub(crate) proof fn lemma_fresh_model(tc: TypeChecker)
    requires
        tc.variables@.len() == 1,
        tc.variables@[0]@ == Map::<Seq<char>, Type>::empty(),
        tc.functions@ == Map::<Seq<char>, (Vec<Type>, Type)>::empty(),
        tc.classes@.len() == 0,
        tc.class_fields@ == Map::<Seq<char>, Vec<(String, Type)>>::empty(),
        tc.current_return_type is None,
        !tc.in_loop,
    ensures
        tc.model() == initial_model(),
{
    tc.lemma_fields();
    assert(scope_view(Map::<Seq<char>, Type>::empty()) =~= Map::empty());
    assert(tc.model().vars =~= seq![Map::<Seq<char>, TypeV>::empty()]);
    assert(tc.model().fns =~= Map::empty());
    assert(tc.model().fields =~= Map::empty());
    assert(tc.model().classes =~= Seq::empty());
}

impl TypeChecker {
    /// What type checking sees of this checker.
    pub closed spec fn model(&self) -> TcModel {
        TcModel {
            vars: scopes_view(self.scopes()),
            fns: self.fns().map_values(|p: (Vec<Type>, Type)| (types_view(p.0@), p.1@)),
            classes: names_view(self.classes@),
            fields: self.class_fields@.map_values(|fs: Vec<(String, Type)>| fields_view(fs@)),
            ret: opt_type_view(self.current_return_type),
            in_loop: self.in_loop,
        }
    }
}

/// Whether two types are the same.
pub fn type_eq(a: &Type, b: &Type) -> (r: bool)
    ensures
        r == (a@ == b@),
    decreases a,
{
    match (a, b) {
        (Type::Int, Type::Int) => true,
        (Type::Float, Type::Float) => true,
        (Type::Long, Type::Long) => true,
        (Type::Char, Type::Char) => true,
        (Type::Null, Type::Null) => true,
        (Type::Bool, Type::Bool) => true,
        (Type::Function, Type::Function) => true,
        (Type::Void, Type::Void) => true,
        (Type::Unknown, Type::Unknown) => true,
        (Type::Array(x, n), Type::Array(y, k)) => {
            let same_len = match (n, k) {
                (Some(p), Some(q)) => *p == *q,
                (None, None) => true,
                _ => false,
            };
            same_len && type_eq(&**x, &**y)
        },
        (Type::Struct { name: n1, instances: i1 }, Type::Struct { name: n2, instances: i2 }) => {
            proof {
                lemma_struct_view(*n1, *i1);
                lemma_struct_view(*n2, *i2);
            }
            *n1 == *n2 && fields_eq(i1, i2)
        },
        (Type::StructLiteral(x), Type::StructLiteral(y)) => *x == *y,
        (Type::Pointer(x), Type::Pointer(y)) => type_eq(&**x, &**y),
        _ => false,
    }
}

/// Whether two lists of fields are the same.
fn fields_eq(a: &Vec<(String, Type)>, b: &Vec<(String, Type)>) -> (r: bool)
    ensures
        r == (fields_view(a@) == fields_view(b@)),
    decreases a,
{
    if a.len() != b.len() {
        proof {
            assert(fields_view(a@).len() != fields_view(b@).len());
        }
        return false;
    }
    let mut i: usize = 0;
    while i < a.len()
        invariant
            i <= a@.len(),
            a@.len() == b@.len(),
            forall|j: int| 0 <= j < i ==> fields_view(a@)[j] == fields_view(b@)[j],
        decreases a@.len() - i,
    {
        proof {
            assert(decreases_to!(a => a@[i as int].1));
        }
        if !(a[i].0 == b[i].0) || !type_eq(&a[i].1, &b[i].1) {
            proof {
                assert(fields_view(a@)[i as int] != fields_view(b@)[i as int]);
            }
            return false;
        }
        i = i + 1;
    }
    proof {
        assert(fields_view(a@) =~= fields_view(b@));
    }
    true
}

/// The position of the first field named `f`.
fn find_field(fs: &Vec<(String, Type)>, f: &String) -> (r: Option<usize>)
    ensures
        match r {
            Some(i) => i < fs@.len() && field_type_of(fields_view(fs@), f@) == Some(fs@[i as int].1@),
            None => field_type_of(fields_view(fs@), f@) is None,
        },
{
    let ghost fv = fields_view(fs@);
    proof {
        assert(fv.skip(0) =~= fv);
    }
    let mut i: usize = 0;
    while i < fs.len()
        invariant
            i <= fs@.len(),
            fv == fields_view(fs@),
            field_type_of(fv, f@) == field_type_of(fv.skip(i as int), f@),
        decreases fs@.len() - i,
    {
        proof {
            assert(fv.skip(i as int)[0] == fv[i as int]);
            assert(fv.skip(i as int).skip(1) =~= fv.skip(i + 1));
        }
        if fs[i].0 == *f {
            return Some(i);
        }
        i = i + 1;
    }
    proof {
        assert(fv.skip(i as int).len() == 0);
    }
    None
}

/// The position of the last field named `f`.
fn find_last_field(fs: &Vec<(String, Type)>, f: &String) -> (r: Option<usize>)
    ensures
        match r {
            Some(i) => i < fs@.len() && last_field_type(fields_view(fs@), f@) == Some(fs@[i as int].1@),
            None => last_field_type(fields_view(fs@), f@) is None,
        },
{
    let ghost fv = fields_view(fs@);
    proof {
        assert(fv.take(fv.len() as int) =~= fv);
    }
    let mut j: usize = fs.len();
    while j > 0
        invariant
            j <= fs@.len(),
            fv == fields_view(fs@),
            last_field_type(fv, f@) == last_field_type(fv.take(j as int), f@),
        decreases j,
    {
        proof {
            assert(fv.take(j as int).last() == fv[j - 1]);
            assert(fv.take(j as int).drop_last() =~= fv.take(j - 1));
        }
        if fs[j - 1].0 == *f {
            return Some(j - 1);
        }
        j = j - 1;
    }
    None
}

/// Whether `s` is among `v`.
fn contains_name(v: &Vec<String>, s: &String) -> (r: bool)
    ensures
        r == names_view(v@).contains(s@),
{
    let mut i: usize = 0;
    while i < v.len()
        invariant
            i <= v@.len(),
            forall|j: int| 0 <= j < i ==> names_view(v@)[j] != s@,
        decreases v@.len() - i,
    {
        if v[i] == *s {
            proof {
                assert(names_view(v@)[i as int] == s@);
            }
            return true;
        }
        i = i + 1;
    }
    false
}

/// The position of the first field whose name is not among `seen`.
fn find_missing_field(fs: &Vec<(String, Type)>, seen: &Vec<String>) -> (r: Option<usize>)
    ensures
        match r {
            Some(i) => i < fs@.len() && first_missing_field(fields_view(fs@), names_view(seen@)) == Some(fs@[i as int].0@),
            None => first_missing_field(fields_view(fs@), names_view(seen@)) is None,
        },
{
    let ghost fv = fields_view(fs@);
    let ghost sv = names_view(seen@);
    proof {
        assert(fv.skip(0) =~= fv);
    }
    let mut i: usize = 0;
    while i < fs.len()
        invariant
            i <= fs@.len(),
            fv == fields_view(fs@),
            sv == names_view(seen@),
            first_missing_field(fv, sv) == first_missing_field(fv.skip(i as int), sv),
        decreases fs@.len() - i,
    {
        proof {
            assert(fv.skip(i as int)[0] == fv[i as int]);
            assert(fv.skip(i as int).skip(1) =~= fv.skip(i + 1));
        }
        if !contains_name(seen, &fs[i].0) {
            return Some(i);
        }
        i = i + 1;
    }
    proof {
        assert(fv.skip(i as int).len() == 0);
    }
    None
}

/// A struct type with its fields erased; any other type as it is.
fn erased(t: Type) -> (r: Type)
    ensures
        r@ == erase_fields(t@),
{
    match t {
        Type::Struct { name, instances } => {
            proof {
                lemma_struct_view(name, instances);
            }
            let r = Type::Struct { name, instances: Vec::new() };
            proof {
                assert(r@->instances =~= Seq::<(Seq<char>, TypeV)>::empty());
            }
            r
        },
        other => other,
    }
}

/// Whether a cast from `from` to `to` is allowed.
fn cast_allowed(from: &Type, to: &Type) -> (r: bool)
    ensures
        r == cast_ok(from@, to@),
{
    match (from, to) {
        (Type::Int, Type::Float) => true,
        (Type::Float, Type::Int) => true,
        (Type::Char, Type::Int) => true,
        (Type::Int, Type::Char) => true,
        _ => type_eq(from, to),
    }
}

/// The type of a string literal.
fn string_literal_type() -> (r: Type)
    ensures
        r@ == string_type(),
{
    let mut fields: Vec<(String, Type)> = Vec::new();
    let chars = "chars".to_owned();
    let elem = Type::Array(Box::new(Type::Char), None);
    proof {
        assert(type_view(Type::Char) == TypeV::Char);
        assert(elem@ == TypeV::Array(Box::new(TypeV::Char), None));
    }
    fields.push((chars, elem));
    let name = "string".to_owned();
    proof {
        lemma_struct_view(name, fields);
        assert(fields@[0].0@ == "chars"@);
        assert(fields_view(fields@) =~= seq![("chars"@, TypeV::Array(Box::new(TypeV::Char), None))]);
    }
    Type::Struct { name, instances: fields }
}

/// The name of a struct type.
fn struct_name_of(t: &Type) -> (r: Option<&String>)
    ensures
        match r {
            Some(n) => t@ is Struct && t@->Struct_name == n@,
            None => !(t@ is Struct),
        },
{
    match t {
        Type::Struct { name, .. } => Some(name),
        _ => None,
    }
}

/// The type of a binary operation on two operands of type `t`.
fn binary_type(op: BinaryOp, t: Type) -> (r: Result<Type, Halt>)
    ensures
        h_outcome(r) == binary_result(op, t@),
{
    let numeric = match &t {
        Type::Int => true,
        Type::Float => true,
        _ => false,
    };
    match op {
        BinaryOp::Add | BinaryOp::Sub | BinaryOp::Mul | BinaryOp::Div | BinaryOp::Mod => {
            if !numeric {
                Err(Halt::Error(TypeError::ArithmeticNeedsNumbers { found: t }))
            } else {
                Ok(t)
            }
        },
        BinaryOp::Equal | BinaryOp::NotEqual => Ok(Type::Bool),
        BinaryOp::Less | BinaryOp::LessEqual | BinaryOp::Greater | BinaryOp::GreaterEqual => {
            if !numeric {
                Err(Halt::Error(TypeError::ComparisonNeedsNumbers { found: t }))
            } else {
                Ok(Type::Bool)
            }
        },
        BinaryOp::And | BinaryOp::Or => match t {
            Type::Bool => Ok(Type::Bool),
            _ => Err(Halt::Error(TypeError::LogicalNeedsBools)),
        },
    }
}

/// The type of a unary operation on an operand of type `t`.
fn unary_type(op: UnaryOp, t: Type) -> (r: Result<Type, Halt>)
    ensures
        h_outcome(r) == unary_result(op, t@),
{
    match op {
        UnaryOp::Not => match t {
            Type::Bool => Ok(Type::Bool),
            _ => Err(Halt::Error(TypeError::NotNeedsBool)),
        },
        UnaryOp::Negate => match t {
            Type::Int => Ok(t),
            Type::Float => Ok(t),
            _ => Err(Halt::Error(TypeError::NegateNeedsNumber)),
        },
        UnaryOp::AddressOf => Ok(Type::Pointer(Box::new(t))),
        UnaryOp::Dereference => match t {
            Type::Pointer(inner) => Ok(*inner),
            _ => Err(Halt::Error(TypeError::DerefNonPointer)),
        },
    }
}

impl TypeChecker {
    /// The type of the variable `name` in the innermost scope that declares it.
    fn variable_type(&self, name: &String) -> (r: Option<Type>)
        ensures
            opt_type_view(r) == lookup_v(self.model().vars, name@),
    {
        proof {
            lemma_lookup_view(self.scopes(), name@);
        }
        match self.lookup_var(name.as_str()) {
            Some(t) => Some(t.duplicate()),
            None => None,
        }
    }

    /// The field `field` of the struct `sname`, reached through the variable `class_name`.
    fn check_struct_field(&self, sname: &String, field: &String, class_name: &String) -> (r: Result<Type, Halt>)
        ensures
            h_outcome(r) == struct_field(self.model(), sname@, field@, class_name@),
    {
        match self.class_fields.get(sname.as_str()) {
            None => {
                proof {
                    assert(!self.model().fields.contains_key(sname@));
                }
                Err(Halt::Panic)
            },
            Some(fs) => {
                proof {
                    assert(self.model().fields[sname@] == fields_view(fs@));
                }
                match find_field(fs, field) {
                    Some(i) => Ok(fs[i].1.duplicate()),
                    None => Err(Halt::Error(TypeError::UnknownField { field: field.clone(), class: class_name.clone() })),
                }
            },
        }
    }

    /// The type of `class_name.field`.
    fn check_instance(&self, class_name: &String, field: &String) -> (r: Result<Type, Halt>)
        ensures
            h_outcome(r) == instance_of(self.model(), class_name@, field@),
    {
        proof {
            lemma_lookup_view(self.scopes(), class_name@);
        }
        match self.lookup_var(class_name.as_str()) {
            None => Err(Halt::Error(TypeError::UnknownVariable { name: class_name.clone() })),
            Some(t) => match t {
                Type::Pointer(inner) => match struct_name_of(&**inner) {
                    Some(name) => self.check_struct_field(name, field, class_name),
                    None => Err(Halt::Error(TypeError::NotAnInstance { name: class_name.clone() })),
                },
                _ => match struct_name_of(t) {
                    Some(name) => self.check_struct_field(name, field, class_name),
                    None => Err(Halt::Error(TypeError::NotAnInstance { name: class_name.clone() })),
                },
            },
        }
    }

    /// The type of an element of the array variable `name` indexed by `index`.
    fn check_array_access(&self, name: &String, index: &Expr) -> (r: Result<Type, Halt>)
        ensures
            h_outcome(r) == array_access(self.model(), name@, index@),
    {
        proof {
            reveal(expr_view);
            lemma_lookup_view(self.scopes(), name@);
        }
        match self.lookup_var(name.as_str()) {
            None => Err(Halt::Error(TypeError::UndeclaredVariable { name: name.clone() })),
            Some(t) => match t {
                Type::Array(ty, len) => match (index, len) {
                    (Expr::IntLiteral(n), Some(l)) => {
                        if *l > 2147483647usize {
                            return Err(Halt::Panic);
                        }
                        let bound = *l as i32;
                        if *n >= bound {
                            Err(Halt::Error(TypeError::IndexOutOfBounds))
                        } else {
                            Ok((**ty).duplicate())
                        }
                    },
                    _ => Ok((**ty).duplicate()),
                },
                _ => Err(Halt::Error(TypeError::ArrayTypeError)),
            },
        }
    }

    /// The arguments of a call to `name` checked in order against the parameter types.
    fn check_args(&self, name: &String, ps: &Vec<Type>, args: &Vec<Expr>) -> (r: Result<(), Halt>)
        ensures
            h_unit(r) == spec_check_args(self.model(), name@, types_view(ps@), exprs_view(args@)),
        decreases args, 0nat,
    {
        let ghost m = self.model();
        let ghost pv = types_view(ps@);
        let ghost av = exprs_view(args@);
        proof {
            lemma_exprs_view(args@);
            assert(pv.skip(0) =~= pv);
            assert(av.skip(0) =~= av);
        }
        let mut i: usize = 0;
        while i < args.len() && i < ps.len()
            invariant
                i <= args@.len(),
                i <= ps@.len(),
                m == self.model(),
                pv == types_view(ps@),
                av == exprs_view(args@),
                av.len() == args@.len(),
                forall|j: int| 0 <= j < args@.len() ==> #[trigger] av[j] == args@[j]@,
                spec_check_args(m, name@, pv, av) == spec_check_args(m, name@, pv.skip(i as int), av.skip(i as int)),
            decreases args@.len() - i,
        {
            proof {
                assert(av.skip(i as int)[0] == av[i as int]);
                assert(pv.skip(i as int)[0] == pv[i as int]);
                assert(av.skip(i as int).skip(1) =~= av.skip(i + 1));
                assert(pv.skip(i as int).skip(1) =~= pv.skip(i + 1));
                assert(decreases_to!(args => args@[i as int]));
            }
            match self.check_expr(&args[i]) {
                Err(e) => {
                    return Err(e);
                },
                Ok(t) => {
                    let bt = base_type(&t);
                    if !type_eq(&bt, &ps[i]) {
                        return Err(Halt::Error(TypeError::ArgumentMismatch { name: name.clone(), expected: ps[i].duplicate(), got: bt }));
                    }
                },
            }
            i = i + 1;
        }
        Ok(())
    }

    /// The elements of an array literal checked in order against its element type.
    fn check_elems(&self, elem: &Type, es: &Vec<Expr>) -> (r: Result<(), Halt>)
        ensures
            h_unit(r) == spec_check_elems(self.model(), elem@, exprs_view(es@)),
        decreases es, 0nat,
    {
        let ghost m = self.model();
        let ghost ev = exprs_view(es@);
        proof {
            lemma_exprs_view(es@);
            assert(ev.skip(0) =~= ev);
        }
        let mut i: usize = 0;
        while i < es.len()
            invariant
                i <= es@.len(),
                m == self.model(),
                ev == exprs_view(es@),
                ev.len() == es@.len(),
                forall|j: int| 0 <= j < es@.len() ==> #[trigger] ev[j] == es@[j]@,
                spec_check_elems(m, elem@, ev) == spec_check_elems(m, elem@, ev.skip(i as int)),
            decreases es@.len() - i,
        {
            proof {
                assert(ev.skip(i as int)[0] == ev[i as int]);
                assert(ev.skip(i as int).skip(1) =~= ev.skip(i + 1));
                assert(decreases_to!(es => es@[i as int]));
            }
            match self.check_expr(&es[i]) {
                Err(e) => {
                    return Err(e);
                },
                Ok(t) => {
                    if !type_eq(&t, elem) {
                        return Err(Halt::Error(TypeError::ArrayElementMismatch));
                    }
                },
            }
            i = i + 1;
        }
        proof {
            assert(ev.skip(i as int).len() == 0);
        }
        Ok(())
    }

    /// The initializers of a literal of the struct `sname` checked in order; the names
    /// of the fields initialized.
    fn check_inits(&self, sname: &String, fs: &Vec<(String, Type)>, params: &Vec<(String, Expr)>) -> (r: Result<Vec<String>, Halt>)
        ensures
            match r {
                Ok(seen) => spec_check_inits(self.model(), sname@, fields_view(fs@), named_exprs_view(params@), Seq::empty())
                    == Outcome::Done(names_view(seen@)),
                Err(e) => spec_check_inits(self.model(), sname@, fields_view(fs@), named_exprs_view(params@), Seq::empty())
                    == halt_outcome::<Seq<Seq<char>>>(e),
            },
        decreases params, 0nat,
    {
        let ghost m = self.model();
        let ghost fv = fields_view(fs@);
        let ghost pv = named_exprs_view(params@);
        let ghost whole = spec_check_inits(m, sname@, fv, pv, Seq::empty());
        let mut seen: Vec<String> = Vec::new();
        proof {
            lemma_named_exprs_view(params@);
            assert(pv.skip(0) =~= pv);
            assert(names_view(seen@) =~= Seq::<Seq<char>>::empty());
        }
        let mut i: usize = 0;
        while i < params.len()
            invariant
                i <= params@.len(),
                m == self.model(),
                fv == fields_view(fs@),
                pv == named_exprs_view(params@),
                pv.len() == params@.len(),
                forall|j: int| 0 <= j < params@.len() ==> #[trigger] pv[j] == (params@[j].0@, params@[j].1@),
                whole == spec_check_inits(m, sname@, fv, pv, Seq::empty()),
                whole == spec_check_inits(m, sname@, fv, pv.skip(i as int), names_view(seen@)),
            decreases params@.len() - i,
        {
            proof {
                assert(pv.skip(i as int)[0] == pv[i as int]);
                assert(pv.skip(i as int).skip(1) =~= pv.skip(i + 1));
                assert(decreases_to!(params => params@[i as int].1));
            }
            let fname = &params[i].0;
            if contains_name(&seen, fname) {
                return Err(Halt::Error(TypeError::DuplicateField { field: fname.clone() }));
            }
            match find_last_field(fs, fname) {
                None => {
                    return Err(Halt::Error(TypeError::NoSuchField { class: sname.clone(), field: fname.clone() }));
                },
                Some(k) => match self.check_expr(&params[i].1) {
                    Err(e) => {
                        return Err(e);
                    },
                    Ok(got) => {
                        let g = erased(got);
                        let is_array = match &g {
                            Type::Array(_, _) => true,
                            _ => false,
                        };
                        if !is_array && !type_eq(&g, &fs[k].1) {
                            return Err(Halt::Error(TypeError::FieldMismatch { field: fname.clone(), expected: fs[k].1.duplicate(), got: g }));
                        }
                    },
                },
            }
            let ghost before = seen@;
            seen.push(fname.clone());
            proof {
                assert(names_view(seen@) =~= names_view(before).push(fname@));
            }
            i = i + 1;
        }
        Ok(seen)
    }

    /// The type of `class.field = value`.
    fn check_field_assign(&self, expr: &Expr) -> (r: Result<Type, Halt>)
        requires
            expr is FieldAssign,
        ensures
            h_outcome(r) == spec_check_expr(self.model(), expr@),
        decreases expr, 0nat,
    {
        proof {
            reveal(expr_view);
        }
        match expr {
            Expr::FieldAssign { class_name, field, value } => match self.check_instance(class_name, field) {
                Err(e) => Err(e),
                Ok(ty) => match self.check_expr(&**value) {
                    Err(e) => Err(e),
                    Ok(vt) => {
                        if !type_eq(&ty, &vt) {
                            Err(Halt::Error(TypeError::FieldAssignMismatch { class: class_name.clone(), field: field.clone() }))
                        } else {
                            Ok(ty)
                        }
                    },
                },
            },
            _ => Err(Halt::Error(TypeError::UnsupportedExpression)),
        }
    }

    /// The type of `name = value`.
    fn check_assign(&self, expr: &Expr) -> (r: Result<Type, Halt>)
        requires
            expr is Assign,
        ensures
            h_outcome(r) == spec_check_expr(self.model(), expr@),
        decreases expr, 0nat,
    {
        proof {
            reveal(expr_view);
        }
        match expr {
            Expr::Assign { name, value } => match self.check_expr(&**value) {
                Err(e) => Err(e),
                Ok(vt) => match self.variable_type(name) {
                    None => Err(Halt::Error(TypeError::AssignToUndeclared { name: name.clone() })),
                    Some(var) => {
                        if !type_eq(&vt, &var) {
                            Err(Halt::Error(TypeError::AssignMismatch { name: name.clone(), expected: var, found: vt }))
                        } else {
                            Ok(vt)
                        }
                    },
                },
            },
            _ => Err(Halt::Error(TypeError::UnsupportedExpression)),
        }
    }

    /// The type of a binary operation.
    fn check_binary(&self, expr: &Expr) -> (r: Result<Type, Halt>)
        requires
            expr is Binary,
        ensures
            h_outcome(r) == spec_check_expr(self.model(), expr@),
        decreases expr, 0nat,
    {
        proof {
            reveal(expr_view);
        }
        match expr {
            Expr::Binary { left, op, right, .. } => match self.check_expr(&**left) {
                Err(e) => Err(e),
                Ok(lt) => match self.check_expr(&**right) {
                    Err(e) => Err(e),
                    Ok(rt) => {
                        if !type_eq(&lt, &rt) {
                            Err(Halt::Error(TypeError::BinaryMismatch { left: lt, right: rt }))
                        } else {
                            binary_type(*op, lt)
                        }
                    },
                },
            },
            _ => Err(Halt::Error(TypeError::UnsupportedExpression)),
        }
    }

    /// The type of a call: the function's return type.
    fn check_call(&self, expr: &Expr) -> (r: Result<Type, Halt>)
        requires
            expr is Call,
        ensures
            h_outcome(r) == spec_check_expr(self.model(), expr@),
        decreases expr, 0nat,
    {
        proof {
            reveal(expr_view);
        }
        match expr {
            Expr::Call { name, args, return_type } => {
                proof {
                    lemma_call_view(*name, *args, *return_type);
                }
                match self.lookup_fn(name.as_str()) {
                    None => Err(Halt::Error(TypeError::UndefinedFunction { name: name.clone() })),
                    Some(sig) => {
                        proof {
                            lemma_exprs_view(args@);
                            assert(self.model().fns[name@] == (types_view(sig.0@), sig.1@));
                        }
                        if sig.0.len() != args.len() {
                            Err(Halt::Error(TypeError::ArgumentCount { name: name.clone(), expected: sig.0.len(), got: args.len() }))
                        } else {
                            match self.check_args(name, &sig.0, args) {
                                Err(e) => Err(e),
                                Ok(_) => Ok(sig.1.duplicate()),
                            }
                        }
                    },
                }
            },
            _ => Err(Halt::Error(TypeError::UnsupportedExpression)),
        }
    }

    /// The type of an array literal.
    fn check_array(&self, expr: &Expr) -> (r: Result<Type, Halt>)
        requires
            expr is Array,
        ensures
            h_outcome(r) == spec_check_expr(self.model(), expr@),
        decreases expr, 0nat,
    {
        proof {
            reveal(expr_view);
        }
        match expr {
            Expr::Array(es, elem) => {
                proof {
                    lemma_array_view(*es, *elem);
                    lemma_exprs_view(es@);
                }
                if es.len() == 0 {
                    Err(Halt::Error(TypeError::EmptyArray))
                } else {
                    match self.check_elems(elem, es) {
                        Err(e) => Err(e),
                        Ok(_) => Ok(Type::Array(Box::new(elem.duplicate()), Some(es.len()))),
                    }
                }
            },
            _ => Err(Halt::Error(TypeError::UnsupportedExpression)),
        }
    }

    /// The type of `array[index]`.
    fn check_index(&self, expr: &Expr) -> (r: Result<Type, Halt>)
        requires
            expr is ArrayAccess,
        ensures
            h_outcome(r) == spec_check_expr(self.model(), expr@),
        decreases expr, 0nat,
    {
        proof {
            reveal(expr_view);
        }
        match expr {
            Expr::ArrayAccess { array, index } => match self.check_expr(&**index) {
                Err(e) => Err(e),
                Ok(it) => match it {
                    Type::Int => match &**array {
                        Expr::Variable(name, ty) => {
                            proof {
                                assert((**array)@ == ExprV::Variable(name@, ty@));
                            }
                            self.check_array_access(name, &**index)
                        },
                        _ => Err(Halt::Error(TypeError::ArrayTypeError)),
                    },
                    _ => Err(Halt::Error(TypeError::IndexNotInt)),
                },
            },
            _ => Err(Halt::Error(TypeError::UnsupportedExpression)),
        }
    }

    /// The type of `*target = value`.
    fn check_deref_assign(&self, expr: &Expr) -> (r: Result<Type, Halt>)
        requires
            expr is DerefAssign,
        ensures
            h_outcome(r) == spec_check_expr(self.model(), expr@),
        decreases expr, 0nat,
    {
        proof {
            reveal(expr_view);
        }
        match expr {
            Expr::DerefAssign { target, value } => match self.check_expr(&**target) {
                Err(e) => Err(e),
                Ok(tt) => match tt {
                    Type::Pointer(inner) => match self.check_expr(&**value) {
                        Err(e) => Err(e),
                        Ok(vt) => {
                            if !type_eq(&vt, &*inner) {
                                Err(Halt::Error(TypeError::DerefAssignMismatch { expected: *inner, found: vt }))
                            } else {
                                Ok(*inner)
                            }
                        },
                    },
                    _ => Err(Halt::Error(TypeError::AssignThroughNonPointer)),
                },
            },
            _ => Err(Halt::Error(TypeError::UnsupportedExpression)),
        }
    }

    /// The type of a struct literal.
    fn check_struct_init(&self, expr: &Expr) -> (r: Result<Type, Halt>)
        requires
            expr is StructInit,
        ensures
            h_outcome(r) == spec_check_expr(self.model(), expr@),
        decreases expr, 0nat,
    {
        proof {
            reveal(expr_view);
        }
        match expr {
            Expr::StructInit { name, params } => {
                proof {
                    lemma_struct_init_view(*name, *params);
                }
                match self.class_fields.get(name.as_str()) {
                    None => Err(Halt::Error(TypeError::UndefinedClass { name: name.clone() })),
                    Some(fs) => {
                        proof {
                            assert(self.model().fields[name@] == fields_view(fs@));
                        }
                        match self.check_inits(name, fs, params) {
                            Err(e) => Err(e),
                            Ok(seen) => match find_missing_field(fs, &seen) {
                                Some(k) => Err(Halt::Error(TypeError::MissingInitializer { class: name.clone(), field: fs[k].0.clone() })),
                                None => {
                                    let inst = duplicate_fields(fs);
                                    let n = name.clone();
                                    proof {
                                        lemma_struct_view(n, inst);
                                        assert(fields_view(inst@) =~= fields_view(fs@));
                                    }
                                    Ok(Type::Struct { name: n, instances: inst })
                                },
                            },
                        }
                    },
                }
            },
            _ => Err(Halt::Error(TypeError::UnsupportedExpression)),
        }
    }

    /// The type of `expr`.
    fn check_expr(&self, expr: &Expr) -> (r: Result<Type, Halt>)
        ensures
            h_outcome(r) == spec_check_expr(self.model(), expr@),
        decreases expr, 1nat,
    {
        proof {
            reveal(expr_view);
        }
        match expr {
            Expr::FieldAssign { .. } => self.check_field_assign(expr),
            Expr::StringLiteral(_) => Ok(string_literal_type()),
            Expr::BoolLiteral(_) => Ok(Type::Bool),
            Expr::IntLiteral(_) => Ok(Type::Int),
            Expr::LongLiteral(_) => Ok(Type::Long),
            Expr::FloatLiteral(_) => Ok(Type::Float),
            Expr::CharLiteral(_) => Ok(Type::Char),
            Expr::Variable(name, _) => match self.variable_type(name) {
                Some(t) => Ok(t),
                None => Err(Halt::Error(TypeError::UndeclaredVariable { name: name.clone() })),
            },
            Expr::Assign { .. } => self.check_assign(expr),
            Expr::Binary { .. } => self.check_binary(expr),
            Expr::Unary { op, expr: operand, .. } => match self.check_expr(&**operand) {
                Err(e) => Err(e),
                Ok(t) => unary_type(*op, t),
            },
            Expr::Call { .. } => self.check_call(expr),
            Expr::Cast { expr: operand, target_type } => match self.check_expr(&**operand) {
                Err(e) => Err(e),
                Ok(t) => {
                    if cast_allowed(&t, target_type) {
                        Ok(target_type.duplicate())
                    } else {
                        Err(Halt::Error(TypeError::InvalidCast { from: t, to: target_type.duplicate() }))
                    }
                },
            },
            Expr::Array(..) => self.check_array(expr),
            Expr::ArrayAccess { .. } => self.check_index(expr),
            Expr::AddressOf(x) => match self.check_expr(&**x) {
                Err(e) => Err(e),
                Ok(t) => Ok(Type::Pointer(Box::new(t))),
            },
            Expr::DerefAssign { .. } => self.check_deref_assign(expr),
            Expr::StructInit { .. } => self.check_struct_init(expr),
            Expr::InstanceVar(class_name, field) => self.check_instance(class_name, field),
            _ => Err(Halt::Error(TypeError::UnsupportedExpression)),
        }
    }

}

/// How a check stops: with an error of the program, or where the checker cannot go on.
pub enum Halt {
    Error(TypeError),
    Panic,
}

/// What a check that stops with `h` reports.
pub open spec fn halt_outcome<A>(h: Halt) -> Outcome<A> {
    match h {
        Halt::Error(e) => Outcome::Fail(e@),
        Halt::Panic => Outcome::Panic,
    }
}

pub open spec fn h_outcome(r: Result<Type, Halt>) -> Outcome<TypeV> {
    match r {
        Ok(t) => Outcome::Done(t@),
        Err(h) => halt_outcome(h),
    }
}

pub open spec fn h_unit(r: Result<(), Halt>) -> Outcome<()> {
    match r {
        Ok(_) => Outcome::Done(()),
        Err(h) => halt_outcome(h),
    }
}

pub open spec fn h_stmt(r: Result<Stmt, Halt>) -> Outcome<StmtV> {
    match r {
        Ok(s) => Outcome::Done(s@),
        Err(h) => halt_outcome(h),
    }
}

pub open spec fn h_stmts(r: Result<Vec<Stmt>, Halt>) -> Outcome<Seq<StmtV>> {
    match r {
        Ok(ss) => Outcome::Done(stmts_view(ss@)),
        Err(h) => halt_outcome(h),
    }
}

/// A finished check's result for a caller that knows it did not panic.
fn unhalt<T>(r: Result<T, Halt>) -> (out: Result<T, TypeError>)
    requires
        !(r matches Err(Halt::Panic)),
    ensures
        r matches Ok(t) ==> out == Ok::<T, TypeError>(t),
        r matches Err(Halt::Error(e)) ==> out == Err::<T, TypeError>(e),
{
    match r {
        Ok(t) => Ok(t),
        Err(Halt::Error(e)) => Err(e),
        Err(Halt::Panic) => Err(TypeError::UnsupportedExpression),
    }
}

/// A finished check's result, or `None` where the checker cannot go on.
fn try_unhalt<T>(r: Result<T, Halt>) -> (out: Option<Result<T, TypeError>>)
    ensures
        out is None <==> r matches Err(Halt::Panic),
        r matches Ok(t) ==> out == Some(Ok::<T, TypeError>(t)),
        r matches Err(Halt::Error(e)) ==> out == Some(Err::<T, TypeError>(e)),
{
    match r {
        Ok(t) => Some(Ok(t)),
        Err(Halt::Error(e)) => Some(Err(e)),
        Err(Halt::Panic) => None,
    }
}

/// What a statement check that returns `r` reports.
pub open spec fn stmt_outcome_of(r: Result<Stmt, TypeError>) -> Outcome<StmtV> {
    match r {
        Ok(s) => Outcome::Done(s@),
        Err(e) => Outcome::Fail(e@),
    }
}

/// What a check of a list of statements that returns `r` reports.
pub open spec fn stmts_outcome_of(r: Result<Vec<Stmt>, TypeError>) -> Outcome<Seq<StmtV>> {
    match r {
        Ok(ss) => Outcome::Done(stmts_view(ss@)),
        Err(e) => Outcome::Fail(e@),
    }
}

/// The types of a list of parameters.
fn param_types_of(ps: &Vec<(String, Type)>) -> (r: Vec<Type>)
    ensures
        types_view(r@) == fields_view(ps@).map_values(|p: (Seq<char>, TypeV)| p.1),
{
    let mut out: Vec<Type> = Vec::new();
    let mut i: usize = 0;
    while i < ps.len()
        invariant
            i <= ps@.len(),
            out@.len() == i,
            forall|j: int| 0 <= j < i ==> #[trigger] out@[j]@ == ps@[j].1@,
        decreases ps@.len() - i,
    {
        out.push(ps[i].1.duplicate());
        i = i + 1;
    }
    proof {
        assert(types_view(out@) =~= fields_view(ps@).map_values(|p: (Seq<char>, TypeV)| p.1));
    }
    out
}

/// Whether one of the statements is a `return`.
fn any_return(ss: &Vec<Stmt>) -> (r: bool)
    ensures
        r == has_return(stmts_view(ss@)),
{
    proof {
        reveal(stmt_view);
        lemma_stmts_view_index(ss@);
    }
    let mut i: usize = 0;
    while i < ss.len()
        invariant
            i <= ss@.len(),
            stmts_view(ss@).len() == ss@.len(),
            forall|j: int| 0 <= j < ss@.len() ==> #[trigger] stmts_view(ss@)[j] == ss@[j]@,
            forall|j: int| 0 <= j < i ==> !(#[trigger] stmts_view(ss@)[j] is Return),
        decreases ss@.len() - i,
    {
        proof {
            reveal(stmt_view);
        }
        let is_return = match &ss[i] {
            Stmt::Return(_) => true,
            _ => false,
        };
        if is_return {
            proof {
                assert(stmts_view(ss@)[i as int] is Return);
            }
            return true;
        }
        i = i + 1;
    }
    false
}

/// Whether two of the fields share a name.
fn names_shared(fs: &Vec<(String, Type)>) -> (r: bool)
    ensures
        r == fields_share_name(fields_view(fs@)),
{
    let ghost fv = fields_view(fs@);
    let mut i: usize = 0;
    while i < fs.len()
        invariant
            i <= fs@.len(),
            fv == fields_view(fs@),
            forall|a: int, b: int| 0 <= a < i && 0 <= b < fv.len() && a != b ==> fv[a].0 != fv[b].0,
        decreases fs@.len() - i,
    {
        let mut j: usize = 0;
        while j < fs.len()
            invariant
                i < fs@.len(),
                j <= fs@.len(),
                fv == fields_view(fs@),
                forall|a: int, b: int| 0 <= a < i && 0 <= b < fv.len() && a != b ==> fv[a].0 != fv[b].0,
                forall|b: int| 0 <= b < j && i != b ==> fv[i as int].0 != fv[b].0,
            decreases fs@.len() - j,
        {
            if i != j && fs[i].0 == fs[j].0 {
                proof {
                    assert(fv[i as int].0 == fv[j as int].0);
                }
                return true;
            }
            j = j + 1;
        }
        i = i + 1;
    }
    false
}

impl TypeChecker {
    /// Opens a new, empty innermost scope.
    fn push_scope(&mut self)
        ensures
            final(self).model() == entered(old(self).model()),
    {
        proof {
            old(self).lemma_fields();
        }
        self.variables.push(Table::new());
        proof {
            self.lemma_fields();
            assert(scope_view(Map::<Seq<char>, Type>::empty()) =~= Map::empty());
            assert(self.model().vars =~= old(self).model().vars.push(Map::empty()));
        }
    }

    /// Closes the innermost scope.
    fn pop_scope(&mut self)
        requires
            old(self).model().vars.len() > 1,
        ensures
            final(self).model() == with_vars(old(self).model(), old(self).model().vars.drop_last()),
    {
        proof {
            old(self).lemma_fields();
        }
        self.variables.pop();
        proof {
            self.lemma_fields();
            assert(self.model().vars =~= old(self).model().vars.drop_last());
        }
    }

    /// Declares `name` of type `ty` in the innermost scope; an error when that scope
    /// already declares it.
    fn declare(&mut self, name: &String, ty: Type) -> (r: Result<(), Halt>)
        ensures
            (final(self).model(), h_unit(r)) == declare_in(old(self).model(), name@, ty@),
    {
        proof {
            old(self).lemma_fields();
        }
        if self.variables.len() == 0 {
            return Err(Halt::Panic);
        }
        let last = self.variables.len() - 1;
        if self.variables[last].contains_key(name.as_str()) {
            return Err(Halt::Error(TypeError::VariableRedeclared { name: name.clone() }));
        }
        let ghost t = ty@;
        let ghost tt = ty;
        let mut scope = self.variables.pop().unwrap();
        let ghost before = scope@;
        scope.insert(name.clone(), ty);
        self.variables.push(scope);
        proof {
            self.lemma_fields();
            assert(scope_view(before.insert(name@, tt)) =~= scope_view(before).insert(name@, t));
            assert(self.model().vars =~= old(self).model().vars.update(
                old(self).model().vars.len() - 1,
                old(self).model().vars.last().insert(name@, t),
            ));
        }
        Ok(())
    }

    /// Sets the return type of the function being checked.
    fn set_return_type(&mut self, ret: Option<Type>)
        ensures
            final(self).model() == with_ret(old(self).model(), opt_type_view(ret)),
    {
        proof {
            old(self).lemma_fields();
        }
        self.current_return_type = ret;
        proof {
            self.lemma_fields();
        }
    }

    /// Records whether a loop is open.
    fn set_in_loop(&mut self, in_loop: bool)
        ensures
            final(self).model() == with_loop(old(self).model(), in_loop),
    {
        proof {
            old(self).lemma_fields();
        }
        self.in_loop = in_loop;
        proof {
            self.lemma_fields();
        }
    }

    /// Declares the function `name`.
    fn add_fn(&mut self, name: &String, params: Vec<Type>, ret: Type)
        ensures
            final(self).model() == with_fn(old(self).model(), name@, (types_view(params@), ret@)),
    {
        proof {
            old(self).lemma_fields();
        }
        let ghost sig = (types_view(params@), ret@);
        let ghost before = self.functions@;
        self.functions.insert(name.clone(), (params, ret));
        proof {
            self.lemma_fields();
            assert(self.model().fns =~= old(self).model().fns.insert(name@, sig));
        }
    }

    /// Declares the parameters of a function in order.
    fn declare_all(&mut self, ps: &Vec<(String, Type)>) -> (r: Result<(), Halt>)
        ensures
            (final(self).model(), h_unit(r)) == declare_params(old(self).model(), fields_view(ps@)),
    {
        let ghost fv = fields_view(ps@);
        let ghost whole = declare_params(self.model(), fv);
        proof {
            assert(fv.skip(0) =~= fv);
        }
        let mut i: usize = 0;
        while i < ps.len()
            invariant
                i <= ps@.len(),
                fv == fields_view(ps@),
                whole == declare_params(old(self).model(), fv),
                whole == declare_params(self.model(), fv.skip(i as int)),
            decreases ps@.len() - i,
        {
            let ghost before = self.model();
            proof {
                assert(fv.skip(i as int)[0] == fv[i as int]);
                assert(fv[i as int] == (ps@[i as int].0@, ps@[i as int].1@));
                assert(fv.skip(i as int).skip(1) =~= fv.skip(i + 1));
            }
            let ty = ps[i].1.duplicate();
            match self.declare(&ps[i].0, ty) {
                Err(e) => {
                    proof {
                        assert(declare_in(before, fv[i as int].0, fv[i as int].1) == (self.model(), halt_outcome::<()>(e)));
                        assert(whole == declare_in(before, fv[i as int].0, fv[i as int].1));
                    }
                    return Err(e);
                },
                Ok(_) => {},
            }
            i = i + 1;
        }
        Ok(())
    }

    /// The declared type of a variable, a struct named without fields taking its class's fields.
    fn resolve_type(&self, t: &Type) -> (r: Result<Type, Halt>)
        ensures
            h_outcome(r) == resolve_decl_type(self.model(), t@),
    {
        match t {
            Type::Struct { name, instances } => {
                proof {
                    lemma_struct_view(*name, *instances);
                }
                if instances.len() == 0 {
                    match self.class_fields.get(name.as_str()) {
                        None => Err(Halt::Error(TypeError::UndefinedClass { name: name.clone() })),
                        Some(fs) => {
                            let inst = duplicate_fields(fs);
                            let n = name.clone();
                            proof {
                                lemma_struct_view(n, inst);
                                assert(fields_view(inst@) =~= fields_view(fs@));
                            }
                            Ok(Type::Struct { name: n, instances: inst })
                        },
                    }
                } else {
                    Ok(t.duplicate())
                }
            },
            _ => Ok(t.duplicate()),
        }
    }
}

/// Whether a value of type `vt` may initialise the variable `name` declared of type `resolved`.
fn check_decl_value(name: &String, resolved: &Type, vt: &Type) -> (r: Result<(), Halt>)
    ensures
        h_unit(r) == decl_value_check(name@, resolved@, vt@),
{
    match struct_name_of(resolved) {
        Some(cn) => match struct_name_of(vt) {
            Some(vn) => {
                if !(*cn == *vn) {
                    Err(Halt::Error(TypeError::DeclarationClassMismatch { name: name.clone(), expected: cn.clone(), found: vn.clone() }))
                } else {
                    Ok(())
                }
            },
            None => Err(Halt::Error(TypeError::DeclarationNotClass { name: name.clone(), expected: cn.clone(), found: vt.duplicate() })),
        },
        None => {
            if !type_eq(vt, resolved) {
                match vt {
                    Type::Array(t1, _) => match resolved {
                        Type::Array(t, _) => {
                            if !type_eq(&**t1, &**t) {
                                Err(Halt::Error(TypeError::DeclarationMismatch { name: name.clone(), expected: resolved.duplicate(), found: vt.duplicate() }))
                            } else {
                                Ok(())
                            }
                        },
                        _ => Err(Halt::Error(TypeError::DeclarationMismatch { name: name.clone(), expected: resolved.duplicate(), found: vt.duplicate() })),
                    },
                    _ => Ok(()),
                }
            } else {
                Ok(())
            }
        },
    }
}

/// An array literal given to an array variable has as many elements as its declared length.
fn check_array_size(name: &String, var_type: &Type, value: &Expr) -> (r: Result<(), Halt>)
    ensures
        h_unit(r) == array_size_check(name@, var_type@, value@),
{
    proof {
        reveal(expr_view);
    }
    match (var_type, value) {
        (Type::Array(_, size), Expr::Array(elems, ety)) => {
            proof {
                lemma_array_view(*elems, *ety);
                lemma_exprs_view(elems@);
            }
            match size {
                None => Err(Halt::Panic),
                Some(n) => {
                    if elems.len() != 0 && elems.len() != *n {
                        Err(Halt::Error(TypeError::ArraySizeMismatch { name: name.clone(), expected: *n, found: elems.len() }))
                    } else {
                        Ok(())
                    }
                },
            }
        },
        _ => Ok(()),
    }
}

impl TypeChecker {
    /// Checks a statement that declares nothing and opens no scope.
    fn check_plain(&self, stmt: Stmt) -> (r: Result<Stmt, Halt>)
        requires
            stmt is AtDecl || stmt is StructDecl || stmt is Expression || stmt is Return || stmt is Break
                || stmt is Continue,
        ensures
            (self.model(), h_stmt(r)) == spec_check_stmt(self.model(), stmt@),
        decreases stmt, 0nat,
    {
        proof {
            reveal(stmt_view);
        }
        match stmt {
            Stmt::AtDecl(decl, a, b, c, d) => {
                let import = "import".to_owned();
                let public = "public".to_owned();
                let private = "private".to_owned();
                if decl == import || decl == public || decl == private {
                    Ok(Stmt::AtDecl(decl, a, b, c, d))
                } else {
                    Err(Halt::Error(TypeError::UnknownDeclaration { decl }))
                }
            },
            Stmt::StructDecl { name, instances, union } => {
                if names_shared(&instances) {
                    Err(Halt::Error(TypeError::InstancesShareName))
                } else {
                    Ok(Stmt::StructDecl { name, instances, union })
                }
            },
            Stmt::Expression(e) => match self.check_expr(&e) {
                Err(x) => Err(x),
                Ok(_) => Ok(Stmt::Expression(e)),
            },
            Stmt::Return(o) => {
                let rt = match &o {
                    Some(e) => match self.check_expr(e) {
                        Err(x) => {
                            return Err(x);
                        },
                        Ok(t) => t,
                    },
                    None => Type::Void,
                };
                let found = base_type(&rt);
                match &self.current_return_type {
                    None => Err(Halt::Error(TypeError::ReturnOutsideFunction)),
                    Some(expected) => {
                        if !type_eq(expected, &found) {
                            Err(Halt::Error(TypeError::ReturnMismatch { expected: expected.duplicate(), found }))
                        } else {
                            Ok(Stmt::Return(o))
                        }
                    },
                }
            },
            Stmt::Break => {
                if !self.in_loop {
                    Err(Halt::Error(TypeError::BreakOutsideLoop))
                } else {
                    Ok(Stmt::Break)
                }
            },
            Stmt::Continue => {
                if !self.in_loop {
                    Err(Halt::Error(TypeError::ContinueOutsideLoop))
                } else {
                    Ok(Stmt::Continue)
                }
            },
            _ => Err(Halt::Error(TypeError::UnsupportedExpression)),
        }
    }

    /// Checks a variable declaration and declares the variable.
    fn check_var_decl(&mut self, stmt: Stmt) -> (r: Result<Stmt, Halt>)
        requires
            stmt is VarDecl,
        ensures
            (final(self).model(), h_stmt(r)) == spec_check_stmt(old(self).model(), stmt@),
        decreases stmt, 0nat,
    {
        proof {
            reveal(stmt_view);
        }
        match stmt {
            Stmt::VarDecl { name, var_type, value } => {
                let resolved = match self.resolve_type(&var_type) {
                    Err(e) => {
                        return Err(e);
                    },
                    Ok(t) => t,
                };
                let vt = match self.check_expr(&value) {
                    Err(e) => {
                        return Err(e);
                    },
                    Ok(t) => t,
                };
                match check_decl_value(&name, &resolved, &vt) {
                    Err(e) => {
                        return Err(e);
                    },
                    Ok(_) => {},
                }
                match check_array_size(&name, &var_type, &value) {
                    Err(e) => {
                        return Err(e);
                    },
                    Ok(_) => {},
                }
                let declared = resolved.duplicate();
                match self.declare(&name, declared) {
                    Err(e) => {
                        return Err(e);
                    },
                    Ok(_) => {},
                }
                Ok(Stmt::VarDecl { name, var_type: resolved, value })
            },
            _ => Err(Halt::Error(TypeError::UnsupportedExpression)),
        }
    }

    /// Declares a function and checks its body in a scope of its own.
    fn check_fun_decl(&mut self, stmt: Stmt) -> (r: Result<Stmt, Halt>)
        requires
            stmt is FunDecl,
        ensures
            (final(self).model(), h_stmt(r)) == spec_check_stmt(old(self).model(), stmt@),
        decreases stmt, 0nat,
    {
        proof {
            reveal(stmt_view);
        }
        match stmt {
            Stmt::FunDecl { name, params, return_type, body, attributes } => {
                proof {
                    lemma_stmt_lists_view(name, params, return_type, body, attributes);
                }
                let pts = param_types_of(&params);
                self.add_fn(&name, pts, return_type.duplicate());
                self.push_scope();
                self.set_return_type(Some(return_type.duplicate()));
                match self.declare_all(&params) {
                    Err(e) => {
                        return Err(e);
                    },
                    Ok(_) => {},
                }
                let checked = match self.check_stmts(body) {
                    Err(e) => {
                        return Err(e);
                    },
                    Ok(c) => c,
                };
                let is_void = match &return_type {
                    Type::Void => true,
                    _ => false,
                };
                if !is_void && !any_return(&checked) {
                    return Err(Halt::Error(TypeError::MissingReturn { name, return_type }));
                }
                proof {
                    self.lemma_fields();
                }
                if self.variables.len() <= 1 {
                    return Err(Halt::Panic);
                }
                self.pop_scope();
                self.set_return_type(None);
                proof {
                    lemma_stmt_lists_view(name, params, return_type, checked, attributes);
                }
                Ok(Stmt::FunDecl { name, params, return_type, body: checked, attributes })
            },
            _ => Err(Halt::Error(TypeError::UnsupportedExpression)),
        }
    }

    /// Checks an `if` statement.
    fn check_if(&mut self, stmt: Stmt) -> (r: Result<Stmt, Halt>)
        requires
            stmt is If,
        ensures
            (final(self).model(), h_stmt(r)) == spec_check_stmt(old(self).model(), stmt@),
        decreases stmt, 0nat,
    {
        proof {
            reveal(stmt_view);
        }
        match stmt {
            Stmt::If { condition, then_stmt, else_stmt } => {
                match self.check_expr(&condition) {
                    Err(e) => {
                        return Err(e);
                    },
                    Ok(ct) => match ct {
                        Type::Bool => {},
                        _ => {
                            return Err(Halt::Error(TypeError::IfConditionNotBool));
                        },
                    },
                }
                let t1 = match self.check_stmt(*then_stmt) {
                    Err(e) => {
                        return Err(e);
                    },
                    Ok(t) => t,
                };
                match else_stmt {
                    None => Ok(Stmt::If { condition, then_stmt: Box::new(t1), else_stmt: None }),
                    Some(e) => match self.check_stmt(*e) {
                        Err(x) => Err(x),
                        Ok(e1) => Ok(Stmt::If { condition, then_stmt: Box::new(t1), else_stmt: Some(Box::new(e1)) }),
                    },
                }
            },
            _ => Err(Halt::Error(TypeError::UnsupportedExpression)),
        }
    }

    /// Checks a `while` loop.
    fn check_while(&mut self, stmt: Stmt) -> (r: Result<Stmt, Halt>)
        requires
            stmt is While,
        ensures
            (final(self).model(), h_stmt(r)) == spec_check_stmt(old(self).model(), stmt@),
        decreases stmt, 0nat,
    {
        proof {
            reveal(stmt_view);
        }
        match stmt {
            Stmt::While { condition, body } => {
                match self.check_expr(&condition) {
                    Err(e) => {
                        return Err(e);
                    },
                    Ok(ct) => match ct {
                        Type::Bool => {},
                        _ => {
                            return Err(Halt::Error(TypeError::WhileConditionNotBool));
                        },
                    },
                }
                let prev = self.in_loop;
                self.set_in_loop(true);
                let b = match self.check_stmt(*body) {
                    Err(e) => {
                        return Err(e);
                    },
                    Ok(b) => b,
                };
                self.set_in_loop(prev);
                Ok(Stmt::While { condition, body: Box::new(b) })
            },
            _ => Err(Halt::Error(TypeError::UnsupportedExpression)),
        }
    }

    /// Checks a `for` loop in a scope of its own.
    fn check_for(&mut self, stmt: Stmt) -> (r: Result<Stmt, Halt>)
        requires
            stmt is For,
        ensures
            (final(self).model(), h_stmt(r)) == spec_check_stmt(old(self).model(), stmt@),
        decreases stmt, 0nat,
    {
        proof {
            reveal(stmt_view);
        }
        match stmt {
            Stmt::For { init, condition, update, body } => {
                let prev = self.in_loop;
                self.push_scope();
                self.set_in_loop(true);
                let ci = match init {
                    Some(i) => match self.check_stmt(*i) {
                        Err(e) => {
                            return Err(e);
                        },
                        Ok(x) => Some(Box::new(x)),
                    },
                    None => None,
                };
                match &condition {
                    Some(c) => match self.check_expr(c) {
                        Err(e) => {
                            return Err(e);
                        },
                        Ok(_) => {},
                    },
                    None => {},
                }
                match &update {
                    Some(u) => match self.check_expr(u) {
                        Err(e) => {
                            return Err(e);
                        },
                        Ok(_) => {},
                    },
                    None => {},
                }
                let b = match self.check_stmt(*body) {
                    Err(e) => {
                        return Err(e);
                    },
                    Ok(b) => b,
                };
                proof {
                    self.lemma_fields();
                }
                if self.variables.len() <= 1 {
                    return Err(Halt::Panic);
                }
                self.pop_scope();
                self.set_in_loop(prev);
                Ok(Stmt::For { init: ci, condition, update, body: Box::new(b) })
            },
            _ => Err(Halt::Error(TypeError::UnsupportedExpression)),
        }
    }

    /// Checks a block in a scope of its own.
    fn check_block(&mut self, stmt: Stmt) -> (r: Result<Stmt, Halt>)
        requires
            stmt is Block,
        ensures
            (final(self).model(), h_stmt(r)) == spec_check_stmt(old(self).model(), stmt@),
        decreases stmt, 0nat,
    {
        proof {
            reveal(stmt_view);
        }
        match stmt {
            Stmt::Block(ss) => {
                proof {
                    lemma_stmt_lists_view(arbitrary(), arbitrary(), arbitrary(), ss, arbitrary());
                }
                self.push_scope();
                let c = match self.check_stmts(ss) {
                    Err(e) => {
                        return Err(e);
                    },
                    Ok(c) => c,
                };
                proof {
                    self.lemma_fields();
                }
                if self.variables.len() <= 1 {
                    return Err(Halt::Panic);
                }
                self.pop_scope();
                proof {
                    lemma_stmt_lists_view(arbitrary(), arbitrary(), arbitrary(), c, arbitrary());
                }
                Ok(Stmt::Block(c))
            },
            _ => Err(Halt::Error(TypeError::UnsupportedExpression)),
        }
    }

    /// The statements checked in order; checking stops at the first failure.
    fn check_stmts(&mut self, ss: Vec<Stmt>) -> (r: Result<Vec<Stmt>, Halt>)
        ensures
            (final(self).model(), h_stmts(r)) == spec_check_stmts(old(self).model(), stmts_view(ss@), Seq::empty()),
        decreases ss, 0nat,
    {
        let ghost whole = spec_check_stmts(self.model(), stmts_view(ss@), Seq::empty());
        let ghost entry = ss;
        let ghost orig = ss@;
        let mut rest = ss;
        let mut out: Vec<Stmt> = Vec::new();
        proof {
            lemma_list_views_empty();
            assert(orig.skip(0) =~= orig);
        }
        let ghost mut k: int = 0;
        while rest.len() > 0
            invariant
                entry == ss,
                orig == entry@,
                whole == spec_check_stmts(old(self).model(), stmts_view(orig), Seq::empty()),
                0 <= k,
                k + rest@.len() == orig.len(),
                rest@ == orig.skip(k),
                whole == spec_check_stmts(self.model(), stmts_view(rest@), stmts_view(out@)),
            decreases rest@.len(),
        {
            let ghost before = rest@;
            let ghost done = out@;
            let ghost m_before = self.model();
            let x = rest.remove(0);
            proof {
                lemma_stmts_view_index(before);
                lemma_stmts_view_index(rest@);
                assert(stmts_view(before)[0] == x@);
                assert(stmts_view(before).skip(1) =~= stmts_view(rest@));
                assert(x == orig[k]);
                assert(decreases_to!(entry => entry@[k]));
                assert(rest@ =~= orig.skip(k + 1));
            }
            proof {
                assert(whole == spec_check_stmts(m_before, stmts_view(before), stmts_view(done)));
            }
            match self.check_stmt(x) {
                Err(e) => {
                    proof {
                        assert(spec_check_stmt(m_before, stmts_view(before)[0]) == (self.model(), halt_outcome::<StmtV>(e)));
                    }
                    return Err(e);
                },
                Ok(c) => {
                    out.push(c);
                    proof {
                        lemma_list_views_push(arbitrary(), arbitrary(), arbitrary(), arbitrary(), done, c);
                    }
                },
            }
            proof {
                k = k + 1;
            }
        }
        proof {
            lemma_stmts_view_index(rest@);
            assert(stmts_view(rest@) =~= Seq::<StmtV>::empty());
        }
        Ok(out)
    }

    /// Checks a statement.
    fn check_stmt(&mut self, stmt: Stmt) -> (r: Result<Stmt, Halt>)
        ensures
            (final(self).model(), h_stmt(r)) == spec_check_stmt(old(self).model(), stmt@),
        decreases stmt, 1nat,
    {
        let kind: u8 = match &stmt {
            Stmt::VarDecl { .. } => 0,
            Stmt::FunDecl { .. } => 1,
            Stmt::If { .. } => 2,
            Stmt::While { .. } => 3,
            Stmt::For { .. } => 4,
            Stmt::Block(_) => 5,
            _ => 6,
        };
        if kind == 0 {
            self.check_var_decl(stmt)
        } else if kind == 1 {
            self.check_fun_decl(stmt)
        } else if kind == 2 {
            self.check_if(stmt)
        } else if kind == 3 {
            self.check_while(stmt)
        } else if kind == 4 {
            self.check_for(stmt)
        } else if kind == 5 {
            self.check_block(stmt)
        } else {
            self.check_plain(stmt)
        }
    }

}

/// Whether the program imports `io`.
fn program_imports_io(prog: &Vec<Stmt>) -> (r: bool)
    ensures
        r == imports_io(stmts_view(prog@)),
{
    proof {
        lemma_stmts_view_index(prog@);
    }
    let import = "import".to_owned();
    let io = "io".to_owned();
    let mut i: usize = 0;
    while i < prog.len()
        invariant
            i <= prog@.len(),
            import@ == "import"@,
            io@ == "io"@,
            stmts_view(prog@).len() == prog@.len(),
            forall|j: int| 0 <= j < prog@.len() ==> #[trigger] stmts_view(prog@)[j] == prog@[j]@,
            forall|j: int| 0 <= j < i ==> !is_import_of(#[trigger] stmts_view(prog@)[j], Some("io"@)),
        decreases prog@.len() - i,
    {
        proof {
            reveal(stmt_view);
        }
        let found = match &prog[i] {
            Stmt::AtDecl(d, Some(p), _, _, _) => *d == import && *p == io,
            _ => false,
        };
        if found {
            proof {
                assert(is_import_of(stmts_view(prog@)[i as int], Some("io"@)));
            }
            return true;
        }
        i = i + 1;
    }
    false
}

impl TypeChecker {
    /// Declares a builtin taking one argument of type `arg` and returning nothing.
    fn add_builtin(&mut self, name: &str, arg: Type)
        ensures
            final(self).model() == with_fn(old(self).model(), name@, (seq![arg@], TypeV::Void)),
    {
        let mut params: Vec<Type> = Vec::new();
        params.push(arg);
        proof {
            assert(types_view(params@) =~= seq![params@[0]@]);
        }
        self.add_fn(&name.to_owned(), params, Type::Void);
    }

    /// Records a struct and its fields.
    fn add_class(&mut self, name: &String, fs: &Vec<(String, Type)>)
        ensures
            final(self).model() == with_class(old(self).model(), name@, fields_view(fs@)),
    {
        proof {
            old(self).lemma_fields();
        }
        let inst = duplicate_fields(fs);
        proof {
            assert(fields_view(inst@) =~= fields_view(fs@));
        }
        let ghost before = self.class_fields@;
        self.classes.push(name.clone());
        self.class_fields.insert(name.clone(), inst);
        proof {
            self.lemma_fields();
            assert(self.model().classes =~= old(self).model().classes.push(name@));
            assert(self.model().fields =~= old(self).model().fields.insert(name@, fields_view(fs@)));
        }
    }

    /// Registers the functions and structs of the program in order.
    fn register_all(&mut self, prog: &Vec<Stmt>) -> (r: Result<(), Halt>)
        ensures
            (final(self).model(), h_unit(r)) == register_decls(old(self).model(), stmts_view(prog@), Seq::empty()),
    {
        let ghost pv = stmts_view(prog@);
        let ghost whole = register_decls(self.model(), pv, Seq::empty());
        let mut seen: Vec<String> = Vec::new();
        proof {
            lemma_stmts_view_index(prog@);
            assert(pv.skip(0) =~= pv);
            assert(names_view(seen@) =~= Seq::<Seq<char>>::empty());
        }
        let mut i: usize = 0;
        while i < prog.len()
            invariant
                i <= prog@.len(),
                pv == stmts_view(prog@),
                pv.len() == prog@.len(),
                forall|j: int| 0 <= j < prog@.len() ==> #[trigger] pv[j] == prog@[j]@,
                whole == register_decls(old(self).model(), pv, Seq::empty()),
                whole == register_decls(self.model(), pv.skip(i as int), names_view(seen@)),
            decreases prog@.len() - i,
        {
            proof {
                reveal(stmt_view);
                assert(pv.skip(i as int)[0] == pv[i as int]);
                assert(pv.skip(i as int).skip(1) =~= pv.skip(i + 1));
            }
            match &prog[i] {
                Stmt::FunDecl { name, params, return_type, .. } => {
                    if contains_name(&seen, name) {
                        return Err(Halt::Error(TypeError::FunctionRedeclared { name: name.clone() }));
                    }
                    let pts = param_types_of(params);
                    self.add_fn(name, pts, return_type.duplicate());
                    let ghost before = seen@;
                    seen.push(name.clone());
                    proof {
                        assert(names_view(seen@) =~= names_view(before).push(name@));
                    }
                },
                Stmt::StructDecl { name, instances, .. } => {
                    self.add_class(name, instances);
                },
                _ => {},
            }
            i = i + 1;
        }
        Ok(())
    }
}

/// Whether some import of the program names no path.
fn program_has_pathless_import(prog: &Vec<Stmt>) -> (r: bool)
    ensures
        r == import_without_path(stmts_view(prog@)),
{
    proof {
        lemma_stmts_view_index(prog@);
    }
    let import = "import".to_owned();
    let mut i: usize = 0;
    while i < prog.len()
        invariant
            i <= prog@.len(),
            import@ == "import"@,
            stmts_view(prog@).len() == prog@.len(),
            forall|j: int| 0 <= j < prog@.len() ==> #[trigger] stmts_view(prog@)[j] == prog@[j]@,
            forall|j: int| 0 <= j < i ==> !is_import_of(#[trigger] stmts_view(prog@)[j], None),
        decreases prog@.len() - i,
    {
        proof {
            reveal(stmt_view);
        }
        let found = match &prog[i] {
            Stmt::AtDecl(d, None, _, _, _) => *d == import,
            _ => false,
        };
        if found {
            proof {
                assert(is_import_of(stmts_view(prog@)[i as int], None));
            }
            return true;
        }
        i = i + 1;
    }
    false
}

/// Type-checks a program, stopping where the checker cannot go on.
fn analyze(imported: Vec<Stmt>, program: Vec<Stmt>) -> (r: Result<Vec<Stmt>, Halt>)
    ensures
        h_stmts(r) == spec_analyze(stmts_view(imported@), stmts_view(program@)),
{
    if program_has_pathless_import(&program) {
        return Err(Halt::Panic);
    }
    let mut checker = TypeChecker::new();
    if program_imports_io(&program) {
        checker.add_builtin("print_int", Type::Int);
        checker.add_builtin("print_bool", Type::Bool);
        checker.add_builtin("print_char", Type::Char);
    }
    let ghost iv = imported@;
    let ghost pv = program@;
    let mut full = imported;
    let mut rest = program;
    full.append(&mut rest);
    proof {
        lemma_stmts_view_index(iv);
        lemma_stmts_view_index(pv);
        lemma_stmts_view_index(full@);
        assert(stmts_view(full@) =~= stmts_view(iv) + stmts_view(pv));
    }
    match checker.register_all(&full) {
        Err(e) => Err(e),
        Ok(_) => checker.check_stmts(full),
    }
}

impl TypeChecker {
    /// The type of `expr` in the checker's current scopes and declarations; the checker
    /// is left as it was. An error says why `expr` does not type-check.
    pub fn type_check_expr(&mut self, expr: &Expr) -> (r: Result<Type, TypeError>)
        requires
            !(spec_check_expr(old(self).model(), expr@) is Panic),
        ensures
            final(self).model() == old(self).model(),
            outcome_of(r) == spec_check_expr(old(self).model(), expr@),
    {
        unhalt(self.check_expr(expr))
    }

    /// As `type_check_expr`, for any expression: `None` exactly where the checker
    /// cannot go on.
    pub fn try_type_check_expr(&mut self, expr: &Expr) -> (r: Option<Result<Type, TypeError>>)
        ensures
            final(self).model() == old(self).model(),
            r is None <==> spec_check_expr(old(self).model(), expr@) is Panic,
            r matches Some(x) ==> outcome_of(x) == spec_check_expr(old(self).model(), expr@),
    {
        try_unhalt(self.check_expr(expr))
    }

    /// Checks `stmt` in the checker's current scopes and declarations: declarations are
    /// recorded, and the checked statement is returned, a variable declared with a struct
    /// type named without fields taking its class's fields. An error says why `stmt` does
    /// not type-check; the checker is then left as the check found it.
    pub fn type_check_stmt(&mut self, stmt: Stmt) -> (r: Result<Stmt, TypeError>)
        requires
            !(spec_check_stmt(old(self).model(), stmt@).1 is Panic),
        ensures
            (final(self).model(), stmt_outcome_of(r)) == spec_check_stmt(old(self).model(), stmt@),
    {
        unhalt(self.check_stmt(stmt))
    }

    /// As `type_check_stmt`, for any statement: `None` exactly where the checker cannot
    /// go on; the checker is left as the check found it.
    pub fn try_type_check_stmt(&mut self, stmt: Stmt) -> (r: Option<Result<Stmt, TypeError>>)
        ensures
            final(self).model() == spec_check_stmt(old(self).model(), stmt@).0,
            r is None <==> spec_check_stmt(old(self).model(), stmt@).1 is Panic,
            r matches Some(x) ==> stmt_outcome_of(x) == spec_check_stmt(old(self).model(), stmt@).1,
    {
        try_unhalt(self.check_stmt(stmt))
    }

    /// Type-checks a program whose imported files' statements come first in `imported`: the
    /// builtins of `io` are declared when `program` imports it, every function and struct is
    /// registered, and then every statement is checked in order. The checked statements come
    /// back; an error says why the program does not type-check.
    pub fn analyze_program(imported: Vec<Stmt>, program: Vec<Stmt>) -> (r: Result<Vec<Stmt>, TypeError>)
        requires
            !(spec_analyze(stmts_view(imported@), stmts_view(program@)) is Panic),
        ensures
            stmts_outcome_of(r) == spec_analyze(stmts_view(imported@), stmts_view(program@)),
    {
        unhalt(analyze(imported, program))
    }

    /// As `analyze_program`, for any program: `None` exactly where the checker cannot
    /// go on.
    pub fn try_analyze_program(imported: Vec<Stmt>, program: Vec<Stmt>) -> (r: Option<Result<Vec<Stmt>, TypeError>>)
        ensures
            r is None <==> spec_analyze(stmts_view(imported@), stmts_view(program@)) is Panic,
            r matches Some(x) ==> stmts_outcome_of(x) == spec_analyze(stmts_view(imported@), stmts_view(program@)),
    {
        try_unhalt(analyze(imported, program))
    }
}

proof fn lemma_declare_params_depth(m: TcModel, ps: Seq<(Seq<char>, TypeV)>)
    ensures
        declare_params(m, ps).0.vars.len() == m.vars.len(),
        declare_params(m, ps).0.in_loop == m.in_loop,
    decreases ps.len(),
{
    if ps.len() > 0 {
        let (m1, o) = declare_in(m, ps[0].0, ps[0].1);
        if o is Done {
            lemma_declare_params_depth(m1, ps.skip(1));
        }
    }
}

/// A statement that type-checks leaves as many scopes open as there were, and a loop
/// open exactly when one was.
pub proof fn law_checked_stmt_keeps_scopes(m: TcModel, s: StmtV)
    ensures
        spec_check_stmt(m, s).1 is Done ==> spec_check_stmt(m, s).0.vars.len() == m.vars.len()
            && spec_check_stmt(m, s).0.in_loop == m.in_loop,
    decreases s, 1nat,
{
    match s {
        StmtV::FunDecl { name, params, return_type, body, attributes } => {
            let m1 = with_ret(
                entered(with_fn(m, name, (params.map_values(|p: (Seq<char>, TypeV)| p.1), return_type))),
                Some(return_type),
            );
            lemma_declare_params_depth(m1, params);
            let (m2, o) = declare_params(m1, params);
            if o is Done {
                law_checked_stmts_keep_scopes(m2, body, Seq::empty());
            }
        },
        StmtV::If { then_stmt, else_stmt, .. } => {
            law_checked_stmt_keeps_scopes(m, *then_stmt);
            let (m1, _) = spec_check_stmt(m, *then_stmt);
            match else_stmt {
                Some(e) => law_checked_stmt_keeps_scopes(m1, *e),
                None => {},
            }
        },
        StmtV::While { body, .. } => {
            law_checked_stmt_keeps_scopes(with_loop(m, true), *body);
        },
        StmtV::For { init, body, .. } => {
            let m1 = with_loop(entered(m), true);
            let m2 = match init {
                Some(i) => {
                    law_checked_stmt_keeps_scopes(m1, *i);
                    spec_check_stmt(m1, *i).0
                },
                None => m1,
            };
            law_checked_stmt_keeps_scopes(m2, *body);
        },
        StmtV::Block(ss) => {
            law_checked_stmts_keep_scopes(entered(m), ss, Seq::empty());
        },
        _ => {},
    }
}

/// Statements that type-check leave as many scopes open as there were, and a loop open
/// exactly when one was.
pub proof fn law_checked_stmts_keep_scopes(m: TcModel, ss: Seq<StmtV>, done: Seq<StmtV>)
    ensures
        spec_check_stmts(m, ss, done).1 is Done ==> spec_check_stmts(m, ss, done).0.vars.len() == m.vars.len()
            && spec_check_stmts(m, ss, done).0.in_loop == m.in_loop,
    decreases ss, 0nat,
{
    if ss.len() > 0 {
        law_checked_stmt_keeps_scopes(m, ss[0]);
        let (m1, o) = spec_check_stmt(m, ss[0]);
        if o is Done {
            law_checked_stmts_keep_scopes(m1, ss.skip(1), done.push(o->Done_0));
        }
    }
}

/// After a variable declaration type-checks, the variable is found by its name with the
/// type it was declared with, a struct named without fields taking its class's fields.
pub proof fn law_declared_variable_visible(m: TcModel, name: Seq<char>, var_type: TypeV, value: ExprV)
    ensures
        spec_check_stmt(m, StmtV::VarDecl { name, var_type, value }).1 matches Outcome::Done(StmtV::VarDecl { var_type: t, .. })
            ==> lookup_v(spec_check_stmt(m, StmtV::VarDecl { name, var_type, value }).0.vars, name) == Some(t),
{
}

/// Whether `op` compares or combines truth values: its result is a `bool`.
pub open spec fn yields_bool(op: BinaryOp) -> bool {
    op is Equal || op is NotEqual || op is Less || op is LessEqual || op is Greater || op is GreaterEqual
        || op is And || op is Or
}

/// The binary expression `l op r`.
pub open spec fn binary_expr(l: ExprV, op: BinaryOp, r: ExprV, rt: TypeV) -> ExprV {
    ExprV::Binary { left: Box::new(l), op, right: Box::new(r), result_type: rt }
}

/// A comparison, an equality test or a logical operation that type-checks is a `bool`;
/// arithmetic that type-checks has the type of its operands, which is a number.
pub proof fn law_binary_result_type(m: TcModel, l: ExprV, op: BinaryOp, r: ExprV, rt: TypeV)
    ensures
        spec_check_expr(m, binary_expr(l, op, r, rt)) matches Outcome::Done(t) ==> {
            &&& spec_check_expr(m, l) == Outcome::Done(spec_check_expr(m, r)->Done_0)
            &&& yields_bool(op) ==> t == TypeV::Bool
            &&& !yields_bool(op) ==> t == spec_check_expr(m, l)->Done_0 && (t == TypeV::Int || t == TypeV::Float)
        },
{
}

/// Two operands of one type `t`: `==` and `!=` always give `bool`; `<`, `<=`, `>`, `>=`
/// give `bool` on numbers and otherwise the error that comparisons need numbers; `&&`
/// and `||` give `bool` on booleans and otherwise the error that they need booleans;
/// `+`, `-`, `*`, `/`, `%` give `t` on numbers and otherwise the error that arithmetic
/// needs numbers. Operands of two different types are a mismatch naming both types.
pub proof fn law_binary_on_checked_operands(m: TcModel, l: ExprV, op: BinaryOp, r: ExprV, rt: TypeV, t: TypeV, u: TypeV)
    requires
        spec_check_expr(m, l) == Outcome::Done(t),
        spec_check_expr(m, r) == Outcome::Done(u),
    ensures
        ({
            let res = spec_check_expr(m, binary_expr(l, op, r, rt));
            let numeric = t == TypeV::Int || t == TypeV::Float;
            &&& t != u ==> res == Outcome::<TypeV>::Fail(TypeErrorV::BinaryMismatch { left: t, right: u })
            &&& t == u && (op is Equal || op is NotEqual) ==> res == Outcome::Done(TypeV::Bool)
            &&& t == u && (op is Less || op is LessEqual || op is Greater || op is GreaterEqual) ==> (if numeric {
                res == Outcome::Done(TypeV::Bool)
            } else {
                res == Outcome::<TypeV>::Fail(TypeErrorV::ComparisonNeedsNumbers { found: t })
            })
            &&& t == u && (op is And || op is Or) ==> (if t == TypeV::Bool {
                res == Outcome::Done(TypeV::Bool)
            } else {
                res == Outcome::<TypeV>::Fail(TypeErrorV::LogicalNeedsBools)
            })
            &&& t == u && (op is Add || op is Sub || op is Mul || op is Div || op is Mod) ==> (if numeric {
                res == Outcome::Done(t)
            } else {
                res == Outcome::<TypeV>::Fail(TypeErrorV::ArithmeticNeedsNumbers { found: t })
            })
        }),
{
}

/// On an operand of type `t`: `!` gives `bool` on a `bool` and the error that it needs
/// one otherwise; negation gives `t` on a number and the error that it needs one
/// otherwise; `&` gives a pointer to `t`; `*` gives what a pointer points to, and the
/// error that it needs a pointer on anything else.
pub proof fn law_unary_result_type(m: TcModel, op: UnaryOp, e: ExprV, rt: TypeV, t: TypeV)
    requires
        spec_check_expr(m, e) == Outcome::Done(t),
    ensures
        ({
            let res = spec_check_expr(m, ExprV::Unary { op, expr: Box::new(e), result_type: rt });
            &&& op is Not ==> (if t == TypeV::Bool {
                res == Outcome::Done(TypeV::Bool)
            } else {
                res == Outcome::<TypeV>::Fail(TypeErrorV::NotNeedsBool)
            })
            &&& op is Negate ==> (if t == TypeV::Int || t == TypeV::Float {
                res == Outcome::Done(t)
            } else {
                res == Outcome::<TypeV>::Fail(TypeErrorV::NegateNeedsNumber)
            })
            &&& op is AddressOf ==> res == Outcome::Done(TypeV::Pointer(Box::new(t)))
            &&& op is Dereference ==> (if t is Pointer {
                res == Outcome::Done(*t->Pointer_0)
            } else {
                res == Outcome::<TypeV>::Fail(TypeErrorV::DerefNonPointer)
            })
        }),
{
}

/// The condition of an `if` or a `while` must be a `bool`: with a condition of any
/// other type the statement is refused with the error that names it, and a statement
/// that checks has a `bool` condition, which it keeps as written.
pub proof fn law_conditions_are_bool(m: TcModel, c: ExprV, th: StmtV, el: Option<Box<StmtV>>, body: StmtV, ct: TypeV)
    requires
        spec_check_expr(m, c) == Outcome::Done(ct),
    ensures
        ct != TypeV::Bool ==> spec_check_stmt(m, StmtV::If { condition: c, then_stmt: Box::new(th), else_stmt: el }).1
            == Outcome::<StmtV>::Fail(TypeErrorV::IfConditionNotBool),
        ct != TypeV::Bool ==> spec_check_stmt(m, StmtV::While { condition: c, body: Box::new(body) }).1
            == Outcome::<StmtV>::Fail(TypeErrorV::WhileConditionNotBool),
        spec_check_stmt(m, StmtV::If { condition: c, then_stmt: Box::new(th), else_stmt: el }).1 matches Outcome::Done(s2)
            ==> ct == TypeV::Bool && s2 is If && s2->If_condition == c,
        spec_check_stmt(m, StmtV::While { condition: c, body: Box::new(body) }).1 matches Outcome::Done(s2)
            ==> ct == TypeV::Bool && s2 is While && s2->While_condition == c,
{
}

} // verus!
