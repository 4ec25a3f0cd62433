use vstd::prelude::*;

use crate::token::{TokenType, TokenTypeV};

verus! {

/// A type of the language.
#[derive(Debug)]
pub enum Type {
    Int,
    Float,
    Long,
    Char,
    Null,
    Bool,
    Array(Box<Type>, Option<usize>),
    Function,
    Struct { name: String, instances: Vec<(String, Type)> },
    StructLiteral(String),
    Void,
    Unknown,
    Pointer(Box<Type>),
}

/// The mathematical model of a `Type`: names become character sequences.
pub enum TypeV {
    Int,
    Float,
    Long,
    Char,
    Null,
    Bool,
    Array(Box<TypeV>, Option<usize>),
    Function,
    Struct { name: Seq<char>, instances: Seq<(Seq<char>, TypeV)> },
    StructLiteral(Seq<char>),
    Void,
    Unknown,
    Pointer(Box<TypeV>),
}

pub open spec fn type_view(t: Type) -> TypeV
    decreases t,
{
    match t {
        Type::Int => TypeV::Int,
        Type::Float => TypeV::Float,
        Type::Long => TypeV::Long,
        Type::Char => TypeV::Char,
        Type::Null => TypeV::Null,
        Type::Bool => TypeV::Bool,
        Type::Array(e, n) => TypeV::Array(Box::new(type_view(*e)), n),
        Type::Function => TypeV::Function,
        Type::Struct { name, instances } => TypeV::Struct {
            name: name@,
            instances: Seq::new(
                instances@.len(),
                |i: int|
                    if 0 <= i < instances@.len() {
                        (instances@[i].0@, type_view(instances@[i].1))
                    } else {
                        (Seq::empty(), TypeV::Unknown)
                    },
            ),
        },
        Type::StructLiteral(n) => TypeV::StructLiteral(n@),
        Type::Void => TypeV::Void,
        Type::Unknown => TypeV::Unknown,
        Type::Pointer(e) => TypeV::Pointer(Box::new(type_view(*e))),
    }
}

/// The model of a list of named fields.
pub open spec fn fields_view(fs: Seq<(String, Type)>) -> Seq<(Seq<char>, TypeV)> {
    Seq::new(fs.len(), |i: int| (fs[i].0@, type_view(fs[i].1)))
}

pub proof fn lemma_struct_view(name: String, instances: Vec<(String, Type)>)
    ensures
        type_view(Type::Struct { name, instances }) == (TypeV::Struct {
            name: name@,
            instances: fields_view(instances@),
        }),
{
    assert(type_view(Type::Struct { name, instances })->instances =~= fields_view(instances@));
}

impl View for Type {
    type V = TypeV;

    open spec fn view(&self) -> TypeV {
        type_view(*self)
    }
}

} // verus!

verus! {

/// The width of a register that holds a value.
#[derive(Debug, Clone, Copy, PartialEq, Eq, Hash, Structural)]
pub enum RegWidth {
    W8,
    W16,
    W32,
    W64,
    W128,
}

pub open spec fn spec_type_size(t: TypeV) -> nat
    decreases t,
{
    match t {
        TypeV::Int => 4,
        TypeV::Float => 4,
        TypeV::Char => 1,
        TypeV::Bool => 1,
        TypeV::Pointer(_) => 8,
        TypeV::Array(e, n) => spec_type_size(*e) * match n {
            Some(k) => k as nat,
            None => 0,
        },
        TypeV::Struct { .. } => crate::layout::spec_size_align(t).0,
        TypeV::Long => 8,
        _ => 0,
    }
}

/// Every partial size computed on the way to `spec_type_size(t)` fits in a `usize`.
pub open spec fn size_fits(t: TypeV) -> bool
    decreases t,
{
    &&& spec_type_size(t) <= usize::MAX
    &&& match t {
        TypeV::Array(e, _) => size_fits(*e),
        TypeV::Struct { .. } => crate::layout::layout_fits(t),
        _ => true,
    }
}

pub open spec fn spec_reg_width(t: TypeV) -> RegWidth {
    match t {
        TypeV::Bool | TypeV::Char => RegWidth::W8,
        TypeV::Int | TypeV::Float => RegWidth::W32,
        _ => RegWidth::W64,
    }
}

/// The register width that holds a value of type `ty`.
pub fn type_to_reg_width(ty: &Type) -> (r: RegWidth)
    ensures
        r == spec_reg_width(ty@),
{
    match ty {
        Type::Bool | Type::Char => RegWidth::W8,
        Type::Int | Type::Float => RegWidth::W32,
        Type::Long | Type::Pointer(_) => RegWidth::W64,
        _ => RegWidth::W64,
    }
}

pub open spec fn spec_base_type(t: TypeV) -> TypeV
    decreases t,
{
    match t {
        TypeV::Array(e, _) => TypeV::Array(e, None),
        TypeV::Struct { name, .. } => TypeV::Struct { name, instances: Seq::empty() },
        TypeV::Pointer(inner) => TypeV::Pointer(Box::new(spec_base_type(*inner))),
        _ => t,
    }
}

fn clone_string(s: &String) -> (r: String)
    ensures
        r@ == s@,
{
    s.clone()
}

impl Type {
    /// A copy of this type.
    pub fn duplicate(&self) -> (r: Type)
        ensures
            r@ == self@,
        decreases self,
    {
        match self {
            Type::Int => Type::Int,
            Type::Float => Type::Float,
            Type::Long => Type::Long,
            Type::Char => Type::Char,
            Type::Null => Type::Null,
            Type::Bool => Type::Bool,
            Type::Array(e, n) => Type::Array(Box::new((**e).duplicate()), *n),
            Type::Function => Type::Function,
            Type::Struct { name, instances } => {
                let fields = duplicate_fields(instances);
                let n = clone_string(name);
                proof {
                    lemma_struct_view(*name, *instances);
                    lemma_struct_view(n, fields);
                    assert(fields_view(fields@) =~= fields_view(instances@));
                }
                Type::Struct { name: n, instances: fields }
            },
            Type::StructLiteral(n) => Type::StructLiteral(clone_string(n)),
            Type::Void => Type::Void,
            Type::Unknown => Type::Unknown,
            Type::Pointer(e) => Type::Pointer(Box::new((**e).duplicate())),
        }
    }

    /// A pointer to `base`.
    pub fn pointer_to(base: Type) -> (r: Type)
        ensures
            r@ == TypeV::Pointer(Box::new(base@)),
    {
        Type::Pointer(Box::new(base))
    }

    /// Whether this is a pointer type.
    pub fn is_pointer(&self) -> (r: bool)
        ensures
            r <==> self@ is Pointer,
    {
        match self {
            Type::Pointer(_) => true,
            _ => false,
        }
    }

    /// The pointee of a pointer type.
    pub fn deref(&self) -> (r: Option<&Type>)
        ensures
            r is Some <==> self@ is Pointer,
            r matches Some(p) ==> self@ == TypeV::Pointer(Box::new(p@)),
    {
        match self {
            Type::Pointer(inner) => Some(&**inner),
            _ => None,
        }
    }

    /// The size in bytes of a value of this type; a struct takes the size of its layout,
    /// each field at an offset aligned for its type and the whole padded to the
    /// struct's alignment.
    pub fn size(&self) -> (r: usize)
        requires
            size_fits(self@),
        ensures
            r == spec_type_size(self@),
        decreases self,
    {
        match self {
            Type::Int => 4,
            Type::Float => 4,
            Type::Char => 1,
            Type::Bool => 1,
            Type::Pointer(_) => 8,
            Type::Array(elem, len) => {
                let n: usize = match len {
                    Some(k) => *k,
                    None => 0,
                };
                let es = (**elem).size();
                proof {
                    assert(es * n == spec_type_size(self@));
                }
                es * n
            },
            Type::Struct { .. } => crate::layout::size_align_of(self).0,
            Type::Long => 8,
            _ => 0,
        }
    }
}

pub(crate) fn duplicate_fields(fs: &Vec<(String, Type)>) -> (r: Vec<(String, Type)>)
    ensures
        r@.len() == fs@.len(),
        forall|i: int|
            0 <= i < fs@.len() ==> #[trigger] r@[i].0@ == fs@[i].0@ && r@[i].1@ == fs@[i].1@,
    decreases fs,
{
    let mut out: Vec<(String, Type)> = Vec::new();
    let mut i: usize = 0;
    while i < fs.len()
        invariant
            i <= fs@.len(),
            out@.len() == i,
            forall|j: int|
                0 <= j < i ==> #[trigger] out@[j].0@ == fs@[j].0@ && out@[j].1@ == fs@[j].1@,
        decreases fs@.len() - i,
    {
        proof {
            assert(decreases_to!(fs => fs@[i as int].1));
        }
        let t = fs[i].1.duplicate();
        out.push((clone_string(&fs[i].0), t));
        i = i + 1;
    }
    out
}

/// The type with array lengths and struct fields erased, under any number of pointers.
pub fn base_type(ty: &Type) -> (r: Type)
    ensures
        r@ == spec_base_type(ty@),
    decreases ty,
{
    match ty {
        Type::Array(e, _) => Type::Array(Box::new((**e).duplicate()), None),
        Type::Struct { name, .. } => {
            let r = Type::Struct { name: clone_string(name), instances: Vec::new() };
            proof {
                assert(type_view(r)->instances =~= Seq::empty());
            }
            r
        },
        Type::Pointer(inner) => Type::Pointer(Box::new(base_type(&**inner))),
        _ => ty.duplicate(),
    }
}

} // verus!

verus! {

/// A binary operator.
#[derive(Debug, Clone, Copy, PartialEq, Eq, Structural)]
pub enum BinaryOp {
    Add,
    Sub,
    Mul,
    Div,
    Mod,
    Equal,
    NotEqual,
    Less,
    LessEqual,
    Greater,
    GreaterEqual,
    And,
    Or,
}

/// A unary operator.
#[derive(Debug, Clone, Copy, PartialEq, Eq, Structural)]
pub enum UnaryOp {
    Not,
    Negate,
    AddressOf,
    Dereference,
}

/// An expression. A float literal keeps its digits as written.
#[derive(Debug)]
pub enum Expr {
    IntLiteral(i32),
    LongLiteral(i64),
    FloatLiteral(String),
    BoolLiteral(bool),
    StringLiteral(String),
    CharLiteral(char),
    StructInit { name: String, params: Vec<(String, Expr)> },
    AddressOf(Box<Expr>),
    DerefAssign { target: Box<Expr>, value: Box<Expr> },
    InstanceVar(String, String),
    Variable(String, Type),
    Assign { name: String, value: Box<Expr> },
    CompoundAssign { name: String, op: BinaryOp, value: Box<Expr> },
    PreIncrement { name: String },
    PostIncrement { name: String },
    PreDecrement { name: String },
    PostDecrement { name: String },
    Binary { left: Box<Expr>, op: BinaryOp, right: Box<Expr>, result_type: Type },
    Unary { op: UnaryOp, expr: Box<Expr>, result_type: Type },
    Call { name: String, args: Vec<Expr>, return_type: Type },
    Cast { expr: Box<Expr>, target_type: Type },
    Array(Vec<Expr>, Type),
    ArrayAccess { array: Box<Expr>, index: Box<Expr> },
    IndexAssign { array: Box<Expr>, index: Box<Expr>, value: Box<Expr> },
    FieldAssign { class_name: String, field: String, value: Box<Expr> },
}

/// The model of an `Expr`.
pub enum ExprV {
    IntLiteral(i32),
    LongLiteral(i64),
    FloatLiteral(Seq<char>),
    BoolLiteral(bool),
    StringLiteral(Seq<char>),
    CharLiteral(char),
    StructInit { name: Seq<char>, params: Seq<(Seq<char>, ExprV)> },
    AddressOf(Box<ExprV>),
    DerefAssign { target: Box<ExprV>, value: Box<ExprV> },
    InstanceVar(Seq<char>, Seq<char>),
    Variable(Seq<char>, TypeV),
    Assign { name: Seq<char>, value: Box<ExprV> },
    CompoundAssign { name: Seq<char>, op: BinaryOp, value: Box<ExprV> },
    PreIncrement { name: Seq<char> },
    PostIncrement { name: Seq<char> },
    PreDecrement { name: Seq<char> },
    PostDecrement { name: Seq<char> },
    Binary { left: Box<ExprV>, op: BinaryOp, right: Box<ExprV>, result_type: TypeV },
    Unary { op: UnaryOp, expr: Box<ExprV>, result_type: TypeV },
    Call { name: Seq<char>, args: Seq<ExprV>, return_type: TypeV },
    Cast { expr: Box<ExprV>, target_type: TypeV },
    Array(Seq<ExprV>, TypeV),
    ArrayAccess { array: Box<ExprV>, index: Box<ExprV> },
    IndexAssign { array: Box<ExprV>, index: Box<ExprV>, value: Box<ExprV> },
    FieldAssign { class_name: Seq<char>, field: Seq<char>, value: Box<ExprV> },
}

#[verifier::opaque]
pub open spec fn expr_view(e: Expr) -> ExprV
    decreases e,
{
    match e {
        Expr::IntLiteral(n) => ExprV::IntLiteral(n),
        Expr::LongLiteral(n) => ExprV::LongLiteral(n),
        Expr::FloatLiteral(s) => ExprV::FloatLiteral(s@),
        Expr::BoolLiteral(b) => ExprV::BoolLiteral(b),
        Expr::StringLiteral(s) => ExprV::StringLiteral(s@),
        Expr::CharLiteral(c) => ExprV::CharLiteral(c),
        Expr::StructInit { name, params } => ExprV::StructInit {
            name: name@,
            params: Seq::new(
                params@.len(),
                |i: int|
                    if 0 <= i < params@.len() {
                        (params@[i].0@, expr_view(params@[i].1))
                    } else {
                        (Seq::empty(), ExprV::BoolLiteral(false))
                    },
            ),
        },
        Expr::AddressOf(x) => ExprV::AddressOf(Box::new(expr_view(*x))),
        Expr::DerefAssign { target, value } => ExprV::DerefAssign {
            target: Box::new(expr_view(*target)),
            value: Box::new(expr_view(*value)),
        },
        Expr::InstanceVar(a, b) => ExprV::InstanceVar(a@, b@),
        Expr::Variable(n, t) => ExprV::Variable(n@, t@),
        Expr::Assign { name, value } => ExprV::Assign { name: name@, value: Box::new(expr_view(*value)) },
        Expr::CompoundAssign { name, op, value } => ExprV::CompoundAssign {
            name: name@,
            op,
            value: Box::new(expr_view(*value)),
        },
        Expr::PreIncrement { name } => ExprV::PreIncrement { name: name@ },
        Expr::PostIncrement { name } => ExprV::PostIncrement { name: name@ },
        Expr::PreDecrement { name } => ExprV::PreDecrement { name: name@ },
        Expr::PostDecrement { name } => ExprV::PostDecrement { name: name@ },
        Expr::Binary { left, op, right, result_type } => ExprV::Binary {
            left: Box::new(expr_view(*left)),
            op,
            right: Box::new(expr_view(*right)),
            result_type: result_type@,
        },
        Expr::Unary { op, expr, result_type } => ExprV::Unary {
            op,
            expr: Box::new(expr_view(*expr)),
            result_type: result_type@,
        },
        Expr::Call { name, args, return_type } => ExprV::Call {
            name: name@,
            args: Seq::new(
                args@.len(),
                |i: int|
                    if 0 <= i < args@.len() {
                        expr_view(args@[i])
                    } else {
                        ExprV::BoolLiteral(false)
                    },
            ),
            return_type: return_type@,
        },
        Expr::Cast { expr, target_type } => ExprV::Cast {
            expr: Box::new(expr_view(*expr)),
            target_type: target_type@,
        },
        Expr::Array(es, t) => ExprV::Array(
            Seq::new(
                es@.len(),
                |i: int|
                    if 0 <= i < es@.len() {
                        expr_view(es@[i])
                    } else {
                        ExprV::BoolLiteral(false)
                    },
            ),
            t@,
        ),
        Expr::ArrayAccess { array, index } => ExprV::ArrayAccess {
            array: Box::new(expr_view(*array)),
            index: Box::new(expr_view(*index)),
        },
        Expr::IndexAssign { array, index, value } => ExprV::IndexAssign {
            array: Box::new(expr_view(*array)),
            index: Box::new(expr_view(*index)),
            value: Box::new(expr_view(*value)),
        },
        Expr::FieldAssign { class_name, field, value } => ExprV::FieldAssign {
            class_name: class_name@,
            field: field@,
            value: Box::new(expr_view(*value)),
        },
    }
}

impl View for Expr {
    type V = ExprV;

    open spec fn view(&self) -> ExprV {
        expr_view(*self)
    }
}

/// The models of a list of expressions.
pub closed spec fn exprs_view(es: Seq<Expr>) -> Seq<ExprV> {
    Seq::new(es.len(), |i: int| expr_view(es[i]))
}

/// The models of a list of named expressions.
pub closed spec fn named_exprs_view(ps: Seq<(String, Expr)>) -> Seq<(Seq<char>, ExprV)> {
    Seq::new(ps.len(), |i: int| (ps[i].0@, expr_view(ps[i].1)))
}

pub proof fn lemma_call_view(name: String, args: Vec<Expr>, ty: Type)
    ensures
        expr_view(Expr::Call { name, args, return_type: ty }) == (ExprV::Call {
            name: name@,
            args: exprs_view(args@),
            return_type: ty@,
        }),
{
    reveal(expr_view);
    reveal(stmt_view);
    assert(expr_view(Expr::Call { name, args, return_type: ty })->Call_args =~= exprs_view(args@));
}

pub proof fn lemma_array_view(args: Vec<Expr>, ty: Type)
    ensures
        expr_view(Expr::Array(args, ty)) == ExprV::Array(exprs_view(args@), ty@),
{
    reveal(expr_view);
    reveal(stmt_view);
    assert(expr_view(Expr::Array(args, ty))->Array_0 =~= exprs_view(args@));
}

pub proof fn lemma_struct_init_view(name: String, params: Vec<(String, Expr)>)
    ensures
        expr_view(Expr::StructInit { name, params }) == (ExprV::StructInit {
            name: name@,
            params: named_exprs_view(params@),
        }),
{
    reveal(expr_view);
    reveal(stmt_view);
    assert(expr_view(Expr::StructInit { name, params })->StructInit_params =~= named_exprs_view(params@));
}

/// The type an expression has before type checking.
pub open spec fn spec_get_type(e: ExprV) -> TypeV
    decreases e,
{
    match e {
        ExprV::StructInit { name, params } => TypeV::Struct {
            name,
            instances: Seq::new(
                params.len(),
                |i: int|
                    if 0 <= i < params.len() {
                        (params[i].0, spec_get_type(params[i].1))
                    } else {
                        (Seq::empty(), TypeV::Unknown)
                    },
            ),
        },
        ExprV::IntLiteral(_) => TypeV::Int,
        ExprV::FloatLiteral(_) => TypeV::Float,
        ExprV::BoolLiteral(_) => TypeV::Bool,
        ExprV::CharLiteral(_) => TypeV::Char,
        ExprV::Variable(_, ty) => ty,
        ExprV::Binary { result_type, .. } => result_type,
        ExprV::Unary { expr, .. } => spec_get_type(*expr),
        ExprV::Call { return_type, .. } => return_type,
        ExprV::Cast { target_type, .. } => target_type,
        ExprV::AddressOf(x) => TypeV::Pointer(Box::new(spec_get_type(*x))),
        ExprV::DerefAssign { target, .. } => spec_get_type(*target),
        ExprV::Array(es, ty) => TypeV::Array(Box::new(ty), Some(es.len() as usize)),
        ExprV::StringLiteral(_) => TypeV::Pointer(Box::new(TypeV::Char)),
        ExprV::IndexAssign { value, .. } => spec_get_type(*value),
        ExprV::Assign { value, .. } => spec_get_type(*value),
        _ => TypeV::Unknown,
    }
}

impl Expr {
    /// The type of this expression as the parser knows it: literals have their own
    /// type, names and calls the type recorded with them, and the rest `Unknown`.
    pub fn get_type(&self) -> (r: Type)
        ensures
            r@ == spec_get_type(self@),
        decreases self,
    {
        proof {
            reveal(expr_view);
            reveal(stmt_view);
        }
        match self {
            Expr::StructInit { name, params } => {
                let mut instances: Vec<(String, Type)> = Vec::new();
                let mut i: usize = 0;
                while i < params.len()
                    invariant
                        *self is StructInit,
                        (*self)->StructInit_params == *params,
                        i <= params@.len(),
                        instances@.len() == i,
                        forall|j: int|
                            0 <= j < i ==> (#[trigger] instances@[j]).0@ == params@[j].0@
                                && instances@[j].1@ == spec_get_type(params@[j].1@),
                    decreases params@.len() - i,
                {
                    let n = clone_string(&params[i].0);
                    proof {
                        assert(decreases_to!(*self => (*self)->StructInit_params));
                        assert(decreases_to!((*self)->StructInit_params => params@));
                        assert(decreases_to!(params@ => params@[i as int]));
                        assert(decreases_to!(params@[i as int] => params@[i as int].1));
                    }
                    let ty = params[i].1.get_type();
                    instances.push((n, ty));
                    i += 1;
                }
                proof {
                    lemma_struct_init_view(*name, *params);
                    assert(self@ == ExprV::StructInit { name: name@, params: named_exprs_view(params@) });
                    assert(fields_view(instances@) =~= spec_get_type(self@)->instances);
                }
                let r = Type::Struct { name: clone_string(name), instances };
                proof {
                    lemma_struct_view(r->name, r->instances);
                    assert(r@ == TypeV::Struct { name: name@, instances: fields_view(instances@) });
                    assert(spec_get_type(self@) == TypeV::Struct { name: name@, instances: spec_get_type(self@)->instances });
                    assert(r@ == spec_get_type(self@));
                }
                r
            },
            Expr::IntLiteral(_) => Type::Int,
            Expr::FloatLiteral(_) => Type::Float,
            Expr::BoolLiteral(_) => Type::Bool,
            Expr::CharLiteral(_) => Type::Char,
            Expr::Variable(_, ty) => ty.duplicate(),
            Expr::Binary { result_type, .. } => result_type.duplicate(),
            Expr::Unary { expr, .. } => expr.get_type(),
            Expr::Call { return_type, .. } => return_type.duplicate(),
            Expr::Cast { target_type, .. } => target_type.duplicate(),
            Expr::AddressOf(e) => Type::Pointer(Box::new(e.get_type())),
            Expr::DerefAssign { target, .. } => target.get_type(),
            Expr::Array(elements, element_type) => {
                let r = Type::Array(Box::new(element_type.duplicate()), Some(elements.len()));
                proof {
                    lemma_array_view(*elements, *element_type);
                }
                r
            },
            Expr::StringLiteral(_) => {
                let c = Type::Char;
                assert(c@ == TypeV::Char);
                Type::Pointer(Box::new(c))
            },
            Expr::IndexAssign { value, .. } => value.get_type(),
            Expr::Assign { value, .. } => value.get_type(),
            _ => Type::Unknown,
        }
    }
}

/// `target = value`: a variable, a dereference, a field or an array element can be
/// assigned to; `None` for any other target.
#[verifier::opaque]
pub open spec fn assign_to(target: ExprV, value: ExprV) -> Option<ExprV> {
    match target {
        ExprV::Variable(name, _) => Some(ExprV::Assign { name, value: Box::new(value) }),
        ExprV::Unary { op: UnaryOp::Dereference, expr: inner, .. } => Some(
            ExprV::DerefAssign { target: inner, value: Box::new(value) },
        ),
        ExprV::InstanceVar(c, f) => Some(ExprV::FieldAssign { class_name: c, field: f, value: Box::new(value) }),
        ExprV::ArrayAccess { array, index } => Some(ExprV::IndexAssign { array, index, value: Box::new(value) }),
        _ => None,
    }
}

/// The element type an array literal gets from its first element.
#[verifier::opaque]
pub open spec fn literal_type(e: ExprV) -> TypeV {
    match e {
        ExprV::IntLiteral(_) => TypeV::Int,
        ExprV::FloatLiteral(_) => TypeV::Float,
        ExprV::BoolLiteral(_) => TypeV::Bool,
        ExprV::CharLiteral(_) => TypeV::Char,
        _ => TypeV::Unknown,
    }
}

/// An array literal of `elements`; its element type is that of the first element when
/// it is a literal.
pub open spec fn array_literal_of(elements: Seq<ExprV>) -> ExprV {
    ExprV::Array(
        elements,
        if elements.len() > 0 {
            literal_type(elements[0])
        } else {
            TypeV::Unknown
        },
    )
}

/// The literal a token stands for, if it is one.
#[verifier::opaque]
pub open spec fn literal_expr(k: TokenTypeV) -> Option<ExprV> {
    match k {
        TokenTypeV::StringLiteral(s) => Some(ExprV::StringLiteral(s)),
        TokenTypeV::IntLiteral(v) => Some(ExprV::IntLiteral(v)),
        TokenTypeV::FloatLiteral(v) => Some(ExprV::FloatLiteral(v)),
        TokenTypeV::True => Some(ExprV::BoolLiteral(true)),
        TokenTypeV::False => Some(ExprV::BoolLiteral(false)),
        TokenTypeV::CharLiteral(c) => Some(ExprV::CharLiteral(c)),
        _ => None,
    }
}

impl Expr {
    /// A variable whose type is not known yet.
    pub fn variable(name: String) -> (r: Expr)
        ensures
            r@ == ExprV::Variable(name@, TypeV::Unknown),
    {
        proof {
            reveal(expr_view);
            reveal(stmt_view);
        }
        Expr::Variable(name, Type::Unknown)
    }

    /// `left op right`, its type not known yet.
    pub fn binary(left: Expr, op: BinaryOp, right: Expr) -> (r: Expr)
        ensures
            r@ == (ExprV::Binary { left: Box::new(left@), op, right: Box::new(right@), result_type: TypeV::Unknown }),
    {
        proof {
            reveal(expr_view);
            reveal(stmt_view);
        }
        Expr::Binary { left: Box::new(left), op, right: Box::new(right), result_type: Type::Unknown }
    }

    pub fn unary(op: UnaryOp, operand: Expr, result_type: Type) -> (r: Expr)
        ensures
            r@ == (ExprV::Unary { op, expr: Box::new(operand@), result_type: result_type@ }),
    {
        proof {
            reveal(expr_view);
            reveal(stmt_view);
        }
        Expr::Unary { op, expr: Box::new(operand), result_type }
    }

    pub fn cast(operand: Expr, target_type: Type) -> (r: Expr)
        ensures
            r@ == (ExprV::Cast { expr: Box::new(operand@), target_type: target_type@ }),
    {
        proof {
            reveal(expr_view);
            reveal(stmt_view);
        }
        Expr::Cast { expr: Box::new(operand), target_type }
    }

    pub fn call(name: String, args: Vec<Expr>, return_type: Type) -> (r: Expr)
        ensures
            r@ == (ExprV::Call { name: name@, args: exprs_view(args@), return_type: return_type@ }),
    {
        proof {
            reveal(expr_view);
            reveal(stmt_view);
        }
        proof {
            lemma_call_view(name, args, return_type);
        }
        Expr::Call { name, args, return_type }
    }

    pub fn array(elements: Vec<Expr>, ty: Type) -> (r: Expr)
        ensures
            r@ == ExprV::Array(exprs_view(elements@), ty@),
    {
        proof {
            reveal(expr_view);
            reveal(stmt_view);
        }
        proof {
            lemma_array_view(elements, ty);
        }
        Expr::Array(elements, ty)
    }

    pub fn struct_init(name: String, params: Vec<(String, Expr)>) -> (r: Expr)
        ensures
            r@ == (ExprV::StructInit { name: name@, params: named_exprs_view(params@) }),
    {
        proof {
            reveal(expr_view);
            reveal(stmt_view);
        }
        proof {
            lemma_struct_init_view(name, params);
        }
        Expr::StructInit { name, params }
    }

    pub fn array_access(array: Expr, index: Expr) -> (r: Expr)
        ensures
            r@ == (ExprV::ArrayAccess { array: Box::new(array@), index: Box::new(index@) }),
    {
        proof {
            reveal(expr_view);
            reveal(stmt_view);
        }
        Expr::ArrayAccess { array: Box::new(array), index: Box::new(index) }
    }

    pub fn instance_var(class_name: String, field: String) -> (r: Expr)
        ensures
            r@ == ExprV::InstanceVar(class_name@, field@),
    {
        proof {
            reveal(expr_view);
            reveal(stmt_view);
        }
        Expr::InstanceVar(class_name, field)
    }

    pub fn string_literal(s: String) -> (r: Expr)
        ensures
            r@ == ExprV::StringLiteral(s@),
    {
        proof {
            reveal(expr_view);
            reveal(stmt_view);
        }
        Expr::StringLiteral(s)
    }

    pub fn int_literal(v: i32) -> (r: Expr)
        ensures
            r@ == ExprV::IntLiteral(v),
    {
        proof {
            reveal(expr_view);
            reveal(stmt_view);
        }
        Expr::IntLiteral(v)
    }

    /// `self = value` as an expression, if `self` can be assigned to.
    pub fn assigned(self, value: Expr) -> (r: Option<Expr>)
        ensures
            match r {
                Some(a) => assign_to(self@, value@) == Some(a@),
                None => assign_to(self@, value@) is None,
            },
    {
        proof {
            reveal(assign_to);
        }
        proof {
            reveal(expr_view);
            reveal(stmt_view);
        }
        match self {
            Expr::Variable(name, _) => Some(Expr::Assign { name, value: Box::new(value) }),
            Expr::Unary { op: UnaryOp::Dereference, expr: inner, .. } => Some(
                Expr::DerefAssign { target: inner, value: Box::new(value) },
            ),
            Expr::InstanceVar(c, f) => Some(Expr::FieldAssign { class_name: c, field: f, value: Box::new(value) }),
            Expr::ArrayAccess { array, index } => Some(Expr::IndexAssign { array, index, value: Box::new(value) }),
            _ => None,
        }
    }

    /// The name and type of a variable, or the expression back when it is not one.
    pub fn into_variable(self) -> (r: Result<(String, Type), Expr>)
        ensures
            match self@ {
                ExprV::Variable(n, t) => r is Ok && r->Ok_0.0@ == n && r->Ok_0.1@ == t,
                _ => r is Err,
            },
    {
        proof {
            reveal(expr_view);
            reveal(stmt_view);
        }
        match self {
            Expr::Variable(name, ty) => Ok((name, ty)),
            other => Err(other),
        }
    }

    /// An array literal of `elements`.
    pub fn array_literal(elements: Vec<Expr>) -> (r: Expr)
        ensures
            r@ == array_literal_of(exprs_view(elements@)),
    {
        proof {
            reveal(expr_view);
            reveal(stmt_view);
        }
        proof {
            lemma_exprs_view(elements@);
        }
        let ty = if elements.len() > 0 {
            elements[0].literal_type()
        } else {
            Type::Unknown
        };
        Expr::array(elements, ty)
    }

    /// The element type an array literal whose first element is `self` gets.
    pub fn literal_type(&self) -> (r: Type)
        ensures
            r@ == literal_type(self@),
    {
        proof {
            reveal(literal_type);
        }
        proof {
            reveal(expr_view);
            reveal(stmt_view);
        }
        match self {
            Expr::IntLiteral(_) => Type::Int,
            Expr::FloatLiteral(_) => Type::Float,
            Expr::BoolLiteral(_) => Type::Bool,
            Expr::CharLiteral(_) => Type::Char,
            _ => Type::Unknown,
        }
    }

    /// The literal a token stands for, if it is one.
    pub fn from_literal(k: &TokenType) -> (r: Option<Expr>)
        ensures
            match r {
                Some(e) => literal_expr(k@) == Some(e@),
                None => literal_expr(k@) is None,
            },
    {
        proof {
            reveal(literal_expr);
        }
        proof {
            reveal(expr_view);
            reveal(stmt_view);
        }
        match k {
            TokenType::StringLiteral(s) => Some(Expr::StringLiteral(s.clone())),
            TokenType::IntLiteral(v) => Some(Expr::IntLiteral(*v)),
            TokenType::FloatLiteral(v) => Some(Expr::FloatLiteral(v.clone())),
            TokenType::True => Some(Expr::BoolLiteral(true)),
            TokenType::False => Some(Expr::BoolLiteral(false)),
            TokenType::CharLiteral(c) => Some(Expr::CharLiteral(*c)),
            _ => None,
        }
    }
}

/// A statement or declaration.
#[derive(Debug)]
pub enum Stmt {
    /// `@name`, with an optional parameter, value, content and alias.
    AtDecl(String, Option<String>, Option<Expr>, Option<String>, Option<String>),
    VarDecl { name: String, var_type: Type, value: Expr },
    FunDecl {
        name: String,
        params: Vec<(String, Type)>,
        return_type: Type,
        body: Vec<Stmt>,
        attributes: Vec<String>,
    },
    StructDecl { name: String, instances: Vec<(String, Type)>, union: bool },
    If { condition: Expr, then_stmt: Box<Stmt>, else_stmt: Option<Box<Stmt>> },
    While { condition: Expr, body: Box<Stmt> },
    For { init: Option<Box<Stmt>>, condition: Option<Expr>, update: Option<Expr>, body: Box<Stmt> },
    Block(Vec<Stmt>),
    Expression(Expr),
    Return(Option<Expr>),
    Break,
    Continue,
}

/// The model of a `Stmt`.
pub enum StmtV {
    AtDecl(Seq<char>, Option<Seq<char>>, Option<ExprV>, Option<Seq<char>>, Option<Seq<char>>),
    VarDecl { name: Seq<char>, var_type: TypeV, value: ExprV },
    FunDecl {
        name: Seq<char>,
        params: Seq<(Seq<char>, TypeV)>,
        return_type: TypeV,
        body: Seq<StmtV>,
        attributes: Seq<Seq<char>>,
    },
    StructDecl { name: Seq<char>, instances: Seq<(Seq<char>, TypeV)>, union: bool },
    If { condition: ExprV, then_stmt: Box<StmtV>, else_stmt: Option<Box<StmtV>> },
    While { condition: ExprV, body: Box<StmtV> },
    For { init: Option<Box<StmtV>>, condition: Option<ExprV>, update: Option<ExprV>, body: Box<StmtV> },
    Block(Seq<StmtV>),
    Expression(ExprV),
    Return(Option<ExprV>),
    Break,
    Continue,
}

pub open spec fn opt_string_view(o: Option<String>) -> Option<Seq<char>> {
    match o {
        Some(s) => Some(s@),
        None => None,
    }
}

pub open spec fn opt_expr_view(o: Option<Expr>) -> Option<ExprV> {
    match o {
        Some(e) => Some(expr_view(e)),
        None => None,
    }
}

#[verifier::opaque]
pub open spec fn stmt_view(s: Stmt) -> StmtV
    decreases s,
{
    match s {
        Stmt::AtDecl(a, b, c, d, e) => StmtV::AtDecl(
            a@,
            opt_string_view(b),
            opt_expr_view(c),
            opt_string_view(d),
            opt_string_view(e),
        ),
        Stmt::VarDecl { name, var_type, value } => StmtV::VarDecl {
            name: name@,
            var_type: var_type@,
            value: value@,
        },
        Stmt::FunDecl { name, params, return_type, body, attributes } => StmtV::FunDecl {
            name: name@,
            params: fields_view(params@),
            return_type: return_type@,
            body: Seq::new(
                body@.len(),
                |i: int|
                    if 0 <= i < body@.len() {
                        stmt_view(body@[i])
                    } else {
                        StmtV::Break
                    },
            ),
            attributes: attributes@.map_values(|a: String| a@),
        },
        Stmt::StructDecl { name, instances, union } => StmtV::StructDecl {
            name: name@,
            instances: fields_view(instances@),
            union,
        },
        Stmt::If { condition, then_stmt, else_stmt } => StmtV::If {
            condition: condition@,
            then_stmt: Box::new(stmt_view(*then_stmt)),
            else_stmt: match else_stmt {
                Some(b) => Some(Box::new(stmt_view(*b))),
                None => None,
            },
        },
        Stmt::While { condition, body } => StmtV::While {
            condition: condition@,
            body: Box::new(stmt_view(*body)),
        },
        Stmt::For { init, condition, update, body } => StmtV::For {
            init: match init {
                Some(b) => Some(Box::new(stmt_view(*b))),
                None => None,
            },
            condition: opt_expr_view(condition),
            update: opt_expr_view(update),
            body: Box::new(stmt_view(*body)),
        },
        Stmt::Block(stmts) => StmtV::Block(
            Seq::new(
                stmts@.len(),
                |i: int|
                    if 0 <= i < stmts@.len() {
                        stmt_view(stmts@[i])
                    } else {
                        StmtV::Break
                    },
            ),
        ),
        Stmt::Expression(e) => StmtV::Expression(e@),
        Stmt::Return(o) => StmtV::Return(opt_expr_view(o)),
        Stmt::Break => StmtV::Break,
        Stmt::Continue => StmtV::Continue,
    }
}

impl View for Stmt {
    type V = StmtV;

    open spec fn view(&self) -> StmtV {
        stmt_view(*self)
    }
}

/// The models of a list of statements.
pub closed spec fn stmts_view(ss: Seq<Stmt>) -> Seq<StmtV> {
    Seq::new(ss.len(), |i: int| stmt_view(ss[i]))
}

pub proof fn lemma_stmt_lists_view(
    name: String,
    params: Vec<(String, Type)>,
    return_type: Type,
    body: Vec<Stmt>,
    attributes: Vec<String>,
)
    ensures
        stmt_view(Stmt::FunDecl { name, params, return_type, body, attributes }) == (StmtV::FunDecl {
            name: name@,
            params: fields_view(params@),
            return_type: return_type@,
            body: stmts_view(body@),
            attributes: attributes@.map_values(|a: String| a@),
        }),
        stmt_view(Stmt::Block(body)) == StmtV::Block(stmts_view(body@)),
{
    reveal(expr_view);
    reveal(stmt_view);
    assert(stmt_view(Stmt::FunDecl { name, params, return_type, body, attributes })->FunDecl_body
        =~= stmts_view(body@));
    assert(stmt_view(Stmt::Block(body))->Block_0 =~= stmts_view(body@));
}


impl Stmt {
    pub fn block(stmts: Vec<Stmt>) -> (r: Stmt)
        ensures
            r@ == StmtV::Block(stmts_view(stmts@)),
    {
        proof {
            reveal(expr_view);
            reveal(stmt_view);
        }
        proof {
            lemma_stmt_lists_view(arbitrary(), arbitrary(), arbitrary(), stmts, arbitrary());
        }
        Stmt::Block(stmts)
    }

    pub fn expression(e: Expr) -> (r: Stmt)
        ensures
            r@ == StmtV::Expression(e@),
    {
        proof {
            reveal(expr_view);
            reveal(stmt_view);
        }
        Stmt::Expression(e)
    }

    pub fn if_stmt(condition: Expr, then_stmt: Stmt, else_stmt: Option<Stmt>) -> (r: Stmt)
        ensures
            r@ == (StmtV::If {
                condition: condition@,
                then_stmt: Box::new(then_stmt@),
                else_stmt: match else_stmt {
                    Some(s) => Some(Box::new(s@)),
                    None => None,
                },
            }),
    {
        proof {
            reveal(expr_view);
            reveal(stmt_view);
        }
        let else_stmt = match else_stmt {
            Some(s) => Some(Box::new(s)),
            None => None,
        };
        Stmt::If { condition, then_stmt: Box::new(then_stmt), else_stmt }
    }

    pub fn while_stmt(condition: Expr, body: Stmt) -> (r: Stmt)
        ensures
            r@ == (StmtV::While { condition: condition@, body: Box::new(body@) }),
    {
        proof {
            reveal(expr_view);
            reveal(stmt_view);
        }
        Stmt::While { condition, body: Box::new(body) }
    }

    pub fn ret(value: Option<Expr>) -> (r: Stmt)
        ensures
            r@ == StmtV::Return(opt_expr_view(value)),
    {
        proof {
            reveal(expr_view);
            reveal(stmt_view);
        }
        Stmt::Return(value)
    }

    pub fn var_decl(name: String, var_type: Type, value: Expr) -> (r: Stmt)
        ensures
            r@ == (StmtV::VarDecl { name: name@, var_type: var_type@, value: value@ }),
    {
        proof {
            reveal(expr_view);
            reveal(stmt_view);
        }
        Stmt::VarDecl { name, var_type, value }
    }

    pub fn struct_decl(name: String, instances: Vec<(String, Type)>) -> (r: Stmt)
        ensures
            r@ == (StmtV::StructDecl { name: name@, instances: fields_view(instances@), union: false }),
    {
        proof {
            reveal(expr_view);
            reveal(stmt_view);
        }
        Stmt::StructDecl { name, instances, union: false }
    }

    pub fn fun_decl(name: String, params: Vec<(String, Type)>, return_type: Type, body: Vec<Stmt>) -> (r: Stmt)
        ensures
            r@ == (StmtV::FunDecl {
                name: name@,
                params: fields_view(params@),
                return_type: return_type@,
                body: stmts_view(body@),
                attributes: Seq::empty(),
            }),
    {
        proof {
            reveal(expr_view);
            reveal(stmt_view);
        }
        let attributes: Vec<String> = Vec::new();
        proof {
            lemma_stmt_lists_view(name, params, return_type, body, attributes);
            assert(attributes@.map_values(|a: String| a@) =~= Seq::<Seq<char>>::empty());
        }
        Stmt::FunDecl { name, params, return_type, body, attributes }
    }

    pub fn at_decl(decl: String, param: Option<String>) -> (r: Stmt)
        ensures
            r@ == StmtV::AtDecl(decl@, opt_string_view(param), None, None, None),
    {
        proof {
            reveal(expr_view);
            reveal(stmt_view);
        }
        Stmt::AtDecl(decl, param, None, None, None)
    }
}


/// How the models of lists of expressions and statements are built up.
pub proof fn lemma_exprs_view(s: Seq<Expr>)
    ensures
        exprs_view(s).len() == s.len(),
        forall|i: int| 0 <= i < s.len() ==> #[trigger] exprs_view(s)[i] == s[i]@,
{
    reveal(expr_view);
    reveal(stmt_view);
}

pub proof fn lemma_named_exprs_view(s: Seq<(String, Expr)>)
    ensures
        named_exprs_view(s).len() == s.len(),
        forall|i: int| 0 <= i < s.len() ==> #[trigger] named_exprs_view(s)[i] == (s[i].0@, s[i].1@),
{
    reveal(expr_view);
    reveal(stmt_view);
}

pub proof fn lemma_stmts_view_index(s: Seq<Stmt>)
    ensures
        stmts_view(s).len() == s.len(),
        forall|i: int| 0 <= i < s.len() ==> #[trigger] stmts_view(s)[i] == s[i]@,
{
}

pub proof fn lemma_list_views_push(es: Seq<Expr>, e: Expr, ps: Seq<(String, Expr)>, n: String, ss: Seq<Stmt>, st: Stmt)
    ensures
        exprs_view(es.push(e)) == exprs_view(es).push(e@),
        named_exprs_view(ps.push((n, e))) == named_exprs_view(ps).push((n@, e@)),
        stmts_view(ss.push(st)) == stmts_view(ss).push(st@),
{
    reveal(expr_view);
    reveal(stmt_view);
    assert(exprs_view(es.push(e)) =~= exprs_view(es).push(e@));
    assert(named_exprs_view(ps.push((n, e))) =~= named_exprs_view(ps).push((n@, e@)));
    assert(stmts_view(ss.push(st)) =~= stmts_view(ss).push(st@));
}

pub proof fn lemma_list_views_empty()
    ensures
        exprs_view(Seq::empty()) == Seq::<ExprV>::empty(),
        named_exprs_view(Seq::empty()) == Seq::<(Seq<char>, ExprV)>::empty(),
        stmts_view(Seq::empty()) == Seq::<StmtV>::empty(),
{
    reveal(expr_view);
    reveal(stmt_view);
    assert(exprs_view(Seq::empty()) =~= Seq::<ExprV>::empty());
    assert(named_exprs_view(Seq::empty()) =~= Seq::<(Seq<char>, ExprV)>::empty());
    assert(stmts_view(Seq::empty()) =~= Seq::<StmtV>::empty());
}


/// The model of a struct declaration, and that a statement declares a function exactly
/// when its model does.
pub proof fn lemma_decl_views(s: Stmt)
    ensures
        (s is FunDecl) <==> (s@ is FunDecl),
        (s is StructDecl) <==> (s@ is StructDecl),
        s matches Stmt::StructDecl { name, instances, union } ==> s@ == (StmtV::StructDecl {
            name: name@,
            instances: fields_view(instances@),
            union,
        }),
{
    reveal(stmt_view);
}

/// A non-empty list of statements is its first statement followed by the rest.
pub proof fn lemma_stmts_view_cons(ss: Seq<Stmt>)
    requires
        ss.len() > 0,
    ensures
        stmts_view(ss) == seq![ss[0]@].add(stmts_view(ss.skip(1))),
        stmts_view(ss.skip(1)) == stmts_view(ss).skip(1),
        stmts_view(ss)[0] == ss[0]@,
        stmts_view(ss).len() == ss.len(),
{
    assert(stmts_view(ss) =~= seq![ss[0]@].add(stmts_view(ss.skip(1))));
    assert(stmts_view(ss.skip(1)) =~= stmts_view(ss).skip(1));
}

/// The statement views of a list, one by one.
pub proof fn lemma_stmts_view_len(ss: Seq<Stmt>)
    ensures
        stmts_view(ss).len() == ss.len(),
        forall|i: int| 0 <= i < ss.len() ==> #[trigger] stmts_view(ss)[i] == ss[i]@,
{
}


/// What `sizeof` is asked about: a variable by name, or a type.
#[derive(Debug)]
pub enum SizeOf {
    Variable(String),
    Prim(Type),
}

} // verus!
