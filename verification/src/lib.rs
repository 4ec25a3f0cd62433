use vstd::prelude::*;

pub mod ast;
pub mod layout;
pub mod regs;
pub mod interference;
pub mod regalloc;
pub mod symbols;
pub mod mir;
pub mod token;
pub mod lexer;
pub mod grammar;
pub mod parser;
pub mod alias;
pub mod first_pass;
pub mod assembly;
pub mod ir;
pub mod liveness;
pub mod consts;
pub mod allocation;
pub mod codegen;
pub mod analyzer;
pub mod typecheck;
pub mod gen_expr;
pub mod gen_stmt;
pub mod gen_func;
pub mod emission;

verus! {

} // verus!
