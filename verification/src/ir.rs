use vstd::prelude::*;

use crate::ast::{Expr, Type};
use crate::interference::VReg;
use crate::mir::BlockId;

verus! {

/// An operand of an instruction. A float constant is held as the bits of its `f64`.
#[derive(Debug, Clone, Copy)]
pub enum Value {
    Reg(VReg),
    Const(i64),
    ConstFloat(u64),
    Local(usize),
    Global(usize),
}

/// A declaration that an `@` line of the source makes, or an attribute of a function.
#[derive(Debug)]
pub enum AtDecl {
    Import { path: String, local: bool },
    Const { name: String, ty: Type, val: Expr },
    TrustRet,
    InlineAssembly { content: String },
    Extern { name: String },
    Variadic,
    Inline,
    NoFrame,
}

proof fn lemma_attribute_names_differ()
    ensures
        "trust_ret"@ != "variadic"@,
        "trust_ret"@ != "inline"@,
        "trust_ret"@ != "no_frame"@,
        "variadic"@ != "inline"@,
        "variadic"@ != "no_frame"@,
        "inline"@ != "no_frame"@,
{
    reveal_strlit("trust_ret");
    reveal_strlit("variadic");
    reveal_strlit("inline");
    reveal_strlit("no_frame");
    assert("trust_ret"@[0] != "variadic"@[0]);
    assert("trust_ret"@[0] != "inline"@[0]);
    assert("trust_ret"@[0] != "no_frame"@[0]);
    assert("variadic"@[0] != "inline"@[0]);
    assert("variadic"@[0] != "no_frame"@[0]);
    assert("inline"@[0] != "no_frame"@[0]);
}

impl AtDecl {
    /// The function attribute named `attribute`: `trust_ret`, `variadic`, `inline` or
    /// `no_frame`; `None` for any other name.
    pub fn parse_attribute(attribute: &str) -> (r: Option<AtDecl>)
        ensures
            attribute@ == "trust_ret"@ ==> r matches Some(AtDecl::TrustRet),
            attribute@ == "variadic"@ ==> r matches Some(AtDecl::Variadic),
            attribute@ == "inline"@ ==> r matches Some(AtDecl::Inline),
            attribute@ == "no_frame"@ ==> r matches Some(AtDecl::NoFrame),
            !(attribute@ == "trust_ret"@ || attribute@ == "variadic"@ || attribute@ == "inline"@
                || attribute@ == "no_frame"@) ==> r is None,
    {
        proof {
            lemma_attribute_names_differ();
        }
        let a = attribute.to_owned();
        if a == "trust_ret".to_owned() {
            Some(AtDecl::TrustRet)
        } else if a == "variadic".to_owned() {
            Some(AtDecl::Variadic)
        } else if a == "inline".to_owned() {
            Some(AtDecl::Inline)
        } else if a == "no_frame".to_owned() {
            Some(AtDecl::NoFrame)
        } else {
            None
        }
    }
}

/// An instruction of the intermediate representation.
#[derive(Debug)]
pub enum IRInstruction {
    Add { reg: VReg, left: Value, right: Value },
    Sub { reg: VReg, left: Value, right: Value },
    Mul { reg: VReg, left: Value, right: Value },
    Div { reg: VReg, left: Value, right: Value },
    Mod { reg: VReg, left: Value, right: Value },
    Eq { reg: VReg, left: Value, right: Value },
    Ne { reg: VReg, left: Value, right: Value },
    Lt { reg: VReg, left: Value, right: Value },
    Le { reg: VReg, left: Value, right: Value },
    Ge { reg: VReg, left: Value, right: Value },
    Gt { reg: VReg, left: Value, right: Value },
    Cast { reg: VReg, src: Value, ty: Type },
    Load { reg: VReg, addr: Value, offset: i32, ty: Type },
    Store { value: Value, addr: Value, offset: i32, ty: Type },
    Gep { dest: VReg, base: Value, index: Value, scale: usize },
    Call { reg: Option<VReg>, func: String, args: Vec<Value> },
    Move { dest: VReg, from: Value },
    AddressOf { dest: VReg, src: Value },
    Memcpy { dst: Value, src: Value, size: usize, align: usize },
    Declaration(AtDecl),
}

/// How a block ends.
#[derive(Debug, Clone, Copy)]
pub enum Terminator {
    Return { value: Option<Value> },
    Jump { block: BlockId },
    Branch { condition: Value, if_true: BlockId, if_false: BlockId },
    TemporaryNone,
}

/// A basic block: its instructions and how it ends.
#[derive(Debug)]
pub struct IRBlock {
    pub id: BlockId,
    pub instructions: Vec<IRInstruction>,
    pub terminator: Terminator,
}


/// A function of the intermediate representation.
#[derive(Debug)]
pub struct IRFunction {
    pub name: String,
    pub params: Vec<VReg>,
    pub ret_type: Type,
    pub blocks: Vec<IRBlock>,
    pub entry: BlockId,
    pub attributes: Vec<AtDecl>,
    pub offset: i32,
}

} // verus!
