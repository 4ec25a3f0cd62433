use vstd::prelude::*;

verus! {

/// A general-purpose register of x86-64.
#[derive(Debug, Clone, Copy, PartialEq, Eq, Hash, Structural)]
pub enum X86RegGpr {
    RAX,
    RBX,
    RCX,
    RDX,
    RSI,
    RDI,
    RBP,
    RSP,
    R8,
    R9,
    R10,
    R11,
    R12,
    R13,
    R14,
    R15,
}

/// An SSE register of x86-64.
#[derive(Debug, Clone, Copy, PartialEq, Eq, Hash, Structural)]
pub enum X86RegFpr {
    XMM0,
    XMM1,
    XMM2,
    XMM3,
    XMM4,
    XMM5,
    XMM6,
    XMM7,
    XMM8,
    XMM9,
    XMM10,
    XMM11,
    XMM12,
    XMM13,
    XMM14,
    XMM15,
}

/// A general-purpose register of AArch64 (`FP` is x29, `LR` is x30).
#[derive(Debug, Clone, Copy, PartialEq, Eq, Hash, Structural)]
pub enum A64RegGpr {
    X0,
    X1,
    X2,
    X3,
    X4,
    X5,
    X6,
    X7,
    X8,
    X9,
    X10,
    X11,
    X12,
    X13,
    X14,
    X15,
    X16,
    X17,
    X18,
    X19,
    X20,
    X21,
    X22,
    X23,
    X24,
    X25,
    X26,
    X27,
    X28,
    FP,
    LR,
    SP,
}

/// A SIMD and floating-point register of AArch64.
#[derive(Debug, Clone, Copy, PartialEq, Eq, Hash, Structural)]
pub enum A64RegFpr {
    V0,
    V1,
    V2,
    V3,
    V4,
    V5,
    V6,
    V7,
    V8,
    V9,
    V10,
    V11,
    V12,
    V13,
    V14,
    V15,
    V16,
    V17,
    V18,
    V19,
    V20,
    V21,
    V22,
    V23,
    V24,
    V25,
    V26,
    V27,
    V28,
    V29,
    V30,
    V31,
}

/// Registers a callee may clobber under the System V ABI.
pub open spec fn x86_caller_saved(r: X86RegGpr) -> bool {
    r == X86RegGpr::RAX || r == X86RegGpr::RCX || r == X86RegGpr::RDX || r == X86RegGpr::RSI || r == X86RegGpr::RDI || r == X86RegGpr::R8 || r == X86RegGpr::R9 || r == X86RegGpr::R10 || r == X86RegGpr::R11
}

/// Registers a callee must preserve under the System V ABI.
pub open spec fn x86_callee_saved(r: X86RegGpr) -> bool {
    r == X86RegGpr::RBX || r == X86RegGpr::RBP || r == X86RegGpr::R12 || r == X86RegGpr::R13 || r == X86RegGpr::R14 || r == X86RegGpr::R15
}

/// SSE registers treated as clobbered by calls.
pub open spec fn x86_fp_caller_saved(r: X86RegFpr) -> bool {
    r == X86RegFpr::XMM0 || r == X86RegFpr::XMM1 || r == X86RegFpr::XMM2 || r == X86RegFpr::XMM3 || r == X86RegFpr::XMM4 || r == X86RegFpr::XMM5 || r == X86RegFpr::XMM6 || r == X86RegFpr::XMM7
}

/// SSE registers treated as preserved across calls.
pub open spec fn x86_fp_callee_saved(r: X86RegFpr) -> bool {
    r == X86RegFpr::XMM8 || r == X86RegFpr::XMM9 || r == X86RegFpr::XMM10 || r == X86RegFpr::XMM11 || r == X86RegFpr::XMM12 || r == X86RegFpr::XMM13 || r == X86RegFpr::XMM14 || r == X86RegFpr::XMM15
}

/// Registers a callee may clobber under AAPCS64.
pub open spec fn a64_caller_saved(r: A64RegGpr) -> bool {
    r == A64RegGpr::X0 || r == A64RegGpr::X1 || r == A64RegGpr::X2 || r == A64RegGpr::X3 || r == A64RegGpr::X4 || r == A64RegGpr::X5 || r == A64RegGpr::X6 || r == A64RegGpr::X7 || r == A64RegGpr::X8 || r == A64RegGpr::X9 || r == A64RegGpr::X10 || r == A64RegGpr::X11 || r == A64RegGpr::X12 || r == A64RegGpr::X13 || r == A64RegGpr::X14 || r == A64RegGpr::X15 || r == A64RegGpr::X16 || r == A64RegGpr::X17
}

/// Registers a callee must preserve under AAPCS64.
pub open spec fn a64_callee_saved(r: A64RegGpr) -> bool {
    r == A64RegGpr::X19 || r == A64RegGpr::X20 || r == A64RegGpr::X21 || r == A64RegGpr::X22 || r == A64RegGpr::X23 || r == A64RegGpr::X24 || r == A64RegGpr::X25 || r == A64RegGpr::X26 || r == A64RegGpr::X27 || r == A64RegGpr::X28
}

/// SIMD registers treated as clobbered by calls.
pub open spec fn a64_fp_caller_saved(r: A64RegFpr) -> bool {
    r == A64RegFpr::V0 || r == A64RegFpr::V1 || r == A64RegFpr::V2 || r == A64RegFpr::V3 || r == A64RegFpr::V4 || r == A64RegFpr::V5 || r == A64RegFpr::V6 || r == A64RegFpr::V7 || r == A64RegFpr::V16 || r == A64RegFpr::V17 || r == A64RegFpr::V18 || r == A64RegFpr::V19 || r == A64RegFpr::V20 || r == A64RegFpr::V21 || r == A64RegFpr::V22 || r == A64RegFpr::V23 || r == A64RegFpr::V24 || r == A64RegFpr::V25 || r == A64RegFpr::V26 || r == A64RegFpr::V27 || r == A64RegFpr::V28 || r == A64RegFpr::V29 || r == A64RegFpr::V30 || r == A64RegFpr::V31
}

/// SIMD registers treated as preserved across calls.
pub open spec fn a64_fp_callee_saved(r: A64RegFpr) -> bool {
    r == A64RegFpr::V8 || r == A64RegFpr::V9 || r == A64RegFpr::V10 || r == A64RegFpr::V11 || r == A64RegFpr::V12 || r == A64RegFpr::V13 || r == A64RegFpr::V14 || r == A64RegFpr::V15
}

/// The 32-bit name of an x86-64 register.
pub open spec fn x86_reg32_name(r: X86RegGpr) -> Seq<char> {
    match r {
        X86RegGpr::RAX => "eax"@,
        X86RegGpr::RBX => "ebx"@,
        X86RegGpr::RCX => "ecx"@,
        X86RegGpr::RDX => "edx"@,
        X86RegGpr::RSI => "esi"@,
        X86RegGpr::RDI => "edi"@,
        X86RegGpr::RBP => "ebp"@,
        X86RegGpr::RSP => "esp"@,
        X86RegGpr::R8 => "r8d"@,
        X86RegGpr::R9 => "r9d"@,
        X86RegGpr::R10 => "r10d"@,
        X86RegGpr::R11 => "r11d"@,
        X86RegGpr::R12 => "r12d"@,
        X86RegGpr::R13 => "r13d"@,
        X86RegGpr::R14 => "r14d"@,
        X86RegGpr::R15 => "r15d"@,
    }
}

/// The 64-bit name of an x86-64 register.
pub open spec fn x86_reg64_name(r: X86RegGpr) -> Seq<char> {
    match r {
        X86RegGpr::RAX => "rax"@,
        X86RegGpr::RBX => "rbx"@,
        X86RegGpr::RCX => "rcx"@,
        X86RegGpr::RDX => "rdx"@,
        X86RegGpr::RSI => "rsi"@,
        X86RegGpr::RDI => "rdi"@,
        X86RegGpr::RBP => "rbp"@,
        X86RegGpr::RSP => "rsp"@,
        X86RegGpr::R8 => "r8"@,
        X86RegGpr::R9 => "r9"@,
        X86RegGpr::R10 => "r10"@,
        X86RegGpr::R11 => "r11"@,
        X86RegGpr::R12 => "r12"@,
        X86RegGpr::R13 => "r13"@,
        X86RegGpr::R14 => "r14"@,
        X86RegGpr::R15 => "r15"@,
    }
}

/// The name of an SSE register.
pub open spec fn x86_float_name(r: X86RegFpr) -> Seq<char> {
    match r {
        X86RegFpr::XMM0 => "xmm0"@,
        X86RegFpr::XMM1 => "xmm1"@,
        X86RegFpr::XMM2 => "xmm2"@,
        X86RegFpr::XMM3 => "xmm3"@,
        X86RegFpr::XMM4 => "xmm4"@,
        X86RegFpr::XMM5 => "xmm5"@,
        X86RegFpr::XMM6 => "xmm6"@,
        X86RegFpr::XMM7 => "xmm7"@,
        X86RegFpr::XMM8 => "xmm8"@,
        X86RegFpr::XMM9 => "xmm9"@,
        X86RegFpr::XMM10 => "xmm10"@,
        X86RegFpr::XMM11 => "xmm11"@,
        X86RegFpr::XMM12 => "xmm12"@,
        X86RegFpr::XMM13 => "xmm13"@,
        X86RegFpr::XMM14 => "xmm14"@,
        X86RegFpr::XMM15 => "xmm15"@,
    }
}

/// The 32-bit name of an AArch64 register.
pub open spec fn a64_reg32_name(r: A64RegGpr) -> Seq<char> {
    match r {
        A64RegGpr::X0 => "w0"@,
        A64RegGpr::X1 => "w1"@,
        A64RegGpr::X2 => "w2"@,
        A64RegGpr::X3 => "w3"@,
        A64RegGpr::X4 => "w4"@,
        A64RegGpr::X5 => "w5"@,
        A64RegGpr::X6 => "w6"@,
        A64RegGpr::X7 => "w7"@,
        A64RegGpr::X8 => "w8"@,
        A64RegGpr::X9 => "w9"@,
        A64RegGpr::X10 => "w10"@,
        A64RegGpr::X11 => "w11"@,
        A64RegGpr::X12 => "w12"@,
        A64RegGpr::X13 => "w13"@,
        A64RegGpr::X14 => "w14"@,
        A64RegGpr::X15 => "w15"@,
        A64RegGpr::X16 => "w16"@,
        A64RegGpr::X17 => "w17"@,
        A64RegGpr::X18 => "w18"@,
        A64RegGpr::X19 => "w19"@,
        A64RegGpr::X20 => "w20"@,
        A64RegGpr::X21 => "w21"@,
        A64RegGpr::X22 => "w22"@,
        A64RegGpr::X23 => "w23"@,
        A64RegGpr::X24 => "w24"@,
        A64RegGpr::X25 => "w25"@,
        A64RegGpr::X26 => "w26"@,
        A64RegGpr::X27 => "w27"@,
        A64RegGpr::X28 => "w28"@,
        A64RegGpr::FP => "w29"@,
        A64RegGpr::LR => "w30"@,
        A64RegGpr::SP => "sp"@,
    }
}

/// The 64-bit name of an AArch64 register.
pub open spec fn a64_reg64_name(r: A64RegGpr) -> Seq<char> {
    match r {
        A64RegGpr::X0 => "x0"@,
        A64RegGpr::X1 => "x1"@,
        A64RegGpr::X2 => "x2"@,
        A64RegGpr::X3 => "x3"@,
        A64RegGpr::X4 => "x4"@,
        A64RegGpr::X5 => "x5"@,
        A64RegGpr::X6 => "x6"@,
        A64RegGpr::X7 => "x7"@,
        A64RegGpr::X8 => "x8"@,
        A64RegGpr::X9 => "x9"@,
        A64RegGpr::X10 => "x10"@,
        A64RegGpr::X11 => "x11"@,
        A64RegGpr::X12 => "x12"@,
        A64RegGpr::X13 => "x13"@,
        A64RegGpr::X14 => "x14"@,
        A64RegGpr::X15 => "x15"@,
        A64RegGpr::X16 => "x16"@,
        A64RegGpr::X17 => "x17"@,
        A64RegGpr::X18 => "x18"@,
        A64RegGpr::X19 => "x19"@,
        A64RegGpr::X20 => "x20"@,
        A64RegGpr::X21 => "x21"@,
        A64RegGpr::X22 => "x22"@,
        A64RegGpr::X23 => "x23"@,
        A64RegGpr::X24 => "x24"@,
        A64RegGpr::X25 => "x25"@,
        A64RegGpr::X26 => "x26"@,
        A64RegGpr::X27 => "x27"@,
        A64RegGpr::X28 => "x28"@,
        A64RegGpr::FP => "x29"@,
        A64RegGpr::LR => "x30"@,
        A64RegGpr::SP => "sp"@,
    }
}

/// The name of an AArch64 SIMD register.
pub open spec fn a64_float_name(r: A64RegFpr) -> Seq<char> {
    match r {
        A64RegFpr::V0 => "v0"@,
        A64RegFpr::V1 => "v1"@,
        A64RegFpr::V2 => "v2"@,
        A64RegFpr::V3 => "v3"@,
        A64RegFpr::V4 => "v4"@,
        A64RegFpr::V5 => "v5"@,
        A64RegFpr::V6 => "v6"@,
        A64RegFpr::V7 => "v7"@,
        A64RegFpr::V8 => "v8"@,
        A64RegFpr::V9 => "v9"@,
        A64RegFpr::V10 => "v10"@,
        A64RegFpr::V11 => "v11"@,
        A64RegFpr::V12 => "v12"@,
        A64RegFpr::V13 => "v13"@,
        A64RegFpr::V14 => "v14"@,
        A64RegFpr::V15 => "v15"@,
        A64RegFpr::V16 => "v16"@,
        A64RegFpr::V17 => "v17"@,
        A64RegFpr::V18 => "v18"@,
        A64RegFpr::V19 => "v19"@,
        A64RegFpr::V20 => "v20"@,
        A64RegFpr::V21 => "v21"@,
        A64RegFpr::V22 => "v22"@,
        A64RegFpr::V23 => "v23"@,
        A64RegFpr::V24 => "v24"@,
        A64RegFpr::V25 => "v25"@,
        A64RegFpr::V26 => "v26"@,
        A64RegFpr::V27 => "v27"@,
        A64RegFpr::V28 => "v28"@,
        A64RegFpr::V29 => "v29"@,
        A64RegFpr::V30 => "v30"@,
        A64RegFpr::V31 => "v31"@,
    }
}

/// The register file of x86-64 under the System V ABI.
#[derive(Debug, Clone, Copy, PartialEq, Eq, Hash, Default)]
pub struct X86Regs;

impl X86Regs {
    /// Every general-purpose register.
    pub open spec fn spec_all_regs() -> Seq<X86RegGpr> {
        seq![X86RegGpr::RAX, X86RegGpr::RBX, X86RegGpr::RCX, X86RegGpr::RDX, X86RegGpr::RSI, X86RegGpr::RDI, X86RegGpr::RBP, X86RegGpr::RSP, X86RegGpr::R8, X86RegGpr::R9, X86RegGpr::R10, X86RegGpr::R11, X86RegGpr::R12, X86RegGpr::R13, X86RegGpr::R14, X86RegGpr::R15]
    }

    /// Every general-purpose register.
    pub fn all_regs(&self) -> (r: Vec<X86RegGpr>)
        ensures
            r@ == Self::spec_all_regs(),
    {
        vec![X86RegGpr::RAX, X86RegGpr::RBX, X86RegGpr::RCX, X86RegGpr::RDX, X86RegGpr::RSI, X86RegGpr::RDI, X86RegGpr::RBP, X86RegGpr::RSP, X86RegGpr::R8, X86RegGpr::R9, X86RegGpr::R10, X86RegGpr::R11, X86RegGpr::R12, X86RegGpr::R13, X86RegGpr::R14, X86RegGpr::R15]
    }

    /// The registers the allocator hands out, in order of preference.
    pub open spec fn spec_allocatable_regs() -> Seq<X86RegGpr> {
        seq![X86RegGpr::RAX, X86RegGpr::RCX, X86RegGpr::RDX, X86RegGpr::RSI, X86RegGpr::RDI, X86RegGpr::R8, X86RegGpr::R9, X86RegGpr::R10, X86RegGpr::R11, X86RegGpr::RBX, X86RegGpr::R12, X86RegGpr::R13, X86RegGpr::R14, X86RegGpr::R15]
    }

    /// The registers the allocator hands out, in order of preference.
    pub fn allocatable_regs(&self) -> (r: Vec<X86RegGpr>)
        ensures
            r@ == Self::spec_allocatable_regs(),
    {
        vec![X86RegGpr::RAX, X86RegGpr::RCX, X86RegGpr::RDX, X86RegGpr::RSI, X86RegGpr::RDI, X86RegGpr::R8, X86RegGpr::R9, X86RegGpr::R10, X86RegGpr::R11, X86RegGpr::RBX, X86RegGpr::R12, X86RegGpr::R13, X86RegGpr::R14, X86RegGpr::R15]
    }

    /// The caller-saved registers.
    pub open spec fn spec_caller_saved_regs() -> Seq<X86RegGpr> {
        seq![X86RegGpr::RAX, X86RegGpr::RCX, X86RegGpr::RDX, X86RegGpr::RSI, X86RegGpr::RDI, X86RegGpr::R8, X86RegGpr::R9, X86RegGpr::R10, X86RegGpr::R11]
    }

    /// The caller-saved registers.
    pub fn caller_saved_regs(&self) -> (r: Vec<X86RegGpr>)
        ensures
            r@ == Self::spec_caller_saved_regs(),
    {
        vec![X86RegGpr::RAX, X86RegGpr::RCX, X86RegGpr::RDX, X86RegGpr::RSI, X86RegGpr::RDI, X86RegGpr::R8, X86RegGpr::R9, X86RegGpr::R10, X86RegGpr::R11]
    }

    /// The callee-saved registers.
    pub open spec fn spec_callee_saved_regs() -> Seq<X86RegGpr> {
        seq![X86RegGpr::RBX, X86RegGpr::RBP, X86RegGpr::R12, X86RegGpr::R13, X86RegGpr::R14, X86RegGpr::R15]
    }

    /// The callee-saved registers.
    pub fn callee_saved_regs(&self) -> (r: Vec<X86RegGpr>)
        ensures
            r@ == Self::spec_callee_saved_regs(),
    {
        vec![X86RegGpr::RBX, X86RegGpr::RBP, X86RegGpr::R12, X86RegGpr::R13, X86RegGpr::R14, X86RegGpr::R15]
    }

    /// The integer argument registers, in order.
    pub open spec fn spec_arg_regs() -> Seq<X86RegGpr> {
        seq![X86RegGpr::RDI, X86RegGpr::RSI, X86RegGpr::RDX, X86RegGpr::RCX, X86RegGpr::R8, X86RegGpr::R9]
    }

    /// The integer argument registers, in order.
    pub fn arg_regs(&self) -> (r: Vec<X86RegGpr>)
        ensures
            r@ == Self::spec_arg_regs(),
    {
        vec![X86RegGpr::RDI, X86RegGpr::RSI, X86RegGpr::RDX, X86RegGpr::RCX, X86RegGpr::R8, X86RegGpr::R9]
    }

    /// Every SSE register.
    pub open spec fn spec_float_regs() -> Seq<X86RegFpr> {
        seq![X86RegFpr::XMM0, X86RegFpr::XMM1, X86RegFpr::XMM2, X86RegFpr::XMM3, X86RegFpr::XMM4, X86RegFpr::XMM5, X86RegFpr::XMM6, X86RegFpr::XMM7, X86RegFpr::XMM8, X86RegFpr::XMM9, X86RegFpr::XMM10, X86RegFpr::XMM11, X86RegFpr::XMM12, X86RegFpr::XMM13, X86RegFpr::XMM14, X86RegFpr::XMM15]
    }

    /// Every SSE register.
    pub fn float_regs(&self) -> (r: Vec<X86RegFpr>)
        ensures
            r@ == Self::spec_float_regs(),
    {
        vec![X86RegFpr::XMM0, X86RegFpr::XMM1, X86RegFpr::XMM2, X86RegFpr::XMM3, X86RegFpr::XMM4, X86RegFpr::XMM5, X86RegFpr::XMM6, X86RegFpr::XMM7, X86RegFpr::XMM8, X86RegFpr::XMM9, X86RegFpr::XMM10, X86RegFpr::XMM11, X86RegFpr::XMM12, X86RegFpr::XMM13, X86RegFpr::XMM14, X86RegFpr::XMM15]
    }

    /// The caller-saved SSE registers.
    pub open spec fn spec_fp_caller_saved() -> Seq<X86RegFpr> {
        seq![X86RegFpr::XMM0, X86RegFpr::XMM1, X86RegFpr::XMM2, X86RegFpr::XMM3, X86RegFpr::XMM4, X86RegFpr::XMM5, X86RegFpr::XMM6, X86RegFpr::XMM7]
    }

    /// The caller-saved SSE registers.
    pub fn fp_caller_saved(&self) -> (r: Vec<X86RegFpr>)
        ensures
            r@ == Self::spec_fp_caller_saved(),
    {
        vec![X86RegFpr::XMM0, X86RegFpr::XMM1, X86RegFpr::XMM2, X86RegFpr::XMM3, X86RegFpr::XMM4, X86RegFpr::XMM5, X86RegFpr::XMM6, X86RegFpr::XMM7]
    }

    /// The callee-saved SSE registers.
    pub open spec fn spec_fp_callee_saved() -> Seq<X86RegFpr> {
        seq![X86RegFpr::XMM8, X86RegFpr::XMM9, X86RegFpr::XMM10, X86RegFpr::XMM11, X86RegFpr::XMM12, X86RegFpr::XMM13, X86RegFpr::XMM14, X86RegFpr::XMM15]
    }

    /// The callee-saved SSE registers.
    pub fn fp_callee_saved(&self) -> (r: Vec<X86RegFpr>)
        ensures
            r@ == Self::spec_fp_callee_saved(),
    {
        vec![X86RegFpr::XMM8, X86RegFpr::XMM9, X86RegFpr::XMM10, X86RegFpr::XMM11, X86RegFpr::XMM12, X86RegFpr::XMM13, X86RegFpr::XMM14, X86RegFpr::XMM15]
    }

    /// The floating-point argument registers, in order.
    pub open spec fn spec_fp_arg_regs() -> Seq<X86RegFpr> {
        seq![X86RegFpr::XMM0, X86RegFpr::XMM1, X86RegFpr::XMM2, X86RegFpr::XMM3, X86RegFpr::XMM4, X86RegFpr::XMM5, X86RegFpr::XMM6, X86RegFpr::XMM7]
    }

    /// The floating-point argument registers, in order.
    pub fn fp_arg_regs(&self) -> (r: Vec<X86RegFpr>)
        ensures
            r@ == Self::spec_fp_arg_regs(),
    {
        vec![X86RegFpr::XMM0, X86RegFpr::XMM1, X86RegFpr::XMM2, X86RegFpr::XMM3, X86RegFpr::XMM4, X86RegFpr::XMM5, X86RegFpr::XMM6, X86RegFpr::XMM7]
    }

}

/// The register file of AArch64 under AAPCS64.
#[derive(Debug, Clone, Copy, PartialEq, Eq, Hash, Default)]
pub struct A64Regs;

impl A64Regs {
    /// Every general-purpose register.
    pub open spec fn spec_all_regs() -> Seq<A64RegGpr> {
        seq![A64RegGpr::X0, A64RegGpr::X1, A64RegGpr::X2, A64RegGpr::X3, A64RegGpr::X4, A64RegGpr::X5, A64RegGpr::X6, A64RegGpr::X7, A64RegGpr::X8, A64RegGpr::X9, A64RegGpr::X10, A64RegGpr::X11, A64RegGpr::X12, A64RegGpr::X13, A64RegGpr::X14, A64RegGpr::X15, A64RegGpr::X16, A64RegGpr::X17, A64RegGpr::X18, A64RegGpr::X19, A64RegGpr::X20, A64RegGpr::X21, A64RegGpr::X22, A64RegGpr::X23, A64RegGpr::X24, A64RegGpr::X25, A64RegGpr::X26, A64RegGpr::X27, A64RegGpr::X28, A64RegGpr::FP, A64RegGpr::LR, A64RegGpr::SP]
    }

    /// Every general-purpose register.
    pub fn all_regs(&self) -> (r: Vec<A64RegGpr>)
        ensures
            r@ == Self::spec_all_regs(),
    {
        vec![A64RegGpr::X0, A64RegGpr::X1, A64RegGpr::X2, A64RegGpr::X3, A64RegGpr::X4, A64RegGpr::X5, A64RegGpr::X6, A64RegGpr::X7, A64RegGpr::X8, A64RegGpr::X9, A64RegGpr::X10, A64RegGpr::X11, A64RegGpr::X12, A64RegGpr::X13, A64RegGpr::X14, A64RegGpr::X15, A64RegGpr::X16, A64RegGpr::X17, A64RegGpr::X18, A64RegGpr::X19, A64RegGpr::X20, A64RegGpr::X21, A64RegGpr::X22, A64RegGpr::X23, A64RegGpr::X24, A64RegGpr::X25, A64RegGpr::X26, A64RegGpr::X27, A64RegGpr::X28, A64RegGpr::FP, A64RegGpr::LR, A64RegGpr::SP]
    }

    /// The registers the allocator hands out, in order of preference.
    pub open spec fn spec_allocatable_regs() -> Seq<A64RegGpr> {
        seq![A64RegGpr::X19, A64RegGpr::X20, A64RegGpr::X21, A64RegGpr::X22, A64RegGpr::X23, A64RegGpr::X24, A64RegGpr::X25, A64RegGpr::X26, A64RegGpr::X27, A64RegGpr::X28]
    }

    /// The registers the allocator hands out, in order of preference.
    pub fn allocatable_regs(&self) -> (r: Vec<A64RegGpr>)
        ensures
            r@ == Self::spec_allocatable_regs(),
    {
        vec![A64RegGpr::X19, A64RegGpr::X20, A64RegGpr::X21, A64RegGpr::X22, A64RegGpr::X23, A64RegGpr::X24, A64RegGpr::X25, A64RegGpr::X26, A64RegGpr::X27, A64RegGpr::X28]
    }

    /// The caller-saved registers.
    pub open spec fn spec_caller_saved_regs() -> Seq<A64RegGpr> {
        seq![A64RegGpr::X0, A64RegGpr::X1, A64RegGpr::X2, A64RegGpr::X3, A64RegGpr::X4, A64RegGpr::X5, A64RegGpr::X6, A64RegGpr::X7, A64RegGpr::X8, A64RegGpr::X9, A64RegGpr::X10, A64RegGpr::X11, A64RegGpr::X12, A64RegGpr::X13, A64RegGpr::X14, A64RegGpr::X15, A64RegGpr::X16, A64RegGpr::X17]
    }

    /// The caller-saved registers.
    pub fn caller_saved_regs(&self) -> (r: Vec<A64RegGpr>)
        ensures
            r@ == Self::spec_caller_saved_regs(),
    {
        vec![A64RegGpr::X0, A64RegGpr::X1, A64RegGpr::X2, A64RegGpr::X3, A64RegGpr::X4, A64RegGpr::X5, A64RegGpr::X6, A64RegGpr::X7, A64RegGpr::X8, A64RegGpr::X9, A64RegGpr::X10, A64RegGpr::X11, A64RegGpr::X12, A64RegGpr::X13, A64RegGpr::X14, A64RegGpr::X15, A64RegGpr::X16, A64RegGpr::X17]
    }

    /// Every SIMD register.
    pub open spec fn spec_float_regs() -> Seq<A64RegFpr> {
        seq![A64RegFpr::V0, A64RegFpr::V1, A64RegFpr::V2, A64RegFpr::V3, A64RegFpr::V4, A64RegFpr::V5, A64RegFpr::V6, A64RegFpr::V7, A64RegFpr::V8, A64RegFpr::V9, A64RegFpr::V10, A64RegFpr::V11, A64RegFpr::V12, A64RegFpr::V13, A64RegFpr::V14, A64RegFpr::V15, A64RegFpr::V16, A64RegFpr::V17, A64RegFpr::V18, A64RegFpr::V19, A64RegFpr::V20, A64RegFpr::V21, A64RegFpr::V22, A64RegFpr::V23, A64RegFpr::V24, A64RegFpr::V25, A64RegFpr::V26, A64RegFpr::V27, A64RegFpr::V28, A64RegFpr::V29, A64RegFpr::V30, A64RegFpr::V31]
    }

    /// Every SIMD register.
    pub fn float_regs(&self) -> (r: Vec<A64RegFpr>)
        ensures
            r@ == Self::spec_float_regs(),
    {
        vec![A64RegFpr::V0, A64RegFpr::V1, A64RegFpr::V2, A64RegFpr::V3, A64RegFpr::V4, A64RegFpr::V5, A64RegFpr::V6, A64RegFpr::V7, A64RegFpr::V8, A64RegFpr::V9, A64RegFpr::V10, A64RegFpr::V11, A64RegFpr::V12, A64RegFpr::V13, A64RegFpr::V14, A64RegFpr::V15, A64RegFpr::V16, A64RegFpr::V17, A64RegFpr::V18, A64RegFpr::V19, A64RegFpr::V20, A64RegFpr::V21, A64RegFpr::V22, A64RegFpr::V23, A64RegFpr::V24, A64RegFpr::V25, A64RegFpr::V26, A64RegFpr::V27, A64RegFpr::V28, A64RegFpr::V29, A64RegFpr::V30, A64RegFpr::V31]
    }

    /// The caller-saved SIMD registers.
    pub open spec fn spec_fp_caller_saved() -> Seq<A64RegFpr> {
        seq![A64RegFpr::V0, A64RegFpr::V1, A64RegFpr::V2, A64RegFpr::V3, A64RegFpr::V4, A64RegFpr::V5, A64RegFpr::V6, A64RegFpr::V7, A64RegFpr::V16, A64RegFpr::V17, A64RegFpr::V18, A64RegFpr::V19, A64RegFpr::V20, A64RegFpr::V21, A64RegFpr::V22, A64RegFpr::V23, A64RegFpr::V24, A64RegFpr::V25, A64RegFpr::V26, A64RegFpr::V27, A64RegFpr::V28, A64RegFpr::V29, A64RegFpr::V30, A64RegFpr::V31]
    }

    /// The caller-saved SIMD registers.
    pub fn fp_caller_saved(&self) -> (r: Vec<A64RegFpr>)
        ensures
            r@ == Self::spec_fp_caller_saved(),
    {
        vec![A64RegFpr::V0, A64RegFpr::V1, A64RegFpr::V2, A64RegFpr::V3, A64RegFpr::V4, A64RegFpr::V5, A64RegFpr::V6, A64RegFpr::V7, A64RegFpr::V16, A64RegFpr::V17, A64RegFpr::V18, A64RegFpr::V19, A64RegFpr::V20, A64RegFpr::V21, A64RegFpr::V22, A64RegFpr::V23, A64RegFpr::V24, A64RegFpr::V25, A64RegFpr::V26, A64RegFpr::V27, A64RegFpr::V28, A64RegFpr::V29, A64RegFpr::V30, A64RegFpr::V31]
    }

    /// The callee-saved SIMD registers.
    pub open spec fn spec_fp_callee_saved() -> Seq<A64RegFpr> {
        seq![A64RegFpr::V8, A64RegFpr::V9, A64RegFpr::V10, A64RegFpr::V11, A64RegFpr::V12, A64RegFpr::V13, A64RegFpr::V14, A64RegFpr::V15]
    }

    /// The callee-saved SIMD registers.
    pub fn fp_callee_saved(&self) -> (r: Vec<A64RegFpr>)
        ensures
            r@ == Self::spec_fp_callee_saved(),
    {
        vec![A64RegFpr::V8, A64RegFpr::V9, A64RegFpr::V10, A64RegFpr::V11, A64RegFpr::V12, A64RegFpr::V13, A64RegFpr::V14, A64RegFpr::V15]
    }

    /// The floating-point argument registers, in order.
    pub open spec fn spec_fp_arg_regs() -> Seq<A64RegFpr> {
        seq![A64RegFpr::V0, A64RegFpr::V1, A64RegFpr::V2, A64RegFpr::V3, A64RegFpr::V4, A64RegFpr::V5, A64RegFpr::V6, A64RegFpr::V7]
    }

    /// The floating-point argument registers, in order.
    pub fn fp_arg_regs(&self) -> (r: Vec<A64RegFpr>)
        ensures
            r@ == Self::spec_fp_arg_regs(),
    {
        vec![A64RegFpr::V0, A64RegFpr::V1, A64RegFpr::V2, A64RegFpr::V3, A64RegFpr::V4, A64RegFpr::V5, A64RegFpr::V6, A64RegFpr::V7]
    }

}

impl X86Regs {
    /// The stack pointer.
    pub fn sp(&self) -> (r: X86RegGpr)
        ensures
            r == X86RegGpr::RSP,
    {
        X86RegGpr::RSP
    }

    /// The frame pointer register; none is reserved on this target.
    pub fn fp(&self) -> (r: Option<X86RegGpr>)
        ensures
            r is None,
    {
        None
    }

    /// The link register; x86-64 has none.
    pub fn lr(&self) -> (r: Option<X86RegGpr>)
        ensures
            r is None,
    {
        None
    }

    /// The register that holds an integer return value.
    pub fn ret_reg(&self) -> (r: X86RegGpr)
        ensures
            r == X86RegGpr::RAX,
    {
        X86RegGpr::RAX
    }

    /// Whether a call may clobber `r`.
    pub fn is_caller_saved(&self, r: &X86RegGpr) -> (b: bool)
        ensures
            b == x86_caller_saved(*r),
    {
        match r {
            X86RegGpr::RAX | X86RegGpr::RCX | X86RegGpr::RDX | X86RegGpr::RSI | X86RegGpr::RDI | X86RegGpr::R8 | X86RegGpr::R9 | X86RegGpr::R10 | X86RegGpr::R11 => true,
            _ => false,
        }
    }

    /// Whether a callee must preserve `r`.
    pub fn is_callee_saved(&self, r: &X86RegGpr) -> (b: bool)
        ensures
            b == x86_callee_saved(*r),
    {
        match r {
            X86RegGpr::RBX | X86RegGpr::RBP | X86RegGpr::R12 | X86RegGpr::R13 | X86RegGpr::R14 | X86RegGpr::R15 => true,
            _ => false,
        }
    }

    /// Whether a call may clobber the SSE register `r`.
    pub fn fp_is_caller_saved(&self, r: X86RegFpr) -> (b: bool)
        ensures
            b == x86_fp_caller_saved(r),
    {
        match r {
            X86RegFpr::XMM0 | X86RegFpr::XMM1 | X86RegFpr::XMM2 | X86RegFpr::XMM3 | X86RegFpr::XMM4 | X86RegFpr::XMM5 | X86RegFpr::XMM6 | X86RegFpr::XMM7 => true,
            _ => false,
        }
    }

    /// Whether a callee must preserve the SSE register `r`.
    pub fn fp_is_callee_saved(&self, r: X86RegFpr) -> (b: bool)
        ensures
            b == x86_fp_callee_saved(r),
    {
        match r {
            X86RegFpr::XMM8 | X86RegFpr::XMM9 | X86RegFpr::XMM10 | X86RegFpr::XMM11 | X86RegFpr::XMM12 | X86RegFpr::XMM13 | X86RegFpr::XMM14 | X86RegFpr::XMM15 => true,
            _ => false,
        }
    }

    /// The 32-bit name of `reg`.
    pub fn reg32(&self, reg: X86RegGpr) -> (s: &'static str)
        ensures
            s@ == x86_reg32_name(reg),
    {
        match reg {
            X86RegGpr::RAX => "eax",
            X86RegGpr::RBX => "ebx",
            X86RegGpr::RCX => "ecx",
            X86RegGpr::RDX => "edx",
            X86RegGpr::RSI => "esi",
            X86RegGpr::RDI => "edi",
            X86RegGpr::RBP => "ebp",
            X86RegGpr::RSP => "esp",
            X86RegGpr::R8 => "r8d",
            X86RegGpr::R9 => "r9d",
            X86RegGpr::R10 => "r10d",
            X86RegGpr::R11 => "r11d",
            X86RegGpr::R12 => "r12d",
            X86RegGpr::R13 => "r13d",
            X86RegGpr::R14 => "r14d",
            X86RegGpr::R15 => "r15d",
        }
    }

    /// The 64-bit name of `reg`.
    pub fn reg64(&self, reg: X86RegGpr) -> (s: &'static str)
        ensures
            s@ == x86_reg64_name(reg),
    {
        match reg {
            X86RegGpr::RAX => "rax",
            X86RegGpr::RBX => "rbx",
            X86RegGpr::RCX => "rcx",
            X86RegGpr::RDX => "rdx",
            X86RegGpr::RSI => "rsi",
            X86RegGpr::RDI => "rdi",
            X86RegGpr::RBP => "rbp",
            X86RegGpr::RSP => "rsp",
            X86RegGpr::R8 => "r8",
            X86RegGpr::R9 => "r9",
            X86RegGpr::R10 => "r10",
            X86RegGpr::R11 => "r11",
            X86RegGpr::R12 => "r12",
            X86RegGpr::R13 => "r13",
            X86RegGpr::R14 => "r14",
            X86RegGpr::R15 => "r15",
        }
    }

    /// The name of the SSE register `reg`.
    pub fn float128(&self, reg: X86RegFpr) -> (s: &'static str)
        ensures
            s@ == x86_float_name(reg),
    {
        match reg {
            X86RegFpr::XMM0 => "xmm0",
            X86RegFpr::XMM1 => "xmm1",
            X86RegFpr::XMM2 => "xmm2",
            X86RegFpr::XMM3 => "xmm3",
            X86RegFpr::XMM4 => "xmm4",
            X86RegFpr::XMM5 => "xmm5",
            X86RegFpr::XMM6 => "xmm6",
            X86RegFpr::XMM7 => "xmm7",
            X86RegFpr::XMM8 => "xmm8",
            X86RegFpr::XMM9 => "xmm9",
            X86RegFpr::XMM10 => "xmm10",
            X86RegFpr::XMM11 => "xmm11",
            X86RegFpr::XMM12 => "xmm12",
            X86RegFpr::XMM13 => "xmm13",
            X86RegFpr::XMM14 => "xmm14",
            X86RegFpr::XMM15 => "xmm15",
        }
    }

}

impl A64Regs {
    /// The stack pointer.
    pub fn sp(&self) -> (r: A64RegGpr)
        ensures
            r == A64RegGpr::SP,
    {
        A64RegGpr::SP
    }

    /// The frame pointer, x29.
    pub fn fp(&self) -> (r: Option<A64RegGpr>)
        ensures
            r == Some(A64RegGpr::FP),
    {
        Some(A64RegGpr::FP)
    }

    /// The link register, x30.
    pub fn lr(&self) -> (r: Option<A64RegGpr>)
        ensures
            r == Some(A64RegGpr::LR),
    {
        Some(A64RegGpr::LR)
    }

    /// The register that holds an integer return value.
    pub fn ret_reg(&self) -> (r: A64RegGpr)
        ensures
            r == A64RegGpr::X0,
    {
        A64RegGpr::X0
    }

    /// Whether a call may clobber `r`.
    pub fn is_caller_saved(&self, r: &A64RegGpr) -> (b: bool)
        ensures
            b == a64_caller_saved(*r),
    {
        match r {
            A64RegGpr::X0 | A64RegGpr::X1 | A64RegGpr::X2 | A64RegGpr::X3 | A64RegGpr::X4 | A64RegGpr::X5 | A64RegGpr::X6 | A64RegGpr::X7 | A64RegGpr::X8 | A64RegGpr::X9 | A64RegGpr::X10 | A64RegGpr::X11 | A64RegGpr::X12 | A64RegGpr::X13 | A64RegGpr::X14 | A64RegGpr::X15 | A64RegGpr::X16 | A64RegGpr::X17 => true,
            _ => false,
        }
    }

    /// Whether a callee must preserve `r`.
    pub fn is_callee_saved(&self, r: &A64RegGpr) -> (b: bool)
        ensures
            b == a64_callee_saved(*r),
    {
        match r {
            A64RegGpr::X19 | A64RegGpr::X20 | A64RegGpr::X21 | A64RegGpr::X22 | A64RegGpr::X23 | A64RegGpr::X24 | A64RegGpr::X25 | A64RegGpr::X26 | A64RegGpr::X27 | A64RegGpr::X28 => true,
            _ => false,
        }
    }

    /// Whether a call may clobber the SIMD register `r`.
    pub fn fp_is_caller_saved(&self, r: A64RegFpr) -> (b: bool)
        ensures
            b == a64_fp_caller_saved(r),
    {
        match r {
            A64RegFpr::V0 | A64RegFpr::V1 | A64RegFpr::V2 | A64RegFpr::V3 | A64RegFpr::V4 | A64RegFpr::V5 | A64RegFpr::V6 | A64RegFpr::V7 | A64RegFpr::V16 | A64RegFpr::V17 | A64RegFpr::V18 | A64RegFpr::V19 | A64RegFpr::V20 | A64RegFpr::V21 | A64RegFpr::V22 | A64RegFpr::V23 | A64RegFpr::V24 | A64RegFpr::V25 | A64RegFpr::V26 | A64RegFpr::V27 | A64RegFpr::V28 | A64RegFpr::V29 | A64RegFpr::V30 | A64RegFpr::V31 => true,
            _ => false,
        }
    }

    /// Whether a callee must preserve the SIMD register `r`.
    pub fn fp_is_callee_saved(&self, r: A64RegFpr) -> (b: bool)
        ensures
            b == a64_fp_callee_saved(r),
    {
        match r {
            A64RegFpr::V8 | A64RegFpr::V9 | A64RegFpr::V10 | A64RegFpr::V11 | A64RegFpr::V12 | A64RegFpr::V13 | A64RegFpr::V14 | A64RegFpr::V15 => true,
            _ => false,
        }
    }

    /// The 32-bit name of `reg`.
    pub fn reg32(&self, reg: A64RegGpr) -> (s: &'static str)
        ensures
            s@ == a64_reg32_name(reg),
    {
        match reg {
            A64RegGpr::X0 => "w0",
            A64RegGpr::X1 => "w1",
            A64RegGpr::X2 => "w2",
            A64RegGpr::X3 => "w3",
            A64RegGpr::X4 => "w4",
            A64RegGpr::X5 => "w5",
            A64RegGpr::X6 => "w6",
            A64RegGpr::X7 => "w7",
            A64RegGpr::X8 => "w8",
            A64RegGpr::X9 => "w9",
            A64RegGpr::X10 => "w10",
            A64RegGpr::X11 => "w11",
            A64RegGpr::X12 => "w12",
            A64RegGpr::X13 => "w13",
            A64RegGpr::X14 => "w14",
            A64RegGpr::X15 => "w15",
            A64RegGpr::X16 => "w16",
            A64RegGpr::X17 => "w17",
            A64RegGpr::X18 => "w18",
            A64RegGpr::X19 => "w19",
            A64RegGpr::X20 => "w20",
            A64RegGpr::X21 => "w21",
            A64RegGpr::X22 => "w22",
            A64RegGpr::X23 => "w23",
            A64RegGpr::X24 => "w24",
            A64RegGpr::X25 => "w25",
            A64RegGpr::X26 => "w26",
            A64RegGpr::X27 => "w27",
            A64RegGpr::X28 => "w28",
            A64RegGpr::FP => "w29",
            A64RegGpr::LR => "w30",
            A64RegGpr::SP => "sp",
        }
    }

    /// The 64-bit name of `reg`.
    pub fn reg64(&self, reg: A64RegGpr) -> (s: &'static str)
        ensures
            s@ == a64_reg64_name(reg),
    {
        match reg {
            A64RegGpr::X0 => "x0",
            A64RegGpr::X1 => "x1",
            A64RegGpr::X2 => "x2",
            A64RegGpr::X3 => "x3",
            A64RegGpr::X4 => "x4",
            A64RegGpr::X5 => "x5",
            A64RegGpr::X6 => "x6",
            A64RegGpr::X7 => "x7",
            A64RegGpr::X8 => "x8",
            A64RegGpr::X9 => "x9",
            A64RegGpr::X10 => "x10",
            A64RegGpr::X11 => "x11",
            A64RegGpr::X12 => "x12",
            A64RegGpr::X13 => "x13",
            A64RegGpr::X14 => "x14",
            A64RegGpr::X15 => "x15",
            A64RegGpr::X16 => "x16",
            A64RegGpr::X17 => "x17",
            A64RegGpr::X18 => "x18",
            A64RegGpr::X19 => "x19",
            A64RegGpr::X20 => "x20",
            A64RegGpr::X21 => "x21",
            A64RegGpr::X22 => "x22",
            A64RegGpr::X23 => "x23",
            A64RegGpr::X24 => "x24",
            A64RegGpr::X25 => "x25",
            A64RegGpr::X26 => "x26",
            A64RegGpr::X27 => "x27",
            A64RegGpr::X28 => "x28",
            A64RegGpr::FP => "x29",
            A64RegGpr::LR => "x30",
            A64RegGpr::SP => "sp",
        }
    }

    /// The name of the SIMD register `reg`.
    pub fn float128(&self, reg: A64RegFpr) -> (s: &'static str)
        ensures
            s@ == a64_float_name(reg),
    {
        match reg {
            A64RegFpr::V0 => "v0",
            A64RegFpr::V1 => "v1",
            A64RegFpr::V2 => "v2",
            A64RegFpr::V3 => "v3",
            A64RegFpr::V4 => "v4",
            A64RegFpr::V5 => "v5",
            A64RegFpr::V6 => "v6",
            A64RegFpr::V7 => "v7",
            A64RegFpr::V8 => "v8",
            A64RegFpr::V9 => "v9",
            A64RegFpr::V10 => "v10",
            A64RegFpr::V11 => "v11",
            A64RegFpr::V12 => "v12",
            A64RegFpr::V13 => "v13",
            A64RegFpr::V14 => "v14",
            A64RegFpr::V15 => "v15",
            A64RegFpr::V16 => "v16",
            A64RegFpr::V17 => "v17",
            A64RegFpr::V18 => "v18",
            A64RegFpr::V19 => "v19",
            A64RegFpr::V20 => "v20",
            A64RegFpr::V21 => "v21",
            A64RegFpr::V22 => "v22",
            A64RegFpr::V23 => "v23",
            A64RegFpr::V24 => "v24",
            A64RegFpr::V25 => "v25",
            A64RegFpr::V26 => "v26",
            A64RegFpr::V27 => "v27",
            A64RegFpr::V28 => "v28",
            A64RegFpr::V29 => "v29",
            A64RegFpr::V30 => "v30",
            A64RegFpr::V31 => "v31",
        }
    }

}

/// On x86-64 no register is both caller-saved and callee-saved; the allocatable registers
/// are exactly the saved registers other than the frame pointer, listed once each; and
/// each register list agrees with the corresponding membership test.
pub proof fn law_x86_register_classes(r: X86RegGpr)
    ensures
        !(x86_caller_saved(r) && x86_callee_saved(r)),
        X86Regs::spec_allocatable_regs().contains(r) <==> (x86_caller_saved(r) || x86_callee_saved(
            r,
        )) && r != X86RegGpr::RBP,
        X86Regs::spec_caller_saved_regs().contains(r) <==> x86_caller_saved(r),
        X86Regs::spec_callee_saved_regs().contains(r) <==> x86_callee_saved(r),
        X86Regs::spec_arg_regs().contains(r) ==> x86_caller_saved(r),
        X86Regs::spec_all_regs().contains(r),
        X86Regs::spec_allocatable_regs().no_duplicates(),
        X86Regs::spec_allocatable_regs().len() == 14,
{
    let a = X86Regs::spec_allocatable_regs();
    let c = X86Regs::spec_caller_saved_regs();
    let e = X86Regs::spec_callee_saved_regs();
    let g = X86Regs::spec_arg_regs();
    let all = X86Regs::spec_all_regs();
    assert(a.contains(r) <==> exists|i: int| 0 <= i < a.len() && a[i] == r);
    assert(c.contains(r) <==> exists|i: int| 0 <= i < c.len() && c[i] == r);
    assert(e.contains(r) <==> exists|i: int| 0 <= i < e.len() && e[i] == r);
    match r {
        X86RegGpr::RAX => { assert(a[0] == r); assert(c[0] == r); assert(all[0] == r); },
        X86RegGpr::RBX => { assert(a[9] == r); assert(e[0] == r); assert(all[1] == r); },
        X86RegGpr::RCX => { assert(a[1] == r); assert(c[1] == r); assert(all[2] == r); },
        X86RegGpr::RDX => { assert(a[2] == r); assert(c[2] == r); assert(all[3] == r); },
        X86RegGpr::RSI => { assert(a[3] == r); assert(c[3] == r); assert(all[4] == r); },
        X86RegGpr::RDI => { assert(a[4] == r); assert(c[4] == r); assert(all[5] == r); },
        X86RegGpr::RBP => { assert(e[1] == r); assert(all[6] == r); },
        X86RegGpr::RSP => { assert(all[7] == r); },
        X86RegGpr::R8 => { assert(a[5] == r); assert(c[5] == r); assert(all[8] == r); },
        X86RegGpr::R9 => { assert(a[6] == r); assert(c[6] == r); assert(all[9] == r); },
        X86RegGpr::R10 => { assert(a[7] == r); assert(c[7] == r); assert(all[10] == r); },
        X86RegGpr::R11 => { assert(a[8] == r); assert(c[8] == r); assert(all[11] == r); },
        X86RegGpr::R12 => { assert(a[10] == r); assert(e[2] == r); assert(all[12] == r); },
        X86RegGpr::R13 => { assert(a[11] == r); assert(e[3] == r); assert(all[13] == r); },
        X86RegGpr::R14 => { assert(a[12] == r); assert(e[4] == r); assert(all[14] == r); },
        X86RegGpr::R15 => { assert(a[13] == r); assert(e[5] == r); assert(all[15] == r); },
    }
}


/// The 8-bit name of the 64-bit register named `r`; `al` for any other name.
pub open spec fn x86_reg8_of(r: Seq<char>) -> Seq<char> {
    if r == "rax"@ {
        "al"@
    } else if r == "rbx"@ {
        "bl"@
    } else if r == "rcx"@ {
        "cl"@
    } else if r == "rdx"@ {
        "dl"@
    } else if r == "rsi"@ {
        "sil"@
    } else if r == "rdi"@ {
        "dil"@
    } else if r == "r8"@ {
        "r8b"@
    } else if r == "r9"@ {
        "r9b"@
    } else if r == "r10"@ {
        "r10b"@
    } else if r == "r11"@ {
        "r11b"@
    } else if r == "r12"@ {
        "r12b"@
    } else if r == "r13"@ {
        "r13b"@
    } else if r == "r14"@ {
        "r14b"@
    } else if r == "r15"@ {
        "r15b"@
    } else {
        "al"@
    }
}

/// Whether two texts are the same.
fn same_text(a: &str, b: &str) -> (r: bool)
    ensures
        r == (a@ == b@),
{
    a.to_owned() == b.to_owned()
}

/// The 8-bit name of a 64-bit register; see `x86_reg8_of`.
pub fn reg8(r: &str) -> (s: &'static str)
    ensures
        s@ == x86_reg8_of(r@),
{
    if same_text(r, "rax") {
        return "al";
    }
    if same_text(r, "rbx") {
        return "bl";
    }
    if same_text(r, "rcx") {
        return "cl";
    }
    if same_text(r, "rdx") {
        return "dl";
    }
    if same_text(r, "rsi") {
        return "sil";
    }
    if same_text(r, "rdi") {
        return "dil";
    }
    if same_text(r, "r8") {
        return "r8b";
    }
    if same_text(r, "r9") {
        return "r9b";
    }
    if same_text(r, "r10") {
        return "r10b";
    }
    if same_text(r, "r11") {
        return "r11b";
    }
    if same_text(r, "r12") {
        return "r12b";
    }
    if same_text(r, "r13") {
        return "r13b";
    }
    if same_text(r, "r14") {
        return "r14b";
    }
    if same_text(r, "r15") {
        return "r15b";
    }
    "al"
}


/// The 32-bit name of the 64-bit register named `r`; `eax` for any other name.
pub open spec fn x86_reg32_of(r: Seq<char>) -> Seq<char> {
    if r == "rax"@ {
        "eax"@
    } else if r == "rbx"@ {
        "ebx"@
    } else if r == "rcx"@ {
        "ecx"@
    } else if r == "rdx"@ {
        "edx"@
    } else if r == "rsi"@ {
        "esi"@
    } else if r == "rdi"@ {
        "edi"@
    } else if r == "r8"@ {
        "r8d"@
    } else if r == "r9"@ {
        "r9d"@
    } else if r == "r10"@ {
        "r10d"@
    } else if r == "r11"@ {
        "r11d"@
    } else if r == "r12"@ {
        "r12d"@
    } else if r == "r13"@ {
        "r13d"@
    } else if r == "r14"@ {
        "r14d"@
    } else if r == "r15"@ {
        "r15d"@
    } else {
        "eax"@
    }
}

/// The 32-bit name of a 64-bit register given by name; see `x86_reg32_of`.
pub fn reg32(r: &str) -> (s: &'static str)
    ensures
        s@ == x86_reg32_of(r@),
{
    if same_text(r, "rax") {
        return "eax";
    }
    if same_text(r, "rbx") {
        return "ebx";
    }
    if same_text(r, "rcx") {
        return "ecx";
    }
    if same_text(r, "rdx") {
        return "edx";
    }
    if same_text(r, "rsi") {
        return "esi";
    }
    if same_text(r, "rdi") {
        return "edi";
    }
    if same_text(r, "r8") {
        return "r8d";
    }
    if same_text(r, "r9") {
        return "r9d";
    }
    if same_text(r, "r10") {
        return "r10d";
    }
    if same_text(r, "r11") {
        return "r11d";
    }
    if same_text(r, "r12") {
        return "r12d";
    }
    if same_text(r, "r13") {
        return "r13d";
    }
    if same_text(r, "r14") {
        return "r14d";
    }
    if same_text(r, "r15") {
        return "r15d";
    }
    "eax"
}

} // verus!
