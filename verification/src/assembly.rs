use vstd::prelude::*;

use crate::lexer::string_push;
use crate::regs::{A64Regs, X86Regs};

verus! {

/// A section of the assembly output.
#[allow(non_camel_case_types)]
#[derive(Clone, Copy, Debug, PartialEq, Eq, Structural)]
pub enum AsmSection {
    EXTERN,
    BSS,
    RODATA,
    DATA,
    TEXT,
    CSTRING,
}

/// The text of each section of the assembly output.
#[derive(Debug)]
pub struct AsmEmitter {
    pub externs: String,
    pub text: String,
    pub data: String,
    pub rodata: String,
    pub bss: String,
    pub cstrings: String,
}

/// The text gathered so far for `section`.
pub open spec fn section_text(sections: AsmEmitter, section: AsmSection) -> Seq<char> {
    match section {
        AsmSection::EXTERN => sections.externs@,
        AsmSection::BSS => sections.bss@,
        AsmSection::RODATA => sections.rodata@,
        AsmSection::DATA => sections.data@,
        AsmSection::TEXT => sections.text@,
        AsmSection::CSTRING => sections.cstrings@,
    }
}

impl AsmEmitter {
    /// Every section empty.
    pub fn new() -> (r: AsmEmitter)
        ensures
            forall|s: AsmSection| section_text(r, s) == Seq::<char>::empty(),
    {
        AsmEmitter {
            externs: String::new(),
            text: String::new(),
            data: String::new(),
            rodata: String::new(),
            bss: String::new(),
            cstrings: String::new(),
        }
    }
}

/// The code generator of one target.
#[derive(Debug)]
pub struct X86Codegen {
    pub target_regs: X86Regs,
}

#[derive(Debug)]
pub struct Arm64Codegen {
    pub target_regs: A64Regs,
}

#[derive(Debug)]
pub enum TargetCodegen {
    X86(X86Codegen),
    Arm(Arm64Codegen),
}

/// The assembly being written, and the target it is written for.
#[derive(Debug)]
pub struct Codegen {
    pub sections: AsmEmitter,
    pub target_codegen: TargetCodegen,
}

/// Size and alignment of a function's stack frame.
#[derive(Clone, Copy, Debug)]
pub struct FrameLayout {
    pub frame_size: i32,
    pub align: i32,
}

/// Appends `s` and then `line` to `out`.
fn push_all(out: &mut String, s: &str)
    ensures
        final(out)@ == old(out)@ + s@,
{
    out.append(s);
}

impl Codegen {
    /// A code generator for the given target with every section empty.
    pub fn new(target_codegen: TargetCodegen) -> (r: Codegen)
        ensures
            forall|s: AsmSection| section_text(r.sections, s) == Seq::<char>::empty(),
            r.target_codegen == target_codegen,
    {
        Codegen { sections: AsmEmitter::new(), target_codegen }
    }

    /// Appends `line` and a newline to `section`; the other sections stay as they are.
    pub fn add_line(&mut self, section: AsmSection, line: &str)
        ensures
            section_text(final(self).sections, section) == section_text(old(self).sections, section) + line@.push('\n'),
            forall|s: AsmSection| s != section ==> section_text(final(self).sections, s) == section_text(old(self).sections, s),
            final(self).target_codegen == old(self).target_codegen,
    {
        let target = match section {
            AsmSection::BSS => &mut self.sections.bss,
            AsmSection::RODATA => &mut self.sections.rodata,
            AsmSection::DATA => &mut self.sections.data,
            AsmSection::TEXT => &mut self.sections.text,
            AsmSection::CSTRING => &mut self.sections.cstrings,
            AsmSection::EXTERN => &mut self.sections.externs,
        };
        push_all(target, line);
        string_push(target, '\n');
    }
}

/// The assembly for x86-64 (NASM): the externs, then the read-only data, data, bss and
/// text sections.
pub open spec fn x86_64_text(e: AsmEmitter) -> Seq<char> {
    e.externs@ + "\n"@ + "section .rodata\n"@ + e.rodata@ + "section .data\n"@ + e.data@
        + "section .bss\n"@ + e.bss@ + "section .text\n"@ + e.text@
}

/// The assembly for macOS on AArch64: the externs, then the C strings, constants, data,
/// bss and text sections.
pub open spec fn macos_text(e: AsmEmitter) -> Seq<char> {
    e.externs@ + "\n"@ + ".section __TEXT,__cstring\n"@ + e.cstrings@ + ".section __TEXT,__const\n"@
        + e.rodata@ + ".section __DATA,__data\n"@ + e.data@ + ".section __DATA,__bss\n"@ + e.bss@
        + ".section __TEXT,__text\n"@ + e.text@
}

/// The assembly for Linux on AArch64: the externs, then the read-only data, data, bss
/// and text sections.
pub open spec fn aarch64_linux_text(e: AsmEmitter) -> Seq<char> {
    e.externs@ + "\n"@ + ".section .rodata\n"@ + e.rodata@ + ".section .data\n"@ + e.data@
        + ".section .bss\n"@ + e.bss@ + ".section .text\n"@ + e.text@
}

/// The section a global constant goes to: strings to the C-string section on macOS,
/// everything else to the read-only data.
pub open spec fn spec_const_section(is_string: bool, target_is_macos: bool) -> AsmSection {
    if is_string && target_is_macos {
        AsmSection::CSTRING
    } else {
        AsmSection::RODATA
    }
}

/// See `spec_const_section`.
pub fn const_section(is_string: bool, target_is_macos: bool) -> (r: AsmSection)
    ensures
        r == spec_const_section(is_string, target_is_macos),
{
    if is_string && target_is_macos {
        AsmSection::CSTRING
    } else {
        AsmSection::RODATA
    }
}

impl Codegen {
    fn emit_x86_64(&self) -> (r: String)
        ensures
            r@ == x86_64_text(self.sections),
    {
        let e = &self.sections;
        let mut out = String::new();
        push_all(&mut out, e.externs.as_str());
        push_all(&mut out, "\n");
        push_all(&mut out, "section .rodata\n");
        push_all(&mut out, e.rodata.as_str());
        push_all(&mut out, "section .data\n");
        push_all(&mut out, e.data.as_str());
        push_all(&mut out, "section .bss\n");
        push_all(&mut out, e.bss.as_str());
        push_all(&mut out, "section .text\n");
        push_all(&mut out, e.text.as_str());
        proof {
            assert(out@ =~= x86_64_text(self.sections));
        }
        out
    }

    fn emit_macos(&self) -> (r: String)
        ensures
            r@ == macos_text(self.sections),
    {
        let e = &self.sections;
        let mut out = String::new();
        push_all(&mut out, e.externs.as_str());
        push_all(&mut out, "\n");
        push_all(&mut out, ".section __TEXT,__cstring\n");
        push_all(&mut out, e.cstrings.as_str());
        push_all(&mut out, ".section __TEXT,__const\n");
        push_all(&mut out, e.rodata.as_str());
        push_all(&mut out, ".section __DATA,__data\n");
        push_all(&mut out, e.data.as_str());
        push_all(&mut out, ".section __DATA,__bss\n");
        push_all(&mut out, e.bss.as_str());
        push_all(&mut out, ".section __TEXT,__text\n");
        push_all(&mut out, e.text.as_str());
        proof {
            assert(out@ =~= macos_text(self.sections));
        }
        out
    }

    fn emit_aarch64_linux(&self) -> (r: String)
        ensures
            r@ == aarch64_linux_text(self.sections),
    {
        let e = &self.sections;
        let mut out = String::new();
        push_all(&mut out, e.externs.as_str());
        push_all(&mut out, "\n");
        push_all(&mut out, ".section .rodata\n");
        push_all(&mut out, e.rodata.as_str());
        push_all(&mut out, ".section .data\n");
        push_all(&mut out, e.data.as_str());
        push_all(&mut out, ".section .bss\n");
        push_all(&mut out, e.bss.as_str());
        push_all(&mut out, ".section .text\n");
        push_all(&mut out, e.text.as_str());
        proof {
            assert(out@ =~= aarch64_linux_text(self.sections));
        }
        out
    }

    /// The whole program's assembly: the x86-64 layout for an x86-64 target, else the
    /// macOS layout on macOS, else the Linux one.
    pub fn emit(&self, target_is_x86_64: bool, target_is_macos: bool) -> (r: String)
        ensures
            r@ == (if target_is_x86_64 {
                x86_64_text(self.sections)
            } else if target_is_macos {
                macos_text(self.sections)
            } else {
                aarch64_linux_text(self.sections)
            }),
    {
        if target_is_x86_64 {
            self.emit_x86_64()
        } else if target_is_macos {
            self.emit_macos()
        } else {
            self.emit_aarch64_linux()
        }
    }
}

/// The assembly of the `print_int` routine: it writes the signed integer in `rdi` and a
/// newline to standard output.
pub const PRINT_INT_ROUTINE: &'static str = r#"section .text
global print_int

print_int:
    
    push rax
    push rcx
    push rdx
    push rsi
    push rbx

    mov rax, rdi           
    mov rcx, 10
    lea rsi, [rel int_buf + 20] 
    mov byte [rsi], 10    
    dec rsi

    test rax, rax
    jns .convert
    neg rax
    mov bl, '-'         
    jmp .convert

.convert:
    xor rbx, rbx     
.loop:
    xor rdx, rdx
    div rcx              
    add dl, '0'
    dec rsi
    mov [rsi], dl
    test rax, rax
    jnz .loop

    cmp bl, '-'
    jne .done
    dec rsi
    mov [rsi], bl

.done:
    mov rdx, int_buf + 21
    sub rdx, rsi          
    mov rax, 1            
    mov rdi, 1            
    mov rsi, rsi           
    syscall

    pop rbx
    pop rsi
    pop rdx
    pop rcx
    pop rax
    ret

section .bss
int_buf resb 21  ;
"#;

/// Appends the `print_int` routine to `string`.
pub fn add_print_int(string: &mut String)
    ensures
        final(string)@ == old(string)@ + PRINT_INT_ROUTINE@,
{
    push_all(string, PRINT_INT_ROUTINE);
}

} // verus!
