# lib — a verified compiler core

The library holds the logic of a small compiler, written in Verus and proved
against its contracts:

- `token`, `lexer` — source text to tokens; `spec_tokenize` says what the tokens are.
- `grammar`, `parser` — tokens to statements; every parse function is tied to its
  model in `grammar`.
- `ast` — types, expressions and statements, with their models.
- `alias`, `first_pass` — modules, imports and name resolution: the first pass
  qualifies declarations and records symbols and imports, the second resolves every
  name, keeping local variables as they are.
- `layout` — sizes, alignments and field offsets.
- `ir`, `liveness` — the intermediate representation and live ranges.
- `interference`, `regalloc`, `allocation` — interference graphs, simplification,
  coloring and the register allocation of a function.
- `regs` — the register files of x86-64 and AArch64.
- `assembly` — the sections of the assembly output and how they are laid out.
- `consts`, `symbols`, `mir` — constant folding, escapes, interned symbols and id
  generators.
- `analyzer` — the scopes of variables and the table of functions used in type checking.
- `typecheck` — type checking of expressions, statements and whole programs, each stated against a model of the checker (its scopes, functions, classes, return type and loop state); the `try_` forms answer `None` where the checker cannot go on, and each error renders its message.
- `codegen` — the state of the x86-64 code generator: locals, stack slots and aligned calls.
- `gen_expr`, `gen_stmt`, `gen_func` — x86-64 assembly text from expressions,
  statements, functions, struct declarations and whole programs. Each is proved equal to
  a model (`spec_gen_expr`, `spec_gen_stmt`, `gen_function`, `gen_struct`,
  `spec_generate`) that says what is written, which registers are taken and given back,
  which locals and stack slots are made, and where generation cannot go on (`None`).
  `CodeGen::generate` takes the print and memory routines that follow the program as
  text, and whether calls go by their AArch64 names.
- `emission` — what holds of every emission: text already written stays and new text
  comes after it, the jump label counter only moves forward, and every program starts
  with its entry point.

`app/` is the command-line program around the library: it reads a file; for a `.ae`
file it reads the imported files, type-checks the program and writes its assembly to
`test.asm` (with the routines of `src/stdlib/print.asm` and `mem.asm`); for any other it
resolves import paths on disk and prints the resolved program.
