use vstd::prelude::*;

use crate::alias::{
    QuorFile, Table, copy_names, lemma_stmt_size_pos, qualified, qualified_type, qualify_name,
    qualify_type, seq_size, stmt_size,
};
use crate::ast::{Stmt, StmtV, Type, TypeV, fields_view, stmt_view, stmts_view};
use crate::lexer::{chars_to_string, str_chars};

verus! {

/// The symbols and imports of a file, as values.
pub struct SymbolsV {
    pub structs: Map<Seq<char>, bool>,
    pub fields: Map<Seq<char>, Seq<(Seq<char>, TypeV)>>,
    pub functions: Map<Seq<char>, (Seq<TypeV>, TypeV, Seq<Seq<char>>)>,
    pub globals: Map<Seq<char>, TypeV>,
    pub aliases: Map<Seq<char>, Seq<char>>,
}

pub open spec fn types_view(ts: Seq<Type>) -> Seq<TypeV> {
    ts.map_values(|t: Type| t@)
}

pub open spec fn names_view(ns: Seq<String>) -> Seq<Seq<char>> {
    ns.map_values(|s: String| s@)
}

pub open spec fn sig_view(f: (Vec<Type>, Type, Vec<String>)) -> (Seq<TypeV>, TypeV, Seq<Seq<char>>) {
    (types_view(f.0@), f.1@, names_view(f.2@))
}

/// The symbols and imports of `f`, as values.
pub open spec fn symbols_view(f: QuorFile) -> SymbolsV {
    SymbolsV {
        structs: f.symbols.structs@,
        fields: f.symbols.struct_fields@.map_values(|v: Vec<(String, Type)>| crate::ast::fields_view(v@)),
        functions: f.symbols.functions@.map_values(|s: (Vec<Type>, Type, Vec<String>)| sig_view(s)),
        globals: f.symbols.globals@.map_values(|t: Type| t@),
        aliases: f.aliases@.map_values(|s: String| s@),
    }
}

/// The stem of the last component of a path (the part before its last `.`, unless the
/// component starts with its only `.`), or `mod` when the path has no last component.
pub open spec fn last_component(path: Seq<char>) -> Seq<char>
    decreases path.len(),
{
    if path.len() == 0 {
        path
    } else if path.last() == '/' {
        Seq::empty()
    } else {
        last_component(path.drop_last()).push(path.last())
    }
}

pub open spec fn last_dot(s: Seq<char>) -> Option<int>
    decreases s.len(),
{
    if s.len() == 0 {
        None
    } else if s.last() == '.' {
        Some(s.len() - 1)
    } else {
        last_dot(s.drop_last())
    }
}

pub open spec fn stem_or_mod(path: Seq<char>) -> Seq<char> {
    let name = last_component(path);
    if name.len() == 0 {
        seq!['m', 'o', 'd']
    } else {
        match last_dot(name) {
            Some(i) => if i == 0 {
                name
            } else {
                name.take(i)
            },
            None => name,
        }
    }
}

/// Whether every const and every import among `ss`, at any depth, has a name.
pub open spec fn pass1_named(ss: Seq<StmtV>) -> bool
    decreases ss,
{
    if ss.len() == 0 {
        true
    } else {
        pass1_stmt_named(ss[0]) && pass1_named(ss.skip(1))
    }
}

pub open spec fn pass1_block_named(s: StmtV) -> bool
    decreases s,
{
    match s {
        StmtV::Block(ss) => pass1_named(ss),
        _ => true,
    }
}

pub open spec fn pass1_stmt_named(s: StmtV) -> bool
    decreases s,
{
    match s {
        StmtV::AtDecl(decl, name, _, _, _) => (decl == "const"@ || decl == "import"@) ==> name is Some,
        StmtV::FunDecl { body, .. } => pass1_named(body),
        StmtV::If { then_stmt, else_stmt, .. } => pass1_block_named(*then_stmt) && match else_stmt {
            Some(b) => pass1_block_named(*b),
            None => true,
        },
        StmtV::While { body, .. } => pass1_block_named(*body),
        StmtV::For { init, body, .. } => pass1_block_named(*body) && match init {
            Some(b) => pass1_block_named(*b),
            None => true,
        },
        StmtV::Block(ss) => pass1_named(ss),
        _ => true,
    }
}

/// The first import path, in the order the first pass meets them, that is not among
/// `known`.
pub open spec fn first_missing(known: Set<Seq<char>>, ss: Seq<StmtV>) -> Option<Seq<char>>
    decreases ss,
{
    if ss.len() == 0 {
        None
    } else {
        match first_missing_stmt(known, ss[0]) {
            Some(p) => Some(p),
            None => first_missing(known, ss.skip(1)),
        }
    }
}

pub open spec fn first_missing_block(known: Set<Seq<char>>, s: StmtV) -> Option<Seq<char>>
    decreases s,
{
    match s {
        StmtV::Block(ss) => first_missing(known, ss),
        _ => None,
    }
}

pub open spec fn first_missing_stmt(known: Set<Seq<char>>, s: StmtV) -> Option<Seq<char>>
    decreases s,
{
    match s {
        StmtV::AtDecl(decl, name, _, _, _) => if decl == "import"@ && name is Some
            && !known.contains(name->0) {
            Some(name->0)
        } else {
            None
        },
        StmtV::FunDecl { body, .. } => first_missing(known, body),
        StmtV::If { then_stmt, else_stmt, .. } => match first_missing_block(known, *then_stmt) {
            Some(p) => Some(p),
            None => match else_stmt {
                Some(b) => first_missing_block(known, *b),
                None => None,
            },
        },
        StmtV::While { body, .. } => first_missing_block(known, *body),
        StmtV::For { init: Some(b), body, .. } => match first_missing_block(known, *b) {
            Some(p) => Some(p),
            None => first_missing_block(known, *body),
        },
        StmtV::For { init: None, body, .. } => first_missing_block(known, *body),
        StmtV::Block(ss) => first_missing(known, ss),
        _ => None,
    }
}

pub open spec fn qualified_fields(fs: Seq<(Seq<char>, TypeV)>, mid: nat) -> Seq<(Seq<char>, TypeV)> {
    Seq::new(fs.len(), |i: int| (fs[i].0, qualified_type(fs[i].1, mid)))
}

/// The types of a list of fields.
pub open spec fn field_types(fs: Seq<(Seq<char>, TypeV)>) -> Seq<TypeV> {
    Seq::new(fs.len(), |i: int| fs[i].1)
}

/// The first pass over a list of statements: each in turn, with the symbols the ones
/// before it declared.
pub open spec fn pass1(mid: nat, resolved: Map<Seq<char>, Seq<char>>, st: SymbolsV, ss: Seq<StmtV>) -> (SymbolsV, Seq<StmtV>)
    decreases ss,
{
    if ss.len() == 0 {
        (st, Seq::empty())
    } else {
        let (st1, first) = pass1_stmt(mid, resolved, st, ss[0]);
        let (st2, rest) = pass1(mid, resolved, st1, ss.skip(1));
        (st2, seq![first].add(rest))
    }
}

pub open spec fn pass1_block(mid: nat, resolved: Map<Seq<char>, Seq<char>>, st: SymbolsV, s: StmtV) -> (SymbolsV, StmtV)
    decreases s,
{
    match s {
        StmtV::Block(ss) => {
            let (st1, r) = pass1(mid, resolved, st, ss);
            (st1, StmtV::Block(r))
        },
        other => (st, other),
    }
}

/// The first pass over one statement: functions, structs and consts get names
/// qualified with the module's number and are recorded in the symbols; imports record
/// their alias (the given one, or the stem of the file); types are qualified; blocks
/// and function bodies are passed over in turn.
pub open spec fn pass1_stmt(mid: nat, resolved: Map<Seq<char>, Seq<char>>, st: SymbolsV, s: StmtV) -> (SymbolsV, StmtV)
    decreases s,
{
    match s {
        StmtV::AtDecl(decl, name, val, content, alias) => if decl == "const"@ {
            let q = qualified(name->0, mid);
            let ty = match val {
                Some(e) => qualified_type(crate::ast::spec_get_type(e), mid),
                None => TypeV::Unknown,
            };
            (SymbolsV { globals: st.globals.insert(q, ty), ..st }, StmtV::AtDecl(decl, Some(q), val, content, alias))
        } else if decl == "import"@ {
            let canonical = resolved[name->0];
            let a = match alias {
                Some(a) => a,
                None => stem_or_mod(canonical),
            };
            (SymbolsV { aliases: st.aliases.insert(a, canonical), ..st }, StmtV::AtDecl(decl, name, val, content, Some(a)))
        } else {
            (st, s)
        },
        StmtV::FunDecl { name, params, return_type, body, attributes } => {
            let q = qualified(name, mid);
            let qparams = qualified_fields(params, mid);
            let rt = qualified_type(return_type, mid);
            let st1 = SymbolsV {
                functions: st.functions.insert(q, (field_types(qparams), rt, attributes)),
                ..st
            };
            let (st2, body2) = pass1(mid, resolved, st1, body);
            (st2, StmtV::FunDecl { name: q, params: qparams, return_type: rt, body: body2, attributes })
        },
        StmtV::StructDecl { name, instances, union } => {
            let q = qualified(name, mid);
            let qi = qualified_fields(instances, mid);
            (
                SymbolsV { structs: st.structs.insert(q, union), fields: st.fields.insert(q, qi), ..st },
                StmtV::StructDecl { name: q, instances: qi, union },
            )
        },
        StmtV::If { condition, then_stmt, else_stmt } => {
            let (st1, t) = pass1_block(mid, resolved, st, *then_stmt);
            match else_stmt {
                Some(b) => {
                    let (st2, e) = pass1_block(mid, resolved, st1, *b);
                    (st2, StmtV::If { condition, then_stmt: Box::new(t), else_stmt: Some(Box::new(e)) })
                },
                None => (st1, StmtV::If { condition, then_stmt: Box::new(t), else_stmt: None }),
            }
        },
        StmtV::While { condition, body } => {
            let (st1, b) = pass1_block(mid, resolved, st, *body);
            (st1, StmtV::While { condition, body: Box::new(b) })
        },
        StmtV::For { init, condition, update, body } => {
            let (st1, i2) = match init {
                Some(b) => {
                    let (s1, r) = pass1_block(mid, resolved, st, *b);
                    (s1, Some(Box::new(r)))
                },
                None => (st, None),
            };
            let (st2, b2) = pass1_block(mid, resolved, st1, *body);
            (st2, StmtV::For { init: i2, condition, update, body: Box::new(b2) })
        },
        StmtV::VarDecl { name, var_type, value } => (st, StmtV::VarDecl { name, var_type: qualified_type(var_type, mid), value }),
        StmtV::Block(ss) => {
            let (st1, r) = pass1(mid, resolved, st, ss);
            (st1, StmtV::Block(r))
        },
        other => (st, other),
    }
}

/// What a table of resolved paths stands for, as values.
pub open spec fn paths_view(t: Map<Seq<char>, String>) -> Map<Seq<char>, Seq<char>> {
    t.map_values(|s: String| s@)
}

proof fn lemma_last_component_step(s: Seq<char>, j: int)
    requires
        0 < j <= s.len(),
        s[j - 1] != '/',
    ensures
        last_component(s.take(j)) == last_component(s.take(j - 1)).push(s[j - 1]),
{
    assert(s.take(j).drop_last() =~= s.take(j - 1));
}

proof fn lemma_last_dot_step(s: Seq<char>, j: int)
    requires
        0 < j <= s.len(),
    ensures
        s[j - 1] == '.' ==> last_dot(s.take(j)) == Some(j - 1),
        s[j - 1] != '.' ==> last_dot(s.take(j)) == last_dot(s.take(j - 1)),
{
    assert(s.take(j).drop_last() =~= s.take(j - 1));
}

/// The stem of the last component of `path`, or `mod`; see `stem_or_mod`.
fn file_stem_or_mod(path: &String) -> (r: String)
    ensures
        r@ == stem_or_mod(path@),
{
    let cs = str_chars(path.as_str());
    let n = cs.len();
    let mut j = n;
    proof {
        assert(cs@.take(n as int) =~= cs@);
        assert(cs@.subrange(n as int, n as int) =~= Seq::<char>::empty());
    }
    while j > 0 && cs[j - 1] != '/'
        invariant
            j <= n,
            n == cs@.len(),
            last_component(cs@) == last_component(cs@.take(j as int)) + cs@.subrange(j as int, n as int),
        decreases j,
    {
        proof {
            lemma_last_component_step(cs@, j as int);
            assert(last_component(cs@.take(j - 1)).push(cs@[j - 1]) + cs@.subrange(j as int, n as int)
                =~= last_component(cs@.take(j - 1)) + cs@.subrange(j - 1, n as int));
        }
        j = j - 1;
    }
    let ghost name = cs@.subrange(j as int, n as int);
    proof {
        if j > 0 {
            assert(cs@.take(j as int).drop_last() =~= cs@.take(j - 1));
        }
        assert(last_component(cs@.take(j as int)) =~= Seq::<char>::empty());
        assert(last_component(cs@) =~= name);
    }
    if j == n {
        let m = vec!['m', 'o', 'd'];
        let r = chars_to_string(&m, 0, 3);
        proof {
            assert(m@.subrange(0, 3) =~= seq!['m', 'o', 'd']);
        }
        return r;
    }
    let mut k = n;
    proof {
        assert(name.take(name.len() as int) =~= name);
    }
    while k > j && cs[k - 1] != '.'
        invariant
            j < n,
            j <= k <= n,
            n == cs@.len(),
            name == cs@.subrange(j as int, n as int),
            last_dot(name) == last_dot(name.take(k - j)),
        decreases k,
    {
        proof {
            lemma_last_dot_step(name, k - j);
        }
        k = k - 1;
    }
    if k == j {
        proof {
            assert(name.take(0) =~= Seq::<char>::empty());
        }
        chars_to_string(&cs, j, n)
    } else {
        proof {
            lemma_last_dot_step(name, k - j);
        }
        if k - 1 == j {
            chars_to_string(&cs, j, n)
        } else {
            let r = chars_to_string(&cs, j, k - 1);
            proof {
                assert(r@ =~= name.take(k - 1 - j));
            }
            r
        }
    }
}

proof fn lemma_const_is_not_import()
    ensures
        "const"@ != "import"@,
{
    reveal_strlit("const");
    reveal_strlit("import");
    assert("const"@.len() != "import"@.len());
}

/// Whether `s` reads `word`.
fn is_word(s: &String, word: &str) -> (b: bool)
    ensures
        b == (s@ == word@),
{
    let w = word.to_owned();
    *s == w
}

impl QuorFile {
    fn record_global(&mut self, name: String, ty: Type)
        ensures
            final(self).file == old(self).file,
            final(self).module_id == old(self).module_id,
            symbols_view(*final(self)) == (SymbolsV {
                globals: symbols_view(*old(self)).globals.insert(name@, ty@),
                ..symbols_view(*old(self))
            }),
    {
        let ghost before = *self;
        let ghost k = name@;
        let ghost t = ty@;
        self.symbols.globals.insert(name, ty);
        proof {
            assert(symbols_view(*self).globals =~= symbols_view(before).globals.insert(k, t));
        }
    }

    fn record_alias(&mut self, alias: String, path: String)
        ensures
            final(self).file == old(self).file,
            final(self).module_id == old(self).module_id,
            symbols_view(*final(self)) == (SymbolsV {
                aliases: symbols_view(*old(self)).aliases.insert(alias@, path@),
                ..symbols_view(*old(self))
            }),
    {
        let ghost before = *self;
        let ghost k = alias@;
        let ghost t = path@;
        self.aliases.insert(alias, path);
        proof {
            assert(symbols_view(*self).aliases =~= symbols_view(before).aliases.insert(k, t));
        }
    }

    fn record_function(&mut self, name: String, params: Vec<Type>, ret: Type, attributes: Vec<String>)
        ensures
            final(self).file == old(self).file,
            final(self).module_id == old(self).module_id,
            symbols_view(*final(self)) == (SymbolsV {
                functions: symbols_view(*old(self)).functions.insert(
                    name@,
                    (types_view(params@), ret@, names_view(attributes@)),
                ),
                ..symbols_view(*old(self))
            }),
    {
        let ghost before = *self;
        let ghost k = name@;
        let ghost t = (types_view(params@), ret@, names_view(attributes@));
        self.symbols.functions.insert(name, (params, ret, attributes));
        proof {
            assert(symbols_view(*self).functions =~= symbols_view(before).functions.insert(k, t));
        }
    }

    fn record_struct(&mut self, name: String, union: bool, fields: Vec<(String, Type)>)
        ensures
            final(self).file == old(self).file,
            final(self).module_id == old(self).module_id,
            symbols_view(*final(self)) == (SymbolsV {
                structs: symbols_view(*old(self)).structs.insert(name@, union),
                fields: symbols_view(*old(self)).fields.insert(name@, fields_view(fields@)),
                ..symbols_view(*old(self))
            }),
    {
        let ghost before = *self;
        let ghost k = name@;
        let ghost t = fields_view(fields@);
        let n2 = name.clone();
        self.symbols.structs.insert(name, union);
        self.symbols.struct_fields.insert(n2, fields);
        proof {
            assert(symbols_view(*self).structs =~= symbols_view(before).structs.insert(k, union));
            assert(symbols_view(*self).fields =~= symbols_view(before).fields.insert(k, t));
        }
    }
}

/// The fields with their types qualified by `module_id`.
fn qualify_fields(fields: &Vec<(String, Type)>, module_id: usize) -> (r: Vec<(String, Type)>)
    ensures
        fields_view(r@) == qualified_fields(fields_view(fields@), module_id as nat),
{
    let mut out: Vec<(String, Type)> = Vec::new();
    let mut i: usize = 0;
    while i < fields.len()
        invariant
            i <= fields@.len(),
            out@.len() == i,
            forall|j: int| 0 <= j < i ==> (#[trigger] out@[j]).0@ == fields@[j].0@
                && out@[j].1@ == qualified_type(fields@[j].1@, module_id as nat),
        decreases fields@.len() - i,
    {
        let name = fields[i].0.clone();
        let ty = qualify_type(&fields[i].1, module_id);
        out.push((name, ty));
        i = i + 1;
    }
    proof {
        assert(fields_view(out@) =~= qualified_fields(fields_view(fields@), module_id as nat));
    }
    out
}

/// The types of a list of fields, qualified by `module_id`.
fn qualified_field_types(fields: &Vec<(String, Type)>, module_id: usize) -> (r: Vec<Type>)
    ensures
        types_view(r@) == field_types(qualified_fields(fields_view(fields@), module_id as nat)),
{
    let mut out: Vec<Type> = Vec::new();
    let mut i: usize = 0;
    while i < fields.len()
        invariant
            i <= fields@.len(),
            out@.len() == i,
            forall|j: int| 0 <= j < i ==> (#[trigger] out@[j])@ == qualified_type(fields@[j].1@, module_id as nat),
        decreases fields@.len() - i,
    {
        out.push(qualify_type(&fields[i].1, module_id));
        i = i + 1;
    }
    proof {
        assert(types_view(out@) =~= field_types(qualified_fields(fields_view(fields@), module_id as nat)));
    }
    out
}

impl QuorFile {
    /// The first pass over the statements of this file: functions, structs and consts
    /// get names qualified with the module's number and are recorded in the symbols;
    /// each import records its alias (the one given, or the stem of the file it resolves
    /// to) for the path that `resolved` gives it; types are qualified; blocks and function
    /// bodies are passed over in turn. An import whose path `resolved` does not hold ends
    /// the pass with that path as the error.
    pub fn determine_symbols_stmts_first_pass(&mut self, stmts: Vec<Stmt>, resolved: &Table<String>) -> (r: Result<Vec<Stmt>, String>)
        requires
            pass1_named(stmts_view(stmts@)),
        ensures
            final(self).file == old(self).file,
            final(self).module_id == old(self).module_id,
            match r {
                Ok(v) => first_missing(resolved@.dom(), stmts_view(stmts@)) is None
                    && (symbols_view(*final(self)), stmts_view(v@)) == pass1(
                        old(self).module_id as nat,
                        paths_view(resolved@),
                        symbols_view(*old(self)),
                        stmts_view(stmts@),
                    ),
                Err(p) => first_missing(resolved@.dom(), stmts_view(stmts@)) == Some(p@),
            },
        decreases seq_size(stmts_view(stmts@)), 1int,
    {
        if stmts.len() == 0 {
            proof {
                crate::ast::lemma_stmts_view_len(stmts@);
                assert(stmts_view(stmts@) =~= Seq::<StmtV>::empty());
                crate::ast::lemma_list_views_empty();
            }
            return Ok(Vec::new());
        }
        let ghost whole = stmts@;
        proof {
            crate::ast::lemma_stmts_view_cons(whole);
        }
        let mut stmts = stmts;
        let first = stmts.remove(0);
        proof {
            assert(stmts@ =~= whole.skip(1));
            lemma_stmt_size_pos(first@);
            assert(seq_size(stmts_view(whole)) == stmt_size(first@) + seq_size(stmts_view(stmts@)));
        }
        let s1 = match self.first_pass_stmt(first, resolved) {
            Ok(x) => x,
            Err(p) => {
                return Err(p);
            },
        };
        let mut rest = match self.determine_symbols_stmts_first_pass(stmts, resolved) {
            Ok(v) => v,
            Err(p) => {
                return Err(p);
            },
        };
        let ghost rest_before = rest@;
        rest.insert(0, s1);
        proof {
            assert(rest@.skip(1) =~= rest_before);
            crate::ast::lemma_stmts_view_cons(rest@);
        }
        Ok(rest)
    }

    /// A branch or body: a block is passed over; any other statement stays as it is.
    fn first_pass_block(&mut self, s: Stmt, resolved: &Table<String>) -> (r: Result<Stmt, String>)
        requires
            pass1_block_named(s@),
        ensures
            final(self).file == old(self).file,
            final(self).module_id == old(self).module_id,
            match r {
                Ok(x) => first_missing_block(resolved@.dom(), s@) is None
                    && (symbols_view(*final(self)), x@) == pass1_block(
                        old(self).module_id as nat,
                        paths_view(resolved@),
                        symbols_view(*old(self)),
                        s@,
                    ),
                Err(p) => first_missing_block(resolved@.dom(), s@) == Some(p@),
            },
        decreases stmt_size(s@), 0int,
    {
        proof {
            reveal(stmt_view);
        }
        match s {
            Stmt::Block(ss) => {
                proof {
                    crate::ast::lemma_stmt_lists_view(arbitrary(), arbitrary(), arbitrary(), ss, arbitrary());
                }
                match self.determine_symbols_stmts_first_pass(ss, resolved) {
                    Ok(r) => {
                        proof {
                            crate::ast::lemma_stmt_lists_view(arbitrary(), arbitrary(), arbitrary(), r, arbitrary());
                        }
                        Ok(Stmt::Block(r))
                    },
                    Err(p) => Err(p),
                }
            },
            other => Ok(other),
        }
    }
}

impl QuorFile {
    /// The first pass over one statement; see `pass1_stmt`.
    #[verifier::spinoff_prover]
    fn first_pass_stmt(&mut self, s: Stmt, resolved: &Table<String>) -> (r: Result<Stmt, String>)
        requires
            pass1_stmt_named(s@),
        ensures
            final(self).file == old(self).file,
            final(self).module_id == old(self).module_id,
            match r {
                Ok(x) => first_missing_stmt(resolved@.dom(), s@) is None
                    && (symbols_view(*final(self)), x@) == pass1_stmt(
                        old(self).module_id as nat,
                        paths_view(resolved@),
                        symbols_view(*old(self)),
                        s@,
                    ),
                Err(p) => first_missing_stmt(resolved@.dom(), s@) == Some(p@),
            },
        decreases stmt_size(s@), 0int,
    {
        proof {
            reveal(stmt_view);
            lemma_const_is_not_import();
        }
        let mid = self.module_id;
        match s {
            Stmt::AtDecl(decl, name_opt, val, content, alias_opt) => {
                if is_word(&decl, "const") {
                    let name = match &name_opt {
                        Some(n) => n,
                        None => {
                            proof {
                                assert(false);
                            }
                            return Ok(Stmt::AtDecl(decl, name_opt, val, content, alias_opt));
                        },
                    };
                    let q = qualify_name(name.as_str(), mid);
                    let ty = match &val {
                        Some(e) => qualify_type(&e.get_type(), mid),
                        None => Type::Unknown,
                    };
                    self.record_global(q.clone(), ty);
                    Ok(Stmt::AtDecl(decl, Some(q), val, content, alias_opt))
                } else if is_word(&decl, "import") {
                    let path = match &name_opt {
                        Some(n) => n,
                        None => {
                            proof {
                                assert(false);
                            }
                            return Ok(Stmt::AtDecl(decl, name_opt, val, content, alias_opt));
                        },
                    };
                    let canonical = match resolved.get(path.as_str()) {
                        Some(c) => c.clone(),
                        None => {
                            return Err(path.clone());
                        },
                    };
                    let alias = match alias_opt {
                        Some(a) => a,
                        None => file_stem_or_mod(&canonical),
                    };
                    self.record_alias(alias.clone(), canonical);
                    Ok(Stmt::AtDecl(decl, name_opt, val, content, Some(alias)))
                } else {
                    Ok(Stmt::AtDecl(decl, name_opt, val, content, alias_opt))
                }
            },
            Stmt::FunDecl { name, params, return_type, body, attributes } => {
                proof {
                    crate::ast::lemma_stmt_lists_view(name, params, return_type, body, attributes);
                }
                let q = qualify_name(name.as_str(), mid);
                let ptypes = qualified_field_types(&params, mid);
                let qparams = qualify_fields(&params, mid);
                let rt = qualify_type(&return_type, mid);
                let rt2 = qualify_type(&return_type, mid);
                let attrs = copy_names(&attributes);
                self.record_function(q.clone(), ptypes, rt, attrs);
                let body2 = match self.determine_symbols_stmts_first_pass(body, resolved) {
                    Ok(b) => b,
                    Err(p) => {
                        return Err(p);
                    },
                };
                proof {
                    crate::ast::lemma_stmt_lists_view(q, qparams, rt2, body2, attributes);
                }
                Ok(Stmt::FunDecl { name: q, params: qparams, return_type: rt2, body: body2, attributes })
            },
            Stmt::StructDecl { name, instances, union } => {
                let q = qualify_name(name.as_str(), mid);
                let qi = qualify_fields(&instances, mid);
                let qi2 = qualify_fields(&instances, mid);
                self.record_struct(q.clone(), union, qi2);
                Ok(Stmt::StructDecl { name: q, instances: qi, union })
            },
            Stmt::If { condition, then_stmt, else_stmt } => {
                let t = match self.first_pass_block(*then_stmt, resolved) {
                    Ok(t) => t,
                    Err(p) => {
                        return Err(p);
                    },
                };
                let e = match else_stmt {
                    Some(b) => match self.first_pass_block(*b, resolved) {
                        Ok(x) => Some(Box::new(x)),
                        Err(p) => {
                            return Err(p);
                        },
                    },
                    None => None,
                };
                Ok(Stmt::If { condition, then_stmt: Box::new(t), else_stmt: e })
            },
            Stmt::While { condition, body } => {
                match self.first_pass_block(*body, resolved) {
                    Ok(b) => Ok(Stmt::While { condition, body: Box::new(b) }),
                    Err(p) => Err(p),
                }
            },
            Stmt::For { init, condition, update, body } => {
                let i2 = match init {
                    Some(b) => match self.first_pass_block(*b, resolved) {
                        Ok(x) => Some(Box::new(x)),
                        Err(p) => {
                            return Err(p);
                        },
                    },
                    None => None,
                };
                match self.first_pass_block(*body, resolved) {
                    Ok(b) => Ok(Stmt::For { init: i2, condition, update, body: Box::new(b) }),
                    Err(p) => Err(p),
                }
            },
            Stmt::VarDecl { name, var_type, value } => {
                let t = qualify_type(&var_type, mid);
                Ok(Stmt::VarDecl { name, var_type: t, value })
            },
            Stmt::Block(ss) => {
                proof {
                    crate::ast::lemma_stmt_lists_view(arbitrary(), arbitrary(), arbitrary(), ss, arbitrary());
                }
                match self.determine_symbols_stmts_first_pass(ss, resolved) {
                    Ok(r) => {
                        proof {
                            crate::ast::lemma_stmt_lists_view(arbitrary(), arbitrary(), arbitrary(), r, arbitrary());
                        }
                        Ok(Stmt::Block(r))
                    },
                    Err(p) => Err(p),
                }
            },
            other => Ok(other),
        }
    }
}

/// A statement of a list weighs no more than the list.
proof fn lemma_seq_size_elem(ss: Seq<StmtV>, i: int)
    requires
        0 <= i < ss.len(),
    ensures
        stmt_size(ss[i]) <= seq_size(ss),
    decreases ss.len(),
{
    if i > 0 {
        lemma_seq_size_elem(ss.skip(1), i - 1);
    }
}

/// Whether every const and every import among `stmts`, at any depth, has a name: the
/// condition the first pass needs.
pub fn first_pass_names_present(stmts: &Vec<Stmt>) -> (b: bool)
    ensures
        b == pass1_named(stmts_view(stmts@)),
    decreases seq_size(stmts_view(stmts@)), 1int,
{
    let ghost sv = stmts_view(stmts@);
    proof {
        crate::ast::lemma_stmts_view_len(stmts@);
        assert(sv.skip(0) =~= sv);
    }
    let mut i: usize = 0;
    while i < stmts.len()
        invariant
            i <= stmts@.len(),
            sv == stmts_view(stmts@),
            sv.len() == stmts@.len(),
            forall|j: int| 0 <= j < stmts@.len() ==> #[trigger] sv[j] == stmts@[j]@,
            pass1_named(sv) == pass1_named(sv.skip(i as int)),
        decreases stmts@.len() - i,
    {
        proof {
            lemma_seq_size_elem(sv, i as int);
            assert(sv.skip(i as int)[0] == sv[i as int]);
            assert(sv.skip(i as int).skip(1) =~= sv.skip(i + 1));
        }
        if !stmt_names_present(&stmts[i]) {
            return false;
        }
        i = i + 1;
    }
    proof {
        assert(sv.skip(i as int).len() == 0);
    }
    true
}

fn block_names_present(s: &Stmt) -> (b: bool)
    ensures
        b == pass1_block_named(s@),
    decreases stmt_size(s@), 0int,
{
    proof {
        reveal(stmt_view);
    }
    match s {
        Stmt::Block(ss) => {
            proof {
                crate::ast::lemma_stmt_lists_view(arbitrary(), arbitrary(), arbitrary(), *ss, arbitrary());
            }
            first_pass_names_present(ss)
        },
        _ => true,
    }
}

fn stmt_names_present(s: &Stmt) -> (b: bool)
    ensures
        b == pass1_stmt_named(s@),
    decreases stmt_size(s@), 0int,
{
    proof {
        reveal(stmt_view);
        lemma_const_is_not_import();
    }
    match s {
        Stmt::AtDecl(decl, name, _, _, _) => !(is_word(decl, "const") || is_word(decl, "import")) || name.is_some(),
        Stmt::FunDecl { name, params, return_type, body, attributes } => {
            proof {
                crate::ast::lemma_stmt_lists_view(*name, *params, *return_type, *body, *attributes);
            }
            first_pass_names_present(body)
        },
        Stmt::If { then_stmt, else_stmt, .. } => block_names_present(then_stmt) && match else_stmt {
            Some(b) => block_names_present(b),
            None => true,
        },
        Stmt::While { body, .. } => block_names_present(body),
        Stmt::For { init, body, .. } => block_names_present(body) && match init {
            Some(b) => block_names_present(b),
            None => true,
        },
        Stmt::Block(ss) => {
            proof {
                crate::ast::lemma_stmt_lists_view(arbitrary(), arbitrary(), arbitrary(), *ss, arbitrary());
            }
            first_pass_names_present(ss)
        },
        _ => true,
    }
}


/// An import without an alias is known by the stem of the file it resolves to: the
/// first pass records that stem as its alias.
pub proof fn law_import_without_alias_uses_stem(
    mid: nat,
    resolved: Map<Seq<char>, Seq<char>>,
    st: SymbolsV,
    path: Seq<char>,
    val: Option<crate::ast::ExprV>,
    content: Option<Seq<char>>,
)
    ensures
        ({
            let (st2, s2) = pass1_stmt(mid, resolved, st, StmtV::AtDecl("import"@, Some(path), val, content, None));
            &&& st2.aliases == st.aliases.insert(stem_or_mod(resolved[path]), resolved[path])
            &&& s2 == StmtV::AtDecl("import"@, Some(path), val, content, Some(stem_or_mod(resolved[path])))
        }),
{
    lemma_const_is_not_import();
}

/// An import with an alias is known by that alias.
pub proof fn law_import_alias_names_module(
    mid: nat,
    resolved: Map<Seq<char>, Seq<char>>,
    st: SymbolsV,
    path: Seq<char>,
    alias: Seq<char>,
    val: Option<crate::ast::ExprV>,
    content: Option<Seq<char>>,
)
    ensures
        pass1_stmt(mid, resolved, st, StmtV::AtDecl("import"@, Some(path), val, content, Some(alias))).0.aliases
            == st.aliases.insert(alias, resolved[path]),
{
    lemma_const_is_not_import();
}

} // verus!
