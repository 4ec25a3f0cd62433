use vstd::prelude::*;

use crate::ast::{Expr, ExprV, Stmt, StmtV, Type, TypeV, expr_view, stmt_view, stmts_view, type_view};
use crate::lexer::{chars_to_string, str_chars, string_push};

verus! {

/// A table from names to values: `insert` adds an entry, and a lookup finds the entry
/// inserted last under a name, so a later insert replaces an earlier one.
#[derive(Debug)]
pub struct Table<V> {
    entries: Vec<(String, V)>,
}

/// The map that a list of entries stands for; a later entry shadows an earlier one.
pub open spec fn table_map<V>(s: Seq<(String, V)>) -> Map<Seq<char>, V>
    decreases s.len(),
{
    if s.len() == 0 {
        Map::empty()
    } else {
        table_map(s.drop_last()).insert(s.last().0@, s.last().1)
    }
}

/// Where no entry at or after `j` has the name `k`, the entries before `j` decide `k`.
proof fn lemma_table_prefix<V>(s: Seq<(String, V)>, j: int, k: Seq<char>)
    requires
        0 <= j <= s.len(),
        forall|i: int| j <= i < s.len() ==> (#[trigger] s[i]).0@ != k,
    ensures
        table_map(s).contains_key(k) == table_map(s.take(j)).contains_key(k),
        table_map(s).contains_key(k) ==> table_map(s)[k] == table_map(s.take(j))[k],
    decreases s.len() - j,
{
    if j < s.len() {
        assert(s.drop_last() =~= s.take(s.len() - 1));
        lemma_table_prefix(s.drop_last(), j, k);
        assert(s.drop_last().take(j) =~= s.take(j));
    } else {
        assert(s.take(j) =~= s);
    }
}

/// Changing the value of the entry that decides `s[i].0` changes only that name.
proof fn lemma_table_update<V>(s: Seq<(String, V)>, i: int, v: V)
    requires
        0 <= i < s.len(),
        forall|j: int| i < j < s.len() ==> (#[trigger] s[j]).0@ != s[i].0@,
    ensures
        table_map(s.update(i, (s[i].0, v))) == table_map(s).insert(s[i].0@, v),
    decreases s.len(),
{
    let t = s.update(i, (s[i].0, v));
    if i == s.len() - 1 {
        assert(t.drop_last() =~= s.drop_last());
        assert(table_map(t) =~= table_map(s).insert(s[i].0@, v));
    } else {
        lemma_table_update(s.drop_last(), i, v);
        assert(t.drop_last() =~= s.drop_last().update(i, (s[i].0, v)));
        assert(table_map(t) =~= table_map(s).insert(s[i].0@, v));
    }
}

impl<V> View for Table<V> {
    type V = Map<Seq<char>, V>;

    closed spec fn view(&self) -> Map<Seq<char>, V> {
        table_map(self.entries@)
    }
}

impl<V> Table<V> {
    /// An empty table.
    pub fn new() -> (r: Table<V>)
        ensures
            r@ == Map::<Seq<char>, V>::empty(),
    {
        Table { entries: Vec::new() }
    }

    /// `key` now stands for `value`.
    pub fn insert(&mut self, key: String, value: V)
        ensures
            final(self)@ == old(self)@.insert(key@, value),
    {
        let ghost before = self.entries@;
        self.entries.push((key, value));
        proof {
            assert(self.entries@.drop_last() =~= before);
        }
    }

    /// The position of the entry that decides `key`.
    fn find(&self, key: &String) -> (r: Option<usize>)
        ensures
            match r {
                Some(i) => i < self.entries@.len() && self.entries@[i as int].0@ == key@
                    && self@.contains_key(key@) && self@[key@] == self.entries@[i as int].1
                    && forall|j: int| i < j < self.entries@.len() ==> (#[trigger] self.entries@[j]).0@ != key@,
                None => !self@.contains_key(key@),
            },
    {
        let mut j = self.entries.len();
        while j > 0
            invariant
                j <= self.entries@.len(),
                forall|i: int| j <= i < self.entries@.len() ==> (#[trigger] self.entries@[i]).0@ != key@,
            decreases j,
        {
            if self.entries[j - 1].0 == *key {
                proof {
                    let s = self.entries@;
                    lemma_table_prefix(s, j as int, key@);
                    assert(s.take(j as int).drop_last() =~= s.take(j - 1));
                    assert(s.take(j as int).last() == s[j - 1]);
                }
                return Some(j - 1);
            }
            j = j - 1;
        }
        proof {
            lemma_table_prefix(self.entries@, 0, key@);
            assert(self.entries@.take(0) =~= Seq::<(String, V)>::empty());
        }
        None
    }

    /// The value `key` stands for.
    pub fn get(&self, key: &str) -> (r: Option<&V>)
        ensures
            match r {
                Some(v) => self@.contains_key(key@) && *v == self@[key@],
                None => !self@.contains_key(key@),
            },
    {
        let k = key.to_owned();
        match self.find(&k) {
            Some(i) => Some(&self.entries[i].1),
            None => None,
        }
    }

    /// The value `key` stands for, to change in place.
    pub fn get_mut(&mut self, key: &str) -> (r: Option<&mut V>)
        ensures
            match r {
                Some(v) => old(self)@.contains_key(key@) && *v == old(self)@[key@]
                    && final(self)@ == old(self)@.insert(key@, *final(v)),
                None => !old(self)@.contains_key(key@) && final(self)@ == old(self)@,
            },
    {
        let k = key.to_owned();
        match self.find(&k) {
            Some(i) => {
                let ghost before = self.entries@;
                let r = &mut self.entries[i].1;
                proof {
                    lemma_table_update(before, i as int, *final(r));
                }
                Some(r)
            },
            None => None,
        }
    }

    /// Whether `key` stands for a value.
    pub fn contains_key(&self, key: &str) -> (r: bool)
        ensures
            r == self@.contains_key(key@),
    {
        let k = key.to_owned();
        self.find(&k).is_some()
    }
}

/// The decimal digits of `n`.
pub open spec fn decimal(n: nat) -> Seq<char>
    decreases n,
{
    if n < 10 {
        seq![digit_char(n)]
    } else {
        decimal(n / 10).push(digit_char(n % 10))
    }
}

pub open spec fn digit_char(d: nat) -> char {
    if d == 0 {
        '0'
    } else if d == 1 {
        '1'
    } else if d == 2 {
        '2'
    } else if d == 3 {
        '3'
    } else if d == 4 {
        '4'
    } else if d == 5 {
        '5'
    } else if d == 6 {
        '6'
    } else if d == 7 {
        '7'
    } else if d == 8 {
        '8'
    } else {
        '9'
    }
}

fn digit(d: usize) -> (r: char)
    requires
        d < 10,
    ensures
        r == digit_char(d as nat),
{
    if d == 0 {
        '0'
    } else if d == 1 {
        '1'
    } else if d == 2 {
        '2'
    } else if d == 3 {
        '3'
    } else if d == 4 {
        '4'
    } else if d == 5 {
        '5'
    } else if d == 6 {
        '6'
    } else if d == 7 {
        '7'
    } else if d == 8 {
        '8'
    } else {
        '9'
    }
}

/// Appends the decimal digits of `n` to `s`.
pub(crate) fn push_decimal(s: &mut String, n: usize)
    ensures
        final(s)@ == old(s)@ + decimal(n as nat),
    decreases n,
{
    if n < 10 {
        string_push(s, digit(n));
        assert(decimal(n as nat) =~= seq![digit_char(n as nat)]);
    } else {
        push_decimal(s, n / 10);
        string_push(s, digit(n % 10));
    }
}

/// The name a module gives to `name`: the name, a `.` and the module's number.
pub open spec fn qualified(name: Seq<char>, module_id: nat) -> Seq<char> {
    name.push('.') + decimal(module_id)
}

/// `name.module_id`.
pub fn qualify_name(name: &str, module_id: usize) -> (r: String)
    ensures
        r@ == qualified(name@, module_id as nat),
{
    let mut s = name.to_owned();
    string_push(&mut s, '.');
    push_decimal(&mut s, module_id);
    s
}

} // verus!

verus! {

/// The position of the first `::` in `s` at or after `i`.
pub open spec fn find_sep(s: Seq<char>, i: int) -> Option<int>
    decreases s.len() - i,
{
    if i < 0 || i + 1 >= s.len() {
        None
    } else if s[i] == ':' && s[i + 1] == ':' {
        Some(i)
    } else {
        find_sep(s, i + 1)
    }
}

/// `namespace::name` split at its one `::`; `None` when `s` has no `::` or more than one.
pub open spec fn split_two(s: Seq<char>) -> Option<(Seq<char>, Seq<char>)> {
    match find_sep(s, 0) {
        Some(j) => if find_sep(s.skip(j + 2), 0) is None {
            Some((s.take(j), s.skip(j + 2)))
        } else {
            None
        },
        None => None,
    }
}

/// The first `::` in `cs` at or after `i`.
fn find_sep_exec(cs: &Vec<char>, i: usize) -> (r: Option<usize>)
    requires
        i <= cs@.len(),
    ensures
        match r {
            Some(j) => find_sep(cs@, i as int) == Some(j as int) && i <= j && j + 2 <= cs.len(),
            None => find_sep(cs@, i as int) is None,
        },
    decreases cs@.len() - i,
{
    if i >= cs.len() || cs.len() - i < 2 {
        None
    } else if cs[i] == ':' && cs[i + 1] == ':' {
        Some(i)
    } else {
        find_sep_exec(cs, i + 1)
    }
}

proof fn lemma_find_sep_skip(s: Seq<char>, k: int, i: int)
    requires
        0 <= k <= s.len(),
        0 <= i,
    ensures
        match find_sep(s.skip(k), i) {
            Some(j) => find_sep(s, k + i) == Some(k + j),
            None => find_sep(s, k + i) is None,
        },
    decreases s.len() - k - i,
{
    if i + 1 < s.len() - k {
        lemma_find_sep_skip(s, k, i + 1);
    }
}

/// The symbols a module declares, by qualified name.
#[derive(Debug)]
pub struct ModuleSymbols {
    /// Struct name to whether it is a union.
    pub structs: Table<bool>,
    /// Struct name to its fields.
    pub struct_fields: Table<Vec<(String, Type)>>,
    /// Function name to its parameter types, return type and attributes.
    pub functions: Table<(Vec<Type>, Type, Vec<String>)>,
    /// Global name to its type.
    pub globals: Table<Type>,
}

impl ModuleSymbols {
    /// A module without symbols.
    pub fn new() -> (r: ModuleSymbols)
        ensures
            r.structs@ == Map::<Seq<char>, bool>::empty(),
            r.struct_fields@ == Map::<Seq<char>, Vec<(String, Type)>>::empty(),
            r.functions@ == Map::<Seq<char>, (Vec<Type>, Type, Vec<String>)>::empty(),
            r.globals@ == Map::<Seq<char>, Type>::empty(),
    {
        ModuleSymbols { structs: Table::new(), struct_fields: Table::new(), functions: Table::new(), globals: Table::new() }
    }

    /// The signature of the function with this qualified name.
    pub fn lookup_fn(&self, qualified_name: &str) -> (r: Option<&(Vec<Type>, Type, Vec<String>)>)
        ensures
            match r {
                Some(f) => self.functions@.contains_key(qualified_name@) && *f == self.functions@[qualified_name@],
                None => !self.functions@.contains_key(qualified_name@),
            },
    {
        self.functions.get(qualified_name)
    }

    /// Whether the struct with this qualified name is a union.
    pub fn lookup_struct(&self, qualified_name: &str) -> (r: Option<&bool>)
        ensures
            match r {
                Some(u) => self.structs@.contains_key(qualified_name@) && *u == self.structs@[qualified_name@],
                None => !self.structs@.contains_key(qualified_name@),
            },
    {
        self.structs.get(qualified_name)
    }

    /// The fields of the struct with this qualified name.
    pub fn lookup_struct_fields(&self, qualified_name: &str) -> (r: Option<&Vec<(String, Type)>>)
        ensures
            match r {
                Some(f) => self.struct_fields@.contains_key(qualified_name@) && *f == self.struct_fields@[qualified_name@],
                None => !self.struct_fields@.contains_key(qualified_name@),
            },
    {
        self.struct_fields.get(qualified_name)
    }

    /// The type of the global with this qualified name.
    pub fn lookup_global(&self, qualified_name: &str) -> (r: Option<&Type>)
        ensures
            match r {
                Some(t) => self.globals@.contains_key(qualified_name@) && *t == self.globals@[qualified_name@],
                None => !self.globals@.contains_key(qualified_name@),
            },
    {
        self.globals.get(qualified_name)
    }
}

/// A source file of the program: its canonical path, its number, what it declares, and
/// the files its imports refer to, by alias.
#[derive(Debug)]
pub struct QuorFile {
    pub file: String,
    pub module_id: usize,
    pub symbols: ModuleSymbols,
    pub aliases: Table<String>,
}

/// The names of the local variables in scope.
pub open spec fn local_names(locals: Seq<String>) -> Seq<Seq<char>> {
    locals.map_values(|s: String| s@)
}

/// What `name` refers to from a file with these aliases and this number:
/// `namespace::base` becomes `base.id` for the module the alias names; a local
/// variable stays as it is; any other name gets the file's own number. A name with an
/// unknown alias, or with more than one `::`, stays as it is.
pub open spec fn spec_resolve_name(
    aliases: Map<Seq<char>, String>,
    module_id: nat,
    ids: Map<Seq<char>, usize>,
    name: Seq<char>,
    locals: Seq<Seq<char>>,
) -> Seq<char> {
    if find_sep(name, 0) is Some {
        match split_two(name) {
            Some((ns, base)) => if aliases.contains_key(ns) && ids.contains_key(aliases[ns]@) {
                qualified(base, ids[aliases[ns]@] as nat)
            } else {
                name
            },
            None => name,
        }
    } else if locals.contains(name) {
        name
    } else {
        qualified(name, module_id)
    }
}

/// Whether `name` is one of `locals`.
fn is_local(locals: &Vec<String>, name: &str) -> (r: bool)
    ensures
        r == local_names(locals@).contains(name@),
{
    let n = name.to_owned();
    let mut i: usize = 0;
    while i < locals.len()
        invariant
            i <= locals@.len(),
            n@ == name@,
            forall|j: int| 0 <= j < i ==> locals@[j]@ != name@,
        decreases locals@.len() - i,
    {
        if locals[i] == n {
            proof {
                assert(local_names(locals@)[i as int] == name@);
            }
            return true;
        }
        i = i + 1;
    }
    proof {
        if local_names(locals@).contains(name@) {
            let j = choose|j: int| 0 <= j < local_names(locals@).len() && local_names(locals@)[j] == name@;
            assert(locals@[j]@ == name@);
        }
    }
    false
}

impl QuorFile {
    /// A file with this path and number, without symbols or imports.
    pub fn new(file: String, module_id: usize) -> (r: QuorFile)
        ensures
            r.file == file,
            r.module_id == module_id,
            r.symbols.structs@ == Map::<Seq<char>, bool>::empty(),
            r.symbols.struct_fields@ == Map::<Seq<char>, Vec<(String, Type)>>::empty(),
            r.symbols.functions@ == Map::<Seq<char>, (Vec<Type>, Type, Vec<String>)>::empty(),
            r.symbols.globals@ == Map::<Seq<char>, Type>::empty(),
            r.aliases@ == Map::<Seq<char>, String>::empty(),
    {
        QuorFile { file, module_id, symbols: ModuleSymbols::new(), aliases: Table::new() }
    }

    /// What `name` refers to from this file; see `spec_resolve_name`.
    pub fn resolve_name(&self, name: &str, alias_manager: &AliasManager, locals: &Vec<String>) -> (r: String)
        ensures
            r@ == spec_resolve_name(
                self.aliases@,
                self.module_id as nat,
                alias_manager.ids(),
                name@,
                local_names(locals@),
            ),
    {
        let cs = str_chars(name);
        match find_sep_exec(&cs, 0) {
            Some(j) => {
                proof {
                    lemma_find_sep_skip(cs@, j + 2, 0);
                }
                match find_sep_exec(&cs, j + 2) {
                    Some(_) => name.to_owned(),
                    None => {
                        let ns = chars_to_string(&cs, 0, j);
                        let base = chars_to_string(&cs, j + 2, cs.len());
                        proof {
                            assert(cs@.take(j as int) =~= cs@.subrange(0, j as int));
                            assert(cs@.skip(j + 2) =~= cs@.subrange(j + 2, cs@.len() as int));
                        }
                        match self.aliases.get(ns.as_str()) {
                            Some(canonical) => match alias_manager.module_ids.get(canonical.as_str()) {
                                Some(id) => qualify_name(base.as_str(), *id),
                                None => name.to_owned(),
                            },
                            None => name.to_owned(),
                        }
                    },
                }
            },
            None => if is_local(locals, name) {
                name.to_owned()
            } else {
                qualify_name(name, self.module_id)
            },
        }
    }
}

/// All the files of a program, each with its number.
#[derive(Debug)]
pub struct AliasManager {
    module_registry: Table<QuorFile>,
    module_ids: Table<usize>,
    module_count: usize,
}

impl AliasManager {
    /// How many files have been registered.
    pub closed spec fn count(&self) -> nat {
        self.module_count as nat
    }

    /// The number of each registered file, by canonical path.
    pub closed spec fn ids(&self) -> Map<Seq<char>, usize> {
        self.module_ids@
    }

    /// The registered files, by canonical path.
    pub closed spec fn registry(&self) -> Map<Seq<char>, QuorFile> {
        self.module_registry@
    }

    /// A manager without files.
    pub fn new() -> (r: AliasManager)
        ensures
            r.registry() == Map::<Seq<char>, QuorFile>::empty(),
            r.ids() == Map::<Seq<char>, usize>::empty(),
            r.count() == 0,
    {
        AliasManager { module_registry: Table::new(), module_ids: Table::new(), module_count: 0 }
    }

    /// Registers `file` as a new module, without symbols; it gets the next number.
    pub fn register_module(&mut self, file: String)
        requires
            old(self).count() < usize::MAX,
        ensures
            final(self).count() == old(self).count() + 1,
            final(self).ids() == old(self).ids().insert(file@, old(self).count() as usize),
            final(self).registry().dom() == old(self).registry().dom().insert(file@),
            forall|k: Seq<char>| k != file@ ==> #[trigger] final(self).registry().contains_key(k)
                ==> final(self).registry()[k] == old(self).registry()[k],
            final(self).registry()[file@].file == file,
            final(self).registry()[file@].module_id == old(self).count(),
            final(self).registry()[file@].symbols.structs@ == Map::<Seq<char>, bool>::empty(),
            final(self).registry()[file@].symbols.struct_fields@ == Map::<Seq<char>, Vec<(String, Type)>>::empty(),
            final(self).registry()[file@].symbols.functions@ == Map::<Seq<char>, (Vec<Type>, Type, Vec<String>)>::empty(),
            final(self).registry()[file@].symbols.globals@ == Map::<Seq<char>, Type>::empty(),
            final(self).registry()[file@].aliases@ == Map::<Seq<char>, String>::empty(),
    {
        let key = file.clone();
        let key2 = file.clone();
        let qf = QuorFile::new(file, self.module_count);
        self.module_registry.insert(key, qf);
        self.module_ids.insert(key2, self.module_count);
        self.module_count = self.module_count + 1;
    }

    /// Registers the file `canonical_name` with its symbols and imports; it gets the next
    /// number.
    pub fn register_file(&mut self, canonical_name: String, symbols: ModuleSymbols, aliases: Table<String>)
        requires
            old(self).count() < usize::MAX,
        ensures
            final(self).count() == old(self).count() + 1,
            final(self).ids() == old(self).ids().insert(canonical_name@, old(self).count() as usize),
            final(self).registry() == old(self).registry().insert(
                canonical_name@,
                QuorFile { file: canonical_name, module_id: old(self).count() as usize, symbols, aliases },
            ),
    {
        let id = self.module_count;
        let key = canonical_name.clone();
        let key2 = canonical_name.clone();
        let file = QuorFile { file: canonical_name, module_id: id, symbols, aliases };
        self.module_ids.insert(key2, id);
        self.module_registry.insert(key, file);
        self.module_count = self.module_count + 1;
    }

    /// The file registered under this canonical path.
    pub fn get_module(&self, canonical_file: &String) -> (r: Option<&QuorFile>)
        ensures
            match r {
                Some(f) => self.registry().contains_key(canonical_file@) && *f == self.registry()[canonical_file@],
                None => !self.registry().contains_key(canonical_file@),
            },
    {
        self.module_registry.get(canonical_file.as_str())
    }

    /// The file registered under this canonical path, to change in place.
    pub fn get_module_mut(&mut self, canonical_file: &String) -> (r: Option<&mut QuorFile>)
        ensures
            final(self).ids() == old(self).ids(),
            final(self).count() == old(self).count(),
            match r {
                Some(f) => old(self).registry().contains_key(canonical_file@)
                    && *f == old(self).registry()[canonical_file@]
                    && final(self).registry() == old(self).registry().insert(canonical_file@, *final(f)),
                None => !old(self).registry().contains_key(canonical_file@)
                    && final(self).registry() == old(self).registry(),
            },
    {
        self.module_registry.get_mut(canonical_file.as_str())
    }

    /// `file` is registered, has the import `namespace`, and the file it names is
    /// registered too.
    pub open spec fn can_see(&self, file: Seq<char>, namespace: Seq<char>) -> bool {
        &&& self.registry().contains_key(file)
        &&& self.registry()[file].aliases@.contains_key(namespace)
        &&& self.registry().contains_key(self.registry()[file].aliases@[namespace]@)
    }

    /// The file that `namespace` names in `file`.
    pub open spec fn imported(&self, file: Seq<char>, namespace: Seq<char>) -> QuorFile {
        self.registry()[self.registry()[file].aliases@[namespace]@]
    }

    fn target(&self, file: &String, namespace: &String) -> (r: &QuorFile)
        requires
            self.can_see(file@, namespace@),
        ensures
            *r == self.imported(file@, namespace@),
    {
        let current = self.module_registry.get(file.as_str()).unwrap();
        let name = current.aliases.get(namespace.as_str()).unwrap();
        self.module_registry.get(name.as_str()).unwrap()
    }

    /// Whether the file that `namespace` names in `file` declares the struct `struct_name`.
    pub fn is_viable_struct(&self, file_that_is_being_parsed: &String, namespace: &String, struct_name: &String) -> (r: bool)
        requires
            self.can_see(file_that_is_being_parsed@, namespace@),
        ensures
            r == self.imported(file_that_is_being_parsed@, namespace@).symbols.structs@.contains_key(struct_name@),
    {
        self.target(file_that_is_being_parsed, namespace).symbols.structs.contains_key(struct_name.as_str())
    }

    /// Whether the file that `namespace` names in `file` declares the function `func_name`.
    pub fn is_viable_func(&self, file_that_is_being_parsed: &String, namespace: &String, func_name: &String) -> (r: bool)
        requires
            self.can_see(file_that_is_being_parsed@, namespace@),
        ensures
            r == self.imported(file_that_is_being_parsed@, namespace@).symbols.functions@.contains_key(func_name@),
    {
        self.target(file_that_is_being_parsed, namespace).symbols.functions.contains_key(func_name.as_str())
    }

    /// Whether the file that `namespace` names in `file` has `global_name` among its
    /// functions (globals are looked up among the functions).
    pub fn is_viable_global(&self, file_that_is_being_parsed: &String, namespace: &String, global_name: &String) -> (r: bool)
        requires
            self.can_see(file_that_is_being_parsed@, namespace@),
        ensures
            r == self.imported(file_that_is_being_parsed@, namespace@).symbols.functions@.contains_key(global_name@),
    {
        self.target(file_that_is_being_parsed, namespace).symbols.functions.contains_key(global_name.as_str())
    }

    /// The fields of the struct `name` of the file that `namespace` names in `file`.
    pub fn get_struct_fields(&self, file_that_is_being_parsed: &String, namespace: &String, name: &String) -> (r: Option<&Vec<(String, Type)>>)
        requires
            self.can_see(file_that_is_being_parsed@, namespace@),
        ensures
            match r {
                Some(f) => self.imported(file_that_is_being_parsed@, namespace@).symbols.struct_fields@.contains_key(name@)
                    && *f == self.imported(file_that_is_being_parsed@, namespace@).symbols.struct_fields@[name@],
                None => !self.imported(file_that_is_being_parsed@, namespace@).symbols.struct_fields@.contains_key(name@),
            },
    {
        self.target(file_that_is_being_parsed, namespace).symbols.struct_fields.get(name.as_str())
    }

    /// Whether the struct `name` of the file that `namespace` names in `file` is a union.
    pub fn get_struct_is_union(&self, file_that_is_being_parsed: &String, namespace: &String, name: &String) -> (r: Option<&bool>)
        requires
            self.can_see(file_that_is_being_parsed@, namespace@),
        ensures
            match r {
                Some(u) => self.imported(file_that_is_being_parsed@, namespace@).symbols.structs@.contains_key(name@)
                    && *u == self.imported(file_that_is_being_parsed@, namespace@).symbols.structs@[name@],
                None => !self.imported(file_that_is_being_parsed@, namespace@).symbols.structs@.contains_key(name@),
            },
    {
        self.target(file_that_is_being_parsed, namespace).symbols.structs.get(name.as_str())
    }

    /// The signature of the function `name` of the file that `namespace` names in `file`.
    pub fn get_function_info(&self, file_that_is_being_parsed: &String, namespace: &String, name: &String) -> (r: Option<&(Vec<Type>, Type, Vec<String>)>)
        requires
            self.can_see(file_that_is_being_parsed@, namespace@),
        ensures
            match r {
                Some(f) => self.imported(file_that_is_being_parsed@, namespace@).symbols.functions@.contains_key(name@)
                    && *f == self.imported(file_that_is_being_parsed@, namespace@).symbols.functions@[name@],
                None => !self.imported(file_that_is_being_parsed@, namespace@).symbols.functions@.contains_key(name@),
            },
    {
        self.target(file_that_is_being_parsed, namespace).symbols.functions.get(name.as_str())
    }

    /// The type of the global `name` of the file that `namespace` names in `file`.
    pub fn get_global(&self, file_that_is_being_parsed: &String, namespace: &String, name: &String) -> (r: Option<&Type>)
        requires
            self.can_see(file_that_is_being_parsed@, namespace@),
        ensures
            match r {
                Some(t) => self.imported(file_that_is_being_parsed@, namespace@).symbols.globals@.contains_key(name@)
                    && *t == self.imported(file_that_is_being_parsed@, namespace@).symbols.globals@[name@],
                None => !self.imported(file_that_is_being_parsed@, namespace@).symbols.globals@.contains_key(name@),
            },
    {
        self.target(file_that_is_being_parsed, namespace).symbols.globals.get(name.as_str())
    }

    /// Resolves `namespace::name` from `current_file`: the symbols of the module the
    /// alias names and the qualified name there; a name without `::` is looked up in
    /// `current_file` itself. `None` when the name has more than one `::`, or the alias
    /// or its module is unknown.
    pub fn resolve_for_lookup<'a>(&'a self, name: &str, current_file: &'a QuorFile) -> (r: Option<(&'a ModuleSymbols, String)>)
        ensures
            find_sep(name@, 0) is None ==> r is Some && r->Some_0.0 == &current_file.symbols
                && r->Some_0.1@ == qualified(name@, current_file.module_id as nat),
            find_sep(name@, 0) is Some ==> match split_two(name@) {
                Some((ns, base)) => {
                    let known = current_file.aliases@.contains_key(ns)
                        && self.registry().contains_key(current_file.aliases@[ns]@)
                        && self.ids().contains_key(current_file.aliases@[ns]@);
                    &&& known ==> r is Some
                        && *r->Some_0.0 == self.registry()[current_file.aliases@[ns]@].symbols
                        && r->Some_0.1@ == qualified(base, self.ids()[current_file.aliases@[ns]@] as nat)
                    &&& !known ==> r is None
                },
                None => r is None,
            },
    {
        let cs = str_chars(name);
        match find_sep_exec(&cs, 0) {
            None => Some((&current_file.symbols, qualify_name(name, current_file.module_id))),
            Some(j) => {
                proof {
                    lemma_find_sep_skip(cs@, j + 2, 0);
                }
                if find_sep_exec(&cs, j + 2).is_some() {
                    return None;
                }
                let ns = chars_to_string(&cs, 0, j);
                let base = chars_to_string(&cs, j + 2, cs.len());
                proof {
                    assert(cs@.take(j as int) =~= cs@.subrange(0, j as int));
                    assert(cs@.skip(j + 2) =~= cs@.subrange(j + 2, cs@.len() as int));
                }
                let canonical = match current_file.aliases.get(ns.as_str()) {
                    Some(c) => c,
                    None => return None,
                };
                let target = match self.module_registry.get(canonical.as_str()) {
                    Some(t) => t,
                    None => return None,
                };
                let module_id = match self.module_ids.get(canonical.as_str()) {
                    Some(id) => *id,
                    None => return None,
                };
                Some((&target.symbols, qualify_name(base.as_str(), module_id)))
            },
        }
    }
}

} // verus!

verus! {

/// A type whose struct names are qualified with `module_id`.
pub open spec fn qualified_type(t: TypeV, module_id: nat) -> TypeV
    decreases t,
{
    match t {
        TypeV::Struct { name, instances } => TypeV::Struct {
            name: qualified(name, module_id),
            instances: Seq::new(
                instances.len(),
                |i: int|
                    if 0 <= i < instances.len() {
                        (instances[i].0, qualified_type(instances[i].1, module_id))
                    } else {
                        (Seq::empty(), TypeV::Unknown)
                    },
            ),
        },
        TypeV::StructLiteral(name) => TypeV::StructLiteral(qualified(name, module_id)),
        TypeV::Array(inner, len) => TypeV::Array(Box::new(qualified_type(*inner, module_id)), len),
        TypeV::Pointer(inner) => TypeV::Pointer(Box::new(qualified_type(*inner, module_id))),
        other => other,
    }
}

/// Qualifies the struct names in `ty` with `module_id`, so that lookups in the
/// module's symbols find them.
pub fn qualify_type(ty: &Type, module_id: usize) -> (r: Type)
    ensures
        r@ == qualified_type(ty@, module_id as nat),
    decreases ty,
{
    match ty {
        Type::Struct { name, instances } => {
            let mut out: Vec<(String, Type)> = Vec::new();
            let mut i: usize = 0;
            while i < instances.len()
                invariant
                    *ty is Struct,
                    (*ty)->instances == *instances,
                    i <= instances@.len(),
                    out@.len() == i,
                    forall|j: int|
                        0 <= j < i ==> (#[trigger] out@[j]).0@ == instances@[j].0@
                            && out@[j].1@ == qualified_type(instances@[j].1@, module_id as nat),
                decreases instances@.len() - i,
            {
                proof {
                    assert(decreases_to!(*ty => (*ty)->instances));
                    assert(decreases_to!((*ty)->instances => instances@));
                    assert(decreases_to!(instances@ => instances@[i as int]));
                    assert(decreases_to!(instances@[i as int] => instances@[i as int].1));
                }
                let qt = qualify_type(&instances[i].1, module_id);
                out.push((instances[i].0.clone(), qt));
                i = i + 1;
            }
            let r = Type::Struct { name: qualify_name(name.as_str(), module_id), instances: out };
            proof {
                crate::ast::lemma_struct_view(r->name, r->instances);
                crate::ast::lemma_struct_view(*name, *instances);
                assert(crate::ast::fields_view(out@) =~= qualified_type(ty@, module_id as nat)->instances);
            }
            r
        },
        Type::StructLiteral(name) => Type::StructLiteral(qualify_name(name.as_str(), module_id)),
        Type::Array(inner, len) => Type::Array(Box::new(qualify_type(inner, module_id)), *len),
        Type::Pointer(inner) => Type::Pointer(Box::new(qualify_type(inner, module_id))),
        _ => ty.duplicate(),
    }
}

} // verus!

verus! {

/// What `name` refers to from `file`, with `locals` in scope.
pub open spec fn rn(file: QuorFile, ids: Map<Seq<char>, usize>, locals: Seq<Seq<char>>, name: Seq<char>) -> Seq<char> {
    spec_resolve_name(file.aliases@, file.module_id as nat, ids, name, locals)
}

/// An expression with every name it refers to resolved from `file`.
pub open spec fn resolved_expr(file: QuorFile, ids: Map<Seq<char>, usize>, locals: Seq<Seq<char>>, e: ExprV) -> ExprV
    decreases e,
{
    match e {
        ExprV::StructInit { name, params } => ExprV::StructInit {
            name: rn(file, ids, locals, name),
            params: Seq::new(
                params.len(),
                |i: int|
                    if 0 <= i < params.len() {
                        (params[i].0, resolved_expr(file, ids, locals, params[i].1))
                    } else {
                        (Seq::empty(), ExprV::BoolLiteral(false))
                    },
            ),
        },
        ExprV::AddressOf(x) => ExprV::AddressOf(Box::new(resolved_expr(file, ids, locals, *x))),
        ExprV::DerefAssign { target, value } => ExprV::DerefAssign {
            target: Box::new(resolved_expr(file, ids, locals, *target)),
            value: Box::new(resolved_expr(file, ids, locals, *value)),
        },
        ExprV::InstanceVar(s, f) => ExprV::InstanceVar(rn(file, ids, locals, s), f),
        ExprV::Variable(n, t) => ExprV::Variable(rn(file, ids, locals, n), t),
        ExprV::Assign { name, value } => ExprV::Assign {
            name: rn(file, ids, locals, name),
            value: Box::new(resolved_expr(file, ids, locals, *value)),
        },
        ExprV::CompoundAssign { name, op, value } => ExprV::CompoundAssign {
            name: rn(file, ids, locals, name),
            op,
            value: Box::new(resolved_expr(file, ids, locals, *value)),
        },
        ExprV::PreIncrement { name } => ExprV::PreIncrement { name: rn(file, ids, locals, name) },
        ExprV::PostIncrement { name } => ExprV::PostIncrement { name: rn(file, ids, locals, name) },
        ExprV::PreDecrement { name } => ExprV::PreDecrement { name: rn(file, ids, locals, name) },
        ExprV::PostDecrement { name } => ExprV::PostDecrement { name: rn(file, ids, locals, name) },
        ExprV::Binary { left, op, right, result_type } => ExprV::Binary {
            left: Box::new(resolved_expr(file, ids, locals, *left)),
            op,
            right: Box::new(resolved_expr(file, ids, locals, *right)),
            result_type,
        },
        ExprV::Unary { op, expr, result_type } => ExprV::Unary {
            op,
            expr: Box::new(resolved_expr(file, ids, locals, *expr)),
            result_type,
        },
        ExprV::Call { name, args, return_type } => ExprV::Call {
            name: rn(file, ids, locals, name),
            args: Seq::new(
                args.len(),
                |i: int|
                    if 0 <= i < args.len() {
                        resolved_expr(file, ids, locals, args[i])
                    } else {
                        ExprV::BoolLiteral(false)
                    },
            ),
            return_type,
        },
        ExprV::Cast { expr, target_type } => ExprV::Cast {
            expr: Box::new(resolved_expr(file, ids, locals, *expr)),
            target_type,
        },
        ExprV::Array(es, ty) => ExprV::Array(
            Seq::new(
                es.len(),
                |i: int|
                    if 0 <= i < es.len() {
                        resolved_expr(file, ids, locals, es[i])
                    } else {
                        ExprV::BoolLiteral(false)
                    },
            ),
            ty,
        ),
        ExprV::ArrayAccess { array, index } => ExprV::ArrayAccess {
            array: Box::new(resolved_expr(file, ids, locals, *array)),
            index: Box::new(resolved_expr(file, ids, locals, *index)),
        },
        ExprV::IndexAssign { array, index, value } => ExprV::IndexAssign {
            array: Box::new(resolved_expr(file, ids, locals, *array)),
            index: Box::new(resolved_expr(file, ids, locals, *index)),
            value: Box::new(resolved_expr(file, ids, locals, *value)),
        },
        ExprV::FieldAssign { class_name, field, value } => ExprV::FieldAssign {
            class_name: rn(file, ids, locals, class_name),
            field,
            value: Box::new(resolved_expr(file, ids, locals, *value)),
        },
        other => other,
    }
}

} // verus!

verus! {

impl QuorFile {
    /// `expr` with every name it refers to resolved from this file; `locals` are the
    /// local variables in scope, which keep their names.
    pub fn determine_symbols_expr(&self, expr: Expr, alias_manager: &AliasManager, locals: &Vec<String>) -> (r: Expr)
        ensures
            r@ == resolved_expr(*self, alias_manager.ids(), local_names(locals@), expr@),
    {
        self.resolve_expr(&expr, alias_manager, locals)
    }

    fn resolve_box(&self, e: &Box<Expr>, alias_manager: &AliasManager, locals: &Vec<String>) -> (r: Box<Expr>)
        ensures
            r@ == resolved_expr(*self, alias_manager.ids(), local_names(locals@), (**e)@),
        decreases **e, 3int,
    {
        Box::new(self.resolve_expr(e, alias_manager, locals))
    }

    #[verifier::spinoff_prover]
    fn resolve_expr(&self, e: &Expr, alias_manager: &AliasManager, locals: &Vec<String>) -> (r: Expr)
        ensures
            r@ == resolved_expr(*self, alias_manager.ids(), local_names(locals@), e@),
        decreases *e, 2int,
    {
        proof {
            reveal(expr_view);
        }
        let ghost ids = alias_manager.ids();
        let ghost ls = local_names(locals@);
        match e {
            Expr::StructInit { name, params } => {
                let mut out: Vec<(String, Expr)> = Vec::new();
                let mut i: usize = 0;
                while i < params.len()
                    invariant
                        *e is StructInit,
                        (*e)->StructInit_params == *params,
                        ids == alias_manager.ids(),
                        ls == local_names(locals@),
                        i <= params@.len(),
                        out@.len() == i,
                        forall|j: int|
                            0 <= j < i ==> (#[trigger] out@[j]).0@ == params@[j].0@
                                && out@[j].1@ == resolved_expr(*self, ids, ls, params@[j].1@),
                    decreases params@.len() - i,
                {
                    proof {
                        reveal(expr_view);
                        assert(decreases_to!(*e => (*e)->StructInit_params));
                        assert(decreases_to!((*e)->StructInit_params => params@));
                        assert(decreases_to!(params@ => params@[i as int]));
                        assert(decreases_to!(params@[i as int] => params@[i as int].1));
                    }
                    let x = self.resolve_expr(&params[i].1, alias_manager, locals);
                    out.push((params[i].0.clone(), x));
                    i = i + 1;
                }
                let n = self.resolve_name(name.as_str(), alias_manager, locals);
                let r = Expr::StructInit { name: n, params: out };
                proof {
                    reveal(expr_view);
                    assert(r@->StructInit_params =~= resolved_expr(*self, ids, ls, e@)->StructInit_params);
                }
                r
            },
            Expr::AddressOf(x) => Expr::AddressOf(self.resolve_box(x, alias_manager, locals)),
            Expr::DerefAssign { target, value } => Expr::DerefAssign {
                target: self.resolve_box(target, alias_manager, locals),
                value: self.resolve_box(value, alias_manager, locals),
            },
            Expr::InstanceVar(s, f) => Expr::InstanceVar(self.resolve_name(s.as_str(), alias_manager, locals), f.clone()),
            Expr::Variable(n, t) => Expr::Variable(self.resolve_name(n.as_str(), alias_manager, locals), t.duplicate()),
            Expr::Assign { name, value } => Expr::Assign {
                name: self.resolve_name(name.as_str(), alias_manager, locals),
                value: self.resolve_box(value, alias_manager, locals),
            },
            Expr::CompoundAssign { name, op, value } => Expr::CompoundAssign {
                name: self.resolve_name(name.as_str(), alias_manager, locals),
                op: *op,
                value: self.resolve_box(value, alias_manager, locals),
            },
            Expr::PreIncrement { name } => Expr::PreIncrement { name: self.resolve_name(name.as_str(), alias_manager, locals) },
            Expr::PostIncrement { name } => Expr::PostIncrement { name: self.resolve_name(name.as_str(), alias_manager, locals) },
            Expr::PreDecrement { name } => Expr::PreDecrement { name: self.resolve_name(name.as_str(), alias_manager, locals) },
            Expr::PostDecrement { name } => Expr::PostDecrement { name: self.resolve_name(name.as_str(), alias_manager, locals) },
            Expr::Binary { left, op, right, result_type } => Expr::Binary {
                left: self.resolve_box(left, alias_manager, locals),
                op: *op,
                right: self.resolve_box(right, alias_manager, locals),
                result_type: result_type.duplicate(),
            },
            Expr::Unary { op, expr, result_type } => Expr::Unary {
                op: *op,
                expr: self.resolve_box(expr, alias_manager, locals),
                result_type: result_type.duplicate(),
            },
            Expr::Call { name, args, return_type } => {
                let out = self.resolve_list(e, args, alias_manager, locals);
                let r = Expr::Call {
                    name: self.resolve_name(name.as_str(), alias_manager, locals),
                    args: out,
                    return_type: return_type.duplicate(),
                };
                proof {
                    reveal(expr_view);
                    assert(r@->Call_args =~= resolved_expr(*self, ids, ls, e@)->Call_args);
                }
                r
            },
            Expr::Cast { expr, target_type } => Expr::Cast {
                expr: self.resolve_box(expr, alias_manager, locals),
                target_type: target_type.duplicate(),
            },
            Expr::Array(es, ty) => {
                let out = self.resolve_list(e, es, alias_manager, locals);
                let r = Expr::Array(out, ty.duplicate());
                proof {
                    reveal(expr_view);
                    assert(r@->Array_0 =~= resolved_expr(*self, ids, ls, e@)->Array_0);
                }
                r
            },
            Expr::ArrayAccess { array, index } => Expr::ArrayAccess {
                array: self.resolve_box(array, alias_manager, locals),
                index: self.resolve_box(index, alias_manager, locals),
            },
            Expr::IndexAssign { array, index, value } => Expr::IndexAssign {
                array: self.resolve_box(array, alias_manager, locals),
                index: self.resolve_box(index, alias_manager, locals),
                value: self.resolve_box(value, alias_manager, locals),
            },
            Expr::FieldAssign { class_name, field, value } => Expr::FieldAssign {
                class_name: self.resolve_name(class_name.as_str(), alias_manager, locals),
                field: field.clone(),
                value: self.resolve_box(value, alias_manager, locals),
            },
            Expr::IntLiteral(v) => Expr::IntLiteral(*v),
            Expr::LongLiteral(v) => Expr::LongLiteral(*v),
            Expr::FloatLiteral(s) => Expr::FloatLiteral(s.clone()),
            Expr::BoolLiteral(b) => Expr::BoolLiteral(*b),
            Expr::StringLiteral(s) => Expr::StringLiteral(s.clone()),
            Expr::CharLiteral(c) => Expr::CharLiteral(*c),
        }
    }

    /// The expressions of a call's arguments or an array literal `parent`, resolved.
    fn resolve_list(&self, parent: &Expr, es: &Vec<Expr>, alias_manager: &AliasManager, locals: &Vec<String>) -> (r: Vec<Expr>)
        requires
            (parent is Call && parent->Call_args == *es) || (parent is Array && parent->Array_0 == *es),
        ensures
            r@.len() == es@.len(),
            forall|j: int| 0 <= j < es@.len() ==> (#[trigger] r@[j])@ == resolved_expr(*self, alias_manager.ids(), local_names(locals@), es@[j]@),
        decreases *parent, 1int,
    {
        let mut out: Vec<Expr> = Vec::new();
        let mut i: usize = 0;
        while i < es.len()
            invariant
                (parent is Call && parent->Call_args == *es) || (parent is Array && parent->Array_0 == *es),
                i <= es@.len(),
                out@.len() == i,
                forall|j: int| 0 <= j < i ==> (#[trigger] out@[j])@ == resolved_expr(*self, alias_manager.ids(), local_names(locals@), es@[j]@),
            decreases es@.len() - i,
        {
            proof {
                if parent is Call {
                    assert(decreases_to!(*parent => parent->Call_args));
                } else {
                    assert(decreases_to!(*parent => parent->Array_0));
                }
                assert(decreases_to!(*es => es@));
                assert(decreases_to!(es@ => es@[i as int]));
            }
            let x = self.resolve_expr(&es[i], alias_manager, locals);
            out.push(x);
            i = i + 1;
        }
        out
    }
}

} // verus!

verus! {

/// A size of a statement, which the second pass recurses on.
pub open spec fn stmt_size(s: StmtV) -> nat
    decreases s,
{
    match s {
        StmtV::If { then_stmt, else_stmt, .. } => 1 + stmt_size(*then_stmt) + match else_stmt {
            Some(b) => stmt_size(*b),
            None => 0,
        },
        StmtV::While { body, .. } => 1 + stmt_size(*body),
        StmtV::For { init, body, .. } => 1 + stmt_size(*body) + match init {
            Some(b) => stmt_size(*b),
            None => 0,
        },
        StmtV::Block(ss) => 1 + seq_size(ss),
        StmtV::FunDecl { body, .. } => 1 + seq_size(body),
        _ => 1,
    }
}

pub open spec fn seq_size(ss: Seq<StmtV>) -> nat
    decreases ss,
{
    if ss.len() == 0 {
        0
    } else {
        stmt_size(ss[0]) + seq_size(ss.skip(1))
    }
}

/// The names of a function's parameters.
pub open spec fn param_names(params: Seq<(Seq<char>, TypeV)>) -> Seq<Seq<char>> {
    params.map_values(|p: (Seq<char>, TypeV)| p.0)
}

/// The second pass over a list of statements with the local variables `scope`: each
/// statement in turn, each seeing the locals the ones before it declared. The result
/// and the locals in scope afterwards.
pub open spec fn pass_stmts(file: QuorFile, ids: Map<Seq<char>, usize>, ss: Seq<StmtV>, scope: Seq<Seq<char>>) -> (Seq<StmtV>, Seq<Seq<char>>)
    decreases ss,
{
    if ss.len() == 0 {
        (Seq::empty(), scope)
    } else {
        let (first, sc1) = pass_stmt(file, ids, ss[0], scope);
        let (rest, sc2) = pass_stmts(file, ids, ss.skip(1), sc1);
        (seq![first].add(rest), sc2)
    }
}

/// A branch or body: a block is passed over with a copy of `scope`; any other
/// statement stays as it is.
pub open spec fn pass_block(file: QuorFile, ids: Map<Seq<char>, usize>, s: StmtV, scope: Seq<Seq<char>>) -> StmtV
    decreases s,
{
    match s {
        StmtV::Block(ss) => StmtV::Block(pass_stmts(file, ids, ss, scope).0),
        other => other,
    }
}

/// The initializer of a `for`: a block is passed over and its locals stay in scope for
/// the rest of the loop.
pub open spec fn pass_init(file: QuorFile, ids: Map<Seq<char>, usize>, init: Option<Box<StmtV>>, scope: Seq<Seq<char>>) -> (Option<Box<StmtV>>, Seq<Seq<char>>)
    decreases init,
{
    match init {
        Some(b) => match *b {
            StmtV::Block(ss) => {
                let (r, sc) = pass_stmts(file, ids, ss, scope);
                (Some(Box::new(StmtV::Block(r))), sc)
            },
            other => (Some(Box::new(other)), scope),
        },
        None => (None, scope),
    }
}

pub open spec fn resolved_opt(file: QuorFile, ids: Map<Seq<char>, usize>, locals: Seq<Seq<char>>, e: Option<ExprV>) -> Option<ExprV> {
    match e {
        Some(x) => Some(resolved_expr(file, ids, locals, x)),
        None => None,
    }
}

/// The second pass over one statement: a variable declaration adds its name to the
/// locals (before its value is resolved); expressions are resolved; blocks and
/// function bodies get a scope of their own.
pub open spec fn pass_stmt(file: QuorFile, ids: Map<Seq<char>, usize>, s: StmtV, scope: Seq<Seq<char>>) -> (StmtV, Seq<Seq<char>>)
    decreases s,
{
    match s {
        StmtV::VarDecl { name, var_type, value } => {
            let sc = scope.push(name);
            (StmtV::VarDecl { name, var_type, value: resolved_expr(file, ids, sc, value) }, sc)
        },
        StmtV::Expression(e) => (StmtV::Expression(resolved_expr(file, ids, scope, e)), scope),
        StmtV::Return(o) => (StmtV::Return(resolved_opt(file, ids, scope, o)), scope),
        StmtV::If { condition, then_stmt, else_stmt } => (
            StmtV::If {
                condition: resolved_expr(file, ids, scope, condition),
                then_stmt: Box::new(pass_block(file, ids, *then_stmt, scope)),
                else_stmt: match else_stmt {
                    Some(b) => Some(Box::new(pass_block(file, ids, *b, scope))),
                    None => None,
                },
            },
            scope,
        ),
        StmtV::While { condition, body } => (
            StmtV::While {
                condition: resolved_expr(file, ids, scope, condition),
                body: Box::new(pass_block(file, ids, *body, scope)),
            },
            scope,
        ),
        StmtV::For { init, condition, update, body } => {
            let (init2, inner) = pass_init(file, ids, init, scope);
            (
                StmtV::For {
                    init: init2,
                    condition: resolved_opt(file, ids, inner, condition),
                    update: resolved_opt(file, ids, inner, update),
                    body: Box::new(pass_block(file, ids, *body, inner)),
                },
                scope,
            )
        },
        StmtV::Block(ss) => (StmtV::Block(pass_stmts(file, ids, ss, scope).0), scope),
        StmtV::FunDecl { name, params, return_type, body, attributes } => (
            StmtV::FunDecl {
                name,
                params,
                return_type,
                body: pass_stmts(file, ids, body, scope + param_names(params)).0,
                attributes,
            },
            scope,
        ),
        other => (other, scope),
    }
}

} // verus!

verus! {

pub(crate) proof fn lemma_stmt_size_pos(s: StmtV)
    ensures
        stmt_size(s) >= 1,
{
}

/// A copy of a list of names.
pub(crate) fn copy_names(v: &Vec<String>) -> (r: Vec<String>)
    ensures
        r@ == v@,
{
    let mut out: Vec<String> = Vec::new();
    let mut i: usize = 0;
    while i < v.len()
        invariant
            i <= v@.len(),
            out@ == v@.take(i as int),
        decreases v@.len() - i,
    {
        out.push(v[i].clone());
        i = i + 1;
        proof {
            assert(out@ =~= v@.take(i as int));
        }
    }
    proof {
        assert(v@.take(v@.len() as int) =~= v@);
    }
    out
}

/// Adds `name` to the locals in scope.
fn add_local(scope: &mut Vec<String>, name: String)
    ensures
        local_names(final(scope)@) == local_names(old(scope)@).push(name@),
{
    let ghost before = scope@;
    scope.push(name);
    proof {
        assert(local_names(scope@) =~= local_names(before).push(name@));
    }
}

impl QuorFile {
    /// The second pass: every name the statements refer to is resolved from this file,
    /// except the local variables, which `scope` collects as declarations are met;
    /// blocks and function bodies get a copy of the scope.
    pub fn determine_symbols_stmts_second_pass(&self, stmts: Vec<Stmt>, scope: &mut Vec<String>, alias_manager: &AliasManager) -> (r: Vec<Stmt>)
        ensures
            (stmts_view(r@), local_names(final(scope)@)) == pass_stmts(
                *self,
                alias_manager.ids(),
                stmts_view(stmts@),
                local_names(old(scope)@),
            ),
        decreases seq_size(stmts_view(stmts@)), 1int,
    {
        if stmts.len() == 0 {
            proof {
                crate::ast::lemma_stmts_view_len(stmts@);
                assert(stmts_view(stmts@) =~= Seq::<StmtV>::empty());
                crate::ast::lemma_list_views_empty();
            }
            return Vec::new();
        }
        let ghost whole = stmts@;
        proof {
            crate::ast::lemma_stmts_view_cons(whole);
        }
        let mut stmts = stmts;
        let first = stmts.remove(0);
        proof {
            assert(stmts@ =~= whole.skip(1));
            lemma_stmt_size_pos(first@);
            assert(seq_size(stmts_view(whole)) == stmt_size(first@) + seq_size(stmts_view(stmts@)));
        }
        let s1 = self.pass_stmt(first, scope, alias_manager);
        let mut rest = self.determine_symbols_stmts_second_pass(stmts, scope, alias_manager);
        let ghost rest_before = rest@;
        rest.insert(0, s1);
        proof {
            assert(rest@.skip(1) =~= rest_before);
            crate::ast::lemma_stmts_view_cons(rest@);
        }
        rest
    }

    /// A branch or body: a block is passed over with a copy of `scope`; any other
    /// statement stays as it is.
    fn pass_block(&self, s: Stmt, scope: &Vec<String>, alias_manager: &AliasManager) -> (r: Stmt)
        ensures
            r@ == pass_block(*self, alias_manager.ids(), s@, local_names(scope@)),
        decreases stmt_size(s@), 0int,
    {
        proof {
            reveal(stmt_view);
        }
        match s {
            Stmt::Block(ss) => {
                proof {
                    crate::ast::lemma_stmt_lists_view(arbitrary(), arbitrary(), arbitrary(), ss, arbitrary());
                }
                let mut inner = copy_names(scope);
                let r = self.determine_symbols_stmts_second_pass(ss, &mut inner, alias_manager);
                proof {
                    crate::ast::lemma_stmt_lists_view(arbitrary(), arbitrary(), arbitrary(), r, arbitrary());
                }
                Stmt::Block(r)
            },
            other => other,
        }
    }

    fn resolve_opt(&self, e: Option<Expr>, alias_manager: &AliasManager, locals: &Vec<String>) -> (r: Option<Expr>)
        ensures
            crate::ast::opt_expr_view(r) == resolved_opt(*self, alias_manager.ids(), local_names(locals@), crate::ast::opt_expr_view(e)),
    {
        match e {
            Some(x) => Some(self.determine_symbols_expr(x, alias_manager, locals)),
            None => None,
        }
    }

    /// A declaration brings its name into scope before its value is resolved.
    fn pass_var_decl(&self, name: String, var_type: Type, value: Expr, scope: &mut Vec<String>, alias_manager: &AliasManager) -> (r: Stmt)
        ensures
            r@ == (StmtV::VarDecl {
                name: name@,
                var_type: var_type@,
                value: resolved_expr(*self, alias_manager.ids(), local_names(old(scope)@).push(name@), value@),
            }),
            local_names(final(scope)@) == local_names(old(scope)@).push(name@),
    {
        add_local(scope, name.clone());
        let v = self.determine_symbols_expr(value, alias_manager, scope);
        let r = Stmt::VarDecl { name, var_type, value: v };
        proof {
            reveal(stmt_view);
        }
        r
    }

    /// The second pass over one statement; see `pass_stmt`.
    #[verifier::spinoff_prover]
    fn pass_stmt(&self, s: Stmt, scope: &mut Vec<String>, alias_manager: &AliasManager) -> (r: Stmt)
        ensures
            (r@, local_names(final(scope)@)) == pass_stmt(*self, alias_manager.ids(), s@, local_names(old(scope)@)),
        decreases stmt_size(s@), 0int,
    {
        proof {
            reveal(stmt_view);
        }
        let ghost ids = alias_manager.ids();
        let ghost s0 = s@;
        let ghost sc0 = local_names(scope@);
        let out = match s {
            Stmt::VarDecl { name, var_type, value } => {
                let o = self.pass_var_decl(name, var_type, value, scope, alias_manager);
                assert((o@, local_names(scope@)) == pass_stmt(*self, ids, s0, sc0));
                o
            },
            Stmt::Expression(e) => {
                let o = Stmt::Expression(self.determine_symbols_expr(e, alias_manager, scope));
                assert((o@, local_names(scope@)) == pass_stmt(*self, ids, s0, sc0));
                o
            },
            Stmt::Return(x) => {
                let o = Stmt::Return(self.resolve_opt(x, alias_manager, scope));
                assert((o@, local_names(scope@)) == pass_stmt(*self, ids, s0, sc0));
                o
            },
            Stmt::If { condition, then_stmt, else_stmt } => {
                let c = self.determine_symbols_expr(condition, alias_manager, scope);
                let t = self.pass_block(*then_stmt, scope, alias_manager);
                let e = match else_stmt {
                    Some(b) => Some(Box::new(self.pass_block(*b, scope, alias_manager))),
                    None => None,
                };
                let o = Stmt::If { condition: c, then_stmt: Box::new(t), else_stmt: e };
                assert((o@, local_names(scope@)) == pass_stmt(*self, ids, s0, sc0));
                o
            },
            Stmt::While { condition, body } => {
                let c = self.determine_symbols_expr(condition, alias_manager, scope);
                let b = self.pass_block(*body, scope, alias_manager);
                let o = Stmt::While { condition: c, body: Box::new(b) };
                assert((o@, local_names(scope@)) == pass_stmt(*self, ids, s0, sc0));
                o
            },
            Stmt::For { init, condition, update, body } => {
                let mut inner = copy_names(scope);
                let init2 = match init {
                    Some(b) => match *b {
                        Stmt::Block(ss) => {
                            proof {
                                crate::ast::lemma_stmt_lists_view(arbitrary(), arbitrary(), arbitrary(), ss, arbitrary());
                                assert(stmt_size(Stmt::Block(ss)@) == 1 + seq_size(stmts_view(ss@)));
                                assert(stmt_size(s@) >= 1 + stmt_size(Stmt::Block(ss)@));
                            }
                            let r = self.determine_symbols_stmts_second_pass(ss, &mut inner, alias_manager);
                            proof {
                                crate::ast::lemma_stmt_lists_view(arbitrary(), arbitrary(), arbitrary(), r, arbitrary());
                                assert(local_names(inner@) == pass_init(*self, ids, s0->For_init, sc0).1);
                            }
                            Some(Box::new(Stmt::Block(r)))
                        },
                        other => {
                            assert(local_names(inner@) == pass_init(*self, ids, s0->For_init, sc0).1);
                            Some(Box::new(other))
                        },
                    },
                    None => {
                        assert(local_names(inner@) == pass_init(*self, ids, s0->For_init, sc0).1);
                        None
                    },
                };
                assert(local_names(inner@) == pass_init(*self, ids, s0->For_init, sc0).1);
                let c2 = self.resolve_opt(condition, alias_manager, &inner);
                let u2 = self.resolve_opt(update, alias_manager, &inner);
                let b2 = self.pass_block(*body, &inner, alias_manager);
                let o = Stmt::For { init: init2, condition: c2, update: u2, body: Box::new(b2) };
                let ghost sp = pass_init(*self, ids, s0->For_init, sc0);
                assert(local_names(inner@) == sp.1);
                assert(o@->For_init == sp.0);
                assert(o@->For_condition == resolved_opt(*self, ids, sp.1, s0->For_condition));
                assert(o@->For_update == resolved_opt(*self, ids, sp.1, s0->For_update));
                assert(o@->For_body == Box::new(pass_block(*self, ids, *s0->For_body, sp.1)));
                assert((o@, local_names(scope@)) == pass_stmt(*self, ids, s0, sc0));
                o
            },
            Stmt::Block(ss) => {
                proof {
                    crate::ast::lemma_stmt_lists_view(arbitrary(), arbitrary(), arbitrary(), ss, arbitrary());
                }
                let mut inner = copy_names(scope);
                let r = self.determine_symbols_stmts_second_pass(ss, &mut inner, alias_manager);
                proof {
                    crate::ast::lemma_stmt_lists_view(arbitrary(), arbitrary(), arbitrary(), r, arbitrary());
                }
                let o = Stmt::Block(r);
                assert((o@, local_names(scope@)) == pass_stmt(*self, ids, s0, sc0));
                o
            },
            Stmt::FunDecl { name, params, return_type, body, attributes } => {
                proof {
                    crate::ast::lemma_stmt_lists_view(name, params, return_type, body, attributes);
                }
                let mut fn_scope = copy_names(scope);
                let mut i: usize = 0;
                while i < params.len()
                    invariant
                        i <= params@.len(),
                        local_names(fn_scope@) == local_names(scope@) + param_names(crate::ast::fields_view(params@)).take(i as int),
                    decreases params@.len() - i,
                {
                    let ghost before = local_names(fn_scope@);
                    add_local(&mut fn_scope, params[i].0.clone());
                    i = i + 1;
                    proof {
                        assert(param_names(crate::ast::fields_view(params@)).take(i as int)
                            =~= param_names(crate::ast::fields_view(params@)).take(i - 1).push(params@[i - 1].0@));
                        assert(local_names(fn_scope@) =~= local_names(scope@) + param_names(crate::ast::fields_view(params@)).take(i as int));
                    }
                }
                proof {
                    assert(param_names(crate::ast::fields_view(params@)).take(params@.len() as int)
                        =~= param_names(crate::ast::fields_view(params@)));
                }
                let b = self.determine_symbols_stmts_second_pass(body, &mut fn_scope, alias_manager);
                proof {
                    crate::ast::lemma_stmt_lists_view(name, params, return_type, b, attributes);
                }
                let o = Stmt::FunDecl { name, params, return_type, body: b, attributes };
                assert((o@, local_names(scope@)) == pass_stmt(*self, ids, s0, sc0));
                o
            },
            other => {
                let o = other;
                assert((o@, local_names(scope@)) == pass_stmt(*self, ids, s0, sc0));
                o
            },
        };
        assert((out@, local_names(scope@)) == pass_stmt(*self, ids, s0, sc0));
        out
    }
}


proof fn lemma_decimal_len(n: nat)
    ensures
        decimal(n).len() >= 1,
        n >= 10 ==> decimal(n).len() >= 2,
    decreases n,
{
    if n >= 10 {
        lemma_decimal_len(n / 10);
    }
}

proof fn lemma_digit_char_injective(a: nat, b: nat)
    requires
        a < 10,
        b < 10,
        digit_char(a) == digit_char(b),
    ensures
        a == b,
{
}

/// Different numbers have different decimal digits.
proof fn lemma_decimal_injective(a: nat, b: nat)
    requires
        decimal(a) == decimal(b),
    ensures
        a == b,
    decreases a,
{
    lemma_decimal_len(a);
    lemma_decimal_len(b);
    if a < 10 && b < 10 {
        assert(decimal(a)[0] == digit_char(a));
        assert(decimal(b)[0] == digit_char(b));
        lemma_digit_char_injective(a, b);
    } else if a >= 10 && b >= 10 {
        let da = decimal(a);
        let db = decimal(b);
        assert(da.last() == digit_char(a % 10));
        assert(db.last() == digit_char(b % 10));
        lemma_digit_char_injective(a % 10, b % 10);
        assert(da.drop_last() =~= decimal(a / 10));
        assert(db.drop_last() =~= decimal(b / 10));
        lemma_decimal_injective(a / 10, b / 10);
    } else {
        assert(decimal(a).len() != decimal(b).len());
    }
}

/// The same name declared in two different modules gets two different qualified names.
pub proof fn law_qualified_names_differ_across_modules(name: Seq<char>, m1: nat, m2: nat)
    requires
        m1 != m2,
    ensures
        qualified(name, m1) != qualified(name, m2),
{
    if qualified(name, m1) == qualified(name, m2) {
        let n = name.len() + 1;
        assert(qualified(name, m1).skip(n as int) =~= decimal(m1));
        assert(qualified(name, m2).skip(n as int) =~= decimal(m2));
        lemma_decimal_injective(m1, m2);
    }
}

/// A local variable shadows a module-level name: a name without `::` that is among the
/// locals resolves to itself, and any other name without `::` gets the file's number.
pub proof fn law_local_shadows_module_name(
    aliases: Map<Seq<char>, String>,
    module_id: nat,
    ids: Map<Seq<char>, usize>,
    name: Seq<char>,
    locals: Seq<Seq<char>>,
)
    requires
        find_sep(name, 0) is None,
    ensures
        locals.contains(name) ==> spec_resolve_name(aliases, module_id, ids, name, locals) == name,
        !locals.contains(name) ==> spec_resolve_name(aliases, module_id, ids, name, locals) == qualified(name, module_id),
{
}


/// A call through an import, `ns::name`, resolves to `name` qualified with the number
/// of the module that the alias `ns` names.
pub proof fn law_namespace_call_resolves(
    aliases: Map<Seq<char>, String>,
    module_id: nat,
    ids: Map<Seq<char>, usize>,
    name: Seq<char>,
    locals: Seq<Seq<char>>,
    ns: Seq<char>,
    base: Seq<char>,
)
    requires
        split_two(name) == Some((ns, base)),
        aliases.contains_key(ns),
        ids.contains_key(aliases[ns]@),
    ensures
        spec_resolve_name(aliases, module_id, ids, name, locals) == qualified(base, ids[aliases[ns]@] as nat),
{
}


/// The same name reached through the aliases of two different modules, `foo::x` and
/// `bar::x`, resolves to two different names, whatever the local variables are.
pub proof fn law_same_name_different_modules(
    aliases: Map<Seq<char>, String>,
    module_id: nat,
    ids: Map<Seq<char>, usize>,
    n1: Seq<char>,
    n2: Seq<char>,
    ns1: Seq<char>,
    ns2: Seq<char>,
    base: Seq<char>,
    locals: Seq<Seq<char>>,
)
    requires
        split_two(n1) == Some((ns1, base)),
        split_two(n2) == Some((ns2, base)),
        aliases.contains_key(ns1),
        aliases.contains_key(ns2),
        ids.contains_key(aliases[ns1]@),
        ids.contains_key(aliases[ns2]@),
        ids[aliases[ns1]@] != ids[aliases[ns2]@],
    ensures
        spec_resolve_name(aliases, module_id, ids, n1, locals) != spec_resolve_name(aliases, module_id, ids, n2, locals),
{
    law_namespace_call_resolves(aliases, module_id, ids, n1, locals, ns1, base);
    law_namespace_call_resolves(aliases, module_id, ids, n2, locals, ns2, base);
    law_qualified_names_differ_across_modules(base, ids[aliases[ns1]@] as nat, ids[aliases[ns2]@] as nat);
}

/// After `register_module(f)`, `get_module(f)` finds a file named `f` with the number it
/// was given and no symbols or imports, and a path never registered is still not found.
pub proof fn law_registered_module_found(before: AliasManager, after: AliasManager, f: String, g: Seq<char>)
    requires
        after.ids() == before.ids().insert(f@, before.count() as usize),
        after.registry().dom() == before.registry().dom().insert(f@),
        after.registry()[f@].file == f,
        after.registry()[f@].module_id == before.count(),
        after.registry()[f@].symbols.structs@ == Map::<Seq<char>, bool>::empty(),
        after.registry()[f@].symbols.struct_fields@ == Map::<Seq<char>, Vec<(String, Type)>>::empty(),
        after.registry()[f@].symbols.functions@ == Map::<Seq<char>, (Vec<Type>, Type, Vec<String>)>::empty(),
        after.registry()[f@].symbols.globals@ == Map::<Seq<char>, Type>::empty(),
        after.registry()[f@].aliases@ == Map::<Seq<char>, String>::empty(),
        !before.registry().contains_key(g),
        g != f@,
    ensures
        after.registry().contains_key(f@),
        after.registry()[f@].module_id == after.ids()[f@],
        after.registry()[f@].file == f,
        after.registry()[f@].aliases@ == Map::<Seq<char>, String>::empty(),
        !after.registry().contains_key(g),
{
}

/// The local variables in scope just before statement `i` of `ss`, when the second pass
/// starts the list with `scope`.
pub open spec fn scope_before(file: QuorFile, ids: Map<Seq<char>, usize>, ss: Seq<StmtV>, scope: Seq<Seq<char>>, i: nat) -> Seq<Seq<char>>
    decreases i,
{
    if i == 0 || ss.len() == 0 {
        scope
    } else {
        scope_before(file, ids, ss.skip(1), pass_stmt(file, ids, ss[0], scope).1, (i - 1) as nat)
    }
}

/// A statement never takes a local variable out of scope.
proof fn lemma_pass_stmt_keeps_scope(file: QuorFile, ids: Map<Seq<char>, usize>, s: StmtV, scope: Seq<Seq<char>>)
    ensures
        forall|n: Seq<char>| scope.contains(n) ==> #[trigger] pass_stmt(file, ids, s, scope).1.contains(n),
{
    assert forall|n: Seq<char>| scope.contains(n) implies #[trigger] pass_stmt(file, ids, s, scope).1.contains(n) by {
        if let StmtV::VarDecl { name, .. } = s {
            let j = choose|j: int| 0 <= j < scope.len() && scope[j] == n;
            assert(scope.push(name)[j] == n);
        }
    }
}

/// Statement `i` of a list is passed over with the locals in scope before it, which
/// include every local in scope at the start of the list.
proof fn lemma_pass_stmts_at(file: QuorFile, ids: Map<Seq<char>, usize>, ss: Seq<StmtV>, scope: Seq<Seq<char>>, i: nat)
    requires
        i < ss.len(),
    ensures
        pass_stmts(file, ids, ss, scope).0.len() == ss.len(),
        pass_stmts(file, ids, ss, scope).0[i as int] == pass_stmt(file, ids, ss[i as int], scope_before(file, ids, ss, scope, i)).0,
        forall|n: Seq<char>| scope.contains(n) ==> #[trigger] scope_before(file, ids, ss, scope, i).contains(n),
    decreases i,
{
    lemma_pass_stmts_len(file, ids, ss, scope);
    if i > 0 {
        let sc1 = pass_stmt(file, ids, ss[0], scope).1;
        lemma_pass_stmt_keeps_scope(file, ids, ss[0], scope);
        lemma_pass_stmts_at(file, ids, ss.skip(1), sc1, (i - 1) as nat);
        assert(ss.skip(1)[i - 1] == ss[i as int]);
    }
}

proof fn lemma_pass_stmts_len(file: QuorFile, ids: Map<Seq<char>, usize>, ss: Seq<StmtV>, scope: Seq<Seq<char>>)
    ensures
        pass_stmts(file, ids, ss, scope).0.len() == ss.len(),
    decreases ss.len(),
{
    if ss.len() > 0 {
        lemma_pass_stmts_len(file, ids, ss.skip(1), pass_stmt(file, ids, ss[0], scope).1);
    }
}

/// `s` returns or evaluates the variable `x`.
pub open spec fn uses_variable(s: StmtV, x: Seq<char>, t: TypeV) -> bool {
    s == StmtV::Return(Some(ExprV::Variable(x, t))) || s == StmtV::Expression(ExprV::Variable(x, t))
}

/// Inside a function, a parameter is a local variable: wherever the body returns or
/// evaluates one of the function's parameters by its plain name, the second pass keeps
/// the name as it is, whatever the scope around the function.
pub proof fn law_parameters_stay_local(
    file: QuorFile,
    ids: Map<Seq<char>, usize>,
    name: Seq<char>,
    params: Seq<(Seq<char>, TypeV)>,
    return_type: TypeV,
    body: Seq<StmtV>,
    attributes: Seq<Seq<char>>,
    scope: Seq<Seq<char>>,
    i: int,
    x: Seq<char>,
    t: TypeV,
)
    requires
        param_names(params).contains(x),
        find_sep(x, 0) is None,
        0 <= i < body.len(),
        uses_variable(body[i], x, t),
    ensures
        (pass_stmt(file, ids, StmtV::FunDecl { name, params, return_type, body, attributes }, scope).0 matches StmtV::FunDecl {
            body: body2,
            ..
        } && body2.len() == body.len() && body2[i] == body[i]),
{
    let fs = scope + param_names(params);
    lemma_pass_stmts_at(file, ids, body, fs, i as nat);
    let j = choose|j: int| 0 <= j < param_names(params).len() && param_names(params)[j] == x;
    assert(fs[scope.len() + j] == x);
    assert(fs.contains(x));
    assert(scope_before(file, ids, body, fs, i as nat).contains(x));
}

/// A variable declared in a list of statements is a local variable for the statements
/// after it: returning or evaluating it by its plain name keeps the name.
pub proof fn law_declared_names_stay_local(
    file: QuorFile,
    ids: Map<Seq<char>, usize>,
    ss: Seq<StmtV>,
    scope: Seq<Seq<char>>,
    k: int,
    i: int,
    x: Seq<char>,
    vt: TypeV,
    value: ExprV,
    t: TypeV,
)
    requires
        find_sep(x, 0) is None,
        0 <= k < i < ss.len(),
        ss[k] == (StmtV::VarDecl { name: x, var_type: vt, value }),
        uses_variable(ss[i], x, t),
    ensures
        pass_stmts(file, ids, ss, scope).0[i] == ss[i],
{
    lemma_pass_stmts_at(file, ids, ss, scope, i as nat);
    lemma_scope_before_grows(file, ids, ss, scope, k as nat, i as nat);
    let sk = scope_before(file, ids, ss, scope, k as nat);
    assert(pass_stmt(file, ids, ss[k], sk).1 == sk.push(x));
    assert(sk.push(x)[sk.len() as int] == x);
}

/// The scope before statement `i` of a list holds every local in scope after statement
/// `k` for `k < i`.
proof fn lemma_scope_before_grows(file: QuorFile, ids: Map<Seq<char>, usize>, ss: Seq<StmtV>, scope: Seq<Seq<char>>, k: nat, i: nat)
    requires
        k < i <= ss.len(),
    ensures
        forall|n: Seq<char>|
            pass_stmt(file, ids, ss[k as int], scope_before(file, ids, ss, scope, k)).1.contains(n)
                ==> #[trigger] scope_before(file, ids, ss, scope, i).contains(n),
    decreases k,
{
    if k == 0 {
        let sc1 = pass_stmt(file, ids, ss[0], scope).1;
        lemma_scope_before_from(file, ids, ss.skip(1), sc1, (i - 1) as nat);
        assert(scope_before(file, ids, ss, scope, i) == scope_before(file, ids, ss.skip(1), sc1, (i - 1) as nat));
        assert(scope_before(file, ids, ss, scope, 0) == scope);
    } else {
        let sc1 = pass_stmt(file, ids, ss[0], scope).1;
        lemma_scope_before_grows(file, ids, ss.skip(1), sc1, (k - 1) as nat, (i - 1) as nat);
        assert(ss.skip(1)[k - 1] == ss[k as int]);
        assert(scope_before(file, ids, ss, scope, i) == scope_before(file, ids, ss.skip(1), sc1, (i - 1) as nat));
        assert(scope_before(file, ids, ss, scope, k) == scope_before(file, ids, ss.skip(1), sc1, (k - 1) as nat));
    }
}

/// The scope before any statement holds every local in scope at the start.
proof fn lemma_scope_before_from(file: QuorFile, ids: Map<Seq<char>, usize>, ss: Seq<StmtV>, scope: Seq<Seq<char>>, i: nat)
    ensures
        forall|n: Seq<char>| scope.contains(n) ==> #[trigger] scope_before(file, ids, ss, scope, i).contains(n),
    decreases i,
{
    if i > 0 && ss.len() > 0 {
        let sc1 = pass_stmt(file, ids, ss[0], scope).1;
        lemma_pass_stmt_keeps_scope(file, ids, ss[0], scope);
        lemma_scope_before_from(file, ids, ss.skip(1), sc1, (i - 1) as nat);
        assert(scope_before(file, ids, ss, scope, i) == scope_before(file, ids, ss.skip(1), sc1, (i - 1) as nat));
        assert forall|n: Seq<char>| scope.contains(n) implies #[trigger] scope_before(file, ids, ss, scope, i).contains(n) by {
            assert(sc1.contains(n));
            assert(scope_before(file, ids, ss.skip(1), sc1, (i - 1) as nat).contains(n));
        }
    }
}

/// A name that is not a local variable is a name of the module: returning or evaluating
/// it by its plain name, the second pass gives it the file's number.
pub proof fn law_module_names_qualified(
    file: QuorFile,
    ids: Map<Seq<char>, usize>,
    scope: Seq<Seq<char>>,
    x: Seq<char>,
    t: TypeV,
)
    requires
        find_sep(x, 0) is None,
        !scope.contains(x),
    ensures
        pass_stmt(file, ids, StmtV::Expression(ExprV::Variable(x, t)), scope).0 == StmtV::Expression(
            ExprV::Variable(qualified(x, file.module_id as nat), t),
        ),
        pass_stmt(file, ids, StmtV::Return(Some(ExprV::Variable(x, t))), scope).0 == StmtV::Return(
            Some(ExprV::Variable(qualified(x, file.module_id as nat), t)),
        ),
{
}

} // verus!
