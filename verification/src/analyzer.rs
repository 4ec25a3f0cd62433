use vstd::prelude::*;

use crate::alias::Table;
use crate::ast::Type;
use crate::typecheck::{initial_model, lemma_fresh_model};

verus! {

/// The scopes and declarations that type checking keeps: the variables of each open
/// scope, innermost last, the functions with their parameter and return types, the
/// classes with their fields, the return type of the function being checked, and
/// whether a loop is open.
pub struct TypeChecker {
    pub(crate) variables: Vec<Table<Type>>,
    pub(crate) functions: Table<(Vec<Type>, Type)>,
    pub(crate) classes: Vec<String>,
    pub(crate) class_fields: Table<Vec<(String, Type)>>,
    pub(crate) current_return_type: Option<Type>,
    pub(crate) in_loop: bool,
}

/// The type that `name` has in the innermost of `scopes` that declares it.
pub open spec fn lookup_in(scopes: Seq<Map<Seq<char>, Type>>, name: Seq<char>) -> Option<Type>
    decreases scopes.len(),
{
    if scopes.len() == 0 {
        None
    } else if scopes.last().contains_key(name) {
        Some(scopes.last()[name])
    } else {
        lookup_in(scopes.drop_last(), name)
    }
}

impl TypeChecker {
    /// The open scopes, innermost last.
    pub closed spec fn scopes(&self) -> Seq<Map<Seq<char>, Type>> {
        Seq::new(self.variables@.len(), |i: int| self.variables@[i]@)
    }

    /// The declared functions.
    pub closed spec fn fns(&self) -> Map<Seq<char>, (Vec<Type>, Type)> {
        self.functions@
    }

    /// How the open scopes and the declared functions are read off the fields.
    pub(crate) proof fn lemma_fields(&self)
        ensures
            self.scopes() == Seq::new(self.variables@.len(), |i: int| self.variables@[i]@),
            self.fns() == self.functions@,
    {
    }

    /// A checker with one empty global scope and nothing declared.
    pub fn new() -> (r: TypeChecker)
        ensures
            r.scopes() == seq![Map::<Seq<char>, Type>::empty()],
            r.fns() == Map::<Seq<char>, (Vec<Type>, Type)>::empty(),
            r.model() == initial_model(),
    {
        let mut variables: Vec<Table<Type>> = Vec::new();
        variables.push(Table::new());
        let r = TypeChecker {
            variables,
            functions: Table::new(),
            classes: Vec::new(),
            class_fields: Table::new(),
            current_return_type: None,
            in_loop: false,
        };
        proof {
            assert(r.scopes() =~= seq![Map::<Seq<char>, Type>::empty()]);
            lemma_fresh_model(r);
        }
        r
    }

    /// Opens a new, empty innermost scope.
    pub fn enter_scope(&mut self)
        ensures
            final(self).scopes() == old(self).scopes().push(Map::empty()),
            final(self).fns() == old(self).fns(),
    {
        self.variables.push(Table::new());
        proof {
            assert(self.scopes() =~= old(self).scopes().push(Map::empty()));
        }
    }

    /// Closes the innermost scope; the global scope stays open.
    pub fn exit_scope(&mut self)
        requires
            old(self).scopes().len() > 1,
        ensures
            final(self).scopes() == old(self).scopes().drop_last(),
            final(self).fns() == old(self).fns(),
    {
        self.variables.pop();
        proof {
            assert(self.scopes() =~= old(self).scopes().drop_last());
        }
    }

    /// Declares the variable `name` of type `ty` in the innermost scope; an error when
    /// that scope already declares it.
    pub fn declare_var(&mut self, name: &str, ty: Type) -> (r: Result<(), String>)
        requires
            old(self).scopes().len() > 0,
        ensures
            old(self).scopes().last().contains_key(name@) ==> r is Err && final(self).scopes() == old(self).scopes()
                && r->Err_0@ == "Variable '"@ + name@ + "' already declared in this scope"@,
            !old(self).scopes().last().contains_key(name@) ==> r is Ok && final(self).scopes() == old(self).scopes().update(
                old(self).scopes().len() - 1,
                old(self).scopes().last().insert(name@, ty),
            ),
            final(self).fns() == old(self).fns(),
    {
        let last = self.variables.len() - 1;
        if self.variables[last].contains_key(name) {
            let mut msg = "Variable '".to_owned();
            msg.append(name);
            msg.append("' already declared in this scope");
            return Err(msg);
        }
        let mut scope = self.variables.pop().unwrap();
        scope.insert(name.to_owned(), ty);
        self.variables.push(scope);
        proof {
            assert(self.scopes() =~= old(self).scopes().update(
                old(self).scopes().len() - 1,
                old(self).scopes().last().insert(name@, ty),
            ));
        }
        Ok(())
    }

    /// The type of the variable `name` in the innermost scope that declares it.
    pub fn lookup_var(&self, name: &str) -> (r: Option<&Type>)
        ensures
            r == match lookup_in(self.scopes(), name@) {
                Some(t) => Some(&t),
                None => None,
            },
    {
        let mut i = self.variables.len();
        proof {
            assert(self.scopes().take(i as int) =~= self.scopes());
        }
        while i > 0
            invariant
                i <= self.variables@.len(),
                lookup_in(self.scopes(), name@) == lookup_in(self.scopes().take(i as int), name@),
            decreases i,
        {
            proof {
                assert(self.scopes().take(i as int).drop_last() =~= self.scopes().take(i - 1));
            }
            match self.variables[i - 1].get(name) {
                Some(ty) => {
                    return Some(ty);
                },
                None => {},
            }
            i = i - 1;
        }
        None
    }

    /// Declares the function `name` with its parameter and return types; a later
    /// declaration replaces an earlier one.
    pub fn declare_fn(&mut self, name: &str, params: Vec<Type>, ret: Type) -> (r: Result<(), String>)
        ensures
            r is Ok,
            final(self).fns() == old(self).fns().insert(name@, (params, ret)),
            final(self).scopes() == old(self).scopes(),
    {
        self.functions.insert(name.to_owned(), (params, ret));
        Ok(())
    }

    /// The parameter and return types of the function `name`.
    pub fn lookup_fn(&self, name: &str) -> (r: Option<&(Vec<Type>, Type)>)
        ensures
            r == (if self.fns().contains_key(name@) {
                Some(&self.fns()[name@])
            } else {
                None
            }),
    {
        self.functions.get(name)
    }
}

/// A variable just declared is found by its name, with the type it was declared with.
pub proof fn law_declared_variable_is_found(scopes: Seq<Map<Seq<char>, Type>>, name: Seq<char>, ty: Type)
    requires
        scopes.len() > 0,
    ensures
        lookup_in(scopes.update(scopes.len() - 1, scopes.last().insert(name, ty)), name) == Some(ty),
{
    let s2 = scopes.update(scopes.len() - 1, scopes.last().insert(name, ty));
    assert(s2.last() == scopes.last().insert(name, ty));
}

/// Closing a scope forgets what it declared: lookups go back to what they were before
/// the scope was opened.
pub proof fn law_exit_scope_restores(scopes: Seq<Map<Seq<char>, Type>>, inner: Map<Seq<char>, Type>, name: Seq<char>)
    ensures
        lookup_in(scopes.push(inner).drop_last(), name) == lookup_in(scopes, name),
{
    assert(scopes.push(inner).drop_last() =~= scopes);
}

/// An inner declaration shadows an outer one.
pub proof fn law_inner_scope_shadows(scopes: Seq<Map<Seq<char>, Type>>, inner: Map<Seq<char>, Type>, name: Seq<char>)
    requires
        inner.contains_key(name),
    ensures
        lookup_in(scopes.push(inner), name) == Some(inner[name]),
{
}

} // verus!
