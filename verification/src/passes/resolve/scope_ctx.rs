//! The scopes that resolution looks names up in.
//!
//! A scope is a table of the names declared in it. The global scope stands
//! alone; a local scope may have an enclosing scope, which is asked where the
//! local table does not hold a name.
use vstd::prelude::*;

use crate::error::{PassError, PassErrorView};
use crate::model::expressions::{Scope, Variable, VariableView};

verus! {

/// What a scope stands for: the set of names in its table and, for a local
/// scope, the scope around it.
pub enum ScopeCtxView {
    Global { names: Set<Seq<char>> },
    Local { names: Set<Seq<char>>, parent: Option<Box<ScopeCtxView>> },
}

impl ScopeCtxView {
    /// The global scope with nothing declared.
    pub open spec fn empty_global() -> ScopeCtxView {
        ScopeCtxView::Global { names: Set::empty() }
    }

    /// A local scope with nothing declared, inside `parent`.
    pub open spec fn empty_local(parent: Option<ScopeCtxView>) -> ScopeCtxView {
        ScopeCtxView::Local {
            names: Set::empty(),
            parent: match parent {
                Some(p) => Some(Box::new(p)),
                None => None,
            },
        }
    }

    /// The tag of the names declared in this scope.
    pub open spec fn kind(self) -> Scope {
        match self {
            ScopeCtxView::Global { .. } => Scope::Global,
            ScopeCtxView::Local { .. } => Scope::Local,
        }
    }

    /// The names in this scope's own table.
    pub open spec fn names(self) -> Set<Seq<char>> {
        match self {
            ScopeCtxView::Global { names } => names,
            ScopeCtxView::Local { names, .. } => names,
        }
    }

    /// The scope with `name` in its table. The enclosing scopes stay as they
    /// are.
    pub open spec fn declare(self, name: Seq<char>) -> ScopeCtxView {
        match self {
            ScopeCtxView::Global { names } => ScopeCtxView::Global { names: names.insert(name) },
            ScopeCtxView::Local { names, parent } => ScopeCtxView::Local {
                names: names.insert(name),
                parent,
            },
        }
    }

    /// The tag under which `name` is found: that of the innermost scope that
    /// holds it, from this scope outwards; `None` where no scope holds it.
    pub open spec fn lookup(self, name: Seq<char>) -> Option<Scope>
        decreases self,
    {
        match self {
            ScopeCtxView::Global { names } => if names.contains(name) {
                Some(Scope::Global)
            } else {
                None
            },
            ScopeCtxView::Local { names, parent } => if names.contains(name) {
                Some(Scope::Local)
            } else {
                match parent {
                    Some(p) => p.lookup(name),
                    None => None,
                }
            },
        }
    }

    /// What a lookup of `name` returns: the variable with its tag, or the
    /// fault that names it.
    pub open spec fn resolve(self, name: Seq<char>) -> Result<VariableView, PassErrorView> {
        match self.lookup(name) {
            Some(scope) => Ok(VariableView { name, scope: Some(scope) }),
            None => Err(PassErrorView::UnresolvedVariable(name)),
        }
    }
}

/// The names that a table holds.
pub open spec fn table_names(table: Seq<String>) -> Set<Seq<char>> {
    Set::new(
        |name: Seq<char>| exists|i: int| 0 <= i < table.len() && (#[trigger] table[i])@ == name,
    )
}

/// One more entry in a table is one more name.
pub proof fn lemma_table_names_push(table: Seq<String>, entry: String)
    ensures
        table_names(table.push(entry)) == table_names(table).insert(entry@),
{
    let longer = table.push(entry);
    assert forall|name: Seq<char>| table_names(longer).contains(name) implies table_names(
        table,
    ).insert(entry@).contains(name) by {
        let i = choose|i: int| 0 <= i < longer.len() && (#[trigger] longer[i])@ == name;
        if i < table.len() {
            assert(table[i]@ == name);
        }
    }
    assert forall|name: Seq<char>| table_names(table).insert(entry@).contains(
        name,
    ) implies table_names(longer).contains(name) by {
        if name == entry@ {
            assert(longer[table.len() as int]@ == name);
        } else {
            let i = choose|i: int| 0 <= i < table.len() && (#[trigger] table[i])@ == name;
            assert(longer[i]@ == name);
        }
    }
    assert(table_names(longer) =~= table_names(table).insert(entry@));
}

/// Whether a table holds `name`.
fn table_contains(table: &Vec<String>, name: &str) -> (r: bool)
    ensures
        r == table_names(table@).contains(name@),
{
    let key = name.to_owned();
    let mut i: usize = 0;
    while i < table.len()
        invariant
            i <= table.len(),
            key@ == name@,
            forall|j: int| 0 <= j < i ==> (#[trigger] table@[j])@ != name@,
        decreases table.len() - i,
    {
        if table[i] == key {
            return true;
        }
        i += 1;
    }
    false
}

/// A copy of a table.
fn table_clone(table: &Vec<String>) -> (r: Vec<String>)
    ensures
        table_names(r@) == table_names(table@),
{
    let mut out: Vec<String> = Vec::new();
    let mut i: usize = 0;
    assert(table@.take(0) =~= out@);
    while i < table.len()
        invariant
            i <= table.len(),
            out@ == table@.take(i as int),
        decreases table.len() - i,
    {
        out.push(table[i].clone());
        assert(out@ =~= table@.take(i + 1));
        i += 1;
    }
    assert(table@.take(table.len() as int) =~= table@);
    out
}

/// The scope of the top level.
pub struct GlobalScopeCtx {
    variables: Vec<String>,
}

/// The scope of a function body.
pub struct LocalScopeCtx {
    variables: Vec<String>,
    parent: Box<Option<ScopeCtx>>,
}

/// A scope of either kind.
pub enum ScopeCtx {
    Global(GlobalScopeCtx),
    Local(LocalScopeCtx),
}

/// The view of a scope: the names of its table, and the view of the scope
/// around it.
pub closed spec fn scope_view(ctx: ScopeCtx) -> ScopeCtxView
    decreases ctx,
{
    match ctx {
        ScopeCtx::Global(g) => ScopeCtxView::Global { names: table_names(g.variables@) },
        ScopeCtx::Local(l) => ScopeCtxView::Local {
            names: table_names(l.variables@),
            parent: match *l.parent {
                Some(p) => Some(Box::new(scope_view(p))),
                None => None,
            },
        },
    }
}

impl View for ScopeCtx {
    type V = ScopeCtxView;

    closed spec fn view(&self) -> ScopeCtxView {
        scope_view(*self)
    }
}

impl View for GlobalScopeCtx {
    type V = ScopeCtxView;

    closed spec fn view(&self) -> ScopeCtxView {
        scope_view(ScopeCtx::Global(*self))
    }
}

impl View for LocalScopeCtx {
    type V = ScopeCtxView;

    closed spec fn view(&self) -> ScopeCtxView {
        scope_view(ScopeCtx::Local(*self))
    }
}

impl GlobalScopeCtx {
    /// The global scope with nothing declared.
    pub fn new() -> (r: Self)
        ensures
            r@ == ScopeCtxView::empty_global(),
    {
        let r = GlobalScopeCtx { variables: Vec::new() };
        assert(table_names(r.variables@) =~= Set::empty());
        r
    }

    /// Declares `variable_name` in this scope.
    pub fn add_to_scope(&mut self, variable_name: &str)
        ensures
            final(self)@ == old(self)@.declare(variable_name@),
    {
        let entry = variable_name.to_owned();
        proof {
            lemma_table_names_push(self.variables@, entry);
        }
        self.variables.push(entry);
    }

    /// Looks `variable_name` up: the variable with the tag `Global` where
    /// this scope holds the name, else the fault that names it.
    pub fn get_from_scope(&self, variable_name: &str) -> (r: Result<Variable, PassError>)
        ensures
            match r {
                Ok(v) => self@.resolve(variable_name@) == Ok::<VariableView, PassErrorView>(v@),
                Err(err) => self@.resolve(variable_name@) == Err::<VariableView, PassErrorView>(
                    err@,
                ),
            },
    {
        if table_contains(&self.variables, variable_name) {
            Ok(Variable::new_global(variable_name))
        } else {
            Err(PassError::UnresolvedVariable(variable_name.to_owned()))
        }
    }
}

impl LocalScopeCtx {
    /// A local scope with nothing declared, inside `parent`.
    pub fn new(parent: Option<ScopeCtx>) -> (r: Self)
        ensures
            r@ == ScopeCtxView::empty_local(
                match parent {
                    Some(p) => Some(p@),
                    None => None,
                },
            ),
    {
        let r = LocalScopeCtx { variables: Vec::new(), parent: Box::new(parent) };
        assert(table_names(r.variables@) =~= Set::empty());
        r
    }

    /// Declares `variable_name` in this scope.
    pub fn add_to_scope(&mut self, variable_name: &str)
        ensures
            final(self)@ == old(self)@.declare(variable_name@),
    {
        let entry = variable_name.to_owned();
        proof {
            lemma_table_names_push(self.variables@, entry);
        }
        self.variables.push(entry);
    }

    /// Looks `variable_name` up: the variable with the tag `Local` where this
    /// scope holds the name, else what the enclosing scope finds; the fault
    /// that names it where there is none.
    pub fn get_from_scope(&self, variable_name: &str) -> (r: Result<Variable, PassError>)
        ensures
            match r {
                Ok(v) => self@.resolve(variable_name@) == Ok::<VariableView, PassErrorView>(v@),
                Err(err) => self@.resolve(variable_name@) == Err::<VariableView, PassErrorView>(
                    err@,
                ),
            },
        decreases self,
    {
        if table_contains(&self.variables, variable_name) {
            Ok(Variable::new_local(variable_name))
        } else {
            match &*self.parent {
                Some(parent_ctx) => parent_ctx.get_from_scope(variable_name),
                None => Err(PassError::UnresolvedVariable(variable_name.to_owned())),
            }
        }
    }
}

impl ScopeCtx {
    /// The global scope with nothing declared.
    pub fn new_global() -> (r: Self)
        ensures
            r@ == ScopeCtxView::empty_global(),
    {
        ScopeCtx::Global(GlobalScopeCtx::new())
    }

    /// A local scope with nothing declared, inside `parent`.
    pub fn new_local(parent: Option<ScopeCtx>) -> (r: Self)
        ensures
            r@ == ScopeCtxView::empty_local(
                match parent {
                    Some(p) => Some(p@),
                    None => None,
                },
            ),
    {
        ScopeCtx::Local(LocalScopeCtx::new(parent))
    }

    /// Declares `variable_name` in this scope: a later lookup finds it under
    /// this scope's tag. Declaring a name again changes nothing.
    pub fn add_to_scope(&mut self, variable_name: &str)
        ensures
            final(self)@ == old(self)@.declare(variable_name@),
    {
        match self {
            ScopeCtx::Global(ctx) => ctx.add_to_scope(variable_name),
            ScopeCtx::Local(ctx) => ctx.add_to_scope(variable_name),
        }
    }

    /// Looks `variable_name` up, from this scope outwards: the variable with
    /// the tag of the innermost scope that holds the name, or
    /// `UnresolvedVariable` with the name where no scope holds it.
    pub fn get_from_scope(&self, variable_name: &str) -> (r: Result<Variable, PassError>)
        ensures
            match r {
                Ok(v) => self@.resolve(variable_name@) == Ok::<VariableView, PassErrorView>(v@),
                Err(err) => self@.resolve(variable_name@) == Err::<VariableView, PassErrorView>(
                    err@,
                ),
            },
        decreases self,
    {
        match self {
            ScopeCtx::Global(ctx) => ctx.get_from_scope(variable_name),
            ScopeCtx::Local(ctx) => ctx.get_from_scope(variable_name),
        }
    }
}

impl Clone for GlobalScopeCtx {
    fn clone(&self) -> (r: Self)
        ensures
            r@ == self@,
    {
        GlobalScopeCtx { variables: table_clone(&self.variables) }
    }
}

impl Clone for LocalScopeCtx {
    fn clone(&self) -> (r: Self)
        ensures
            r@ == self@,
        decreases self,
    {
        let parent = match &*self.parent {
            Some(p) => Some(p.clone()),
            None => None,
        };
        LocalScopeCtx { variables: table_clone(&self.variables), parent: Box::new(parent) }
    }
}

impl Clone for ScopeCtx {
    /// A snapshot of the scope and of every scope around it.
    fn clone(&self) -> (r: Self)
        ensures
            r@ == self@,
        decreases self,
    {
        match self {
            ScopeCtx::Global(ctx) => ScopeCtx::Global(ctx.clone()),
            ScopeCtx::Local(ctx) => ScopeCtx::Local(ctx.clone()),
        }
    }
}

} // verus!
