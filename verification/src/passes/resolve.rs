//! Scope resolution: every variable is tagged with the scope that binds it.
//!
//! The traversal starts in a fresh global scope. A declaration adds its name
//! to the scope it stands in. A function opens a local scope around its
//! parameters and its body, with a snapshot of the enclosing scope behind
//! it: the parameters are declared in that local scope, so that they are
//! local to the function and leave the enclosing scope as it was. A use of a
//! name, and the target of an assignment, get the tag of the innermost scope
//! that holds the name; where none does, resolution ends with
//! `UnresolvedVariable`. An initialised declaration, which has to be split
//! before scopes are resolved, ends it with `InvariantViolation`.
use vstd::prelude::*;

pub mod laws;
pub mod scope_ctx;

use super::pass::{
    expr_spec, exprs_spec, params_spec, program_outcome, relop_spec, single, stmt_spec, stmts_spec,
    transform_assignment, transform_declaration, transform_func, transform_program,
    transform_variable, Pass, Step,
};
use crate::error::{PassError, PassErrorView};
use crate::model::expressions::{Expr, ExprView, RelOpView, Scope, Variable, VariableView};
use crate::model::statements::{
    stmts_view, vars_view, Assignment, Declaration, Func, Stmt, StmtView,
};
use crate::model::Program;
use laws::{
    bare_stmts, lemma_resolve_stmts_keep_shape, lemma_resolved_program, stmts_bind, stmts_scoped,
};
use scope_ctx::{ScopeCtx, ScopeCtxView};

verus! {

/// The pass that resolves scopes.
pub struct Resolve;

/// The names of a parameter list.
pub open spec fn param_names(args: Seq<VariableView>) -> Set<Seq<char>> {
    Set::new(
        |name: Seq<char>| exists|i: int| 0 <= i < args.len() && (#[trigger] args[i]).name == name,
    )
}

/// The scope of a function with the parameters `args` that is defined under
/// `ctx`: a local scope that holds the parameters, inside `ctx`.
pub open spec fn function_scope(args: Seq<VariableView>, ctx: ScopeCtxView) -> ScopeCtxView {
    ScopeCtxView::Local { names: param_names(args), parent: Some(Box::new(ctx)) }
}

/// One more parameter at the end of a list is one more name.
pub proof fn lemma_param_names_step(args: Seq<VariableView>, i: int)
    requires
        0 <= i < args.len(),
    ensures
        param_names(args.take(i + 1)) == param_names(args.take(i)).insert(args[i].name),
{
    let shorter = args.take(i);
    let longer = args.take(i + 1);
    assert forall|name: Seq<char>| param_names(longer).contains(name) implies param_names(
        shorter,
    ).insert(args[i].name).contains(name) by {
        let j = choose|j: int| 0 <= j < longer.len() && (#[trigger] longer[j]).name == name;
        if j < i {
            assert(shorter[j].name == name);
        }
    }
    assert forall|name: Seq<char>| param_names(shorter).insert(args[i].name).contains(
        name,
    ) implies param_names(longer).contains(name) by {
        if name == args[i].name {
            assert(longer[i].name == name);
        } else {
            let j = choose|j: int| 0 <= j < shorter.len() && (#[trigger] shorter[j]).name == name;
            assert(longer[j].name == name);
        }
    }
    assert(param_names(longer) =~= param_names(shorter).insert(args[i].name));
}

impl Pass for Resolve {
    type Context = ScopeCtx;

    open spec fn initial_context() -> ScopeCtxView {
        ScopeCtxView::empty_global()
    }

    open spec fn function_context(args: Seq<VariableView>, ctx: ScopeCtxView) -> ScopeCtxView {
        function_scope(args, ctx)
    }

    open spec fn expr_rule(node: ExprView, ctx: ScopeCtxView) -> Step<ExprView, Self> {
        match node {
            ExprView::Variable(v) => match ctx.resolve(v.name) {
                Ok(v) => Ok((ExprView::Variable(v), ctx)),
                Err(err) => Err(err),
            },
            _ => Ok((node, ctx)),
        }
    }

    open spec fn target_rule(var: VariableView, is_decl_and_init: bool, ctx: ScopeCtxView) -> Step<
        VariableView,
        Self,
    > {
        if is_decl_and_init {
            Err(PassErrorView::InvariantViolation)
        } else {
            match ctx.resolve(var.name) {
                Ok(v) => Ok((v, ctx)),
                Err(err) => Err(err),
            }
        }
    }

    open spec fn stmt_rule(node: StmtView, ctx: ScopeCtxView) -> Step<Seq<StmtView>, Self> {
        match node {
            StmtView::Declaration { var } => Ok(
                (seq![declared(var.name, ctx)], ctx.declare(var.name)),
            ),
            _ => Ok((seq![node], ctx)),
        }
    }

    fn get_context() -> (ctx: ScopeCtx) {
        ScopeCtx::new_global()
    }

    fn enter_function(args: &Vec<Variable>, ctx: &ScopeCtx) -> (body_ctx: ScopeCtx) {
        let ghost vs = vars_view(args@);
        let mut body_ctx = ScopeCtx::new_local(Some(ctx.clone()));
        assert(param_names(vs.take(0)) =~= Set::empty());
        let mut i: usize = 0;
        while i < args.len()
            invariant
                i <= args.len(),
                vs == vars_view(args@),
                body_ctx@ == function_scope(vs.take(i as int), ctx@),
            decreases args.len() - i,
        {
            proof {
                lemma_param_names_step(vs, i as int);
            }
            body_ctx.add_to_scope(args[i].name.as_str());
            i += 1;
        }
        assert(vs.take(vs.len() as int) =~= vs);
        body_ctx
    }

    fn rewrite_expr(node: Expr, ctx: &mut ScopeCtx) -> (r: Result<Expr, PassError>) {
        match node {
            Expr::Variable(variable) => match ctx.get_from_scope(variable.name.as_str()) {
                Ok(resolved) => Ok(Expr::Variable(resolved)),
                Err(err) => Err(err),
            },
            other => Ok(other),
        }
    }

    fn rewrite_target(var: Variable, is_decl_and_init: bool, ctx: &mut ScopeCtx) -> (r: Result<
        Variable,
        PassError,
    >) {
        if is_decl_and_init {
            return Err(PassError::InvariantViolation);
        }
        ctx.get_from_scope(var.name.as_str())
    }

    fn rewrite_stmt(node: Stmt, ctx: &mut ScopeCtx) -> (r: Result<Vec<Stmt>, PassError>) {
        match node {
            Stmt::Declaration(declaration) => {
                let var_name = declaration.var.name;
                ctx.add_to_scope(var_name.as_str());
                match ctx.get_from_scope(var_name.as_str()) {
                    Ok(var) => Ok(single(Stmt::Declaration(Declaration { var }))),
                    Err(err) => Err(err),
                }
            },
            other => Ok(single(other)),
        }
    }

    fn rewrite_program(stmts: Vec<Stmt>) -> (r: Vec<Stmt>) {
        stmts
    }
}

/// The declaration of `name` in the scope `ctx`: the variable carries the
/// tag of that scope.
pub open spec fn declared(name: Seq<char>, ctx: ScopeCtxView) -> StmtView {
    StmtView::Declaration { var: VariableView { name, scope: Some(ctx.kind()) } }
}

/// A parameter list with every parameter tagged `Local`.
pub open spec fn local_params(args: Seq<VariableView>) -> Seq<VariableView> {
    Seq::new(args.len(), |i: int| VariableView { name: args[i].name, scope: Some(Scope::Local) })
}

/// An expression with every variable in it resolved in `ctx`, or the fault of
/// the first, in source order, that no scope holds.
pub open spec fn resolve_expr(e: ExprView, ctx: ScopeCtxView) -> Result<ExprView, PassErrorView>
    decreases e,
{
    match e {
        ExprView::FuncCall { name, args } => match resolve_exprs(args, ctx) {
            Ok(args) => Ok(ExprView::FuncCall { name, args }),
            Err(err) => Err(err),
        },
        ExprView::Variable(v) => match ctx.resolve(v.name) {
            Ok(v) => Ok(ExprView::Variable(v)),
            Err(err) => Err(err),
        },
        ExprView::BinOp { op, left, right } => match resolve_expr(*left, ctx) {
            Ok(left) => match resolve_expr(*right, ctx) {
                Ok(right) => Ok(
                    ExprView::BinOp { op, left: Box::new(left), right: Box::new(right) },
                ),
                Err(err) => Err(err),
            },
            Err(err) => Err(err),
        },
        ExprView::RelOp(r) => match resolve_relop(r, ctx) {
            Ok(r) => Ok(ExprView::RelOp(r)),
            Err(err) => Err(err),
        },
        ExprView::Number(_) => Ok(e),
    }
}

/// A comparison with both operands resolved in `ctx`.
pub open spec fn resolve_relop(r: RelOpView, ctx: ScopeCtxView) -> Result<RelOpView, PassErrorView>
    decreases r,
{
    match resolve_expr(*r.left, ctx) {
        Ok(left) => match resolve_expr(*r.right, ctx) {
            Ok(right) => Ok(RelOpView { op: r.op, left: Box::new(left), right: Box::new(right) }),
            Err(err) => Err(err),
        },
        Err(err) => Err(err),
    }
}

/// A list of expressions resolved in `ctx`, from left to right.
pub open spec fn resolve_exprs(es: Seq<ExprView>, ctx: ScopeCtxView) -> Result<
    Seq<ExprView>,
    PassErrorView,
>
    decreases es,
{
    if es.len() == 0 {
        Ok(Seq::empty())
    } else {
        match resolve_exprs(es.drop_last(), ctx) {
            Ok(init) => match resolve_expr(es.last(), ctx) {
                Ok(e) => Ok(init.push(e)),
                Err(err) => Err(err),
            },
            Err(err) => Err(err),
        }
    }
}

/// A statement resolved in `ctx`, with the scope after it, or the first
/// fault in source order. Only a declaration changes the scope: what a
/// function declares is gone at its end.
pub open spec fn resolve_stmt(s: StmtView, ctx: ScopeCtxView) -> Result<
    (StmtView, ScopeCtxView),
    PassErrorView,
>
    decreases s,
{
    match s {
        StmtView::Func { name, args, body } => match resolve_stmts(
            body,
            function_scope(args, ctx),
        ) {
            Ok((body, _)) => Ok((StmtView::Func { name, args: local_params(args), body }, ctx)),
            Err(err) => Err(err),
        },
        StmtView::If { condition, consequence, alternative } => match resolve_relop(
            condition,
            ctx,
        ) {
            Ok(condition) => match resolve_stmts(consequence, ctx) {
                Ok((consequence, ctx)) => match resolve_stmts(alternative, ctx) {
                    Ok((alternative, ctx)) => Ok(
                        (StmtView::If { condition, consequence, alternative }, ctx),
                    ),
                    Err(err) => Err(err),
                },
                Err(err) => Err(err),
            },
            Err(err) => Err(err),
        },
        StmtView::While { condition, body } => match resolve_relop(condition, ctx) {
            Ok(condition) => match resolve_stmts(body, ctx) {
                Ok((body, ctx)) => Ok((StmtView::While { condition, body }, ctx)),
                Err(err) => Err(err),
            },
            Err(err) => Err(err),
        },
        StmtView::Print { value } => match resolve_expr(value, ctx) {
            Ok(value) => Ok((StmtView::Print { value }, ctx)),
            Err(err) => Err(err),
        },
        StmtView::Return { value } => match resolve_expr(value, ctx) {
            Ok(value) => Ok((StmtView::Return { value }, ctx)),
            Err(err) => Err(err),
        },
        StmtView::Assignment { var, value, is_decl_and_init } => if is_decl_and_init {
            Err(PassErrorView::InvariantViolation)
        } else {
            match ctx.resolve(var.name) {
                Ok(var) => match resolve_expr(value, ctx) {
                    Ok(value) => Ok(
                        (StmtView::Assignment { var, value, is_decl_and_init: false }, ctx),
                    ),
                    Err(err) => Err(err),
                },
                Err(err) => Err(err),
            }
        },
        StmtView::Declaration { var } => Ok((declared(var.name, ctx), ctx.declare(var.name))),
    }
}

/// A body resolved from left to right, each statement in the scope that the
/// statements before it have left.
pub open spec fn resolve_stmts(ss: Seq<StmtView>, ctx: ScopeCtxView) -> Result<
    (Seq<StmtView>, ScopeCtxView),
    PassErrorView,
>
    decreases ss,
{
    if ss.len() == 0 {
        Ok((Seq::empty(), ctx))
    } else {
        match resolve_stmts(ss.drop_last(), ctx) {
            Ok((init, ctx)) => match resolve_stmt(ss.last(), ctx) {
                Ok((s, ctx)) => Ok((init.push(s), ctx)),
                Err(err) => Err(err),
            },
            Err(err) => Err(err),
        }
    }
}

/// A program resolved from a fresh global scope.
pub open spec fn resolve_program(ss: Seq<StmtView>) -> Result<Seq<StmtView>, PassErrorView> {
    match resolve_stmts(ss, ScopeCtxView::empty_global()) {
        Ok((out, _)) => Ok(out),
        Err(err) => Err(err),
    }
}

/// The framework's rewrite of an expression under the rules of this pass
/// resolves it and leaves the scope as it is.
pub proof fn lemma_resolve_expr_spec(e: ExprView, ctx: ScopeCtxView)
    ensures
        expr_spec::<Resolve>(e, ctx) == match resolve_expr(e, ctx) {
            Ok(x) => Ok::<(ExprView, ScopeCtxView), PassErrorView>((x, ctx)),
            Err(err) => Err(err),
        },
    decreases e,
{
    match e {
        ExprView::FuncCall { name, args } => {
            lemma_resolve_exprs_spec(args, ctx);
        },
        ExprView::BinOp { op, left, right } => {
            lemma_resolve_expr_spec(*left, ctx);
            lemma_resolve_expr_spec(*right, ctx);
        },
        ExprView::RelOp(r) => {
            lemma_resolve_relop_spec(r, ctx);
        },
        _ => {},
    }
}

proof fn lemma_resolve_relop_spec(r: RelOpView, ctx: ScopeCtxView)
    ensures
        relop_spec::<Resolve>(r, ctx) == match resolve_relop(r, ctx) {
            Ok(x) => Ok::<(RelOpView, ScopeCtxView), PassErrorView>((x, ctx)),
            Err(err) => Err(err),
        },
    decreases r,
{
    lemma_resolve_expr_spec(*r.left, ctx);
    lemma_resolve_expr_spec(*r.right, ctx);
}

proof fn lemma_resolve_exprs_spec(es: Seq<ExprView>, ctx: ScopeCtxView)
    ensures
        exprs_spec::<Resolve>(es, ctx) == match resolve_exprs(es, ctx) {
            Ok(x) => Ok::<(Seq<ExprView>, ScopeCtxView), PassErrorView>((x, ctx)),
            Err(err) => Err(err),
        },
    decreases es,
{
    if es.len() > 0 {
        lemma_resolve_exprs_spec(es.drop_last(), ctx);
        lemma_resolve_expr_spec(es.last(), ctx);
    }
}

/// In a local scope that holds them, parameters resolve to themselves with
/// the tag `Local`.
pub proof fn lemma_resolve_params_spec(args: Seq<VariableView>, ctx: ScopeCtxView)
    requires
        ctx is Local,
        forall|i: int| 0 <= i < args.len() ==> ctx.names().contains((#[trigger] args[i]).name),
    ensures
        params_spec::<Resolve>(args, ctx) == Ok::<(Seq<VariableView>, ScopeCtxView), PassErrorView>(
            (local_params(args), ctx),
        ),
    decreases args.len(),
{
    if args.len() == 0 {
        assert(local_params(args) =~= Seq::empty());
    } else {
        let init = args.drop_last();
        assert forall|i: int| 0 <= i < init.len() implies ctx.names().contains(
            (#[trigger] init[i]).name,
        ) by {
            assert(init[i] == args[i]);
        }
        lemma_resolve_params_spec(init, ctx);
        assert(ctx.names().contains(args[args.len() - 1].name));
        assert(local_params(args) =~= local_params(init).push(
            VariableView { name: args.last().name, scope: Some(Scope::Local) },
        ));
    }
}

/// The framework's rewrite of a statement under the rules of this pass
/// resolves it.
pub proof fn lemma_resolve_stmt_spec(s: StmtView, ctx: ScopeCtxView)
    ensures
        stmt_spec::<Resolve>(s, ctx) == match resolve_stmt(s, ctx) {
            Ok((x, c)) => Ok::<(Seq<StmtView>, ScopeCtxView), PassErrorView>((seq![x], c)),
            Err(err) => Err(err),
        },
    decreases s,
{
    match s {
        StmtView::Func { name, args, body } => {
            let body_ctx = function_scope(args, ctx);
            lemma_resolve_params_spec(args, body_ctx);
            lemma_resolve_stmts_spec(body, body_ctx);
        },
        StmtView::If { condition, consequence, alternative } => {
            lemma_resolve_relop_spec(condition, ctx);
            lemma_resolve_stmts_spec(consequence, ctx);
            match resolve_stmts(consequence, ctx) {
                Ok((_, c)) => {
                    lemma_resolve_stmts_spec(alternative, c);
                },
                Err(_) => {},
            }
        },
        StmtView::While { condition, body } => {
            lemma_resolve_relop_spec(condition, ctx);
            lemma_resolve_stmts_spec(body, ctx);
        },
        StmtView::Print { value } => {
            lemma_resolve_expr_spec(value, ctx);
        },
        StmtView::Return { value } => {
            lemma_resolve_expr_spec(value, ctx);
        },
        StmtView::Assignment { var, value, is_decl_and_init } => {
            lemma_resolve_expr_spec(value, ctx);
        },
        StmtView::Declaration { var } => {},
    }
}

/// The same for a body, and so for a program.
pub proof fn lemma_resolve_stmts_spec(ss: Seq<StmtView>, ctx: ScopeCtxView)
    ensures
        stmts_spec::<Resolve>(ss, ctx) == resolve_stmts(ss, ctx),
    decreases ss,
{
    if ss.len() > 0 {
        lemma_resolve_stmts_spec(ss.drop_last(), ctx);
        match resolve_stmts(ss.drop_last(), ctx) {
            Ok((init, c)) => {
                lemma_resolve_stmt_spec(ss.last(), c);
                match resolve_stmt(ss.last(), c) {
                    Ok((x, _)) => {
                        assert(init + seq![x] =~= init.push(x));
                    },
                    Err(_) => {},
                }
            },
            Err(_) => {},
        }
    }
}

/// `r`, with the scope `after` it, is what `model` says.
pub open spec fn stmt_outcome(
    r: Result<Stmt, PassError>,
    after: ScopeCtxView,
    model: Result<(StmtView, ScopeCtxView), PassErrorView>,
) -> bool {
    match r {
        Ok(s) => model == Ok::<(StmtView, ScopeCtxView), PassErrorView>((s@, after)),
        Err(err) => model == Err::<(StmtView, ScopeCtxView), PassErrorView>(err@),
    }
}

/// The statement of a list that holds just one.
fn only(stmts: Vec<Stmt>) -> (r: Stmt)
    requires
        stmts@.len() == 1,
    ensures
        r == stmts@[0],
{
    let mut stmts = stmts;
    match stmts.pop() {
        Some(stmt) => stmt,
        None => unreached(),
    }
}

impl Resolve {
    /// Resolves the scopes of a program: `Ok` with every variable tagged, or
    /// the first fault in source order. In what is returned the top-level
    /// declarations are tagged `Global`, and the parameters and the
    /// declarations inside functions `Local`; nothing but the tags differs
    /// from what was given.
    pub fn transform_program(program: Program) -> (r: Result<Program, PassError>)
        ensures
            program_outcome(r, resolve_program(program@)),
            r matches Ok(resolved) ==> stmts_scoped(resolved@) && stmts_bind(
                resolved@,
                Scope::Global,
            ) && bare_stmts(resolved@) == bare_stmts(program@),
    {
        proof {
            lemma_resolve_stmts_spec(program@, ScopeCtxView::empty_global());
            if resolve_program(program@) is Ok {
                lemma_resolved_program(program@);
                lemma_resolve_stmts_keep_shape(program@, ScopeCtxView::empty_global());
            }
        }
        transform_program::<Resolve>(program)
    }

    /// Resolves a function under `ctx`: its parameters become local, and its
    /// body is resolved in a local scope that holds them, around a snapshot
    /// of `ctx`. `ctx` itself stays as it is.
    pub fn transform_func(func: Func, ctx: &mut ScopeCtx) -> (r: Result<Stmt, PassError>)
        ensures
            stmt_outcome(r, final(ctx)@, resolve_stmt(func@, old(ctx)@)),
    {
        proof {
            lemma_resolve_stmt_spec(func@, ctx@);
        }
        match transform_func::<Resolve>(func, ctx) {
            Ok(stmts) => {
                assert(stmts_view(stmts@).len() == stmts@.len());
                assert(stmts_view(stmts@)[0] == stmts@[0]@);
                Ok(only(stmts))
            },
            Err(err) => Err(err),
        }
    }

    /// Resolves a declaration: the name is added to `ctx`, and the variable
    /// gets the tag of `ctx`.
    pub fn transform_declaration(declaration: Declaration, ctx: &mut ScopeCtx) -> (r: Result<
        Stmt,
        PassError,
    >)
        ensures
            stmt_outcome(r, final(ctx)@, resolve_stmt(declaration@, old(ctx)@)),
            r is Ok,
    {
        proof {
            lemma_resolve_stmt_spec(declaration@, ctx@);
        }
        match transform_declaration::<Resolve>(declaration, ctx) {
            Ok(stmts) => {
                assert(stmts_view(stmts@).len() == stmts@.len());
                assert(stmts_view(stmts@)[0] == stmts@[0]@);
                Ok(only(stmts))
            },
            Err(err) => Err(err),
        }
    }

    /// Resolves a use of a variable: the variable with the tag that `ctx`
    /// finds for its name, or `UnresolvedVariable` with the name.
    pub fn transform_variable(variable: Variable, ctx: &mut ScopeCtx) -> (r: Result<
        Expr,
        PassError,
    >)
        ensures
            match r {
                Ok(e) => resolve_expr(ExprView::Variable(variable@), old(ctx)@) == Ok::<
                    ExprView,
                    PassErrorView,
                >(e@) && final(ctx)@ == old(ctx)@,
                Err(err) => resolve_expr(ExprView::Variable(variable@), old(ctx)@) == Err::<
                    ExprView,
                    PassErrorView,
                >(err@),
            },
    {
        proof {
            lemma_resolve_expr_spec(ExprView::Variable(variable@), ctx@);
        }
        transform_variable::<Resolve>(variable, ctx)
    }

    /// Resolves a plain assignment: its target, then its value. An
    /// initialised declaration is an `InvariantViolation`.
    pub fn transform_assignment(assignment: Assignment, ctx: &mut ScopeCtx) -> (r: Result<
        Stmt,
        PassError,
    >)
        ensures
            stmt_outcome(r, final(ctx)@, resolve_stmt(assignment@, old(ctx)@)),
            r is Ok ==> final(ctx)@ == old(ctx)@,
    {
        proof {
            lemma_resolve_stmt_spec(assignment@, ctx@);
        }
        match transform_assignment::<Resolve>(assignment, ctx) {
            Ok(stmts) => {
                assert(stmts_view(stmts@).len() == stmts@.len());
                assert(stmts_view(stmts@)[0] == stmts@[0]@);
                Ok(only(stmts))
            },
            Err(err) => Err(err),
        }
    }
}

} // verus!
