//! What holds of resolution: every variable of a resolved program carries
//! the scope that binds it, nothing but the scopes is changed, and the only
//! fault of a program without initialised declarations is a name that no
//! scope holds.
use vstd::prelude::*;

use super::scope_ctx::ScopeCtxView;
use super::{
    function_scope, local_params, param_names, resolve_expr, resolve_exprs, resolve_program,
    resolve_relop, resolve_stmt, resolve_stmts,
};
use crate::error::PassErrorView;
use crate::model::expressions::{ExprView, RelOpView, Scope, VariableView};
use crate::model::statements::StmtView;
use crate::passes::deinit::{stmt_is_split, stmts_are_split};

verus! {

/// Every variable in `e` carries a scope.
pub open spec fn expr_scoped(e: ExprView) -> bool
    decreases e,
{
    match e {
        ExprView::FuncCall { name, args } => exprs_scoped(args),
        ExprView::Variable(v) => v.scope is Some,
        ExprView::BinOp { op, left, right } => expr_scoped(*left) && expr_scoped(*right),
        ExprView::RelOp(r) => relop_scoped(r),
        ExprView::Number(_) => true,
    }
}

/// Every variable in `r` carries a scope.
pub open spec fn relop_scoped(r: RelOpView) -> bool
    decreases r,
{
    expr_scoped(*r.left) && expr_scoped(*r.right)
}

/// Every variable in `es` carries a scope.
pub open spec fn exprs_scoped(es: Seq<ExprView>) -> bool
    decreases es,
{
    forall|i: int| 0 <= i < es.len() ==> expr_scoped(#[trigger] es[i])
}

/// Every variable in `s` carries a scope: the parameters, the declared
/// variables, the targets of assignments and the variables in expressions.
pub open spec fn stmt_scoped(s: StmtView) -> bool
    decreases s,
{
    match s {
        StmtView::Func { name, args, body } => (forall|i: int|
            0 <= i < args.len() ==> (#[trigger] args[i]).scope is Some) && stmts_scoped(body),
        StmtView::If { condition, consequence, alternative } => relop_scoped(condition)
            && stmts_scoped(consequence) && stmts_scoped(alternative),
        StmtView::While { condition, body } => relop_scoped(condition) && stmts_scoped(body),
        StmtView::Print { value } => expr_scoped(value),
        StmtView::Return { value } => expr_scoped(value),
        StmtView::Assignment { var, value, is_decl_and_init } => var.scope is Some && expr_scoped(
            value,
        ),
        StmtView::Declaration { var } => var.scope is Some,
    }
}

/// Every variable in `ss` carries a scope.
pub open spec fn stmts_scoped(ss: Seq<StmtView>) -> bool
    decreases ss,
{
    forall|i: int| 0 <= i < ss.len() ==> stmt_scoped(#[trigger] ss[i])
}

/// A resolved expression has a scope on every variable.
proof fn lemma_resolved_expr_scoped(e: ExprView, ctx: ScopeCtxView)
    requires
        resolve_expr(e, ctx) is Ok,
    ensures
        expr_scoped(resolve_expr(e, ctx)->Ok_0),
    decreases e, 0nat,
{
    match e {
        ExprView::FuncCall { name, args } => {
            lemma_resolved_exprs_scoped(args, ctx);
        },
        ExprView::BinOp { op, left, right } => {
            lemma_resolved_expr_scoped(*left, ctx);
            lemma_resolved_expr_scoped(*right, ctx);
        },
        ExprView::RelOp(r) => {
            lemma_resolved_relop_scoped(r, ctx);
        },
        _ => {},
    }
}

proof fn lemma_resolved_relop_scoped(r: RelOpView, ctx: ScopeCtxView)
    requires
        resolve_relop(r, ctx) is Ok,
    ensures
        relop_scoped(resolve_relop(r, ctx)->Ok_0),
    decreases r, 0nat,
{
    lemma_resolved_expr_scoped(*r.left, ctx);
    lemma_resolved_expr_scoped(*r.right, ctx);
}

proof fn lemma_resolved_exprs_scoped(es: Seq<ExprView>, ctx: ScopeCtxView)
    requires
        resolve_exprs(es, ctx) is Ok,
    ensures
        exprs_scoped(resolve_exprs(es, ctx)->Ok_0),
    decreases es, 1nat,
{
    if es.len() > 0 {
        lemma_resolved_exprs_scoped(es.drop_last(), ctx);
        lemma_resolved_expr_scoped(es.last(), ctx);
    }
}

proof fn lemma_resolved_stmt_scoped(s: StmtView, ctx: ScopeCtxView)
    requires
        resolve_stmt(s, ctx) is Ok,
    ensures
        stmt_scoped(resolve_stmt(s, ctx)->Ok_0.0),
    decreases s, 0nat,
{
    match s {
        StmtView::Func { name, args, body } => {
            lemma_resolved_stmts_scoped(body, function_scope(args, ctx));
        },
        StmtView::If { condition, consequence, alternative } => {
            lemma_resolved_relop_scoped(condition, ctx);
            lemma_resolved_stmts_scoped(consequence, ctx);
            lemma_resolved_stmts_scoped(alternative, resolve_stmts(consequence, ctx)->Ok_0.1);
        },
        StmtView::While { condition, body } => {
            lemma_resolved_relop_scoped(condition, ctx);
            lemma_resolved_stmts_scoped(body, ctx);
        },
        StmtView::Print { value } => {
            lemma_resolved_expr_scoped(value, ctx);
        },
        StmtView::Return { value } => {
            lemma_resolved_expr_scoped(value, ctx);
        },
        StmtView::Assignment { var, value, is_decl_and_init } => {
            lemma_resolved_expr_scoped(value, ctx);
        },
        StmtView::Declaration { var } => {},
    }
}

/// After resolution every variable of the program carries a scope.
pub proof fn lemma_resolved_stmts_scoped(ss: Seq<StmtView>, ctx: ScopeCtxView)
    requires
        resolve_stmts(ss, ctx) is Ok,
    ensures
        stmts_scoped(resolve_stmts(ss, ctx)->Ok_0.0),
    decreases ss, 1nat,
{
    if ss.len() > 0 {
        lemma_resolved_stmts_scoped(ss.drop_last(), ctx);
        lemma_resolved_stmt_scoped(ss.last(), resolve_stmts(ss.drop_last(), ctx)->Ok_0.1);
    }
}

/// Every declaration in `s` that is not inside a function carries the tag
/// `scope`; every parameter and every declaration inside a function carries
/// `Local`.
pub open spec fn stmt_binds(s: StmtView, scope: Scope) -> bool
    decreases s,
{
    match s {
        StmtView::Func { name, args, body } => (forall|i: int|
            0 <= i < args.len() ==> (#[trigger] args[i]).scope == Some(Scope::Local))
            && stmts_bind(body, Scope::Local),
        StmtView::If { condition, consequence, alternative } => stmts_bind(consequence, scope)
            && stmts_bind(alternative, scope),
        StmtView::While { condition, body } => stmts_bind(body, scope),
        StmtView::Declaration { var } => var.scope == Some(scope),
        _ => true,
    }
}

/// The same for every statement of `ss`.
pub open spec fn stmts_bind(ss: Seq<StmtView>, scope: Scope) -> bool
    decreases ss,
{
    forall|i: int| 0 <= i < ss.len() ==> stmt_binds(#[trigger] ss[i], scope)
}

proof fn lemma_resolved_stmt_binds(s: StmtView, ctx: ScopeCtxView)
    requires
        resolve_stmt(s, ctx) is Ok,
    ensures
        stmt_binds(resolve_stmt(s, ctx)->Ok_0.0, ctx.kind()),
        resolve_stmt(s, ctx)->Ok_0.1.kind() == ctx.kind(),
    decreases s, 0nat,
{
    match s {
        StmtView::Func { name, args, body } => {
            lemma_resolved_stmts_bind(body, function_scope(args, ctx));
        },
        StmtView::If { condition, consequence, alternative } => {
            lemma_resolved_stmts_bind(consequence, ctx);
            lemma_resolved_stmts_bind(alternative, resolve_stmts(consequence, ctx)->Ok_0.1);
        },
        StmtView::While { condition, body } => {
            lemma_resolved_stmts_bind(body, ctx);
        },
        _ => {},
    }
}

/// After resolution in a scope of some kind, the declarations outside of
/// functions carry the tag of that kind, and the parameters and the
/// declarations inside functions carry `Local`. The scope keeps its kind.
pub proof fn lemma_resolved_stmts_bind(ss: Seq<StmtView>, ctx: ScopeCtxView)
    requires
        resolve_stmts(ss, ctx) is Ok,
    ensures
        stmts_bind(resolve_stmts(ss, ctx)->Ok_0.0, ctx.kind()),
        resolve_stmts(ss, ctx)->Ok_0.1.kind() == ctx.kind(),
    decreases ss, 1nat,
{
    if ss.len() > 0 {
        lemma_resolved_stmts_bind(ss.drop_last(), ctx);
        lemma_resolved_stmt_binds(ss.last(), resolve_stmts(ss.drop_last(), ctx)->Ok_0.1);
    }
}

/// A resolved program has a scope on every variable; its top-level
/// declarations carry `Global`, its parameters and the declarations inside
/// its functions `Local`.
pub proof fn lemma_resolved_program(ss: Seq<StmtView>)
    requires
        resolve_program(ss) is Ok,
    ensures
        stmts_scoped(resolve_program(ss)->Ok_0),
        stmts_bind(resolve_program(ss)->Ok_0, Scope::Global),
{
    lemma_resolved_stmts_scoped(ss, ScopeCtxView::empty_global());
    lemma_resolved_stmts_bind(ss, ScopeCtxView::empty_global());
}

/// A use of a name is tagged with what the scope finds for it, and is a
/// fault, naming it, exactly where no scope holds the name.
pub proof fn lemma_resolve_variable(v: VariableView, ctx: ScopeCtxView)
    ensures
        ctx.lookup(v.name) matches Some(scope) ==> resolve_expr(ExprView::Variable(v), ctx) == Ok::<
            ExprView,
            PassErrorView,
        >(ExprView::Variable(VariableView { name: v.name, scope: Some(scope) })),
        ctx.lookup(v.name) is None <==> resolve_expr(ExprView::Variable(v), ctx) == Err::<
            ExprView,
            PassErrorView,
        >(PassErrorView::UnresolvedVariable(v.name)),
{
}

/// A declared name is found under the tag of the scope it was declared in;
/// for any other name the declaration changes nothing.
pub proof fn lemma_declare_lookup(ctx: ScopeCtxView, name: Seq<char>, other: Seq<char>)
    ensures
        ctx.declare(name).lookup(name) == Some(ctx.kind()),
        other != name ==> ctx.declare(name).lookup(other) == ctx.lookup(other),
{
}

/// Inside a function a name is found as `Local` where it is a parameter,
/// and else as the scope around the function finds it.
pub proof fn lemma_function_scope_lookup(
    args: Seq<VariableView>,
    ctx: ScopeCtxView,
    name: Seq<char>,
)
    ensures
        function_scope(args, ctx).lookup(name) == if param_names(args).contains(name) {
            Some(Scope::Local)
        } else {
            ctx.lookup(name)
        },
{
}

/// At the top level a name is found as `Global`, or not at all.
pub proof fn lemma_global_lookup(names: Set<Seq<char>>, name: Seq<char>)
    ensures
        (ScopeCtxView::Global { names }).lookup(name) == if names.contains(name) {
            Some(Scope::Global)
        } else {
            None
        },
{
}

/// A statement that resolves holds no initialised declaration, and neither
/// does what it resolves to.
proof fn lemma_resolved_stmt_is_split(s: StmtView, ctx: ScopeCtxView)
    requires
        resolve_stmt(s, ctx) is Ok,
    ensures
        stmt_is_split(resolve_stmt(s, ctx)->Ok_0.0),
    decreases s, 0nat,
{
    match s {
        StmtView::Func { name, args, body } => {
            lemma_resolved_stmts_are_split(body, function_scope(args, ctx));
        },
        StmtView::If { condition, consequence, alternative } => {
            lemma_resolved_stmts_are_split(consequence, ctx);
            lemma_resolved_stmts_are_split(alternative, resolve_stmts(consequence, ctx)->Ok_0.1);
        },
        StmtView::While { condition, body } => {
            lemma_resolved_stmts_are_split(body, ctx);
        },
        _ => {},
    }
}

/// A resolved body holds no initialised declaration.
pub proof fn lemma_resolved_stmts_are_split(ss: Seq<StmtView>, ctx: ScopeCtxView)
    requires
        resolve_stmts(ss, ctx) is Ok,
    ensures
        stmts_are_split(resolve_stmts(ss, ctx)->Ok_0.0),
    decreases ss, 1nat,
{
    if ss.len() > 0 {
        lemma_resolved_stmts_are_split(ss.drop_last(), ctx);
        lemma_resolved_stmt_is_split(ss.last(), resolve_stmts(ss.drop_last(), ctx)->Ok_0.1);
    }
}

/// The only fault of an expression is a name that no scope holds.
pub proof fn lemma_resolve_expr_fault(e: ExprView, ctx: ScopeCtxView)
    ensures
        resolve_expr(e, ctx) matches Err(err) ==> err is UnresolvedVariable,
    decreases e, 0nat,
{
    match e {
        ExprView::FuncCall { name, args } => {
            lemma_resolve_exprs_fault(args, ctx);
        },
        ExprView::BinOp { op, left, right } => {
            lemma_resolve_expr_fault(*left, ctx);
            lemma_resolve_expr_fault(*right, ctx);
        },
        ExprView::RelOp(r) => {
            lemma_resolve_relop_fault(r, ctx);
        },
        _ => {},
    }
}

proof fn lemma_resolve_relop_fault(r: RelOpView, ctx: ScopeCtxView)
    ensures
        resolve_relop(r, ctx) matches Err(err) ==> err is UnresolvedVariable,
    decreases r, 0nat,
{
    lemma_resolve_expr_fault(*r.left, ctx);
    lemma_resolve_expr_fault(*r.right, ctx);
}

proof fn lemma_resolve_exprs_fault(es: Seq<ExprView>, ctx: ScopeCtxView)
    ensures
        resolve_exprs(es, ctx) matches Err(err) ==> err is UnresolvedVariable,
    decreases es, 1nat,
{
    if es.len() > 0 {
        lemma_resolve_exprs_fault(es.drop_last(), ctx);
        lemma_resolve_expr_fault(es.last(), ctx);
    }
}

proof fn lemma_resolve_stmt_fault(s: StmtView, ctx: ScopeCtxView)
    requires
        stmt_is_split(s),
    ensures
        resolve_stmt(s, ctx) matches Err(err) ==> err is UnresolvedVariable,
    decreases s, 0nat,
{
    match s {
        StmtView::Func { name, args, body } => {
            lemma_resolve_stmts_fault(body, function_scope(args, ctx));
        },
        StmtView::If { condition, consequence, alternative } => {
            lemma_resolve_relop_fault(condition, ctx);
            lemma_resolve_stmts_fault(consequence, ctx);
            match resolve_stmts(consequence, ctx) {
                Ok((_, after)) => {
                    lemma_resolve_stmts_fault(alternative, after);
                },
                Err(_) => {},
            }
        },
        StmtView::While { condition, body } => {
            lemma_resolve_relop_fault(condition, ctx);
            lemma_resolve_stmts_fault(body, ctx);
        },
        StmtView::Print { value } => {
            lemma_resolve_expr_fault(value, ctx);
        },
        StmtView::Return { value } => {
            lemma_resolve_expr_fault(value, ctx);
        },
        StmtView::Assignment { var, value, is_decl_and_init } => {
            lemma_resolve_expr_fault(value, ctx);
        },
        StmtView::Declaration { var } => {},
    }
}

/// Where every initialised declaration has been split, the only fault of
/// resolution is a name that no scope holds.
pub proof fn lemma_resolve_stmts_fault(ss: Seq<StmtView>, ctx: ScopeCtxView)
    requires
        stmts_are_split(ss),
    ensures
        resolve_stmts(ss, ctx) matches Err(err) ==> err is UnresolvedVariable,
    decreases ss, 1nat,
{
    if ss.len() > 0 {
        assert forall|i: int| 0 <= i < ss.drop_last().len() implies stmt_is_split(
            #[trigger] ss.drop_last()[i],
        ) by {
            assert(ss.drop_last()[i] == ss[i]);
        }
        lemma_resolve_stmts_fault(ss.drop_last(), ctx);
        match resolve_stmts(ss.drop_last(), ctx) {
            Ok((_, after)) => {
                lemma_resolve_stmt_fault(ss.last(), after);
            },
            Err(_) => {},
        }
    }
}

/// A variable without its scope.
pub open spec fn bare_variable(v: VariableView) -> VariableView {
    VariableView { name: v.name, scope: None }
}

/// An expression without the scopes of its variables.
pub open spec fn bare_expr(e: ExprView) -> ExprView
    decreases e,
{
    match e {
        ExprView::FuncCall { name, args } => ExprView::FuncCall { name, args: bare_exprs(args) },
        ExprView::Variable(v) => ExprView::Variable(bare_variable(v)),
        ExprView::BinOp { op, left, right } => ExprView::BinOp {
            op,
            left: Box::new(bare_expr(*left)),
            right: Box::new(bare_expr(*right)),
        },
        ExprView::RelOp(r) => ExprView::RelOp(bare_relop(r)),
        ExprView::Number(_) => e,
    }
}

/// A comparison without the scopes of its variables.
pub open spec fn bare_relop(r: RelOpView) -> RelOpView
    decreases r,
{
    RelOpView { op: r.op, left: Box::new(bare_expr(*r.left)), right: Box::new(bare_expr(*r.right)) }
}

/// A list of expressions without the scopes of their variables.
pub open spec fn bare_exprs(es: Seq<ExprView>) -> Seq<ExprView>
    decreases es,
{
    Seq::new(
        es.len(),
        |i: int|
            if 0 <= i < es.len() {
                bare_expr(es[i])
            } else {
                arbitrary()
            },
    )
}

/// A parameter list without the scopes of its variables.
pub open spec fn bare_params(vs: Seq<VariableView>) -> Seq<VariableView> {
    Seq::new(vs.len(), |i: int| bare_variable(vs[i]))
}

/// A statement without the scopes of its variables.
pub open spec fn bare_stmt(s: StmtView) -> StmtView
    decreases s,
{
    match s {
        StmtView::Func { name, args, body } => StmtView::Func {
            name,
            args: bare_params(args),
            body: bare_stmts(body),
        },
        StmtView::If { condition, consequence, alternative } => StmtView::If {
            condition: bare_relop(condition),
            consequence: bare_stmts(consequence),
            alternative: bare_stmts(alternative),
        },
        StmtView::While { condition, body } => StmtView::While {
            condition: bare_relop(condition),
            body: bare_stmts(body),
        },
        StmtView::Print { value } => StmtView::Print { value: bare_expr(value) },
        StmtView::Return { value } => StmtView::Return { value: bare_expr(value) },
        StmtView::Assignment { var, value, is_decl_and_init } => StmtView::Assignment {
            var: bare_variable(var),
            value: bare_expr(value),
            is_decl_and_init,
        },
        StmtView::Declaration { var } => StmtView::Declaration { var: bare_variable(var) },
    }
}

/// A body without the scopes of its variables.
pub open spec fn bare_stmts(ss: Seq<StmtView>) -> Seq<StmtView>
    decreases ss,
{
    Seq::new(
        ss.len(),
        |i: int|
            if 0 <= i < ss.len() {
                bare_stmt(ss[i])
            } else {
                arbitrary()
            },
    )
}

/// Resolution changes nothing of an expression but the scopes of its
/// variables.
pub proof fn lemma_resolve_expr_keeps_shape(e: ExprView, ctx: ScopeCtxView)
    requires
        resolve_expr(e, ctx) is Ok,
    ensures
        bare_expr(resolve_expr(e, ctx)->Ok_0) == bare_expr(e),
    decreases e, 0nat,
{
    match e {
        ExprView::FuncCall { name, args } => {
            lemma_resolve_exprs_keep_shape(args, ctx);
        },
        ExprView::BinOp { op, left, right } => {
            lemma_resolve_expr_keeps_shape(*left, ctx);
            lemma_resolve_expr_keeps_shape(*right, ctx);
        },
        ExprView::RelOp(r) => {
            lemma_resolve_relop_keeps_shape(r, ctx);
        },
        _ => {},
    }
}

proof fn lemma_resolve_relop_keeps_shape(r: RelOpView, ctx: ScopeCtxView)
    requires
        resolve_relop(r, ctx) is Ok,
    ensures
        bare_relop(resolve_relop(r, ctx)->Ok_0) == bare_relop(r),
    decreases r, 0nat,
{
    lemma_resolve_expr_keeps_shape(*r.left, ctx);
    lemma_resolve_expr_keeps_shape(*r.right, ctx);
}

proof fn lemma_resolve_exprs_keep_shape(es: Seq<ExprView>, ctx: ScopeCtxView)
    requires
        resolve_exprs(es, ctx) is Ok,
    ensures
        bare_exprs(resolve_exprs(es, ctx)->Ok_0) == bare_exprs(es),
    decreases es, 1nat,
{
    if es.len() == 0 {
        assert(bare_exprs(Seq::<ExprView>::empty()) =~= bare_exprs(es));
    } else {
        lemma_resolve_exprs_keep_shape(es.drop_last(), ctx);
        lemma_resolve_expr_keeps_shape(es.last(), ctx);
        let init = resolve_exprs(es.drop_last(), ctx)->Ok_0;
        let last = resolve_expr(es.last(), ctx)->Ok_0;
        assert(bare_exprs(init.push(last)) =~= bare_exprs(init).push(bare_expr(last)));
        assert(bare_exprs(es) =~= bare_exprs(es.drop_last()).push(bare_expr(es.last())));
    }
}

proof fn lemma_resolve_stmt_keeps_shape(s: StmtView, ctx: ScopeCtxView)
    requires
        resolve_stmt(s, ctx) is Ok,
    ensures
        bare_stmt(resolve_stmt(s, ctx)->Ok_0.0) == bare_stmt(s),
    decreases s, 0nat,
{
    match s {
        StmtView::Func { name, args, body } => {
            lemma_resolve_stmts_keep_shape(body, function_scope(args, ctx));
            assert(bare_params(local_params(args)) =~= bare_params(args));
        },
        StmtView::If { condition, consequence, alternative } => {
            lemma_resolve_relop_keeps_shape(condition, ctx);
            lemma_resolve_stmts_keep_shape(consequence, ctx);
            lemma_resolve_stmts_keep_shape(alternative, resolve_stmts(consequence, ctx)->Ok_0.1);
        },
        StmtView::While { condition, body } => {
            lemma_resolve_relop_keeps_shape(condition, ctx);
            lemma_resolve_stmts_keep_shape(body, ctx);
        },
        StmtView::Print { value } => {
            lemma_resolve_expr_keeps_shape(value, ctx);
        },
        StmtView::Return { value } => {
            lemma_resolve_expr_keeps_shape(value, ctx);
        },
        StmtView::Assignment { var, value, is_decl_and_init } => {
            lemma_resolve_expr_keeps_shape(value, ctx);
        },
        StmtView::Declaration { var } => {},
    }
}

/// Resolution changes nothing of a program but the scopes of its variables:
/// no statement is added, dropped or moved, and no name is changed.
pub proof fn lemma_resolve_stmts_keep_shape(ss: Seq<StmtView>, ctx: ScopeCtxView)
    requires
        resolve_stmts(ss, ctx) is Ok,
    ensures
        bare_stmts(resolve_stmts(ss, ctx)->Ok_0.0) == bare_stmts(ss),
    decreases ss, 1nat,
{
    if ss.len() == 0 {
        assert(bare_stmts(Seq::<StmtView>::empty()) =~= bare_stmts(ss));
    } else {
        lemma_resolve_stmts_keep_shape(ss.drop_last(), ctx);
        let init = resolve_stmts(ss.drop_last(), ctx)->Ok_0;
        lemma_resolve_stmt_keeps_shape(ss.last(), init.1);
        let last = resolve_stmt(ss.last(), init.1)->Ok_0.0;
        assert(bare_stmts(init.0.push(last)) =~= bare_stmts(init.0).push(bare_stmt(last)));
        assert(bare_stmts(ss) =~= bare_stmts(ss.drop_last()).push(bare_stmt(ss.last())));
    }
}

} // verus!
