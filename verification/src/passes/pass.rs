//! A generic rewrite of the syntax tree.
//!
//! The traversal is written once, in the `transform_*` functions: it visits
//! every node exactly once, siblings from left to right, and rebuilds each node
//! from its rewritten children. A pass is a set of rules, the methods of
//! [`Pass`], that the traversal applies where a pass may differ from a plain
//! rebuild. A rule never walks the tree itself, so a traversal ends whatever
//! the rules are.
//!
//! What a traversal computes is given by the `*_spec` functions of this
//! module, over the views of the trees and of the context.
use vstd::prelude::*;

use crate::error::{PassError, PassErrorView};
use crate::model::expressions::{
    exprs_view, BinOp, Expr, ExprView, FuncCall, Number, RelOp, RelOpView, Variable, VariableView,
};
use crate::model::statements::{
    lemma_stmts_view_concat, stmts_view, vars_view, Assignment, Declaration, Func, If, Print,
    Return, Stmt, StmtView, While,
};
use crate::model::Program;

verus! {

/// The view of the context that a pass threads through a traversal.
pub type Ctx<P> = <<P as Pass>::Context as View>::V;

/// What a step of a traversal yields: a rewritten piece of the tree with the
/// context after the step, or the fault that ended the traversal.
pub type Step<T, P> = Result<(T, Ctx<P>), PassErrorView>;

/// The rules of a pass. Each rule has a spec function, which says what the
/// rule does, and an executable method that does it. The spec functions'
/// defaults are those of a pass that changes nothing.
pub trait Pass: Sized {
    /// The state that the pass carries along the traversal.
    type Context: View;

    /// The context at the start of a traversal. A pass with a context to
    /// speak of says which it is.
    open spec fn initial_context() -> Ctx<Self> {
        arbitrary()
    }

    /// The context for the parameters and the body of a function that is
    /// defined under `ctx`. What the body does to it is not seen outside.
    open spec fn function_context(args: Seq<VariableView>, ctx: Ctx<Self>) -> Ctx<Self> {
        ctx
    }

    /// What becomes of an expression node whose operands have been rewritten.
    /// Comparisons are not offered: they are always rebuilt as they are.
    open spec fn expr_rule(node: ExprView, ctx: Ctx<Self>) -> Step<ExprView, Self> {
        Ok((node, ctx))
    }

    /// What becomes of the target of an assignment. It is asked before the
    /// assigned value is rewritten.
    open spec fn target_rule(var: VariableView, is_decl_and_init: bool, ctx: Ctx<Self>) -> Step<
        VariableView,
        Self,
    > {
        Ok((var, ctx))
    }

    /// The statements that take the place of a statement whose parts have been
    /// rewritten.
    open spec fn stmt_rule(node: StmtView, ctx: Ctx<Self>) -> Step<Seq<StmtView>, Self> {
        Ok((seq![node], ctx))
    }

    /// What becomes of the rewritten top level as a whole.
    open spec fn program_rule(stmts: Seq<StmtView>) -> Seq<StmtView> {
        stmts
    }

    /// The context that a traversal starts with.
    fn get_context() -> (ctx: Self::Context)
        ensures
            ctx@ == Self::initial_context(),
    ;

    /// The context for the parameters and the body of a function.
    fn enter_function(args: &Vec<Variable>, ctx: &Self::Context) -> (body_ctx: Self::Context)
        ensures
            body_ctx@ == Self::function_context(vars_view(args@), ctx@),
    ;

    /// Rewrites an expression node of which the operands have been rewritten.
    fn rewrite_expr(node: Expr, ctx: &mut Self::Context) -> (r: Result<Expr, PassError>)
        ensures
            expr_outcome(r, final(ctx)@, Self::expr_rule(node@, old(ctx)@)),
    ;

    /// Rewrites the target of an assignment.
    fn rewrite_target(var: Variable, is_decl_and_init: bool, ctx: &mut Self::Context) -> (r: Result<
        Variable,
        PassError,
    >)
        ensures
            var_outcome(r, final(ctx)@, Self::target_rule(var@, is_decl_and_init, old(ctx)@)),
    ;

    /// Rewrites a statement of which the parts have been rewritten.
    fn rewrite_stmt(node: Stmt, ctx: &mut Self::Context) -> (r: Result<Vec<Stmt>, PassError>)
        ensures
            stmts_outcome(r, final(ctx)@, Self::stmt_rule(node@, old(ctx)@)),
    ;

    /// Rewrites the top level as a whole.
    fn rewrite_program(stmts: Vec<Stmt>) -> (r: Vec<Stmt>)
        ensures
            stmts_view(r@) == Self::program_rule(stmts_view(stmts@)),
    ;
}

/// `r`, with the context `after` it, is what `model` says.
pub open spec fn expr_outcome<C>(
    r: Result<Expr, PassError>,
    after: C,
    model: Result<(ExprView, C), PassErrorView>,
) -> bool {
    match r {
        Ok(e) => model == Ok::<(ExprView, C), PassErrorView>((e@, after)),
        Err(err) => model == Err::<(ExprView, C), PassErrorView>(err@),
    }
}

/// `r`, with the context `after` it, is what `model` says.
pub open spec fn relop_outcome<C>(
    r: Result<RelOp, PassError>,
    after: C,
    model: Result<(RelOpView, C), PassErrorView>,
) -> bool {
    match r {
        Ok(e) => model == Ok::<(RelOpView, C), PassErrorView>((e@, after)),
        Err(err) => model == Err::<(RelOpView, C), PassErrorView>(err@),
    }
}

/// `r`, with the context `after` it, is what `model` says.
pub open spec fn var_outcome<C>(
    r: Result<Variable, PassError>,
    after: C,
    model: Result<(VariableView, C), PassErrorView>,
) -> bool {
    match r {
        Ok(v) => model == Ok::<(VariableView, C), PassErrorView>((v@, after)),
        Err(err) => model == Err::<(VariableView, C), PassErrorView>(err@),
    }
}

/// `r`, with the context `after` it, is what `model` says.
pub open spec fn exprs_outcome<C>(
    r: Result<Vec<Expr>, PassError>,
    after: C,
    model: Result<(Seq<ExprView>, C), PassErrorView>,
) -> bool {
    match r {
        Ok(es) => model == Ok::<(Seq<ExprView>, C), PassErrorView>((exprs_view(es@), after)),
        Err(err) => model == Err::<(Seq<ExprView>, C), PassErrorView>(err@),
    }
}

/// `r`, with the context `after` it, is what `model` says.
pub open spec fn vars_outcome<C>(
    r: Result<Vec<Variable>, PassError>,
    after: C,
    model: Result<(Seq<VariableView>, C), PassErrorView>,
) -> bool {
    match r {
        Ok(vs) => model == Ok::<(Seq<VariableView>, C), PassErrorView>((vars_view(vs@), after)),
        Err(err) => model == Err::<(Seq<VariableView>, C), PassErrorView>(err@),
    }
}

/// `r`, with the context `after` it, is what `model` says.
pub open spec fn stmts_outcome<C>(
    r: Result<Vec<Stmt>, PassError>,
    after: C,
    model: Result<(Seq<StmtView>, C), PassErrorView>,
) -> bool {
    match r {
        Ok(ss) => model == Ok::<(Seq<StmtView>, C), PassErrorView>((stmts_view(ss@), after)),
        Err(err) => model == Err::<(Seq<StmtView>, C), PassErrorView>(err@),
    }
}

/// `r` is what `model` says.
pub open spec fn program_outcome(
    r: Result<Program, PassError>,
    model: Result<Seq<StmtView>, PassErrorView>,
) -> bool {
    match r {
        Ok(p) => model == Ok::<Seq<StmtView>, PassErrorView>(p@),
        Err(err) => model == Err::<Seq<StmtView>, PassErrorView>(err@),
    }
}

/// The rewrite of an expression: its operands first, from left to right, then
/// the node itself by the pass's rule.
pub open spec fn expr_spec<P: Pass>(e: ExprView, ctx: Ctx<P>) -> Step<ExprView, P>
    decreases e,
{
    match e {
        ExprView::FuncCall { name, args } => match exprs_spec::<P>(args, ctx) {
            Ok((args, ctx)) => P::expr_rule(ExprView::FuncCall { name, args }, ctx),
            Err(err) => Err(err),
        },
        ExprView::Variable(_) => P::expr_rule(e, ctx),
        ExprView::BinOp { op, left, right } => match expr_spec::<P>(*left, ctx) {
            Ok((left, ctx)) => match expr_spec::<P>(*right, ctx) {
                Ok((right, ctx)) => P::expr_rule(
                    ExprView::BinOp { op, left: Box::new(left), right: Box::new(right) },
                    ctx,
                ),
                Err(err) => Err(err),
            },
            Err(err) => Err(err),
        },
        ExprView::RelOp(r) => match relop_spec::<P>(r, ctx) {
            Ok((r, ctx)) => Ok((ExprView::RelOp(r), ctx)),
            Err(err) => Err(err),
        },
        ExprView::Number(_) => P::expr_rule(e, ctx),
    }
}

/// The rewrite of a comparison: both operands, the node as it is.
pub open spec fn relop_spec<P: Pass>(r: RelOpView, ctx: Ctx<P>) -> Step<RelOpView, P>
    decreases r,
{
    match expr_spec::<P>(*r.left, ctx) {
        Ok((left, ctx)) => match expr_spec::<P>(*r.right, ctx) {
            Ok((right, ctx)) => Ok(
                (RelOpView { op: r.op, left: Box::new(left), right: Box::new(right) }, ctx),
            ),
            Err(err) => Err(err),
        },
        Err(err) => Err(err),
    }
}

/// The rewrite of a list of expressions, from left to right.
pub open spec fn exprs_spec<P: Pass>(es: Seq<ExprView>, ctx: Ctx<P>) -> Step<Seq<ExprView>, P>
    decreases es,
{
    if es.len() == 0 {
        Ok((Seq::empty(), ctx))
    } else {
        match exprs_spec::<P>(es.drop_last(), ctx) {
            Ok((init, ctx)) => match expr_spec::<P>(es.last(), ctx) {
                Ok((e, ctx)) => Ok((init.push(e), ctx)),
                Err(err) => Err(err),
            },
            Err(err) => Err(err),
        }
    }
}

/// The rewrite of one parameter: by the rule for expressions, which has to
/// leave a variable where a variable was.
pub open spec fn param_spec<P: Pass>(v: VariableView, ctx: Ctx<P>) -> Step<VariableView, P> {
    match P::expr_rule(ExprView::Variable(v), ctx) {
        Ok((ExprView::Variable(v), ctx)) => Ok((v, ctx)),
        Ok(_) => Err(PassErrorView::InvariantViolation),
        Err(err) => Err(err),
    }
}

/// The rewrite of a parameter list, from left to right.
pub open spec fn params_spec<P: Pass>(vs: Seq<VariableView>, ctx: Ctx<P>) -> Step<
    Seq<VariableView>,
    P,
>
    decreases vs.len(),
{
    if vs.len() == 0 {
        Ok((Seq::empty(), ctx))
    } else {
        match params_spec::<P>(vs.drop_last(), ctx) {
            Ok((init, ctx)) => match param_spec::<P>(vs.last(), ctx) {
                Ok((v, ctx)) => Ok((init.push(v), ctx)),
                Err(err) => Err(err),
            },
            Err(err) => Err(err),
        }
    }
}

/// The rewrite of a statement: its parts first, in source order, then the
/// node itself by the pass's rule, which may put several statements in its
/// place. A function's parameters and body are rewritten under a context of
/// their own; the function node itself under the context around it.
pub open spec fn stmt_spec<P: Pass>(s: StmtView, ctx: Ctx<P>) -> Step<Seq<StmtView>, P>
    decreases s,
{
    match s {
        StmtView::Func { name, args, body } => match params_spec::<P>(
            args,
            P::function_context(args, ctx),
        ) {
            Ok((args, body_ctx)) => match stmts_spec::<P>(body, body_ctx) {
                Ok((body, _)) => P::stmt_rule(StmtView::Func { name, args, body }, ctx),
                Err(err) => Err(err),
            },
            Err(err) => Err(err),
        },
        StmtView::If { condition, consequence, alternative } => match relop_spec::<P>(
            condition,
            ctx,
        ) {
            Ok((condition, ctx)) => match stmts_spec::<P>(consequence, ctx) {
                Ok((consequence, ctx)) => match stmts_spec::<P>(alternative, ctx) {
                    Ok((alternative, ctx)) => P::stmt_rule(
                        StmtView::If { condition, consequence, alternative },
                        ctx,
                    ),
                    Err(err) => Err(err),
                },
                Err(err) => Err(err),
            },
            Err(err) => Err(err),
        },
        StmtView::While { condition, body } => match relop_spec::<P>(condition, ctx) {
            Ok((condition, ctx)) => match stmts_spec::<P>(body, ctx) {
                Ok((body, ctx)) => P::stmt_rule(StmtView::While { condition, body }, ctx),
                Err(err) => Err(err),
            },
            Err(err) => Err(err),
        },
        StmtView::Print { value } => match expr_spec::<P>(value, ctx) {
            Ok((value, ctx)) => P::stmt_rule(StmtView::Print { value }, ctx),
            Err(err) => Err(err),
        },
        StmtView::Return { value } => match expr_spec::<P>(value, ctx) {
            Ok((value, ctx)) => P::stmt_rule(StmtView::Return { value }, ctx),
            Err(err) => Err(err),
        },
        StmtView::Assignment { var, value, is_decl_and_init } => match P::target_rule(
            var,
            is_decl_and_init,
            ctx,
        ) {
            Ok((var, ctx)) => match expr_spec::<P>(value, ctx) {
                Ok((value, ctx)) => P::stmt_rule(
                    StmtView::Assignment { var, value, is_decl_and_init },
                    ctx,
                ),
                Err(err) => Err(err),
            },
            Err(err) => Err(err),
        },
        StmtView::Declaration { var } => P::stmt_rule(s, ctx),
    }
}

/// The rewrite of a body: its statements from left to right, each replaced by
/// what it is rewritten to.
pub open spec fn stmts_spec<P: Pass>(ss: Seq<StmtView>, ctx: Ctx<P>) -> Step<Seq<StmtView>, P>
    decreases ss,
{
    if ss.len() == 0 {
        Ok((Seq::empty(), ctx))
    } else {
        match stmts_spec::<P>(ss.drop_last(), ctx) {
            Ok((init, ctx)) => match stmt_spec::<P>(ss.last(), ctx) {
                Ok((out, ctx)) => Ok((init + out, ctx)),
                Err(err) => Err(err),
            },
            Err(err) => Err(err),
        }
    }
}

/// The rewrite of a program: its top level as a body under the initial
/// context, then the pass's rule for the whole.
pub open spec fn program_spec<P: Pass>(stmts: Seq<StmtView>) -> Result<
    Seq<StmtView>,
    PassErrorView,
> {
    match stmts_spec::<P>(stmts, P::initial_context()) {
        Ok((out, _)) => Ok(P::program_rule(out)),
        Err(err) => Err(err),
    }
}

/// One more expression at the end of a list is one more step of the rewrite.
pub proof fn lemma_exprs_spec_step<P: Pass>(es: Seq<ExprView>, i: int, ctx: Ctx<P>)
    requires
        0 <= i < es.len(),
    ensures
        exprs_spec::<P>(es.take(i + 1), ctx) == match exprs_spec::<P>(es.take(i), ctx) {
            Ok((init, c)) => match expr_spec::<P>(es[i], c) {
                Ok((e, c)) => Ok::<(Seq<ExprView>, Ctx<P>), PassErrorView>((init.push(e), c)),
                Err(err) => Err(err),
            },
            Err(err) => Err(err),
        },
{
    assert(es.take(i + 1).drop_last() =~= es.take(i));
}

/// A fault in a prefix of a list is the fault of the whole list.
pub proof fn lemma_exprs_spec_fault<P: Pass>(es: Seq<ExprView>, i: int, ctx: Ctx<P>)
    requires
        0 <= i <= es.len(),
        exprs_spec::<P>(es.take(i), ctx) is Err,
    ensures
        exprs_spec::<P>(es, ctx) == exprs_spec::<P>(es.take(i), ctx),
    decreases es.len() - i,
{
    if i == es.len() {
        assert(es.take(i) =~= es);
    } else {
        lemma_exprs_spec_step::<P>(es, i, ctx);
        lemma_exprs_spec_fault::<P>(es, i + 1, ctx);
    }
}

/// One more parameter at the end of a list is one more step of the rewrite.
pub proof fn lemma_params_spec_step<P: Pass>(vs: Seq<VariableView>, i: int, ctx: Ctx<P>)
    requires
        0 <= i < vs.len(),
    ensures
        params_spec::<P>(vs.take(i + 1), ctx) == match params_spec::<P>(vs.take(i), ctx) {
            Ok((init, c)) => match param_spec::<P>(vs[i], c) {
                Ok((v, c)) => Ok::<(Seq<VariableView>, Ctx<P>), PassErrorView>((init.push(v), c)),
                Err(err) => Err(err),
            },
            Err(err) => Err(err),
        },
{
    assert(vs.take(i + 1).drop_last() =~= vs.take(i));
}

/// A fault in a prefix of a parameter list is the fault of the whole list.
pub proof fn lemma_params_spec_fault<P: Pass>(vs: Seq<VariableView>, i: int, ctx: Ctx<P>)
    requires
        0 <= i <= vs.len(),
        params_spec::<P>(vs.take(i), ctx) is Err,
    ensures
        params_spec::<P>(vs, ctx) == params_spec::<P>(vs.take(i), ctx),
    decreases vs.len() - i,
{
    if i == vs.len() {
        assert(vs.take(i) =~= vs);
    } else {
        lemma_params_spec_step::<P>(vs, i, ctx);
        lemma_params_spec_fault::<P>(vs, i + 1, ctx);
    }
}

/// One more statement at the end of a body is one more step of the rewrite.
pub proof fn lemma_stmts_spec_step<P: Pass>(ss: Seq<StmtView>, i: int, ctx: Ctx<P>)
    requires
        0 <= i < ss.len(),
    ensures
        stmts_spec::<P>(ss.take(i + 1), ctx) == match stmts_spec::<P>(ss.take(i), ctx) {
            Ok((init, c)) => match stmt_spec::<P>(ss[i], c) {
                Ok((out, c)) => Ok::<(Seq<StmtView>, Ctx<P>), PassErrorView>((init + out, c)),
                Err(err) => Err(err),
            },
            Err(err) => Err(err),
        },
{
    assert(ss.take(i + 1).drop_last() =~= ss.take(i));
}

/// A fault in a prefix of a body is the fault of the whole body.
pub proof fn lemma_stmts_spec_fault<P: Pass>(ss: Seq<StmtView>, i: int, ctx: Ctx<P>)
    requires
        0 <= i <= ss.len(),
        stmts_spec::<P>(ss.take(i), ctx) is Err,
    ensures
        stmts_spec::<P>(ss, ctx) == stmts_spec::<P>(ss.take(i), ctx),
    decreases ss.len() - i,
{
    if i == ss.len() {
        assert(ss.take(i) =~= ss);
    } else {
        lemma_stmts_spec_step::<P>(ss, i, ctx);
        lemma_stmts_spec_fault::<P>(ss, i + 1, ctx);
    }
}

/// Rewrites a program by the rules of `P`.
pub fn transform_program<P: Pass>(program: Program) -> (r: Result<Program, PassError>)
    ensures
        program_outcome(r, program_spec::<P>(program@)),
{
    let mut ctx = P::get_context();
    match transform_stmts_body::<P>(program.stmts, &mut ctx) {
        Ok(stmts) => Ok(Program { stmts: P::rewrite_program(stmts) }),
        Err(err) => Err(err),
    }
}

/// Rewrites a body: its statements from left to right.
pub fn transform_stmts_body<P: Pass>(stmts: Vec<Stmt>, ctx: &mut P::Context) -> (r: Result<
    Vec<Stmt>,
    PassError,
>)
    ensures
        stmts_outcome(r, final(ctx)@, stmts_spec::<P>(stmts_view(stmts@), old(ctx)@)),
    decreases stmts,
{
    let ghost ctx0 = ctx@;
    let ghost ss = stmts_view(stmts@);
    let mut out: Vec<Stmt> = Vec::new();
    assert(ss.take(0) =~= Seq::empty());
    assert(stmts_view(out@) =~= Seq::empty());
    for stmt in it: stmts
        invariant
            it.seq() == stmts@,
            ss == stmts_view(stmts@),
            ctx0 == old(ctx)@,
            stmts_spec::<P>(ss.take(it.index() as int), ctx0) == Ok::<
                (Seq<StmtView>, Ctx<P>),
                PassErrorView,
            >((stmts_view(out@), ctx@)),
    {
        let ghost i = it.index() as int;
        let ghost before = out@;
        proof {
            lemma_stmts_spec_step::<P>(ss, i, ctx0);
        }
        match transform_stmt::<P>(stmt, ctx) {
            Ok(mut more) => {
                let ghost added = more@;
                out.append(&mut more);
                proof {
                    lemma_stmts_view_concat(before, added);
                }
            },
            Err(err) => {
                proof {
                    lemma_stmts_spec_fault::<P>(ss, i + 1, ctx0);
                }
                return Err(err);
            },
        }
    }
    assert(ss.take(ss.len() as int) =~= ss);
    Ok(out)
}

/// Rewrites a statement, by its kind.
pub fn transform_stmt<P: Pass>(stmt: Stmt, ctx: &mut P::Context) -> (r: Result<
    Vec<Stmt>,
    PassError,
>)
    ensures
        stmts_outcome(r, final(ctx)@, stmt_spec::<P>(stmt@, old(ctx)@)),
    decreases stmt,
{
    match stmt {
        Stmt::Func(func) => transform_func::<P>(func, ctx),
        Stmt::If(branch) => transform_if::<P>(branch, ctx),
        Stmt::While(repeat) => transform_while::<P>(repeat, ctx),
        Stmt::Print(print) => transform_print::<P>(print, ctx),
        Stmt::Assignment(assignment) => transform_assignment::<P>(assignment, ctx),
        Stmt::Declaration(declaration) => transform_declaration::<P>(declaration, ctx),
        Stmt::Return(ret) => transform_return::<P>(ret, ctx),
    }
}

/// Rewrites an expression, by its kind.
pub fn transform_expr<P: Pass>(expr: Expr, ctx: &mut P::Context) -> (r: Result<Expr, PassError>)
    ensures
        expr_outcome(r, final(ctx)@, expr_spec::<P>(expr@, old(ctx)@)),
    decreases expr,
{
    match expr {
        Expr::FuncCall(func_call) => transform_func_call::<P>(func_call, ctx),
        Expr::Variable(variable) => transform_variable::<P>(variable, ctx),
        Expr::BinOp(binop) => transform_binop::<P>(binop, ctx),
        Expr::RelOp(relop) => match transform_relop::<P>(relop, ctx) {
            Ok(relop) => Ok(Expr::RelOp(relop)),
            Err(err) => Err(err),
        },
        Expr::Number(number) => transform_number::<P>(number, ctx),
    }
}

/// Rewrites a parameter list under the context of the function's body. A rule
/// that puts anything but a variable in a parameter's place is a fault.
pub fn transform_params<P: Pass>(args: Vec<Variable>, ctx: &mut P::Context) -> (r: Result<
    Vec<Variable>,
    PassError,
>)
    ensures
        vars_outcome(r, final(ctx)@, params_spec::<P>(vars_view(args@), old(ctx)@)),
{
    let ghost ctx0 = ctx@;
    let ghost vs = vars_view(args@);
    let mut out: Vec<Variable> = Vec::new();
    assert(vs.take(0) =~= Seq::empty());
    assert(vars_view(out@) =~= Seq::empty());
    for arg in it: args
        invariant
            it.seq() == args@,
            vs == vars_view(args@),
            ctx0 == old(ctx)@,
            params_spec::<P>(vs.take(it.index() as int), ctx0) == Ok::<
                (Seq<VariableView>, Ctx<P>),
                PassErrorView,
            >((vars_view(out@), ctx@)),
    {
        let ghost i = it.index() as int;
        let ghost before = out@;
        proof {
            lemma_params_spec_step::<P>(vs, i, ctx0);
        }
        match P::rewrite_expr(Expr::Variable(arg), ctx) {
            Ok(Expr::Variable(v)) => {
                out.push(v);
                assert(vars_view(out@) =~= vars_view(before).push(v@));
            },
            Ok(_) => {
                proof {
                    lemma_params_spec_fault::<P>(vs, i + 1, ctx0);
                }
                return Err(PassError::InvariantViolation);
            },
            Err(err) => {
                proof {
                    lemma_params_spec_fault::<P>(vs, i + 1, ctx0);
                }
                return Err(err);
            },
        }
    }
    assert(vs.take(vs.len() as int) =~= vs);
    Ok(out)
}

/// Rewrites a function: its parameters and its body under a context of their
/// own, then the function itself by the pass's rule.
pub fn transform_func<P: Pass>(func: Func, ctx: &mut P::Context) -> (r: Result<
    Vec<Stmt>,
    PassError,
>)
    ensures
        stmts_outcome(r, final(ctx)@, stmt_spec::<P>(func@, old(ctx)@)),
    decreases func,
{
    let mut body_ctx = P::enter_function(&func.args, ctx);
    let Func { name, args, body } = func;
    let args = match transform_params::<P>(args, &mut body_ctx) {
        Ok(args) => args,
        Err(err) => {
            return Err(err);
        },
    };
    let body = match transform_stmts_body::<P>(body, &mut body_ctx) {
        Ok(body) => body,
        Err(err) => {
            return Err(err);
        },
    };
    P::rewrite_stmt(Stmt::Func(Func { name, args, body }), ctx)
}

/// Rewrites a loop: its condition, its body, then the loop itself by the
/// pass's rule.
pub fn transform_while<P: Pass>(repeat: While, ctx: &mut P::Context) -> (r: Result<
    Vec<Stmt>,
    PassError,
>)
    ensures
        stmts_outcome(r, final(ctx)@, stmt_spec::<P>(repeat@, old(ctx)@)),
    decreases repeat,
{
    let While { condition, body } = repeat;
    let condition = match transform_relop::<P>(condition, ctx) {
        Ok(condition) => condition,
        Err(err) => {
            return Err(err);
        },
    };
    let body = match transform_stmts_body::<P>(body, ctx) {
        Ok(body) => body,
        Err(err) => {
            return Err(err);
        },
    };
    P::rewrite_stmt(Stmt::While(While { condition, body }), ctx)
}

/// Rewrites a conditional: its condition, its two branches, then the
/// conditional itself by the pass's rule.
pub fn transform_if<P: Pass>(branch: If, ctx: &mut P::Context) -> (r: Result<Vec<Stmt>, PassError>)
    ensures
        stmts_outcome(r, final(ctx)@, stmt_spec::<P>(branch@, old(ctx)@)),
    decreases branch,
{
    let If { condition, consequence, alternative } = branch;
    let condition = match transform_relop::<P>(condition, ctx) {
        Ok(condition) => condition,
        Err(err) => {
            return Err(err);
        },
    };
    let consequence = match transform_stmts_body::<P>(consequence, ctx) {
        Ok(consequence) => consequence,
        Err(err) => {
            return Err(err);
        },
    };
    let alternative = match transform_stmts_body::<P>(alternative, ctx) {
        Ok(alternative) => alternative,
        Err(err) => {
            return Err(err);
        },
    };
    P::rewrite_stmt(Stmt::If(If { condition, consequence, alternative }), ctx)
}

/// Rewrites a print statement: its value, then the statement by the pass's
/// rule.
pub fn transform_print<P: Pass>(print: Print, ctx: &mut P::Context) -> (r: Result<
    Vec<Stmt>,
    PassError,
>)
    ensures
        stmts_outcome(r, final(ctx)@, stmt_spec::<P>(print@, old(ctx)@)),
    decreases print,
{
    match transform_expr::<P>(print.value, ctx) {
        Ok(value) => P::rewrite_stmt(Stmt::Print(Print { value }), ctx),
        Err(err) => Err(err),
    }
}

/// Rewrites a return statement: its value, then the statement by the pass's
/// rule.
pub fn transform_return<P: Pass>(ret: Return, ctx: &mut P::Context) -> (r: Result<
    Vec<Stmt>,
    PassError,
>)
    ensures
        stmts_outcome(r, final(ctx)@, stmt_spec::<P>(ret@, old(ctx)@)),
    decreases ret,
{
    match transform_expr::<P>(ret.value, ctx) {
        Ok(value) => P::rewrite_stmt(Stmt::Return(Return { value }), ctx),
        Err(err) => Err(err),
    }
}

/// Rewrites an assignment: its target by the pass's rule for targets, its
/// value, then the statement by the pass's rule.
pub fn transform_assignment<P: Pass>(assignment: Assignment, ctx: &mut P::Context) -> (r: Result<
    Vec<Stmt>,
    PassError,
>)
    ensures
        stmts_outcome(r, final(ctx)@, stmt_spec::<P>(assignment@, old(ctx)@)),
    decreases assignment,
{
    let Assignment { var, value, is_decl_and_init } = assignment;
    let var = match P::rewrite_target(var, is_decl_and_init, ctx) {
        Ok(var) => var,
        Err(err) => {
            return Err(err);
        },
    };
    let value = match transform_expr::<P>(value, ctx) {
        Ok(value) => value,
        Err(err) => {
            return Err(err);
        },
    };
    P::rewrite_stmt(Stmt::Assignment(Assignment { var, value, is_decl_and_init }), ctx)
}

/// Rewrites a declaration by the pass's rule.
pub fn transform_declaration<P: Pass>(declaration: Declaration, ctx: &mut P::Context) -> (r:
    Result<Vec<Stmt>, PassError>)
    ensures
        stmts_outcome(r, final(ctx)@, stmt_spec::<P>(declaration@, old(ctx)@)),
{
    P::rewrite_stmt(Stmt::Declaration(declaration), ctx)
}

/// Rewrites an arithmetic operation: its operands, then the operation by the
/// pass's rule.
pub fn transform_binop<P: Pass>(binop: BinOp, ctx: &mut P::Context) -> (r: Result<Expr, PassError>)
    ensures
        expr_outcome(r, final(ctx)@, expr_spec::<P>(binop@, old(ctx)@)),
    decreases binop,
{
    let BinOp { op, left, right } = binop;
    let left = match transform_expr::<P>(*left, ctx) {
        Ok(left) => left,
        Err(err) => {
            return Err(err);
        },
    };
    let right = match transform_expr::<P>(*right, ctx) {
        Ok(right) => right,
        Err(err) => {
            return Err(err);
        },
    };
    P::rewrite_expr(Expr::BinOp(BinOp { op, left: Box::new(left), right: Box::new(right) }), ctx)
}

/// Rewrites the arguments of a call, from left to right.
pub fn transform_args<P: Pass>(args: Vec<Expr>, ctx: &mut P::Context) -> (r: Result<
    Vec<Expr>,
    PassError,
>)
    ensures
        exprs_outcome(r, final(ctx)@, exprs_spec::<P>(exprs_view(args@), old(ctx)@)),
    decreases args,
{
    let ghost ctx0 = ctx@;
    let ghost es = exprs_view(args@);
    let mut out: Vec<Expr> = Vec::new();
    assert(es.take(0) =~= Seq::empty());
    assert(exprs_view(out@) =~= Seq::empty());
    for arg in it: args
        invariant
            it.seq() == args@,
            es == exprs_view(args@),
            ctx0 == old(ctx)@,
            exprs_spec::<P>(es.take(it.index() as int), ctx0) == Ok::<
                (Seq<ExprView>, Ctx<P>),
                PassErrorView,
            >((exprs_view(out@), ctx@)),
    {
        let ghost i = it.index() as int;
        let ghost before = out@;
        proof {
            lemma_exprs_spec_step::<P>(es, i, ctx0);
        }
        match transform_expr::<P>(arg, ctx) {
            Ok(e) => {
                out.push(e);
                assert(exprs_view(out@) =~= exprs_view(before).push(e@));
            },
            Err(err) => {
                proof {
                    lemma_exprs_spec_fault::<P>(es, i + 1, ctx0);
                }
                return Err(err);
            },
        }
    }
    assert(es.take(es.len() as int) =~= es);
    Ok(out)
}

/// Rewrites a call: its arguments, then the call by the pass's rule.
pub fn transform_func_call<P: Pass>(func_call: FuncCall, ctx: &mut P::Context) -> (r: Result<
    Expr,
    PassError,
>)
    ensures
        expr_outcome(r, final(ctx)@, expr_spec::<P>(func_call@, old(ctx)@)),
    decreases func_call,
{
    let FuncCall { name, args } = func_call;
    match transform_args::<P>(args, ctx) {
        Ok(args) => P::rewrite_expr(Expr::FuncCall(FuncCall { name, args }), ctx),
        Err(err) => Err(err),
    }
}

/// Rewrites a variable by the pass's rule.
pub fn transform_variable<P: Pass>(variable: Variable, ctx: &mut P::Context) -> (r: Result<
    Expr,
    PassError,
>)
    ensures
        expr_outcome(r, final(ctx)@, expr_spec::<P>(ExprView::Variable(variable@), old(ctx)@)),
{
    P::rewrite_expr(Expr::Variable(variable), ctx)
}

/// Rewrites a comparison: its operands. The comparison itself stays.
pub fn transform_relop<P: Pass>(relop: RelOp, ctx: &mut P::Context) -> (r: Result<RelOp, PassError>)
    ensures
        relop_outcome(r, final(ctx)@, relop_spec::<P>(relop@, old(ctx)@)),
    decreases relop,
{
    let RelOp { op, left, right } = relop;
    let left = match transform_expr::<P>(*left, ctx) {
        Ok(left) => left,
        Err(err) => {
            return Err(err);
        },
    };
    let right = match transform_expr::<P>(*right, ctx) {
        Ok(right) => right,
        Err(err) => {
            return Err(err);
        },
    };
    Ok(RelOp { op, left: Box::new(left), right: Box::new(right) })
}

/// Rewrites a literal by the pass's rule.
pub fn transform_number<P: Pass>(number: Number, ctx: &mut P::Context) -> (r: Result<
    Expr,
    PassError,
>)
    ensures
        expr_outcome(r, final(ctx)@, expr_spec::<P>(ExprView::Number(number), old(ctx)@)),
{
    P::rewrite_expr(Expr::Number(number), ctx)
}

/// A statement as the one statement that takes its place.
pub fn single(node: Stmt) -> (r: Vec<Stmt>)
    ensures
        stmts_view(r@) == seq![node@],
{
    let mut r: Vec<Stmt> = Vec::new();
    r.push(node);
    assert(stmts_view(r@) =~= seq![node@]);
    r
}

/// The pass leaves every expression node as it is, and the context with it.
pub open spec fn keeps_exprs<P: Pass>() -> bool {
    forall|node: ExprView, ctx: Ctx<P>| #[trigger]
        P::expr_rule(node, ctx) == Ok::<(ExprView, Ctx<P>), PassErrorView>((node, ctx))
}

/// The pass leaves every variable as it is, and the context with it.
pub open spec fn keeps_variables<P: Pass>() -> bool {
    forall|v: VariableView, ctx: Ctx<P>| #[trigger]
        P::expr_rule(ExprView::Variable(v), ctx) == Ok::<(ExprView, Ctx<P>), PassErrorView>(
            (ExprView::Variable(v), ctx),
        )
}

/// The pass leaves every assignment target as it is, and the context with it.
pub open spec fn keeps_targets<P: Pass>() -> bool {
    forall|v: VariableView, is_decl_and_init: bool, ctx: Ctx<P>| #[trigger]
        P::target_rule(v, is_decl_and_init, ctx) == Ok::<(VariableView, Ctx<P>), PassErrorView>(
            (v, ctx),
        )
}

/// The pass leaves every statement node as it is, and the context with it.
pub open spec fn keeps_stmts<P: Pass>() -> bool {
    forall|node: StmtView, ctx: Ctx<P>| #[trigger]
        P::stmt_rule(node, ctx) == Ok::<(Seq<StmtView>, Ctx<P>), PassErrorView>((seq![node], ctx))
}

/// Where the rule for expressions changes nothing, the rewrite of an
/// expression changes nothing.
pub proof fn lemma_expr_kept<P: Pass>(e: ExprView, ctx: Ctx<P>)
    requires
        keeps_exprs::<P>(),
    ensures
        expr_spec::<P>(e, ctx) == Ok::<(ExprView, Ctx<P>), PassErrorView>((e, ctx)),
    decreases e,
{
    match e {
        ExprView::FuncCall { name, args } => {
            lemma_exprs_kept::<P>(args, ctx);
        },
        ExprView::BinOp { op, left, right } => {
            lemma_expr_kept::<P>(*left, ctx);
            lemma_expr_kept::<P>(*right, ctx);
        },
        ExprView::RelOp(r) => {
            lemma_relop_kept::<P>(r, ctx);
        },
        _ => {},
    }
}

/// The same for a comparison.
pub proof fn lemma_relop_kept<P: Pass>(r: RelOpView, ctx: Ctx<P>)
    requires
        keeps_exprs::<P>(),
    ensures
        relop_spec::<P>(r, ctx) == Ok::<(RelOpView, Ctx<P>), PassErrorView>((r, ctx)),
    decreases r,
{
    lemma_expr_kept::<P>(*r.left, ctx);
    lemma_expr_kept::<P>(*r.right, ctx);
}

/// The same for a list of expressions.
pub proof fn lemma_exprs_kept<P: Pass>(es: Seq<ExprView>, ctx: Ctx<P>)
    requires
        keeps_exprs::<P>(),
    ensures
        exprs_spec::<P>(es, ctx) == Ok::<(Seq<ExprView>, Ctx<P>), PassErrorView>((es, ctx)),
    decreases es,
{
    if es.len() == 0 {
        assert(es =~= Seq::empty());
    } else {
        lemma_exprs_kept::<P>(es.drop_last(), ctx);
        lemma_expr_kept::<P>(es.last(), ctx);
        assert(es =~= es.drop_last().push(es.last()));
    }
}

/// Where the rule for expressions leaves variables alone, the rewrite of a
/// parameter list changes nothing.
pub proof fn lemma_params_kept<P: Pass>(vs: Seq<VariableView>, ctx: Ctx<P>)
    requires
        keeps_variables::<P>(),
    ensures
        params_spec::<P>(vs, ctx) == Ok::<(Seq<VariableView>, Ctx<P>), PassErrorView>((vs, ctx)),
    decreases vs.len(),
{
    if vs.len() == 0 {
        assert(vs =~= Seq::empty());
    } else {
        lemma_params_kept::<P>(vs.drop_last(), ctx);
        assert(vs =~= vs.drop_last().push(vs.last()));
    }
}

/// Where no rule changes anything, the rewrite of a statement changes
/// nothing.
pub proof fn lemma_stmt_kept<P: Pass>(s: StmtView, ctx: Ctx<P>)
    requires
        keeps_exprs::<P>(),
        keeps_targets::<P>(),
        keeps_stmts::<P>(),
    ensures
        stmt_spec::<P>(s, ctx) == Ok::<(Seq<StmtView>, Ctx<P>), PassErrorView>((seq![s], ctx)),
    decreases s,
{
    match s {
        StmtView::Func { name, args, body } => {
            let body_ctx = P::function_context(args, ctx);
            assert(keeps_variables::<P>());
            lemma_params_kept::<P>(args, body_ctx);
            lemma_stmts_kept::<P>(body, body_ctx);
        },
        StmtView::If { condition, consequence, alternative } => {
            lemma_relop_kept::<P>(condition, ctx);
            lemma_stmts_kept::<P>(consequence, ctx);
            lemma_stmts_kept::<P>(alternative, ctx);
        },
        StmtView::While { condition, body } => {
            lemma_relop_kept::<P>(condition, ctx);
            lemma_stmts_kept::<P>(body, ctx);
        },
        StmtView::Print { value } => {
            lemma_expr_kept::<P>(value, ctx);
        },
        StmtView::Return { value } => {
            lemma_expr_kept::<P>(value, ctx);
        },
        StmtView::Assignment { var, value, is_decl_and_init } => {
            lemma_expr_kept::<P>(value, ctx);
        },
        StmtView::Declaration { var } => {},
    }
}

/// The same for a body.
pub proof fn lemma_stmts_kept<P: Pass>(ss: Seq<StmtView>, ctx: Ctx<P>)
    requires
        keeps_exprs::<P>(),
        keeps_targets::<P>(),
        keeps_stmts::<P>(),
    ensures
        stmts_spec::<P>(ss, ctx) == Ok::<(Seq<StmtView>, Ctx<P>), PassErrorView>((ss, ctx)),
    decreases ss,
{
    if ss.len() == 0 {
        assert(ss =~= Seq::empty());
    } else {
        lemma_stmts_kept::<P>(ss.drop_last(), ctx);
        lemma_stmt_kept::<P>(ss.last(), ctx);
        assert(ss =~= ss.drop_last() + seq![ss.last()]);
    }
}

} // verus!
