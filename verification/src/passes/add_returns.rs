//! Explicit returns: every function whose body does not end in a `return`
//! gets `return 0;` at its end.
use vstd::prelude::*;

use super::pass::{
    keeps_exprs, keeps_targets, lemma_expr_kept, lemma_params_kept, lemma_relop_kept, single,
    stmt_spec, stmts_spec, transform_program, transform_stmts_body, Pass, Step,
};
use crate::error::{PassError, PassErrorView};
use crate::model::expressions::{Expr, ExprView, Number, Variable};
use crate::model::statements::{stmts_view, Func, Return, Stmt, StmtView};
use crate::model::Program;

verus! {

/// The pass that closes every function by a `return`.
pub struct Returns;

/// The statement `return 0;`.
pub open spec fn return_zero() -> StmtView {
    StmtView::Return { value: ExprView::Number(Number::Int(0)) }
}

/// The body is not empty and its last statement is a `return`.
pub open spec fn ends_in_return(body: Seq<StmtView>) -> bool {
    body.len() > 0 && body.last() is Return
}

/// The body, with `return 0;` at its end unless it ends in a `return`.
pub open spec fn with_return(body: Seq<StmtView>) -> Seq<StmtView> {
    if ends_in_return(body) {
        body
    } else {
        body.push(return_zero())
    }
}

/// A function with its body closed by a `return`; any other statement as it
/// is.
pub open spec fn close_function(s: StmtView) -> StmtView {
    match s {
        StmtView::Func { name, args, body } => StmtView::Func {
            name,
            args,
            body: with_return(body),
        },
        _ => s,
    }
}

/// A statement with every function in it, at any depth, closed by a
/// `return`: the functions inside a function before the function itself.
pub open spec fn returns_stmt(s: StmtView) -> StmtView
    decreases s,
{
    match s {
        StmtView::Func { name, args, body } => StmtView::Func {
            name,
            args,
            body: with_return(returns_stmts(body)),
        },
        StmtView::If { condition, consequence, alternative } => StmtView::If {
            condition,
            consequence: returns_stmts(consequence),
            alternative: returns_stmts(alternative),
        },
        StmtView::While { condition, body } => StmtView::While {
            condition,
            body: returns_stmts(body),
        },
        _ => s,
    }
}

/// A body with every function in it, at any depth, closed by a `return`.
pub open spec fn returns_stmts(ss: Seq<StmtView>) -> Seq<StmtView>
    decreases ss,
{
    Seq::new(
        ss.len(),
        |i: int|
            if 0 <= i < ss.len() {
                returns_stmt(ss[i])
            } else {
                arbitrary()
            },
    )
}

/// Every function in `s`, at any depth, has a body that ends in a `return`.
pub open spec fn stmt_returns(s: StmtView) -> bool
    decreases s,
{
    match s {
        StmtView::Func { name, args, body } => ends_in_return(body) && stmts_return(body),
        StmtView::If { condition, consequence, alternative } => stmts_return(consequence)
            && stmts_return(alternative),
        StmtView::While { condition, body } => stmts_return(body),
        _ => true,
    }
}

/// Every function in `ss`, at any depth, has a body that ends in a `return`.
pub open spec fn stmts_return(ss: Seq<StmtView>) -> bool
    decreases ss,
{
    forall|i: int| 0 <= i < ss.len() ==> stmt_returns(#[trigger] ss[i])
}

impl Pass for Returns {
    type Context = ();

    open spec fn initial_context() -> () {
        ()
    }

    open spec fn stmt_rule(node: StmtView, ctx: ()) -> Step<Seq<StmtView>, Self> {
        Ok((seq![close_function(node)], ()))
    }

    fn get_context() -> (ctx: ()) {
        ()
    }

    fn enter_function(args: &Vec<Variable>, ctx: &()) -> (body_ctx: ()) {
        ()
    }

    fn rewrite_expr(node: Expr, ctx: &mut ()) -> (r: Result<Expr, PassError>) {
        Ok(node)
    }

    fn rewrite_target(var: Variable, is_decl_and_init: bool, ctx: &mut ()) -> (r: Result<
        Variable,
        PassError,
    >) {
        Ok(var)
    }

    fn rewrite_stmt(node: Stmt, ctx: &mut ()) -> (r: Result<Vec<Stmt>, PassError>) {
        match node {
            Stmt::Func(Func { name, args, body }) => {
                let mut body = body;
                let ghost before = body@;
                let n = body.len();
                let closed = n > 0 && match &body[n - 1] {
                    Stmt::Return(_) => true,
                    _ => false,
                };
                assert(closed == ends_in_return(stmts_view(before)));
                if !closed {
                    let zero = Stmt::Return(Return { value: Expr::Number(Number::Int(0)) });
                    body.push(zero);
                    assert(stmts_view(body@) =~= stmts_view(before).push(return_zero()));
                }
                Ok(single(Stmt::Func(Func { name, args, body })))
            },
            other => Ok(single(other)),
        }
    }

    fn rewrite_program(stmts: Vec<Stmt>) -> (r: Vec<Stmt>) {
        stmts
    }
}

/// The framework's rewrite under the rules of this pass never fails, and
/// closes every function.
pub proof fn lemma_returns_stmt_spec(s: StmtView)
    ensures
        stmt_spec::<Returns>(s, ()) == Ok::<(Seq<StmtView>, ()), PassErrorView>(
            (seq![returns_stmt(s)], ()),
        ),
    decreases s,
{
    assert(keeps_exprs::<Returns>());
    assert(keeps_targets::<Returns>());
    match s {
        StmtView::Func { name, args, body } => {
            lemma_params_kept::<Returns>(args, ());
            lemma_returns_stmts_spec(body);
        },
        StmtView::If { condition, consequence, alternative } => {
            lemma_relop_kept::<Returns>(condition, ());
            lemma_returns_stmts_spec(consequence);
            lemma_returns_stmts_spec(alternative);
        },
        StmtView::While { condition, body } => {
            lemma_relop_kept::<Returns>(condition, ());
            lemma_returns_stmts_spec(body);
        },
        StmtView::Print { value } => {
            lemma_expr_kept::<Returns>(value, ());
        },
        StmtView::Return { value } => {
            lemma_expr_kept::<Returns>(value, ());
        },
        StmtView::Assignment { var, value, is_decl_and_init } => {
            lemma_expr_kept::<Returns>(value, ());
        },
        StmtView::Declaration { var } => {},
    }
}

/// The same for a body.
pub proof fn lemma_returns_stmts_spec(ss: Seq<StmtView>)
    ensures
        stmts_spec::<Returns>(ss, ()) == Ok::<(Seq<StmtView>, ()), PassErrorView>(
            (returns_stmts(ss), ()),
        ),
    decreases ss,
{
    if ss.len() == 0 {
        assert(returns_stmts(ss) =~= Seq::empty());
    } else {
        lemma_returns_stmts_spec(ss.drop_last());
        lemma_returns_stmt_spec(ss.last());
        assert(returns_stmts(ss) =~= returns_stmts(ss.drop_last()) + seq![returns_stmt(ss.last())]);
    }
}

impl Returns {
    /// Closes every function of a program by a `return`: every function of
    /// what is returned ends in one.
    pub fn transform_program(program: Program) -> (r: Program)
        ensures
            r@ == returns_stmts(program@),
            stmts_return(r@),
    {
        proof {
            lemma_returns_stmts_spec(program@);
            lemma_returns_stmts_return(program@);
        }
        match transform_program::<Returns>(program) {
            Ok(closed) => closed,
            Err(_) => unreached(),
        }
    }

    /// Closes every function of a body by a `return`: every function of
    /// what is returned ends in one.
    pub fn transform_stmts_body(stmts: Vec<Stmt>) -> (r: Vec<Stmt>)
        ensures
            stmts_view(r@) == returns_stmts(stmts_view(stmts@)),
            stmts_return(stmts_view(r@)),
    {
        proof {
            lemma_returns_stmts_spec(stmts_view(stmts@));
            lemma_returns_stmts_return(stmts_view(stmts@));
        }
        let mut ctx = ();
        match transform_stmts_body::<Returns>(stmts, &mut ctx) {
            Ok(closed) => closed,
            Err(_) => unreached(),
        }
    }
}

/// After the pass every function, at any depth, ends in a `return`.
pub proof fn lemma_returns_stmts_return(ss: Seq<StmtView>)
    ensures
        stmts_return(returns_stmts(ss)),
    decreases ss, 1nat,
{
    assert forall|i: int| 0 <= i < ss.len() implies stmt_returns(
        #[trigger] returns_stmts(ss)[i],
    ) by {
        lemma_returns_stmt_returns(ss[i]);
    }
}

proof fn lemma_returns_stmt_returns(s: StmtView)
    ensures
        stmt_returns(returns_stmt(s)),
    decreases s, 0nat,
{
    match s {
        StmtView::Func { name, args, body } => {
            lemma_returns_stmts_return(body);
            let closed = with_return(returns_stmts(body));
            assert forall|i: int| 0 <= i < closed.len() implies stmt_returns(
                #[trigger] closed[i],
            ) by {
                if i < returns_stmts(body).len() {
                    assert(closed[i] == returns_stmts(body)[i]);
                }
            }
        },
        StmtView::If { condition, consequence, alternative } => {
            lemma_returns_stmts_return(consequence);
            lemma_returns_stmts_return(alternative);
        },
        StmtView::While { condition, body } => {
            lemma_returns_stmts_return(body);
        },
        _ => {},
    }
}

/// Where every function ends in a `return` already, the pass changes
/// nothing: a body that ends in a `return` is left as it is.
pub proof fn lemma_returns_keeps_closed(ss: Seq<StmtView>)
    requires
        stmts_return(ss),
    ensures
        returns_stmts(ss) == ss,
    decreases ss, 1nat,
{
    assert forall|i: int| 0 <= i < ss.len() implies returns_stmts(ss)[i] == ss[i] by {
        lemma_returns_keeps_closed_stmt(ss[i]);
    }
    assert(returns_stmts(ss) =~= ss);
}

proof fn lemma_returns_keeps_closed_stmt(s: StmtView)
    requires
        stmt_returns(s),
    ensures
        returns_stmt(s) == s,
    decreases s, 0nat,
{
    match s {
        StmtView::Func { name, args, body } => {
            lemma_returns_keeps_closed(body);
        },
        StmtView::If { condition, consequence, alternative } => {
            lemma_returns_keeps_closed(consequence);
            lemma_returns_keeps_closed(alternative);
        },
        StmtView::While { condition, body } => {
            lemma_returns_keeps_closed(body);
        },
        _ => {},
    }
}

} // verus!
