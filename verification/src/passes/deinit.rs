//! Splitting of initialised declarations: `var x = e;` becomes `var x;`
//! followed by `x = e;`, in every body of the program.
use vstd::prelude::*;

use super::pass::{
    keeps_exprs, keeps_targets, lemma_expr_kept, lemma_params_kept, lemma_relop_kept, single,
    stmt_spec, stmts_spec, transform_program, transform_stmts_body, Pass, Step,
};
use crate::error::{PassError, PassErrorView};
use crate::model::expressions::{Expr, Variable};
use crate::model::statements::{stmts_view, Assignment, Declaration, Stmt, StmtView};
use crate::model::Program;

verus! {

/// The pass that splits initialised declarations.
pub struct DeInit;

/// The statements that take the place of `s`: the declaration and the plain
/// assignment for an initialised declaration; else `s` itself, with its
/// bodies split in turn.
pub open spec fn deinit_stmt(s: StmtView) -> Seq<StmtView>
    decreases s,
{
    match s {
        StmtView::Func { name, args, body } => seq![
            StmtView::Func { name, args, body: deinit_stmts(body) },
        ],
        StmtView::If { condition, consequence, alternative } => seq![
            StmtView::If {
                condition,
                consequence: deinit_stmts(consequence),
                alternative: deinit_stmts(alternative),
            },
        ],
        StmtView::While { condition, body } => seq![
            StmtView::While { condition, body: deinit_stmts(body) },
        ],
        StmtView::Assignment { var, value, is_decl_and_init } => split_assignment(s),
        _ => seq![s],
    }
}

/// An initialised declaration as its two halves; any other statement alone.
pub open spec fn split_assignment(s: StmtView) -> Seq<StmtView> {
    match s {
        StmtView::Assignment { var, value, is_decl_and_init: true } => seq![
            StmtView::Declaration { var },
            StmtView::Assignment { var, value, is_decl_and_init: false },
        ],
        _ => seq![s],
    }
}

/// A body with each statement replaced, in its place, by what it is split
/// into.
pub open spec fn deinit_stmts(ss: Seq<StmtView>) -> Seq<StmtView>
    decreases ss,
{
    if ss.len() == 0 {
        Seq::empty()
    } else {
        deinit_stmts(ss.drop_last()) + deinit_stmt(ss.last())
    }
}

/// No assignment in `s`, at any depth, is an initialised declaration.
pub open spec fn stmt_is_split(s: StmtView) -> bool
    decreases s,
{
    match s {
        StmtView::Func { name, args, body } => stmts_are_split(body),
        StmtView::If { condition, consequence, alternative } => stmts_are_split(consequence)
            && stmts_are_split(alternative),
        StmtView::While { condition, body } => stmts_are_split(body),
        StmtView::Assignment { var, value, is_decl_and_init } => !is_decl_and_init,
        _ => true,
    }
}

/// No assignment in `ss`, at any depth, is an initialised declaration.
pub open spec fn stmts_are_split(ss: Seq<StmtView>) -> bool
    decreases ss,
{
    forall|i: int| 0 <= i < ss.len() ==> stmt_is_split(#[trigger] ss[i])
}

impl Pass for DeInit {
    type Context = ();

    open spec fn initial_context() -> () {
        ()
    }

    open spec fn stmt_rule(node: StmtView, ctx: ()) -> Step<Seq<StmtView>, Self> {
        Ok((split_assignment(node), ()))
    }

    fn get_context() -> (ctx: ()) {
        ()
    }

    fn enter_function(args: &Vec<Variable>, ctx: &()) -> (body_ctx: ()) {
        ()
    }

    fn rewrite_expr(node: Expr, ctx: &mut ()) -> (r: Result<Expr, PassError>) {
        Ok(node)
    }

    fn rewrite_target(var: Variable, is_decl_and_init: bool, ctx: &mut ()) -> (r: Result<
        Variable,
        PassError,
    >) {
        Ok(var)
    }

    fn rewrite_stmt(node: Stmt, ctx: &mut ()) -> (r: Result<Vec<Stmt>, PassError>) {
        match node {
            Stmt::Assignment(Assignment { var, value, is_decl_and_init: true }) => {
                let declaration = Stmt::Declaration(Declaration { var: var.clone() });
                let assignment = Stmt::Assignment(
                    Assignment { var, value, is_decl_and_init: false },
                );
                let mut out: Vec<Stmt> = Vec::new();
                out.push(declaration);
                out.push(assignment);
                assert(stmts_view(out@) =~= seq![declaration@, assignment@]);
                Ok(out)
            },
            other => Ok(single(other)),
        }
    }

    fn rewrite_program(stmts: Vec<Stmt>) -> (r: Vec<Stmt>) {
        stmts
    }
}

/// The framework's rewrite under the rules of this pass never fails, and
/// splits.
pub proof fn lemma_deinit_stmt_spec(s: StmtView)
    ensures
        stmt_spec::<DeInit>(s, ()) == Ok::<(Seq<StmtView>, ()), PassErrorView>(
            (deinit_stmt(s), ()),
        ),
    decreases s,
{
    assert(keeps_exprs::<DeInit>());
    assert(keeps_targets::<DeInit>());
    match s {
        StmtView::Func { name, args, body } => {
            lemma_params_kept::<DeInit>(args, ());
            lemma_deinit_stmts_spec(body);
        },
        StmtView::If { condition, consequence, alternative } => {
            lemma_relop_kept::<DeInit>(condition, ());
            lemma_deinit_stmts_spec(consequence);
            lemma_deinit_stmts_spec(alternative);
        },
        StmtView::While { condition, body } => {
            lemma_relop_kept::<DeInit>(condition, ());
            lemma_deinit_stmts_spec(body);
        },
        StmtView::Print { value } => {
            lemma_expr_kept::<DeInit>(value, ());
        },
        StmtView::Return { value } => {
            lemma_expr_kept::<DeInit>(value, ());
        },
        StmtView::Assignment { var, value, is_decl_and_init } => {
            lemma_expr_kept::<DeInit>(value, ());
        },
        StmtView::Declaration { var } => {},
    }
}

/// The same for a body, and so for a program.
pub proof fn lemma_deinit_stmts_spec(ss: Seq<StmtView>)
    ensures
        stmts_spec::<DeInit>(ss, ()) == Ok::<(Seq<StmtView>, ()), PassErrorView>(
            (deinit_stmts(ss), ()),
        ),
    decreases ss,
{
    if ss.len() > 0 {
        lemma_deinit_stmts_spec(ss.drop_last());
        lemma_deinit_stmt_spec(ss.last());
    }
}

impl DeInit {
    /// Splits every initialised declaration of a program: none is left in
    /// what is returned.
    pub fn transform_program(program: Program) -> (r: Program)
        ensures
            r@ == deinit_stmts(program@),
            stmts_are_split(r@),
    {
        proof {
            lemma_deinit_stmts_spec(program@);
            lemma_deinit_stmts_are_split(program@);
        }
        match transform_program::<DeInit>(program) {
            Ok(split) => split,
            Err(_) => unreached(),
        }
    }

    /// Splits every initialised declaration of a body: none is left in what
    /// is returned.
    pub fn transform_stmts_body(stmts: Vec<Stmt>) -> (r: Vec<Stmt>)
        ensures
            stmts_view(r@) == deinit_stmts(stmts_view(stmts@)),
            stmts_are_split(stmts_view(r@)),
    {
        proof {
            lemma_deinit_stmts_spec(stmts_view(stmts@));
            lemma_deinit_stmts_are_split(stmts_view(stmts@));
        }
        let mut ctx = ();
        match transform_stmts_body::<DeInit>(stmts, &mut ctx) {
            Ok(split) => split,
            Err(_) => unreached(),
        }
    }
}

/// Splitting goes statement by statement: what comes of a concatenation is
/// the concatenation of what comes of its parts, so each statement's
/// replacement stands where the statement stood.
pub proof fn lemma_deinit_concat(a: Seq<StmtView>, b: Seq<StmtView>)
    ensures
        deinit_stmts(a + b) == deinit_stmts(a) + deinit_stmts(b),
    decreases b.len(),
{
    if b.len() == 0 {
        assert(a + b =~= a);
        assert(deinit_stmts(a) + deinit_stmts(b) =~= deinit_stmts(a));
    } else {
        assert((a + b).drop_last() =~= a + b.drop_last());
        lemma_deinit_concat(a, b.drop_last());
        assert(deinit_stmts(a + b) =~= deinit_stmts(a) + deinit_stmts(b));
    }
}

/// After the pass no assignment, at any depth, is an initialised declaration.
pub proof fn lemma_deinit_stmts_are_split(ss: Seq<StmtView>)
    ensures
        stmts_are_split(deinit_stmts(ss)),
    decreases ss, 1nat,
{
    if ss.len() > 0 {
        lemma_deinit_stmts_are_split(ss.drop_last());
        lemma_deinit_stmt_is_split(ss.last());
    }
}

proof fn lemma_deinit_stmt_is_split(s: StmtView)
    ensures
        stmts_are_split(deinit_stmt(s)),
    decreases s, 0nat,
{
    match s {
        StmtView::Func { name, args, body } => {
            lemma_deinit_stmts_are_split(body);
        },
        StmtView::If { condition, consequence, alternative } => {
            lemma_deinit_stmts_are_split(consequence);
            lemma_deinit_stmts_are_split(alternative);
        },
        StmtView::While { condition, body } => {
            lemma_deinit_stmts_are_split(body);
        },
        _ => {},
    }
}

/// Where no assignment is an initialised declaration, the pass changes
/// nothing.
pub proof fn lemma_deinit_keeps_split(ss: Seq<StmtView>)
    requires
        stmts_are_split(ss),
    ensures
        deinit_stmts(ss) == ss,
    decreases ss, 1nat,
{
    if ss.len() == 0 {
        assert(ss =~= Seq::empty());
    } else {
        assert forall|i: int| 0 <= i < ss.drop_last().len() implies stmt_is_split(
            #[trigger] ss.drop_last()[i],
        ) by {
            assert(ss.drop_last()[i] == ss[i]);
        }
        lemma_deinit_keeps_split(ss.drop_last());
        lemma_deinit_keeps_split_stmt(ss.last());
        assert(ss =~= ss.drop_last() + seq![ss.last()]);
    }
}

proof fn lemma_deinit_keeps_split_stmt(s: StmtView)
    requires
        stmt_is_split(s),
    ensures
        deinit_stmt(s) == seq![s],
    decreases s, 0nat,
{
    match s {
        StmtView::Func { name, args, body } => {
            lemma_deinit_keeps_split(body);
        },
        StmtView::If { condition, consequence, alternative } => {
            lemma_deinit_keeps_split(consequence);
            lemma_deinit_keeps_split(alternative);
        },
        StmtView::While { condition, body } => {
            lemma_deinit_keeps_split(body);
        },
        _ => {},
    }
}

} // verus!
