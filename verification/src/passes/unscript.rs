//! Wrapping of the script: the top-level statements that are neither a
//! declaration nor a function move, in their order, into a function `main`
//! at the end of the program. Only the top level is regrouped: the bodies
//! below it belong to a function already and stay as they are.
use vstd::prelude::*;

use super::pass::{
    keeps_exprs, keeps_stmts, keeps_targets, lemma_stmts_kept, program_spec, single,
    transform_program, Pass,
};
use crate::error::{PassError, PassErrorView};
use crate::model::expressions::{Expr, Variable, VariableView};
use crate::model::statements::{stmts_view, vars_view, Func, Stmt, StmtView};
use crate::model::Program;

verus! {

/// The pass that wraps the script into `main`.
pub struct Unscript;

/// A statement that stays at the top level: a declaration or a function.
pub open spec fn is_hoisted(s: StmtView) -> bool {
    s is Declaration || s is Func
}

/// The statements of `ss` that stay at the top level, in their order.
pub open spec fn hoisted(ss: Seq<StmtView>) -> Seq<StmtView> {
    ss.filter(|s: StmtView| is_hoisted(s))
}

/// The statements of `ss` that move into `main`, in their order.
pub open spec fn scripted(ss: Seq<StmtView>) -> Seq<StmtView> {
    ss.filter(|s: StmtView| !is_hoisted(s))
}

/// The name of the function that holds the script.
pub open spec fn main_name() -> Seq<char> {
    seq!['m', 'a', 'i', 'n']
}

/// The function `main`, without parameters, around `body`.
pub open spec fn main_function(body: Seq<StmtView>) -> StmtView {
    StmtView::Func { name: main_name(), args: Seq::empty(), body }
}

/// The regrouped top level: what is hoisted, then `main` around the rest.
pub open spec fn unscript(ss: Seq<StmtView>) -> Seq<StmtView> {
    hoisted(ss).push(main_function(scripted(ss)))
}

impl Pass for Unscript {
    type Context = ();

    open spec fn initial_context() -> () {
        ()
    }

    open spec fn program_rule(stmts: Seq<StmtView>) -> Seq<StmtView> {
        unscript(stmts)
    }

    fn get_context() -> (ctx: ()) {
        ()
    }

    fn enter_function(args: &Vec<Variable>, ctx: &()) -> (body_ctx: ()) {
        ()
    }

    fn rewrite_expr(node: Expr, ctx: &mut ()) -> (r: Result<Expr, PassError>) {
        Ok(node)
    }

    fn rewrite_target(var: Variable, is_decl_and_init: bool, ctx: &mut ()) -> (r: Result<
        Variable,
        PassError,
    >) {
        Ok(var)
    }

    fn rewrite_stmt(node: Stmt, ctx: &mut ()) -> (r: Result<Vec<Stmt>, PassError>) {
        Ok(single(node))
    }

    fn rewrite_program(stmts: Vec<Stmt>) -> (r: Vec<Stmt>) {
        Unscript::transform_stmts_body(stmts)
    }
}

/// One more statement at the end of a top level goes to the end of its
/// group.
pub proof fn lemma_groups_step(ss: Seq<StmtView>, i: int)
    requires
        0 <= i < ss.len(),
    ensures
        hoisted(ss.take(i + 1)) == if is_hoisted(ss[i]) {
            hoisted(ss.take(i)).push(ss[i])
        } else {
            hoisted(ss.take(i))
        },
        scripted(ss.take(i + 1)) == if is_hoisted(ss[i]) {
            scripted(ss.take(i))
        } else {
            scripted(ss.take(i)).push(ss[i])
        },
{
    reveal(Seq::filter);
    assert(ss.take(i + 1).drop_last() =~= ss.take(i));
}

impl Unscript {
    /// Regroups a top level: declarations and functions first, then `main`
    /// around the other statements. Each group keeps its order.
    pub fn transform_stmts_body(stmts: Vec<Stmt>) -> (r: Vec<Stmt>)
        ensures
            stmts_view(r@) == unscript(stmts_view(stmts@)),
    {
        let ghost ss = stmts_view(stmts@);
        let mut main_stmts: Vec<Stmt> = Vec::new();
        let mut new_stmts: Vec<Stmt> = Vec::new();
        proof {
            reveal(Seq::filter);
            assert(ss.take(0) =~= Seq::empty());
            assert(stmts_view(main_stmts@) =~= scripted(ss.take(0)));
            assert(stmts_view(new_stmts@) =~= hoisted(ss.take(0)));
        }
        for stmt in it: stmts
            invariant
                it.seq() == stmts@,
                ss == stmts_view(stmts@),
                stmts_view(new_stmts@) == hoisted(ss.take(it.index() as int)),
                stmts_view(main_stmts@) == scripted(ss.take(it.index() as int)),
        {
            let ghost i = it.index() as int;
            let ghost kept = new_stmts@;
            let ghost moved = main_stmts@;
            proof {
                lemma_groups_step(ss, i);
            }
            match stmt {
                Stmt::Declaration(_) | Stmt::Func(_) => {
                    new_stmts.push(stmt);
                    assert(stmts_view(new_stmts@) =~= stmts_view(kept).push(stmt@));
                },
                _ => {
                    main_stmts.push(stmt);
                    assert(stmts_view(main_stmts@) =~= stmts_view(moved).push(stmt@));
                },
            }
        }
        assert(ss.take(ss.len() as int) =~= ss);
        let ghost kept = new_stmts@;
        let args: Vec<Variable> = Vec::new();
        let main = Stmt::Func(Func { name: "main".to_owned(), args, body: main_stmts });
        proof {
            reveal_strlit("main");
            assert("main"@ =~= main_name());
            assert(vars_view(args@) =~= Seq::<VariableView>::empty());
        }
        new_stmts.push(main);
        assert(stmts_view(new_stmts@) =~= stmts_view(kept).push(main@));
        new_stmts
    }

    /// Wraps the script of a program into `main`: the top level of what is
    /// returned holds declarations and functions only, and `main` is the
    /// last of them.
    pub fn transform_program(program: Program) -> (r: Program)
        ensures
            r@ == unscript(program@),
            forall|i: int| 0 <= i < r@.len() ==> is_hoisted(#[trigger] r@[i]),
            r@.last() == main_function(scripted(program@)),
            r@.drop_last() == hoisted(program@),
    {
        proof {
            lemma_unscript_program_spec(program@);
            lemma_unscript_top_level(program@);
        }
        match transform_program::<Unscript>(program) {
            Ok(wrapped) => wrapped,
            Err(_) => unreached(),
        }
    }
}

/// The framework's rewrite under the rules of this pass never fails, leaves
/// every statement as it is and regroups the top level.
pub proof fn lemma_unscript_program_spec(ss: Seq<StmtView>)
    ensures
        program_spec::<Unscript>(ss) == Ok::<Seq<StmtView>, PassErrorView>(unscript(ss)),
{
    assert(keeps_exprs::<Unscript>());
    assert(keeps_targets::<Unscript>());
    assert(keeps_stmts::<Unscript>());
    lemma_stmts_kept::<Unscript>(ss, ());
}

/// Each statement of the hoisted group is a declaration or a function.
pub proof fn lemma_hoisted_are_hoisted(ss: Seq<StmtView>)
    ensures
        forall|i: int| 0 <= i < hoisted(ss).len() ==> is_hoisted(#[trigger] hoisted(ss)[i]),
{
    let pred = |s: StmtView| is_hoisted(s);
    assert forall|i: int| 0 <= i < hoisted(ss).len() implies is_hoisted(
        #[trigger] hoisted(ss)[i],
    ) by {
        ss.lemma_filter_pred(pred, i);
    }
}

/// After the pass the top level holds declarations and functions only, and
/// the last of them is `main`, without parameters, around the script.
pub proof fn lemma_unscript_top_level(ss: Seq<StmtView>)
    ensures
        forall|i: int| 0 <= i < unscript(ss).len() ==> is_hoisted(#[trigger] unscript(ss)[i]),
        unscript(ss).last() == main_function(scripted(ss)),
        unscript(ss).drop_last() == hoisted(ss),
{
    lemma_hoisted_are_hoisted(ss);
    assert(unscript(ss).drop_last() =~= hoisted(ss));
}

/// A top-level function of the name `name`.
pub open spec fn is_function_named(s: StmtView, name: Seq<char>) -> bool {
    s matches StmtView::Func { name: n, .. } && n == name
}

/// Where the program defines no function `main` of its own, the regrouped
/// top level holds exactly one: the last statement.
pub proof fn lemma_unscript_one_main(ss: Seq<StmtView>)
    requires
        forall|i: int| 0 <= i < ss.len() ==> !is_function_named(#[trigger] ss[i], main_name()),
    ensures
        forall|i: int|
            0 <= i < unscript(ss).len() ==> (is_function_named(
                #[trigger] unscript(ss)[i],
                main_name(),
            ) <==> i == unscript(ss).len() - 1),
{
    let pred = |s: StmtView| is_hoisted(s);
    assert forall|i: int| 0 <= i < unscript(ss).len() implies (is_function_named(
        #[trigger] unscript(ss)[i],
        main_name(),
    ) <==> i == unscript(ss).len() - 1) by {
        if i < hoisted(ss).len() {
            ss.lemma_filter_contains_rev(pred, hoisted(ss)[i]);
            assert(hoisted(ss).contains(hoisted(ss)[i]));
            assert(ss.contains(hoisted(ss)[i]));
            let j = choose|j: int| 0 <= j < ss.len() && ss[j] == hoisted(ss)[i];
            assert(!is_function_named(ss[j], main_name()));
        }
    }
}

} // verus!
