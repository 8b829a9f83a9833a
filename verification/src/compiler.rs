//! The pipeline: the five passes in their fixed order.
//!
//! Constant folding comes first. Initialised declarations are split next,
//! so that resolution, which follows, meets plain declarations and plain
//! assignments only. The script is then wrapped into `main`, and at last
//! every function, `main` with them, is closed by a `return`.
use vstd::prelude::*;

use crate::ast_printer::{format_program, render_body};
use crate::error::{PassError, PassErrorView};
use crate::model::statements::StmtView;
use crate::model::Program;
use crate::passes::add_returns::{
    lemma_returns_stmts_return, returns_stmt, returns_stmts, stmts_return, with_return, Returns,
};
use crate::passes::constant_folding::{fold_stmts, ConstantFolding};
use crate::passes::deinit::{
    deinit_stmts, lemma_deinit_stmts_are_split, stmt_is_split, stmts_are_split, DeInit,
};
use crate::passes::pass::program_outcome;
use crate::passes::resolve::scope_ctx::ScopeCtxView;
use crate::passes::resolve::laws::{
    lemma_resolve_stmts_fault, lemma_resolved_stmts_are_split, lemma_resolved_stmts_scoped,
    stmt_scoped, stmts_scoped,
};
use crate::passes::resolve::{resolve_program, Resolve};
use crate::passes::unscript::{
    hoisted, is_hoisted, lemma_unscript_top_level, main_function, main_name, scripted, unscript,
    Unscript,
};

verus! {

/// The normal form of a program, or the fault that resolution ends with.
pub open spec fn normalize_spec(stmts: Seq<StmtView>) -> Result<Seq<StmtView>, PassErrorView> {
    match resolve_program(deinit_stmts(fold_stmts(stmts))) {
        Ok(resolved) => Ok(returns_stmts(unscript(resolved))),
        Err(err) => Err(err),
    }
}

/// The text of the normal form of a program, or the fault that resolution
/// ends with.
pub open spec fn compile_spec(stmts: Seq<StmtView>) -> Result<Seq<char>, PassErrorView> {
    match normalize_spec(stmts) {
        Ok(normal) => Ok(render_body(normal)),
        Err(err) => Err(err),
    }
}

/// Brings a parsed program into its normal form.
pub fn normalize(program: Program) -> (r: Result<Program, PassError>)
    ensures
        program_outcome(r, normalize_spec(program@)),
        r matches Ok(normal) ==> is_normal(normal@),
        r matches Err(err) ==> err is UnresolvedVariable,
{
    proof {
        lemma_normalize_fault(program@);
        if normalize_spec(program@) is Ok {
            lemma_normalize_is_normal(program@);
        }
    }
    let folded = ConstantFolding::transform_program(program);
    let split = DeInit::transform_program(folded);
    match Resolve::transform_program(split) {
        Ok(resolved) => {
            let wrapped = Unscript::transform_program(resolved);
            Ok(Returns::transform_program(wrapped))
        },
        Err(err) => Err(err),
    }
}

/// Brings a parsed program into its normal form and renders it.
pub fn compile(program: Program) -> (r: Result<String, PassError>)
    ensures
        match r {
            Ok(text) => compile_spec(program@) == Ok::<Seq<char>, PassErrorView>(text@),
            Err(err) => compile_spec(program@) == Err::<Seq<char>, PassErrorView>(err@),
        },
{
    match normalize(program) {
        Ok(normal) => Ok(format_program(&normal)),
        Err(err) => Err(err),
    }
}

/// The normal form: a top level of declarations and functions, the last of
/// them `main` without parameters; every variable tagged with its scope; no
/// initialised declaration; every function closed by a `return`.
pub open spec fn is_normal(stmts: Seq<StmtView>) -> bool {
    &&& stmts.len() > 0
    &&& forall|i: int| 0 <= i < stmts.len() ==> is_hoisted(#[trigger] stmts[i])
    &&& stmts.last() matches StmtView::Func { name, args, .. } && name == main_name() && args.len()
        == 0
    &&& stmts_scoped(stmts)
    &&& stmts_are_split(stmts)
    &&& stmts_return(stmts)
}

/// Each statement of either group of a top level is a statement of that top
/// level.
pub proof fn lemma_groups_hold_statements(ss: Seq<StmtView>)
    ensures
        forall|i: int| 0 <= i < hoisted(ss).len() ==> ss.contains(#[trigger] hoisted(ss)[i]),
        forall|i: int| 0 <= i < scripted(ss).len() ==> ss.contains(#[trigger] scripted(ss)[i]),
{
    let keep = |s: StmtView| is_hoisted(s);
    let moved = |s: StmtView| !is_hoisted(s);
    assert forall|i: int| 0 <= i < hoisted(ss).len() implies ss.contains(
        #[trigger] hoisted(ss)[i],
    ) by {
        assert(hoisted(ss).contains(hoisted(ss)[i]));
        ss.lemma_filter_contains_rev(keep, hoisted(ss)[i]);
    }
    assert forall|i: int| 0 <= i < scripted(ss).len() implies ss.contains(
        #[trigger] scripted(ss)[i],
    ) by {
        assert(scripted(ss).contains(scripted(ss)[i]));
        ss.lemma_filter_contains_rev(moved, scripted(ss)[i]);
    }
}

/// Wrapping the script keeps every variable tagged and adds no initialised
/// declaration.
pub proof fn lemma_unscript_keeps(ss: Seq<StmtView>)
    requires
        stmts_scoped(ss),
        stmts_are_split(ss),
    ensures
        stmts_scoped(unscript(ss)),
        stmts_are_split(unscript(ss)),
{
    lemma_groups_hold_statements(ss);
    let body = scripted(ss);
    assert forall|i: int| 0 <= i < body.len() implies stmt_scoped(#[trigger] body[i])
        && stmt_is_split(body[i]) by {
        assert(ss.contains(body[i]));
    }
    assert(stmt_scoped(main_function(body)));
    assert(stmt_is_split(main_function(body)));
    assert forall|i: int| 0 <= i < unscript(ss).len() implies stmt_scoped(
        #[trigger] unscript(ss)[i],
    ) && stmt_is_split(unscript(ss)[i]) by {
        if i < hoisted(ss).len() {
            assert(unscript(ss)[i] == hoisted(ss)[i]);
            assert(ss.contains(hoisted(ss)[i]));
        }
    }
}

/// Closing a function by a `return` keeps every variable tagged and adds no
/// initialised declaration.
proof fn lemma_returns_stmt_keeps(s: StmtView)
    requires
        stmt_scoped(s),
        stmt_is_split(s),
    ensures
        stmt_scoped(returns_stmt(s)),
        stmt_is_split(returns_stmt(s)),
    decreases s, 0nat,
{
    match s {
        StmtView::Func { name, args, body } => {
            lemma_returns_stmts_keep(body);
            let inner = returns_stmts(body);
            let closed = with_return(inner);
            assert forall|i: int| 0 <= i < closed.len() implies stmt_scoped(#[trigger] closed[i])
                && stmt_is_split(closed[i]) by {
                if i < inner.len() {
                    assert(closed[i] == inner[i]);
                }
            }
        },
        StmtView::If { condition, consequence, alternative } => {
            lemma_returns_stmts_keep(consequence);
            lemma_returns_stmts_keep(alternative);
        },
        StmtView::While { condition, body } => {
            lemma_returns_stmts_keep(body);
        },
        _ => {},
    }
}

proof fn lemma_returns_stmts_keep(ss: Seq<StmtView>)
    requires
        stmts_scoped(ss),
        stmts_are_split(ss),
    ensures
        stmts_scoped(returns_stmts(ss)),
        stmts_are_split(returns_stmts(ss)),
    decreases ss, 1nat,
{
    assert forall|i: int| 0 <= i < ss.len() implies stmt_scoped(#[trigger] returns_stmts(ss)[i])
        && stmt_is_split(returns_stmts(ss)[i]) by {
        lemma_returns_stmt_keeps(ss[i]);
    }
}

/// What the pipeline returns is in normal form.
pub proof fn lemma_normalize_is_normal(stmts: Seq<StmtView>)
    requires
        normalize_spec(stmts) is Ok,
    ensures
        is_normal(normalize_spec(stmts)->Ok_0),
{
    let split = deinit_stmts(fold_stmts(stmts));
    let resolved = resolve_program(split)->Ok_0;
    let wrapped = unscript(resolved);
    let normal = returns_stmts(wrapped);
    lemma_resolved_stmts_scoped(split, ScopeCtxView::empty_global());
    lemma_resolved_stmts_are_split(split, ScopeCtxView::empty_global());
    lemma_unscript_keeps(resolved);
    lemma_unscript_top_level(resolved);
    lemma_returns_stmts_keep(wrapped);
    lemma_returns_stmts_return(wrapped);
    assert forall|i: int| 0 <= i < normal.len() implies is_hoisted(#[trigger] normal[i]) by {
        assert(is_hoisted(wrapped[i]));
    }
    assert(normal.last() == returns_stmt(wrapped.last()));
}

/// The only fault of the pipeline is a reference to a name that no scope
/// declares.
pub proof fn lemma_normalize_fault(stmts: Seq<StmtView>)
    ensures
        normalize_spec(stmts) matches Err(err) ==> err is UnresolvedVariable,
{
    let split = deinit_stmts(fold_stmts(stmts));
    lemma_deinit_stmts_are_split(fold_stmts(stmts));
    lemma_resolve_stmts_fault(split, ScopeCtxView::empty_global());
}

} // verus!
