use wabbit_compiler::error::PassError;
use wabbit_compiler::model::expressions::Variable;
use wabbit_compiler::passes::resolve::scope_ctx::{GlobalScopeCtx, LocalScopeCtx, ScopeCtx};

fn unresolved(name: &str) -> Result<Variable, PassError> {
    Err(PassError::UnresolvedVariable(name.to_string()))
}

#[test]
fn global_scope_finds_what_was_declared() {
    let mut ctx = GlobalScopeCtx::new();
    assert_eq!(ctx.get_from_scope("x"), unresolved("x"));
    ctx.add_to_scope("x");
    assert_eq!(ctx.get_from_scope("x"), Ok(Variable::new_global("x")));
    assert_eq!(ctx.get_from_scope("y"), unresolved("y"));
    ctx.add_to_scope("x");
    assert_eq!(ctx.get_from_scope("x"), Ok(Variable::new_global("x")));
}

#[test]
fn local_scope_without_parent_finds_its_own_names_only() {
    let mut ctx = LocalScopeCtx::new(None);
    assert_eq!(ctx.get_from_scope("x"), unresolved("x"));
    ctx.add_to_scope("x");
    assert_eq!(ctx.get_from_scope("x"), Ok(Variable::new_local("x")));
    assert_eq!(ctx.get_from_scope("xx"), unresolved("xx"));
}

#[test]
fn lookup_goes_up_the_chain_and_takes_the_innermost() {
    let mut global = ScopeCtx::new_global();
    global.add_to_scope("g");
    global.add_to_scope("both");
    let mut outer = ScopeCtx::new_local(Some(global));
    outer.add_to_scope("o");
    let mut inner = ScopeCtx::new_local(Some(outer));
    inner.add_to_scope("i");
    inner.add_to_scope("both");
    assert_eq!(inner.get_from_scope("i"), Ok(Variable::new_local("i")));
    assert_eq!(inner.get_from_scope("o"), Ok(Variable::new_local("o")));
    assert_eq!(inner.get_from_scope("g"), Ok(Variable::new_global("g")));
    assert_eq!(inner.get_from_scope("both"), Ok(Variable::new_local("both")));
    assert_eq!(inner.get_from_scope("none"), unresolved("none"));
}

#[test]
fn a_snapshot_does_not_follow_the_scope_it_was_taken_of() {
    let mut global = ScopeCtx::new_global();
    global.add_to_scope("before");
    let mut local = ScopeCtx::new_local(Some(global.clone()));
    global.add_to_scope("after");
    local.add_to_scope("inside");
    assert_eq!(local.get_from_scope("before"), Ok(Variable::new_global("before")));
    assert_eq!(local.get_from_scope("after"), unresolved("after"));
    assert_eq!(global.get_from_scope("after"), Ok(Variable::new_global("after")));
    assert_eq!(global.get_from_scope("inside"), unresolved("inside"));
    let copy = local.clone();
    assert_eq!(copy.get_from_scope("inside"), Ok(Variable::new_local("inside")));
    assert_eq!(copy.get_from_scope("before"), Ok(Variable::new_global("before")));
}
