//! Statements, and the mathematical trees that stand for them in contracts.
use vstd::prelude::*;
use vstd::std_specs::convert::{FromSpecImpl, IntoSpec};

use super::expressions::{
    expr_view, relop_view, Expr, ExprView, RelOp, RelOpView, Variable, VariableView,
};

verus! {

/// `print value;`
#[derive(PartialEq, Eq, Debug)]
pub struct Print {
    pub value: Expr,
}

/// `var = value;`, or `var var = value;` where `is_decl_and_init` is set.
#[derive(PartialEq, Eq, Debug)]
pub struct Assignment {
    pub var: Variable,
    pub value: Expr,
    pub is_decl_and_init: bool,
}

/// `var var;`
#[derive(PartialEq, Eq, Debug)]
pub struct Declaration {
    pub var: Variable,
}

/// `return value;`
#[derive(PartialEq, Eq, Debug)]
pub struct Return {
    pub value: Expr,
}

/// A function definition.
#[derive(PartialEq, Eq, Debug)]
pub struct Func {
    pub name: String,
    pub args: Vec<Variable>,
    pub body: Vec<Stmt>,
}

/// A conditional with both branches.
#[derive(PartialEq, Eq, Debug)]
pub struct If {
    pub condition: RelOp,
    pub consequence: Vec<Stmt>,
    pub alternative: Vec<Stmt>,
}

/// A loop.
#[derive(PartialEq, Eq, Debug)]
pub struct While {
    pub condition: RelOp,
    pub body: Vec<Stmt>,
}

/// A statement.
#[derive(PartialEq, Eq, Debug)]
pub enum Stmt {
    Func(Func),
    If(If),
    While(While),
    Print(Print),
    Return(Return),
    Assignment(Assignment),
    Declaration(Declaration),
}

/// What a `Stmt` stands for.
pub enum StmtView {
    Func { name: Seq<char>, args: Seq<VariableView>, body: Seq<StmtView> },
    If { condition: RelOpView, consequence: Seq<StmtView>, alternative: Seq<StmtView> },
    While { condition: RelOpView, body: Seq<StmtView> },
    Print { value: ExprView },
    Return { value: ExprView },
    Assignment { var: VariableView, value: ExprView, is_decl_and_init: bool },
    Declaration { var: VariableView },
}

/// The views of a parameter list, item by item.
pub open spec fn vars_view(vs: Seq<Variable>) -> Seq<VariableView> {
    Seq::new(vs.len(), |i: int| vs[i]@)
}

/// The view of a statement: the same tree, with texts and sequences in the
/// place of strings and vectors.
pub open spec fn stmt_view(s: Stmt) -> StmtView
    decreases s,
{
    match s {
        Stmt::Func(f) => StmtView::Func {
            name: f.name@,
            args: vars_view(f.args@),
            body: stmts_view(f.body@),
        },
        Stmt::If(i) => StmtView::If {
            condition: relop_view(i.condition),
            consequence: stmts_view(i.consequence@),
            alternative: stmts_view(i.alternative@),
        },
        Stmt::While(w) => StmtView::While {
            condition: relop_view(w.condition),
            body: stmts_view(w.body@),
        },
        Stmt::Print(p) => StmtView::Print { value: expr_view(p.value) },
        Stmt::Return(r) => StmtView::Return { value: expr_view(r.value) },
        Stmt::Assignment(a) => StmtView::Assignment {
            var: a.var@,
            value: expr_view(a.value),
            is_decl_and_init: a.is_decl_and_init,
        },
        Stmt::Declaration(d) => StmtView::Declaration { var: d.var@ },
    }
}

/// The views of a sequence of statements, item by item.
pub open spec fn stmts_view(ss: Seq<Stmt>) -> Seq<StmtView>
    decreases ss,
{
    Seq::new(
        ss.len(),
        |i: int|
            if 0 <= i < ss.len() {
                stmt_view(ss[i])
            } else {
                arbitrary()
            },
    )
}

/// The view of a concatenation is the concatenation of the views.
pub proof fn lemma_stmts_view_concat(a: Seq<Stmt>, b: Seq<Stmt>)
    ensures
        stmts_view(a + b) == stmts_view(a) + stmts_view(b),
{
    assert(stmts_view(a + b) =~= stmts_view(a) + stmts_view(b));
}

impl View for Stmt {
    type V = StmtView;

    open spec fn view(&self) -> StmtView {
        stmt_view(*self)
    }
}

impl View for Func {
    type V = StmtView;

    open spec fn view(&self) -> StmtView {
        stmt_view(Stmt::Func(*self))
    }
}

impl View for If {
    type V = StmtView;

    open spec fn view(&self) -> StmtView {
        stmt_view(Stmt::If(*self))
    }
}

impl View for While {
    type V = StmtView;

    open spec fn view(&self) -> StmtView {
        stmt_view(Stmt::While(*self))
    }
}

impl View for Print {
    type V = StmtView;

    open spec fn view(&self) -> StmtView {
        stmt_view(Stmt::Print(*self))
    }
}

impl View for Return {
    type V = StmtView;

    open spec fn view(&self) -> StmtView {
        stmt_view(Stmt::Return(*self))
    }
}

impl View for Assignment {
    type V = StmtView;

    open spec fn view(&self) -> StmtView {
        stmt_view(Stmt::Assignment(*self))
    }
}

impl View for Declaration {
    type V = StmtView;

    open spec fn view(&self) -> StmtView {
        stmt_view(Stmt::Declaration(*self))
    }
}

impl From<Func> for Stmt {
    fn from(value: Func) -> (r: Self) {
        Stmt::Func(value)
    }
}

impl FromSpecImpl<Func> for Stmt {
    open spec fn obeys_from_spec() -> bool {
        true
    }

    open spec fn from_spec(value: Func) -> Self {
        Stmt::Func(value)
    }
}

impl From<If> for Stmt {
    fn from(value: If) -> (r: Self) {
        Stmt::If(value)
    }
}

impl FromSpecImpl<If> for Stmt {
    open spec fn obeys_from_spec() -> bool {
        true
    }

    open spec fn from_spec(value: If) -> Self {
        Stmt::If(value)
    }
}

impl From<While> for Stmt {
    fn from(value: While) -> (r: Self) {
        Stmt::While(value)
    }
}

impl FromSpecImpl<While> for Stmt {
    open spec fn obeys_from_spec() -> bool {
        true
    }

    open spec fn from_spec(value: While) -> Self {
        Stmt::While(value)
    }
}

impl From<Print> for Stmt {
    fn from(value: Print) -> (r: Self) {
        Stmt::Print(value)
    }
}

impl FromSpecImpl<Print> for Stmt {
    open spec fn obeys_from_spec() -> bool {
        true
    }

    open spec fn from_spec(value: Print) -> Self {
        Stmt::Print(value)
    }
}

impl From<Return> for Stmt {
    fn from(value: Return) -> (r: Self) {
        Stmt::Return(value)
    }
}

impl FromSpecImpl<Return> for Stmt {
    open spec fn obeys_from_spec() -> bool {
        true
    }

    open spec fn from_spec(value: Return) -> Self {
        Stmt::Return(value)
    }
}

impl From<Assignment> for Stmt {
    fn from(value: Assignment) -> (r: Self) {
        Stmt::Assignment(value)
    }
}

impl FromSpecImpl<Assignment> for Stmt {
    open spec fn obeys_from_spec() -> bool {
        true
    }

    open spec fn from_spec(value: Assignment) -> Self {
        Stmt::Assignment(value)
    }
}

impl From<Declaration> for Stmt {
    fn from(value: Declaration) -> (r: Self) {
        Stmt::Declaration(value)
    }
}

impl FromSpecImpl<Declaration> for Stmt {
    open spec fn obeys_from_spec() -> bool {
        true
    }

    open spec fn from_spec(value: Declaration) -> Self {
        Stmt::Declaration(value)
    }
}

impl Print {
    /// `print value;`
    pub fn new<T: Into<Expr>>(value: T) -> (r: Self)
        ensures
            call_ensures(T::into, (value,), r.value),
            T::obeys_into_spec() ==> r.value == value.into_spec(),
    {
        Print { value: value.into() }
    }
}

impl Assignment {
    /// The declaration of `var` with its first value: `var var = value;`
    pub fn new_var<T: Into<Expr>>(var: Variable, value: T) -> (r: Self)
        ensures
            r.var == var,
            r.is_decl_and_init,
            call_ensures(T::into, (value,), r.value),
            T::obeys_into_spec() ==> r.value == value.into_spec(),
    {
        Assignment { var, value: value.into(), is_decl_and_init: true }
    }

    /// A plain assignment to a variable declared elsewhere: `var = value;`
    pub fn assign_var<T: Into<Expr>>(var: Variable, value: T) -> (r: Self)
        ensures
            r.var == var,
            !r.is_decl_and_init,
            call_ensures(T::into, (value,), r.value),
            T::obeys_into_spec() ==> r.value == value.into_spec(),
    {
        Assignment { var, value: value.into(), is_decl_and_init: false }
    }
}

impl Declaration {
    /// `var var;`
    pub fn new(var: Variable) -> (r: Self)
        ensures
            r.var == var,
    {
        Declaration { var }
    }
}

impl Return {
    /// `return value;`
    pub fn new<T: Into<Expr>>(value: T) -> (r: Self)
        ensures
            call_ensures(T::into, (value,), r.value),
            T::obeys_into_spec() ==> r.value == value.into_spec(),
    {
        Return { value: value.into() }
    }
}

impl Func {
    /// The function `name` with its parameters and body.
    pub fn new(name: &str, args: Vec<Variable>, body: Vec<Stmt>) -> (r: Self)
        ensures
            r.name@ == name@,
            r.args == args,
            r.body == body,
    {
        Func { name: name.to_owned(), args, body }
    }
}

impl If {
    /// The conditional on `condition` with its two branches.
    pub fn new(condition: RelOp, consequence: Vec<Stmt>, alternative: Vec<Stmt>) -> (r: Self)
        ensures
            r.condition == condition,
            r.consequence == consequence,
            r.alternative == alternative,
    {
        If { condition, consequence, alternative }
    }
}

impl While {
    /// The loop on `condition` with its body.
    pub fn new(condition: RelOp, body: Vec<Stmt>) -> (r: Self)
        ensures
            r.condition == condition,
            r.body == body,
    {
        While { condition, body }
    }
}

} // verus!
