//! Expressions, and the mathematical trees that stand for them in contracts.
use vstd::prelude::*;
use vstd::std_specs::convert::{FromSpecImpl, IntoSpec};

use super::{BinOperator, RelOperator};

verus! {

/// Where a variable is bound: at the top level or inside a function.
#[derive(Debug, PartialEq, Eq, Clone, Copy)]
pub enum Scope {
    Local,
    Global,
}

/// An integer literal.
#[derive(PartialEq, Eq, Debug)]
pub enum Number {
    Int(isize),
}

/// A variable by name. `scope` is unset until scopes are resolved.
#[derive(PartialEq, Eq, Debug)]
pub struct Variable {
    pub name: String,
    pub scope: Option<Scope>,
}

/// A call of a function by name.
#[derive(PartialEq, Eq, Debug)]
pub struct FuncCall {
    pub name: String,
    pub args: Vec<Expr>,
}

/// An arithmetic operation on two operands.
#[derive(PartialEq, Eq, Debug)]
pub struct BinOp {
    pub op: BinOperator,
    pub left: Box<Expr>,
    pub right: Box<Expr>,
}

/// A comparison of two operands.
#[derive(PartialEq, Eq, Debug)]
pub struct RelOp {
    pub op: RelOperator,
    pub left: Box<Expr>,
    pub right: Box<Expr>,
}

/// An expression.
#[derive(PartialEq, Eq, Debug)]
pub enum Expr {
    FuncCall(FuncCall),
    Variable(Variable),
    BinOp(BinOp),
    RelOp(RelOp),
    Number(Number),
}

/// What a `Variable` stands for.
pub struct VariableView {
    pub name: Seq<char>,
    pub scope: Option<Scope>,
}

/// What a `RelOp` stands for.
pub struct RelOpView {
    pub op: RelOperator,
    pub left: Box<ExprView>,
    pub right: Box<ExprView>,
}

/// What an `Expr` stands for.
pub enum ExprView {
    FuncCall { name: Seq<char>, args: Seq<ExprView> },
    Variable(VariableView),
    BinOp { op: BinOperator, left: Box<ExprView>, right: Box<ExprView> },
    RelOp(RelOpView),
    Number(Number),
}

/// The view of an expression: the same tree, with texts and sequences in
/// the place of strings and vectors.
pub open spec fn expr_view(e: Expr) -> ExprView
    decreases e,
{
    match e {
        Expr::FuncCall(c) => ExprView::FuncCall { name: c.name@, args: exprs_view(c.args@) },
        Expr::Variable(v) => ExprView::Variable(v@),
        Expr::BinOp(b) => ExprView::BinOp {
            op: b.op,
            left: Box::new(expr_view(*b.left)),
            right: Box::new(expr_view(*b.right)),
        },
        Expr::RelOp(r) => ExprView::RelOp(relop_view(r)),
        Expr::Number(n) => ExprView::Number(n),
    }
}

/// The view of a comparison.
pub open spec fn relop_view(r: RelOp) -> RelOpView
    decreases r,
{
    RelOpView {
        op: r.op,
        left: Box::new(expr_view(*r.left)),
        right: Box::new(expr_view(*r.right)),
    }
}

/// The views of a sequence of expressions, item by item.
pub open spec fn exprs_view(es: Seq<Expr>) -> Seq<ExprView>
    decreases es,
{
    Seq::new(
        es.len(),
        |i: int|
            if 0 <= i < es.len() {
                expr_view(es[i])
            } else {
                arbitrary()
            },
    )
}

impl View for Variable {
    type V = VariableView;

    open spec fn view(&self) -> VariableView {
        VariableView { name: self.name@, scope: self.scope }
    }
}

impl View for Expr {
    type V = ExprView;

    open spec fn view(&self) -> ExprView {
        expr_view(*self)
    }
}

impl View for RelOp {
    type V = RelOpView;

    open spec fn view(&self) -> RelOpView {
        relop_view(*self)
    }
}

impl View for BinOp {
    type V = ExprView;

    open spec fn view(&self) -> ExprView {
        expr_view(Expr::BinOp(*self))
    }
}

impl View for FuncCall {
    type V = ExprView;

    open spec fn view(&self) -> ExprView {
        expr_view(Expr::FuncCall(*self))
    }
}

impl Clone for Variable {
    fn clone(&self) -> (r: Self)
        ensures
            r == *self,
    {
        Variable { name: self.name.clone(), scope: self.scope }
    }
}

impl Variable {
    /// A variable bound at the top level.
    pub fn new_global(value: &str) -> (r: Self)
        ensures
            r@ == (VariableView { name: value@, scope: Some(Scope::Global) }),
    {
        Variable { name: value.to_owned(), scope: Some(Scope::Global) }
    }

    /// A variable bound inside a function.
    pub fn new_local(value: &str) -> (r: Self)
        ensures
            r@ == (VariableView { name: value@, scope: Some(Scope::Local) }),
    {
        Variable { name: value.to_owned(), scope: Some(Scope::Local) }
    }
}

/// An unresolved variable of the given name. The result is stated by its
/// view, as no spec expression builds a `String`.
impl From<&str> for Variable {
    fn from(value: &str) -> (r: Self)
        ensures
            r@ == (VariableView { name: value@, scope: None }),
    {
        Variable { name: value.to_owned(), scope: None }
    }
}

impl FromSpecImpl<&str> for Variable {
    open spec fn obeys_from_spec() -> bool {
        false
    }

    open spec fn from_spec(value: &str) -> Self {
        arbitrary()
    }
}

impl From<isize> for Number {
    fn from(value: isize) -> (r: Self) {
        Number::Int(value)
    }
}

impl FromSpecImpl<isize> for Number {
    open spec fn obeys_from_spec() -> bool {
        true
    }

    open spec fn from_spec(value: isize) -> Self {
        Number::Int(value)
    }
}

impl From<FuncCall> for Expr {
    fn from(value: FuncCall) -> (r: Self) {
        Expr::FuncCall(value)
    }
}

impl FromSpecImpl<FuncCall> for Expr {
    open spec fn obeys_from_spec() -> bool {
        true
    }

    open spec fn from_spec(value: FuncCall) -> Self {
        Expr::FuncCall(value)
    }
}

impl From<Variable> for Expr {
    fn from(value: Variable) -> (r: Self) {
        Expr::Variable(value)
    }
}

impl FromSpecImpl<Variable> for Expr {
    open spec fn obeys_from_spec() -> bool {
        true
    }

    open spec fn from_spec(value: Variable) -> Self {
        Expr::Variable(value)
    }
}

impl From<BinOp> for Expr {
    fn from(value: BinOp) -> (r: Self) {
        Expr::BinOp(value)
    }
}

impl FromSpecImpl<BinOp> for Expr {
    open spec fn obeys_from_spec() -> bool {
        true
    }

    open spec fn from_spec(value: BinOp) -> Self {
        Expr::BinOp(value)
    }
}

impl From<RelOp> for Expr {
    fn from(value: RelOp) -> (r: Self) {
        Expr::RelOp(value)
    }
}

impl FromSpecImpl<RelOp> for Expr {
    open spec fn obeys_from_spec() -> bool {
        true
    }

    open spec fn from_spec(value: RelOp) -> Self {
        Expr::RelOp(value)
    }
}

impl From<Number> for Expr {
    fn from(value: Number) -> (r: Self) {
        Expr::Number(value)
    }
}

impl FromSpecImpl<Number> for Expr {
    open spec fn obeys_from_spec() -> bool {
        true
    }

    open spec fn from_spec(value: Number) -> Self {
        Expr::Number(value)
    }
}

impl BinOp {
    /// The operation `left op right`.
    pub fn new<L: Into<Expr>, R: Into<Expr>>(op: BinOperator, left: L, right: R) -> (r: Self)
        ensures
            r.op == op,
            call_ensures(L::into, (left,), *r.left),
            call_ensures(R::into, (right,), *r.right),
            L::obeys_into_spec() ==> *r.left == left.into_spec(),
            R::obeys_into_spec() ==> *r.right == right.into_spec(),
    {
        BinOp { op, left: Box::new(left.into()), right: Box::new(right.into()) }
    }
}

impl RelOp {
    /// The comparison `left op right`.
    pub fn new<L: Into<Expr>, R: Into<Expr>>(op: RelOperator, left: L, right: R) -> (r: Self)
        ensures
            r.op == op,
            call_ensures(L::into, (left,), *r.left),
            call_ensures(R::into, (right,), *r.right),
            L::obeys_into_spec() ==> *r.left == left.into_spec(),
            R::obeys_into_spec() ==> *r.right == right.into_spec(),
    {
        RelOp { op, left: Box::new(left.into()), right: Box::new(right.into()) }
    }
}

} // verus!
