//! Constant folding: an arithmetic operation on two integer literals becomes
//! the literal of its result.
//!
//! Literal arithmetic wraps around at the bounds of `isize`, as
//! `isize::wrapping_add` and `isize::wrapping_mul` do.
use vstd::arithmetic::div_mod::{lemma_mod_add_multiples_vanish, lemma_small_mod};
use vstd::prelude::*;

use super::pass::{
    expr_spec, exprs_spec, lemma_params_kept, relop_spec, single, stmt_spec, stmts_spec,
    transform_binop, transform_expr, transform_program, Pass, Step,
};
use crate::error::{PassError, PassErrorView};
use crate::model::expressions::{expr_view, BinOp, Expr, ExprView, Number, RelOpView, Variable};
use crate::model::statements::{Stmt, StmtView};
use crate::model::{BinOperator, Program};

verus! {

/// The pass that folds operations on literals.
pub struct ConstantFolding;

/// The sum or the product of two integers, wrapped around at the bounds of
/// `isize`.
pub open spec fn wrapped(op: BinOperator, a: isize, b: isize) -> isize {
    match op {
        BinOperator::Add => a.wrapping_add(b),
        BinOperator::Mul => a.wrapping_mul(b),
    }
}

/// An operation on two folded operands: the literal of the result where both
/// are literals, the operation on them where one is not.
pub open spec fn fold_binop(op: BinOperator, left: ExprView, right: ExprView) -> ExprView {
    match (left, right) {
        (ExprView::Number(Number::Int(a)), ExprView::Number(Number::Int(b))) => ExprView::Number(
            Number::Int(wrapped(op, a, b)),
        ),
        _ => ExprView::BinOp { op, left: Box::new(left), right: Box::new(right) },
    }
}

/// An expression with every operation on literals evaluated, innermost first.
pub open spec fn fold_expr(e: ExprView) -> ExprView
    decreases e,
{
    match e {
        ExprView::FuncCall { name, args } => ExprView::FuncCall { name, args: fold_exprs(args) },
        ExprView::Variable(_) => e,
        ExprView::BinOp { op, left, right } => fold_binop(op, fold_expr(*left), fold_expr(*right)),
        ExprView::RelOp(r) => ExprView::RelOp(fold_relop(r)),
        ExprView::Number(_) => e,
    }
}

/// A comparison with both operands folded. The comparison itself stays.
pub open spec fn fold_relop(r: RelOpView) -> RelOpView
    decreases r,
{
    RelOpView { op: r.op, left: Box::new(fold_expr(*r.left)), right: Box::new(fold_expr(*r.right)) }
}

/// A list of expressions, each folded.
pub open spec fn fold_exprs(es: Seq<ExprView>) -> Seq<ExprView>
    decreases es,
{
    Seq::new(
        es.len(),
        |i: int|
            if 0 <= i < es.len() {
                fold_expr(es[i])
            } else {
                arbitrary()
            },
    )
}

/// A statement with every expression in it folded.
pub open spec fn fold_stmt(s: StmtView) -> StmtView
    decreases s,
{
    match s {
        StmtView::Func { name, args, body } => StmtView::Func {
            name,
            args,
            body: fold_stmts(body),
        },
        StmtView::If { condition, consequence, alternative } => StmtView::If {
            condition: fold_relop(condition),
            consequence: fold_stmts(consequence),
            alternative: fold_stmts(alternative),
        },
        StmtView::While { condition, body } => StmtView::While {
            condition: fold_relop(condition),
            body: fold_stmts(body),
        },
        StmtView::Print { value } => StmtView::Print { value: fold_expr(value) },
        StmtView::Return { value } => StmtView::Return { value: fold_expr(value) },
        StmtView::Assignment { var, value, is_decl_and_init } => StmtView::Assignment {
            var,
            value: fold_expr(value),
            is_decl_and_init,
        },
        StmtView::Declaration { var } => s,
    }
}

/// A body with every expression in it folded.
pub open spec fn fold_stmts(ss: Seq<StmtView>) -> Seq<StmtView>
    decreases ss,
{
    Seq::new(
        ss.len(),
        |i: int|
            if 0 <= i < ss.len() {
                fold_stmt(ss[i])
            } else {
                arbitrary()
            },
    )
}

impl Pass for ConstantFolding {
    type Context = ();

    open spec fn initial_context() -> () {
        ()
    }

    open spec fn expr_rule(node: ExprView, ctx: ()) -> Step<ExprView, Self> {
        match node {
            ExprView::BinOp { op, left, right } => Ok((fold_binop(op, *left, *right), ())),
            _ => Ok((node, ())),
        }
    }

    fn get_context() -> (ctx: ()) {
        ()
    }

    fn enter_function(args: &Vec<Variable>, ctx: &()) -> (body_ctx: ()) {
        ()
    }

    fn rewrite_expr(node: Expr, ctx: &mut ()) -> (r: Result<Expr, PassError>) {
        proof {
            reveal_with_fuel(expr_view, 2);
        }
        match node {
            Expr::BinOp(binop) => {
                let BinOp { op, left, right } = binop;
                match (op, *left, *right) {
                    (
                        BinOperator::Add,
                        Expr::Number(Number::Int(a)),
                        Expr::Number(Number::Int(b)),
                    ) => Ok(Expr::Number(Number::Int(a.wrapping_add(b)))),
                    (
                        BinOperator::Mul,
                        Expr::Number(Number::Int(a)),
                        Expr::Number(Number::Int(b)),
                    ) => Ok(Expr::Number(Number::Int(a.wrapping_mul(b)))),
                    (op, left, right) => Ok(
                        Expr::BinOp(BinOp { op, left: Box::new(left), right: Box::new(right) }),
                    ),
                }
            },
            other => Ok(other),
        }
    }

    fn rewrite_target(var: Variable, is_decl_and_init: bool, ctx: &mut ()) -> (r: Result<
        Variable,
        PassError,
    >) {
        Ok(var)
    }

    fn rewrite_stmt(node: Stmt, ctx: &mut ()) -> (r: Result<Vec<Stmt>, PassError>) {
        Ok(single(node))
    }

    fn rewrite_program(stmts: Vec<Stmt>) -> (r: Vec<Stmt>) {
        stmts
    }
}

/// The framework's rewrite under the rules of constant folding never fails,
/// and folds.
pub proof fn lemma_fold_expr_spec(e: ExprView)
    ensures
        expr_spec::<ConstantFolding>(e, ()) == Ok::<(ExprView, ()), PassErrorView>(
            (fold_expr(e), ()),
        ),
    decreases e,
{
    match e {
        ExprView::FuncCall { name, args } => {
            lemma_fold_exprs_spec(args);
        },
        ExprView::BinOp { op, left, right } => {
            lemma_fold_expr_spec(*left);
            lemma_fold_expr_spec(*right);
        },
        ExprView::RelOp(r) => {
            lemma_fold_relop_spec(r);
        },
        _ => {},
    }
}

proof fn lemma_fold_relop_spec(r: RelOpView)
    ensures
        relop_spec::<ConstantFolding>(r, ()) == Ok::<(RelOpView, ()), PassErrorView>(
            (fold_relop(r), ()),
        ),
    decreases r,
{
    lemma_fold_expr_spec(*r.left);
    lemma_fold_expr_spec(*r.right);
}

proof fn lemma_fold_exprs_spec(es: Seq<ExprView>)
    ensures
        exprs_spec::<ConstantFolding>(es, ()) == Ok::<(Seq<ExprView>, ()), PassErrorView>(
            (fold_exprs(es), ()),
        ),
    decreases es,
{
    if es.len() == 0 {
        assert(fold_exprs(es) =~= Seq::empty());
    } else {
        lemma_fold_exprs_spec(es.drop_last());
        lemma_fold_expr_spec(es.last());
        assert(fold_exprs(es) =~= fold_exprs(es.drop_last()).push(fold_expr(es.last())));
    }
}

proof fn lemma_fold_stmt_spec(s: StmtView)
    ensures
        stmt_spec::<ConstantFolding>(s, ()) == Ok::<(Seq<StmtView>, ()), PassErrorView>(
            (seq![fold_stmt(s)], ()),
        ),
    decreases s,
{
    match s {
        StmtView::Func { name, args, body } => {
            lemma_params_kept::<ConstantFolding>(args, ());
            lemma_fold_stmts_spec(body);
        },
        StmtView::If { condition, consequence, alternative } => {
            lemma_fold_relop_spec(condition);
            lemma_fold_stmts_spec(consequence);
            lemma_fold_stmts_spec(alternative);
        },
        StmtView::While { condition, body } => {
            lemma_fold_relop_spec(condition);
            lemma_fold_stmts_spec(body);
        },
        StmtView::Print { value } => {
            lemma_fold_expr_spec(value);
        },
        StmtView::Return { value } => {
            lemma_fold_expr_spec(value);
        },
        StmtView::Assignment { var, value, is_decl_and_init } => {
            lemma_fold_expr_spec(value);
        },
        StmtView::Declaration { var } => {},
    }
}

/// The same for a body, and so for a program.
pub proof fn lemma_fold_stmts_spec(ss: Seq<StmtView>)
    ensures
        stmts_spec::<ConstantFolding>(ss, ()) == Ok::<(Seq<StmtView>, ()), PassErrorView>(
            (fold_stmts(ss), ()),
        ),
    decreases ss,
{
    if ss.len() == 0 {
        assert(fold_stmts(ss) =~= Seq::empty());
    } else {
        lemma_fold_stmts_spec(ss.drop_last());
        lemma_fold_stmt_spec(ss.last());
        assert(fold_stmts(ss) =~= fold_stmts(ss.drop_last()) + seq![fold_stmt(ss.last())]);
    }
}

impl ConstantFolding {
    /// Folds every operation on literals in a program.
    pub fn transform_program(program: Program) -> (r: Program)
        ensures
            r@ == fold_stmts(program@),
    {
        proof {
            lemma_fold_stmts_spec(program@);
        }
        match transform_program::<ConstantFolding>(program) {
            Ok(folded) => folded,
            Err(_) => unreached(),
        }
    }

    /// Folds every operation on literals in an expression.
    pub fn transform_expr(expr: Expr) -> (r: Expr)
        ensures
            r@ == fold_expr(expr@),
    {
        proof {
            lemma_fold_expr_spec(expr@);
        }
        let mut ctx = ();
        match transform_expr::<ConstantFolding>(expr, &mut ctx) {
            Ok(folded) => folded,
            Err(_) => unreached(),
        }
    }

    /// Folds an operation: its operands first, then, where both have become
    /// literals, the operation itself. An operation on two literals becomes
    /// the literal of the wrapped sum or product, which is the sum or the
    /// product itself where that fits in an `isize`.
    pub fn transform_binop(binop: BinOp) -> (r: Expr)
        ensures
            r@ == fold_expr(binop@),
            (*binop.left, *binop.right) matches (
                Expr::Number(Number::Int(a)),
                Expr::Number(Number::Int(b)),
            ) ==> {
                &&& r == Expr::Number(Number::Int(wrapped(binop.op, a, b)))
                &&& binop.op == BinOperator::Add && isize::MIN <= a + b <= isize::MAX ==> r
                    == Expr::Number(Number::Int((a + b) as isize))
                &&& binop.op == BinOperator::Mul && isize::MIN <= a * b <= isize::MAX ==> r
                    == Expr::Number(Number::Int((a * b) as isize))
            },
    {
        proof {
            lemma_fold_expr_spec(binop@);
            reveal_with_fuel(expr_view, 2);
            reveal_with_fuel(fold_expr, 2);
            let left = *binop.left;
            let right = *binop.right;
            if left is Number && right is Number {
                let a = left->Number_0->Int_0;
                let b = right->Number_0->Int_0;
                if isize::MIN <= a * b <= isize::MAX {
                    lemma_wrapping_mul_exact(a, b);
                }
            }
        }
        let mut ctx = ();
        match transform_binop::<ConstantFolding>(binop, &mut ctx) {
            Ok(folded) => folded,
            Err(_) => unreached(),
        }
    }
}

/// An operation on two literals folds to the literal of the wrapped sum or
/// product.
pub proof fn lemma_fold_literals(op: BinOperator, a: isize, b: isize)
    ensures
        fold_expr(
            ExprView::BinOp {
                op,
                left: Box::new(ExprView::Number(Number::Int(a))),
                right: Box::new(ExprView::Number(Number::Int(b))),
            },
        ) == ExprView::Number(Number::Int(wrapped(op, a, b))),
{
    reveal_with_fuel(fold_expr, 2);
}

/// A product that fits in an `isize` is not changed by wrapping.
pub proof fn lemma_wrapping_mul_exact(a: isize, b: isize)
    requires
        isize::MIN <= a * b <= isize::MAX,
    ensures
        a.wrapping_mul(b) == a * b,
{
    let x: int = a * b;
    let range: int = usize::MAX - usize::MIN + 1;
    if x >= 0 {
        lemma_small_mod(x as nat, range as nat);
    } else {
        lemma_mod_add_multiples_vanish(x, range);
        lemma_small_mod((x + range) as nat, range as nat);
    }
}

/// Where the sum or product of two literals fits in an `isize`, folding
/// yields that very number.
pub proof fn lemma_fold_literals_exact(op: BinOperator, a: isize, b: isize)
    requires
        match op {
            BinOperator::Add => isize::MIN <= a + b <= isize::MAX,
            BinOperator::Mul => isize::MIN <= a * b <= isize::MAX,
        },
    ensures
        fold_expr(
            ExprView::BinOp {
                op,
                left: Box::new(ExprView::Number(Number::Int(a))),
                right: Box::new(ExprView::Number(Number::Int(b))),
            },
        ) matches ExprView::Number(Number::Int(n)) && n == match op {
            BinOperator::Add => a + b,
            BinOperator::Mul => a * b,
        },
{
    reveal_with_fuel(fold_expr, 2);
    if op == BinOperator::Mul {
        lemma_wrapping_mul_exact(a, b);
    }
}

/// An operation of which an operand does not fold to a literal keeps its
/// operator and has both operands folded.
pub proof fn lemma_fold_keeps_operation(op: BinOperator, left: ExprView, right: ExprView)
    requires
        !(fold_expr(left) is Number) || !(fold_expr(right) is Number),
    ensures
        fold_expr(ExprView::BinOp { op, left: Box::new(left), right: Box::new(right) })
            == (ExprView::BinOp {
            op,
            left: Box::new(fold_expr(left)),
            right: Box::new(fold_expr(right)),
        }),
{
}

/// Folding a folded expression changes nothing.
pub proof fn lemma_fold_expr_idempotent(e: ExprView)
    ensures
        fold_expr(fold_expr(e)) == fold_expr(e),
    decreases e,
{
    match e {
        ExprView::FuncCall { name, args } => {
            lemma_fold_exprs_idempotent(args);
        },
        ExprView::BinOp { op, left, right } => {
            lemma_fold_expr_idempotent(*left);
            lemma_fold_expr_idempotent(*right);
        },
        ExprView::RelOp(r) => {
            lemma_fold_relop_idempotent(r);
        },
        _ => {},
    }
}

proof fn lemma_fold_relop_idempotent(r: RelOpView)
    ensures
        fold_relop(fold_relop(r)) == fold_relop(r),
    decreases r,
{
    lemma_fold_expr_idempotent(*r.left);
    lemma_fold_expr_idempotent(*r.right);
}

proof fn lemma_fold_exprs_idempotent(es: Seq<ExprView>)
    ensures
        fold_exprs(fold_exprs(es)) == fold_exprs(es),
    decreases es,
{
    assert forall|i: int| 0 <= i < es.len() implies fold_expr(fold_exprs(es)[i]) == fold_exprs(
        es,
    )[i] by {
        lemma_fold_expr_idempotent(es[i]);
    }
    assert(fold_exprs(fold_exprs(es)) =~= fold_exprs(es));
}

proof fn lemma_fold_stmt_idempotent(s: StmtView)
    ensures
        fold_stmt(fold_stmt(s)) == fold_stmt(s),
    decreases s,
{
    match s {
        StmtView::Func { name, args, body } => {
            lemma_fold_stmts_idempotent(body);
        },
        StmtView::If { condition, consequence, alternative } => {
            lemma_fold_relop_idempotent(condition);
            lemma_fold_stmts_idempotent(consequence);
            lemma_fold_stmts_idempotent(alternative);
        },
        StmtView::While { condition, body } => {
            lemma_fold_relop_idempotent(condition);
            lemma_fold_stmts_idempotent(body);
        },
        StmtView::Print { value } => {
            lemma_fold_expr_idempotent(value);
        },
        StmtView::Return { value } => {
            lemma_fold_expr_idempotent(value);
        },
        StmtView::Assignment { var, value, is_decl_and_init } => {
            lemma_fold_expr_idempotent(value);
        },
        StmtView::Declaration { var } => {},
    }
}

/// Folding a folded program changes nothing.
pub proof fn lemma_fold_stmts_idempotent(ss: Seq<StmtView>)
    ensures
        fold_stmts(fold_stmts(ss)) == fold_stmts(ss),
    decreases ss,
{
    assert forall|i: int| 0 <= i < ss.len() implies fold_stmt(fold_stmts(ss)[i]) == fold_stmts(
        ss,
    )[i] by {
        lemma_fold_stmt_idempotent(ss[i]);
    }
    assert(fold_stmts(fold_stmts(ss)) =~= fold_stmts(ss));
}

} // verus!
