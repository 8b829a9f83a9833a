use wabbit_compiler::model::expressions::{BinOp, Expr, FuncCall, Number, RelOp, Variable};
use wabbit_compiler::model::statements::{Assignment, Print, Stmt, While};
use wabbit_compiler::model::{BinOperator, Program, RelOperator};
use wabbit_compiler::passes::constant_folding::ConstantFolding;
use wabbit_compiler::passes::pass::{transform_binop, transform_expr};

#[test]
fn test_transform_binop_add_number() {
    let binop = BinOp::new("+".parse().unwrap(), Number::Int(1), Number::Int(3));
    let expected = Expr::from(Number::Int(4));

    let actual = ConstantFolding::transform_binop(binop);

    assert_eq!(expected, actual);
}

#[test]
fn test_transform_binop_mul_number() {
    let binop = BinOp::new("*".parse().unwrap(), Number::Int(2), Number::Int(3));
    let expected = Expr::from(Number::Int(6));

    let actual = ConstantFolding::transform_binop(binop);

    assert_eq!(expected, actual);
}

#[test]
fn test_transform_binop_add_variable() {
    let binop = BinOp::new("+".parse().unwrap(), Variable::from("a"), Number::Int(3));
    let expected: Expr =
        BinOp::new("+".parse().unwrap(), Variable::from("a"), Number::Int(3)).into();

    let actual = ConstantFolding::transform_binop(binop);

    assert_eq!(expected, actual);
}

#[test]
fn fold_reduces_nested_literal_operations() {
    // (1 + 2) * (3 + 4) folds from the inside out.
    let binop = BinOp::new(
        BinOperator::Mul,
        BinOp::new(BinOperator::Add, Number::Int(1), Number::Int(2)),
        BinOp::new(BinOperator::Add, Number::Int(3), Number::Int(4)),
    );
    assert_eq!(ConstantFolding::transform_binop(binop), Expr::from(Number::Int(21)));
}

#[test]
fn fold_keeps_operation_with_a_variable_operand() {
    // (2 * 3) + x: the left operand folds, the sum stays.
    let binop = BinOp::new(
        BinOperator::Add,
        BinOp::new(BinOperator::Mul, Number::Int(2), Number::Int(3)),
        Variable::from("x"),
    );
    let expected: Expr = BinOp::new(BinOperator::Add, Number::Int(6), Variable::from("x")).into();
    assert_eq!(ConstantFolding::transform_binop(binop), expected);
}

#[test]
fn fold_does_not_simplify_neutral_elements() {
    let binop = BinOp::new(BinOperator::Add, Variable::from("x"), Number::Int(0));
    let expected: Expr = BinOp::new(BinOperator::Add, Variable::from("x"), Number::Int(0)).into();
    assert_eq!(ConstantFolding::transform_binop(binop), expected);
}

#[test]
fn fold_wraps_around_on_overflow() {
    let sum = BinOp::new(BinOperator::Add, Number::Int(isize::MAX), Number::Int(1));
    assert_eq!(ConstantFolding::transform_binop(sum), Expr::from(Number::Int(isize::MIN)));
    let product = BinOp::new(BinOperator::Mul, Number::Int(isize::MAX), Number::Int(2));
    assert_eq!(ConstantFolding::transform_binop(product), Expr::from(Number::Int(-2)));
    let negative = BinOp::new(BinOperator::Add, Number::Int(isize::MIN), Number::Int(-1));
    assert_eq!(ConstantFolding::transform_binop(negative), Expr::from(Number::Int(isize::MAX)));
}

#[test]
fn fold_folds_operands_of_a_comparison_but_keeps_it() {
    let relop = RelOp::new(
        RelOperator::LessThan,
        BinOp::new(BinOperator::Add, Number::Int(1), Number::Int(1)),
        BinOp::new(BinOperator::Mul, Number::Int(2), Number::Int(2)),
    );
    let expected: Expr = RelOp::new(RelOperator::LessThan, Number::Int(2), Number::Int(4)).into();
    assert_eq!(ConstantFolding::transform_expr(relop.into()), expected);
}

#[test]
fn fold_folds_arguments_of_a_call() {
    let call = FuncCall {
        name: "f".to_string(),
        args: vec![
            BinOp::new(BinOperator::Add, Number::Int(1), Number::Int(2)).into(),
            Variable::from("y").into(),
        ],
    };
    let expected: Expr = FuncCall {
        name: "f".to_string(),
        args: vec![Number::Int(3).into(), Variable::from("y").into()],
    }
    .into();
    assert_eq!(ConstantFolding::transform_expr(call.into()), expected);
}

fn sample_program() -> Program {
    Program {
        stmts: vec![
            Assignment::new_var("x".into(), Number::Int(10)).into(),
            While::new(
                RelOp::new(
                    RelOperator::LessThan,
                    Variable::from("x"),
                    BinOp::new(BinOperator::Mul, Number::Int(4), Number::Int(5)),
                ),
                vec![Print::new(BinOp::new(
                    BinOperator::Add,
                    BinOp::new(BinOperator::Mul, Number::Int(23), Number::Int(45)),
                    Variable::from("x"),
                ))
                .into()],
            )
            .into(),
        ],
    }
}

#[test]
fn fold_program_reaches_every_expression() {
    let folded = ConstantFolding::transform_program(sample_program());
    let expected: Vec<Stmt> = vec![
        Assignment::new_var("x".into(), Number::Int(10)).into(),
        While::new(
            RelOp::new(RelOperator::LessThan, Variable::from("x"), Number::Int(20)),
            vec![Print::new(BinOp::new(
                BinOperator::Add,
                Number::Int(1035),
                Variable::from("x"),
            ))
            .into()],
        )
        .into(),
    ];
    assert_eq!(folded.stmts, expected);
}

#[test]
fn fold_is_idempotent() {
    let once = ConstantFolding::transform_program(sample_program());
    let twice = ConstantFolding::transform_program(ConstantFolding::transform_program(
        sample_program(),
    ));
    assert_eq!(once, twice);
}

#[test]
fn framework_rewrite_agrees_with_the_pass() {
    let binop = BinOp::new(BinOperator::Add, Number::Int(1), Number::Int(3));
    let mut ctx = ();
    assert_eq!(
        transform_binop::<ConstantFolding>(binop, &mut ctx),
        Ok(Expr::from(Number::Int(4)))
    );
    let expr: Expr = BinOp::new(BinOperator::Mul, Number::Int(7), Number::Int(6)).into();
    assert_eq!(transform_expr::<ConstantFolding>(expr, &mut ctx), Ok(Expr::from(Number::Int(42))));
}
