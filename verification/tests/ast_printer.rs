use wabbit_compiler::ast_printer::{
    format_binop, format_expr, format_func, format_number, format_program, format_stmt, indent,
};
use wabbit_compiler::model::expressions::{BinOp, Expr, FuncCall, Number, RelOp, Variable};
use wabbit_compiler::model::statements::{
    Assignment, Declaration, Func, If, Print, Return, Stmt, While,
};
use wabbit_compiler::model::{BinOperator, Program, RelOperator};

#[test]
fn test_format_bin_op() {
    let binop_case1 = BinOp::new(
        BinOperator::Add,
        Number::Int(2),
        BinOp::new(BinOperator::Mul, Number::Int(3), Number::Int(4)),
    );

    let binop_case2 = BinOp::new(
        BinOperator::Add,
        BinOp::new(BinOperator::Mul, Variable::from("x"), Number::Int(9)),
        BinOp::new(BinOperator::Mul, Number::Int(3), Number::Int(4)),
    );

    assert_eq!(format_binop(&binop_case1), "2 + (3 * 4)");
    assert_eq!(format_binop(&binop_case2), "(x * 9) + (3 * 4)");
}

#[test]
fn test_format_func() {
    let func_abc = Func::new(
        "abc",
        vec![Variable::from("a"), Variable::from("b"), Variable::from("c")],
        vec![Print::new(BinOp::new(
            BinOperator::Mul,
            Variable::from("a"),
            BinOp::new(BinOperator::Add, Variable::from("b"), Variable::from("c")),
        ))
        .into()],
    );

    let func_xyz = Func::new(
        "xyz",
        vec![Variable::from("x"), Variable::from("y"), Variable::from("z")],
        vec![While::new(
            RelOp::new(RelOperator::LessThan, Variable::from("x"), Variable::from("y")),
            vec![Print::new(BinOp::new(
                BinOperator::Mul,
                Variable::from("x"),
                BinOp::new(BinOperator::Add, Variable::from("y"), Variable::from("z")),
            ))
            .into()],
        )
        .into()],
    );

    let func_xyz_abc = Func::new(
        "xyz",
        vec![Variable::from("x"), Variable::from("y"), Variable::from("z")],
        vec![While::new(
            RelOp::new(RelOperator::LessThan, Variable::from("x"), Variable::from("y")),
            vec![
                Print::new(BinOp::new(
                    BinOperator::Mul,
                    Variable::from("x"),
                    BinOp::new(BinOperator::Add, Variable::from("y"), Variable::from("z")),
                ))
                .into(),
                Print::new(Number::Int(5)).into(),
            ],
        )
        .into()],
    );

    assert_eq!(format_func(&func_abc), "func abc(a, b, c) {\n    print a * (b + c);\n}");
    assert_eq!(
        format_func(&func_xyz),
        "func xyz(x, y, z) {\n    while x < y {\n        print x * (y + z);\n    }\n}"
    );
    assert_eq!(
        format_func(&func_xyz_abc),
        "func xyz(x, y, z) {\n    while x < y {\n        print x * (y + z);\n        print 5;\n    }\n}"
    );
}

#[test]
fn format_number_writes_decimal_numerals() {
    assert_eq!(format_number(&Number::Int(0)), "0");
    assert_eq!(format_number(&Number::Int(7)), "7");
    assert_eq!(format_number(&Number::Int(10)), "10");
    assert_eq!(format_number(&Number::Int(1035)), "1035");
    assert_eq!(format_number(&Number::Int(-42)), "-42");
    assert_eq!(format_number(&Number::Int(isize::MAX)), isize::MAX.to_string());
    assert_eq!(format_number(&Number::Int(isize::MIN)), isize::MIN.to_string());
}

#[test]
fn indent_moves_every_line_in() {
    assert_eq!(indent(""), "");
    assert_eq!(indent("a"), "    a");
    assert_eq!(indent("a\nb"), "    a\n    b");
    assert_eq!(indent("a\n\nb"), "    a\n    \n    b");
    assert_eq!(indent("\n"), "    \n    ");
}

#[test]
fn format_expr_renders_each_kind() {
    let call: Expr = FuncCall {
        name: "add".to_string(),
        args: vec![
            Variable::from("x").into(),
            BinOp::new(BinOperator::Add, Number::Int(1), Number::Int(2)).into(),
        ],
    }
    .into();
    assert_eq!(format_expr(&call), "add(x, 1 + 2)");
    let no_args: Expr = FuncCall { name: "f".to_string(), args: vec![] }.into();
    assert_eq!(format_expr(&no_args), "f()");
    let relop: Expr = RelOp::new(RelOperator::Equal, Variable::from("a"), Number::Int(1)).into();
    assert_eq!(format_expr(&relop), "a == 1");
    let less: Expr = RelOp::new(
        RelOperator::LessThan,
        BinOp::new(BinOperator::Add, Variable::from("a"), Number::Int(1)),
        Number::Int(3),
    )
    .into();
    assert_eq!(format_expr(&less), "a + 1 < 3");
    assert_eq!(format_expr(&Variable::new_global("g").into()), "g");
}

#[test]
fn format_stmt_renders_each_kind() {
    let decl: Stmt = Declaration::new("x".into()).into();
    assert_eq!(format_stmt(&decl), "var x;");
    let init: Stmt = Assignment::new_var("x".into(), Number::Int(1)).into();
    assert_eq!(format_stmt(&init), "var x = 1;");
    let assign: Stmt = Assignment::assign_var("x".into(), Number::Int(2)).into();
    assert_eq!(format_stmt(&assign), "x = 2;");
    let print: Stmt = Print::new(Variable::from("x")).into();
    assert_eq!(format_stmt(&print), "print x;");
    let ret: Stmt = Return::new(Number::Int(0)).into();
    assert_eq!(format_stmt(&ret), "return 0;");
    let branch: Stmt = If::new(
        RelOp::new(RelOperator::LessThan, Variable::from("x"), Number::Int(3)),
        vec![Print::new(Number::Int(1)).into()],
        vec![],
    )
    .into();
    assert_eq!(format_stmt(&branch), "if x < 3 {\n    print 1;\n} else {\n\n}");
    let empty: Stmt = Func::new("f", vec![], vec![]).into();
    assert_eq!(format_stmt(&empty), "func f() {\n\n}");
}

#[test]
fn format_program_puts_statements_on_lines() {
    let program = Program {
        stmts: vec![
            Declaration::new("x".into()).into(),
            Assignment::assign_var("x".into(), Number::Int(2)).into(),
            Print::new(Variable::from("x")).into(),
        ],
    };
    assert_eq!(format_program(&program), "var x;\nx = 2;\nprint x;");
    assert_eq!(format_program(&Program { stmts: vec![] }), "");
}
