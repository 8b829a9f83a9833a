use wabbit_compiler::compiler::{compile, normalize};
use wabbit_compiler::error::PassError;
use wabbit_compiler::model::expressions::{
    BinOp, Expr, FuncCall, Number, RelOp, Scope, Variable,
};
use wabbit_compiler::model::statements::{
    Assignment, Declaration, Func, If, Print, Return, Stmt, While,
};
use wabbit_compiler::model::{BinOperator, Program, RelOperator};
use wabbit_compiler::passes::constant_folding::ConstantFolding;

/*
var x = 10;
x = x * 1;
print (23 * 45) + x;
*/
fn program1() -> Program {
    Program {
        stmts: vec![
            Assignment::new_var("x".into(), Number::Int(10)).into(),
            Assignment::assign_var(
                "x".into(),
                BinOp::new("*".parse().unwrap(), Variable::from("x"), Number::Int(1)),
            )
            .into(),
            Print::new(BinOp::new(
                "+".parse().unwrap(),
                BinOp::new("*".parse().unwrap(), Number::Int(23), Number::Int(45)),
                Variable::from("x"),
            ))
            .into(),
        ],
    }
}

/*
func add1(x) {
    x = x + 1;
    return x;
}

var x = 10;
print (23 * 45) + add1(x);   // -> 1046
print x;                     // -> 10
*/
fn program4() -> Program {
    Program {
        stmts: vec![
            Func::new(
                "add1",
                vec![Variable::from("x")],
                vec![
                    Assignment::assign_var(
                        "x".into(),
                        BinOp::new(BinOperator::Add, Variable::from("x"), Number::Int(1)),
                    )
                    .into(),
                    Return::new(Variable::from("x")).into(),
                ],
            )
            .into(),
            Assignment::new_var("x".into(), Number::Int(10)).into(),
            Print::new(BinOp::new(
                BinOperator::Add,
                BinOp::new(BinOperator::Mul, Number::Int(23), Number::Int(45)),
                FuncCall { name: "add1".to_string(), args: vec![Variable::from("x").into()] },
            ))
            .into(),
            Print::new(Variable::from("x")).into(),
        ],
    }
}

#[test]
fn test_compile() {
    /*
    var x = 3;
    var y = 4;
    var min = 0;
    if x < y {
        min = x;
    } else {
        min = y;
    }
    print min;   // -> 3
    */
    let program2 = Program {
        stmts: vec![
            Assignment::new_var("x".into(), Number::Int(3)).into(),
            Assignment::new_var("y".into(), Number::Int(4)).into(),
            Assignment::new_var("min".into(), Number::Int(0)).into(),
            If::new(
                RelOp::new(RelOperator::LessThan, Variable::from("x"), Variable::from("y")),
                vec![Assignment::assign_var("min".into(), Variable::from("x")).into()],
                vec![Assignment::assign_var("min".into(), Variable::from("y")).into()],
            )
            .into(),
            Print::new(Variable::from("min")).into(),
        ],
    };

    /*
    var result = 1;
    var x = 1;
    while x < 10 {
        result = result * x;
        x = x + 1;
    }
    print result;   // -> 362880
    */
    let program3 = Program {
        stmts: vec![
            Assignment::new_var("result".into(), Number::Int(1)).into(),
            Assignment::new_var("x".into(), Number::Int(1)).into(),
            While::new(
                RelOp::new(RelOperator::LessThan, Variable::from("x"), Number::Int(10)),
                vec![
                    Assignment::assign_var(
                        "result".into(),
                        BinOp::new(
                            BinOperator::Mul,
                            Variable::from("result"),
                            Variable::from("x"),
                        ),
                    )
                    .into(),
                    Assignment::assign_var(
                        "x".into(),
                        BinOp::new(BinOperator::Add, Variable::from("x"), Number::Int(1)),
                    )
                    .into(),
                ],
            )
            .into(),
            Print::new(Variable::from("result")).into(),
        ],
    };

    assert_eq!(
        compile(program1()).unwrap(),
        "var x;\nfunc main() {\n    x = 10;\n    x = x * 1;\n    print 1035 + x;\n    return 0;\n}"
    );
    assert_eq!(
        compile(program2).unwrap(),
        "var x;\nvar y;\nvar min;\nfunc main() {\n    x = 3;\n    y = 4;\n    min = 0;\n    if x < y {\n        min = x;\n    } else {\n        min = y;\n    }\n    print min;\n    return 0;\n}"
    );
    assert_eq!(
        compile(program3).unwrap(),
        "var result;\nvar x;\nfunc main() {\n    result = 1;\n    x = 1;\n    while x < 10 {\n        result = result * x;\n        x = x + 1;\n    }\n    print result;\n    return 0;\n}"
    );
    assert_eq!(
        compile(program4()).unwrap(),
        "func add1(x) {\n    x = x + 1;\n    return x;\n}\nvar x;\nfunc main() {\n    x = 10;\n    print 1035 + add1(x);\n    print x;\n    return 0;\n}"
    );
}

#[test]
fn folding_alone_reduces_only_the_literal_product() {
    let folded = ConstantFolding::transform_program(program1());
    let expected: Vec<Stmt> = vec![
        Assignment::new_var("x".into(), Number::Int(10)).into(),
        Assignment::assign_var(
            "x".into(),
            BinOp::new(BinOperator::Mul, Variable::from("x"), Number::Int(1)),
        )
        .into(),
        Print::new(BinOp::new(BinOperator::Add, Number::Int(1035), Variable::from("x"))).into(),
    ];
    assert_eq!(folded.stmts, expected);
}

#[test]
fn normalize_tags_a_top_level_variable_global_everywhere() {
    let normal = normalize(program1()).unwrap();
    let x = || Variable::new_global("x");
    let expected: Vec<Stmt> = vec![
        Declaration::new(x()).into(),
        Func::new(
            "main",
            vec![],
            vec![
                Assignment::assign_var(x(), Number::Int(10)).into(),
                Assignment::assign_var(x(), BinOp::new(BinOperator::Mul, x(), Number::Int(1)))
                    .into(),
                Print::new(BinOp::new(BinOperator::Add, Number::Int(1035), x())).into(),
                Return::new(Number::Int(0)).into(),
            ],
        )
        .into(),
    ];
    assert_eq!(normal.stmts, expected);
}

#[test]
fn normalize_keeps_a_parameter_apart_from_a_global_of_its_name() {
    let normal = normalize(program4()).unwrap();
    let local = || Variable::new_local("x");
    let global = || Variable::new_global("x");
    let expected: Vec<Stmt> = vec![
        // The function stays at the top level, and its body, which ends in a
        // return, is as it was.
        Func::new(
            "add1",
            vec![local()],
            vec![
                Assignment::assign_var(
                    local(),
                    BinOp::new(BinOperator::Add, local(), Number::Int(1)),
                )
                .into(),
                Return::new(local()).into(),
            ],
        )
        .into(),
        Declaration::new(global()).into(),
        Func::new(
            "main",
            vec![],
            vec![
                Assignment::assign_var(global(), Number::Int(10)).into(),
                Print::new(BinOp::new(
                    BinOperator::Add,
                    Number::Int(1035),
                    FuncCall { name: "add1".to_string(), args: vec![global().into()] },
                ))
                .into(),
                Print::new(global()).into(),
                Return::new(Number::Int(0)).into(),
            ],
        )
        .into(),
    ];
    assert_eq!(normal.stmts, expected);
    match &normal.stmts[0] {
        Stmt::Func(add1) => match &add1.body[1] {
            Stmt::Return(ret) => match &ret.value {
                Expr::Variable(v) => assert_eq!(v.scope, Some(Scope::Local)),
                other => panic!("unexpected value {:?}", other),
            },
            other => panic!("unexpected statement {:?}", other),
        },
        other => panic!("unexpected statement {:?}", other),
    }
}

#[test]
fn normalize_names_an_undeclared_variable() {
    let program = Program {
        stmts: vec![
            Assignment::new_var("x".into(), Number::Int(1)).into(),
            Print::new(BinOp::new(BinOperator::Add, Variable::from("x"), Variable::from("y")))
                .into(),
        ],
    };
    assert_eq!(normalize(program), Err(PassError::UnresolvedVariable("y".to_string())));
}

#[test]
fn compile_names_an_undeclared_variable() {
    let program = Program { stmts: vec![Print::new(Variable::from("nowhere")).into()] };
    let err = compile(program).unwrap_err();
    assert_eq!(err, PassError::UnresolvedVariable("nowhere".to_string()));
    assert_eq!(err.message(), "unresolved variable: nowhere");
    assert_eq!(PassError::InvariantViolation.message(), "invariant violation");
}

#[test]
fn compile_of_the_empty_program_is_an_empty_main() {
    assert_eq!(
        compile(Program { stmts: vec![] }).unwrap(),
        "func main() {\n    return 0;\n}"
    );
}
