use wabbit_compiler::error::PassError;
use wabbit_compiler::model::expressions::{BinOp, Expr, FuncCall, Number, RelOp, Variable};
use wabbit_compiler::model::statements::{
    Assignment, Declaration, Func, If, Print, Return, Stmt, While,
};
use wabbit_compiler::model::{BinOperator, Program, RelOperator};
use wabbit_compiler::passes::add_returns::Returns;
use wabbit_compiler::passes::deinit::DeInit;
use wabbit_compiler::passes::pass::{
    single, transform_params, transform_program, transform_stmt, Pass,
};
use wabbit_compiler::passes::resolve::Resolve;
use wabbit_compiler::passes::unscript::Unscript;

fn cond() -> RelOp {
    RelOp::new(RelOperator::LessThan, Number::Int(1), Number::Int(2))
}

fn zero() -> Stmt {
    Return::new(Number::Int(0)).into()
}

#[test]
fn deinit_splits_in_place() {
    let stmts: Vec<Stmt> = vec![
        Print::new(Number::Int(1)).into(),
        Assignment::new_var("x".into(), Number::Int(10)).into(),
        Print::new(Number::Int(2)).into(),
    ];
    let expected: Vec<Stmt> = vec![
        Print::new(Number::Int(1)).into(),
        Declaration::new("x".into()).into(),
        Assignment::assign_var("x".into(), Number::Int(10)).into(),
        Print::new(Number::Int(2)).into(),
    ];
    assert_eq!(DeInit::transform_stmts_body(stmts), expected);
}

#[test]
fn deinit_reaches_every_body() {
    let init = || -> Stmt { Assignment::new_var("x".into(), Variable::from("y")).into() };
    let split = || -> Vec<Stmt> {
        vec![
            Declaration::new("x".into()).into(),
            Assignment::assign_var("x".into(), Variable::from("y")).into(),
        ]
    };
    let program = Program {
        stmts: vec![
            Func::new("f", vec![Variable::from("y")], vec![init()]).into(),
            If::new(cond(), vec![init()], vec![init()]).into(),
            While::new(cond(), vec![While::new(cond(), vec![init()]).into()]).into(),
        ],
    };
    let expected: Vec<Stmt> = vec![
        Func::new("f", vec![Variable::from("y")], split()).into(),
        If::new(cond(), split(), split()).into(),
        While::new(cond(), vec![While::new(cond(), split()).into()]).into(),
    ];
    assert_eq!(DeInit::transform_program(program).stmts, expected);
}

#[test]
fn deinit_leaves_a_split_program_alone() {
    let stmts = || -> Vec<Stmt> {
        vec![
            Declaration::new("x".into()).into(),
            Assignment::assign_var("x".into(), Number::Int(10)).into(),
            Func::new("f", vec![], vec![Print::new(Variable::from("x")).into()]).into(),
        ]
    };
    assert_eq!(DeInit::transform_stmts_body(stmts()), stmts());
    assert_eq!(DeInit::transform_stmts_body(vec![]), vec![]);
}

#[test]
fn unscript_hoists_declarations_and_functions() {
    let f = || -> Stmt { Func::new("f", vec![], vec![Print::new(Number::Int(0)).into()]).into() };
    let program = Program {
        stmts: vec![
            Print::new(Number::Int(1)).into(),
            Declaration::new("x".into()).into(),
            Assignment::assign_var("x".into(), Number::Int(2)).into(),
            f(),
            If::new(cond(), vec![Declaration::new("y".into()).into()], vec![]).into(),
            Declaration::new("z".into()).into(),
            While::new(cond(), vec![]).into(),
            Return::new(Number::Int(3)).into(),
        ],
    };
    let expected: Vec<Stmt> = vec![
        Declaration::new("x".into()).into(),
        f(),
        Declaration::new("z".into()).into(),
        Func::new(
            "main",
            vec![],
            vec![
                Print::new(Number::Int(1)).into(),
                Assignment::assign_var("x".into(), Number::Int(2)).into(),
                If::new(cond(), vec![Declaration::new("y".into()).into()], vec![]).into(),
                While::new(cond(), vec![]).into(),
                Return::new(Number::Int(3)).into(),
            ],
        )
        .into(),
    ];
    assert_eq!(Unscript::transform_program(program).stmts, expected);
}

#[test]
fn unscript_of_nothing_is_an_empty_main() {
    let expected: Vec<Stmt> = vec![Func::new("main", vec![], vec![]).into()];
    assert_eq!(Unscript::transform_stmts_body(vec![]), expected);
}

#[test]
fn unscript_wraps_what_is_wrapped_again() {
    // A second run finds a top level of functions only: the old `main` is
    // hoisted, and the new one is empty.
    let once = Unscript::transform_stmts_body(vec![Print::new(Number::Int(1)).into()]);
    let twice = Unscript::transform_stmts_body(once);
    let expected: Vec<Stmt> = vec![
        Func::new("main", vec![], vec![Print::new(Number::Int(1)).into()]).into(),
        Func::new("main", vec![], vec![]).into(),
    ];
    assert_eq!(twice, expected);
}

#[test]
fn returns_closes_open_functions_only() {
    let program = Program {
        stmts: vec![
            Func::new("empty", vec![], vec![]).into(),
            Func::new("open", vec![], vec![Print::new(Number::Int(1)).into()]).into(),
            Func::new("closed", vec![], vec![Return::new(Variable::from("x")).into()]).into(),
            Func::new(
                "early",
                vec![],
                vec![Return::new(Number::Int(1)).into(), Print::new(Number::Int(2)).into()],
            )
            .into(),
            Print::new(Number::Int(3)).into(),
        ],
    };
    let expected: Vec<Stmt> = vec![
        Func::new("empty", vec![], vec![zero()]).into(),
        Func::new("open", vec![], vec![Print::new(Number::Int(1)).into(), zero()]).into(),
        Func::new("closed", vec![], vec![Return::new(Variable::from("x")).into()]).into(),
        Func::new(
            "early",
            vec![],
            vec![Return::new(Number::Int(1)).into(), Print::new(Number::Int(2)).into(), zero()],
        )
        .into(),
        Print::new(Number::Int(3)).into(),
    ];
    assert_eq!(Returns::transform_program(program).stmts, expected);
}

#[test]
fn returns_closes_functions_at_any_depth() {
    let inner = |body: Vec<Stmt>| -> Stmt { Func::new("inner", vec![], body).into() };
    let stmts: Vec<Stmt> = vec![
        Func::new("outer", vec![], vec![inner(vec![])]).into(),
        If::new(cond(), vec![inner(vec![])], vec![]).into(),
    ];
    let expected: Vec<Stmt> = vec![
        Func::new("outer", vec![], vec![inner(vec![zero()]), zero()]).into(),
        If::new(cond(), vec![inner(vec![zero()])], vec![]).into(),
    ];
    assert_eq!(Returns::transform_stmts_body(stmts), expected);
}

#[test]
fn returns_is_idempotent() {
    let stmts = || -> Vec<Stmt> { vec![Func::new("f", vec![], vec![]).into()] };
    let once = Returns::transform_stmts_body(stmts());
    let twice = Returns::transform_stmts_body(Returns::transform_stmts_body(stmts()));
    assert_eq!(once, twice);
}

#[test]
fn resolve_tags_declarations_and_uses() {
    let program = Program {
        stmts: vec![
            Declaration::new("g".into()).into(),
            Func::new(
                "f",
                vec![Variable::from("p")],
                vec![
                    Declaration::new("l".into()).into(),
                    Assignment::assign_var(
                        "l".into(),
                        BinOp::new(BinOperator::Add, Variable::from("p"), Variable::from("g")),
                    )
                    .into(),
                    Return::new(Variable::from("l")).into(),
                ],
            )
            .into(),
            Print::new(FuncCall { name: "f".to_string(), args: vec![Variable::from("g").into()] })
                .into(),
        ],
    };
    let expected: Vec<Stmt> = vec![
        Declaration::new(Variable::new_global("g")).into(),
        Func::new(
            "f",
            vec![Variable::new_local("p")],
            vec![
                Declaration::new(Variable::new_local("l")).into(),
                Assignment::assign_var(
                    Variable::new_local("l"),
                    BinOp::new(
                        BinOperator::Add,
                        Variable::new_local("p"),
                        Variable::new_global("g"),
                    ),
                )
                .into(),
                Return::new(Variable::new_local("l")).into(),
            ],
        )
        .into(),
        Print::new(FuncCall {
            name: "f".to_string(),
            args: vec![Variable::new_global("g").into()],
        })
        .into(),
    ];
    assert_eq!(Resolve::transform_program(program).unwrap().stmts, expected);
}

#[test]
fn resolve_keeps_parameters_and_locals_inside_their_function() {
    let uses = |name: &str| -> Program {
        Program {
            stmts: vec![
                Func::new(
                    "f",
                    vec![Variable::from("p")],
                    vec![Declaration::new("l".into()).into()],
                )
                .into(),
                Print::new(Variable::from(name)).into(),
            ],
        }
    };
    assert_eq!(
        Resolve::transform_program(uses("p")),
        Err(PassError::UnresolvedVariable("p".to_string()))
    );
    assert_eq!(
        Resolve::transform_program(uses("l")),
        Err(PassError::UnresolvedVariable("l".to_string()))
    );
}

#[test]
fn resolve_lets_a_local_shadow_a_global_from_its_declaration_on() {
    let program = Program {
        stmts: vec![
            Declaration::new("x".into()).into(),
            Func::new(
                "f",
                vec![],
                vec![
                    Print::new(Variable::from("x")).into(),
                    Declaration::new("x".into()).into(),
                    Print::new(Variable::from("x")).into(),
                ],
            )
            .into(),
            Print::new(Variable::from("x")).into(),
        ],
    };
    let expected: Vec<Stmt> = vec![
        Declaration::new(Variable::new_global("x")).into(),
        Func::new(
            "f",
            vec![],
            vec![
                Print::new(Variable::new_global("x")).into(),
                Declaration::new(Variable::new_local("x")).into(),
                Print::new(Variable::new_local("x")).into(),
            ],
        )
        .into(),
        Print::new(Variable::new_global("x")).into(),
    ];
    assert_eq!(Resolve::transform_program(program).unwrap().stmts, expected);
}

#[test]
fn resolve_sees_what_a_branch_declares_after_the_branch() {
    // A conditional and a loop open no scope of their own.
    let program = Program {
        stmts: vec![
            If::new(cond(), vec![Declaration::new("a".into()).into()], vec![]).into(),
            While::new(cond(), vec![Declaration::new("b".into()).into()]).into(),
            Print::new(BinOp::new(BinOperator::Add, Variable::from("a"), Variable::from("b")))
                .into(),
        ],
    };
    let resolved = Resolve::transform_program(program).unwrap();
    let expected: Stmt = Print::new(BinOp::new(
        BinOperator::Add,
        Variable::new_global("a"),
        Variable::new_global("b"),
    ))
    .into();
    assert_eq!(resolved.stmts[2], expected);
}

#[test]
fn resolve_reports_the_first_fault_in_source_order() {
    let program = Program {
        stmts: vec![
            Assignment::assign_var(
                "target".into(),
                BinOp::new(BinOperator::Add, Variable::from("left"), Variable::from("right")),
            )
            .into(),
            Print::new(Variable::from("later")).into(),
        ],
    };
    assert_eq!(
        Resolve::transform_program(program),
        Err(PassError::UnresolvedVariable("target".to_string()))
    );
    let program = Program {
        stmts: vec![
            Declaration::new("target".into()).into(),
            Assignment::assign_var(
                "target".into(),
                BinOp::new(BinOperator::Add, Variable::from("left"), Variable::from("right")),
            )
            .into(),
        ],
    };
    assert_eq!(
        Resolve::transform_program(program),
        Err(PassError::UnresolvedVariable("left".to_string()))
    );
}

#[test]
fn resolve_rejects_an_initialised_declaration() {
    let program =
        Program { stmts: vec![Assignment::new_var("x".into(), Number::Int(1)).into()] };
    assert_eq!(Resolve::transform_program(program), Err(PassError::InvariantViolation));
}

#[test]
fn resolve_does_not_resolve_function_names() {
    let program = Program {
        stmts: vec![Print::new(FuncCall { name: "unknown".to_string(), args: vec![] }).into()],
    };
    let expected: Vec<Stmt> =
        vec![Print::new(FuncCall { name: "unknown".to_string(), args: vec![] }).into()];
    assert_eq!(Resolve::transform_program(program).unwrap().stmts, expected);
}

/// A pass that puts a literal in the place of every variable.
struct Erase;

impl Pass for Erase {
    type Context = ();

    fn get_context() {}

    fn enter_function(_args: &Vec<Variable>, _ctx: &()) {}

    fn rewrite_expr(node: Expr, _ctx: &mut ()) -> Result<Expr, PassError> {
        match node {
            Expr::Variable(_) => Ok(Number::Int(0).into()),
            other => Ok(other),
        }
    }

    fn rewrite_target(
        var: Variable,
        _is_decl_and_init: bool,
        _ctx: &mut (),
    ) -> Result<Variable, PassError> {
        Ok(var)
    }

    fn rewrite_stmt(node: Stmt, _ctx: &mut ()) -> Result<Vec<Stmt>, PassError> {
        Ok(single(node))
    }

    fn rewrite_program(stmts: Vec<Stmt>) -> Vec<Stmt> {
        stmts
    }
}

#[test]
fn framework_rejects_a_parameter_that_is_no_variable() {
    let mut ctx = ();
    assert_eq!(
        transform_params::<Erase>(vec![Variable::from("p")], &mut ctx),
        Err(PassError::InvariantViolation)
    );
    assert_eq!(transform_params::<Erase>(vec![], &mut ctx), Ok(vec![]));
    let program = Program { stmts: vec![Func::new("f", vec![Variable::from("p")], vec![]).into()] };
    assert_eq!(transform_program::<Erase>(program), Err(PassError::InvariantViolation));
}

#[test]
fn framework_applies_the_rules_of_any_pass() {
    let mut ctx = ();
    let stmt: Stmt = Print::new(BinOp::new(BinOperator::Add, Variable::from("x"), Number::Int(1)))
        .into();
    let expected: Vec<Stmt> =
        vec![Print::new(BinOp::new(BinOperator::Add, Number::Int(0), Number::Int(1))).into()];
    assert_eq!(transform_stmt::<Erase>(stmt, &mut ctx), Ok(expected));
}
