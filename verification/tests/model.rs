use wabbit_compiler::model::expressions::{BinOp, Expr, Number, RelOp, Scope, Variable};
use wabbit_compiler::model::statements::{
    Assignment, Declaration, Func, If, Print, Return, Stmt, While,
};
use wabbit_compiler::model::{BinOperator, InvalidOperator, RelOperator};

#[test]
fn operators_are_read_from_and_written_as_their_symbols() {
    assert_eq!("+".parse::<BinOperator>(), Ok(BinOperator::Add));
    assert_eq!("*".parse::<BinOperator>(), Ok(BinOperator::Mul));
    assert_eq!(BinOperator::from_symbol("+"), Ok(BinOperator::Add));
    assert_eq!(
        BinOperator::from_symbol("-"),
        Err(InvalidOperator { text: "-".to_string() })
    );
    assert_eq!("".parse::<BinOperator>(), Err(InvalidOperator { text: "".to_string() }));
    assert_eq!("++".parse::<BinOperator>(), Err(InvalidOperator { text: "++".to_string() }));
    assert_eq!(BinOperator::Add.symbol(), "+");
    assert_eq!(BinOperator::Mul.symbol(), "*");
    assert_eq!(RelOperator::Equal.symbol(), "==");
    assert_eq!(RelOperator::LessThan.symbol(), "<");
}

#[test]
fn variables_carry_the_scope_they_are_made_with() {
    assert_eq!(Variable::from("x"), Variable { name: "x".to_string(), scope: None });
    assert_eq!(
        Variable::new_global("x"),
        Variable { name: "x".to_string(), scope: Some(Scope::Global) }
    );
    assert_eq!(
        Variable::new_local("x"),
        Variable { name: "x".to_string(), scope: Some(Scope::Local) }
    );
    let v = Variable::new_local("abc");
    assert_eq!(v.clone(), v);
}

#[test]
fn constructors_wrap_their_parts() {
    assert_eq!(Number::from(5), Number::Int(5));
    let binop = BinOp::new(BinOperator::Mul, Variable::from("a"), Number::Int(3));
    assert_eq!(binop.op, BinOperator::Mul);
    assert_eq!(*binop.left, Expr::Variable(Variable::from("a")));
    assert_eq!(*binop.right, Expr::Number(Number::Int(3)));
    let relop = RelOp::new(RelOperator::Equal, Number::Int(1), Variable::from("b"));
    assert_eq!(relop.op, RelOperator::Equal);
    assert_eq!(*relop.left, Expr::Number(Number::Int(1)));
    assert_eq!(*relop.right, Expr::Variable(Variable::from("b")));

    assert_eq!(Print::new(Number::Int(1)).value, Expr::Number(Number::Int(1)));
    assert_eq!(Return::new(Variable::from("r")).value, Expr::Variable(Variable::from("r")));
    let init = Assignment::new_var("x".into(), Number::Int(1));
    assert!(init.is_decl_and_init);
    assert_eq!(init.var, Variable::from("x"));
    assert_eq!(init.value, Expr::Number(Number::Int(1)));
    let plain = Assignment::assign_var("x".into(), Number::Int(1));
    assert!(!plain.is_decl_and_init);
    assert_eq!(Declaration::new("d".into()).var, Variable::from("d"));

    let body = || -> Vec<Stmt> { vec![Print::new(Number::Int(1)).into()] };
    let func = Func::new("f", vec![Variable::from("a")], body());
    assert_eq!(func.name, "f");
    assert_eq!(func.args, vec![Variable::from("a")]);
    assert_eq!(func.body, body());
    let cond = || RelOp::new(RelOperator::LessThan, Number::Int(1), Number::Int(2));
    let branch = If::new(cond(), body(), vec![]);
    assert_eq!(branch.condition, cond());
    assert_eq!(branch.consequence, body());
    assert_eq!(branch.alternative, vec![]);
    let repeat = While::new(cond(), body());
    assert_eq!(repeat.condition, cond());
    assert_eq!(repeat.body, body());
}

#[test]
fn nodes_convert_into_the_enum_of_their_kind() {
    assert!(matches!(Stmt::from(Print::new(Number::Int(1))), Stmt::Print(_)));
    assert!(matches!(Stmt::from(Return::new(Number::Int(1))), Stmt::Return(_)));
    assert!(matches!(Stmt::from(Declaration::new("d".into())), Stmt::Declaration(_)));
    assert!(matches!(
        Stmt::from(Assignment::assign_var("d".into(), Number::Int(1))),
        Stmt::Assignment(_)
    ));
    assert!(matches!(Stmt::from(Func::new("f", vec![], vec![])), Stmt::Func(_)));
    let cond = || RelOp::new(RelOperator::LessThan, Number::Int(1), Number::Int(2));
    assert!(matches!(Stmt::from(If::new(cond(), vec![], vec![])), Stmt::If(_)));
    assert!(matches!(Stmt::from(While::new(cond(), vec![])), Stmt::While(_)));
    assert!(matches!(Expr::from(cond()), Expr::RelOp(_)));
    assert!(matches!(Expr::from(Variable::from("v")), Expr::Variable(_)));
    assert!(matches!(
        Expr::from(BinOp::new(BinOperator::Add, Number::Int(1), Number::Int(2))),
        Expr::BinOp(_)
    ));
}
