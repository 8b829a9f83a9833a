use wabbit_compiler::ast_printer::format_program;
use wabbit_compiler::compiler::compile;
use wabbit_compiler::model::expressions::{BinOp, FuncCall, Number, RelOp, Variable};
use wabbit_compiler::model::statements::{
    Assignment, Declaration, Func, If, Print, Return, Stmt, While,
};
use wabbit_compiler::model::{BinOperator, Program, RelOperator};
use wabbit_compiler::parser::{parse_integer, ParseError, Parser};
use wabbit_compiler::tokenizer::{tokenize, Token, TokenType};

fn parse_source(source: &str) -> Result<Program, ParseError> {
    Parser::new(tokenize(source.as_bytes()).unwrap()).parse()
}

fn parsed(source: &str) -> Vec<Stmt> {
    parse_source(source).unwrap().stmts
}

#[test]
fn parse_reads_each_form_of_statement() {
    let source = "print 1;\n\
                  var x = 1;\n\
                  var y;\n\
                  x = 1;\n\
                  if 1 == 1 { } else { }\n\
                  while 1 < 2 { }\n\
                  func f(x) { }\n\
                  return 1;";
    let one = || Number::Int(1);
    let expected: Vec<Stmt> = vec![
        Print::new(one()).into(),
        Assignment::new_var("x".into(), one()).into(),
        Declaration::new("y".into()).into(),
        Assignment::assign_var("x".into(), one()).into(),
        If::new(RelOp::new(RelOperator::Equal, one(), one()), vec![], vec![]).into(),
        While::new(RelOp::new(RelOperator::LessThan, one(), Number::Int(2)), vec![]).into(),
        Func::new("f", vec![Variable::from("x")], vec![]).into(),
        Return::new(one()).into(),
    ];
    assert_eq!(parsed(source), expected);
}

#[test]
fn parse_reads_each_form_of_expression() {
    let expected: Vec<Stmt> = vec![
        Print::new(Variable::from("a")).into(),
        Print::new(BinOp::new(BinOperator::Add, Variable::from("a"), Number::Int(2))).into(),
        Print::new(BinOp::new(
            BinOperator::Mul,
            BinOp::new(BinOperator::Add, Number::Int(1), Number::Int(2)),
            BinOp::new(BinOperator::Add, Number::Int(3), Number::Int(4)),
        ))
        .into(),
        Print::new(Number::Int(7)).into(),
        Print::new(FuncCall { name: "f".to_string(), args: vec![] }).into(),
        Print::new(FuncCall {
            name: "g".to_string(),
            args: vec![
                Variable::from("a").into(),
                BinOp::new(BinOperator::Mul, Number::Int(2), Variable::from("b")).into(),
                FuncCall { name: "f".to_string(), args: vec![] }.into(),
            ],
        })
        .into(),
    ];
    assert_eq!(
        parsed("print a; print a + 2; print (1 + 2) * (3 + 4); print ((7)); print f(); print g(a, 2 * b, f());"),
        expected
    );
}

#[test]
fn parse_reads_nested_blocks() {
    let source = "func outer(a, b, c) { while a < b { if a == c { return a; } else { a = a + 1; } } }";
    let expected: Vec<Stmt> = vec![Func::new(
        "outer",
        vec![Variable::from("a"), Variable::from("b"), Variable::from("c")],
        vec![While::new(
            RelOp::new(RelOperator::LessThan, Variable::from("a"), Variable::from("b")),
            vec![If::new(
                RelOp::new(RelOperator::Equal, Variable::from("a"), Variable::from("c")),
                vec![Return::new(Variable::from("a")).into()],
                vec![Assignment::assign_var(
                    "a".into(),
                    BinOp::new(BinOperator::Add, Variable::from("a"), Number::Int(1)),
                )
                .into()],
            )
            .into()],
        )
        .into()],
    )
    .into()];
    assert_eq!(parsed(source), expected);
}

#[test]
fn parse_of_no_token_is_the_empty_program() {
    assert_eq!(parsed(""), vec![]);
    assert_eq!(parsed("// nothing but a comment"), vec![]);
}

#[test]
fn parse_reads_what_the_printer_writes() {
    let texts = [
        "var x = 10;\nx = x * 1;\nprint (23 * 45) + x;",
        "var x;\nfunc main() {\n    x = 10;\n    x = x * 1;\n    print 1035 + x;\n    return 0;\n}",
        "func add1(x) {\n    x = x + 1;\n    return x;\n}\nvar x = 10;\nprint (23 * 45) + add1(x);\nprint x;",
        "if x < y {\n    min = x;\n} else {\n    min = y;\n}",
        "while x < 10 {\n    result = result * x;\n    x = x + 1;\n}\nprint result;",
        "print f(1, g(2, h()), (3 + 4) * 5);",
    ];
    for text in texts {
        assert_eq!(format_program(&parse_source(text).unwrap()), text);
    }
}

#[test]
fn parse_and_compile_a_source_text() {
    let source = "func add1(x) { x = x + 1; return x; }\n\
                  var x = 10;\n\
                  print (23 * 45) + add1(x);   // -> 1046\n\
                  print x;                     // -> 10\n";
    assert_eq!(
        compile(parse_source(source).unwrap()).unwrap(),
        "func add1(x) {\n    x = x + 1;\n    return x;\n}\nvar x;\nfunc main() {\n    x = 10;\n    print 1035 + add1(x);\n    print x;\n    return 0;\n}"
    );
}

#[test]
fn parse_ends_where_the_tokens_end_too_early() {
    let sources = [
        "print",
        "print 1",
        "print 1 +",
        "print (1",
        "print f(",
        "print f(1",
        "print f(1,",
        "var",
        "var x",
        "var x =",
        "x",
        "x =",
        "if",
        "if 1",
        "if 1 <",
        "if 1 < 2",
        "if 1 < 2 {",
        "if 1 < 2 { }",
        "if 1 < 2 { } else",
        "if 1 < 2 { } else {",
        "while 1 < 2 { print 1;",
        "func",
        "func f",
        "func f(",
        "func f(a",
        "func f(a,",
        "func f()",
        "return",
    ];
    for source in sources {
        assert_eq!(parse_source(source), Err(ParseError::UnexpectedEnd), "{}", source);
    }
}

#[test]
fn parse_names_the_token_it_needs_and_the_one_it_finds() {
    let expected = |expected: TokenType, found: TokenType| -> Result<Program, ParseError> {
        Err(ParseError::Expected { expected, found })
    };
    assert_eq!(parse_source("print 1 print 2;"), expected(TokenType::Semi, TokenType::Print));
    assert_eq!(parse_source("print (1 + 2;"), expected(TokenType::Rparen, TokenType::Semi));
    assert_eq!(parse_source("print f(1 2);"), expected(TokenType::Rparen, TokenType::Integer));
    assert_eq!(parse_source("var 1 = 2;"), expected(TokenType::Name, TokenType::Integer));
    assert_eq!(parse_source("var x 2;"), expected(TokenType::Assign, TokenType::Integer));
    assert_eq!(parse_source("x + 1;"), expected(TokenType::Assign, TokenType::Plus));
    assert_eq!(parse_source("if 1 < 2 print 1;"), expected(TokenType::Lbrace, TokenType::Print));
    assert_eq!(parse_source("if 1 < 2 { } print 1;"), expected(TokenType::Else, TokenType::Print));
    assert_eq!(parse_source("while 1 < 2 ( )"), expected(TokenType::Lbrace, TokenType::Lparen));
    assert_eq!(parse_source("func (a) { }"), expected(TokenType::Name, TokenType::Lparen));
    assert_eq!(parse_source("func f { }"), expected(TokenType::Lparen, TokenType::Lbrace));
    assert_eq!(parse_source("func f(1) { }"), expected(TokenType::Name, TokenType::Integer));
    assert_eq!(parse_source("func f(a b) { }"), expected(TokenType::Rparen, TokenType::Name));
    assert_eq!(parse_source("func f(a,) { }"), expected(TokenType::Name, TokenType::Rparen));
    // An expression holds one operation: a second operator needs parentheses.
    assert_eq!(parse_source("print 1 + 2 + 3;"), expected(TokenType::Semi, TokenType::Plus));
}

#[test]
fn parse_tells_where_no_statement_or_expression_starts() {
    assert_eq!(
        parse_source("+ 1;"),
        Err(ParseError::ExpectedStatement { found: TokenType::Plus })
    );
    assert_eq!(
        parse_source("print 1; }"),
        Err(ParseError::ExpectedStatement { found: TokenType::Rbrace })
    );
    assert_eq!(
        parse_source("while 1 < 2 { else }"),
        Err(ParseError::ExpectedStatement { found: TokenType::Else })
    );
    assert_eq!(
        parse_source("print ;"),
        Err(ParseError::ExpectedExpression { found: TokenType::Semi })
    );
    assert_eq!(
        parse_source("x = 1 + * 2;"),
        Err(ParseError::ExpectedExpression { found: TokenType::Times })
    );
    assert_eq!(
        parse_source("print f(,);"),
        Err(ParseError::ExpectedExpression { found: TokenType::Comma })
    );
    assert_eq!(
        parse_source("if 1 + 2 { } else { }"),
        Err(ParseError::ExpectedRelOp { found: TokenType::Lbrace })
    );
    assert_eq!(
        parse_source("while x = 2 { }"),
        Err(ParseError::ExpectedRelOp { found: TokenType::Assign })
    );
}

#[test]
fn parse_rejects_an_integer_that_does_not_fit() {
    let above = format!("print {}0;", isize::MAX);
    assert_eq!(parse_source(&above), Err(ParseError::InvalidInteger));
    let max = format!("print {};", isize::MAX);
    assert_eq!(parsed(&max), vec![Stmt::from(Print::new(Number::Int(isize::MAX)))]);
    // A token that is called an integer and is none.
    let tokens = vec![
        Token::new(TokenType::Print, "print".to_string()),
        Token::new(TokenType::Integer, "12a".to_string()),
        Token::new(TokenType::Semi, ";".to_string()),
    ];
    assert_eq!(Parser::new(tokens).parse(), Err(ParseError::InvalidInteger));
}

#[test]
fn parse_integer_reads_decimal_numerals() {
    assert_eq!(parse_integer("0"), Some(0));
    assert_eq!(parse_integer("7"), Some(7));
    assert_eq!(parse_integer("007"), Some(7));
    assert_eq!(parse_integer("1035"), Some(1035));
    assert_eq!(parse_integer(&isize::MAX.to_string()), Some(isize::MAX));
    assert_eq!(parse_integer(&format!("{}", isize::MAX as u128 + 1)), None);
    assert_eq!(parse_integer("99999999999999999999999999999999999999999"), None);
    assert_eq!(parse_integer(""), None);
    assert_eq!(parse_integer("-1"), None);
    assert_eq!(parse_integer("12a"), None);
    assert_eq!(parse_integer("a12"), None);
}

#[test]
fn parse_reads_from_where_the_parser_stands() {
    // A parser that has read its tokens to the end has nothing left to read.
    let mut parser = Parser::new(tokenize(b"print 1; print 2;").unwrap());
    let expected: Vec<Stmt> =
        vec![Print::new(Number::Int(1)).into(), Print::new(Number::Int(2)).into()];
    assert_eq!(parser.parse().unwrap().stmts, expected);
    assert_eq!(parser.parse().unwrap().stmts, vec![]);
}
