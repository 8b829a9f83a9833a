//! The parser: from tokens to a program.
//!
//! ```text
//! program := stmt*
//! stmt    := 'print' expr ';'
//!          | 'var' NAME ';'
//!          | 'var' NAME '=' expr ';'
//!          | NAME '=' expr ';'
//!          | 'if' relop block 'else' block
//!          | 'while' relop block
//!          | 'func' NAME '(' [ NAME { ',' NAME } ] ')' block
//!          | 'return' expr ';'
//! block   := '{' stmt* '}'
//! relop   := expr ( '<' | '==' ) expr
//! expr    := term [ ( '+' | '*' ) term ]
//! term    := INTEGER | NAME | NAME '(' [ expr { ',' expr } ] ')' | '(' expr ')'
//! ```
//!
//! An expression holds one operation at most: an operand that is an
//! operation itself stands in parentheses. The parser reads from left to
//! right, looks two tokens ahead at most, and ends at the first token that
//! fits nowhere. Every variable of what it returns has its scope unset.
//!
//! What the parser returns is given by the `*_spec` functions of this module,
//! over the views of the tokens: each takes the place where it starts and
//! gives the tree it reads with the place after it.
use vstd::prelude::*;

pub mod round_trip;

use crate::model::expressions::{
    exprs_view, BinOp, Expr, ExprView, FuncCall, Number, RelOp, RelOpView, Variable, VariableView,
};
use crate::model::statements::{
    stmts_view, vars_view, Assignment, Declaration, Func, If, Print, Return, Stmt, StmtView, While,
};
use crate::model::{BinOperator, Program, RelOperator};
use crate::tokenizer::{
    digits_end, is_digit, lemma_digits_end_bounds, scan, text_of, tokens_view, Scan, Token,
    TokenType, TokenView,
};

verus! {

/// The fault that ends a parse: the first token, from the left, that fits
/// nowhere.
#[derive(Copy, Clone, PartialEq, Eq, Debug)]
pub enum ParseError {
    /// The tokens end where one more is needed.
    UnexpectedEnd,
    /// A token of the kind `found` stands where one of the kind `expected`
    /// is needed.
    Expected { expected: TokenType, found: TokenType },
    /// A token of the kind `found` stands where `<` or `==` is needed.
    ExpectedRelOp { found: TokenType },
    /// A token of the kind `found` stands where a statement has to start.
    ExpectedStatement { found: TokenType },
    /// A token of the kind `found` stands where an expression has to start.
    ExpectedExpression { found: TokenType },
    /// An integer is no decimal numeral, or is above `isize::MAX`.
    InvalidInteger,
}

/// The value of a decimal digit.
pub open spec fn digit_value(c: char) -> Option<int> {
    if c == '0' {
        Some(0)
    } else if c == '1' {
        Some(1)
    } else if c == '2' {
        Some(2)
    } else if c == '3' {
        Some(3)
    } else if c == '4' {
        Some(4)
    } else if c == '5' {
        Some(5)
    } else if c == '6' {
        Some(6)
    } else if c == '7' {
        Some(7)
    } else if c == '8' {
        Some(8)
    } else if c == '9' {
        Some(9)
    } else {
        None
    }
}

/// The value of a decimal numeral; `None` for the empty text and for a text
/// with anything but digits in it.
pub open spec fn numeral_value(text: Seq<char>) -> Option<int>
    decreases text.len(),
{
    if text.len() == 0 {
        None
    } else if text.len() == 1 {
        digit_value(text[0])
    } else {
        match (numeral_value(text.drop_last()), digit_value(text.last())) {
            (Some(v), Some(d)) => Some(10 * v + d),
            _ => None,
        }
    }
}

/// The integer that a literal denotes, where it is a numeral of a value that
/// an `isize` holds.
pub open spec fn literal_value(text: Seq<char>) -> Option<isize> {
    match numeral_value(text) {
        Some(v) => if v <= isize::MAX {
            Some(v as isize)
        } else {
            None
        },
        None => None,
    }
}

/// The kind of the token at `pos`, if there is one.
pub open spec fn kind_at(ts: Seq<TokenView>, pos: int) -> Option<TokenType> {
    if 0 <= pos < ts.len() {
        Some(ts[pos].token_type)
    } else {
        None
    }
}

/// The place after the token at `pos`, which has to be of the kind
/// `expected`.
pub open spec fn expect_spec(ts: Seq<TokenView>, pos: int, expected: TokenType) -> Result<
    int,
    ParseError,
> {
    match kind_at(ts, pos) {
        Some(found) => if found == expected {
            Ok(pos + 1)
        } else {
            Err(ParseError::Expected { expected, found })
        },
        None => Err(ParseError::UnexpectedEnd),
    }
}

/// The arithmetic operator that the token at `pos` is, if it is one.
pub open spec fn binop_at(ts: Seq<TokenView>, pos: int) -> Option<BinOperator> {
    match kind_at(ts, pos) {
        Some(TokenType::Plus) => Some(BinOperator::Add),
        Some(TokenType::Times) => Some(BinOperator::Mul),
        _ => None,
    }
}

/// The relational operator at `pos`.
pub open spec fn relop_at(ts: Seq<TokenView>, pos: int) -> Result<RelOperator, ParseError> {
    match kind_at(ts, pos) {
        Some(TokenType::Lt) => Ok(RelOperator::LessThan),
        Some(TokenType::Eq) => Ok(RelOperator::Equal),
        Some(found) => Err(ParseError::ExpectedRelOp { found }),
        None => Err(ParseError::UnexpectedEnd),
    }
}

/// What was read from `pos` ends at `next`, after `pos` and within the
/// tokens. This holds of everything that the parser reads; where a `*_spec`
/// function asks for it, it does so for its own termination.
pub open spec fn moved(ts: Seq<TokenView>, pos: int, next: int) -> bool {
    pos < next <= ts.len()
}

/// The term that starts at `pos`: a literal, a variable, a call, or an
/// expression in parentheses.
pub open spec fn term_spec(ts: Seq<TokenView>, pos: int) -> Result<(ExprView, int), ParseError>
    decreases ts.len() - pos, 0nat,
{
    match kind_at(ts, pos) {
        None => Err(ParseError::UnexpectedEnd),
        Some(TokenType::Integer) => match literal_value(ts[pos].token_str) {
            Some(n) => Ok((ExprView::Number(Number::Int(n)), pos + 1)),
            None => Err(ParseError::InvalidInteger),
        },
        Some(TokenType::Name) => if kind_at(ts, pos + 1) == Some(TokenType::Lparen) {
            match args_spec(ts, pos + 2) {
                Ok((args, next)) => Ok(
                    (ExprView::FuncCall { name: ts[pos].token_str, args }, next),
                ),
                Err(err) => Err(err),
            }
        } else {
            Ok(
                (
                    ExprView::Variable(VariableView { name: ts[pos].token_str, scope: None }),
                    pos + 1,
                ),
            )
        },
        Some(TokenType::Lparen) => match expr_spec(ts, pos + 1) {
            Ok((e, next)) => match expect_spec(ts, next, TokenType::Rparen) {
                Ok(after) => Ok((e, after)),
                Err(err) => Err(err),
            },
            Err(err) => Err(err),
        },
        Some(found) => Err(ParseError::ExpectedExpression { found }),
    }
}

/// The expression that starts at `pos`: a term, or two terms with an
/// arithmetic operator between them.
pub open spec fn expr_spec(ts: Seq<TokenView>, pos: int) -> Result<(ExprView, int), ParseError>
    decreases ts.len() - pos, 1nat,
{
    match term_spec(ts, pos) {
        Ok((left, next)) => match binop_at(ts, next) {
            Some(op) => if moved(ts, pos, next) {
                match term_spec(ts, next + 1) {
                    Ok((right, after)) => Ok(
                        (
                            ExprView::BinOp { op, left: Box::new(left), right: Box::new(right) },
                            after,
                        ),
                    ),
                    Err(err) => Err(err),
                }
            } else {
                Err(ParseError::UnexpectedEnd)
            },
            None => Ok((left, next)),
        },
        Err(err) => Err(err),
    }
}

/// The arguments of a call, from after its `(` to its `)`.
pub open spec fn args_spec(ts: Seq<TokenView>, pos: int) -> Result<(Seq<ExprView>, int), ParseError>
    decreases ts.len() - pos, 3nat,
{
    if kind_at(ts, pos) == Some(TokenType::Rparen) {
        Ok((Seq::empty(), pos + 1))
    } else {
        more_args_spec(ts, pos)
    }
}

/// One argument and those after it, to the `)` of the call.
pub open spec fn more_args_spec(ts: Seq<TokenView>, pos: int) -> Result<
    (Seq<ExprView>, int),
    ParseError,
>
    decreases ts.len() - pos, 2nat,
{
    match expr_spec(ts, pos) {
        Ok((e, next)) => match kind_at(ts, next) {
            Some(TokenType::Comma) => if moved(ts, pos, next) {
                match more_args_spec(ts, next + 1) {
                    Ok((rest, after)) => Ok((seq![e] + rest, after)),
                    Err(err) => Err(err),
                }
            } else {
                Err(ParseError::UnexpectedEnd)
            },
            Some(TokenType::Rparen) => Ok((seq![e], next + 1)),
            Some(found) => Err(ParseError::Expected { expected: TokenType::Rparen, found }),
            None => Err(ParseError::UnexpectedEnd),
        },
        Err(err) => Err(err),
    }
}

/// The comparison that starts at `pos`.
pub open spec fn relop_spec(ts: Seq<TokenView>, pos: int) -> Result<(RelOpView, int), ParseError> {
    match expr_spec(ts, pos) {
        Ok((left, next)) => match relop_at(ts, next) {
            Ok(op) => match expr_spec(ts, next + 1) {
                Ok((right, after)) => Ok(
                    (RelOpView { op, left: Box::new(left), right: Box::new(right) }, after),
                ),
                Err(err) => Err(err),
            },
            Err(err) => Err(err),
        },
        Err(err) => Err(err),
    }
}

/// The parameters of a function, from after its `(` to its `)`.
pub open spec fn params_spec(ts: Seq<TokenView>, pos: int) -> Result<
    (Seq<VariableView>, int),
    ParseError,
> {
    if kind_at(ts, pos) == Some(TokenType::Rparen) {
        Ok((Seq::empty(), pos + 1))
    } else {
        more_params_spec(ts, pos)
    }
}

/// One parameter and those after it, to the `)` of the list.
pub open spec fn more_params_spec(ts: Seq<TokenView>, pos: int) -> Result<
    (Seq<VariableView>, int),
    ParseError,
>
    decreases ts.len() - pos,
{
    match expect_spec(ts, pos, TokenType::Name) {
        Ok(next) => match kind_at(ts, next) {
            Some(TokenType::Comma) => match more_params_spec(ts, next + 1) {
                Ok((rest, after)) => Ok(
                    (seq![VariableView { name: ts[pos].token_str, scope: None }] + rest, after),
                ),
                Err(err) => Err(err),
            },
            Some(TokenType::Rparen) => Ok(
                (seq![VariableView { name: ts[pos].token_str, scope: None }], next + 1),
            ),
            Some(found) => Err(ParseError::Expected { expected: TokenType::Rparen, found }),
            None => Err(ParseError::UnexpectedEnd),
        },
        Err(err) => Err(err),
    }
}

/// An expression and the `;` after it.
pub open spec fn closed_expr_spec(ts: Seq<TokenView>, pos: int) -> Result<
    (ExprView, int),
    ParseError,
> {
    match expr_spec(ts, pos) {
        Ok((e, next)) => match expect_spec(ts, next, TokenType::Semi) {
            Ok(after) => Ok((e, after)),
            Err(err) => Err(err),
        },
        Err(err) => Err(err),
    }
}

/// A print statement: `print expr ;`
pub open spec fn print_spec(ts: Seq<TokenView>, pos: int) -> Result<(StmtView, int), ParseError> {
    match expect_spec(ts, pos, TokenType::Print) {
        Ok(next) => match closed_expr_spec(ts, next) {
            Ok((value, next)) => Ok((StmtView::Print { value }, next)),
            Err(err) => Err(err),
        },
        Err(err) => Err(err),
    }
}

/// A return statement: `return expr ;`
pub open spec fn return_spec(ts: Seq<TokenView>, pos: int) -> Result<(StmtView, int), ParseError> {
    match expect_spec(ts, pos, TokenType::Return) {
        Ok(next) => match closed_expr_spec(ts, next) {
            Ok((value, next)) => Ok((StmtView::Return { value }, next)),
            Err(err) => Err(err),
        },
        Err(err) => Err(err),
    }
}

/// The variable named by the token at `pos`, with its scope unset.
pub open spec fn variable_at(ts: Seq<TokenView>, pos: int) -> VariableView {
    VariableView { name: ts[pos].token_str, scope: None }
}

/// A declaration: `var NAME ;`
pub open spec fn declaration_spec(ts: Seq<TokenView>, pos: int) -> Result<
    (StmtView, int),
    ParseError,
> {
    match expect_spec(ts, pos, TokenType::Var) {
        Ok(name) => match expect_spec(ts, name, TokenType::Name) {
            Ok(next) => match expect_spec(ts, next, TokenType::Semi) {
                Ok(next) => Ok((StmtView::Declaration { var: variable_at(ts, name) }, next)),
                Err(err) => Err(err),
            },
            Err(err) => Err(err),
        },
        Err(err) => Err(err),
    }
}

/// An initialised declaration: `var NAME = expr ;`
pub open spec fn assignment_with_decl_spec(ts: Seq<TokenView>, pos: int) -> Result<
    (StmtView, int),
    ParseError,
> {
    match expect_spec(ts, pos, TokenType::Var) {
        Ok(name) => match expect_spec(ts, name, TokenType::Name) {
            Ok(next) => match expect_spec(ts, next, TokenType::Assign) {
                Ok(next) => match closed_expr_spec(ts, next) {
                    Ok((value, next)) => Ok(
                        (
                            StmtView::Assignment {
                                var: variable_at(ts, name),
                                value,
                                is_decl_and_init: true,
                            },
                            next,
                        ),
                    ),
                    Err(err) => Err(err),
                },
                Err(err) => Err(err),
            },
            Err(err) => Err(err),
        },
        Err(err) => Err(err),
    }
}

/// A plain assignment: `NAME = expr ;`
pub open spec fn assignment_without_decl_spec(ts: Seq<TokenView>, pos: int) -> Result<
    (StmtView, int),
    ParseError,
> {
    match expect_spec(ts, pos, TokenType::Name) {
        Ok(next) => match expect_spec(ts, next, TokenType::Assign) {
            Ok(next) => match closed_expr_spec(ts, next) {
                Ok((value, next)) => Ok(
                    (
                        StmtView::Assignment {
                            var: variable_at(ts, pos),
                            value,
                            is_decl_and_init: false,
                        },
                        next,
                    ),
                ),
                Err(err) => Err(err),
            },
            Err(err) => Err(err),
        },
        Err(err) => Err(err),
    }
}

/// A conditional: `if relop block else block`
pub open spec fn if_spec(ts: Seq<TokenView>, pos: int) -> Result<(StmtView, int), ParseError>
    decreases ts.len() - pos, 0nat,
{
    match expect_spec(ts, pos, TokenType::If) {
        Ok(next) => match relop_spec(ts, next) {
            Ok((condition, next)) => {
                proof {
                    lemma_relop_moves(ts, pos + 1);
                }
                match block_spec(ts, next) {
                    Ok((consequence, next)) => match expect_spec(ts, next, TokenType::Else) {
                        Ok(after) => if moved(ts, pos, next) {
                            match block_spec(ts, after) {
                                Ok((alternative, next)) => Ok(
                                    (StmtView::If { condition, consequence, alternative }, next),
                                ),
                                Err(err) => Err(err),
                            }
                        } else {
                            Err(ParseError::UnexpectedEnd)
                        },
                        Err(err) => Err(err),
                    },
                    Err(err) => Err(err),
                }
            },
            Err(err) => Err(err),
        },
        Err(err) => Err(err),
    }
}

/// A loop: `while relop block`
pub open spec fn while_spec(ts: Seq<TokenView>, pos: int) -> Result<(StmtView, int), ParseError>
    decreases ts.len() - pos, 0nat,
{
    match expect_spec(ts, pos, TokenType::While) {
        Ok(next) => match relop_spec(ts, next) {
            Ok((condition, next)) => {
                proof {
                    lemma_relop_moves(ts, pos + 1);
                }
                match block_spec(ts, next) {
                    Ok((body, next)) => Ok((StmtView::While { condition, body }, next)),
                    Err(err) => Err(err),
                }
            },
            Err(err) => Err(err),
        },
        Err(err) => Err(err),
    }
}

/// A function: `func NAME ( params ) block`
pub open spec fn func_spec(ts: Seq<TokenView>, pos: int) -> Result<(StmtView, int), ParseError>
    decreases ts.len() - pos, 0nat,
{
    match expect_spec(ts, pos, TokenType::Func) {
        Ok(name) => match expect_spec(ts, name, TokenType::Name) {
            Ok(next) => match expect_spec(ts, next, TokenType::Lparen) {
                Ok(next) => match params_spec(ts, next) {
                    Ok((args, next)) => {
                        proof {
                            lemma_params_move(ts, pos + 3);
                        }
                        match block_spec(ts, next) {
                            Ok((body, next)) => Ok(
                                (StmtView::Func { name: ts[name].token_str, args, body }, next),
                            ),
                            Err(err) => Err(err),
                        }
                    },
                    Err(err) => Err(err),
                },
                Err(err) => Err(err),
            },
            Err(err) => Err(err),
        },
        Err(err) => Err(err),
    }
}

/// The statement that starts at `pos`, told by its first token; after `var`
/// and a name, a `;` tells the declaration from the initialised one.
pub open spec fn stmt_spec(ts: Seq<TokenView>, pos: int) -> Result<(StmtView, int), ParseError>
    decreases ts.len() - pos, 1nat,
{
    match kind_at(ts, pos) {
        None => Err(ParseError::UnexpectedEnd),
        Some(TokenType::Print) => print_spec(ts, pos),
        Some(TokenType::Return) => return_spec(ts, pos),
        Some(TokenType::Var) => if kind_at(ts, pos + 2) == Some(TokenType::Semi) {
            declaration_spec(ts, pos)
        } else {
            assignment_with_decl_spec(ts, pos)
        },
        Some(TokenType::Name) => assignment_without_decl_spec(ts, pos),
        Some(TokenType::If) => if_spec(ts, pos),
        Some(TokenType::While) => while_spec(ts, pos),
        Some(TokenType::Func) => func_spec(ts, pos),
        Some(found) => Err(ParseError::ExpectedStatement { found }),
    }
}

/// The block that starts at `pos`: statements between braces.
pub open spec fn block_spec(ts: Seq<TokenView>, pos: int) -> Result<
    (Seq<StmtView>, int),
    ParseError,
>
    decreases ts.len() - pos, 3nat,
{
    match expect_spec(ts, pos, TokenType::Lbrace) {
        Ok(next) => match stmts_spec(ts, next) {
            Ok((stmts, next)) => match expect_spec(ts, next, TokenType::Rbrace) {
                Ok(after) => Ok((stmts, after)),
                Err(err) => Err(err),
            },
            Err(err) => Err(err),
        },
        Err(err) => Err(err),
    }
}

/// The statements from `pos` to the next `}` on their level, or to the end.
pub open spec fn stmts_spec(ts: Seq<TokenView>, pos: int) -> Result<
    (Seq<StmtView>, int),
    ParseError,
>
    decreases ts.len() - pos, 2nat,
{
    if kind_at(ts, pos) is None || kind_at(ts, pos) == Some(TokenType::Rbrace) {
        Ok((Seq::empty(), pos))
    } else {
        match stmt_spec(ts, pos) {
            Ok((s, next)) => if moved(ts, pos, next) {
                match stmts_spec(ts, next) {
                    Ok((rest, after)) => Ok((seq![s] + rest, after)),
                    Err(err) => Err(err),
                }
            } else {
                Err(ParseError::UnexpectedEnd)
            },
            Err(err) => Err(err),
        }
    }
}

/// The program that the tokens from `pos` on are: statements to the end. A
/// `}` at the top level starts no statement.
pub open spec fn program_spec(ts: Seq<TokenView>, pos: int) -> Result<Seq<StmtView>, ParseError> {
    match stmts_spec(ts, pos) {
        Ok((stmts, end)) => match kind_at(ts, end) {
            Some(found) => Err(ParseError::ExpectedStatement { found }),
            None => Ok(stmts),
        },
        Err(err) => Err(err),
    }
}

/// A term ends after its start and within the tokens.
pub proof fn lemma_term_moves(ts: Seq<TokenView>, pos: int)
    requires
        term_spec(ts, pos) is Ok,
    ensures
        moved(ts, pos, term_spec(ts, pos)->Ok_0.1),
    decreases ts.len() - pos, 0nat,
{
    match kind_at(ts, pos) {
        Some(TokenType::Name) => {
            if kind_at(ts, pos + 1) == Some(TokenType::Lparen) {
                lemma_args_move(ts, pos + 2);
            }
        },
        Some(TokenType::Lparen) => {
            lemma_expr_moves(ts, pos + 1);
        },
        _ => {},
    }
}

/// An expression ends after its start and within the tokens.
pub proof fn lemma_expr_moves(ts: Seq<TokenView>, pos: int)
    requires
        expr_spec(ts, pos) is Ok,
    ensures
        moved(ts, pos, expr_spec(ts, pos)->Ok_0.1),
    decreases ts.len() - pos, 1nat,
{
    lemma_term_moves(ts, pos);
    let next = term_spec(ts, pos)->Ok_0.1;
    if binop_at(ts, next) is Some {
        lemma_term_moves(ts, next + 1);
    }
}

proof fn lemma_args_move(ts: Seq<TokenView>, pos: int)
    requires
        args_spec(ts, pos) is Ok,
    ensures
        moved(ts, pos, args_spec(ts, pos)->Ok_0.1),
    decreases ts.len() - pos, 3nat,
{
    if kind_at(ts, pos) != Some(TokenType::Rparen) {
        lemma_more_args_move(ts, pos);
    }
}

proof fn lemma_more_args_move(ts: Seq<TokenView>, pos: int)
    requires
        more_args_spec(ts, pos) is Ok,
    ensures
        moved(ts, pos, more_args_spec(ts, pos)->Ok_0.1),
    decreases ts.len() - pos, 2nat,
{
    lemma_expr_moves(ts, pos);
    let next = expr_spec(ts, pos)->Ok_0.1;
    if kind_at(ts, next) == Some(TokenType::Comma) {
        lemma_more_args_move(ts, next + 1);
    }
}

/// A comparison ends after its start and within the tokens.
pub proof fn lemma_relop_moves(ts: Seq<TokenView>, pos: int)
    requires
        relop_spec(ts, pos) is Ok,
    ensures
        moved(ts, pos, relop_spec(ts, pos)->Ok_0.1),
{
    lemma_expr_moves(ts, pos);
    lemma_expr_moves(ts, expr_spec(ts, pos)->Ok_0.1 + 1);
}

/// A parameter list ends after its start and within the tokens.
pub proof fn lemma_params_move(ts: Seq<TokenView>, pos: int)
    requires
        params_spec(ts, pos) is Ok,
    ensures
        moved(ts, pos, params_spec(ts, pos)->Ok_0.1),
{
    if kind_at(ts, pos) != Some(TokenType::Rparen) {
        lemma_more_params_move(ts, pos);
    }
}

proof fn lemma_more_params_move(ts: Seq<TokenView>, pos: int)
    requires
        more_params_spec(ts, pos) is Ok,
    ensures
        moved(ts, pos, more_params_spec(ts, pos)->Ok_0.1),
    decreases ts.len() - pos,
{
    if kind_at(ts, pos + 1) == Some(TokenType::Comma) {
        lemma_more_params_move(ts, pos + 2);
    }
}

/// An expression with its `;` ends after its start and within the tokens.
pub proof fn lemma_closed_expr_moves(ts: Seq<TokenView>, pos: int)
    requires
        closed_expr_spec(ts, pos) is Ok,
    ensures
        moved(ts, pos, closed_expr_spec(ts, pos)->Ok_0.1),
{
    lemma_expr_moves(ts, pos);
}

/// A statement ends after its start and within the tokens.
pub proof fn lemma_stmt_moves(ts: Seq<TokenView>, pos: int)
    requires
        stmt_spec(ts, pos) is Ok,
    ensures
        moved(ts, pos, stmt_spec(ts, pos)->Ok_0.1),
    decreases ts.len() - pos, 1nat,
{
    match kind_at(ts, pos) {
        Some(TokenType::Print) => {
            lemma_closed_expr_moves(ts, pos + 1);
        },
        Some(TokenType::Return) => {
            lemma_closed_expr_moves(ts, pos + 1);
        },
        Some(TokenType::Var) => {
            if kind_at(ts, pos + 2) != Some(TokenType::Semi) {
                lemma_closed_expr_moves(ts, pos + 3);
            }
        },
        Some(TokenType::Name) => {
            lemma_closed_expr_moves(ts, pos + 2);
        },
        Some(TokenType::If) => {
            lemma_relop_moves(ts, pos + 1);
            let then_at = relop_spec(ts, pos + 1)->Ok_0.1;
            lemma_block_moves(ts, then_at);
            let else_at = block_spec(ts, then_at)->Ok_0.1;
            lemma_block_moves(ts, else_at + 1);
        },
        Some(TokenType::While) => {
            lemma_relop_moves(ts, pos + 1);
            lemma_block_moves(ts, relop_spec(ts, pos + 1)->Ok_0.1);
        },
        Some(TokenType::Func) => {
            lemma_params_move(ts, pos + 3);
            lemma_block_moves(ts, params_spec(ts, pos + 3)->Ok_0.1);
        },
        _ => {},
    }
}

/// A block ends after its start and within the tokens.
pub proof fn lemma_block_moves(ts: Seq<TokenView>, pos: int)
    requires
        block_spec(ts, pos) is Ok,
    ensures
        moved(ts, pos, block_spec(ts, pos)->Ok_0.1),
    decreases ts.len() - pos, 3nat,
{
    lemma_stmts_end(ts, pos + 1);
}

/// A run of statements ends at or after its start, within the tokens, and
/// before a `}` or at the end.
pub proof fn lemma_stmts_end(ts: Seq<TokenView>, pos: int)
    requires
        0 <= pos <= ts.len(),
        stmts_spec(ts, pos) is Ok,
    ensures
        pos <= stmts_spec(ts, pos)->Ok_0.1 <= ts.len(),
        kind_at(ts, stmts_spec(ts, pos)->Ok_0.1) is None || kind_at(
            ts,
            stmts_spec(ts, pos)->Ok_0.1,
        ) == Some(TokenType::Rbrace),
    decreases ts.len() - pos, 2nat,
{
    if !(kind_at(ts, pos) is None || kind_at(ts, pos) == Some(TokenType::Rbrace)) {
        lemma_stmt_moves(ts, pos);
        lemma_stmts_end(ts, stmt_spec(ts, pos)->Ok_0.1);
    }
}

/// One more digit at the end of a numeral.
pub proof fn lemma_numeral_step(text: Seq<char>, i: int)
    requires
        0 <= i < text.len(),
    ensures
        numeral_value(text.take(i + 1)) == if i == 0 {
            digit_value(text[i])
        } else {
            match (numeral_value(text.take(i)), digit_value(text[i])) {
                (Some(v), Some(d)) => Some(10 * v + d),
                _ => None,
            }
        },
{
    assert(text.take(i + 1).drop_last() =~= text.take(i));
}

/// A numeral has a value where each of its prefixes has one, and none below
/// that of a prefix.
pub proof fn lemma_numeral_prefix(text: Seq<char>, k: int)
    requires
        1 <= k <= text.len(),
    ensures
        numeral_value(text.take(k)) is None ==> numeral_value(text) is None,
        numeral_value(text) matches Some(w) ==> 0 <= numeral_value(text.take(k))->0 <= w,
    decreases text.len() - k,
{
    lemma_numeral_digits(text.take(k));
    if k == text.len() {
        assert(text.take(k) =~= text);
    } else {
        lemma_numeral_step(text, k);
        lemma_numeral_prefix(text, k + 1);
    }
}

/// The value of a numeral is not negative.
pub proof fn lemma_numeral_digits(text: Seq<char>)
    ensures
        numeral_value(text) matches Some(v) ==> 0 <= v,
    decreases text.len(),
{
    if text.len() > 1 {
        lemma_numeral_digits(text.drop_last());
    }
}

/// A text of digits, and of one at least, is a numeral.
pub proof fn lemma_digits_are_numeral(text: Seq<char>)
    requires
        text.len() >= 1,
        forall|i: int| 0 <= i < text.len() ==> digit_value(#[trigger] text[i]) is Some,
    ensures
        numeral_value(text) is Some,
    decreases text.len(),
{
    if text.len() > 1 {
        let init = text.drop_last();
        assert forall|i: int| 0 <= i < init.len() implies digit_value(
            #[trigger] init[i],
        ) is Some by {
            assert(init[i] == text[i]);
        }
        lemma_digits_are_numeral(init);
    }
}

/// The text of an integer that the scanner cuts from a source is a numeral:
/// the parser rejects such a token only where its value is above
/// `isize::MAX`.
pub proof fn lemma_scanned_integer_is_numeral(s: Seq<u8>, pos: int)
    requires
        0 <= pos < s.len(),
        scan(s, pos) matches Scan::Token { token, .. } && token.token_type == TokenType::Integer,
    ensures
        scan(s, pos) matches Scan::Token { token, .. } && numeral_value(token.token_str) is Some,
{
    lemma_digits_end_bounds(s, pos + 1);
    let end = digits_end(s, pos + 1);
    let text = text_of(s, pos, end);
    assert(is_digit(s[pos]));
    assert forall|i: int| 0 <= i < text.len() implies digit_value(#[trigger] text[i]) is Some by {
        assert(is_digit(s[pos + i]));
    }
    lemma_digits_are_numeral(text);
}

/// The value of a digit.
fn digit_of(c: char) -> (r: Option<isize>)
    ensures
        match r {
            Some(d) => digit_value(c) == Some(d as int),
            None => digit_value(c) is None,
        },
{
    if c == '0' {
        Some(0)
    } else if c == '1' {
        Some(1)
    } else if c == '2' {
        Some(2)
    } else if c == '3' {
        Some(3)
    } else if c == '4' {
        Some(4)
    } else if c == '5' {
        Some(5)
    } else if c == '6' {
        Some(6)
    } else if c == '7' {
        Some(7)
    } else if c == '8' {
        Some(8)
    } else if c == '9' {
        Some(9)
    } else {
        None
    }
}

/// The integer that a literal denotes.
pub fn parse_integer(text: &str) -> (r: Option<isize>)
    ensures
        r == literal_value(text@),
{
    let mut acc: isize = 0;
    let mut seen: bool = false;
    for c in it: text.chars()
        invariant
            it.seq() == text@,
            seen == (it.index() > 0),
            seen ==> numeral_value(text@.take(it.index() as int)) == Some(acc as int),
            !seen ==> acc == 0,
    {
        let ghost i = it.index() as int;
        proof {
            lemma_numeral_step(text@, i);
            lemma_numeral_prefix(text@, i + 1);
            if i > 0 {
                lemma_numeral_digits(text@.take(i));
            }
        }
        let digit = match digit_of(c) {
            Some(d) => d,
            None => {
                return None;
            },
        };
        let shifted = match acc.checked_mul(10) {
            Some(v) => v,
            None => {
                return None;
            },
        };
        acc = match shifted.checked_add(digit) {
            Some(v) => v,
            None => {
                return None;
            },
        };
        seen = true;
    }
    proof {
        assert(text@.take(text@.len() as int) =~= text@);
    }
    if seen {
        Some(acc)
    } else {
        None
    }
}

/// A parser over a list of tokens: the tokens and the place of the next one
/// to read.
pub struct Parser {
    tokens: Vec<Token>,
    pos: usize,
}

/// `r`, read up to `next`, is what `model` says.
pub open spec fn expr_parsed(
    r: Result<Expr, ParseError>,
    next: int,
    model: Result<(ExprView, int), ParseError>,
) -> bool {
    match r {
        Ok(e) => model == Ok::<(ExprView, int), ParseError>((e@, next)),
        Err(err) => model == Err::<(ExprView, int), ParseError>(err),
    }
}

/// `r`, read up to `next`, is what `model` says.
pub open spec fn stmt_parsed<T: View<V = StmtView>>(
    r: Result<T, ParseError>,
    next: int,
    model: Result<(StmtView, int), ParseError>,
) -> bool {
    match r {
        Ok(s) => model == Ok::<(StmtView, int), ParseError>((s@, next)),
        Err(err) => model == Err::<(StmtView, int), ParseError>(err),
    }
}

/// `r`, read up to `next`, is what `model` says.
pub open spec fn stmts_parsed(
    r: Result<Vec<Stmt>, ParseError>,
    next: int,
    model: Result<(Seq<StmtView>, int), ParseError>,
) -> bool {
    match r {
        Ok(ss) => model == Ok::<(Seq<StmtView>, int), ParseError>((stmts_view(ss@), next)),
        Err(err) => model == Err::<(Seq<StmtView>, int), ParseError>(err),
    }
}

/// `found`, then what follows.
pub open spec fn exprs_then(
    found: Seq<ExprView>,
    rest: Result<(Seq<ExprView>, int), ParseError>,
) -> Result<(Seq<ExprView>, int), ParseError> {
    match rest {
        Ok((rest, end)) => Ok((found + rest, end)),
        Err(err) => Err(err),
    }
}

/// `found`, then what follows.
pub open spec fn params_then(
    found: Seq<VariableView>,
    rest: Result<(Seq<VariableView>, int), ParseError>,
) -> Result<(Seq<VariableView>, int), ParseError> {
    match rest {
        Ok((rest, end)) => Ok((found + rest, end)),
        Err(err) => Err(err),
    }
}

/// `found`, then what follows.
pub open spec fn stmts_then(
    found: Seq<StmtView>,
    rest: Result<(Seq<StmtView>, int), ParseError>,
) -> Result<(Seq<StmtView>, int), ParseError> {
    match rest {
        Ok((rest, end)) => Ok((found + rest, end)),
        Err(err) => Err(err),
    }
}

impl Parser {
    /// The tokens that the parser reads.
    pub closed spec fn tokens(&self) -> Seq<TokenView> {
        tokens_view(self.tokens@)
    }

    /// The place of the next token to read.
    pub closed spec fn position(&self) -> int {
        self.pos as int
    }

    /// A parser at the start of `tokens`.
    pub fn new(tokens: Vec<Token>) -> (r: Self)
        ensures
            r.tokens() == tokens_view(tokens@),
            r.position() == 0,
    {
        Parser { tokens, pos: 0 }
    }

    /// Reads the tokens, from the next one to the last, as a program. No
    /// variable of the program has a scope.
    pub fn parse(&mut self) -> (r: Result<Program, ParseError>)
        ensures
            final(self).tokens() == old(self).tokens(),
            match r {
                Ok(program) => program_spec(old(self).tokens(), old(self).position()) == Ok::<
                    Seq<StmtView>,
                    ParseError,
                >(program@),
                Err(err) => program_spec(old(self).tokens(), old(self).position()) == Err::<
                    Seq<StmtView>,
                    ParseError,
                >(err),
            },
            r matches Ok(program) ==> stmts_unscoped(program@),
    {
        proof {
            if program_spec(self.tokens(), self.position()) is Ok {
                lemma_program_unscoped(self.tokens(), self.position());
            }
        }
        let stmts = match self.parse_stmts() {
            Ok(stmts) => stmts,
            Err(err) => {
                return Err(err);
            },
        };
        match self.kind_ahead(0) {
            Some(found) => Err(ParseError::ExpectedStatement { found }),
            None => Ok(Program { stmts }),
        }
    }

    /// The kind of the token that stands `offset` places after the next one.
    fn kind_ahead(&self, offset: usize) -> (r: Option<TokenType>)
        ensures
            r == kind_at(self.tokens(), self.pos + offset),
            r is Some ==> self.pos + offset < self.tokens@.len() <= usize::MAX,
    {
        let n: usize = self.tokens.len();
        if self.pos < n && offset < n - self.pos {
            Some(self.tokens[self.pos + offset].token_type)
        } else {
            None
        }
    }

    /// Takes the next token, which has to be of the kind `expected`.
    fn expect(&mut self, expected_token_type: TokenType) -> (r: Result<Token, ParseError>)
        ensures
            final(self).tokens == old(self).tokens,
            match r {
                Ok(token) => {
                    &&& expect_spec(old(self).tokens(), old(self).pos as int, expected_token_type)
                        == Ok::<int, ParseError>(final(self).pos as int)
                    &&& token@ == old(self).tokens()[old(self).pos as int]
                },
                Err(err) => {
                    &&& expect_spec(old(self).tokens(), old(self).pos as int, expected_token_type)
                        == Err::<int, ParseError>(err)
                    &&& final(self).pos == old(self).pos
                },
            },
    {
        if self.pos < self.tokens.len() {
            let found = self.tokens[self.pos].token_type;
            if found == expected_token_type {
                let token = Token::new(found, self.tokens[self.pos].token_str.clone());
                self.pos = self.pos + 1;
                Ok(token)
            } else {
                Err(ParseError::Expected { expected: expected_token_type, found })
            }
        } else {
            Err(ParseError::UnexpectedEnd)
        }
    }

    /// Reads a term.
    fn parse_term(&mut self) -> (r: Result<Expr, ParseError>)
        ensures
            final(self).tokens == old(self).tokens,
            expr_parsed(
                r,
                final(self).pos as int,
                term_spec(old(self).tokens(), old(self).pos as int),
            ),
        decreases old(self).tokens@.len() - old(self).pos, 0nat,
    {
        match self.kind_ahead(0) {
            None => Err(ParseError::UnexpectedEnd),
            Some(TokenType::Integer) => {
                match parse_integer(self.tokens[self.pos].token_str.as_str()) {
                    Some(n) => {
                        self.pos = self.pos + 1;
                        Ok(Expr::Number(Number::Int(n)))
                    },
                    None => Err(ParseError::InvalidInteger),
                }
            },
            Some(TokenType::Name) => {
                let name = self.tokens[self.pos].token_str.clone();
                match self.kind_ahead(1) {
                    Some(TokenType::Lparen) => {
                        self.pos = self.pos + 2;
                        match self.parse_args() {
                            Ok(args) => Ok(Expr::FuncCall(FuncCall { name, args })),
                            Err(err) => Err(err),
                        }
                    },
                    _ => {
                        self.pos = self.pos + 1;
                        Ok(Expr::Variable(Variable { name, scope: None }))
                    },
                }
            },
            Some(TokenType::Lparen) => {
                self.pos = self.pos + 1;
                let inner = match self.parse_expr() {
                    Ok(inner) => inner,
                    Err(err) => {
                        return Err(err);
                    },
                };
                match self.expect(TokenType::Rparen) {
                    Ok(_) => Ok(inner),
                    Err(err) => Err(err),
                }
            },
            Some(found) => Err(ParseError::ExpectedExpression { found }),
        }
    }

    /// Reads an expression: a term, or two with an operator between them.
    fn parse_expr(&mut self) -> (r: Result<Expr, ParseError>)
        ensures
            final(self).tokens == old(self).tokens,
            expr_parsed(
                r,
                final(self).pos as int,
                expr_spec(old(self).tokens(), old(self).pos as int),
            ),
        decreases old(self).tokens@.len() - old(self).pos, 1nat,
    {
        let ghost ts = self.tokens();
        let ghost start = self.pos as int;
        let left = match self.parse_term() {
            Ok(left) => left,
            Err(err) => {
                return Err(err);
            },
        };
        proof {
            lemma_term_moves(ts, start);
        }
        let op = match self.kind_ahead(0) {
            Some(TokenType::Plus) => BinOperator::Add,
            Some(TokenType::Times) => BinOperator::Mul,
            _ => {
                return Ok(left);
            },
        };
        self.pos = self.pos + 1;
        match self.parse_term() {
            Ok(right) => Ok(
                Expr::BinOp(BinOp { op, left: Box::new(left), right: Box::new(right) }),
            ),
            Err(err) => Err(err),
        }
    }

    /// Reads the arguments of a call, from after its `(` to its `)`.
    fn parse_args(&mut self) -> (r: Result<Vec<Expr>, ParseError>)
        ensures
            final(self).tokens == old(self).tokens,
            match r {
                Ok(args) => args_spec(old(self).tokens(), old(self).pos as int) == Ok::<
                    (Seq<ExprView>, int),
                    ParseError,
                >((exprs_view(args@), final(self).pos as int)),
                Err(err) => args_spec(old(self).tokens(), old(self).pos as int) == Err::<
                    (Seq<ExprView>, int),
                    ParseError,
                >(err),
            },
        decreases old(self).tokens@.len() - old(self).pos, 3nat,
    {
        let ghost ts = self.tokens();
        let ghost start = self.pos as int;
        let mut args: Vec<Expr> = Vec::new();
        assert(exprs_view(args@) =~= Seq::empty());
        match self.kind_ahead(0) {
            Some(TokenType::Rparen) => {
                self.pos = self.pos + 1;
                return Ok(args);
            },
            _ => {},
        }
        assert(exprs_then(Seq::empty(), more_args_spec(ts, start)) == more_args_spec(
            ts,
            start,
        )) by {
            match more_args_spec(ts, start) {
                Ok((rest, _)) => {
                    assert(Seq::<ExprView>::empty() + rest =~= rest);
                },
                Err(_) => {},
            }
        }
        loop
            invariant
                self.tokens == old(self).tokens,
                ts == old(self).tokens(),
                start == old(self).pos,
                start <= self.pos,
                self.pos == start || self.pos <= self.tokens@.len(),
                args_spec(ts, start) == more_args_spec(ts, start),
                more_args_spec(ts, start) == exprs_then(
                    exprs_view(args@),
                    more_args_spec(ts, self.pos as int),
                ),
            decreases self.tokens@.len() - self.pos,
        {
            let ghost here = self.pos as int;
            let ghost found = exprs_view(args@);
            let arg = match self.parse_expr() {
                Ok(arg) => arg,
                Err(err) => {
                    return Err(err);
                },
            };
            proof {
                lemma_expr_moves(ts, here);
            }
            args.push(arg);
            assert(exprs_view(args@) =~= found.push(arg@));
            match self.kind_ahead(0) {
                Some(TokenType::Comma) => {
                    proof {
                        match more_args_spec(ts, self.pos + 1) {
                            Ok((rest, _)) => {
                                assert(found + (seq![arg@] + rest) =~= found.push(arg@) + rest);
                            },
                            Err(_) => {},
                        }
                    }
                    self.pos = self.pos + 1;
                },
                Some(TokenType::Rparen) => {
                    assert(found + seq![arg@] =~= found.push(arg@));
                    self.pos = self.pos + 1;
                    return Ok(args);
                },
                Some(found) => {
                    return Err(ParseError::Expected { expected: TokenType::Rparen, found });
                },
                None => {
                    return Err(ParseError::UnexpectedEnd);
                },
            }
        }
    }

    /// Reads a comparison: two expressions with `<` or `==` between them.
    fn parse_relop(&mut self) -> (r: Result<RelOp, ParseError>)
        ensures
            final(self).tokens == old(self).tokens,
            match r {
                Ok(relop) => relop_spec(old(self).tokens(), old(self).pos as int) == Ok::<
                    (RelOpView, int),
                    ParseError,
                >((relop@, final(self).pos as int)),
                Err(err) => relop_spec(old(self).tokens(), old(self).pos as int) == Err::<
                    (RelOpView, int),
                    ParseError,
                >(err),
            },
    {
        let ghost ts = self.tokens();
        let ghost start = self.pos as int;
        let left = match self.parse_expr() {
            Ok(left) => left,
            Err(err) => {
                return Err(err);
            },
        };
        proof {
            lemma_expr_moves(ts, start);
        }
        let op = match self.kind_ahead(0) {
            Some(TokenType::Lt) => RelOperator::LessThan,
            Some(TokenType::Eq) => RelOperator::Equal,
            Some(found) => {
                return Err(ParseError::ExpectedRelOp { found });
            },
            None => {
                return Err(ParseError::UnexpectedEnd);
            },
        };
        self.pos = self.pos + 1;
        match self.parse_expr() {
            Ok(right) => Ok(RelOp { op, left: Box::new(left), right: Box::new(right) }),
            Err(err) => Err(err),
        }
    }

    /// Reads an expression and the `;` after it.
    fn parse_closed_expr(&mut self) -> (r: Result<Expr, ParseError>)
        ensures
            final(self).tokens == old(self).tokens,
            expr_parsed(
                r,
                final(self).pos as int,
                closed_expr_spec(old(self).tokens(), old(self).pos as int),
            ),
    {
        let value = match self.parse_expr() {
            Ok(value) => value,
            Err(err) => {
                return Err(err);
            },
        };
        match self.expect(TokenType::Semi) {
            Ok(_) => Ok(value),
            Err(err) => Err(err),
        }
    }

    /// Reads the parameters of a function, from after its `(` to its `)`.
    fn parse_params(&mut self) -> (r: Result<Vec<Variable>, ParseError>)
        ensures
            final(self).tokens == old(self).tokens,
            match r {
                Ok(params) => params_spec(old(self).tokens(), old(self).pos as int) == Ok::<
                    (Seq<VariableView>, int),
                    ParseError,
                >((vars_view(params@), final(self).pos as int)),
                Err(err) => params_spec(old(self).tokens(), old(self).pos as int) == Err::<
                    (Seq<VariableView>, int),
                    ParseError,
                >(err),
            },
    {
        let ghost ts = self.tokens();
        let ghost start = self.pos as int;
        let mut params: Vec<Variable> = Vec::new();
        assert(vars_view(params@) =~= Seq::empty());
        match self.kind_ahead(0) {
            Some(TokenType::Rparen) => {
                self.pos = self.pos + 1;
                return Ok(params);
            },
            _ => {},
        }
        assert(params_then(Seq::empty(), more_params_spec(ts, start)) == more_params_spec(
            ts,
            start,
        )) by {
            match more_params_spec(ts, start) {
                Ok((rest, _)) => {
                    assert(Seq::<VariableView>::empty() + rest =~= rest);
                },
                Err(_) => {},
            }
        }
        loop
            invariant
                self.tokens == old(self).tokens,
                ts == old(self).tokens(),
                start == old(self).pos,
                params_spec(ts, start) == more_params_spec(ts, start),
                more_params_spec(ts, start) == params_then(
                    vars_view(params@),
                    more_params_spec(ts, self.pos as int),
                ),
            decreases self.tokens@.len() - self.pos,
        {
            let ghost found = vars_view(params@);
            let name = match self.expect(TokenType::Name) {
                Ok(token) => token.token_str,
                Err(err) => {
                    return Err(err);
                },
            };
            let param = Variable { name, scope: None };
            params.push(param);
            assert(vars_view(params@) =~= found.push(param@));
            match self.kind_ahead(0) {
                Some(TokenType::Comma) => {
                    proof {
                        match more_params_spec(ts, self.pos + 1) {
                            Ok((rest, _)) => {
                                assert(found + (seq![param@] + rest) =~= found.push(param@) + rest);
                            },
                            Err(_) => {},
                        }
                    }
                    self.pos = self.pos + 1;
                },
                Some(TokenType::Rparen) => {
                    assert(found + seq![param@] =~= found.push(param@));
                    self.pos = self.pos + 1;
                    return Ok(params);
                },
                Some(found) => {
                    return Err(ParseError::Expected { expected: TokenType::Rparen, found });
                },
                None => {
                    return Err(ParseError::UnexpectedEnd);
                },
            }
        }
    }

    /// Reads `print expr ;`.
    fn parse_print(&mut self) -> (r: Result<Print, ParseError>)
        ensures
            final(self).tokens == old(self).tokens,
            stmt_parsed(
                r,
                final(self).pos as int,
                print_spec(old(self).tokens(), old(self).pos as int),
            ),
    {
        match self.expect(TokenType::Print) {
            Ok(_) => {},
            Err(err) => {
                return Err(err);
            },
        }
        match self.parse_closed_expr() {
            Ok(value) => Ok(Print { value }),
            Err(err) => Err(err),
        }
    }

    /// Reads `return expr ;`.
    fn parse_return(&mut self) -> (r: Result<Return, ParseError>)
        ensures
            final(self).tokens == old(self).tokens,
            stmt_parsed(
                r,
                final(self).pos as int,
                return_spec(old(self).tokens(), old(self).pos as int),
            ),
    {
        match self.expect(TokenType::Return) {
            Ok(_) => {},
            Err(err) => {
                return Err(err);
            },
        }
        match self.parse_closed_expr() {
            Ok(value) => Ok(Return { value }),
            Err(err) => Err(err),
        }
    }

    /// Reads `var NAME ;`.
    fn parse_declaration(&mut self) -> (r: Result<Declaration, ParseError>)
        ensures
            final(self).tokens == old(self).tokens,
            stmt_parsed(
                r,
                final(self).pos as int,
                declaration_spec(old(self).tokens(), old(self).pos as int),
            ),
    {
        match self.expect(TokenType::Var) {
            Ok(_) => {},
            Err(err) => {
                return Err(err);
            },
        }
        let name = match self.expect(TokenType::Name) {
            Ok(token) => token.token_str,
            Err(err) => {
                return Err(err);
            },
        };
        match self.expect(TokenType::Semi) {
            Ok(_) => Ok(Declaration { var: Variable { name, scope: None } }),
            Err(err) => Err(err),
        }
    }

    /// Reads `var NAME = expr ;`.
    fn parse_assignment_with_decl(&mut self) -> (r: Result<Assignment, ParseError>)
        ensures
            final(self).tokens == old(self).tokens,
            stmt_parsed(
                r,
                final(self).pos as int,
                assignment_with_decl_spec(old(self).tokens(), old(self).pos as int),
            ),
    {
        match self.expect(TokenType::Var) {
            Ok(_) => {},
            Err(err) => {
                return Err(err);
            },
        }
        let name = match self.expect(TokenType::Name) {
            Ok(token) => token.token_str,
            Err(err) => {
                return Err(err);
            },
        };
        match self.expect(TokenType::Assign) {
            Ok(_) => {},
            Err(err) => {
                return Err(err);
            },
        }
        match self.parse_closed_expr() {
            Ok(value) => Ok(
                Assignment { var: Variable { name, scope: None }, value, is_decl_and_init: true },
            ),
            Err(err) => Err(err),
        }
    }

    /// Reads `NAME = expr ;`.
    fn parse_assignment_without_decl(&mut self) -> (r: Result<Assignment, ParseError>)
        ensures
            final(self).tokens == old(self).tokens,
            stmt_parsed(
                r,
                final(self).pos as int,
                assignment_without_decl_spec(old(self).tokens(), old(self).pos as int),
            ),
    {
        let name = match self.expect(TokenType::Name) {
            Ok(token) => token.token_str,
            Err(err) => {
                return Err(err);
            },
        };
        match self.expect(TokenType::Assign) {
            Ok(_) => {},
            Err(err) => {
                return Err(err);
            },
        }
        match self.parse_closed_expr() {
            Ok(value) => Ok(
                Assignment { var: Variable { name, scope: None }, value, is_decl_and_init: false },
            ),
            Err(err) => Err(err),
        }
    }

    /// Reads `while relop block`.
    fn parse_while(&mut self) -> (r: Result<While, ParseError>)
        ensures
            final(self).tokens == old(self).tokens,
            stmt_parsed(
                r,
                final(self).pos as int,
                while_spec(old(self).tokens(), old(self).pos as int),
            ),
        decreases old(self).tokens@.len() - old(self).pos, 0nat,
    {
        let ghost ts = self.tokens();
        let ghost start = self.pos as int;
        match self.expect(TokenType::While) {
            Ok(_) => {},
            Err(err) => {
                return Err(err);
            },
        }
        let condition = match self.parse_relop() {
            Ok(condition) => condition,
            Err(err) => {
                return Err(err);
            },
        };
        proof {
            lemma_relop_moves(ts, start + 1);
        }
        match self.parse_block() {
            Ok(body) => Ok(While { condition, body }),
            Err(err) => Err(err),
        }
    }

    /// Reads `if relop block else block`.
    fn parse_if(&mut self) -> (r: Result<If, ParseError>)
        ensures
            final(self).tokens == old(self).tokens,
            stmt_parsed(
                r,
                final(self).pos as int,
                if_spec(old(self).tokens(), old(self).pos as int),
            ),
        decreases old(self).tokens@.len() - old(self).pos, 0nat,
    {
        let ghost ts = self.tokens();
        let ghost start = self.pos as int;
        match self.expect(TokenType::If) {
            Ok(_) => {},
            Err(err) => {
                return Err(err);
            },
        }
        let condition = match self.parse_relop() {
            Ok(condition) => condition,
            Err(err) => {
                return Err(err);
            },
        };
        proof {
            lemma_relop_moves(ts, start + 1);
        }
        let ghost then_at = self.pos as int;
        let consequence = match self.parse_block() {
            Ok(consequence) => consequence,
            Err(err) => {
                return Err(err);
            },
        };
        proof {
            lemma_block_moves(ts, then_at);
        }
        match self.expect(TokenType::Else) {
            Ok(_) => {},
            Err(err) => {
                return Err(err);
            },
        }
        match self.parse_block() {
            Ok(alternative) => Ok(If { condition, consequence, alternative }),
            Err(err) => Err(err),
        }
    }

    /// Reads `func NAME ( params ) block`.
    fn parse_func(&mut self) -> (r: Result<Func, ParseError>)
        ensures
            final(self).tokens == old(self).tokens,
            stmt_parsed(
                r,
                final(self).pos as int,
                func_spec(old(self).tokens(), old(self).pos as int),
            ),
        decreases old(self).tokens@.len() - old(self).pos, 0nat,
    {
        let ghost ts = self.tokens();
        let ghost start = self.pos as int;
        match self.expect(TokenType::Func) {
            Ok(_) => {},
            Err(err) => {
                return Err(err);
            },
        }
        let name = match self.expect(TokenType::Name) {
            Ok(token) => token.token_str,
            Err(err) => {
                return Err(err);
            },
        };
        match self.expect(TokenType::Lparen) {
            Ok(_) => {},
            Err(err) => {
                return Err(err);
            },
        }
        let args = match self.parse_params() {
            Ok(args) => args,
            Err(err) => {
                return Err(err);
            },
        };
        proof {
            lemma_params_move(ts, start + 3);
        }
        match self.parse_block() {
            Ok(body) => Ok(Func { name, args, body }),
            Err(err) => Err(err),
        }
    }

    /// Reads a block: `{`, statements, `}`.
    fn parse_block(&mut self) -> (r: Result<Vec<Stmt>, ParseError>)
        ensures
            final(self).tokens == old(self).tokens,
            stmts_parsed(
                r,
                final(self).pos as int,
                block_spec(old(self).tokens(), old(self).pos as int),
            ),
        decreases old(self).tokens@.len() - old(self).pos, 3nat,
    {
        match self.expect(TokenType::Lbrace) {
            Ok(_) => {},
            Err(err) => {
                return Err(err);
            },
        }
        let stmts = match self.parse_stmts() {
            Ok(stmts) => stmts,
            Err(err) => {
                return Err(err);
            },
        };
        match self.expect(TokenType::Rbrace) {
            Ok(_) => Ok(stmts),
            Err(err) => Err(err),
        }
    }

    /// Reads statements up to a `}` or to the end of the tokens.
    fn parse_stmts(&mut self) -> (r: Result<Vec<Stmt>, ParseError>)
        ensures
            final(self).tokens == old(self).tokens,
            stmts_parsed(
                r,
                final(self).pos as int,
                stmts_spec(old(self).tokens(), old(self).pos as int),
            ),
        decreases old(self).tokens@.len() - old(self).pos, 2nat,
    {
        let ghost ts = self.tokens();
        let ghost start = self.pos as int;
        let mut stmts: Vec<Stmt> = Vec::new();
        assert(stmts_view(stmts@) =~= Seq::empty());
        assert(stmts_then(Seq::empty(), stmts_spec(ts, start)) == stmts_spec(ts, start)) by {
            match stmts_spec(ts, start) {
                Ok((rest, _)) => {
                    assert(Seq::<StmtView>::empty() + rest =~= rest);
                },
                Err(_) => {},
            }
        }
        loop
            invariant
                self.tokens == old(self).tokens,
                ts == old(self).tokens(),
                start == old(self).pos,
                start <= self.pos,
                stmts_spec(ts, start) == stmts_then(
                    stmts_view(stmts@),
                    stmts_spec(ts, self.pos as int),
                ),
            decreases self.tokens@.len() - self.pos,
        {
            let ghost here = self.pos as int;
            let ghost found = stmts_view(stmts@);
            match self.kind_ahead(0) {
                None | Some(TokenType::Rbrace) => {
                    assert(found + Seq::<StmtView>::empty() =~= found);
                    return Ok(stmts);
                },
                _ => {},
            }
            let stmt = match self.parse_stmt() {
                Ok(stmt) => stmt,
                Err(err) => {
                    return Err(err);
                },
            };
            proof {
                lemma_stmt_moves(ts, here);
                match stmts_spec(ts, self.pos as int) {
                    Ok((rest, _)) => {
                        assert(found + (seq![stmt@] + rest) =~= found.push(stmt@) + rest);
                    },
                    Err(_) => {},
                }
            }
            stmts.push(stmt);
            assert(stmts_view(stmts@) =~= found.push(stmt@));
        }
    }

    /// Reads a statement, told by its first token.
    fn parse_stmt(&mut self) -> (r: Result<Stmt, ParseError>)
        ensures
            final(self).tokens == old(self).tokens,
            stmt_parsed(
                r,
                final(self).pos as int,
                stmt_spec(old(self).tokens(), old(self).pos as int),
            ),
        decreases old(self).tokens@.len() - old(self).pos, 1nat,
    {
        match self.kind_ahead(0) {
            None => Err(ParseError::UnexpectedEnd),
            Some(TokenType::Print) => match self.parse_print() {
                Ok(print) => Ok(Stmt::Print(print)),
                Err(err) => Err(err),
            },
            Some(TokenType::Return) => match self.parse_return() {
                Ok(ret) => Ok(Stmt::Return(ret)),
                Err(err) => Err(err),
            },
            Some(TokenType::Var) => match self.kind_ahead(2) {
                Some(TokenType::Semi) => match self.parse_declaration() {
                    Ok(declaration) => Ok(Stmt::Declaration(declaration)),
                    Err(err) => Err(err),
                },
                _ => match self.parse_assignment_with_decl() {
                    Ok(assignment) => Ok(Stmt::Assignment(assignment)),
                    Err(err) => Err(err),
                },
            },
            Some(TokenType::Name) => match self.parse_assignment_without_decl() {
                Ok(assignment) => Ok(Stmt::Assignment(assignment)),
                Err(err) => Err(err),
            },
            Some(TokenType::If) => match self.parse_if() {
                Ok(branch) => Ok(Stmt::If(branch)),
                Err(err) => Err(err),
            },
            Some(TokenType::While) => match self.parse_while() {
                Ok(repeat) => Ok(Stmt::While(repeat)),
                Err(err) => Err(err),
            },
            Some(TokenType::Func) => match self.parse_func() {
                Ok(func) => Ok(Stmt::Func(func)),
                Err(err) => Err(err),
            },
            Some(found) => Err(ParseError::ExpectedStatement { found }),
        }
    }
}

/// No variable in `e` carries a scope.
pub open spec fn expr_unscoped(e: ExprView) -> bool
    decreases e,
{
    match e {
        ExprView::FuncCall { name, args } => exprs_unscoped(args),
        ExprView::Variable(v) => v.scope is None,
        ExprView::BinOp { op, left, right } => expr_unscoped(*left) && expr_unscoped(*right),
        ExprView::RelOp(r) => relop_unscoped(r),
        ExprView::Number(_) => true,
    }
}

/// No variable in `r` carries a scope.
pub open spec fn relop_unscoped(r: RelOpView) -> bool
    decreases r,
{
    expr_unscoped(*r.left) && expr_unscoped(*r.right)
}

/// No variable in `es` carries a scope.
pub open spec fn exprs_unscoped(es: Seq<ExprView>) -> bool
    decreases es,
{
    forall|i: int| 0 <= i < es.len() ==> expr_unscoped(#[trigger] es[i])
}

/// No parameter of `vs` carries a scope.
pub open spec fn params_unscoped(vs: Seq<VariableView>) -> bool {
    forall|i: int| 0 <= i < vs.len() ==> (#[trigger] vs[i]).scope is None
}

/// No variable in `s` carries a scope.
pub open spec fn stmt_unscoped(s: StmtView) -> bool
    decreases s,
{
    match s {
        StmtView::Func { name, args, body } => params_unscoped(args) && stmts_unscoped(body),
        StmtView::If { condition, consequence, alternative } => relop_unscoped(condition)
            && stmts_unscoped(consequence) && stmts_unscoped(alternative),
        StmtView::While { condition, body } => relop_unscoped(condition) && stmts_unscoped(body),
        StmtView::Print { value } => expr_unscoped(value),
        StmtView::Return { value } => expr_unscoped(value),
        StmtView::Assignment { var, value, is_decl_and_init } => var.scope is None
            && expr_unscoped(value),
        StmtView::Declaration { var } => var.scope is None,
    }
}

/// No variable in `ss` carries a scope.
pub open spec fn stmts_unscoped(ss: Seq<StmtView>) -> bool
    decreases ss,
{
    forall|i: int| 0 <= i < ss.len() ==> stmt_unscoped(#[trigger] ss[i])
}

proof fn lemma_term_unscoped(ts: Seq<TokenView>, pos: int)
    requires
        term_spec(ts, pos) is Ok,
    ensures
        expr_unscoped(term_spec(ts, pos)->Ok_0.0),
    decreases ts.len() - pos, 0nat,
{
    match kind_at(ts, pos) {
        Some(TokenType::Name) => {
            if kind_at(ts, pos + 1) == Some(TokenType::Lparen) {
                lemma_args_unscoped(ts, pos + 2);
            }
        },
        Some(TokenType::Lparen) => {
            lemma_expr_unscoped(ts, pos + 1);
        },
        _ => {},
    }
}

/// What is read as an expression has no scope on any variable.
pub proof fn lemma_expr_unscoped(ts: Seq<TokenView>, pos: int)
    requires
        expr_spec(ts, pos) is Ok,
    ensures
        expr_unscoped(expr_spec(ts, pos)->Ok_0.0),
    decreases ts.len() - pos, 1nat,
{
    lemma_term_unscoped(ts, pos);
    let next = term_spec(ts, pos)->Ok_0.1;
    if binop_at(ts, next) is Some {
        lemma_term_unscoped(ts, next + 1);
    }
}

proof fn lemma_args_unscoped(ts: Seq<TokenView>, pos: int)
    requires
        args_spec(ts, pos) is Ok,
    ensures
        exprs_unscoped(args_spec(ts, pos)->Ok_0.0),
    decreases ts.len() - pos, 3nat,
{
    if kind_at(ts, pos) != Some(TokenType::Rparen) {
        lemma_more_args_unscoped(ts, pos);
    }
}

proof fn lemma_more_args_unscoped(ts: Seq<TokenView>, pos: int)
    requires
        more_args_spec(ts, pos) is Ok,
    ensures
        exprs_unscoped(more_args_spec(ts, pos)->Ok_0.0),
    decreases ts.len() - pos, 2nat,
{
    lemma_expr_unscoped(ts, pos);
    let next = expr_spec(ts, pos)->Ok_0.1;
    if kind_at(ts, next) == Some(TokenType::Comma) {
        lemma_more_args_unscoped(ts, next + 1);
    }
}

proof fn lemma_relop_unscoped(ts: Seq<TokenView>, pos: int)
    requires
        relop_spec(ts, pos) is Ok,
    ensures
        relop_unscoped(relop_spec(ts, pos)->Ok_0.0),
{
    lemma_expr_unscoped(ts, pos);
    lemma_expr_unscoped(ts, expr_spec(ts, pos)->Ok_0.1 + 1);
}

proof fn lemma_params_unscoped(ts: Seq<TokenView>, pos: int)
    requires
        params_spec(ts, pos) is Ok,
    ensures
        params_unscoped(params_spec(ts, pos)->Ok_0.0),
{
    if kind_at(ts, pos) != Some(TokenType::Rparen) {
        lemma_more_params_unscoped(ts, pos);
    }
}

proof fn lemma_more_params_unscoped(ts: Seq<TokenView>, pos: int)
    requires
        more_params_spec(ts, pos) is Ok,
    ensures
        params_unscoped(more_params_spec(ts, pos)->Ok_0.0),
    decreases ts.len() - pos,
{
    if kind_at(ts, pos + 1) == Some(TokenType::Comma) {
        lemma_more_params_unscoped(ts, pos + 2);
    }
}

proof fn lemma_stmt_unscoped(ts: Seq<TokenView>, pos: int)
    requires
        stmt_spec(ts, pos) is Ok,
    ensures
        stmt_unscoped(stmt_spec(ts, pos)->Ok_0.0),
    decreases ts.len() - pos, 1nat,
{
    match kind_at(ts, pos) {
        Some(TokenType::Print) => {
            lemma_expr_unscoped(ts, pos + 1);
        },
        Some(TokenType::Return) => {
            lemma_expr_unscoped(ts, pos + 1);
        },
        Some(TokenType::Var) => {
            if kind_at(ts, pos + 2) != Some(TokenType::Semi) {
                lemma_expr_unscoped(ts, pos + 3);
            }
        },
        Some(TokenType::Name) => {
            lemma_expr_unscoped(ts, pos + 2);
        },
        Some(TokenType::If) => {
            lemma_relop_unscoped(ts, pos + 1);
            lemma_relop_moves(ts, pos + 1);
            let then_at = relop_spec(ts, pos + 1)->Ok_0.1;
            lemma_block_unscoped(ts, then_at);
            lemma_block_moves(ts, then_at);
            let else_at = block_spec(ts, then_at)->Ok_0.1;
            lemma_block_unscoped(ts, else_at + 1);
        },
        Some(TokenType::While) => {
            lemma_relop_unscoped(ts, pos + 1);
            lemma_relop_moves(ts, pos + 1);
            lemma_block_unscoped(ts, relop_spec(ts, pos + 1)->Ok_0.1);
        },
        Some(TokenType::Func) => {
            lemma_params_unscoped(ts, pos + 3);
            lemma_params_move(ts, pos + 3);
            lemma_block_unscoped(ts, params_spec(ts, pos + 3)->Ok_0.1);
        },
        _ => {},
    }
}

proof fn lemma_block_unscoped(ts: Seq<TokenView>, pos: int)
    requires
        block_spec(ts, pos) is Ok,
    ensures
        stmts_unscoped(block_spec(ts, pos)->Ok_0.0),
    decreases ts.len() - pos, 3nat,
{
    lemma_stmts_unscoped(ts, pos + 1);
}

proof fn lemma_stmts_unscoped(ts: Seq<TokenView>, pos: int)
    requires
        stmts_spec(ts, pos) is Ok,
    ensures
        stmts_unscoped(stmts_spec(ts, pos)->Ok_0.0),
    decreases ts.len() - pos, 2nat,
{
    if !(kind_at(ts, pos) is None || kind_at(ts, pos) == Some(TokenType::Rbrace)) {
        lemma_stmt_unscoped(ts, pos);
        lemma_stmts_unscoped(ts, stmt_spec(ts, pos)->Ok_0.1);
    }
}

/// A parsed program has no scope on any variable: scopes are for resolution
/// to set.
pub proof fn lemma_program_unscoped(ts: Seq<TokenView>, pos: int)
    requires
        program_spec(ts, pos) is Ok,
    ensures
        stmts_unscoped(program_spec(ts, pos)->Ok_0),
{
    lemma_stmts_unscoped(ts, pos);
}

} // verus!
