//! The parser reads back what is written down in tokens.
//!
//! The `*_tokens` functions write a tree down as the tokens of its source
//! text. Not every tree can be written down: a literal below zero has no
//! token, a comparison stands in conditions only, and a scope has no place
//! in the text. For every tree that can, `lemma_program_reads` shows that
//! the parser turns the tokens back into that very tree.
use vstd::prelude::*;

use super::{
    args_spec, assignment_with_decl_spec, assignment_without_decl_spec, binop_at, block_spec,
    closed_expr_spec, declaration_spec, digit_value, expr_spec, func_spec, if_spec, kind_at,
    more_args_spec, more_params_spec, moved, numeral_value, params_spec, print_spec, program_spec,
    relop_at, relop_spec, return_spec, stmt_spec, stmts_spec, term_spec, variable_at, while_spec,
    ParseError,
};
use crate::ast_printer::{digit_char, digits};
use crate::model::expressions::{ExprView, Number, RelOpView, VariableView};
use crate::model::statements::StmtView;
use crate::model::{BinOperator, RelOperator};
use crate::tokenizer::{TokenType, TokenView};

verus! {

/// The text of a keyword or of a symbol.
pub open spec fn mark_text(kind: TokenType) -> Seq<char> {
    match kind {
        TokenType::Var => "var"@,
        TokenType::Print => "print"@,
        TokenType::If => "if"@,
        TokenType::Else => "else"@,
        TokenType::While => "while"@,
        TokenType::Func => "func"@,
        TokenType::Return => "return"@,
        TokenType::Plus => "+"@,
        TokenType::Times => "*"@,
        TokenType::Lt => "<"@,
        TokenType::Eq => "=="@,
        TokenType::Assign => "="@,
        TokenType::Semi => ";"@,
        TokenType::Lparen => "("@,
        TokenType::Rparen => ")"@,
        TokenType::Lbrace => "{"@,
        TokenType::Rbrace => "}"@,
        TokenType::Comma => ","@,
        TokenType::Name => Seq::empty(),
        TokenType::Integer => Seq::empty(),
    }
}

/// The token of a keyword or of a symbol.
pub open spec fn mark(kind: TokenType) -> TokenView {
    TokenView { token_type: kind, token_str: mark_text(kind) }
}

/// The token of a name.
pub open spec fn name_token(name: Seq<char>) -> TokenView {
    TokenView { token_type: TokenType::Name, token_str: name }
}

/// The token of an arithmetic operator.
pub open spec fn binop_token(op: BinOperator) -> TokenView {
    match op {
        BinOperator::Add => mark(TokenType::Plus),
        BinOperator::Mul => mark(TokenType::Times),
    }
}

/// The token of a relational operator.
pub open spec fn relop_token(op: RelOperator) -> TokenView {
    match op {
        RelOperator::LessThan => mark(TokenType::Lt),
        RelOperator::Equal => mark(TokenType::Eq),
    }
}

/// An expression that can be written down: literals are not negative,
/// variables have no scope, and no comparison stands in it.
pub open spec fn expr_writable(e: ExprView) -> bool
    decreases e,
{
    match e {
        ExprView::FuncCall { name, args } => exprs_writable(args),
        ExprView::Variable(v) => v.scope is None,
        ExprView::BinOp { op, left, right } => expr_writable(*left) && expr_writable(*right),
        ExprView::RelOp(_) => false,
        ExprView::Number(Number::Int(n)) => n >= 0,
    }
}

/// Each of the expressions can be written down.
pub open spec fn exprs_writable(es: Seq<ExprView>) -> bool
    decreases es,
{
    forall|i: int| 0 <= i < es.len() ==> expr_writable(#[trigger] es[i])
}

/// A comparison of which both operands can be written down.
pub open spec fn relop_writable(r: RelOpView) -> bool {
    expr_writable(*r.left) && expr_writable(*r.right)
}

/// A statement that can be written down: its expressions can, and no
/// variable in it has a scope.
pub open spec fn stmt_writable(s: StmtView) -> bool
    decreases s,
{
    match s {
        StmtView::Func { name, args, body } => (forall|i: int|
            0 <= i < args.len() ==> (#[trigger] args[i]).scope is None) && stmts_writable(body),
        StmtView::If { condition, consequence, alternative } => relop_writable(condition)
            && stmts_writable(consequence) && stmts_writable(alternative),
        StmtView::While { condition, body } => relop_writable(condition) && stmts_writable(body),
        StmtView::Print { value } => expr_writable(value),
        StmtView::Return { value } => expr_writable(value),
        StmtView::Assignment { var, value, is_decl_and_init } => var.scope is None
            && expr_writable(value),
        StmtView::Declaration { var } => var.scope is None,
    }
}

/// Each of the statements can be written down.
pub open spec fn stmts_writable(ss: Seq<StmtView>) -> bool
    decreases ss,
{
    forall|i: int| 0 <= i < ss.len() ==> stmt_writable(#[trigger] ss[i])
}

/// The tokens of an expression.
pub open spec fn expr_tokens(e: ExprView) -> Seq<TokenView>
    decreases e, 0nat,
{
    match e {
        ExprView::FuncCall { name, args } => seq![name_token(name), mark(TokenType::Lparen)]
            + args_tokens(args) + seq![mark(TokenType::Rparen)],
        ExprView::Variable(v) => seq![name_token(v.name)],
        ExprView::BinOp { op, left, right } => operand_tokens(*left) + seq![binop_token(op)]
            + operand_tokens(*right),
        ExprView::RelOp(r) => Seq::empty(),
        ExprView::Number(Number::Int(n)) => seq![
            TokenView { token_type: TokenType::Integer, token_str: digits(n as nat) },
        ],
    }
}

/// The tokens of an operand of an arithmetic operation: in parentheses where
/// it is an arithmetic operation itself.
pub open spec fn operand_tokens(e: ExprView) -> Seq<TokenView>
    decreases e, 1nat,
{
    if e is BinOp {
        seq![mark(TokenType::Lparen)] + expr_tokens(e) + seq![mark(TokenType::Rparen)]
    } else {
        expr_tokens(e)
    }
}

/// The tokens of the arguments of a call, with commas between them.
pub open spec fn args_tokens(args: Seq<ExprView>) -> Seq<TokenView>
    decreases args, 0nat,
{
    if args.len() == 0 {
        Seq::empty()
    } else if args.len() == 1 {
        expr_tokens(args[0])
    } else {
        expr_tokens(args[0]) + seq![mark(TokenType::Comma)] + args_tokens(args.drop_first())
    }
}

/// The tokens of a comparison.
pub open spec fn relop_tokens(r: RelOpView) -> Seq<TokenView> {
    expr_tokens(*r.left) + seq![relop_token(r.op)] + expr_tokens(*r.right)
}

/// The tokens of a parameter list, with commas between the names.
pub open spec fn params_tokens(args: Seq<VariableView>) -> Seq<TokenView>
    decreases args.len(),
{
    if args.len() == 0 {
        Seq::empty()
    } else if args.len() == 1 {
        seq![name_token(args[0].name)]
    } else {
        seq![name_token(args[0].name), mark(TokenType::Comma)] + params_tokens(args.drop_first())
    }
}

/// The tokens of a statement.
pub open spec fn stmt_tokens(s: StmtView) -> Seq<TokenView>
    decreases s, 0nat,
{
    match s {
        StmtView::Func { name, args, body } => seq![
            mark(TokenType::Func),
            name_token(name),
            mark(TokenType::Lparen),
        ] + params_tokens(args) + seq![mark(TokenType::Rparen)] + block_tokens(body),
        StmtView::If { condition, consequence, alternative } => seq![mark(TokenType::If)]
            + relop_tokens(condition) + block_tokens(consequence) + seq![mark(TokenType::Else)]
            + block_tokens(alternative),
        StmtView::While { condition, body } => seq![mark(TokenType::While)] + relop_tokens(
            condition,
        ) + block_tokens(body),
        StmtView::Print { value } => seq![mark(TokenType::Print)] + expr_tokens(value) + seq![
            mark(TokenType::Semi),
        ],
        StmtView::Return { value } => seq![mark(TokenType::Return)] + expr_tokens(value) + seq![
            mark(TokenType::Semi),
        ],
        StmtView::Assignment { var, value, is_decl_and_init } => (if is_decl_and_init {
            seq![mark(TokenType::Var)]
        } else {
            Seq::empty()
        }) + seq![name_token(var.name), mark(TokenType::Assign)] + expr_tokens(value) + seq![
            mark(TokenType::Semi),
        ],
        StmtView::Declaration { var } => seq![
            mark(TokenType::Var),
            name_token(var.name),
            mark(TokenType::Semi),
        ],
    }
}

/// The tokens of a block: the statements between braces.
pub open spec fn block_tokens(ss: Seq<StmtView>) -> Seq<TokenView>
    decreases ss, 1nat,
{
    seq![mark(TokenType::Lbrace)] + stmts_tokens(ss) + seq![mark(TokenType::Rbrace)]
}

/// The tokens of a run of statements, one after the other.
pub open spec fn stmts_tokens(ss: Seq<StmtView>) -> Seq<TokenView>
    decreases ss, 0nat,
{
    if ss.len() == 0 {
        Seq::empty()
    } else {
        stmt_tokens(ss[0]) + stmts_tokens(ss.drop_first())
    }
}

/// The tokens `toks` stand in `ts` from `pos` on.
pub open spec fn stands(ts: Seq<TokenView>, pos: int, toks: Seq<TokenView>) -> bool {
    &&& 0 <= pos
    &&& pos + toks.len() <= ts.len()
    &&& forall|i: int| 0 <= i < toks.len() ==> ts[pos + i] == #[trigger] toks[i]
}

/// Where a concatenation stands, each part stands at its place.
pub proof fn lemma_stands_split(ts: Seq<TokenView>, pos: int, a: Seq<TokenView>, b: Seq<TokenView>)
    requires
        stands(ts, pos, a + b),
    ensures
        stands(ts, pos, a),
        stands(ts, pos + a.len(), b),
{
    assert forall|i: int| 0 <= i < a.len() implies ts[pos + i] == #[trigger] a[i] by {
        assert((a + b)[i] == a[i]);
    }
    assert forall|i: int| 0 <= i < b.len() implies ts[pos + a.len() + i] == #[trigger] b[i] by {
        assert((a + b)[a.len() + i] == b[i]);
    }
}

/// Where a token stands, it is the token at that place.
pub proof fn lemma_stands_at(ts: Seq<TokenView>, pos: int, toks: Seq<TokenView>, i: int)
    requires
        stands(ts, pos, toks),
        0 <= i < toks.len(),
    ensures
        0 <= pos + i < ts.len(),
        ts[pos + i] == toks[i],
        kind_at(ts, pos + i) == Some(toks[i].token_type),
{
    assert(ts[pos + i] == toks[i]);
}

/// A digit's character has the digit's value.
pub proof fn lemma_digit_reads(d: int)
    requires
        0 <= d < 10,
    ensures
        digit_value(digit_char(d)) == Some(d),
{
}

/// The numeral of a number has the number's value.
pub proof fn lemma_digits_read(n: nat)
    ensures
        numeral_value(digits(n)) == Some(n as int),
        digits(n).len() >= 1,
    decreases n,
{
    if n < 10 {
        lemma_digit_reads(n as int);
    } else {
        lemma_digits_read(n / 10);
        lemma_digit_reads((n % 10) as int);
        let longer = digits(n);
        assert(longer.drop_last() =~= digits(n / 10));
        assert(longer.last() == digit_char((n % 10) as int));
    }
}

/// The kind of a token that starts a term.
pub open spec fn starts_term(kind: TokenType) -> bool {
    kind == TokenType::Integer || kind == TokenType::Name || kind == TokenType::Lparen
}

/// The kind of a token that starts a statement.
pub open spec fn starts_stmt(kind: TokenType) -> bool {
    kind == TokenType::Print || kind == TokenType::Return || kind == TokenType::Var || kind
        == TokenType::Name || kind == TokenType::If || kind == TokenType::While || kind
        == TokenType::Func
}

/// A token that does not go on an expression that has ended before it.
pub open spec fn ends_expr(ts: Seq<TokenView>, pos: int) -> bool {
    kind_at(ts, pos) != Some(TokenType::Plus) && kind_at(ts, pos) != Some(TokenType::Times)
        && kind_at(ts, pos) != Some(TokenType::Lparen)
}

/// An expression that can be written down has tokens, and the first of them
/// starts a term.
pub proof fn lemma_expr_starts(e: ExprView)
    requires
        expr_writable(e),
    ensures
        expr_tokens(e).len() >= 1,
        starts_term(expr_tokens(e)[0].token_type),
        operand_tokens(e).len() >= 1,
        starts_term(operand_tokens(e)[0].token_type),
        e is Variable ==> expr_tokens(e).len() == 1,
    decreases e,
{
    match e {
        ExprView::BinOp { op, left, right } => {
            lemma_expr_starts(*left);
        },
        _ => {},
    }
}

/// A statement has tokens, and the first of them starts a statement.
pub proof fn lemma_stmt_starts(s: StmtView)
    ensures
        stmt_tokens(s).len() >= 1,
        starts_stmt(stmt_tokens(s)[0].token_type),
{
}

/// The parser reads a term back from its tokens.
pub proof fn lemma_term_reads(ts: Seq<TokenView>, pos: int, e: ExprView)
    requires
        expr_writable(e),
        !(e is BinOp),
        stands(ts, pos, expr_tokens(e)),
        e is Variable ==> kind_at(ts, pos + 1) != Some(TokenType::Lparen),
    ensures
        term_spec(ts, pos) == Ok::<(ExprView, int), ParseError>((e, pos + expr_tokens(e).len())),
    decreases e, 0nat,
{
    match e {
        ExprView::Number(Number::Int(n)) => {
            lemma_stands_at(ts, pos, expr_tokens(e), 0);
            lemma_digits_read(n as nat);
        },
        ExprView::Variable(v) => {
            lemma_stands_at(ts, pos, expr_tokens(e), 0);
        },
        ExprView::FuncCall { name, args } => {
            let head = seq![name_token(name), mark(TokenType::Lparen)];
            let tail = args_tokens(args) + seq![mark(TokenType::Rparen)];
            assert(expr_tokens(e) =~= head + tail);
            lemma_stands_split(ts, pos, head, tail);
            lemma_stands_at(ts, pos, head, 0);
            lemma_stands_at(ts, pos, head, 1);
            lemma_args_read(ts, pos + 2, args);
        },
        _ => {},
    }
}

/// The parser reads an operand back from its tokens.
pub proof fn lemma_operand_reads(ts: Seq<TokenView>, pos: int, e: ExprView)
    requires
        expr_writable(e),
        stands(ts, pos, operand_tokens(e)),
        e is Variable ==> kind_at(ts, pos + 1) != Some(TokenType::Lparen),
    ensures
        term_spec(ts, pos) == Ok::<(ExprView, int), ParseError>(
            (e, pos + operand_tokens(e).len()),
        ),
    decreases e, 2nat,
{
    if e is BinOp {
        let open = seq![mark(TokenType::Lparen)];
        let close = seq![mark(TokenType::Rparen)];
        assert(operand_tokens(e) =~= open + (expr_tokens(e) + close));
        lemma_stands_split(ts, pos, open, expr_tokens(e) + close);
        lemma_stands_split(ts, pos + 1, expr_tokens(e), close);
        lemma_stands_at(ts, pos, open, 0);
        lemma_stands_at(ts, pos + 1 + expr_tokens(e).len(), close, 0);
        lemma_expr_reads(ts, pos + 1, e);
    } else {
        lemma_term_reads(ts, pos, e);
    }
}

/// The parser reads an expression back from its tokens, where the token
/// after them does not go on the expression.
pub proof fn lemma_expr_reads(ts: Seq<TokenView>, pos: int, e: ExprView)
    requires
        expr_writable(e),
        stands(ts, pos, expr_tokens(e)),
        ends_expr(ts, pos + expr_tokens(e).len()),
    ensures
        expr_spec(ts, pos) == Ok::<(ExprView, int), ParseError>((e, pos + expr_tokens(e).len())),
    decreases e, 1nat,
{
    match e {
        ExprView::BinOp { op, left, right } => {
            let l = operand_tokens(*left);
            let r = operand_tokens(*right);
            let mid = seq![binop_token(op)];
            assert(expr_tokens(e) =~= l + (mid + r));
            lemma_stands_split(ts, pos, l, mid + r);
            lemma_stands_split(ts, pos + l.len(), mid, r);
            lemma_stands_at(ts, pos + l.len(), mid, 0);
            lemma_expr_starts(*left);
            lemma_expr_starts(*right);
            lemma_operand_reads(ts, pos, *left);
            lemma_operand_reads(ts, pos + l.len() + 1, *right);
            assert(binop_at(ts, pos + l.len()) == Some(op));
            assert(moved(ts, pos, pos + l.len()));
        },
        _ => {
            lemma_expr_starts(e);
            lemma_term_reads(ts, pos, e);
        },
    }
}

/// The parser reads the arguments of a call back from their tokens.
pub proof fn lemma_args_read(ts: Seq<TokenView>, pos: int, args: Seq<ExprView>)
    requires
        exprs_writable(args),
        stands(ts, pos, args_tokens(args) + seq![mark(TokenType::Rparen)]),
    ensures
        args_spec(ts, pos) == Ok::<(Seq<ExprView>, int), ParseError>(
            (args, pos + args_tokens(args).len() + 1),
        ),
    decreases args, 1nat,
{
    let all = args_tokens(args) + seq![mark(TokenType::Rparen)];
    lemma_stands_at(ts, pos, all, 0);
    if args.len() == 0 {
        assert(args =~= Seq::empty());
    } else {
        lemma_expr_starts(args[0]);
        assert(all[0] == expr_tokens(args[0])[0]);
        lemma_more_args_read(ts, pos, args);
    }
}

/// The parser reads one argument and those after it back from their tokens.
pub proof fn lemma_more_args_read(ts: Seq<TokenView>, pos: int, args: Seq<ExprView>)
    requires
        args.len() >= 1,
        exprs_writable(args),
        stands(ts, pos, args_tokens(args) + seq![mark(TokenType::Rparen)]),
    ensures
        more_args_spec(ts, pos) == Ok::<(Seq<ExprView>, int), ParseError>(
            (args, pos + args_tokens(args).len() + 1),
        ),
    decreases args, 0nat,
{
    let first = expr_tokens(args[0]);
    let close = seq![mark(TokenType::Rparen)];
    lemma_expr_starts(args[0]);
    if args.len() == 1 {
        lemma_stands_split(ts, pos, first, close);
        lemma_stands_at(ts, pos + first.len(), close, 0);
        lemma_expr_reads(ts, pos, args[0]);
        assert(seq![args[0]] =~= args);
    } else {
        let rest = args.drop_first();
        let comma = seq![mark(TokenType::Comma)];
        let tail = args_tokens(rest) + close;
        assert(args_tokens(args) + close =~= first + (comma + tail));
        lemma_stands_split(ts, pos, first, comma + tail);
        lemma_stands_split(ts, pos + first.len(), comma, tail);
        lemma_stands_at(ts, pos + first.len(), comma, 0);
        lemma_expr_reads(ts, pos, args[0]);
        assert forall|i: int| 0 <= i < rest.len() implies expr_writable(#[trigger] rest[i]) by {
            assert(rest[i] == args[i + 1]);
        }
        lemma_more_args_read(ts, pos + first.len() + 1, rest);
        assert(moved(ts, pos, pos + first.len()));
        assert(seq![args[0]] + rest =~= args);
    }
}

/// The parser reads a comparison back from its tokens, where the token after
/// them does not go on an expression.
pub proof fn lemma_relop_reads(ts: Seq<TokenView>, pos: int, r: RelOpView)
    requires
        relop_writable(r),
        stands(ts, pos, relop_tokens(r)),
        ends_expr(ts, pos + relop_tokens(r).len()),
    ensures
        relop_spec(ts, pos) == Ok::<(RelOpView, int), ParseError>(
            (r, pos + relop_tokens(r).len()),
        ),
{
    let l = expr_tokens(*r.left);
    let mid = seq![relop_token(r.op)];
    let rt = expr_tokens(*r.right);
    assert(relop_tokens(r) =~= l + (mid + rt));
    lemma_stands_split(ts, pos, l, mid + rt);
    lemma_stands_split(ts, pos + l.len(), mid, rt);
    lemma_stands_at(ts, pos + l.len(), mid, 0);
    lemma_expr_reads(ts, pos, *r.left);
    lemma_expr_reads(ts, pos + l.len() + 1, *r.right);
    assert(relop_at(ts, pos + l.len()) == Ok::<RelOperator, ParseError>(r.op));
}

/// The parser reads an expression and its `;` back from their tokens.
pub proof fn lemma_closed_expr_reads(ts: Seq<TokenView>, pos: int, e: ExprView)
    requires
        expr_writable(e),
        stands(ts, pos, expr_tokens(e) + seq![mark(TokenType::Semi)]),
    ensures
        closed_expr_spec(ts, pos) == Ok::<(ExprView, int), ParseError>(
            (e, pos + expr_tokens(e).len() + 1),
        ),
{
    let close = seq![mark(TokenType::Semi)];
    lemma_stands_split(ts, pos, expr_tokens(e), close);
    lemma_stands_at(ts, pos + expr_tokens(e).len(), close, 0);
    lemma_expr_reads(ts, pos, e);
}

/// The parser reads a parameter list back from its tokens.
pub proof fn lemma_params_read(ts: Seq<TokenView>, pos: int, args: Seq<VariableView>)
    requires
        forall|i: int| 0 <= i < args.len() ==> (#[trigger] args[i]).scope is None,
        stands(ts, pos, params_tokens(args) + seq![mark(TokenType::Rparen)]),
    ensures
        params_spec(ts, pos) == Ok::<(Seq<VariableView>, int), ParseError>(
            (args, pos + params_tokens(args).len() + 1),
        ),
{
    let all = params_tokens(args) + seq![mark(TokenType::Rparen)];
    lemma_stands_at(ts, pos, all, 0);
    if args.len() == 0 {
        assert(args =~= Seq::empty());
    } else {
        assert(all[0] == name_token(args[0].name));
        lemma_more_params_read(ts, pos, args);
    }
}

/// The parser reads one parameter and those after it back from their
/// tokens.
pub proof fn lemma_more_params_read(ts: Seq<TokenView>, pos: int, args: Seq<VariableView>)
    requires
        args.len() >= 1,
        forall|i: int| 0 <= i < args.len() ==> (#[trigger] args[i]).scope is None,
        stands(ts, pos, params_tokens(args) + seq![mark(TokenType::Rparen)]),
    ensures
        more_params_spec(ts, pos) == Ok::<(Seq<VariableView>, int), ParseError>(
            (args, pos + params_tokens(args).len() + 1),
        ),
    decreases args.len(),
{
    let close = seq![mark(TokenType::Rparen)];
    let all = params_tokens(args) + close;
    lemma_stands_at(ts, pos, all, 0);
    lemma_stands_at(ts, pos, all, 1);
    assert(args[0].scope is None);
    assert(variable_at(ts, pos) == args[0]);
    if args.len() == 1 {
        assert(seq![args[0]] =~= args);
    } else {
        let rest = args.drop_first();
        let head = seq![name_token(args[0].name), mark(TokenType::Comma)];
        let tail = params_tokens(rest) + close;
        assert(all =~= head + tail);
        lemma_stands_split(ts, pos, head, tail);
        assert forall|i: int| 0 <= i < rest.len() implies (#[trigger] rest[i]).scope is None by {
            assert(rest[i] == args[i + 1]);
        }
        lemma_more_params_read(ts, pos + 2, rest);
        assert(seq![args[0]] + rest =~= args);
    }
}

/// The parser reads a block back from its tokens.
pub proof fn lemma_block_reads(ts: Seq<TokenView>, pos: int, ss: Seq<StmtView>)
    requires
        stmts_writable(ss),
        stands(ts, pos, block_tokens(ss)),
    ensures
        block_spec(ts, pos) == Ok::<(Seq<StmtView>, int), ParseError>(
            (ss, pos + block_tokens(ss).len()),
        ),
        block_tokens(ss).len() >= 2,
    decreases ss, 1nat,
{
    let open = seq![mark(TokenType::Lbrace)];
    let close = seq![mark(TokenType::Rbrace)];
    let inner = stmts_tokens(ss);
    assert(block_tokens(ss) =~= open + (inner + close));
    lemma_stands_split(ts, pos, open, inner + close);
    lemma_stands_split(ts, pos + 1, inner, close);
    lemma_stands_at(ts, pos, open, 0);
    lemma_stands_at(ts, pos + 1 + inner.len(), close, 0);
    lemma_stmts_read(ts, pos + 1, ss);
}

/// The parser reads a run of statements back from their tokens, where a `}`
/// or the end of the tokens follows them.
pub proof fn lemma_stmts_read(ts: Seq<TokenView>, pos: int, ss: Seq<StmtView>)
    requires
        stmts_writable(ss),
        stands(ts, pos, stmts_tokens(ss)),
        kind_at(ts, pos + stmts_tokens(ss).len()) is None || kind_at(
            ts,
            pos + stmts_tokens(ss).len(),
        ) == Some(TokenType::Rbrace),
    ensures
        stmts_spec(ts, pos) == Ok::<(Seq<StmtView>, int), ParseError>(
            (ss, pos + stmts_tokens(ss).len()),
        ),
    decreases ss, 0nat,
{
    if ss.len() == 0 {
        assert(ss =~= Seq::empty());
    } else {
        let first = stmt_tokens(ss[0]);
        let rest = ss.drop_first();
        lemma_stmt_starts(ss[0]);
        lemma_stands_split(ts, pos, first, stmts_tokens(rest));
        lemma_stands_at(ts, pos, first, 0);
        lemma_stmt_reads(ts, pos, ss[0]);
        assert forall|i: int| 0 <= i < rest.len() implies stmt_writable(#[trigger] rest[i]) by {
            assert(rest[i] == ss[i + 1]);
        }
        lemma_stmts_read(ts, pos + first.len(), rest);
        assert(moved(ts, pos, pos + first.len()));
        assert(seq![ss[0]] + rest =~= ss);
    }
}

/// The parser reads a print statement back from its tokens.
pub proof fn lemma_print_reads(ts: Seq<TokenView>, pos: int, s: StmtView)
    requires
        s is Print,
        stmt_writable(s),
        stands(ts, pos, stmt_tokens(s)),
    ensures
        print_spec(ts, pos) == Ok::<(StmtView, int), ParseError>((s, pos + stmt_tokens(s).len())),
{
    let value = s->Print_value;
    let head = seq![mark(TokenType::Print)];
    let tail = expr_tokens(value) + seq![mark(TokenType::Semi)];
    assert(stmt_tokens(s) =~= head + tail);
    lemma_stands_split(ts, pos, head, tail);
    lemma_stands_at(ts, pos, head, 0);
    lemma_closed_expr_reads(ts, pos + 1, value);
}

/// The parser reads a return statement back from its tokens.
pub proof fn lemma_return_reads(ts: Seq<TokenView>, pos: int, s: StmtView)
    requires
        s is Return,
        stmt_writable(s),
        stands(ts, pos, stmt_tokens(s)),
    ensures
        return_spec(ts, pos) == Ok::<(StmtView, int), ParseError>((s, pos + stmt_tokens(s).len())),
{
    let value = s->Return_value;
    let head = seq![mark(TokenType::Return)];
    let tail = expr_tokens(value) + seq![mark(TokenType::Semi)];
    assert(stmt_tokens(s) =~= head + tail);
    lemma_stands_split(ts, pos, head, tail);
    lemma_stands_at(ts, pos, head, 0);
    lemma_closed_expr_reads(ts, pos + 1, value);
}

/// The parser reads a declaration back from its tokens.
pub proof fn lemma_declaration_reads(ts: Seq<TokenView>, pos: int, s: StmtView)
    requires
        s is Declaration,
        stmt_writable(s),
        stands(ts, pos, stmt_tokens(s)),
    ensures
        declaration_spec(ts, pos) == Ok::<(StmtView, int), ParseError>(
            (s, pos + stmt_tokens(s).len()),
        ),
        kind_at(ts, pos + 2) == Some(TokenType::Semi),
{
    let all = stmt_tokens(s);
    lemma_stands_at(ts, pos, all, 0);
    lemma_stands_at(ts, pos, all, 1);
    lemma_stands_at(ts, pos, all, 2);
    assert(variable_at(ts, pos + 1) == s->Declaration_var);
}

/// The parser reads an initialised declaration back from its tokens.
pub proof fn lemma_assignment_with_decl_reads(ts: Seq<TokenView>, pos: int, s: StmtView)
    requires
        s matches StmtView::Assignment { is_decl_and_init, .. } && is_decl_and_init,
        stmt_writable(s),
        stands(ts, pos, stmt_tokens(s)),
    ensures
        assignment_with_decl_spec(ts, pos) == Ok::<(StmtView, int), ParseError>(
            (s, pos + stmt_tokens(s).len()),
        ),
        kind_at(ts, pos + 2) == Some(TokenType::Assign),
{
    let var = s->Assignment_var;
    let value = s->Assignment_value;
    let head = seq![mark(TokenType::Var), name_token(var.name), mark(TokenType::Assign)];
    let tail = expr_tokens(value) + seq![mark(TokenType::Semi)];
    assert(stmt_tokens(s) =~= head + tail);
    lemma_stands_split(ts, pos, head, tail);
    lemma_stands_at(ts, pos, head, 0);
    lemma_stands_at(ts, pos, head, 1);
    lemma_stands_at(ts, pos, head, 2);
    lemma_closed_expr_reads(ts, pos + 3, value);
    assert(variable_at(ts, pos + 1) == var);
}

/// The parser reads a plain assignment back from its tokens.
pub proof fn lemma_assignment_without_decl_reads(ts: Seq<TokenView>, pos: int, s: StmtView)
    requires
        s matches StmtView::Assignment { is_decl_and_init, .. } && !is_decl_and_init,
        stmt_writable(s),
        stands(ts, pos, stmt_tokens(s)),
    ensures
        assignment_without_decl_spec(ts, pos) == Ok::<(StmtView, int), ParseError>(
            (s, pos + stmt_tokens(s).len()),
        ),
{
    let var = s->Assignment_var;
    let value = s->Assignment_value;
    let head = seq![name_token(var.name), mark(TokenType::Assign)];
    let tail = expr_tokens(value) + seq![mark(TokenType::Semi)];
    assert(stmt_tokens(s) =~= head + tail);
    lemma_stands_split(ts, pos, head, tail);
    lemma_stands_at(ts, pos, head, 0);
    lemma_stands_at(ts, pos, head, 1);
    lemma_closed_expr_reads(ts, pos + 2, value);
    assert(variable_at(ts, pos) == var);
}

/// The parser reads a loop back from its tokens.
pub proof fn lemma_while_reads(ts: Seq<TokenView>, pos: int, s: StmtView)
    requires
        s is While,
        stmt_writable(s),
        stands(ts, pos, stmt_tokens(s)),
    ensures
        while_spec(ts, pos) == Ok::<(StmtView, int), ParseError>((s, pos + stmt_tokens(s).len())),
    decreases s, 0nat,
{
    let condition = s->While_condition;
    let body = s->While_body;
    let head = seq![mark(TokenType::While)];
    let cond = relop_tokens(condition);
    let block = block_tokens(body);
    assert(stmt_tokens(s) =~= head + (cond + block));
    lemma_stands_split(ts, pos, head, cond + block);
    lemma_stands_split(ts, pos + 1, cond, block);
    lemma_stands_at(ts, pos, head, 0);
    lemma_stands_at(ts, pos + 1 + cond.len(), block, 0);
    lemma_relop_reads(ts, pos + 1, condition);
    lemma_block_reads(ts, pos + 1 + cond.len(), body);
}

/// The parser reads a conditional back from its tokens.
pub proof fn lemma_if_reads(ts: Seq<TokenView>, pos: int, s: StmtView)
    requires
        s is If,
        stmt_writable(s),
        stands(ts, pos, stmt_tokens(s)),
    ensures
        if_spec(ts, pos) == Ok::<(StmtView, int), ParseError>((s, pos + stmt_tokens(s).len())),
    decreases s, 0nat,
{
    let condition = s->If_condition;
    let consequence = s->If_consequence;
    let alternative = s->If_alternative;
    let head = seq![mark(TokenType::If)];
    let cond = relop_tokens(condition);
    let then_block = block_tokens(consequence);
    let mid = seq![mark(TokenType::Else)];
    let else_block = block_tokens(alternative);
    assert(stmt_tokens(s) =~= head + (cond + (then_block + (mid + else_block))));
    lemma_stands_split(ts, pos, head, cond + (then_block + (mid + else_block)));
    lemma_stands_split(ts, pos + 1, cond, then_block + (mid + else_block));
    let then_at = pos + 1 + cond.len();
    lemma_stands_split(ts, then_at, then_block, mid + else_block);
    let else_at = then_at + then_block.len();
    lemma_stands_split(ts, else_at, mid, else_block);
    lemma_stands_at(ts, pos, head, 0);
    lemma_stands_at(ts, then_at, then_block, 0);
    lemma_stands_at(ts, else_at, mid, 0);
    lemma_relop_reads(ts, pos + 1, condition);
    lemma_block_reads(ts, then_at, consequence);
    lemma_block_reads(ts, else_at + 1, alternative);
    assert(moved(ts, pos, else_at));
}

/// The parser reads a function back from its tokens.
pub proof fn lemma_func_reads(ts: Seq<TokenView>, pos: int, s: StmtView)
    requires
        s is Func,
        stmt_writable(s),
        stands(ts, pos, stmt_tokens(s)),
    ensures
        func_spec(ts, pos) == Ok::<(StmtView, int), ParseError>((s, pos + stmt_tokens(s).len())),
    decreases s, 0nat,
{
    let name = s->Func_name;
    let args = s->Func_args;
    let body = s->Func_body;
    let head = seq![mark(TokenType::Func), name_token(name), mark(TokenType::Lparen)];
    let params = params_tokens(args) + seq![mark(TokenType::Rparen)];
    let block = block_tokens(body);
    assert(stmt_tokens(s) =~= head + (params + block));
    lemma_stands_split(ts, pos, head, params + block);
    lemma_stands_split(ts, pos + 3, params, block);
    lemma_stands_at(ts, pos, head, 0);
    lemma_stands_at(ts, pos, head, 1);
    lemma_stands_at(ts, pos, head, 2);
    lemma_params_read(ts, pos + 3, args);
    lemma_block_reads(ts, pos + 3 + params.len(), body);
}

/// The parser reads a statement back from its tokens.
pub proof fn lemma_stmt_reads(ts: Seq<TokenView>, pos: int, s: StmtView)
    requires
        stmt_writable(s),
        stands(ts, pos, stmt_tokens(s)),
    ensures
        stmt_spec(ts, pos) == Ok::<(StmtView, int), ParseError>((s, pos + stmt_tokens(s).len())),
    decreases s, 1nat,
{
    lemma_stmt_starts(s);
    lemma_stands_at(ts, pos, stmt_tokens(s), 0);
    match s {
        StmtView::Print { .. } => {
            lemma_print_reads(ts, pos, s);
        },
        StmtView::Return { .. } => {
            lemma_return_reads(ts, pos, s);
        },
        StmtView::Declaration { .. } => {
            lemma_declaration_reads(ts, pos, s);
        },
        StmtView::Assignment { var, value, is_decl_and_init } => {
            if is_decl_and_init {
                lemma_assignment_with_decl_reads(ts, pos, s);
            } else {
                lemma_assignment_without_decl_reads(ts, pos, s);
            }
        },
        StmtView::While { .. } => {
            lemma_while_reads(ts, pos, s);
        },
        StmtView::If { .. } => {
            lemma_if_reads(ts, pos, s);
        },
        StmtView::Func { .. } => {
            lemma_func_reads(ts, pos, s);
        },
    }
}

/// What can be written down is read back: the parser turns the tokens of a
/// program into that very program.
pub proof fn lemma_program_reads(ss: Seq<StmtView>)
    requires
        stmts_writable(ss),
    ensures
        program_spec(stmts_tokens(ss), 0) == Ok::<Seq<StmtView>, ParseError>(ss),
{
    lemma_stmts_read(stmts_tokens(ss), 0, ss);
}

} // verus!
