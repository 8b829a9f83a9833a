//! Rendering of a syntax tree as source text.
//!
//! What is rendered is given by the `render_*` functions, over the views of
//! the trees. Statements of a body stand on lines of their own; the body of a
//! function, of a branch or of a loop is indented by four spaces. An operand
//! of an arithmetic operation that is an arithmetic operation itself is put
//! in parentheses.
use vstd::prelude::*;
use vstd::string::StringExecFns;

use crate::model::expressions::{
    exprs_view, BinOp, Expr, ExprView, FuncCall, Number, RelOp, RelOpView, Variable, VariableView,
};
use crate::model::statements::{stmts_view, vars_view, Func, If, Return, Stmt, StmtView, While};
use crate::model::Program;

verus! {

/// The character of a decimal digit.
pub open spec fn digit_char(d: int) -> char {
    if d == 0 {
        '0'
    } else if d == 1 {
        '1'
    } else if d == 2 {
        '2'
    } else if d == 3 {
        '3'
    } else if d == 4 {
        '4'
    } else if d == 5 {
        '5'
    } else if d == 6 {
        '6'
    } else if d == 7 {
        '7'
    } else if d == 8 {
        '8'
    } else {
        '9'
    }
}

/// The decimal digits of a natural number, the most significant first.
pub open spec fn digits(n: nat) -> Seq<char>
    decreases n,
{
    if n < 10 {
        seq![digit_char(n as int)]
    } else {
        digits(n / 10).push(digit_char((n % 10) as int))
    }
}

/// The decimal numeral of an integer, with `-` before a negative one.
pub open spec fn decimal(i: int) -> Seq<char> {
    if i < 0 {
        seq!['-'] + digits((-i) as nat)
    } else {
        digits(i as nat)
    }
}

/// The parts, with `sep` between each two of them.
pub open spec fn join(parts: Seq<Seq<char>>, sep: Seq<char>) -> Seq<char>
    decreases parts.len(),
{
    if parts.len() == 0 {
        Seq::empty()
    } else if parts.len() == 1 {
        parts[0]
    } else {
        join(parts.drop_last(), sep) + sep + parts.last()
    }
}

/// The text with four spaces after each line break.
pub open spec fn indent_breaks(text: Seq<char>) -> Seq<char>
    decreases text.len(),
{
    if text.len() == 0 {
        Seq::empty()
    } else if text.last() == '\n' {
        indent_breaks(text.drop_last()) + "\n    "@
    } else {
        indent_breaks(text.drop_last()).push(text.last())
    }
}

/// The text with each of its lines moved in by four spaces. The empty text
/// stays empty.
pub open spec fn indented(text: Seq<char>) -> Seq<char> {
    if text.len() == 0 {
        Seq::empty()
    } else {
        "    "@ + indent_breaks(text)
    }
}

/// An integer literal: its decimal numeral.
pub open spec fn render_number(n: Number) -> Seq<char> {
    match n {
        Number::Int(i) => decimal(i as int),
    }
}

/// An operand of an arithmetic operation: in parentheses where it is an
/// arithmetic operation itself.
pub open spec fn render_operand(e: ExprView) -> Seq<char>
    decreases e, 1nat,
{
    if e is BinOp {
        "("@ + render_expr(e) + ")"@
    } else {
        render_expr(e)
    }
}

/// An expression as source text.
pub open spec fn render_expr(e: ExprView) -> Seq<char>
    decreases e, 0nat,
{
    match e {
        ExprView::FuncCall { name, args } => name + "("@ + join(render_exprs(args), ", "@) + ")"@,
        ExprView::Variable(v) => v.name,
        ExprView::BinOp { op, left, right } => render_operand(*left) + " "@ + op.symbol_spec()
            + " "@ + render_operand(*right),
        ExprView::RelOp(r) => render_relop(r),
        ExprView::Number(n) => render_number(n),
    }
}

/// A comparison: `left op right`.
pub open spec fn render_relop(r: RelOpView) -> Seq<char>
    decreases r, 0nat,
{
    render_expr(*r.left) + " "@ + r.op.symbol_spec() + " "@ + render_expr(*r.right)
}

/// The texts of a list of expressions, item by item.
pub open spec fn render_exprs(es: Seq<ExprView>) -> Seq<Seq<char>>
    decreases es, 0nat,
{
    Seq::new(
        es.len(),
        |i: int|
            if 0 <= i < es.len() {
                render_expr(es[i])
            } else {
                arbitrary()
            },
    )
}

/// The names of a parameter list.
pub open spec fn render_params(args: Seq<VariableView>) -> Seq<Seq<char>> {
    Seq::new(args.len(), |i: int| args[i].name)
}

/// A statement as source text. The body of a function, of a branch and of
/// a loop stands between braces on lines of their own, indented.
pub open spec fn render_stmt(s: StmtView) -> Seq<char>
    decreases s, 0nat,
{
    match s {
        StmtView::Func { name, args, body } => "func "@ + name + "("@ + join(
            render_params(args),
            ", "@,
        ) + ") {\n"@ + indented(render_body(body)) + "\n}"@,
        StmtView::If { condition, consequence, alternative } => "if "@ + render_relop(condition)
            + " {\n"@ + indented(render_body(consequence)) + "\n} else {\n"@ + indented(
            render_body(alternative),
        ) + "\n}"@,
        StmtView::While { condition, body } => "while "@ + render_relop(condition) + " {\n"@
            + indented(render_body(body)) + "\n}"@,
        StmtView::Print { value } => "print "@ + render_expr(value) + ";"@,
        StmtView::Return { value } => "return "@ + render_expr(value) + ";"@,
        StmtView::Assignment { var, value, is_decl_and_init } => (if is_decl_and_init {
            "var "@
        } else {
            Seq::empty()
        }) + var.name + " = "@ + render_expr(value) + ";"@,
        StmtView::Declaration { var } => "var "@ + var.name + ";"@,
    }
}

/// The texts of a list of statements, item by item.
pub open spec fn render_stmts(ss: Seq<StmtView>) -> Seq<Seq<char>>
    decreases ss, 0nat,
{
    Seq::new(
        ss.len(),
        |i: int|
            if 0 <= i < ss.len() {
                render_stmt(ss[i])
            } else {
                arbitrary()
            },
    )
}

/// The statements of a body, one after the other on lines of their own.
pub open spec fn render_body(ss: Seq<StmtView>) -> Seq<char>
    decreases ss, 1nat,
{
    join(render_stmts(ss), "\n"@)
}

/// One more part at the end of a list is the separator and the part at the
/// end of the text, but for the first.
pub proof fn lemma_join_step(parts: Seq<Seq<char>>, i: int, sep: Seq<char>)
    requires
        0 <= i < parts.len(),
    ensures
        join(parts.take(i + 1), sep) == if i == 0 {
            parts[i]
        } else {
            join(parts.take(i), sep) + sep + parts[i]
        },
{
    assert(parts.take(i + 1).drop_last() =~= parts.take(i));
}

/// Appends the decimal digits of `n`.
fn push_digits(out: &mut String, n: u128)
    ensures
        final(out)@ == old(out)@ + digits(n as nat),
    decreases n,
{
    if n >= 10 {
        push_digits(out, n / 10);
    }
    let d = n % 10;
    let c = if d == 0 {
        '0'
    } else if d == 1 {
        '1'
    } else if d == 2 {
        '2'
    } else if d == 3 {
        '3'
    } else if d == 4 {
        '4'
    } else if d == 5 {
        '5'
    } else if d == 6 {
        '6'
    } else if d == 7 {
        '7'
    } else if d == 8 {
        '8'
    } else {
        '9'
    };
    out.push(c);
    assert(final(out)@ =~= old(out)@ + digits(n as nat));
}

/// The text with each of its lines moved in by four spaces.
pub fn indent(text: &str) -> (r: String)
    ensures
        r@ == indented(text@),
{
    let mut out = String::new();
    if text.unicode_len() == 0 {
        return out;
    }
    out.append("    ");
    assert(text@.take(0) =~= Seq::empty());
    assert(out@ =~= "    "@ + indent_breaks(text@.take(0)));
    for c in it: text.chars()
        invariant
            it.seq() == text@,
            out@ == "    "@ + indent_breaks(text@.take(it.index() as int)),
    {
        let ghost before = indent_breaks(text@.take(it.index() as int));
        assert(text@.take(it.index() + 1).drop_last() =~= text@.take(it.index() as int));
        if c == '\n' {
            out.append("\n    ");
            assert(out@ =~= "    "@ + (before + "\n    "@));
        } else {
            out.push(c);
            assert(out@ =~= "    "@ + before.push(c));
        }
    }
    assert(text@.take(text@.len() as int) =~= text@);
    out
}

/// Renders an integer literal as its decimal numeral.
pub fn format_number(number: &Number) -> (r: String)
    ensures
        r@ == render_number(*number),
{
    let mut out = String::new();
    match number {
        Number::Int(i) => {
            let wide: i128 = *i as i128;
            if wide < 0 {
                out.push('-');
                push_digits(&mut out, (-wide) as u128);
            } else {
                push_digits(&mut out, wide as u128);
            }
        },
    }
    assert(out@ =~= render_number(*number));
    out
}

/// Renders an expression.
pub fn format_expr(expr: &Expr) -> (r: String)
    ensures
        r@ == render_expr(expr@),
    decreases expr, 0nat,
{
    match expr {
        Expr::FuncCall(func_call) => format_func_call(func_call),
        Expr::Variable(variable) => variable.name.clone(),
        Expr::BinOp(binop) => format_binop(binop),
        Expr::RelOp(relop) => format_relop(relop),
        Expr::Number(number) => format_number(number),
    }
}

/// Renders a comparison: `left op right`.
pub fn format_relop(relop: &RelOp) -> (r: String)
    ensures
        r@ == render_relop(relop@),
    decreases relop, 0nat,
{
    let mut out = format_expr(&relop.left);
    out.append(" ");
    out.append(relop.op.symbol());
    out.append(" ");
    let right = format_expr(&relop.right);
    out.append(right.as_str());
    out
}

/// Renders an operand of an arithmetic operation.
fn format_operand(expr: &Expr) -> (r: String)
    ensures
        r@ == render_operand(expr@),
    decreases expr, 1nat,
{
    match expr {
        Expr::BinOp(_) => {
            let mut out = String::new();
            out.append("(");
            let inner = format_expr(expr);
            out.append(inner.as_str());
            out.append(")");
            assert(out@ =~= "("@ + render_expr(expr@) + ")"@);
            out
        },
        _ => format_expr(expr),
    }
}

/// Renders an arithmetic operation: `left op right`, an operand that is an
/// arithmetic operation in parentheses.
pub fn format_binop(binop: &BinOp) -> (r: String)
    ensures
        r@ == render_expr(binop@),
    decreases binop, 0nat,
{
    let mut out = format_operand(&binop.left);
    out.append(" ");
    out.append(binop.op.symbol());
    out.append(" ");
    let right = format_operand(&binop.right);
    out.append(right.as_str());
    out
}

/// Renders a call: `name(arg, arg)`.
pub fn format_func_call(func_call: &FuncCall) -> (r: String)
    ensures
        r@ == render_expr(func_call@),
    decreases func_call, 0nat,
{
    let ghost parts = render_exprs(exprs_view(func_call.args@));
    let mut args = String::new();
    let mut i: usize = 0;
    assert(parts.take(0) =~= Seq::empty());
    while i < func_call.args.len()
        invariant
            i <= func_call.args.len(),
            parts == render_exprs(exprs_view(func_call.args@)),
            args@ == join(parts.take(i as int), ", "@),
        decreases func_call.args.len() - i,
    {
        proof {
            lemma_join_step(parts, i as int, ", "@);
        }
        if i > 0 {
            args.append(", ");
        }
        let arg = format_expr(&func_call.args[i]);
        args.append(arg.as_str());
        assert(args@ =~= join(parts.take(i + 1), ", "@));
        i += 1;
    }
    assert(parts.take(parts.len() as int) =~= parts);
    let mut out = func_call.name.clone();
    out.append("(");
    out.append(args.as_str());
    out.append(")");
    out
}

/// Renders a parameter list: the names, with `, ` between them.
fn format_params(params: &Vec<Variable>) -> (r: String)
    ensures
        r@ == join(render_params(vars_view(params@)), ", "@),
{
    let ghost parts = render_params(vars_view(params@));
    let mut out = String::new();
    let mut i: usize = 0;
    assert(parts.take(0) =~= Seq::empty());
    while i < params.len()
        invariant
            i <= params.len(),
            parts == render_params(vars_view(params@)),
            out@ == join(parts.take(i as int), ", "@),
        decreases params.len() - i,
    {
        proof {
            lemma_join_step(parts, i as int, ", "@);
        }
        if i > 0 {
            out.append(", ");
        }
        out.append(params[i].name.as_str());
        assert(out@ =~= join(parts.take(i + 1), ", "@));
        i += 1;
    }
    assert(parts.take(parts.len() as int) =~= parts);
    out
}

/// Renders a body: its statements on lines of their own.
pub fn format_body(stmts: &Vec<Stmt>) -> (r: String)
    ensures
        r@ == render_body(stmts_view(stmts@)),
    decreases stmts,
{
    let ghost parts = render_stmts(stmts_view(stmts@));
    let mut out = String::new();
    let mut i: usize = 0;
    assert(parts.take(0) =~= Seq::empty());
    while i < stmts.len()
        invariant
            i <= stmts.len(),
            parts == render_stmts(stmts_view(stmts@)),
            out@ == join(parts.take(i as int), "\n"@),
        decreases stmts.len() - i,
    {
        proof {
            lemma_join_step(parts, i as int, "\n"@);
        }
        if i > 0 {
            out.append("\n");
        }
        let line = format_stmt(&stmts[i]);
        out.append(line.as_str());
        assert(out@ =~= join(parts.take(i + 1), "\n"@));
        i += 1;
    }
    assert(parts.take(parts.len() as int) =~= parts);
    out
}

/// Renders a statement.
pub fn format_stmt(stmt: &Stmt) -> (r: String)
    ensures
        r@ == render_stmt(stmt@),
    decreases stmt,
{
    match stmt {
        Stmt::Func(func) => format_func(func),
        Stmt::If(branch) => format_if(branch),
        Stmt::While(repeat) => format_while(repeat),
        Stmt::Print(print) => {
            let mut out = String::new();
            out.append("print ");
            let value = format_expr(&print.value);
            out.append(value.as_str());
            out.append(";");
            assert(out@ =~= "print "@ + render_expr(print.value@) + ";"@);
            out
        },
        Stmt::Return(ret) => format_return(ret),
        Stmt::Assignment(assignment) => {
            let mut out = String::new();
            if assignment.is_decl_and_init {
                out.append("var ");
            }
            let ghost head = out@;
            out.append(assignment.var.name.as_str());
            out.append(" = ");
            let value = format_expr(&assignment.value);
            out.append(value.as_str());
            out.append(";");
            assert(out@ =~= head + assignment.var.name@ + " = "@ + render_expr(assignment.value@)
                + ";"@);
            out
        },
        Stmt::Declaration(declaration) => {
            let mut out = String::new();
            out.append("var ");
            out.append(declaration.var.name.as_str());
            out.append(";");
            assert(out@ =~= "var "@ + declaration.var.name@ + ";"@);
            out
        },
    }
}

/// Renders a function: its head, its body indented, a closing brace.
pub fn format_func(func: &Func) -> (r: String)
    ensures
        r@ == render_stmt(func@),
    decreases func,
{
    let mut out = String::new();
    out.append("func ");
    out.append(func.name.as_str());
    out.append("(");
    let params = format_params(&func.args);
    out.append(params.as_str());
    out.append(") {\n");
    let body = format_body(&func.body);
    let body = indent(body.as_str());
    out.append(body.as_str());
    out.append("\n}");
    assert(out@ =~= "func "@ + func.name@ + "("@ + join(
        render_params(vars_view(func.args@)),
        ", "@,
    ) + ") {\n"@ + indented(render_body(stmts_view(func.body@))) + "\n}"@);
    out
}

/// Renders a conditional with both of its branches.
pub fn format_if(branch: &If) -> (r: String)
    ensures
        r@ == render_stmt(branch@),
    decreases branch,
{
    let mut out = String::new();
    out.append("if ");
    let condition = format_relop(&branch.condition);
    out.append(condition.as_str());
    out.append(" {\n");
    let consequence = format_body(&branch.consequence);
    let consequence = indent(consequence.as_str());
    out.append(consequence.as_str());
    out.append("\n} else {\n");
    let alternative = format_body(&branch.alternative);
    let alternative = indent(alternative.as_str());
    out.append(alternative.as_str());
    out.append("\n}");
    assert(out@ =~= "if "@ + render_relop(branch.condition@) + " {\n"@ + indented(
        render_body(stmts_view(branch.consequence@)),
    ) + "\n} else {\n"@ + indented(render_body(stmts_view(branch.alternative@))) + "\n}"@);
    out
}

/// Renders a loop.
pub fn format_while(repeat: &While) -> (r: String)
    ensures
        r@ == render_stmt(repeat@),
    decreases repeat,
{
    let mut out = String::new();
    out.append("while ");
    let condition = format_relop(&repeat.condition);
    out.append(condition.as_str());
    out.append(" {\n");
    let body = format_body(&repeat.body);
    let body = indent(body.as_str());
    out.append(body.as_str());
    out.append("\n}");
    assert(out@ =~= "while "@ + render_relop(repeat.condition@) + " {\n"@ + indented(
        render_body(stmts_view(repeat.body@)),
    ) + "\n}"@);
    out
}

/// Renders a return statement.
pub fn format_return(ret: &Return) -> (r: String)
    ensures
        r@ == render_stmt(ret@),
    decreases ret,
{
    let mut out = String::new();
    out.append("return ");
    let value = format_expr(&ret.value);
    out.append(value.as_str());
    out.append(";");
    assert(out@ =~= "return "@ + render_expr(ret.value@) + ";"@);
    out
}

/// Renders a program: its top-level statements on lines of their own.
pub fn format_program(program: &Program) -> (r: String)
    ensures
        r@ == render_body(program@),
{
    format_body(&program.stmts)
}

} // verus!
