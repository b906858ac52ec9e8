//! The printed forms of tokens, expressions and statements.
//!
//! Each form is defined as what it adds to the text written so far, so the
//! definitions read in the order in which the text is written.

use crate::ast::{ExprView, LiteralView, StmtView};
use crate::number::Number;
use crate::text::decimal;
use crate::token::TokenKind;
use vstd::prelude::*;

pub mod tokens;
pub mod write;

verus! {

/// How a number literal is printed: a whole number with `.0` after its
/// decimal text, any other as its decimal text.
pub open spec fn number_text(format: spec_fn(Number) -> Seq<char>, n: Number) -> Seq<char> {
    if n.is_integral() {
        format(n) + ".0"@
    } else {
        format(n)
    }
}

/// How an operator is written.
pub open spec fn operator_symbol(kind: TokenKind) -> Seq<char> {
    match kind {
        TokenKind::EqualEqual => "=="@,
        TokenKind::BangEqual => "!="@,
        TokenKind::Less => "<"@,
        TokenKind::LessEqual => "<="@,
        TokenKind::Greater => ">"@,
        TokenKind::GreaterEqual => ">="@,
        TokenKind::Plus => "+"@,
        TokenKind::Minus => "-"@,
        TokenKind::Star => "*"@,
        TokenKind::Slash => "/"@,
        TokenKind::Equal => "="@,
        TokenKind::And => "&&"@,
        TokenKind::Or => "||"@,
        TokenKind::Mod => "%"@,
        TokenKind::ModSelf => "%="@,
        TokenKind::PlusSelf => "+="@,
        TokenKind::MinusSelf => "-="@,
        TokenKind::StarSelf => "*="@,
        TokenKind::SlashSelf => "/="@,
        TokenKind::Bang => "!"@,
        TokenKind::BitAnd => "&"@,
        TokenKind::BitOr => "|"@,
        _ => "?"@,
    }
}

/// `acc` and the names `names[i..]`, with `, ` between them.
pub open spec fn names_into(acc: Seq<char>, names: Seq<Seq<char>>, i: int) -> Seq<char>
    decreases names.len() - i,
{
    if i < 0 || i >= names.len() {
        acc
    } else if i > 0 {
        names_into(acc + ", "@ + names[i], names, i + 1)
    } else {
        names_into(acc + names[i], names, i + 1)
    }
}

/// `acc` and the printed form of the expression `e`.
///
/// Operators are written before their operands, in parentheses:
/// `(+ a b)`, `(- a)`, `(group a)`.
#[verifier::opaque]
pub open spec fn expr_into(acc: Seq<char>, e: ExprView, format: spec_fn(Number) -> Seq<char>) -> Seq<
    char,
>
    decreases e, 0nat,
{
    match e {
        ExprView::Ident(name) => acc + name,
        ExprView::ThisExpr(name) => acc + "this."@ + name,
        ExprView::Literal(l) => match l {
            LiteralView::Number(n) => acc + number_text(format, n),
            LiteralView::String(s) => acc + s,
            LiteralView::Bool(b) => if b {
                acc + "true"@
            } else {
                acc + "false"@
            },
            LiteralView::Index(i) => acc + decimal(i as nat),
            LiteralView::Array(elements) => list_into(acc + "["@, elements, 0, format) + "]"@,
            LiteralView::Hash(pairs) => pairs_into(acc + "{"@, pairs, 0, format) + "}"@,
            LiteralView::Nil => acc + "nil"@,
        },
        ExprView::GroupingExpr(inner) => expr_into(acc + "(group "@, *inner, format) + ")"@,
        ExprView::PrefixExpr(op, right) => expr_into(
            acc + "("@ + operator_symbol(op.kind) + " "@,
            *right,
            format,
        ) + ")"@,
        ExprView::InfixExpr(left, op, right) => expr_into(
            expr_into(acc + "("@ + operator_symbol(op.kind) + " "@, *left, format) + " "@,
            *right,
            format,
        ) + ")"@,
        ExprView::PrintExpr(exprs) => list_into(acc + "(print "@, exprs, 0, format) + ")"@,
        ExprView::IndexExpr(left, index) => expr_into(
            expr_into(acc, *left, format) + "["@,
            *index,
            format,
        ) + "]"@,
        ExprView::If { condition, elseif, then_branch, else_branch } => {
            let a = lines_into(
                expr_into(acc + "if "@, *condition, format) + " {\n"@,
                then_branch,
                0,
                format,
            ) + "}"@;
            let b = arms_into(a, elseif, 0, format);
            if else_branch.len() > 0 {
                lines_into(b + " else {\n"@, else_branch, 0, format) + "}"@
            } else {
                b
            }
        },
        ExprView::Function { params, body } => lines_into(
            names_into(acc + "fn("@, params, 0) + ") {\n"@,
            body,
            0,
            format,
        ) + "\n}\n"@,
        ExprView::Call { callee, args } => list_into(
            expr_into(acc, *callee, format) + "("@,
            args,
            0,
            format,
        ) + ")"@,
        ExprView::ClassInit { name, args } => list_into(
            acc + "new "@ + name + "("@,
            args,
            0,
            format,
        ) + ")"@,
        ExprView::ClassCall { callee, method, args } => list_into(
            acc + callee + "."@ + method + "("@,
            args,
            0,
            format,
        ) + ")"@,
        ExprView::ClassGet { callee, prop } => acc + callee + "."@ + prop,
        ExprView::ThisCall { method, args } => list_into(
            acc + "this."@ + method + "("@,
            args,
            0,
            format,
        ) + ")"@,
    }
}

/// `acc` and the printed forms of the expressions `es[i..]`, with `, `
/// between them.
#[verifier::opaque]
pub open spec fn list_into(
    acc: Seq<char>,
    es: Seq<ExprView>,
    i: int,
    format: spec_fn(Number) -> Seq<char>,
) -> Seq<char>
    decreases es, es.len() - i,
{
    if i < 0 || i >= es.len() {
        acc
    } else if i > 0 {
        list_into(expr_into(acc + ", "@, es[i], format), es, i + 1, format)
    } else {
        list_into(expr_into(acc, es[i], format), es, i + 1, format)
    }
}

/// `acc` and the printed forms of the pairs `pairs[i..]`, each as
/// `key: value`, with `, ` between them.
#[verifier::opaque]
pub open spec fn pairs_into(
    acc: Seq<char>,
    pairs: Seq<(ExprView, ExprView)>,
    i: int,
    format: spec_fn(Number) -> Seq<char>,
) -> Seq<char>
    decreases pairs, pairs.len() - i,
{
    if i < 0 || i >= pairs.len() {
        acc
    } else {
        let start = if i > 0 {
            acc + ", "@
        } else {
            acc
        };
        pairs_into(
            expr_into(expr_into(start, pairs[i].0, format) + ": "@, pairs[i].1, format),
            pairs,
            i + 1,
            format,
        )
    }
}

/// `acc` and the `else if` arms `arms[i..]`.
#[verifier::opaque]
pub open spec fn arms_into(
    acc: Seq<char>,
    arms: Seq<(ExprView, Seq<StmtView>)>,
    i: int,
    format: spec_fn(Number) -> Seq<char>,
) -> Seq<char>
    decreases arms, arms.len() - i,
{
    if i < 0 || i >= arms.len() {
        acc
    } else {
        arms_into(
            lines_into(
                expr_into(acc + " else if "@, arms[i].0, format) + " {\n"@,
                arms[i].1,
                0,
                format,
            ) + "}"@,
            arms,
            i + 1,
            format,
        )
    }
}

/// `acc` and the statements `ss[i..]`, each on a line of its own after a
/// tab.
#[verifier::opaque]
pub open spec fn lines_into(
    acc: Seq<char>,
    ss: Seq<StmtView>,
    i: int,
    format: spec_fn(Number) -> Seq<char>,
) -> Seq<char>
    decreases ss, ss.len() - i,
{
    if i < 0 || i >= ss.len() {
        acc
    } else {
        lines_into(stmt_into(acc + "\t"@, ss[i], format) + "\n"@, ss, i + 1, format)
    }
}

/// `acc` and the statements `ss[i..]`, each on a line of its own.
#[verifier::opaque]
pub open spec fn plain_lines_into(
    acc: Seq<char>,
    ss: Seq<StmtView>,
    i: int,
    format: spec_fn(Number) -> Seq<char>,
) -> Seq<char>
    decreases ss, ss.len() - i,
{
    if i < 0 || i >= ss.len() {
        acc
    } else {
        plain_lines_into(stmt_into(acc, ss[i], format) + "\n"@, ss, i + 1, format)
    }
}

/// `acc` and the printed form of the statement `s`.
#[verifier::opaque]
pub open spec fn stmt_into(acc: Seq<char>, s: StmtView, format: spec_fn(Number) -> Seq<char>) -> Seq<
    char,
>
    decreases s, 0nat,
{
    match s {
        StmtView::Blank => acc,
        StmtView::Var(name, e) => expr_into(acc + "var "@ + name + " = "@, e, format),
        StmtView::Expr(e) => expr_into(acc, e, format),
        StmtView::Block(body) => plain_lines_into(acc, body, 0, format),
        StmtView::Return(e) => expr_into(acc + "return "@, e, format),
        StmtView::Function(name, params, body) => lines_into(
            names_into(acc + "fun "@ + name + "("@, params, 0) + ") {\n"@,
            body,
            0,
            format,
        ) + "}"@,
        StmtView::Switch(e, cases) => lines_into(
            expr_into(acc + "switch "@, e, format) + " {\n"@,
            cases,
            0,
            format,
        ) + "}"@,
        StmtView::Case(e, body) => lines_into(
            expr_into(acc + "case "@, e, format) + ": \n"@,
            body,
            0,
            format,
        ),
        StmtView::Default(body) => lines_into(acc + "default:\n"@, body, 0, format),
        StmtView::While(e, body) => lines_into(
            expr_into(acc + "while ("@, e, format) + ") {\n"@,
            body,
            0,
            format,
        ) + "}"@,
        StmtView::Import(name) => acc + "import \""@ + name + "\""@,
        StmtView::ClassStmt { name, properties } => lines_into(
            acc + "class "@ + name + " {\n"@,
            properties,
            0,
            format,
        ) + "}"@,
        StmtView::For { init, conditions, step, block } => lines_into(
            stmt_into(
                expr_into(stmt_into(acc + "for ("@, *init, format) + "; "@, *conditions, format)
                    + "; "@,
                *step,
                format,
            ) + ") {\n"@,
            block,
            0,
            format,
        ) + "}"@,
        StmtView::ForIn { var, iter, block } => lines_into(
            expr_into(stmt_into(acc + "for ("@, *var, format) + " in "@, *iter, format)
                + ") {\n"@,
            block,
            0,
            format,
        ) + "}"@,
        StmtView::Assert { condition, message } => expr_into(
            expr_into(acc + "assert "@, *condition, format) + ", "@,
            *message,
            format,
        ),
        StmtView::Assign(target, value) => expr_into(
            expr_into(acc, target, format) + " = "@,
            value,
            format,
        ),
    }
}

/// The printed form of an expression.
pub open spec fn expr_text(e: ExprView, format: spec_fn(Number) -> Seq<char>) -> Seq<char> {
    expr_into(Seq::empty(), e, format)
}

/// The printed form of a statement.
pub open spec fn stmt_text(s: StmtView, format: spec_fn(Number) -> Seq<char>) -> Seq<char> {
    stmt_into(Seq::empty(), s, format)
}

} // verus!
