//! Writing the printed forms.

use super::tokens::push_number;
use super::{
    arms_into, expr_into, expr_text, lines_into, list_into, names_into, operator_symbol,
    pairs_into, plain_lines_into, stmt_into, stmt_text,
};
use crate::ast::{
    arms_view, exprs_view, idents_view, lemma_arms_index, lemma_exprs_index, lemma_pairs_index,
    lemma_stmts_index, pairs_view, stmts_view, ExprType, Ident, Literal, Stmt,
};
use crate::number::{lawful, model_of, NumberReply, NumberRequest};
use crate::text::push_decimal;
use crate::token::TokenKind;
use vstd::prelude::*;

verus! {

fn symbol_of(kind: TokenKind) -> (s: &'static str)
    ensures
        s@ == operator_symbol(kind),
{
    match kind {
        TokenKind::EqualEqual => "==",
        TokenKind::BangEqual => "!=",
        TokenKind::Less => "<",
        TokenKind::LessEqual => "<=",
        TokenKind::Greater => ">",
        TokenKind::GreaterEqual => ">=",
        TokenKind::Plus => "+",
        TokenKind::Minus => "-",
        TokenKind::Star => "*",
        TokenKind::Slash => "/",
        TokenKind::Equal => "=",
        TokenKind::And => "&&",
        TokenKind::Or => "||",
        TokenKind::Mod => "%",
        TokenKind::ModSelf => "%=",
        TokenKind::PlusSelf => "+=",
        TokenKind::MinusSelf => "-=",
        TokenKind::StarSelf => "*=",
        TokenKind::SlashSelf => "/=",
        TokenKind::Bang => "!",
        TokenKind::BitAnd => "&",
        TokenKind::BitOr => "|",
        _ => "?",
    }
}

/// Appends the names `names`, with `, ` between them.
pub fn write_names(out: &mut String, names: &Vec<Ident>)
    ensures
        final(out)@ == names_into(old(out)@, idents_view(names@), 0),
{
    let mut i: usize = 0;
    while i < names.len()
        invariant
            i <= names.len(),
            names_into(old(out)@, idents_view(names@), 0) == names_into(
                out@,
                idents_view(names@),
                i as int,
            ),
        decreases names.len() - i,
    {
        if i > 0 {
            out.append(", ");
        }
        out.append(names[i].0.as_str());
        i += 1;
    }
}

/// Appends the printed form of the expression `e`.
pub fn write_expr<K: Fn(NumberRequest) -> NumberReply>(out: &mut String, e: &ExprType, numbers: &K)
    requires
        lawful(numbers),
    ensures
        final(out)@ == expr_into(old(out)@, e.view(), model_of(numbers).format),
    decreases e, 0nat,
{
    proof {
        reveal(expr_into);
        reveal(list_into);
        reveal(pairs_into);
        reveal(arms_into);
        reveal(lines_into);
    }
    match e {
        ExprType::Ident(name) => {
            out.append(name.0.as_str());
        },
        ExprType::ThisExpr(name) => {
            out.append("this.");
            out.append(name.0.as_str());
        },
        ExprType::Literal(l) => {
            proof {
                reveal_with_fuel(ExprType::view, 2);
            }
            match l {
                Literal::Number(n) => {
                    push_number(out, *n, numbers);
                },
                Literal::String(s) => {
                    out.append(s.as_str());
                },
                Literal::Bool(b) => {
                    if *b {
                        out.append("true");
                    } else {
                        out.append("false");
                    }
                },
                Literal::Index(i) => {
                    push_decimal(out, *i as u128);
                },
                Literal::Array(elements) => {
                    out.append("[");
                    write_list(out, elements, numbers);
                    out.append("]");
                },
                Literal::Hash(pairs) => {
                    out.append("{");
                    write_pairs(out, pairs, numbers);
                    out.append("}");
                },
                Literal::Nil => {
                    out.append("nil");
                },
            }
        },
        ExprType::GroupingExpr(inner) => {
            out.append("(group ");
            write_expr(out, inner, numbers);
            out.append(")");
        },
        ExprType::PrefixExpr(op, right) => {
            out.append("(");
            out.append(symbol_of(op.kind()));
            out.append(" ");
            write_expr(out, right, numbers);
            out.append(")");
        },
        ExprType::InfixExpr(left, op, right) => {
            out.append("(");
            out.append(symbol_of(op.kind()));
            out.append(" ");
            write_expr(out, left, numbers);
            out.append(" ");
            write_expr(out, right, numbers);
            out.append(")");
        },
        ExprType::PrintExpr(exprs) => {
            out.append("(print ");
            write_list(out, exprs, numbers);
            out.append(")");
        },
        ExprType::IndexExpr(left, index) => {
            write_expr(out, left, numbers);
            out.append("[");
            write_expr(out, index, numbers);
            out.append("]");
        },
        ExprType::If { condition, elseif, then_branch, else_branch } => {
            out.append("if ");
            write_expr(out, condition, numbers);
            out.append(" {\n");
            write_lines(out, then_branch, numbers);
            out.append("}");
            write_arms(out, elseif, numbers);
            proof {
                crate::ast::lemma_stmts_len(else_branch@);
            }
            if else_branch.len() > 0 {
                out.append(" else {\n");
                write_lines(out, else_branch, numbers);
                out.append("}");
            }
        },
        ExprType::Function { params, body } => {
            out.append("fn(");
            write_names(out, params);
            out.append(") {\n");
            write_lines(out, body, numbers);
            out.append("\n}\n");
        },
        ExprType::Call { callee, args } => {
            write_expr(out, callee, numbers);
            out.append("(");
            write_list(out, args, numbers);
            out.append(")");
        },
        ExprType::ClassInit { name, args } => {
            out.append("new ");
            out.append(name.0.as_str());
            out.append("(");
            write_list(out, args, numbers);
            out.append(")");
        },
        ExprType::ClassCall { callee, method, args } => {
            out.append(callee.0.as_str());
            out.append(".");
            out.append(method.0.as_str());
            out.append("(");
            write_list(out, args, numbers);
            out.append(")");
        },
        ExprType::ClassGet { callee, prop } => {
            out.append(callee.0.as_str());
            out.append(".");
            out.append(prop.0.as_str());
        },
        ExprType::ThisCall { method, args } => {
            out.append("this.");
            out.append(method.0.as_str());
            out.append("(");
            write_list(out, args, numbers);
            out.append(")");
        },
    }
}

/// Appends the printed forms of the expressions `es`, with `, ` between
/// them.
pub fn write_list<K: Fn(NumberRequest) -> NumberReply>(
    out: &mut String,
    es: &Vec<ExprType>,
    numbers: &K,
)
    requires
        lawful(numbers),
    ensures
        final(out)@ == list_into(old(out)@, exprs_view(es@), 0, model_of(numbers).format),
    decreases es, es.len(),
{
    let mut i: usize = 0;
    while i < es.len()
        invariant
            i <= es.len(),
            lawful(numbers),
            list_into(old(out)@, exprs_view(es@), 0, model_of(numbers).format) == list_into(
                out@,
                exprs_view(es@),
                i as int,
                model_of(numbers).format,
            ),
        decreases es.len() - i,
    {
        proof {
            reveal(list_into);
            reveal(expr_into);
            lemma_exprs_index(es@, i as int);
        }
        if i > 0 {
            out.append(", ");
        }
        write_expr(out, &es[i], numbers);
        i += 1;
    }
    proof {
        reveal(list_into);
        reveal(expr_into);
        crate::ast::lemma_exprs_len(es@);
    }
}

/// Appends the printed forms of the pairs `pairs`.
pub fn write_pairs<K: Fn(NumberRequest) -> NumberReply>(
    out: &mut String,
    pairs: &Vec<(ExprType, ExprType)>,
    numbers: &K,
)
    requires
        lawful(numbers),
    ensures
        final(out)@ == pairs_into(old(out)@, pairs_view(pairs@), 0, model_of(numbers).format),
    decreases pairs, pairs.len(),
{
    let mut i: usize = 0;
    while i < pairs.len()
        invariant
            i <= pairs.len(),
            lawful(numbers),
            pairs_into(old(out)@, pairs_view(pairs@), 0, model_of(numbers).format) == pairs_into(
                out@,
                pairs_view(pairs@),
                i as int,
                model_of(numbers).format,
            ),
        decreases pairs.len() - i,
    {
        proof {
            reveal(pairs_into);
            reveal(expr_into);
            lemma_pairs_index(pairs@, i as int);
        }
        if i > 0 {
            out.append(", ");
        }
        write_expr(out, &pairs[i].0, numbers);
        out.append(": ");
        write_expr(out, &pairs[i].1, numbers);
        i += 1;
    }
    proof {
        reveal(pairs_into);
        reveal(expr_into);
        crate::ast::lemma_pairs_len(pairs@);
    }
}

/// Appends the `else if` arms `arms`.
pub fn write_arms<K: Fn(NumberRequest) -> NumberReply>(
    out: &mut String,
    arms: &Vec<(Box<ExprType>, Vec<Stmt>)>,
    numbers: &K,
)
    requires
        lawful(numbers),
    ensures
        final(out)@ == arms_into(old(out)@, arms_view(arms@), 0, model_of(numbers).format),
    decreases arms, arms.len(),
{
    let mut i: usize = 0;
    while i < arms.len()
        invariant
            i <= arms.len(),
            lawful(numbers),
            arms_into(old(out)@, arms_view(arms@), 0, model_of(numbers).format) == arms_into(
                out@,
                arms_view(arms@),
                i as int,
                model_of(numbers).format,
            ),
        decreases arms.len() - i,
    {
        proof {
            reveal(arms_into);
            reveal(expr_into);
            reveal(lines_into);
            lemma_arms_index(arms@, i as int);
        }
        out.append(" else if ");
        write_expr(out, &arms[i].0, numbers);
        out.append(" {\n");
        write_lines(out, &arms[i].1, numbers);
        out.append("}");
        i += 1;
    }
    proof {
        reveal(arms_into);
        reveal(expr_into);
        reveal(lines_into);
        crate::ast::lemma_arms_len(arms@);
    }
}

/// Appends the statements `ss`, each on a line of its own after a tab.
pub fn write_lines<K: Fn(NumberRequest) -> NumberReply>(
    out: &mut String,
    ss: &Vec<Stmt>,
    numbers: &K,
)
    requires
        lawful(numbers),
    ensures
        final(out)@ == lines_into(old(out)@, stmts_view(ss@), 0, model_of(numbers).format),
    decreases ss, ss.len(),
{
    let mut i: usize = 0;
    while i < ss.len()
        invariant
            i <= ss.len(),
            lawful(numbers),
            lines_into(old(out)@, stmts_view(ss@), 0, model_of(numbers).format) == lines_into(
                out@,
                stmts_view(ss@),
                i as int,
                model_of(numbers).format,
            ),
        decreases ss.len() - i,
    {
        proof {
            reveal(lines_into);
            reveal(stmt_into);
            lemma_stmts_index(ss@, i as int);
        }
        out.append("\t");
        write_stmt(out, &ss[i], numbers);
        out.append("\n");
        i += 1;
    }
    proof {
        reveal(lines_into);
        reveal(stmt_into);
        crate::ast::lemma_stmts_len(ss@);
    }
}

/// Appends the statements `ss`, each on a line of its own.
pub fn write_plain_lines<K: Fn(NumberRequest) -> NumberReply>(
    out: &mut String,
    ss: &Vec<Stmt>,
    numbers: &K,
)
    requires
        lawful(numbers),
    ensures
        final(out)@ == plain_lines_into(old(out)@, stmts_view(ss@), 0, model_of(numbers).format),
    decreases ss, ss.len(),
{
    let mut i: usize = 0;
    while i < ss.len()
        invariant
            i <= ss.len(),
            lawful(numbers),
            plain_lines_into(old(out)@, stmts_view(ss@), 0, model_of(numbers).format)
                == plain_lines_into(out@, stmts_view(ss@), i as int, model_of(numbers).format),
        decreases ss.len() - i,
    {
        proof {
            reveal(plain_lines_into);
            reveal(stmt_into);
            lemma_stmts_index(ss@, i as int);
        }
        write_stmt(out, &ss[i], numbers);
        out.append("\n");
        i += 1;
    }
    proof {
        reveal(plain_lines_into);
        reveal(stmt_into);
        crate::ast::lemma_stmts_len(ss@);
    }
}

/// Appends the printed form of the statement `s`.
pub fn write_stmt<K: Fn(NumberRequest) -> NumberReply>(out: &mut String, s: &Stmt, numbers: &K)
    requires
        lawful(numbers),
    ensures
        final(out)@ == stmt_into(old(out)@, s.view(), model_of(numbers).format),
    decreases s, 0nat,
{
    proof {
        reveal(stmt_into);
        reveal(expr_into);
        reveal(lines_into);
        reveal(plain_lines_into);
    }
    match s {
        Stmt::Blank => {},
        Stmt::Var(name, e) => {
            out.append("var ");
            out.append(name.0.as_str());
            out.append(" = ");
            write_expr(out, e, numbers);
        },
        Stmt::Expr(e) => {
            write_expr(out, e, numbers);
        },
        Stmt::Block(body) => {
            write_plain_lines(out, body, numbers);
        },
        Stmt::Return(e) => {
            out.append("return ");
            write_expr(out, e, numbers);
        },
        Stmt::Function(name, params, body) => {
            out.append("fun ");
            out.append(name.0.as_str());
            out.append("(");
            write_names(out, params);
            out.append(") {\n");
            write_lines(out, body, numbers);
            out.append("}");
        },
        Stmt::Switch(e, cases) => {
            out.append("switch ");
            write_expr(out, e, numbers);
            out.append(" {\n");
            write_lines(out, cases, numbers);
            out.append("}");
        },
        Stmt::Case(e, body) => {
            out.append("case ");
            write_expr(out, e, numbers);
            out.append(": \n");
            write_lines(out, body, numbers);
        },
        Stmt::Default(body) => {
            out.append("default:\n");
            write_lines(out, body, numbers);
        },
        Stmt::While(e, body) => {
            out.append("while (");
            write_expr(out, e, numbers);
            out.append(") {\n");
            write_lines(out, body, numbers);
            out.append("}");
        },
        Stmt::Import(name) => {
            out.append("import \"");
            out.append(name.as_str());
            out.append("\"");
        },
        Stmt::ClassStmt { name, properties } => {
            out.append("class ");
            out.append(name.0.as_str());
            out.append(" {\n");
            write_lines(out, properties, numbers);
            out.append("}");
        },
        Stmt::For { init, conditions, step, block } => {
            out.append("for (");
            write_stmt(out, init, numbers);
            out.append("; ");
            write_expr(out, conditions, numbers);
            out.append("; ");
            write_stmt(out, step, numbers);
            out.append(") {\n");
            write_lines(out, block, numbers);
            out.append("}");
        },
        Stmt::ForIn { var, iter, block } => {
            out.append("for (");
            write_stmt(out, var, numbers);
            out.append(" in ");
            write_expr(out, iter, numbers);
            out.append(") {\n");
            write_lines(out, block, numbers);
            out.append("}");
        },
        Stmt::Assert { condition, message } => {
            out.append("assert ");
            write_expr(out, condition, numbers);
            out.append(", ");
            write_expr(out, message, numbers);
        },
        Stmt::Assign(target, value) => {
            write_expr(out, target, numbers);
            out.append(" = ");
            write_expr(out, value, numbers);
        },
    }
}

impl ExprType {
    /// The printed form of this expression.
    pub fn to_text<K: Fn(NumberRequest) -> NumberReply>(&self, numbers: &K) -> (s: String)
        requires
            lawful(numbers),
        ensures
            s@ == expr_text(self.view(), model_of(numbers).format),
    {
        let mut s = String::new();
        write_expr(&mut s, self, numbers);
        s
    }
}

impl Stmt {
    /// The printed form of this statement.
    pub fn to_text<K: Fn(NumberRequest) -> NumberReply>(&self, numbers: &K) -> (s: String)
        requires
            lawful(numbers),
        ensures
            s@ == stmt_text(self.view(), model_of(numbers).format),
    {
        let mut s = String::new();
        write_stmt(&mut s, self, numbers);
        s
    }
}

} // verus!
