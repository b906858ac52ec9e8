//! What holds of the grammar whatever the source: it is a function of the
//! source, and operators group by their place on the precedence ladder.

use super::{is_binary_operator, precedence_of, some, Cursor, Grammar};
use crate::ast::{ExprView, Precedence};
use crate::lexer::code_steps;
use crate::token::TokenKind;
use vstd::prelude::*;

verus! {

/// The grammar of a source, given what number each number literal denotes.
pub open spec fn grammar_of(source: Seq<char>, numbers: spec_fn(Seq<char>) -> crate::number::Number)
    -> Grammar {
    Grammar { source, steps: code_steps(source, 0), numbers }
}

/// Parsing is a function: equal sources, read with the same numbers, give
/// equal programs and equal diagnostics.
pub proof fn lemma_parse_deterministic(
    a: Seq<char>,
    b: Seq<char>,
    numbers: spec_fn(Seq<char>) -> crate::number::Number,
)
    requires
        a == b,
    ensures
        grammar_of(a, numbers).program() == grammar_of(b, numbers).program(),
{
}

/// The expression that is just the name at `c`.
pub open spec fn name_at(g: Grammar, c: Cursor) -> ExprView {
    ExprView::Ident(g.text(c))
}

/// A name followed by a token that does not bind tighter than `min` is an
/// expression by itself.
pub proof fn lemma_name_alone(g: Grammar, c: Cursor, min: Precedence)
    requires
        0 <= c.at,
        c.at + 1 < g.steps.len(),
        g.kind(c) == TokenKind::Identifier,
        g.next_kind(c) == TokenKind::Semicolon || !(min.level() < precedence_of(
            g.next_kind(c),
        ).level()),
    ensures
        g.expression(c, min) == some(name_at(g, c), g.advance(c)),
{
    reveal(Grammar::expression);
    reveal(Grammar::operand);
    reveal(Grammar::operators);
    reveal(Grammar::right_operand);
}

/// A name, a binary operator that binds tighter than `min`, and a right
/// operand: the operator's expression, if the right operand is read as
/// `right` up to the cursor `end`, and what follows does not bind tighter
/// than `min`.
pub proof fn lemma_name_operator(
    g: Grammar,
    c: Cursor,
    min: Precedence,
    right: ExprView,
    end: Cursor,
)
    requires
        0 <= c.at,
        c.at + 2 < g.steps.len(),
        c.at + 2 <= end.at < g.steps.len(),
        g.kind(c) == TokenKind::Identifier,
        is_binary_operator(g.next_kind(c)),
        min.level() < precedence_of(g.next_kind(c)).level(),
        g.expression(g.advance(g.advance(c)), precedence_of(g.next_kind(c))) == some(right, end),
        g.kind(end) == TokenKind::Semicolon || !(min.level() < precedence_of(g.kind(end)).level()),
    ensures
        g.expression(c, min) == some(
            ExprView::InfixExpr(Box::new(name_at(g, c)), g.token(c.at + 1), Box::new(right)),
            end,
        ),
{
    reveal(Grammar::expression);
    reveal(Grammar::operand);
    reveal(Grammar::operators);
    reveal(Grammar::right_operand);
    let c1 = g.advance(c);
    let c2 = g.advance(c1);
    let whole = ExprView::InfixExpr(Box::new(name_at(g, c)), g.token(c.at + 1), Box::new(right));
    assert(g.operand(c) == some(name_at(g, c), c1));
    assert(g.right_operand(c2, name_at(g, c), g.token(c.at + 1)) == some(whole, end));
    assert(g.operators(end, whole, min) == some(whole, end));
    assert(g.operators(c1, name_at(g, c), min) == some(whole, end));
}

/// Operators group by precedence: in `a op2 b op1 c`, where `op1` binds
/// tighter than `op2`, `op1` takes `b` and `c`, and `op2` takes `a` and
/// the result.
pub proof fn lemma_tighter_operator_groups_first(g: Grammar, c: Cursor, min: Precedence)
    requires
        0 <= c.at,
        c.at + 5 < g.steps.len(),
        g.token(c.at).kind == TokenKind::Identifier,
        is_binary_operator(g.token(c.at + 1).kind),
        g.token(c.at + 2).kind == TokenKind::Identifier,
        is_binary_operator(g.token(c.at + 3).kind),
        g.token(c.at + 4).kind == TokenKind::Identifier,
        precedence_of(g.token(c.at + 5).kind) == Precedence::Lowest,
        min.level() < precedence_of(g.token(c.at + 1).kind).level(),
        precedence_of(g.token(c.at + 1).kind).level() < precedence_of(
            g.token(c.at + 3).kind,
        ).level(),
    ensures
        g.expression(c, min).value == Some(
            ExprView::InfixExpr(
                Box::new(ExprView::Ident(g.token(c.at).text)),
                g.token(c.at + 1),
                Box::new(
                    ExprView::InfixExpr(
                        Box::new(ExprView::Ident(g.token(c.at + 2).text)),
                        g.token(c.at + 3),
                        Box::new(ExprView::Ident(g.token(c.at + 4).text)),
                    ),
                ),
            ),
        ),
        g.expression(c, min).cursor.at == c.at + 5,
{
    let c1 = g.advance(c);
    let c2 = g.advance(c1);
    let c3 = g.advance(c2);
    let c4 = g.advance(c3);
    let c5 = g.advance(c4);
    let low = precedence_of(g.token(c.at + 1).kind);
    let high = precedence_of(g.token(c.at + 3).kind);
    lemma_name_alone(g, c4, high);
    lemma_name_operator(g, c2, low, name_at(g, c4), c5);
    let inner = ExprView::InfixExpr(
        Box::new(name_at(g, c2)),
        g.token(c.at + 3),
        Box::new(name_at(g, c4)),
    );
    lemma_name_operator(g, c, min, inner, c5);
}

/// Operators of one precedence group from the left: in `a op2 b op1 c`,
/// where `op1` binds as tightly as `op2`, `op2` takes `a` and `b`, and
/// `op1` takes the result and `c`.
pub proof fn lemma_equal_operators_group_left(g: Grammar, c: Cursor, min: Precedence)
    requires
        0 <= c.at,
        c.at + 5 < g.steps.len(),
        g.token(c.at).kind == TokenKind::Identifier,
        is_binary_operator(g.token(c.at + 1).kind),
        g.token(c.at + 1).kind != TokenKind::Equal,
        g.token(c.at + 2).kind == TokenKind::Identifier,
        is_binary_operator(g.token(c.at + 3).kind),
        g.token(c.at + 3).kind != TokenKind::Equal,
        g.token(c.at + 4).kind == TokenKind::Identifier,
        precedence_of(g.token(c.at + 5).kind) == Precedence::Lowest,
        min.level() < precedence_of(g.token(c.at + 1).kind).level(),
        precedence_of(g.token(c.at + 1).kind) == precedence_of(g.token(c.at + 3).kind),
    ensures
        g.expression(c, min).value == Some(
            ExprView::InfixExpr(
                Box::new(
                    ExprView::InfixExpr(
                        Box::new(ExprView::Ident(g.token(c.at).text)),
                        g.token(c.at + 1),
                        Box::new(ExprView::Ident(g.token(c.at + 2).text)),
                    ),
                ),
                g.token(c.at + 3),
                Box::new(ExprView::Ident(g.token(c.at + 4).text)),
            ),
        ),
        g.expression(c, min).cursor.at == c.at + 5,
{
    reveal(Grammar::expression);
    reveal(Grammar::operand);
    reveal(Grammar::operators);
    reveal(Grammar::right_operand);
    let c1 = g.advance(c);
    let c2 = g.advance(c1);
    let c3 = g.advance(c2);
    let c4 = g.advance(c3);
    let c5 = g.advance(c4);
    let level = precedence_of(g.token(c.at + 1).kind);
    lemma_name_alone(g, c2, level);
    lemma_name_alone(g, c4, level);
    let first = ExprView::InfixExpr(
        Box::new(name_at(g, c)),
        g.token(c.at + 1),
        Box::new(name_at(g, c2)),
    );
    let whole = ExprView::InfixExpr(Box::new(first), g.token(c.at + 3), Box::new(name_at(g, c4)));
    assert(g.operand(c) == some(name_at(g, c), c1));
    assert(g.right_operand(c2, name_at(g, c), g.token(c.at + 1)) == some(first, c3));
    assert(g.right_operand(c4, first, g.token(c.at + 3)) == some(whole, c5));
    assert(g.operators(c5, whole, min) == some(whole, c5));
    assert(g.operators(c3, first, min) == some(whole, c5));
    assert(g.operators(c1, name_at(g, c), min) == some(whole, c5));
}

} // verus!
