//! The syntax tree: statements, expressions and literals, and the ladder
//! of operator precedences.

use crate::number::Number;
use crate::token::{Token, TokenView};
use vstd::prelude::*;

verus! {

broadcast use {vstd::std_specs::vec::group_vec_axioms, vstd::seq::group_seq_axioms};

/// A name as written in the source.
#[derive(Debug, Clone, PartialEq)]
pub struct Ident(pub String);

pub type BlockStmt = Vec<Stmt>;

pub type Program = BlockStmt;

#[derive(Debug, PartialEq)]
pub enum Stmt {
    Blank,
    Var(Ident, ExprType),
    Expr(ExprType),
    Block(Vec<Stmt>),
    Return(ExprType),
    Function(Ident, Vec<Ident>, BlockStmt),
    Switch(ExprType, Vec<Stmt>),
    Case(ExprType, BlockStmt),
    Default(BlockStmt),
    While(ExprType, BlockStmt),
    Import(String),
    ClassStmt { name: Ident, properties: Vec<Stmt> },
    For { init: Box<Stmt>, conditions: Box<ExprType>, step: Box<Stmt>, block: BlockStmt },
    ForIn { var: Box<Stmt>, iter: Box<ExprType>, block: BlockStmt },
    Assert { condition: Box<ExprType>, message: Box<ExprType> },
    Assign(ExprType, ExprType),
}

#[derive(Debug, PartialEq)]
pub enum Literal {
    Number(Number),
    String(String),
    Bool(bool),
    Index(usize),
    Array(Vec<ExprType>),
    Hash(Vec<(ExprType, ExprType)>),
    Nil,
}

#[allow(inconsistent_fields)]
#[derive(Debug, PartialEq)]
pub enum ExprType {
    Ident(Ident),
    ThisExpr(Ident),
    Literal(Literal),
    GroupingExpr(Box<ExprType>),
    PrefixExpr(Token, Box<ExprType>),
    InfixExpr(Box<ExprType>, Token, Box<ExprType>),
    PrintExpr(Box<Vec<ExprType>>),
    IndexExpr(Box<ExprType>, Box<ExprType>),
    If {
        condition: Box<ExprType>,
        elseif: Vec<(Box<ExprType>, BlockStmt)>,
        then_branch: BlockStmt,
        else_branch: BlockStmt,
    },
    Function { params: Vec<Ident>, body: BlockStmt },
    Call { callee: Box<ExprType>, args: Vec<ExprType> },
    ClassInit { name: Ident, args: Vec<ExprType> },
    ClassCall { callee: Ident, method: Ident, args: Vec<ExprType> },
    ClassGet { callee: Ident, prop: Ident },
    ThisCall { method: Ident, args: Vec<ExprType> },
}

/// How tightly an operator binds, from loosest to tightest.
#[derive(PartialEq, Eq, Structural, PartialOrd, Debug, Clone, Copy)]
pub enum Precedence {
    Lowest,
    And,
    Equals,
    LessGreater,
    OpSelfSum,
    OpSelfMul,
    Plus,
    Star,
    PlusPlus,
    Prefix,
    Call,
    Index,
    Class,
}

impl Precedence {
    /// The place of this precedence on the ladder, from 0 for the loosest.
    pub open spec fn level(self) -> nat {
        match self {
            Precedence::Lowest => 0,
            Precedence::And => 1,
            Precedence::Equals => 2,
            Precedence::LessGreater => 3,
            Precedence::OpSelfSum => 4,
            Precedence::OpSelfMul => 5,
            Precedence::Plus => 6,
            Precedence::Star => 7,
            Precedence::PlusPlus => 8,
            Precedence::Prefix => 9,
            Precedence::Call => 10,
            Precedence::Index => 11,
            Precedence::Class => 12,
        }
    }

    /// The place of this precedence on the ladder, from 0 for the loosest.
    pub fn rank(&self) -> (r: u8)
        ensures
            r == self.level(),
    {
        match self {
            Precedence::Lowest => 0,
            Precedence::And => 1,
            Precedence::Equals => 2,
            Precedence::LessGreater => 3,
            Precedence::OpSelfSum => 4,
            Precedence::OpSelfMul => 5,
            Precedence::Plus => 6,
            Precedence::Star => 7,
            Precedence::PlusPlus => 8,
            Precedence::Prefix => 9,
            Precedence::Call => 10,
            Precedence::Index => 11,
            Precedence::Class => 12,
        }
    }
}

/// The mathematical value of a [`Literal`].
pub enum LiteralView {
    Number(Number),
    String(Seq<char>),
    Bool(bool),
    Index(usize),
    Array(Seq<ExprView>),
    Hash(Seq<(ExprView, ExprView)>),
    Nil,
}

/// The mathematical value of an [`ExprType`].
#[allow(inconsistent_fields)]
pub enum ExprView {
    Ident(Seq<char>),
    ThisExpr(Seq<char>),
    Literal(LiteralView),
    GroupingExpr(Box<ExprView>),
    PrefixExpr(TokenView, Box<ExprView>),
    InfixExpr(Box<ExprView>, TokenView, Box<ExprView>),
    PrintExpr(Seq<ExprView>),
    IndexExpr(Box<ExprView>, Box<ExprView>),
    If {
        condition: Box<ExprView>,
        elseif: Seq<(ExprView, Seq<StmtView>)>,
        then_branch: Seq<StmtView>,
        else_branch: Seq<StmtView>,
    },
    Function { params: Seq<Seq<char>>, body: Seq<StmtView> },
    Call { callee: Box<ExprView>, args: Seq<ExprView> },
    ClassInit { name: Seq<char>, args: Seq<ExprView> },
    ClassCall { callee: Seq<char>, method: Seq<char>, args: Seq<ExprView> },
    ClassGet { callee: Seq<char>, prop: Seq<char> },
    ThisCall { method: Seq<char>, args: Seq<ExprView> },
}

/// The mathematical value of a [`Stmt`].
pub enum StmtView {
    Blank,
    Var(Seq<char>, ExprView),
    Expr(ExprView),
    Block(Seq<StmtView>),
    Return(ExprView),
    Function(Seq<char>, Seq<Seq<char>>, Seq<StmtView>),
    Switch(ExprView, Seq<StmtView>),
    Case(ExprView, Seq<StmtView>),
    Default(Seq<StmtView>),
    While(ExprView, Seq<StmtView>),
    Import(Seq<char>),
    ClassStmt { name: Seq<char>, properties: Seq<StmtView> },
    For { init: Box<StmtView>, conditions: Box<ExprView>, step: Box<StmtView>, block: Seq<StmtView> },
    ForIn { var: Box<StmtView>, iter: Box<ExprView>, block: Seq<StmtView> },
    Assert { condition: Box<ExprView>, message: Box<ExprView> },
    Assign(ExprView, ExprView),
}

impl View for Ident {
    type V = Seq<char>;

    open spec fn view(&self) -> Seq<char> {
        self.0@
    }
}

/// The names of `v`, in order.
pub open spec fn idents_view(v: Seq<Ident>) -> Seq<Seq<char>> {
    v.map_values(|i: Ident| i@)
}

/// The values of the expressions of `v`, in order.
pub open spec fn exprs_view(v: Seq<ExprType>) -> Seq<ExprView>
    decreases v,
{
    if v.len() == 0 {
        Seq::empty()
    } else {
        exprs_view(v.drop_last()).push(v.last().view())
    }
}

/// The values of the key and value expressions of `v`, in order.
pub open spec fn pairs_view(v: Seq<(ExprType, ExprType)>) -> Seq<(ExprView, ExprView)>
    decreases v,
{
    if v.len() == 0 {
        Seq::empty()
    } else {
        pairs_view(v.drop_last()).push((v.last().0.view(), v.last().1.view()))
    }
}

/// The values of the `else if` arms of `v`, in order.
pub open spec fn arms_view(v: Seq<(Box<ExprType>, Vec<Stmt>)>) -> Seq<(ExprView, Seq<StmtView>)>
    decreases v,
{
    if v.len() == 0 {
        Seq::empty()
    } else {
        arms_view(v.drop_last()).push((v.last().0.view(), stmts_view(v.last().1@)))
    }
}

/// The values of the statements of `v`, in order.
pub open spec fn stmts_view(v: Seq<Stmt>) -> Seq<StmtView>
    decreases v,
{
    if v.len() == 0 {
        Seq::empty()
    } else {
        stmts_view(v.drop_last()).push(v.last().view())
    }
}

/// The names of the modules that the statements `ss[..n]` import, in
/// order. Only an import that is itself a statement of `ss` counts.
pub open spec fn import_names(ss: Seq<StmtView>, n: int) -> Seq<Seq<char>>
    decreases n,
{
    if n <= 0 || n > ss.len() {
        Seq::empty()
    } else {
        match ss[n - 1] {
            StmtView::Import(name) => import_names(ss, n - 1).push(name),
            _ => import_names(ss, n - 1),
        }
    }
}

impl Literal {
    pub open spec fn view(&self) -> LiteralView
        decreases self,
    {
        match self {
            Literal::Number(n) => LiteralView::Number(*n),
            Literal::String(s) => LiteralView::String(s@),
            Literal::Bool(b) => LiteralView::Bool(*b),
            Literal::Index(i) => LiteralView::Index(*i),
            Literal::Array(a) => LiteralView::Array(exprs_view(a@)),
            Literal::Hash(h) => LiteralView::Hash(pairs_view(h@)),
            Literal::Nil => LiteralView::Nil,
        }
    }
}

impl ExprType {
    pub open spec fn view(&self) -> ExprView
        decreases self,
    {
        match self {
            ExprType::Ident(i) => ExprView::Ident(i@),
            ExprType::ThisExpr(i) => ExprView::ThisExpr(i@),
            ExprType::Literal(l) => ExprView::Literal(l.view()),
            ExprType::GroupingExpr(e) => ExprView::GroupingExpr(Box::new(e.view())),
            ExprType::PrefixExpr(op, e) => ExprView::PrefixExpr(op@, Box::new(e.view())),
            ExprType::InfixExpr(l, op, r) => ExprView::InfixExpr(
                Box::new(l.view()),
                op@,
                Box::new(r.view()),
            ),
            ExprType::PrintExpr(es) => ExprView::PrintExpr(exprs_view(es@)),
            ExprType::IndexExpr(l, i) => ExprView::IndexExpr(
                Box::new(l.view()),
                Box::new(i.view()),
            ),
            ExprType::If { condition, elseif, then_branch, else_branch } => ExprView::If {
                condition: Box::new(condition.view()),
                elseif: arms_view(elseif@),
                then_branch: stmts_view(then_branch@),
                else_branch: stmts_view(else_branch@),
            },
            ExprType::Function { params, body } => ExprView::Function {
                params: idents_view(params@),
                body: stmts_view(body@),
            },
            ExprType::Call { callee, args } => ExprView::Call {
                callee: Box::new(callee.view()),
                args: exprs_view(args@),
            },
            ExprType::ClassInit { name, args } => ExprView::ClassInit {
                name: name@,
                args: exprs_view(args@),
            },
            ExprType::ClassCall { callee, method, args } => ExprView::ClassCall {
                callee: callee@,
                method: method@,
                args: exprs_view(args@),
            },
            ExprType::ClassGet { callee, prop } => ExprView::ClassGet {
                callee: callee@,
                prop: prop@,
            },
            ExprType::ThisCall { method, args } => ExprView::ThisCall {
                method: method@,
                args: exprs_view(args@),
            },
        }
    }
}

impl Stmt {
    pub open spec fn view(&self) -> StmtView
        decreases self,
    {
        match self {
            Stmt::Blank => StmtView::Blank,
            Stmt::Var(i, e) => StmtView::Var(i@, e.view()),
            Stmt::Expr(e) => StmtView::Expr(e.view()),
            Stmt::Block(b) => StmtView::Block(stmts_view(b@)),
            Stmt::Return(e) => StmtView::Return(e.view()),
            Stmt::Function(name, params, body) => StmtView::Function(
                name@,
                idents_view(params@),
                stmts_view(body@),
            ),
            Stmt::Switch(e, cases) => StmtView::Switch(e.view(), stmts_view(cases@)),
            Stmt::Case(e, body) => StmtView::Case(e.view(), stmts_view(body@)),
            Stmt::Default(body) => StmtView::Default(stmts_view(body@)),
            Stmt::While(e, body) => StmtView::While(e.view(), stmts_view(body@)),
            Stmt::Import(s) => StmtView::Import(s@),
            Stmt::ClassStmt { name, properties } => StmtView::ClassStmt {
                name: name@,
                properties: stmts_view(properties@),
            },
            Stmt::For { init, conditions, step, block } => StmtView::For {
                init: Box::new(init.view()),
                conditions: Box::new(conditions.view()),
                step: Box::new(step.view()),
                block: stmts_view(block@),
            },
            Stmt::ForIn { var, iter, block } => StmtView::ForIn {
                var: Box::new(var.view()),
                iter: Box::new(iter.view()),
                block: stmts_view(block@),
            },
            Stmt::Assert { condition, message } => StmtView::Assert {
                condition: Box::new(condition.view()),
                message: Box::new(message.view()),
            },
            Stmt::Assign(target, value) => StmtView::Assign(target.view(), value.view()),
        }
    }
}

impl ExprType {
    /// The literal expression of the number `n`.
    pub fn number(n: Number) -> (e: ExprType)
        ensures
            e.view() == ExprView::Literal(LiteralView::Number(n)),
    {
        reveal_with_fuel(ExprType::view, 2);
        ExprType::Literal(Literal::Number(n))
    }

    /// The literal expression of the string `s`.
    pub fn string(s: String) -> (e: ExprType)
        ensures
            e.view() == ExprView::Literal(LiteralView::String(s@)),
    {
        reveal_with_fuel(ExprType::view, 2);
        ExprType::Literal(Literal::String(s))
    }

    /// The literal expression of the truth value `b`.
    pub fn boolean(b: bool) -> (e: ExprType)
        ensures
            e.view() == ExprView::Literal(LiteralView::Bool(b)),
    {
        reveal_with_fuel(ExprType::view, 2);
        ExprType::Literal(Literal::Bool(b))
    }

    /// The literal expression of the index `i`.
    pub fn index(i: usize) -> (e: ExprType)
        ensures
            e.view() == ExprView::Literal(LiteralView::Index(i)),
    {
        reveal_with_fuel(ExprType::view, 2);
        ExprType::Literal(Literal::Index(i))
    }

    /// The literal expression `nil`.
    pub fn nil() -> (e: ExprType)
        ensures
            e.view() == ExprView::Literal(LiteralView::Nil),
    {
        reveal_with_fuel(ExprType::view, 2);
        ExprType::Literal(Literal::Nil)
    }

    /// The array literal of the expressions `elements`.
    pub fn array(elements: Vec<ExprType>) -> (e: ExprType)
        ensures
            e.view() == ExprView::Literal(LiteralView::Array(exprs_view(elements@))),
    {
        reveal_with_fuel(ExprType::view, 2);
        ExprType::Literal(Literal::Array(elements))
    }

    /// The hash literal of the key and value expressions `pairs`.
    pub fn hash(pairs: Vec<(ExprType, ExprType)>) -> (e: ExprType)
        ensures
            e.view() == ExprView::Literal(LiteralView::Hash(pairs_view(pairs@))),
    {
        reveal_with_fuel(ExprType::view, 2);
        ExprType::Literal(Literal::Hash(pairs))
    }

    /// The number that this expression is the literal of, if it is one.
    pub fn as_number(&self) -> (n: Option<Number>)
        ensures
            n == match self.view() {
                ExprView::Literal(LiteralView::Number(n)) => Some(n),
                _ => None,
            },
    {
        reveal_with_fuel(ExprType::view, 2);
        match self {
            ExprType::Literal(Literal::Number(n)) => Some(*n),
            _ => None,
        }
    }
}

/// The values of a sequence of expressions, place by place.
pub proof fn lemma_exprs_index(v: Seq<ExprType>, i: int)
    requires
        0 <= i < v.len(),
    ensures
        exprs_view(v).len() == v.len(),
        exprs_view(v)[i] == v[i].view(),
    decreases v.len(),
{
    lemma_exprs_len(v);
    if i < v.len() - 1 {
        lemma_exprs_index(v.drop_last(), i);
    }
}

pub proof fn lemma_exprs_len(v: Seq<ExprType>)
    ensures
        exprs_view(v).len() == v.len(),
    decreases v.len(),
{
    if v.len() > 0 {
        lemma_exprs_len(v.drop_last());
    }
}

/// The values of a sequence of statements, place by place.
pub proof fn lemma_stmts_index(v: Seq<Stmt>, i: int)
    requires
        0 <= i < v.len(),
    ensures
        stmts_view(v).len() == v.len(),
        stmts_view(v)[i] == v[i].view(),
    decreases v.len(),
{
    lemma_stmts_len(v);
    if i < v.len() - 1 {
        lemma_stmts_index(v.drop_last(), i);
    }
}

pub proof fn lemma_stmts_len(v: Seq<Stmt>)
    ensures
        stmts_view(v).len() == v.len(),
    decreases v.len(),
{
    if v.len() > 0 {
        lemma_stmts_len(v.drop_last());
    }
}

/// The values of a sequence of key and value expressions, place by place.
pub proof fn lemma_pairs_index(v: Seq<(ExprType, ExprType)>, i: int)
    requires
        0 <= i < v.len(),
    ensures
        pairs_view(v).len() == v.len(),
        pairs_view(v)[i] == (v[i].0.view(), v[i].1.view()),
    decreases v.len(),
{
    lemma_pairs_len(v);
    if i < v.len() - 1 {
        lemma_pairs_index(v.drop_last(), i);
    }
}

pub proof fn lemma_pairs_len(v: Seq<(ExprType, ExprType)>)
    ensures
        pairs_view(v).len() == v.len(),
    decreases v.len(),
{
    if v.len() > 0 {
        lemma_pairs_len(v.drop_last());
    }
}

/// The values of a sequence of `else if` arms, place by place.
pub proof fn lemma_arms_index(v: Seq<(Box<ExprType>, Vec<Stmt>)>, i: int)
    requires
        0 <= i < v.len(),
    ensures
        arms_view(v).len() == v.len(),
        arms_view(v)[i] == (v[i].0.view(), stmts_view(v[i].1@)),
    decreases v.len(),
{
    lemma_arms_len(v);
    if i < v.len() - 1 {
        lemma_arms_index(v.drop_last(), i);
    }
}

pub proof fn lemma_arms_len(v: Seq<(Box<ExprType>, Vec<Stmt>)>)
    ensures
        arms_view(v).len() == v.len(),
    decreases v.len(),
{
    if v.len() > 0 {
        lemma_arms_len(v.drop_last());
    }
}

} // verus!
