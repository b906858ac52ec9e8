//! Where the two back ends agree: programs that print arithmetic.
//!
//! A program whose statements all are `print` statements over arithmetic on
//! number literals is taken whole by the evaluator and by the compiler with
//! the machine. For such a program the machine writes what the evaluator
//! writes. The proof follows the compiler: what it emits for an expression
//! leaves the value of the expression on the stack.

use crate::ast::{ExprView, LiteralView, StmtView};
use crate::display::value_into;
use crate::lowering::{
    fine, linked, lower_expr, lower_list, lower_stmt, lower_stmts, operator_instruction, Unit,
};
use crate::machine::{run_for, Code, Machine, Status};
use crate::number::{Arithmetic, Number};
use crate::objects::Value;
use crate::opcode::Instruction;
use crate::semantics::{done, eval, number_op, print_items, run, run_program, Rules, World};
use crate::token::TokenKind;
use vstd::prelude::*;

verus! {

/// Whether `op` is one of `+ - * / %`.
pub open spec fn is_arithmetic_operator(op: TokenKind) -> bool {
    op == TokenKind::Plus || op == TokenKind::Minus || op == TokenKind::Star || op
        == TokenKind::Slash || op == TokenKind::Mod
}

/// Whether `e` is arithmetic on number literals: a number literal, or
/// arithmetic in parentheses, negated, or joined by an arithmetic
/// operator.
pub open spec fn is_arithmetic(e: ExprView) -> bool
    decreases e,
{
    match e {
        ExprView::Literal(LiteralView::Number(_)) => true,
        ExprView::GroupingExpr(inner) => is_arithmetic(*inner),
        ExprView::PrefixExpr(op, right) => op.kind == TokenKind::Minus && is_arithmetic(*right),
        ExprView::InfixExpr(left, op, right) => is_arithmetic_operator(op.kind) && is_arithmetic(
            *left,
        ) && is_arithmetic(*right),
        _ => false,
    }
}

/// The number that the arithmetic `e` stands for.
pub open spec fn number_of(e: ExprView, a: Arithmetic) -> Number
    decreases e,
{
    match e {
        ExprView::Literal(LiteralView::Number(n)) => n,
        ExprView::GroupingExpr(inner) => number_of(*inner, a),
        ExprView::PrefixExpr(_, right) => number_of(*right, a).negated(),
        ExprView::InfixExpr(left, op, right) => (a.binary)(
            number_op(op.kind).unwrap(),
            number_of(*left, a),
            number_of(*right, a),
        ),
        _ => Number { bits: 0 },
    }
}

/// How many instructions the arithmetic `e` compiles to.
pub open spec fn size(e: ExprView) -> nat
    decreases e,
{
    match e {
        ExprView::Literal(_) => 1,
        ExprView::GroupingExpr(inner) => size(*inner),
        ExprView::PrefixExpr(_, right) => size(*right) + 1,
        ExprView::InfixExpr(left, _, right) => size(*left) + size(*right) + 1,
        _ => 0,
    }
}

/// The constants of the arithmetic `e`: its literals, in order.
pub open spec fn literals(e: ExprView) -> Seq<Value>
    decreases e,
{
    match e {
        ExprView::Literal(LiteralView::Number(n)) => seq![Value::Number(n)],
        ExprView::GroupingExpr(inner) => literals(*inner),
        ExprView::PrefixExpr(_, right) => literals(*right),
        ExprView::InfixExpr(left, _, right) => literals(*left) + literals(*right),
        _ => Seq::empty(),
    }
}

/// The code of the arithmetic `e`, with its constants from place `k` of
/// the pool on: the operands first, the operator after them.
pub open spec fn code_of(e: ExprView, k: nat) -> Seq<Instruction>
    decreases e,
{
    match e {
        ExprView::Literal(LiteralView::Number(_)) => seq![Instruction::LoadConstant(k as usize)],
        ExprView::GroupingExpr(inner) => code_of(*inner, k),
        ExprView::PrefixExpr(_, right) => code_of(*right, k) + seq![Instruction::Nagetive],
        ExprView::InfixExpr(left, op, right) => code_of(*left, k) + code_of(
            *right,
            k + literals(*left).len(),
        ) + seq![operator_instruction(op.kind).unwrap()],
        _ => Seq::empty(),
    }
}

/// Whether every one of `es` is arithmetic.
pub open spec fn all_arithmetic(es: Seq<ExprView>) -> bool {
    forall|j: int| 0 <= j < es.len() ==> is_arithmetic(#[trigger] es[j])
}

/// How many instructions `es[i..]` compile to.
pub open spec fn list_size(es: Seq<ExprView>, i: int) -> nat
    decreases es.len() - i,
{
    if i < 0 || i >= es.len() {
        0
    } else {
        size(es[i]) + list_size(es, i + 1)
    }
}

/// The constants of `es[i..]`.
pub open spec fn list_literals(es: Seq<ExprView>, i: int) -> Seq<Value>
    decreases es.len() - i,
{
    if i < 0 || i >= es.len() {
        Seq::empty()
    } else {
        literals(es[i]) + list_literals(es, i + 1)
    }
}

/// The code of `es[i..]`, one after the other.
pub open spec fn list_code(es: Seq<ExprView>, i: int, k: nat) -> Seq<Instruction>
    decreases es.len() - i,
{
    if i < 0 || i >= es.len() {
        Seq::empty()
    } else {
        code_of(es[i], k) + list_code(es, i + 1, k + literals(es[i]).len())
    }
}

/// The values of `es`.
pub open spec fn list_values(es: Seq<ExprView>, a: Arithmetic) -> Seq<Value> {
    Seq::new(es.len(), |j: int| Value::Number(number_of(es[j], a)))
}

/// What printing `es[i..]` writes: the numbers, one after the other.
pub open spec fn list_text(es: Seq<ExprView>, i: int, a: Arithmetic) -> Seq<char>
    decreases es.len() - i,
{
    if i < 0 || i >= es.len() {
        Seq::empty()
    } else {
        (a.format)(number_of(es[i], a)) + list_text(es, i + 1, a)
    }
}

/// The expressions that the statement `s` prints.
pub open spec fn printed(s: StmtView) -> Seq<ExprView> {
    match s {
        StmtView::Expr(ExprView::PrintExpr(es)) => es,
        _ => Seq::empty(),
    }
}

/// Whether `s` is a `print` statement over arithmetic.
pub open spec fn is_print(s: StmtView) -> bool {
    s matches StmtView::Expr(ExprView::PrintExpr(es)) && all_arithmetic(es)
}

/// Whether every statement of `ss` is a `print` statement over
/// arithmetic.
pub open spec fn all_prints(ss: Seq<StmtView>) -> bool {
    forall|j: int| 0 <= j < ss.len() ==> is_print(#[trigger] ss[j])
}

/// How many instructions the statements `ss[i..]` compile to.
pub open spec fn program_size(ss: Seq<StmtView>, i: int) -> nat
    decreases ss.len() - i,
{
    if i < 0 || i >= ss.len() {
        0
    } else {
        list_size(printed(ss[i]), 0) + 1 + program_size(ss, i + 1)
    }
}

/// The constants of the statements `ss[i..]`.
pub open spec fn program_literals(ss: Seq<StmtView>, i: int) -> Seq<Value>
    decreases ss.len() - i,
{
    if i < 0 || i >= ss.len() {
        Seq::empty()
    } else {
        list_literals(printed(ss[i]), 0) + program_literals(ss, i + 1)
    }
}

/// The code of the statements `ss[i..]`: for each the code of what it
/// prints, and a `Print` of so many values.
pub open spec fn program_code(ss: Seq<StmtView>, i: int, k: nat) -> Seq<Instruction>
    decreases ss.len() - i,
{
    if i < 0 || i >= ss.len() {
        Seq::empty()
    } else {
        list_code(printed(ss[i]), 0, k) + seq![
            Instruction::Print(printed(ss[i]).len() as usize),
        ] + program_code(ss, i + 1, k + list_literals(printed(ss[i]), 0).len())
    }
}

/// What the statements `ss[i..]` write.
pub open spec fn program_text(ss: Seq<StmtView>, i: int, a: Arithmetic) -> Seq<char>
    decreases ss.len() - i,
{
    if i < 0 || i >= ss.len() {
        Seq::empty()
    } else {
        list_text(printed(ss[i]), 0, a) + program_text(ss, i + 1, a)
    }
}

/// `u` with the constants `cs` and the instructions `code` after its own.
pub open spec fn extended(u: Unit, cs: Seq<Value>, code: Seq<Instruction>) -> Unit {
    Unit { constants: u.constants + cs, instructions: u.instructions + code, ..u }
}

/// Whether `part` stands in `all` from place `at` on.
pub open spec fn holds<T>(all: Seq<T>, at: int, part: Seq<T>) -> bool {
    &&& 0 <= at
    &&& at + part.len() <= all.len()
    &&& all.subrange(at, at + part.len()) == part
}

/// `m` after `by` instructions that left it with the stack `stack`.
pub open spec fn moved(m: Machine, by: nat, stack: Seq<Value>) -> Machine {
    Machine { ip: (m.ip + by) as usize, stack, ..m }
}

proof fn lemma_holds_at<T>(all: Seq<T>, at: int, part: Seq<T>, j: int)
    requires
        holds(all, at, part),
        0 <= j < part.len(),
    ensures
        all[at + j] == part[j],
{
    assert(all.subrange(at, at + part.len())[j] == all[at + j]);
}

proof fn lemma_holds_parts<T>(all: Seq<T>, at: int, x: Seq<T>, y: Seq<T>)
    requires
        holds(all, at, x + y),
    ensures
        holds(all, at, x),
        holds(all, at + x.len(), y),
{
    assert forall|j: int| 0 <= j < x.len() implies all.subrange(at, at + x.len())[j] == x[j] by {
        lemma_holds_at(all, at, x + y, j);
    }
    assert(all.subrange(at, at + x.len()) =~= x);
    assert forall|j: int| 0 <= j < y.len() implies all.subrange(
        at + x.len(),
        at + x.len() + y.len(),
    )[j] == y[j] by {
        lemma_holds_at(all, at, x + y, x.len() + j);
    }
    assert(all.subrange(at + x.len(), at + x.len() + y.len()) =~= y);
}

proof fn lemma_sizes(e: ExprView, k: nat)
    requires
        is_arithmetic(e),
    ensures
        code_of(e, k).len() == size(e),
        1 <= literals(e).len() <= size(e),
    decreases e,
{
    match e {
        ExprView::GroupingExpr(inner) => {
            lemma_sizes(*inner, k);
        },
        ExprView::PrefixExpr(_, right) => {
            lemma_sizes(*right, k);
        },
        ExprView::InfixExpr(left, _, right) => {
            lemma_sizes(*left, k);
            lemma_sizes(*right, k + literals(*left).len());
        },
        _ => {},
    }
}

proof fn lemma_list_sizes(es: Seq<ExprView>, i: int, k: nat)
    requires
        all_arithmetic(es),
        0 <= i <= es.len(),
    ensures
        list_code(es, i, k).len() == list_size(es, i),
        es.len() - i <= list_literals(es, i).len() <= list_size(es, i),
    decreases es.len() - i,
{
    if i < es.len() {
        lemma_sizes(es[i], k);
        lemma_list_sizes(es, i + 1, k + literals(es[i]).len());
    }
}

proof fn lemma_program_sizes(ss: Seq<StmtView>, i: int, k: nat)
    requires
        all_prints(ss),
        0 <= i <= ss.len(),
    ensures
        program_code(ss, i, k).len() == program_size(ss, i),
        program_literals(ss, i).len() <= program_size(ss, i),
    decreases ss.len() - i,
{
    if i < ss.len() {
        lemma_list_sizes(printed(ss[i]), 0, k);
        lemma_program_sizes(ss, i + 1, k + list_literals(printed(ss[i]), 0).len());
    }
}

/// What the compiler emits for arithmetic.
proof fn lemma_lower_expr(u: Unit, e: ExprView)
    requires
        is_arithmetic(e),
    ensures
        lower_expr(u, e) == fine(extended(u, literals(e), code_of(e, u.constants.len()))),
    decreases e,
{
    reveal(lower_expr);
    let k = u.constants.len();
    let to = extended(u, literals(e), code_of(e, k));
    match e {
        ExprView::Literal(LiteralView::Number(n)) => {
            let got = u.constant(Value::Number(n)).emit(Instruction::LoadConstant(k as usize));
            assert(got.constants =~= to.constants);
            assert(got.instructions =~= to.instructions);
        },
        ExprView::GroupingExpr(inner) => {
            lemma_lower_expr(u, *inner);
        },
        ExprView::PrefixExpr(_, right) => {
            lemma_lower_expr(u, *right);
            let a = extended(u, literals(*right), code_of(*right, k));
            let got = a.emit(Instruction::Nagetive);
            assert(got.instructions =~= to.instructions);
        },
        ExprView::InfixExpr(left, op, right) => {
            lemma_lower_expr(u, *left);
            let a = extended(u, literals(*left), code_of(*left, k));
            lemma_lower_expr(a, *right);
            let b = extended(a, literals(*right), code_of(*right, a.constants.len()));
            let got = b.emit(operator_instruction(op.kind).unwrap());
            assert(got.constants =~= to.constants);
            assert(got.instructions =~= to.instructions);
        },
        _ => {},
    }
}

proof fn lemma_lower_list(u: Unit, es: Seq<ExprView>, i: int)
    requires
        all_arithmetic(es),
        0 <= i <= es.len(),
    ensures
        lower_list(u, es, i) == fine(
            extended(u, list_literals(es, i), list_code(es, i, u.constants.len())),
        ),
    decreases es.len() - i,
{
    reveal(lower_list);
    reveal(lower_expr);
    let to = extended(u, list_literals(es, i), list_code(es, i, u.constants.len()));
    if i < es.len() {
        lemma_lower_expr(u, es[i]);
        let a = extended(u, literals(es[i]), code_of(es[i], u.constants.len()));
        lemma_lower_list(a, es, i + 1);
        let got = extended(a, list_literals(es, i + 1), list_code(es, i + 1, a.constants.len()));
        assert(a.constants.len() == u.constants.len() + literals(es[i]).len());
        assert(got.constants =~= to.constants);
        assert(got.instructions =~= to.instructions);
        assert(got == to);
    } else {
        assert(u.constants =~= to.constants);
        assert(u.instructions =~= to.instructions);
        assert(u == to);
    }
}

proof fn lemma_lower_print_expr(u: Unit, es: Seq<ExprView>)
    requires
        all_arithmetic(es),
    ensures
        lower_expr(u, ExprView::PrintExpr(es)) == fine(
            extended(u, list_literals(es, 0), list_code(es, 0, u.constants.len())).emit(
                Instruction::Print(es.len() as usize),
            ),
        ),
{
    reveal(lower_expr);
    reveal(lower_list);
    lemma_lower_list(u, es, 0);
}

proof fn lemma_lower_print(u: Unit, s: StmtView)
    requires
        is_print(s),
    ensures
        lower_stmt(u, s) == fine(
            extended(
                u,
                list_literals(printed(s), 0),
                list_code(printed(s), 0, u.constants.len()),
            ).emit(Instruction::Print(printed(s).len() as usize)),
        ),
{
    reveal(lower_stmt);
    reveal(lower_expr);
    match s {
        StmtView::Expr(ExprView::PrintExpr(es)) => {
            lemma_lower_print_expr(u, es);
        },
        _ => {},
    }
}

proof fn lemma_lower_stmts(u: Unit, ss: Seq<StmtView>, i: int)
    requires
        all_prints(ss),
        0 <= i <= ss.len(),
    ensures
        lower_stmts(u, ss, i) == fine(
            extended(u, program_literals(ss, i), program_code(ss, i, u.constants.len())),
        ),
    decreases ss.len() - i,
{
    reveal(lower_stmts);
    reveal(lower_stmt);
    let to = extended(u, program_literals(ss, i), program_code(ss, i, u.constants.len()));
    if i < ss.len() {
        let es = printed(ss[i]);
        assert(is_print(ss[i]));
        lemma_lower_list(u, es, 0);
        let a = extended(u, list_literals(es, 0), list_code(es, 0, u.constants.len()));
        let b = a.emit(Instruction::Print(es.len() as usize));
        lemma_lower_print(u, ss[i]);
        lemma_lower_stmts(b, ss, i + 1);
        let got = extended(b, program_literals(ss, i + 1), program_code(ss, i + 1, b.constants.len()));
        assert(b.constants.len() == u.constants.len() + list_literals(es, 0).len());
        assert(got.constants =~= to.constants);
        assert(got.instructions =~= to.instructions);
        assert(got == to);
    } else {
        assert(u.constants =~= to.constants);
        assert(u.instructions =~= to.instructions);
        assert(u == to);
    }
}

/// What the evaluator gives for arithmetic: its number, in the world as
/// it was.
proof fn lemma_eval(w: World, e: ExprView, r: Rules)
    requires
        is_arithmetic(e),
    ensures
        eval(w, e, r) == done(w, Value::Number(number_of(e, r.arithmetic))),
    decreases e,
{
    reveal(eval);
    match e {
        ExprView::GroupingExpr(inner) => {
            lemma_eval(w, *inner, r);
        },
        ExprView::PrefixExpr(_, right) => {
            lemma_eval(w, *right, r);
        },
        ExprView::InfixExpr(left, _, right) => {
            lemma_eval(w, *left, r);
            lemma_eval(w, *right, r);
        },
        _ => {},
    }
}

proof fn lemma_print_items(w: World, es: Seq<ExprView>, i: int, r: Rules)
    requires
        all_arithmetic(es),
        0 <= i <= es.len(),
    ensures
        print_items(w, es, i, r) == done(w.write(list_text(es, i, r.arithmetic)), ()),
    decreases es.len() - i,
{
    reveal(print_items);
    reveal(eval);
    reveal(value_into);
    if i < es.len() {
        lemma_eval(w, es[i], r);
        let n = number_of(es[i], r.arithmetic);
        let text = w.text(Value::Number(n), r);
        assert(text =~= (r.arithmetic.format)(n));
        let w1 = w.write(text);
        lemma_print_items(w1, es, i + 1, r);
        assert(w1.write(list_text(es, i + 1, r.arithmetic)).output =~= w.write(
            list_text(es, i, r.arithmetic),
        ).output);
        assert(w1.write(list_text(es, i + 1, r.arithmetic)) == w.write(
            list_text(es, i, r.arithmetic),
        ));
    } else {
        assert(w.write(list_text(es, i, r.arithmetic)).output =~= w.output);
        assert(w.write(list_text(es, i, r.arithmetic)) == w);
    }
}

proof fn lemma_eval_print(w: World, es: Seq<ExprView>, r: Rules)
    requires
        all_arithmetic(es),
    ensures
        eval(w, ExprView::PrintExpr(es), r) == done(
            w.write(list_text(es, 0, r.arithmetic)),
            Value::Nil,
        ),
{
    reveal(eval);
    reveal(print_items);
    lemma_print_items(w, es, 0, r);
}

proof fn lemma_run_print(w: World, s: StmtView, r: Rules)
    requires
        is_print(s),
    ensures
        run(w, s, r) == done::<Option<Value>>(
            w.write(list_text(printed(s), 0, r.arithmetic)),
            None,
        ),
{
    reveal(run);
    reveal(eval);
    match s {
        StmtView::Expr(ExprView::PrintExpr(es)) => {
            lemma_eval_print(w, es, r);
        },
        _ => {},
    }
}

proof fn lemma_run_program(w: World, ss: Seq<StmtView>, i: int, r: Rules)
    requires
        all_prints(ss),
        0 <= i <= ss.len(),
    ensures
        run_program(w, ss, i, r) == done(w.write(program_text(ss, i, r.arithmetic)), ()),
    decreases ss.len() - i,
{
    if i < ss.len() {
        let es = printed(ss[i]);
        assert(is_print(ss[i]));
        lemma_run_print(w, ss[i], r);
        let w1 = w.write(list_text(es, 0, r.arithmetic));
        lemma_run_program(w1, ss, i + 1, r);
        assert(w1.write(program_text(ss, i + 1, r.arithmetic)).output =~= w.write(
            program_text(ss, i, r.arithmetic),
        ).output);
        assert(w1.write(program_text(ss, i + 1, r.arithmetic)) == w.write(
            program_text(ss, i, r.arithmetic),
        ));
    } else {
        assert(w.write(program_text(ss, i, r.arithmetic)).output =~= w.output);
        assert(w.write(program_text(ss, i, r.arithmetic)) == w);
    }
}

/// The machine after up to `n` steps.
#[verifier::opaque]
pub open spec fn runs(c: Code, m: Machine, n: nat, a: Arithmetic) -> Machine {
    run_for(c, m, n, a)
}

proof fn lemma_step_load(c: Code, m: Machine, k: usize, n: nat, a: Arithmetic)
    requires
        m.status == Status::Running,
        m.ip < c.instructions.len() <= usize::MAX,
        c.instructions[m.ip as int] == Instruction::LoadConstant(k),
        k < c.constants.len(),
        n >= 1,
    ensures
        runs(c, m, n, a) == runs(
            c,
            moved(m, 1, m.stack.push(c.constants[k as int])),
            (n - 1) as nat,
            a,
        ),
{
    reveal(runs);
}

proof fn lemma_step_negate(c: Code, m: Machine, x: Number, n: nat, a: Arithmetic)
    requires
        m.status == Status::Running,
        m.ip < c.instructions.len() <= usize::MAX,
        c.instructions[m.ip as int] == Instruction::Nagetive,
        m.stack.len() >= 1,
        m.stack.last() == Value::Number(x),
        n >= 1,
    ensures
        runs(c, m, n, a) == runs(
            c,
            moved(m, 1, m.stack.drop_last().push(Value::Number(x.negated()))),
            (n - 1) as nat,
            a,
        ),
{
    reveal(runs);
}

proof fn lemma_step_operator(
    c: Code,
    m: Machine,
    op: TokenKind,
    x: Number,
    y: Number,
    n: nat,
    a: Arithmetic,
)
    requires
        m.status == Status::Running,
        m.ip < c.instructions.len() <= usize::MAX,
        is_arithmetic_operator(op),
        c.instructions[m.ip as int] == operator_instruction(op).unwrap(),
        m.stack.len() >= 2,
        m.stack[m.stack.len() - 2] == Value::Number(x),
        m.stack.last() == Value::Number(y),
        n >= 1,
    ensures
        runs(c, m, n, a) == runs(
            c,
            moved(
                m,
                1,
                m.stack.drop_last().drop_last().push(
                    Value::Number((a.binary)(number_op(op).unwrap(), x, y)),
                ),
            ),
            (n - 1) as nat,
            a,
        ),
{
    reveal(runs);
}

proof fn lemma_step_print(c: Code, m: Machine, count: usize, n: nat, a: Arithmetic)
    requires
        m.status == Status::Running,
        m.ip < c.instructions.len() <= usize::MAX,
        c.instructions[m.ip as int] == Instruction::Print(count),
        m.stack.len() >= count,
        n >= 1,
    ensures
        runs(c, m, n, a) == runs(
            c,
            Machine {
                ip: (m.ip + 1) as usize,
                stack: m.stack.subrange(0, m.stack.len() - count),
                output: crate::machine::written_into(
                    m.output,
                    m.stack.subrange(m.stack.len() - count, m.stack.len() as int),
                    0,
                    a.format,
                ),
                ..m
            },
            (n - 1) as nat,
            a,
        ),
{
    reveal(runs);
}

proof fn lemma_machine_prefix(c: Code, m: Machine, e: ExprView, k: nat, n: nat, a: Arithmetic)
    requires
        is_arithmetic(e),
        e is PrefixExpr,
        m.status == Status::Running,
        holds(c.instructions, m.ip as int, code_of(e, k)),
        holds(c.constants, k as int, literals(e)),
        c.instructions.len() <= usize::MAX,
        c.constants.len() <= usize::MAX,
        n >= size(e),
    ensures
        runs(c, m, n, a) == runs(
            c,
            moved(m, size(e), m.stack.push(Value::Number(number_of(e, a)))),
            (n - size(e)) as nat,
            a,
        ),
    decreases e, 0nat,
{
    let to = moved(m, size(e), m.stack.push(Value::Number(number_of(e, a))));
    match e {
        ExprView::PrefixExpr(_, right) => {
            let x = code_of(*right, k);
            lemma_sizes(*right, k);
            lemma_holds_parts(c.instructions, m.ip as int, x, seq![Instruction::Nagetive]);
            lemma_machine_expr(c, m, *right, k, n, a);
            let v = number_of(*right, a);
            let m1 = moved(m, size(*right), m.stack.push(Value::Number(v)));
            lemma_holds_at(c.instructions, m.ip + x.len(), seq![Instruction::Nagetive], 0);
            lemma_step_negate(c, m1, v, (n - size(*right)) as nat, a);
            let got = moved(m1, 1, m1.stack.drop_last().push(Value::Number(v.negated())));
            assert(got.stack =~= to.stack);
            assert(got == to);
        },
        _ => {},
    }
}

proof fn lemma_machine_infix(c: Code, m: Machine, e: ExprView, k: nat, n: nat, a: Arithmetic)
    requires
        is_arithmetic(e),
        e is InfixExpr,
        m.status == Status::Running,
        holds(c.instructions, m.ip as int, code_of(e, k)),
        holds(c.constants, k as int, literals(e)),
        c.instructions.len() <= usize::MAX,
        c.constants.len() <= usize::MAX,
        n >= size(e),
    ensures
        runs(c, m, n, a) == runs(
            c,
            moved(m, size(e), m.stack.push(Value::Number(number_of(e, a)))),
            (n - size(e)) as nat,
            a,
        ),
    decreases e, 0nat,
{
    let to = moved(m, size(e), m.stack.push(Value::Number(number_of(e, a))));
    match e {
        ExprView::InfixExpr(left, op, right) => {
            let kr = k + literals(*left).len();
            let x = code_of(*left, k);
            let y = code_of(*right, kr);
            let i = operator_instruction(op.kind).unwrap();
            lemma_sizes(*left, k);
            lemma_sizes(*right, kr);
            lemma_holds_parts(c.instructions, m.ip as int, x + y, seq![i]);
            lemma_holds_parts(c.instructions, m.ip as int, x, y);
            lemma_holds_parts(c.constants, k as int, literals(*left), literals(*right));
            lemma_machine_expr(c, m, *left, k, n, a);
            let vl = number_of(*left, a);
            let m1 = moved(m, size(*left), m.stack.push(Value::Number(vl)));
            lemma_machine_expr(c, m1, *right, kr, (n - size(*left)) as nat, a);
            let vr = number_of(*right, a);
            let m2 = moved(m1, size(*right), m1.stack.push(Value::Number(vr)));
            lemma_holds_at(c.instructions, m.ip + x.len() + y.len(), seq![i], 0);
            lemma_step_operator(
                c,
                m2,
                op.kind,
                vl,
                vr,
                (n - size(*left) - size(*right)) as nat,
                a,
            );
            let got = moved(
                m2,
                1,
                m2.stack.drop_last().drop_last().push(
                    Value::Number((a.binary)(number_op(op.kind).unwrap(), vl, vr)),
                ),
            );
            assert(got.stack =~= to.stack);
            assert(got == to);
        },
        _ => {},
    }
}

/// What the machine does with the code of arithmetic: it leaves the
/// number on the stack, and stands after the code.
proof fn lemma_machine_expr(c: Code, m: Machine, e: ExprView, k: nat, n: nat, a: Arithmetic)
    requires
        is_arithmetic(e),
        m.status == Status::Running,
        holds(c.instructions, m.ip as int, code_of(e, k)),
        holds(c.constants, k as int, literals(e)),
        c.instructions.len() <= usize::MAX,
        c.constants.len() <= usize::MAX,
        n >= size(e),
    ensures
        runs(c, m, n, a) == runs(
            c,
            moved(m, size(e), m.stack.push(Value::Number(number_of(e, a)))),
            (n - size(e)) as nat,
            a,
        ),
    decreases e, 1nat,
{
    match e {
        ExprView::Literal(LiteralView::Number(x)) => {
            lemma_holds_at(c.instructions, m.ip as int, code_of(e, k), 0);
            lemma_holds_at(c.constants, k as int, literals(e), 0);
            lemma_step_load(c, m, k as usize, n, a);
        },
        ExprView::GroupingExpr(inner) => {
            lemma_machine_expr(c, m, *inner, k, n, a);
        },
        ExprView::PrefixExpr(_, _) => {
            lemma_machine_prefix(c, m, e, k, n, a);
        },
        ExprView::InfixExpr(_, _, _) => {
            lemma_machine_infix(c, m, e, k, n, a);
        },
        _ => {},
    }
}

proof fn lemma_machine_list(
    c: Code,
    m: Machine,
    es: Seq<ExprView>,
    i: int,
    k: nat,
    n: nat,
    a: Arithmetic,
)
    requires
        all_arithmetic(es),
        0 <= i <= es.len(),
        m.status == Status::Running,
        holds(c.instructions, m.ip as int, list_code(es, i, k)),
        holds(c.constants, k as int, list_literals(es, i)),
        c.instructions.len() <= usize::MAX,
        c.constants.len() <= usize::MAX,
        n >= list_size(es, i),
    ensures
        runs(c, m, n, a) == runs(
            c,
            moved(
                m,
                list_size(es, i),
                m.stack + list_values(es, a).subrange(i, es.len() as int),
            ),
            (n - list_size(es, i)) as nat,
            a,
        ),
    decreases es.len() - i,
{
    let to = moved(m, list_size(es, i), m.stack + list_values(es, a).subrange(i, es.len() as int));
    if i < es.len() {
        let kr = k + literals(es[i]).len();
        lemma_sizes(es[i], k);
        lemma_list_sizes(es, i + 1, kr);
        lemma_holds_parts(c.instructions, m.ip as int, code_of(es[i], k), list_code(es, i + 1, kr));
        lemma_holds_parts(c.constants, k as int, literals(es[i]), list_literals(es, i + 1));
        lemma_machine_expr(c, m, es[i], k, n, a);
        let m1 = moved(m, size(es[i]), m.stack.push(Value::Number(number_of(es[i], a))));
        lemma_machine_list(c, m1, es, i + 1, kr, (n - size(es[i])) as nat, a);
        let got = moved(
            m1,
            list_size(es, i + 1),
            m1.stack + list_values(es, a).subrange(i + 1, es.len() as int),
        );
        assert(got.stack =~= to.stack);
        assert(got == to);
    } else {
        assert(to.stack =~= m.stack);
        assert(to == m);
    }
}

proof fn lemma_written(acc: Seq<char>, es: Seq<ExprView>, i: int, a: Arithmetic)
    requires
        0 <= i <= es.len(),
    ensures
        crate::machine::written_into(acc, list_values(es, a), i, a.format) == acc + list_text(
            es,
            i,
            a,
        ),
    decreases es.len() - i,
{
    reveal(value_into);
    if i < es.len() {
        let next = acc + (a.format)(number_of(es[i], a));
        lemma_written(next, es, i + 1, a);
        assert(next + list_text(es, i + 1, a) =~= acc + list_text(es, i, a));
    } else {
        assert(acc + list_text(es, i, a) =~= acc);
    }
}

proof fn lemma_machine_program(
    c: Code,
    m: Machine,
    ss: Seq<StmtView>,
    i: int,
    k: nat,
    n: nat,
    a: Arithmetic,
)
    requires
        all_prints(ss),
        0 <= i <= ss.len(),
        m.status == Status::Running,
        holds(c.instructions, m.ip as int, program_code(ss, i, k)),
        holds(c.constants, k as int, program_literals(ss, i)),
        c.instructions.len() <= usize::MAX,
        c.constants.len() <= usize::MAX,
        n >= program_size(ss, i),
    ensures
        runs(c, m, n, a) == runs(
            c,
            Machine {
                ip: (m.ip + program_size(ss, i)) as usize,
                output: m.output + program_text(ss, i, a),
                ..m
            },
            (n - program_size(ss, i)) as nat,
            a,
        ),
    decreases ss.len() - i,
{
    let to = Machine {
        ip: (m.ip + program_size(ss, i)) as usize,
        output: m.output + program_text(ss, i, a),
        ..m
    };
    if i < ss.len() {
        let es = printed(ss[i]);
        let kr = k + list_literals(es, 0).len();
        let x = list_code(es, 0, k);
        let p = seq![Instruction::Print(es.len() as usize)];
        let rest = program_code(ss, i + 1, kr);
        lemma_list_sizes(es, 0, k);
        lemma_program_sizes(ss, i + 1, kr);
        lemma_holds_parts(c.instructions, m.ip as int, x + p, rest);
        lemma_holds_parts(c.instructions, m.ip as int, x, p);
        lemma_holds_parts(c.constants, k as int, list_literals(es, 0), program_literals(ss, i + 1));
        lemma_machine_list(c, m, es, 0, k, n, a);
        let values = list_values(es, a);
        let m1 = moved(m, list_size(es, 0), m.stack + values.subrange(0, es.len() as int));
        lemma_holds_at(c.instructions, m.ip + x.len(), p, 0);
        assert(m1.stack.subrange(0, m1.stack.len() - es.len()) =~= m.stack);
        assert(m1.stack.subrange(m1.stack.len() - es.len(), m1.stack.len() as int) =~= values);
        lemma_written(m.output, es, 0, a);
        let m2 = Machine {
            ip: (m.ip + list_size(es, 0) + 1) as usize,
            output: m.output + list_text(es, 0, a),
            ..m
        };
        lemma_step_print(c, m1, es.len() as usize, (n - list_size(es, 0)) as nat, a);
        lemma_machine_program(c, m2, ss, i + 1, kr, (n - list_size(es, 0) - 1) as nat, a);
        let got = Machine {
            ip: (m2.ip + program_size(ss, i + 1)) as usize,
            output: m2.output + program_text(ss, i + 1, a),
            ..m2
        };
        assert(got.output =~= to.output);
        assert(got == to);
    } else {
        assert(to.output =~= m.output);
        assert(to == m);
    }
}

/// The two back ends agree on programs that print arithmetic.
///
/// Let every statement of `ss` be a `print` statement over arithmetic on
/// number literals, and let `ss` compile to no more instructions than the
/// machine can count. Then the compiler takes `ss`; the evaluator runs it
/// to its end; the machine, given at least as many steps as the code has
/// instructions, runs the code to its end; and what the machine has
/// written then is what the evaluator has written.
pub proof fn lemma_back_ends_agree(ss: Seq<StmtView>, w: World, r: Rules, n: nat)
    requires
        all_prints(ss),
        program_size(ss, 0) <= usize::MAX,
        n >= program_size(ss, 0),
    ensures
        ({
            let compiled = lower_stmts(Unit::start(), ss, 0);
            let code = Code {
                instructions: linked(compiled.unit).1,
                constants: compiled.unit.constants,
                main_start: linked(compiled.unit).0,
            };
            let machine = run_for(code, Machine::start(code.main_start), n, r.arithmetic);
            let evaluated = run_program(w, ss, 0, r);
            &&& compiled.result is Ok
            &&& evaluated.result is Ok
            &&& machine.status == Status::Running
            &&& machine.ip == code.instructions.len()
            &&& evaluated.world.output == w.output + machine.output
        }),
{
    let a = r.arithmetic;
    let u = Unit::start();
    lemma_lower_stmts(u, ss, 0);
    lemma_run_program(w, ss, 0, r);
    lemma_program_sizes(ss, 0, 0);
    let compiled = lower_stmts(u, ss, 0);
    let code = Code {
        instructions: linked(compiled.unit).1,
        constants: compiled.unit.constants,
        main_start: linked(compiled.unit).0,
    };
    assert(code.instructions =~= program_code(ss, 0, 0));
    assert(code.constants =~= program_literals(ss, 0));
    assert(code.instructions.subrange(0, code.instructions.len() as int) =~= code.instructions);
    assert(code.constants.subrange(0, code.constants.len() as int) =~= code.constants);
    let m = Machine::start(code.main_start);
    reveal(runs);
    lemma_machine_program(code, m, ss, 0, 0, n, a);
    let end = Machine {
        ip: (m.ip + program_size(ss, 0)) as usize,
        output: m.output + program_text(ss, 0, a),
        ..m
    };
    assert(end.done(code));
    assert(end.output =~= program_text(ss, 0, a));
}

} // verus!
