//! How values are printed.

use crate::envs::{bindings, Bindings};
use crate::heap::{entries, Entries, Heap, HeapModel};
use crate::number::{format_number, lawful, model_of, Number, NumberReply, NumberRequest};
use crate::objects::{lemma_values_index, lemma_values_len, values, Object, Value};
use crate::printer::write::{write_lines, write_names};
use crate::printer::{lines_into, names_into};
use crate::text::{decimal, push_decimal};
use vstd::prelude::*;

verus! {

/// The decimal numeral of `n`, with a minus sign if it is negative.
pub open spec fn signed_decimal(n: int) -> Seq<char> {
    if n < 0 {
        "-"@ + decimal((-n) as nat)
    } else {
        decimal(n as nat)
    }
}

/// Appends the decimal numeral of `n`.
pub fn push_signed(out: &mut String, n: i32)
    ensures
        final(out)@ == old(out)@ + signed_decimal(n as int),
{
    if n < 0 {
        let mut s = String::from_str("-");
        push_decimal(&mut s, (-(n as i64)) as u128);
        out.append(s.as_str());
    } else {
        push_decimal(out, n as u128);
    }
}

/// `acc` and the printed form of the value `v`.
///
/// A hash or an instance is printed with what the heap holds for it, down
/// to `budget` levels of hashes and instances inside one another; below
/// that it is printed as `...`.
#[verifier::opaque]
pub open spec fn value_into(
    acc: Seq<char>,
    v: Value,
    heap: HeapModel,
    format: spec_fn(Number) -> Seq<char>,
    budget: nat,
) -> Seq<char>
    decreases budget, v, 0nat,
{
    match v {
        Value::Boolean(b) => if b {
            acc + "true"@
        } else {
            acc + "false"@
        },
        Value::Nil => acc + "nil"@,
        Value::Number(n) => acc + format(n),
        Value::Index(i) => acc + decimal(i as nat),
        Value::String(s) => acc + s,
        Value::Array(elements) => values_into(acc + "["@, elements, 0, heap, format, budget)
            + "]"@,
        Value::ReturnValue(inner) => value_into(acc, *inner, heap, format, budget),
        Value::Hash(h) => if budget == 0 {
            acc + "..."@
        } else {
            entries_into(acc + "{"@, heap.hash(h), 0, heap, format, (budget - 1) as nat) + "}"@
        },
        Value::Builtin(name, arity, _) => acc + "builtin function: "@ + name + " "@
            + signed_decimal(arity as int),
        Value::Function(params, _) => names_into(acc + "fn("@, params, 0) + ")"@,
        Value::Class(name, members) => lines_into(
            acc + "class "@ + name + " {\n"@,
            members,
            0,
            format,
        ) + "}"@,
        Value::ClassInstance { name, id } => if budget == 0 {
            acc + "..."@
        } else {
            members_into(
                members_into(
                    acc + "instance of class "@ + name + " {\n"@,
                    heap.fields(id),
                    0,
                    heap,
                    format,
                    (budget - 1) as nat,
                ),
                heap.methods(id),
                0,
                heap,
                format,
                (budget - 1) as nat,
            ) + "}"@
        },
        Value::CompiledFunction { .. } => acc + "compiled function"@,
        Value::Closure { .. } => acc + "closure"@,
    }
}

/// `acc` and the printed forms of the values `vs[i..]`, with `, ` between
/// them.
#[verifier::opaque]
pub open spec fn values_into(
    acc: Seq<char>,
    vs: Seq<Value>,
    i: int,
    heap: HeapModel,
    format: spec_fn(Number) -> Seq<char>,
    budget: nat,
) -> Seq<char>
    decreases budget, vs, vs.len() - i,
{
    if i < 0 || i >= vs.len() {
        acc
    } else if i > 0 {
        values_into(
            value_into(acc + ", "@, vs[i], heap, format, budget),
            vs,
            i + 1,
            heap,
            format,
            budget,
        )
    } else {
        values_into(value_into(acc, vs[i], heap, format, budget), vs, i + 1, heap, format, budget)
    }
}

/// `acc` and the entries `es[i..]` of a hash, each as `key: value, `.
#[verifier::opaque]
pub open spec fn entries_into(
    acc: Seq<char>,
    es: Entries,
    i: int,
    heap: HeapModel,
    format: spec_fn(Number) -> Seq<char>,
    budget: nat,
) -> Seq<char>
    decreases budget, es, es.len() - i,
{
    if i < 0 || i >= es.len() {
        acc
    } else {
        entries_into(
            value_into(
                value_into(acc, es[i].0, heap, format, budget) + ": "@,
                es[i].1,
                heap,
                format,
                budget,
            ) + ", "@,
            es,
            i + 1,
            heap,
            format,
            budget,
        )
    }
}

/// `acc` and the members `bs[i..]` of an instance, each on a line of its
/// own as a tab and `name: value`.
#[verifier::opaque]
pub open spec fn members_into(
    acc: Seq<char>,
    bs: Bindings,
    i: int,
    heap: HeapModel,
    format: spec_fn(Number) -> Seq<char>,
    budget: nat,
) -> Seq<char>
    decreases budget, bs, bs.len() - i,
{
    if i < 0 || i >= bs.len() {
        acc
    } else {
        members_into(
            value_into(acc + "\t"@ + bs[i].0 + ": "@, bs[i].1, heap, format, budget) + "\n"@,
            bs,
            i + 1,
            heap,
            format,
            budget,
        )
    }
}

/// How deep hashes and instances inside one another are printed: as deep
/// as the heap has hashes and instances, which is as deep as they can be
/// without one holding itself.
pub open spec fn print_budget(heap: HeapModel) -> nat {
    if heap.hashes.len() + heap.instances.len() > usize::MAX {
        usize::MAX as nat
    } else {
        heap.hashes.len() + heap.instances.len()
    }
}

/// The printed form of the value `v`.
pub open spec fn value_text(v: Value, heap: HeapModel, format: spec_fn(Number) -> Seq<char>) -> Seq<
    char,
> {
    value_into(Seq::empty(), v, heap, format, print_budget(heap))
}

/// Appends the printed form of `v`, down to `budget` levels of hashes and
/// instances.
pub fn write_value<K: Fn(NumberRequest) -> NumberReply>(
    out: &mut String,
    v: &Object,
    heap: &Heap,
    numbers: &K,
    budget: usize,
)
    requires
        lawful(numbers),
    ensures
        final(out)@ == value_into(
            old(out)@,
            v.view(),
            heap.view(),
            model_of(numbers).format,
            budget as nat,
        ),
    decreases budget, v, 0nat,
{
    proof {
        reveal(value_into);
        reveal(values_into);
        reveal(entries_into);
        reveal(members_into);
    }
    match v {
        Object::Boolean(b) => {
            if *b {
                out.append("true");
            } else {
                out.append("false");
            }
        },
        Object::Nil => {
            out.append("nil");
        },
        Object::Number(n) => {
            let text = format_number(numbers, *n);
            out.append(text.as_str());
        },
        Object::Index(i) => {
            push_decimal(out, *i as u128);
        },
        Object::String(s) => {
            out.append(s.as_str());
        },
        Object::Array(elements) => {
            out.append("[");
            write_values(out, elements, heap, numbers, budget);
            out.append("]");
        },
        Object::ReturnValue(inner) => {
            write_value(out, inner, heap, numbers, budget);
        },
        Object::Hash(h) => {
            if budget == 0 {
                out.append("...");
            } else {
                out.append("{");
                let es = heap.hash_entries(*h);
                write_entries(out, &es, heap, numbers, budget - 1);
                out.append("}");
            }
        },
        Object::Builtin(name, arity, _) => {
            out.append("builtin function: ");
            out.append(name.as_str());
            out.append(" ");
            push_signed(out, *arity);
        },
        Object::Function(params, _) => {
            out.append("fn(");
            write_names(out, params);
            out.append(")");
        },
        Object::Class(name, members) => {
            out.append("class ");
            out.append(name.as_str());
            out.append(" {\n");
            write_lines(out, members, numbers);
            out.append("}");
        },
        Object::ClassInstance { name, id } => {
            if budget == 0 {
                out.append("...");
            } else {
                out.append("instance of class ");
                out.append(name.as_str());
                out.append(" {\n");
                let fields = heap.fields_of(*id);
                write_members(out, &fields, heap, numbers, budget - 1);
                let methods = heap.methods_of(*id);
                write_members(out, &methods, heap, numbers, budget - 1);
                out.append("}");
            }
        },
        Object::CompiledFunction { .. } => {
            out.append("compiled function");
        },
        Object::Closure { .. } => {
            out.append("closure");
        },
    }
}

/// Appends the printed forms of the values `vs`, with `, ` between them.
pub fn write_values<K: Fn(NumberRequest) -> NumberReply>(
    out: &mut String,
    vs: &Vec<Object>,
    heap: &Heap,
    numbers: &K,
    budget: usize,
)
    requires
        lawful(numbers),
    ensures
        final(out)@ == values_into(
            old(out)@,
            values(vs@),
            0,
            heap.view(),
            model_of(numbers).format,
            budget as nat,
        ),
    decreases budget, vs, vs.len(),
{
    let mut i: usize = 0;
    while i < vs.len()
        invariant
            i <= vs.len(),
            lawful(numbers),
            values_into(
                old(out)@,
                values(vs@),
                0,
                heap.view(),
                model_of(numbers).format,
                budget as nat,
            ) == values_into(
                out@,
                values(vs@),
                i as int,
                heap.view(),
                model_of(numbers).format,
                budget as nat,
            ),
        decreases vs.len() - i,
    {
        proof {
            reveal(values_into);
            reveal(value_into);
            lemma_values_index(vs@, i as int);
        }
        if i > 0 {
            out.append(", ");
        }
        write_value(out, &vs[i], heap, numbers, budget);
        i += 1;
    }
    proof {
        reveal(values_into);
        reveal(value_into);
        lemma_values_len(vs@);
    }
}

/// Appends the entries `es` of a hash.
pub fn write_entries<K: Fn(NumberRequest) -> NumberReply>(
    out: &mut String,
    es: &Vec<(Object, Object)>,
    heap: &Heap,
    numbers: &K,
    budget: usize,
)
    requires
        lawful(numbers),
    ensures
        final(out)@ == entries_into(
            old(out)@,
            entries(es@),
            0,
            heap.view(),
            model_of(numbers).format,
            budget as nat,
        ),
    decreases budget, es, es.len(),
{
    let mut i: usize = 0;
    while i < es.len()
        invariant
            i <= es.len(),
            lawful(numbers),
            entries_into(
                old(out)@,
                entries(es@),
                0,
                heap.view(),
                model_of(numbers).format,
                budget as nat,
            ) == entries_into(
                out@,
                entries(es@),
                i as int,
                heap.view(),
                model_of(numbers).format,
                budget as nat,
            ),
        decreases es.len() - i,
    {
        proof {
            reveal(entries_into);
            reveal(value_into);
        }
        write_value(out, &es[i].0, heap, numbers, budget);
        out.append(": ");
        write_value(out, &es[i].1, heap, numbers, budget);
        out.append(", ");
        i += 1;
    }
    proof {
        reveal(entries_into);
        reveal(value_into);
    }
}

/// Appends the members `bs` of an instance.
pub fn write_members<K: Fn(NumberRequest) -> NumberReply>(
    out: &mut String,
    bs: &Vec<(String, Object)>,
    heap: &Heap,
    numbers: &K,
    budget: usize,
)
    requires
        lawful(numbers),
    ensures
        final(out)@ == members_into(
            old(out)@,
            bindings(bs@),
            0,
            heap.view(),
            model_of(numbers).format,
            budget as nat,
        ),
    decreases budget, bs, bs.len(),
{
    let mut i: usize = 0;
    while i < bs.len()
        invariant
            i <= bs.len(),
            lawful(numbers),
            members_into(
                old(out)@,
                bindings(bs@),
                0,
                heap.view(),
                model_of(numbers).format,
                budget as nat,
            ) == members_into(
                out@,
                bindings(bs@),
                i as int,
                heap.view(),
                model_of(numbers).format,
                budget as nat,
            ),
        decreases bs.len() - i,
    {
        proof {
            reveal(members_into);
            reveal(value_into);
        }
        out.append("\t");
        out.append(bs[i].0.as_str());
        out.append(": ");
        write_value(out, &bs[i].1, heap, numbers, budget);
        out.append("\n");
        i += 1;
    }
    proof {
        reveal(members_into);
        reveal(value_into);
    }
}

/// The printed form of `v`.
pub fn value_string<K: Fn(NumberRequest) -> NumberReply>(v: &Object, heap: &Heap, numbers: &K) -> (s:
    String)
    requires
        lawful(numbers),
    ensures
        s@ == value_text(v.view(), heap.view(), model_of(numbers).format),
{
    let mut s = String::new();
    let hashes = heap.hash_count();
    let instances = heap.instance_count();
    let budget = if hashes > usize::MAX - instances {
        usize::MAX
    } else {
        hashes + instances
    };
    write_value(&mut s, v, heap, numbers, budget);
    s
}

} // verus!
