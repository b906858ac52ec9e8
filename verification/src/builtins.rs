//! The builtin functions: a registry in the order of their names, and
//! what each computes.

use crate::display::{print_budget, value_into, value_text, write_value};
use crate::heap::{Heap, HeapModel};
use crate::lexer::is_digit;
use crate::number::{lawful, model_of, Number, NumberReply, NumberRequest};
use crate::objects::{duplicate_all, lemma_values_index, lemma_values_len, values, Object, Value};
use crate::text::{chars_of, string_of};
use vstd::prelude::*;

verus! {

/// How many builtins there are.
pub const BUILTIN_COUNT: usize = 13;

/// The name of the builtin at `i`. The names are in order.
pub open spec fn builtin_name(i: usize) -> Seq<char> {
    if i == 0 {
        "append"@
    } else if i == 1 {
        "intval"@
    } else if i == 2 {
        "is_number"@
    } else if i == 3 {
        "is_str"@
    } else if i == 4 {
        "len"@
    } else if i == 5 {
        "print"@
    } else if i == 6 {
        "println"@
    } else if i == 7 {
        "start_with"@
    } else if i == 8 {
        "strval"@
    } else if i == 9 {
        "substr"@
    } else if i == 10 {
        "trim"@
    } else if i == 11 {
        "type"@
    } else {
        "typeis"@
    }
}

/// How many arguments the builtin at `i` takes; -1 if any number.
pub open spec fn builtin_arity(i: usize) -> i32 {
    if i == 0 || i == 6 {
        -1i32
    } else if i == 7 {
        2
    } else if i == 9 {
        3
    } else {
        1
    }
}

/// The place of the builtin of the given name.
pub open spec fn builtin_index(name: Seq<char>) -> Option<usize> {
    if name == "append"@ {
        Some(0)
    } else if name == "intval"@ {
        Some(1)
    } else if name == "is_number"@ {
        Some(2)
    } else if name == "is_str"@ {
        Some(3)
    } else if name == "len"@ {
        Some(4)
    } else if name == "print"@ {
        Some(5)
    } else if name == "println"@ {
        Some(6)
    } else if name == "start_with"@ {
        Some(7)
    } else if name == "strval"@ {
        Some(8)
    } else if name == "substr"@ {
        Some(9)
    } else if name == "trim"@ {
        Some(10)
    } else if name == "type"@ {
        Some(11)
    } else if name == "typeis"@ {
        Some(12)
    } else {
        None
    }
}

/// The builtin at `i` as a value.
pub open spec fn builtin_value(i: usize) -> Value {
    Value::Builtin(builtin_name(i), builtin_arity(i), i)
}

/// The builtin of the given name as a value.
pub open spec fn builtin_named(name: Seq<char>) -> Option<Value> {
    match builtin_index(name) {
        Some(i) => Some(builtin_value(i)),
        None => None,
    }
}

fn name_at(i: usize) -> (s: &'static str)
    ensures
        s@ == builtin_name(i),
{
    if i == 0 {
        "append"
    } else if i == 1 {
        "intval"
    } else if i == 2 {
        "is_number"
    } else if i == 3 {
        "is_str"
    } else if i == 4 {
        "len"
    } else if i == 5 {
        "print"
    } else if i == 6 {
        "println"
    } else if i == 7 {
        "start_with"
    } else if i == 8 {
        "strval"
    } else if i == 9 {
        "substr"
    } else if i == 10 {
        "trim"
    } else if i == 11 {
        "type"
    } else {
        "typeis"
    }
}

fn arity_at(i: usize) -> (a: i32)
    ensures
        a == builtin_arity(i),
{
    if i == 0 || i == 6 {
        -1
    } else if i == 7 {
        2
    } else if i == 9 {
        3
    } else {
        1
    }
}

/// The registry of builtins.
pub struct Builtins {
    names: Vec<String>,
}

impl Builtins {
    /// The invariant of the registry: it holds the names in order.
    pub closed spec fn wf(&self) -> bool {
        &&& self.names@.len() == BUILTIN_COUNT
        &&& forall|i: int| 0 <= i < BUILTIN_COUNT ==> (#[trigger] self.names@[i])@ == builtin_name(i as usize)
    }

    /// The registry.
    pub fn new() -> (b: Builtins)
        ensures
            b.wf(),
    {
        let mut names: Vec<String> = Vec::new();
        let mut i: usize = 0;
        while i < BUILTIN_COUNT
            invariant
                i <= BUILTIN_COUNT,
                names@.len() == i,
                forall|j: int| 0 <= j < i ==> (#[trigger] names@[j])@ == builtin_name(j as usize),
            decreases BUILTIN_COUNT - i,
        {
            names.push(String::from_str(name_at(i)));
            i += 1;
        }
        Builtins { names }
    }

    /// The place of the builtin named `name`.
    pub fn get_index(&self, name: &str) -> (r: Option<usize>)
        requires
            self.wf(),
        ensures
            r == builtin_index(name@),
            r is Some ==> r.unwrap() < BUILTIN_COUNT,
    {
        let key = String::from_str(name);
        if self.is_at(0, &key) {
            Some(0)
        } else if self.is_at(1, &key) {
            Some(1)
        } else if self.is_at(2, &key) {
            Some(2)
        } else if self.is_at(3, &key) {
            Some(3)
        } else if self.is_at(4, &key) {
            Some(4)
        } else if self.is_at(5, &key) {
            Some(5)
        } else if self.is_at(6, &key) {
            Some(6)
        } else if self.is_at(7, &key) {
            Some(7)
        } else if self.is_at(8, &key) {
            Some(8)
        } else if self.is_at(9, &key) {
            Some(9)
        } else if self.is_at(10, &key) {
            Some(10)
        } else if self.is_at(11, &key) {
            Some(11)
        } else if self.is_at(12, &key) {
            Some(12)
        } else {
            None
        }
    }

    fn is_at(&self, i: usize, key: &String) -> (b: bool)
        requires
            self.wf(),
            i < BUILTIN_COUNT,
        ensures
            b == (builtin_name(i) == key@),
    {
        self.names[i] == *key
    }

    /// The builtin named `name`.
    pub fn get<'p>(&self, name: &str) -> (r: Option<Object<'p>>)
        requires
            self.wf(),
        ensures
            match r {
                Some(o) => Some(o.view()),
                None => None,
            } == builtin_named(name@),
    {
        match self.get_index(name) {
            Some(i) => self.get_by_index(i),
            None => None,
        }
    }

    /// The builtin at `index`.
    pub fn get_by_index<'p>(&self, index: usize) -> (r: Option<Object<'p>>)
        ensures
            match r {
                Some(o) => Some(o.view()),
                None => None,
            } == if index < BUILTIN_COUNT {
                Some(builtin_value(index))
            } else {
                None
            },
    {
        if index < BUILTIN_COUNT {
            Some(Object::Builtin(String::from_str(name_at(index)), arity_at(index), index))
        } else {
            None
        }
    }

    /// The name of the builtin at `index`.
    pub fn get_name(&self, index: usize) -> (r: Option<String>)
        ensures
            match r {
                Some(s) => Some(s@),
                None => None,
            } == if index < BUILTIN_COUNT {
                Some(builtin_name(index))
            } else {
                None
            },
    {
        if index < BUILTIN_COUNT {
            Some(String::from_str(name_at(index)))
        } else {
            None
        }
    }
}

/// The builtins by name, in the order of their names.
pub fn new_builtins<'p>() -> (r: Vec<(String, Object<'p>)>)
    ensures
        r@.len() == BUILTIN_COUNT,
        forall|i: int|
            0 <= i < BUILTIN_COUNT ==> (#[trigger] r@[i]).0@ == builtin_name(i as usize)
                && r@[i].1.view() == builtin_value(i as usize),
{
    let mut r: Vec<(String, Object<'p>)> = Vec::new();
    let mut i: usize = 0;
    while i < BUILTIN_COUNT
        invariant
            i <= BUILTIN_COUNT,
            r@.len() == i,
            forall|j: int|
                0 <= j < i ==> (#[trigger] r@[j]).0@ == builtin_name(j as usize)
                    && r@[j].1.view() == builtin_value(j as usize),
        decreases BUILTIN_COUNT - i,
    {
        r.push(
            (
                String::from_str(name_at(i)),
                Object::Builtin(String::from_str(name_at(i)), arity_at(i), i),
            ),
        );
        i += 1;
    }
    r
}

/// Characters that `trim` strips.
pub open spec fn is_space(c: char) -> bool {
    c == ' ' || c == '\t' || c == '\n' || c == '\r' || c == '\x0b' || c == '\x0c'
}

fn space(c: char) -> (b: bool)
    ensures
        b == is_space(c),
{
    c == ' ' || c == '\t' || c == '\n' || c == '\r' || c == '\x0b' || c == '\x0c'
}

/// The place of the first character of `s` at or after `i` that is not
/// a space.
pub open spec fn trim_start(s: Seq<char>, i: int) -> int
    decreases s.len() - i,
{
    if 0 <= i < s.len() && is_space(s[i]) {
        trim_start(s, i + 1)
    } else {
        i
    }
}

/// The place after the last character of `s` before `j` and not before
/// `from` that is not a space.
pub open spec fn trim_end(s: Seq<char>, j: int, from: int) -> int
    decreases j,
{
    if 0 <= from < j <= s.len() && is_space(s[j - 1]) {
        trim_end(s, j - 1, from)
    } else {
        j
    }
}

/// `s` without the spaces at its start and at its end.
pub open spec fn trimmed(s: Seq<char>) -> Seq<char> {
    let start = trim_start(s, 0);
    if start >= s.len() {
        Seq::empty()
    } else {
        s.subrange(start, trim_end(s, s.len() as int, start))
    }
}

/// `s` without the spaces at its start and at its end.
pub fn trim_string(s: &String) -> (r: String)
    ensures
        r@ == trimmed(s@),
{
    let v = chars_of(s.as_str());
    let mut start: usize = 0;
    while start < v.len() && space(v[start])
        invariant
            start <= v.len(),
            trim_start(v@, 0) == trim_start(v@, start as int),
        decreases v.len() - start,
    {
        start += 1;
    }
    if start >= v.len() {
        return String::new();
    }
    let mut end: usize = v.len();
    while end > start && space(v[end - 1])
        invariant
            start <= end <= v.len(),
            trim_end(v@, v@.len() as int, start as int) == trim_end(v@, end as int, start as int),
        decreases end,
    {
        end -= 1;
    }
    string_of(&v, start, end)
}

/// The value of the decimal digit `c`.
pub open spec fn digit_value(c: char) -> nat {
    (c as u32 - '0' as u32) as nat
}

/// The number that the digits `s[i..]` add to `acc`, if they are all
/// digits.
pub open spec fn digits_from(s: Seq<char>, i: int, acc: nat) -> Option<nat>
    decreases s.len() - i,
{
    if i < 0 || i >= s.len() {
        Some(acc)
    } else if is_digit(s[i]) {
        digits_from(s, i + 1, acc * 10 + digit_value(s[i]))
    } else {
        None
    }
}

/// The index that `s` denotes: decimal digits, with or without a plus
/// sign before them, whose number is an index.
pub open spec fn parsed_index(s: Seq<char>) -> Option<usize> {
    let start: int = if s.len() > 0 && s[0] == '+' {
        1
    } else {
        0
    };
    if start >= s.len() {
        None
    } else {
        match digits_from(s, start, 0) {
            Some(n) => if n <= usize::MAX {
                Some(n as usize)
            } else {
                None
            },
            None => None,
        }
    }
}

proof fn lemma_digits_grow(s: Seq<char>, i: int, acc: nat)
    requires
        0 <= i,
    ensures
        digits_from(s, i, acc) is Some ==> digits_from(s, i, acc).unwrap() >= acc,
    decreases s.len() - i,
{
    if i < s.len() && is_digit(s[i]) {
        lemma_digits_grow(s, i + 1, acc * 10 + digit_value(s[i]));
    }
}

/// The index that `s` denotes.
pub fn parse_index(s: &String) -> (r: Option<usize>)
    ensures
        r == parsed_index(s@),
{
    let v = chars_of(s.as_str());
    let start: usize = if v.len() > 0 && v[0] == '+' {
        1
    } else {
        0
    };
    if start >= v.len() {
        return None;
    }
    let mut acc: usize = 0;
    let mut i: usize = start;
    while i < v.len()
        invariant
            start <= i <= v.len(),
            v@ == s@,
            start < v.len(),
            start as int == if s@.len() > 0 && s@[0] == '+' {
                1int
            } else {
                0int
            },
            digits_from(v@, start as int, 0) == digits_from(v@, i as int, acc as nat),
        decreases v.len() - i,
    {
        let c = v[i];
        if !('0' <= c && c <= '9') {
            return None;
        }
        let d = (c as u32 - '0' as u32) as usize;
        proof {
            lemma_digits_grow(v@, i + 1, acc as nat * 10 + digit_value(c));
        }
        if acc > (usize::MAX - d) / 10 {
            return None;
        }
        acc = acc * 10 + d;
        i += 1;
    }
    Some(acc)
}

/// The name of the kind of a value.
pub open spec fn kind_name(v: Value) -> Seq<char> {
    match v {
        Value::Boolean(_) => "Boolean"@,
        Value::Nil => "Nil"@,
        Value::Number(_) => "Number"@,
        Value::Index(_) => "Index"@,
        Value::String(_) => "String"@,
        Value::Array(_) => "Array"@,
        Value::ReturnValue(_) => "ReturnValue"@,
        Value::Hash(_) => "Hash"@,
        Value::Builtin(_, _, _) => "Builtin"@,
        Value::Function(_, _) => "Function"@,
        Value::Class(_, _) => "Class"@,
        Value::ClassInstance { .. } => "ClassInstance"@,
        Value::CompiledFunction { .. } => "CompiledFunction"@,
        Value::Closure { .. } => "Closure"@,
    }
}

/// The name of the type of a value, as `type` gives it.
pub open spec fn type_word(v: Value) -> Seq<char> {
    match v {
        Value::String(_) => "string"@,
        Value::Number(_) => "number"@,
        Value::Boolean(_) => "boolean"@,
        Value::Nil => "nil"@,
        Value::Array(_) => "array"@,
        Value::Hash(_) => "object"@,
        Value::Index(_) => "number"@,
        Value::Builtin(_, _, _) => "builtin"@,
        Value::Function(_, _) => "function"@,
        Value::ReturnValue(_) => "return_value"@,
        Value::Class(_, _) => "class"@,
        Value::ClassInstance { .. } => "class_instance"@,
        Value::CompiledFunction { .. } => "function"@,
        Value::Closure { .. } => "function"@,
    }
}

fn kind_of(v: &Object) -> (s: &'static str)
    ensures
        s@ == kind_name(v.view()),
{
    match v {
        Object::Boolean(_) => "Boolean",
        Object::Nil => "Nil",
        Object::Number(_) => "Number",
        Object::Index(_) => "Index",
        Object::String(_) => "String",
        Object::Array(_) => "Array",
        Object::ReturnValue(_) => "ReturnValue",
        Object::Hash(_) => "Hash",
        Object::Builtin(_, _, _) => "Builtin",
        Object::Function(_, _) => "Function",
        Object::Class(_, _) => "Class",
        Object::ClassInstance { .. } => "ClassInstance",
        Object::CompiledFunction { .. } => "CompiledFunction",
        Object::Closure { .. } => "Closure",
    }
}

fn type_of(v: &Object) -> (s: &'static str)
    ensures
        s@ == type_word(v.view()),
{
    match v {
        Object::String(_) => "string",
        Object::Number(_) => "number",
        Object::Boolean(_) => "boolean",
        Object::Nil => "nil",
        Object::Array(_) => "array",
        Object::Hash(_) => "object",
        Object::Index(_) => "number",
        Object::Builtin(_, _, _) => "builtin",
        Object::Function(_, _) => "function",
        Object::ReturnValue(_) => "return_value",
        Object::Class(_, _) => "class",
        Object::ClassInstance { .. } => "class_instance",
        Object::CompiledFunction { .. } => "function",
        Object::Closure { .. } => "function",
    }
}

/// A count as a number; nil for a count of 2^53 or more, which no double
/// holds exactly.
pub open spec fn count_value(n: nat) -> Value {
    if n < 0x20_0000_0000_0000 {
        Value::Number(Number::of_count(n as u64))
    } else {
        Value::Nil
    }
}

fn count_object<'p>(n: usize) -> (o: Object<'p>)
    ensures
        o.view() == count_value(n as nat),
{
    if (n as u64) < 0x20_0000_0000_0000 {
        Object::Number(Number::from_count(n as u64))
    } else {
        Object::Nil
    }
}

/// What `len` gives for `v`: the length of a string in bytes, the number
/// of elements of an array or of entries of a hash; nil for any other
/// value.
pub open spec fn length_of(v: Value, heap: HeapModel) -> Value {
    match v {
        Value::String(s) => count_value((vstd::utf8::encode_utf8(s).len() as usize) as nat),
        Value::Array(a) => count_value(a.len()),
        Value::Hash(h) => count_value(heap.hash(h).len()),
        _ => Value::Nil,
    }
}

/// What `intval` gives for `v`: the integer part of a number, the index
/// that a string denotes once trimmed; nil for anything else.
pub open spec fn index_of(v: Value) -> Value {
    match v {
        Value::Number(n) => Value::Index(n.integer_part()),
        Value::String(s) => match parsed_index(trimmed(s)) {
            Some(i) => Value::Index(i),
            None => Value::Nil,
        },
        _ => Value::Nil,
    }
}

/// A position given as a number or as an index.
pub open spec fn position_of(v: Value) -> Option<usize> {
    match v {
        Value::Number(n) => Some(n.integer_part()),
        Value::Index(i) => Some(i),
        _ => None,
    }
}

/// What `substr` gives: the characters of `s` from `start` up to `end`,
/// or to the end of `s` if `end` is zero; nil if either lies past the end
/// of `s`, or `end` before `start`.
pub open spec fn substring_of(s: Seq<char>, start: usize, end: usize) -> Value {
    if start > s.len() || end > s.len() {
        Value::Nil
    } else if end == 0 {
        Value::String(s.subrange(start as int, s.len() as int))
    } else if start > end {
        Value::Nil
    } else {
        Value::String(s.subrange(start as int, end as int))
    }
}

/// What the builtin at `index` gives for the arguments `args`.
pub open spec fn builtin_result(
    index: usize,
    args: Seq<Value>,
    heap: HeapModel,
    format: spec_fn(Number) -> Seq<char>,
) -> Value {
    if index == 0 {
        if args.len() == 0 {
            Value::Nil
        } else if args.len() < 2 {
            args[0]
        } else {
            Value::Array(
                match args[0] {
                    Value::Array(a) => a,
                    _ => Seq::empty(),
                } + args.subrange(1, args.len() as int),
            )
        }
    } else if index == 5 || index == 6 {
        Value::Nil
    } else if index == 7 {
        if args.len() != 2 {
            Value::Nil
        } else {
            match (args[0], args[1]) {
                (Value::String(s), Value::String(p)) => Value::Boolean(p.is_prefix_of(s)),
                _ => Value::Nil,
            }
        }
    } else if index == 9 {
        if args.len() != 3 {
            Value::Nil
        } else {
            match (args[0], position_of(args[1]), position_of(args[2])) {
                (Value::String(s), Some(start), Some(end)) => if (args[1] is Number)
                    == (args[2] is Number) {
                    substring_of(s, start, end)
                } else {
                    Value::Nil
                },
                _ => Value::Nil,
            }
        }
    } else if args.len() != 1 {
        Value::Nil
    } else if index == 1 {
        index_of(args[0])
    } else if index == 2 {
        Value::Boolean(index_of(args[0]) is Index)
    } else if index == 3 {
        match args[0] {
            Value::String(s) => Value::Boolean(s.len() > 0 && (s[0] == '"' || s[0] == '\'')),
            _ => Value::Boolean(false),
        }
    } else if index == 4 {
        length_of(args[0], heap)
    } else if index == 8 {
        Value::String(value_text(args[0], heap, format))
    } else if index == 10 {
        match args[0] {
            Value::String(s) => Value::String(trimmed(s)),
            _ => Value::Nil,
        }
    } else if index == 11 {
        Value::String(type_word(args[0]))
    } else {
        Value::String(kind_name(args[0]))
    }
}

/// `acc` and the printed forms of `args[i..]`, one after the other.
pub open spec fn printed_into(
    acc: Seq<char>,
    args: Seq<Value>,
    i: int,
    heap: HeapModel,
    format: spec_fn(Number) -> Seq<char>,
) -> Seq<char>
    decreases args.len() - i,
{
    if i < 0 || i >= args.len() {
        acc
    } else {
        printed_into(
            value_into(acc, args[i], heap, format, print_budget(heap)),
            args,
            i + 1,
            heap,
            format,
        )
    }
}

/// `acc` and the printed forms of `args[i..]`, with a space between them.
pub open spec fn spaced_into(
    acc: Seq<char>,
    args: Seq<Value>,
    i: int,
    heap: HeapModel,
    format: spec_fn(Number) -> Seq<char>,
) -> Seq<char>
    decreases args.len() - i,
{
    if i < 0 || i >= args.len() {
        acc
    } else {
        spaced_into(
            value_into(
                if i > 0 {
                    acc + " "@
                } else {
                    acc
                },
                args[i],
                heap,
                format,
                print_budget(heap),
            ),
            args,
            i + 1,
            heap,
            format,
        )
    }
}

/// The output after the builtin at `index` has run on `args`: `print`
/// writes its arguments one after the other, `println` writes them with
/// spaces between them and ends the line; no other builtin writes.
pub open spec fn builtin_output(
    acc: Seq<char>,
    index: usize,
    args: Seq<Value>,
    heap: HeapModel,
    format: spec_fn(Number) -> Seq<char>,
) -> Seq<char> {
    if index == 5 {
        printed_into(acc, args, 0, heap, format)
    } else if index == 6 {
        spaced_into(acc, args, 0, heap, format) + "\n"@
    } else {
        acc
    }
}

fn budget_of(heap: &Heap) -> (b: usize)
    ensures
        b == print_budget(heap.view()),
{
    let hashes = heap.hash_count();
    let instances = heap.instance_count();
    if hashes > usize::MAX - instances {
        usize::MAX
    } else {
        hashes + instances
    }
}

fn position<'p>(v: &Object<'p>) -> (r: Option<usize>)
    ensures
        r == position_of(v.view()),
{
    match v {
        Object::Number(n) => Some(n.to_index()),
        Object::Index(i) => Some(*i),
        _ => None,
    }
}

fn is_number_object(v: &Object) -> (b: bool)
    ensures
        b == v.view() is Number,
{
    match v {
        Object::Number(_) => true,
        _ => false,
    }
}

fn substring<'p>(s: &String, start: usize, end: usize) -> (r: Object<'p>)
    ensures
        r.view() == substring_of(s@, start, end),
{
    let n = s.as_str().unicode_len();
    if start > n || end > n {
        Object::Nil
    } else if end == 0 {
        Object::String(String::from_str(s.as_str().substring_char(start, n)))
    } else if start > end {
        Object::Nil
    } else {
        Object::String(String::from_str(s.as_str().substring_char(start, end)))
    }
}

fn starts_with(s: &String, p: &String) -> (b: bool)
    ensures
        b == p@.is_prefix_of(s@),
{
    let sv = chars_of(s.as_str());
    let pv = chars_of(p.as_str());
    if pv.len() > sv.len() {
        return false;
    }
    let mut i: usize = 0;
    while i < pv.len()
        invariant
            i <= pv.len() <= sv.len(),
            sv@ == s@,
            pv@ == p@,
            forall|j: int| 0 <= j < i ==> sv@[j] == pv@[j],
        decreases pv.len() - i,
    {
        if sv[i] != pv[i] {
            assert(sv@.subrange(0, pv@.len() as int)[i as int] != pv@[i as int]);
            return false;
        }
        i += 1;
    }
    assert(pv@ =~= sv@.subrange(0, pv@.len() as int));
    true
}

fn to_index_value<'p>(v: &Object<'p>) -> (r: Object<'p>)
    ensures
        r.view() == index_of(v.view()),
{
    match v {
        Object::Number(n) => Object::Index(n.to_index()),
        Object::String(s) => {
            let t = trim_string(s);
            match parse_index(&t) {
                Some(i) => Object::Index(i),
                None => Object::Nil,
            }
        },
        _ => Object::Nil,
    }
}

fn is_index(v: &Object) -> (b: bool)
    ensures
        b == v.view() is Index,
{
    match v {
        Object::Index(_) => true,
        _ => false,
    }
}

/// Runs the builtin at `index` on `args`: gives its result and appends
/// to `out` what it writes.
pub fn call_builtin<'p, K: Fn(NumberRequest) -> NumberReply>(
    index: usize,
    args: &Vec<Object<'p>>,
    heap: &Heap<'p>,
    out: &mut String,
    numbers: &K,
) -> (r: Object<'p>)
    requires
        lawful(numbers),
    ensures
        r.view() == builtin_result(index, values(args@), heap.view(), model_of(numbers).format),
        final(out)@ == builtin_output(
            old(out)@,
            index,
            values(args@),
            heap.view(),
            model_of(numbers).format,
        ),
{
    proof {
        lemma_values_len(args@);
        if args.len() > 0 {
            lemma_values_index(args@, 0);
        }
        if args.len() > 1 {
            lemma_values_index(args@, 1);
        }
        if args.len() > 2 {
            lemma_values_index(args@, 2);
        }
    }
    if index == 0 {
        return append_all(args);
    }
    if index == 5 {
        print_all(args, heap, out, numbers, false);
        return Object::Nil;
    }
    if index == 6 {
        print_all(args, heap, out, numbers, true);
        out.append("\n");
        return Object::Nil;
    }
    if index == 7 {
        if args.len() != 2 {
            return Object::Nil;
        }
        return match (&args[0], &args[1]) {
            (Object::String(s), Object::String(p)) => Object::Boolean(starts_with(s, p)),
            _ => Object::Nil,
        };
    }
    if index == 9 {
        if args.len() != 3 {
            return Object::Nil;
        }
        return match (&args[0], position(&args[1]), position(&args[2])) {
            (Object::String(s), Some(start), Some(end)) => {
                if is_number_object(&args[1]) == is_number_object(&args[2]) {
                    substring(s, start, end)
                } else {
                    Object::Nil
                }
            },
            _ => Object::Nil,
        };
    }
    if args.len() != 1 {
        return Object::Nil;
    }
    let arg = &args[0];
    if index == 1 {
        to_index_value(arg)
    } else if index == 2 {
        let i = to_index_value(arg);
        Object::Boolean(is_index(&i))
    } else if index == 3 {
        match arg {
            Object::String(s) => {
                let v = chars_of(s.as_str());
                Object::Boolean(v.len() > 0 && (v[0] == '"' || v[0] == '\''))
            },
            _ => Object::Boolean(false),
        }
    } else if index == 4 {
        match arg {
            Object::String(s) => count_object(s.as_str().len()),
            Object::Array(a) => {
                proof {
                    lemma_values_len(a@);
                }
                count_object(a.len())
            },
            Object::Hash(h) => count_object(heap.hash_len(*h)),
            _ => Object::Nil,
        }
    } else if index == 8 {
        let mut s = String::new();
        write_value(&mut s, arg, heap, numbers, budget_of(heap));
        Object::String(s)
    } else if index == 10 {
        match arg {
            Object::String(s) => Object::String(trim_string(s)),
            _ => Object::Nil,
        }
    } else if index == 11 {
        Object::String(String::from_str(type_of(arg)))
    } else {
        Object::String(String::from_str(kind_of(arg)))
    }
}

fn append_all<'p>(args: &Vec<Object<'p>>) -> (r: Object<'p>)
    ensures
        r.view() == builtin_result(
            0,
            values(args@),
            arbitrary(),
            arbitrary(),
        ),
{
    proof {
        lemma_values_len(args@);
        if args.len() > 0 {
            lemma_values_index(args@, 0);
        }
    }
    if args.len() == 0 {
        return Object::Nil;
    }
    if args.len() < 2 {
        return args[0].duplicate();
    }
    let mut all: Vec<Object<'p>> = match &args[0] {
        Object::Array(a) => duplicate_all(a),
        _ => {
            let v: Vec<Object<'p>> = Vec::new();
            v
        },
    };
    let ghost base = values(all@);
    let mut i: usize = 1;
    while i < args.len()
        invariant
            1 <= i <= args.len(),
            values(all@) == base + values(args@).subrange(1, i as int),
            values(args@).len() == args@.len(),
        decreases args.len() - i,
    {
        let o = args[i].duplicate();
        proof {
            crate::objects::lemma_values_push(all@, o);
            lemma_values_index(args@, i as int);
            assert(values(args@).subrange(1, i + 1) =~= values(args@).subrange(1, i as int).push(
                values(args@)[i as int],
            ));
        }
        all.push(o);
        i += 1;
        assert(values(all@) =~= base + values(args@).subrange(1, i as int));
    }
    Object::Array(all)
}

fn print_all<'p, K: Fn(NumberRequest) -> NumberReply>(
    args: &Vec<Object<'p>>,
    heap: &Heap<'p>,
    out: &mut String,
    numbers: &K,
    spaced: bool,
)
    requires
        lawful(numbers),
    ensures
        final(out)@ == if spaced {
            spaced_into(old(out)@, values(args@), 0, heap.view(), model_of(numbers).format)
        } else {
            printed_into(old(out)@, values(args@), 0, heap.view(), model_of(numbers).format)
        },
{
    let budget = budget_of(heap);
    let mut i: usize = 0;
    proof {
        lemma_values_len(args@);
    }
    while i < args.len()
        invariant
            i <= args.len(),
            lawful(numbers),
            budget == print_budget(heap.view()),
            values(args@).len() == args@.len(),
            spaced ==> spaced_into(
                old(out)@,
                values(args@),
                0,
                heap.view(),
                model_of(numbers).format,
            ) == spaced_into(out@, values(args@), i as int, heap.view(), model_of(numbers).format),
            !spaced ==> printed_into(
                old(out)@,
                values(args@),
                0,
                heap.view(),
                model_of(numbers).format,
            ) == printed_into(
                out@,
                values(args@),
                i as int,
                heap.view(),
                model_of(numbers).format,
            ),
        decreases args.len() - i,
    {
        proof {
            lemma_values_index(args@, i as int);
        }
        if spaced && i > 0 {
            out.append(" ");
        }
        write_value(out, &args[i], heap, numbers, budget);
        i += 1;
    }
}

} // verus!
