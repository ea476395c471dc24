//! How values read as text.
use crate::value::{Heap, Value};
use vstd::prelude::*;
use vstd::string::StringExecFns;

verus! {

/// The decimal digit character of `d`.
pub open spec fn digit_char(d: nat) -> char {
    if d == 0 { '0' }
    else if d == 1 { '1' }
    else if d == 2 { '2' }
    else if d == 3 { '3' }
    else if d == 4 { '4' }
    else if d == 5 { '5' }
    else if d == 6 { '6' }
    else if d == 7 { '7' }
    else if d == 8 { '8' }
    else { '9' }
}

/// The decimal digits of `n`, most significant first.
pub open spec fn digits_of(n: nat) -> Seq<char>
    decreases n,
{
    if n < 10 {
        seq![digit_char(n)]
    } else {
        digits_of(n / 10).push(digit_char(n % 10))
    }
}

/// The decimal text of an integer, with a leading `-` when negative.
pub open spec fn int_text(i: int) -> Seq<char> {
    if i < 0 {
        seq!['-'] + digits_of((-i) as nat)
    } else {
        digits_of(i as nat)
    }
}

/// The name of the class that a handle names, or `?`.
pub open spec fn class_name<C>(heap: Heap<C>, c: int) -> Seq<char> {
    if heap.class_ok(c) {
        heap.classes@[c].name@
    } else {
        seq!['?']
    }
}

/// How a value reads: `true`, `-12`, the string itself, `<instance Bird>`,
/// `<Class Bird>`, `<method Bird.sound>`, `nil`. A handle that names no
/// object reads as `?`.
pub open spec fn value_text<C>(heap: Heap<C>, v: Value) -> Seq<char> {
    match v {
        Value::Bool(b) => if b { seq!['t', 'r', 'u', 'e'] } else { seq!['f', 'a', 'l', 's', 'e'] },
        Value::Integer(i) => int_text(i as int),
        Value::String(s) => s@,
        Value::Instance(h) => seq!['<', 'i', 'n', 's', 't', 'a', 'n', 'c', 'e', ' '] + (if 0 <= h
            < heap.instances.len() {
            class_name(heap, heap.instances@[h as int].class as int)
        } else {
            seq!['?']
        }) + seq!['>'],
        Value::Class(c) => seq!['<', 'C', 'l', 'a', 's', 's', ' '] + class_name(heap, c as int) + seq!['>'],
        Value::Method(m) => seq!['<', 'm', 'e', 't', 'h', 'o', 'd', ' '] + (if heap.method_ok(m) {
            let class = heap.classes@[heap.instances@[m.receiver as int].class as int];
            class.name@ + seq!['.'] + class.methods@[m.function as int].name@
        } else {
            seq!['?']
        }) + seq!['>'],
        Value::Nil => seq!['n', 'i', 'l'],
    }
}

/// The one-character text of a decimal digit.
fn digit_str(d: u64) -> (r: &'static str)
    requires
        d < 10,
    ensures
        r@ == seq![digit_char(d as nat)],
{
    proof {
        reveal_strlit("0");
        reveal_strlit("1");
        reveal_strlit("2");
        reveal_strlit("3");
        reveal_strlit("4");
        reveal_strlit("5");
        reveal_strlit("6");
        reveal_strlit("7");
        reveal_strlit("8");
        reveal_strlit("9");
    }
    if d == 0 { "0" }
    else if d == 1 { "1" }
    else if d == 2 { "2" }
    else if d == 3 { "3" }
    else if d == 4 { "4" }
    else if d == 5 { "5" }
    else if d == 6 { "6" }
    else if d == 7 { "7" }
    else if d == 8 { "8" }
    else { "9" }
}

/// Appends the decimal digits of `n` to `out`.
fn push_digits(out: &mut String, n: u64)
    ensures
        final(out)@ == old(out)@ + digits_of(n as nat),
    decreases n,
{
    if n < 10 {
        out.append(digit_str(n));
    } else {
        push_digits(out, n / 10);
        out.append(digit_str(n % 10));
        assert(old(out)@ + digits_of(n as nat) =~= old(out)@ + digits_of((n / 10) as nat) + seq![digit_char((n % 10) as nat)]);
    }
}

/// The decimal text of an integer.
pub fn int_to_text(v: i64) -> (r: String)
    ensures
        r@ == int_text(v as int),
{
    let mut out = String::new();
    if v < 0 {
        proof {
            reveal_strlit("-");
        }
        out.append("-");
        let magnitude: u64 = if v == i64::MIN {
            9223372036854775808u64
        } else {
            (-v) as u64
        };
        push_digits(&mut out, magnitude);
    } else {
        push_digits(&mut out, v as u64);
        assert(out@ =~= int_text(v as int));
    }
    out
}

/// Appends a literal to `out`.
fn push_text(out: &mut String, s: &str)
    ensures
        final(out)@ == old(out)@ + s@,
{
    out.append(s);
}

/// Appends the name of a class to `out`.
fn push_class_name<C>(out: &mut String, heap: &Heap<C>, c: usize)
    ensures
        final(out)@ == old(out)@ + class_name(*heap, c as int),
{
    if c < heap.classes.len() {
        out.append(heap.classes[c].name.as_str());
    } else {
        proof {
            reveal_strlit("?");
        }
        out.append("?");
    }
}

impl Value {
    /// How this value reads (see `value_text`).
    pub fn to_text<C>(&self, heap: &Heap<C>) -> (r: String)
        ensures
            r@ == value_text(*heap, *self),
    {
        proof {
            reveal_strlit("true");
            reveal_strlit("false");
            reveal_strlit("<instance ");
            reveal_strlit("<Class ");
            reveal_strlit("<method ");
            reveal_strlit(">");
            reveal_strlit(".");
            reveal_strlit("?");
            reveal_strlit("nil");
        }
        match self {
            Value::Bool(b) => {
                let mut out = String::new();
                push_text(&mut out, if *b { "true" } else { "false" });
                out
            },
            Value::Integer(i) => int_to_text(*i),
            Value::String(s) => s.clone(),
            Value::Instance(h) => {
                let mut out = String::new();
                push_text(&mut out, "<instance ");
                if *h < heap.instances.len() {
                    push_class_name(&mut out, heap, heap.instances[*h].class);
                } else {
                    push_text(&mut out, "?");
                }
                push_text(&mut out, ">");
                out
            },
            Value::Class(c) => {
                let mut out = String::new();
                push_text(&mut out, "<Class ");
                push_class_name(&mut out, heap, *c);
                push_text(&mut out, ">");
                out
            },
            Value::Method(m) => {
                let mut out = String::new();
                push_text(&mut out, "<method ");
                let mut known = false;
                if m.receiver < heap.instances.len() {
                    let c = heap.instances[m.receiver].class;
                    if c < heap.classes.len() && m.function < heap.classes[c].methods.len() {
                        push_text(&mut out, heap.classes[c].name.as_str());
                        push_text(&mut out, ".");
                        push_text(&mut out, heap.classes[c].methods[m.function].name.as_str());
                        known = true;
                    }
                }
                if !known {
                    push_text(&mut out, "?");
                }
                push_text(&mut out, ">");
                out
            },
            Value::Nil => {
                let mut out = String::new();
                push_text(&mut out, "nil");
                out
            },
        }
    }
}

} // verus!
