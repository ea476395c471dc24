//! The bytecode: fixed-shape instructions with at most one scalar operand.
use crate::ast::BinOp;
use crate::value::Value;
use vstd::prelude::*;

verus! {

/// A scalar embedded in an instruction.
#[derive(Debug, Clone, Copy, PartialEq, Eq, Structural)]
pub enum InstanceValue {
    Bool(bool),
    Integer(i64),
}

impl InstanceValue {
    pub open spec fn spec_value(self) -> Value {
        match self {
            InstanceValue::Bool(b) => Value::Bool(b),
            InstanceValue::Integer(i) => Value::Integer(i),
        }
    }

    pub fn into_value(&self) -> (r: Value)
        ensures
            r == self.spec_value(),
    {
        match *self {
            Self::Bool(b) => Value::Bool(b),
            Self::Integer(i) => Value::Integer(i),
        }
    }
}

/// An instruction of the stack machine. Name operands index the chunk's
/// name table.
#[derive(Debug, Clone, Copy, PartialEq, Eq, Structural)]
pub enum Instruction {
    /// Push a scalar.
    Push { value: InstanceValue },
    /// Pop a value and discard it.
    Pop,
    /// Construct an empty class with the name at `index` and push it.
    Class { index: usize },
    /// Pop a value and call it: a class is instantiated, a bound method is
    /// invoked with no arguments; the result is pushed.
    Call,
    /// Push `nil`.
    LoadNil,
    /// Pop an instance and push the method named at `index`, bound to it.
    GetProperty { index: usize },
    /// Pop a value into the global named at `index`.
    DefineGlobal { index: usize },
    /// Store the top value into the existing global named at `index`,
    /// leaving it on the stack.
    SetGlobal { index: usize },
    /// Push the value of the global named at `index`.
    GetGlobal { index: usize },
    /// Pop the right and then the left operand, push `left op right`.
    Binary { op: BinOp },
    /// Stop.
    Halt,
}

impl Instruction {
    pub fn integer(v: i64) -> (r: Self)
        ensures
            r == (Instruction::Push { value: InstanceValue::Integer(v) }),
    {
        Self::Push { value: InstanceValue::Integer(v) }
    }
}

/// How many values an instruction pops.
pub open spec fn pops(i: Instruction) -> nat {
    match i {
        Instruction::Pop | Instruction::Call | Instruction::GetProperty { .. } | Instruction::DefineGlobal {
            ..
        } | Instruction::SetGlobal { .. } => 1,
        Instruction::Binary { .. } => 2,
        _ => 0,
    }
}

/// How many values an instruction pushes.
pub open spec fn pushes(i: Instruction) -> nat {
    match i {
        Instruction::Push { .. } | Instruction::Class { .. } | Instruction::Call | Instruction::LoadNil
        | Instruction::GetProperty { .. } | Instruction::SetGlobal { .. } | Instruction::GetGlobal { .. }
        | Instruction::Binary { .. } => 1,
        _ => 0,
    }
}

/// The stack depth after running `code` from depth `d`.
pub open spec fn depth_after(code: Seq<Instruction>, d: int) -> int
    decreases code.len(),
{
    if code.len() == 0 {
        d
    } else {
        depth_after(code.drop_first(), d - pops(code[0]) + pushes(code[0]))
    }
}

/// Whether `code`, run from depth `d`, never pops more than the stack
/// holds.
pub open spec fn stack_safe(code: Seq<Instruction>, d: int) -> bool
    decreases code.len(),
{
    code.len() == 0 || (pops(code[0]) <= d && stack_safe(code.drop_first(), d - pops(code[0]) + pushes(code[0])))
}

/// Whether `code` holds no instruction that writes a global.
pub open spec fn writes_no_global(code: Seq<Instruction>) -> bool {
    forall|k: int| 0 <= k < code.len() ==> !(#[trigger] code[k] is DefineGlobal) && !(code[k] is SetGlobal)
}

pub proof fn lemma_writes_no_global_concat(a: Seq<Instruction>, b: Seq<Instruction>)
    requires
        writes_no_global(a),
        writes_no_global(b),
    ensures
        writes_no_global(a + b),
{
    assert forall|k: int| 0 <= k < (a + b).len() implies !(#[trigger] (a + b)[k] is DefineGlobal) && !((a + b)[k] is SetGlobal) by {
        if k >= a.len() {
            assert((a + b)[k] == b[k - a.len()]);
        } else {
            assert((a + b)[k] == a[k]);
        }
    }
}

/// The name index that an instruction reads, if any.
pub open spec fn name_operand(i: Instruction) -> Option<usize> {
    match i {
        Instruction::Class { index } | Instruction::GetProperty { index } | Instruction::DefineGlobal { index }
        | Instruction::SetGlobal { index } | Instruction::GetGlobal { index } => Some(index),
        _ => None,
    }
}

/// Whether every name index in `code` is below `n`.
pub open spec fn names_in_bounds(code: Seq<Instruction>, n: int) -> bool {
    forall|k: int| 0 <= k < code.len() ==> match name_operand(#[trigger] code[k]) {
        Some(index) => index < n,
        None => true,
    }
}

pub proof fn lemma_names_in_bounds_concat(a: Seq<Instruction>, b: Seq<Instruction>, n: int, m: int)
    requires
        names_in_bounds(a, n),
        names_in_bounds(b, m),
        n <= m,
    ensures
        names_in_bounds(a + b, m),
{
    assert forall|k: int| 0 <= k < (a + b).len() implies match name_operand(#[trigger] (a + b)[k]) {
        Some(index) => index < m,
        None => true,
    } by {
        if k >= a.len() {
            assert((a + b)[k] == b[k - a.len()]);
        } else {
            assert((a + b)[k] == a[k]);
        }
    }
}

/// Running a single instruction.
pub proof fn lemma_single_stack(i: Instruction, d: int)
    ensures
        stack_safe(seq![i], d) == (pops(i) <= d),
        depth_after(seq![i], d) == d - pops(i) + pushes(i),
{
    let one = seq![i];
    assert(one.drop_first() =~= Seq::<Instruction>::empty());
    assert(one[0] == i);
    assert(depth_after(one.drop_first(), d - pops(i) + pushes(i)) == d - pops(i) + pushes(i));
    assert(stack_safe(one.drop_first(), d - pops(i) + pushes(i)));
}

/// Running two pieces of code one after the other.
pub proof fn lemma_concat_stack(a: Seq<Instruction>, b: Seq<Instruction>, d: int)
    ensures
        depth_after(a + b, d) == depth_after(b, depth_after(a, d)),
        stack_safe(a, d) && stack_safe(b, depth_after(a, d)) ==> stack_safe(a + b, d),
    decreases a.len(),
{
    if a.len() > 0 {
        assert((a + b).drop_first() =~= a.drop_first() + b);
        lemma_concat_stack(a.drop_first(), b, d - pops(a[0]) + pushes(a[0]));
    } else {
        assert(a + b =~= b);
    }
}

/// Code that runs from any depth at least `d0` as it does from `d0`.
pub proof fn lemma_stack_shift(code: Seq<Instruction>, d: int, k: int)
    requires
        k >= 0,
    ensures
        depth_after(code, d + k) == depth_after(code, d) + k,
        stack_safe(code, d) ==> stack_safe(code, d + k),
    decreases code.len(),
{
    if code.len() > 0 {
        lemma_stack_shift(code.drop_first(), d - pops(code[0]) + pushes(code[0]), k);
    }
}

} // verus!
