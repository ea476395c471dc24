//! The stack-based virtual machine.
use crate::ast::{BinOp, StmtV};
use crate::chunk::Chunk;
use crate::compiler::{
    compile_stmts, expression_statements, halt_free, lemma_expression_statements_write_no_global, lemma_program_balanced,
    lemma_program_names_in_bounds,
};
use crate::instruction::{
    lemma_concat_stack, name_operand, names_in_bounds, pops, pushes, stack_safe, writes_no_global, Instruction,
};
use crate::scope::State;
use crate::value::{Callable, Heap, Value};
use vstd::prelude::*;

verus! {

/// A runtime error returned by the VM.
#[derive(Debug, PartialEq, Clone)]
pub enum VmError {
    /// An instruction needed more operands than the stack held.
    StackUnderflow,
    /// A global that was read or assigned is not defined.
    NameError(String),
    /// A property was read from a value that is not an instance.
    TypeError,
    /// A class has no method of the name.
    NoSuchMethod(String),
    /// A value that is neither a class nor a bound method was called.
    NotCallable,
    /// An arithmetic operand is not an integer.
    OperandError,
    /// Integer overflow, or division by zero.
    ArithmeticError,
    /// A handle does not name an object of the heap.
    InvalidHandle,
    /// An instruction's name index lies outside the chunk's name table, or
    /// the code ran off its end without a `Halt`.
    BadChunk,
    /// The heap holds as many objects as an index can address.
    OutOfMemory,
}

/// The operand stack.
#[derive(Debug, Default)]
pub struct Stack {
    stack: Vec<Value>,
}

impl Stack {
    pub closed spec fn view(&self) -> Seq<Value> {
        self.stack@
    }

    pub fn new() -> (r: Self)
        ensures
            r@.len() == 0,
    {
        Stack { stack: Vec::new() }
    }

    /// Pop a value off the stack and return it.
    pub fn pop(&mut self) -> (r: Result<Value, VmError>)
        ensures
            old(self)@.len() == 0 ==> r == Err::<Value, VmError>(VmError::StackUnderflow) && final(self)@ == old(self)@,
            old(self)@.len() > 0 ==> r == Ok::<Value, VmError>(old(self)@.last()) && final(self)@ == old(self)@.drop_last(),
    {
        match self.stack.pop() {
            Some(v) => Ok(v),
            None => Err(VmError::StackUnderflow),
        }
    }

    /// Push a value onto the stack.
    pub fn push(&mut self, value: Value)
        ensures
            final(self)@ == old(self)@.push(value),
    {
        self.stack.push(value);
    }

    /// The number of values on the stack.
    pub fn len(&self) -> (r: usize)
        ensures
            r == self@.len(),
    {
        self.stack.len()
    }

    /// Reset the stack.
    pub fn clear(&mut self)
        ensures
            final(self)@.len() == 0,
    {
        self.stack.clear();
    }
}

/// The integer result of `a op b`; `None` on overflow, on division by zero,
/// and for `!`, which is no arithmetic operator.
pub open spec fn arith(op: BinOp, a: i64, b: i64) -> Option<i64> {
    match op {
        BinOp::Add => a.checked_add(b),
        BinOp::Sub => a.checked_sub(b),
        BinOp::Mul => a.checked_mul(b),
        BinOp::Div => a.checked_div(b),
        BinOp::Rem => a.checked_rem(b),
        BinOp::Bang => None,
    }
}

fn arith_exec(op: BinOp, a: i64, b: i64) -> (r: Option<i64>)
    ensures
        r == arith(op, a, b),
{
    match op {
        BinOp::Add => a.checked_add(b),
        BinOp::Sub => a.checked_sub(b),
        BinOp::Mul => a.checked_mul(b),
        BinOp::Div => a.checked_div(b),
        BinOp::Rem => a.checked_rem(b),
        BinOp::Bang => None,
    }
}

/// The Thrush stack-based virtual machine. The global table and the heap
/// persist across executions; the stack and the instruction pointer are
/// reset after each.
pub struct Vm<C> {
    /// The operand stack.
    pub stack: Stack,
    /// The global table.
    pub state: State,
    /// Every class and instance of the session.
    pub heap: Heap<C>,
    /// The chunk being executed.
    pub chunk: Chunk,
    /// The index of the next instruction.
    pub ip: usize,
}

impl<C: Callable> Vm<C> {
    pub open spec fn operands(&self) -> Seq<Value> {
        self.stack@
    }

    pub open spec fn code(&self) -> Seq<Instruction> {
        self.chunk.instructions@
    }

    pub open spec fn names(&self) -> Seq<Seq<char>> {
        self.chunk.names()
    }

    pub open spec fn pc(&self) -> nat {
        self.ip as nat
    }

    pub fn new() -> (r: Self)
        ensures
            r.operands().len() == 0,
            r.state@ == Map::<Seq<char>, Value>::empty(),
            r.heap.classes.len() == 0,
            r.heap.instances.len() == 0,
            r.code().len() == 0,
            r.names().len() == 0,
            r.pc() == 0,
    {
        Vm { state: State::new(), heap: Heap::new(), stack: Stack::new(), chunk: Chunk::new(), ip: 0 }
    }

    /// Creates an empty class and binds it to the global of its name.
    pub fn add_class(&mut self, name: &str) -> (r: Result<usize, VmError>)
        ensures
            old(self).heap.classes.len() == usize::MAX ==> r == Err::<usize, VmError>(VmError::OutOfMemory)
                && final(self).heap == old(self).heap && final(self).state == old(self).state,
            old(self).heap.classes.len() < usize::MAX ==> {
                &&& r == Ok::<usize, VmError>(old(self).heap.classes.len())
                &&& final(self).heap.classes@.drop_last() == old(self).heap.classes@
                &&& final(self).heap.classes@.last().name@ == name@
                &&& final(self).heap.classes@.last().methods.len() == 0
                &&& final(self).heap.instances == old(self).heap.instances
                &&& final(self).state@ == old(self).state@.insert(name@, Value::Class(old(self).heap.classes.len()))
            },
            final(self).operands() == old(self).operands(),
            final(self).code() == old(self).code(),
            final(self).names() == old(self).names(),
            final(self).pc() == old(self).pc(),
    {
        if self.heap.classes.len() == usize::MAX {
            return Err(VmError::OutOfMemory);
        }
        let c = self.heap.add_class(name);
        self.state.define(name, Value::Class(c));
        Ok(c)
    }

    /// Reset the stack and the instruction pointer.
    pub fn reset(&mut self)
        ensures
            final(self).operands().len() == 0,
            final(self).pc() == 0,
            final(self).state == old(self).state,
            final(self).heap == old(self).heap,
            final(self).code() == old(self).code(),
            final(self).names() == old(self).names(),
    {
        self.stack.clear();
        self.ip = 0;
    }

    /// Fetch the next instruction and advance past it.
    pub fn get_next_inst(&mut self) -> (r: Result<Instruction, VmError>)
        ensures
            final(self).operands() == old(self).operands(),
            final(self).state == old(self).state,
            final(self).heap == old(self).heap,
            final(self).code() == old(self).code(),
            final(self).names() == old(self).names(),
            old(self).pc() < old(self).code().len() ==> r == Ok::<Instruction, VmError>(old(self).code()[old(self).pc() as int])
                && final(self).pc() == old(self).pc() + 1,
            old(self).pc() >= old(self).code().len() ==> r == Err::<Instruction, VmError>(VmError::BadChunk)
                && final(self).pc() == old(self).pc(),
    {
        if self.ip >= self.chunk.instructions.len() {
            return Err(VmError::BadChunk);
        }
        let inst = self.chunk.instructions[self.ip];
        self.ip = self.ip + 1;
        Ok(inst)
    }

    /// Whether two VM states have the same globals and heap.
    pub open spec fn same_objects(self, t: Self) -> bool {
        t.state@ == self.state@ && t.heap == self.heap
    }

    /// What `GetProperty { index }` does: pop an instance and push the
    /// method that the name at `index` resolves to, bound to it.
    pub open spec fn get_property_post(self, t: Self, index: usize, r: Result<bool, VmError>) -> bool {
        let st = self.operands();
        let names = self.names();
        self.same_objects(t) && if index >= names.len() {
            r == Err::<bool, VmError>(VmError::BadChunk) && t.operands() == st
        } else if st.len() == 0 {
            r == Err::<bool, VmError>(VmError::StackUnderflow) && t.operands() == st
        } else {
            match st.last() {
                Value::Instance(h) => match r {
                    Ok(halted) => !halted && t.operands().len() == st.len() && t.operands().drop_last()
                        == st.drop_last() && t.operands().last() is Method && self.heap.bind_post(
                        h,
                        names[index as int],
                        Ok(t.operands().last()->Method_0),
                    ),
                    Err(e) => t.operands() == st.drop_last() && self.heap.bind_post(h, names[index as int], Err(e)),
                },
                _ => r == Err::<bool, VmError>(VmError::TypeError) && t.operands() == st.drop_last(),
            }
        }
    }

    /// What `Call` does: pop a value; a class is instantiated and the
    /// instance pushed, a bound method is invoked with no arguments and its
    /// result pushed.
    pub open spec fn call_value_post(self, t: Self, r: Result<bool, VmError>) -> bool {
        let st = self.operands();
        t.state@ == self.state@ && if st.len() == 0 {
            r == Err::<bool, VmError>(VmError::StackUnderflow) && t.operands() == st && t.heap == self.heap
        } else {
            match st.last() {
                Value::Class(c) => match r {
                    Ok(halted) => !halted && t.operands().len() == st.len() && t.operands().drop_last()
                        == st.drop_last() && t.operands().last() is Instance && self.heap.instance_post(
                        t.heap,
                        c,
                        Ok(t.operands().last()->Instance_0),
                    ),
                    Err(e) => t.operands() == st.drop_last() && self.heap.instance_post(t.heap, c, Err(e)),
                },
                Value::Method(m) => match r {
                    Ok(halted) => !halted && t.operands().len() == st.len() && t.operands().drop_last()
                        == st.drop_last() && self.heap.call_post(t.heap, m, seq![], Ok(t.operands().last())),
                    Err(e) => t.operands() == st.drop_last() && self.heap.call_post(t.heap, m, seq![], Err(e)),
                },
                _ => r == Err::<bool, VmError>(VmError::NotCallable) && t.operands() == st.drop_last()
                    && t.heap == self.heap,
            }
        }
    }

    /// What `Binary { op }` does: pop the right and the left operand and
    /// push the integer result.
    pub open spec fn binary_post(self, t: Self, op: BinOp, r: Result<bool, VmError>) -> bool {
        let st = self.operands();
        self.same_objects(t) && if st.len() < 2 {
            r == Err::<bool, VmError>(VmError::StackUnderflow) && t.operands() == st
        } else {
            let rest = st.drop_last().drop_last();
            match (st[st.len() - 2], st.last()) {
                (Value::Integer(a), Value::Integer(b)) => match arith(op, a, b) {
                    Some(v) => r == Ok::<bool, VmError>(false) && t.operands() == rest.push(Value::Integer(v)),
                    None => r == Err::<bool, VmError>(VmError::ArithmeticError) && t.operands() == rest,
                },
                _ => r == Err::<bool, VmError>(VmError::OperandError) && t.operands() == rest,
            }
        }
    }

    /// What executing one instruction does, from state `self` to state `t`
    /// with result `r` (`Ok(true)` once halted). The instruction pointer
    /// moves past the instruction whatever happens; an error leaves the
    /// operands as the instruction had popped them so far.
    pub open spec fn step_post(self, t: Self, r: Result<bool, VmError>) -> bool {
        let st = self.operands();
        let names = self.names();
        if self.pc() >= self.code().len() {
            &&& r == Err::<bool, VmError>(VmError::BadChunk)
            &&& t.operands() == st
            &&& self.same_objects(t)
            &&& t.code() == self.code()
            &&& t.names() == names
            &&& t.pc() == self.pc()
        } else {
            &&& t.code() == self.code()
            &&& t.names() == names
            &&& t.pc() == self.pc() + 1
            &&& match self.code()[self.pc() as int] {
                Instruction::Halt => r == Ok::<bool, VmError>(true) && t.operands() == st && self.same_objects(t),
                Instruction::Push { value } => r == Ok::<bool, VmError>(false) && t.operands() == st.push(
                    value.spec_value(),
                ) && self.same_objects(t),
                Instruction::LoadNil => r == Ok::<bool, VmError>(false) && t.operands() == st.push(Value::Nil)
                    && self.same_objects(t),
                Instruction::Pop => self.same_objects(t) && if st.len() == 0 {
                    r == Err::<bool, VmError>(VmError::StackUnderflow) && t.operands() == st
                } else {
                    r == Ok::<bool, VmError>(false) && t.operands() == st.drop_last()
                },
                Instruction::GetGlobal { index } => self.same_objects(t) && if index >= names.len() {
                    r == Err::<bool, VmError>(VmError::BadChunk) && t.operands() == st
                } else if self.state@.contains_key(names[index as int]) {
                    r == Ok::<bool, VmError>(false) && t.operands() == st.push(self.state@[names[index as int]])
                } else {
                    r is Err && r->Err_0 is NameError && r->Err_0->NameError_0@ == names[index as int]
                        && t.operands() == st
                },
                Instruction::DefineGlobal { index } => t.heap == self.heap && if index >= names.len() {
                    r == Err::<bool, VmError>(VmError::BadChunk) && t.operands() == st && t.state@ == self.state@
                } else if st.len() == 0 {
                    r == Err::<bool, VmError>(VmError::StackUnderflow) && t.operands() == st && t.state@
                        == self.state@
                } else {
                    r == Ok::<bool, VmError>(false) && t.operands() == st.drop_last() && t.state@
                        == self.state@.insert(names[index as int], st.last())
                },
                Instruction::SetGlobal { index } => t.heap == self.heap && t.operands() == st && if index
                    >= names.len() {
                    r == Err::<bool, VmError>(VmError::BadChunk) && t.state@ == self.state@
                } else if st.len() == 0 {
                    r == Err::<bool, VmError>(VmError::StackUnderflow) && t.state@ == self.state@
                } else if !self.state@.contains_key(names[index as int]) {
                    r is Err && r->Err_0 is NameError && r->Err_0->NameError_0@ == names[index as int]
                        && t.state@ == self.state@
                } else {
                    r == Ok::<bool, VmError>(false) && t.state@ == self.state@.insert(names[index as int], st.last())
                },
                Instruction::Class { index } => t.state@ == self.state@ && if index >= names.len() {
                    r == Err::<bool, VmError>(VmError::BadChunk) && t.operands() == st && t.heap == self.heap
                } else if self.heap.classes.len() == usize::MAX {
                    r == Err::<bool, VmError>(VmError::OutOfMemory) && t.operands() == st && t.heap == self.heap
                } else {
                    &&& r == Ok::<bool, VmError>(false)
                    &&& t.operands() == st.push(Value::Class(self.heap.classes.len()))
                    &&& t.heap.instances == self.heap.instances
                    &&& t.heap.classes@.drop_last() == self.heap.classes@
                    &&& t.heap.classes.len() == self.heap.classes.len() + 1
                    &&& t.heap.classes@.last().name@ == names[index as int]
                    &&& t.heap.classes@.last().methods.len() == 0
                },
                Instruction::GetProperty { index } => self.get_property_post(t, index, r),
                Instruction::Call => self.call_value_post(t, r),
                Instruction::Binary { op } => self.binary_post(t, op, r),
            }
        }
    }

    /// Executes one instruction (see `step_post`); `Ok(true)` once halted.
    pub fn step(&mut self) -> (r: Result<bool, VmError>)
        ensures
            old(self).step_post(*final(self), r),
    {
        let inst = match self.get_next_inst() {
            Ok(i) => i,
            Err(e) => return Err(e),
        };
        match inst {
            Instruction::Halt => Ok(true),
            Instruction::Push { value } => {
                self.stack.push(value.into_value());
                Ok(false)
            },
            Instruction::LoadNil => {
                self.stack.push(Value::Nil);
                Ok(false)
            },
            Instruction::Pop => match self.stack.pop() {
                Ok(_) => Ok(false),
                Err(e) => Err(e),
            },
            Instruction::GetGlobal { index } => {
                if index >= self.chunk.variables.len() {
                    return Err(VmError::BadChunk);
                }
                let name = self.chunk.variables[index].as_str();
                match self.state.lookup(name) {
                    Some(v) => {
                        self.stack.push(v);
                        Ok(false)
                    },
                    None => Err(VmError::NameError(name.to_owned())),
                }
            },
            Instruction::DefineGlobal { index } => {
                if index >= self.chunk.variables.len() {
                    return Err(VmError::BadChunk);
                }
                let v = match self.stack.pop() {
                    Ok(v) => v,
                    Err(e) => return Err(e),
                };
                let name = self.chunk.variables[index].as_str();
                self.state.define(name, v);
                Ok(false)
            },
            Instruction::SetGlobal { index } => {
                if index >= self.chunk.variables.len() {
                    return Err(VmError::BadChunk);
                }
                let v = match self.stack.pop() {
                    Ok(v) => v,
                    Err(e) => return Err(e),
                };
                let name = self.chunk.variables[index].as_str();
                let copy = v.duplicate();
                self.stack.push(v);
                assert(self.stack@ =~= old(self).stack@);
                if self.state.lookup(name).is_none() {
                    return Err(VmError::NameError(name.to_owned()));
                }
                self.state.define(name, copy);
                Ok(false)
            },
            Instruction::Class { index } => {
                if index >= self.chunk.variables.len() {
                    return Err(VmError::BadChunk);
                }
                if self.heap.classes.len() == usize::MAX {
                    return Err(VmError::OutOfMemory);
                }
                let name = self.chunk.variables[index].as_str();
                let c = self.heap.add_class(name);
                self.stack.push(Value::Class(c));
                Ok(false)
            },
            Instruction::GetProperty { index } => {
                let r = self.op_get_prop(index);
                assert(old(self).get_property_post(*self, index, r));
                r
            },
            Instruction::Call => {
                let r = self.op_call();
                assert(old(self).call_value_post(*self, r));
                r
            },
            Instruction::Binary { op } => {
                let r = self.op_binary(op);
                assert(old(self).binary_post(*self, op, r));
                r
            },
        }
    }

    fn op_get_prop(&mut self, index: usize) -> (r: Result<bool, VmError>)
        ensures
            final(self).code() == old(self).code(),
            final(self).names() == old(self).names(),
            final(self).pc() == old(self).pc(),
            old(self).get_property_post(*final(self), index, r),
    {
        if index >= self.chunk.variables.len() {
            return Err(VmError::BadChunk);
        }
        let v = match self.stack.pop() {
            Ok(v) => v,
            Err(e) => return Err(e),
        };
        match v {
            Value::Instance(h) => {
                let name = self.chunk.variables[index].as_str();
                match self.heap.bind(h, name) {
                    Ok(m) => {
                        self.stack.push(Value::Method(m));
                        assert(self.stack@.drop_last() =~= old(self).stack@.drop_last());
                        Ok(false)
                    },
                    Err(e) => Err(e),
                }
            },
            _ => Err(VmError::TypeError),
        }
    }

    fn op_call(&mut self) -> (r: Result<bool, VmError>)
        ensures
            final(self).code() == old(self).code(),
            final(self).names() == old(self).names(),
            final(self).pc() == old(self).pc(),
            old(self).call_value_post(*final(self), r),
    {
        let v = match self.stack.pop() {
            Ok(v) => v,
            Err(e) => return Err(e),
        };
        match v {
            Value::Class(c) => match self.heap.instance(c) {
                Ok(h) => {
                    self.stack.push(Value::Instance(h));
                    assert(self.stack@.drop_last() =~= old(self).stack@.drop_last());
                    Ok(false)
                },
                Err(e) => Err(e),
            },
            Value::Method(m) => match self.heap.call(m, Vec::new()) {
                Ok(result) => {
                    self.stack.push(result);
                    assert(self.stack@.drop_last() =~= old(self).stack@.drop_last());
                    Ok(false)
                },
                Err(e) => Err(e),
            },
            _ => Err(VmError::NotCallable),
        }
    }

    fn op_binary(&mut self, op: BinOp) -> (r: Result<bool, VmError>)
        ensures
            final(self).code() == old(self).code(),
            final(self).names() == old(self).names(),
            final(self).pc() == old(self).pc(),
            old(self).binary_post(*final(self), op, r),
    {
        if self.stack.len() < 2 {
            return Err(VmError::StackUnderflow);
        }
        let right = match self.stack.pop() {
            Ok(v) => v,
            Err(e) => return Err(e),
        };
        let left = match self.stack.pop() {
            Ok(v) => v,
            Err(e) => return Err(e),
        };
        match (left, right) {
            (Value::Integer(a), Value::Integer(b)) => match arith_exec(op, a, b) {
                Some(v) => {
                    self.stack.push(Value::Integer(v));
                    Ok(false)
                },
                None => Err(VmError::ArithmeticError),
            },
            _ => Err(VmError::OperandError),
        }
    }

    /// `trace` is a run from `self`: each state steps to the next without
    /// halting, and the last steps to `t` with the run's outcome.
    pub open spec fn is_trace(self, t: Self, r: Result<(), VmError>, trace: Seq<Self>) -> bool {
        &&& trace.len() > 0
        &&& trace[0] == self
        &&& forall|i: int| 0 <= i < trace.len() - 1 ==> #[trigger] trace[i].step_post(trace[i + 1], Ok(false))
        &&& trace.last().step_post(
            t,
            match r {
                Ok(_) => Ok(true),
                Err(e) => Err(e),
            },
        )
    }

    /// What running does: instructions are executed one after another until
    /// a `Halt` (`Ok`) or the first error.
    pub open spec fn run_post(self, t: Self, r: Result<(), VmError>) -> bool {
        exists|trace: Seq<Self>| self.is_trace(t, r, trace)
    }

    /// Runs from the current instruction until a `Halt` or an error.
    pub fn run(&mut self) -> (r: Result<(), VmError>)
        ensures
            old(self).run_post(*final(self), r),
    {
        let ghost trace: Seq<Self> = seq![*self];
        loop
            invariant
                trace.len() > 0,
                trace[0] == *old(self),
                trace.last() == *self,
                forall|i: int| 0 <= i < trace.len() - 1 ==> #[trigger] trace[i].step_post(trace[i + 1], Ok(false)),
                self.code() == old(self).code(),
            decreases self.code().len() - self.pc(),
        {
            let ghost before = *self;
            match self.step() {
                Ok(true) => {
                    assert(old(self).is_trace(*self, Ok(()), trace));
                    return Ok(());
                },
                Ok(false) => {
                    proof {
                        let t2 = trace.push(*self);
                        assert forall|i: int| 0 <= i < t2.len() - 1 implies #[trigger] t2[i].step_post(t2[i + 1], Ok(false)) by {
                            if i < trace.len() - 1 {
                                assert(t2[i] == trace[i] && t2[i + 1] == trace[i + 1]);
                            }
                        }
                        trace = t2;
                    }
                },
                Err(e) => {
                    assert(old(self).is_trace(*self, Err(e), trace));
                    return Err(e);
                },
            }
        }
    }

    /// Executes a chunk from its first instruction.
    pub fn execute(&mut self, chunk: Chunk) -> (r: Result<(), VmError>)
        ensures
            (Vm { stack: old(self).stack, state: old(self).state, heap: old(self).heap, chunk, ip: 0 }).run_post(
                *final(self),
                r,
            ),
    {
        self.chunk = chunk;
        self.ip = 0;
        self.run()
    }
}

/// Reading an undefined global fails with a name error that carries the
/// name, and changes neither the globals nor the heap.
pub proof fn lemma_undefined_global<C: Callable>(s: Vm<C>, t: Vm<C>, r: Result<bool, VmError>, index: usize)
    requires
        s.pc() < s.code().len(),
        s.code()[s.pc() as int] == (Instruction::GetGlobal { index }),
        index < s.names().len(),
        !s.state@.contains_key(s.names()[index as int]),
        s.step_post(t, r),
    ensures
        r is Err,
        r->Err_0 is NameError,
        r->Err_0->NameError_0@ == s.names()[index as int],
        t.state@ == s.state@,
        t.heap == s.heap,
{
}

/// Reading a property of a value that is not an instance fails with a type
/// error, and changes neither the globals nor the heap.
pub proof fn lemma_property_of_non_instance<C: Callable>(s: Vm<C>, t: Vm<C>, r: Result<bool, VmError>, index: usize)
    requires
        s.pc() < s.code().len(),
        s.code()[s.pc() as int] == (Instruction::GetProperty { index }),
        index < s.names().len(),
        s.operands().len() > 0,
        !(s.operands().last() is Instance),
        s.step_post(t, r),
    ensures
        r == Err::<bool, VmError>(VmError::TypeError),
        t.state@ == s.state@,
        t.heap == s.heap,
{
}

/// A step of code that writes no global leaves the globals unchanged.
proof fn lemma_step_keeps_globals<C: Callable>(s: Vm<C>, t: Vm<C>, r: Result<bool, VmError>)
    requires
        s.step_post(t, r),
        writes_no_global(s.code()),
    ensures
        t.state@ == s.state@,
        t.code() == s.code(),
{
    if s.pc() < s.code().len() {
        let k = s.pc() as int;
        assert(!(s.code()[k] is DefineGlobal) && !(s.code()[k] is SetGlobal));
    }
}

proof fn lemma_trace_keeps_globals<C: Callable>(s: Vm<C>, t: Vm<C>, r: Result<(), VmError>, trace: Seq<Vm<C>>, i: int)
    requires
        s.is_trace(t, r, trace),
        0 <= i < trace.len(),
        writes_no_global(s.code()),
    ensures
        trace[i].state@ == s.state@,
        trace[i].code() == s.code(),
    decreases i,
{
    if i > 0 {
        lemma_trace_keeps_globals(s, t, r, trace, i - 1);
        let j = i - 1;
        assert(trace[j].step_post(trace[j + 1], Ok(false)));
        lemma_step_keeps_globals(trace[j], trace[j + 1], Ok(false));
    }
}

/// A run of code that writes no global leaves the globals unchanged.
pub proof fn lemma_run_keeps_globals<C: Callable>(s: Vm<C>, t: Vm<C>, r: Result<(), VmError>)
    requires
        s.run_post(t, r),
        writes_no_global(s.code()),
    ensures
        t.state@ == s.state@,
{
    let trace = choose|trace: Seq<Vm<C>>| s.is_trace(t, r, trace);
    lemma_trace_keeps_globals(s, t, r, trace, trace.len() - 1);
    lemma_step_keeps_globals(
        trace.last(),
        t,
        match r {
            Ok(_) => Ok(true),
            Err(e) => Err(e),
        },
    );
}

/// Running a chunk compiled from expression statements alone leaves the
/// global table as it was: the value of an expression statement is always
/// discarded, whatever the run's outcome.
pub proof fn lemma_expression_statements_keep_globals<C: Callable>(
    ss: Seq<StmtV>,
    names: Seq<Seq<char>>,
    s: Vm<C>,
    t: Vm<C>,
    r: Result<(), VmError>,
)
    requires
        expression_statements(ss),
        compile_stmts(ss, names) is Some,
        s.code() == compile_stmts(ss, names)->Some_0.0 + seq![Instruction::Halt],
        s.run_post(t, r),
    ensures
        t.state@ == s.state@,
{
    lemma_expression_statements_write_no_global(ss, names);
    lemma_run_keeps_globals(s, t, r);
}

/// The code from instruction `pc` on.
pub open spec fn code_from(code: Seq<Instruction>, pc: int) -> Seq<Instruction> {
    code.subrange(pc, code.len() as int)
}

/// A step whose remaining code is stack safe at the current depth does not
/// underflow, and a step that goes on leaves the remaining code stack safe.
proof fn lemma_step_stack_safe<C: Callable>(s: Vm<C>, t: Vm<C>, r: Result<bool, VmError>)
    requires
        s.step_post(t, r),
        stack_safe(code_from(s.code(), s.pc() as int), s.operands().len() as int),
    ensures
        r != Err::<bool, VmError>(VmError::StackUnderflow),
        r == Ok::<bool, VmError>(false) ==> stack_safe(code_from(t.code(), t.pc() as int), t.operands().len() as int),
{
    if s.pc() < s.code().len() {
        let rest = code_from(s.code(), s.pc() as int);
        let ins = s.code()[s.pc() as int];
        assert(rest[0] == ins);
        assert(rest.drop_first() =~= code_from(s.code(), s.pc() + 1int));
        assert(pops(ins) <= s.operands().len());
        if r == Ok::<bool, VmError>(false) {
            assert(t.operands().len() == s.operands().len() - pops(ins) + pushes(ins));
        }
    }
}

proof fn lemma_trace_stack_safe<C: Callable>(s: Vm<C>, t: Vm<C>, r: Result<(), VmError>, trace: Seq<Vm<C>>, i: int)
    requires
        s.is_trace(t, r, trace),
        0 <= i < trace.len(),
        stack_safe(code_from(s.code(), s.pc() as int), s.operands().len() as int),
    ensures
        stack_safe(code_from(trace[i].code(), trace[i].pc() as int), trace[i].operands().len() as int),
    decreases i,
{
    if i > 0 {
        lemma_trace_stack_safe(s, t, r, trace, i - 1);
        let j = i - 1;
        assert(trace[j].step_post(trace[j + 1], Ok(false)));
        lemma_step_stack_safe(trace[j], trace[j + 1], Ok(false));
    }
}

/// A run whose code is stack safe from the current depth never reports a
/// stack underflow.
pub proof fn lemma_run_never_underflows<C: Callable>(s: Vm<C>, t: Vm<C>, r: Result<(), VmError>)
    requires
        s.run_post(t, r),
        stack_safe(code_from(s.code(), s.pc() as int), s.operands().len() as int),
    ensures
        r != Err::<(), VmError>(VmError::StackUnderflow),
{
    let trace = choose|trace: Seq<Vm<C>>| s.is_trace(t, r, trace);
    lemma_trace_stack_safe(s, t, r, trace, trace.len() - 1);
    let last_r = match r {
        Ok(_) => Ok::<bool, VmError>(true),
        Err(e) => Err::<bool, VmError>(e),
    };
    lemma_step_stack_safe(trace.last(), t, last_r);
}

/// Running a compiled chunk from its first instruction, on any stack, never
/// reports a stack underflow: the underflow check only guards against
/// chunks that the compiler did not build.
pub proof fn lemma_compiled_chunk_never_underflows<C: Callable>(
    ss: Seq<StmtV>,
    names: Seq<Seq<char>>,
    s: Vm<C>,
    t: Vm<C>,
    r: Result<(), VmError>,
)
    requires
        compile_stmts(ss, names) is Some,
        s.code() == compile_stmts(ss, names)->Some_0.0 + seq![Instruction::Halt],
        s.pc() == 0,
        s.run_post(t, r),
    ensures
        r != Err::<(), VmError>(VmError::StackUnderflow),
{
    let code = compile_stmts(ss, names)->Some_0.0;
    let halt = seq![Instruction::Halt];
    lemma_program_balanced(ss, names);
    crate::instruction::lemma_stack_shift(code, 0, s.operands().len() as int);
    crate::instruction::lemma_single_stack(Instruction::Halt, s.operands().len() as int);
    lemma_concat_stack(code, halt, s.operands().len() as int);
    assert(code_from(s.code(), 0) =~= code + halt);
    lemma_run_never_underflows(s, t, r);
}

/// Along a run of a chunk whose only `Halt` is its last instruction, the
/// instruction pointer never passes that `Halt`.
proof fn lemma_trace_stays_in_code<C: Callable>(s: Vm<C>, t: Vm<C>, r: Result<(), VmError>, trace: Seq<Vm<C>>, i: int)
    requires
        s.is_trace(t, r, trace),
        0 <= i < trace.len(),
        s.code().len() > 0,
        s.code().last() == Instruction::Halt,
        halt_free(s.code().drop_last()),
        s.pc() < s.code().len(),
    ensures
        trace[i].pc() < s.code().len(),
        trace[i].code() == s.code(),
        trace[i].names() == s.names(),
    decreases i,
{
    if i > 0 {
        lemma_trace_stays_in_code(s, t, r, trace, i - 1);
        let j = i - 1;
        assert(trace[j].step_post(trace[j + 1], Ok(false)));
        let pc = trace[j].pc() as int;
        if pc == s.code().len() - 1 {
            assert(s.code()[pc] == Instruction::Halt);
        }
    }
}

/// A run of a chunk whose name indices lie within its name table and whose
/// only `Halt` is its last instruction never reports a malformed chunk.
pub proof fn lemma_run_never_bad_chunk<C: Callable>(s: Vm<C>, t: Vm<C>, r: Result<(), VmError>)
    requires
        s.run_post(t, r),
        s.code().len() > 0,
        s.code().last() == Instruction::Halt,
        halt_free(s.code().drop_last()),
        names_in_bounds(s.code(), s.names().len() as int),
        s.pc() < s.code().len(),
    ensures
        r != Err::<(), VmError>(VmError::BadChunk),
{
    let trace = choose|trace: Seq<Vm<C>>| s.is_trace(t, r, trace);
    lemma_trace_stays_in_code(s, t, r, trace, trace.len() - 1);
    let last = trace.last();
    let k = last.pc() as int;
    assert(match name_operand(s.code()[k]) {
        Some(index) => index < s.names().len(),
        None => true,
    });
}

/// Running a chunk that the compiler built, from its first instruction, on
/// any stack and with its own name table, never reports a stack underflow or
/// a malformed chunk: those checks only guard against chunks built
/// elsewhere.
pub proof fn lemma_compiled_chunk_runs_clean<C: Callable>(
    ss: Seq<StmtV>,
    names: Seq<Seq<char>>,
    s: Vm<C>,
    t: Vm<C>,
    r: Result<(), VmError>,
)
    requires
        compile_stmts(ss, names) is Some,
        s.code() == compile_stmts(ss, names)->Some_0.0 + seq![Instruction::Halt],
        s.names() == compile_stmts(ss, names)->Some_0.1,
        s.pc() == 0,
        s.run_post(t, r),
    ensures
        r != Err::<(), VmError>(VmError::StackUnderflow),
        r != Err::<(), VmError>(VmError::BadChunk),
{
    let code = compile_stmts(ss, names)->Some_0.0;
    lemma_compiled_chunk_never_underflows(ss, names, s, t, r);
    lemma_program_balanced(ss, names);
    assert(s.names().len() <= usize::MAX) by {
        assert(s.names().len() == s.chunk.variables.len());
    }
    lemma_program_names_in_bounds(ss, names);
    assert(s.code().drop_last() =~= code);
    lemma_run_never_bad_chunk(s, t, r);
}

} // verus!
