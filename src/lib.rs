//! The Thrush scripting language: scanner, precedence-climbing parser,
//! bytecode compiler and a stack-based virtual machine over an arena of
//! classes and instances.
use vstd::prelude::*;

pub mod ast;
pub mod chunk;
pub mod compiler;
pub mod hash;
pub mod instruction;
pub mod lexer;
pub mod parser;
pub mod scope;
pub mod text;
pub mod token;
pub mod value;
pub mod vm;

use crate::compiler::{compile_stmts, Compiler};
use crate::instruction::Instruction;
use crate::lexer::{tokenization, Lexer};
use crate::parser::{parse_program, Parser};
use crate::scope::State;
use crate::token::Token;
use crate::value::{Callable, Value};
use crate::vm::{Vm, VmError};

verus! {

/// Why a script failed.
#[derive(Debug, PartialEq, Clone)]
pub enum Error {
    /// The token sequence is malformed.
    Syntax(String),
    /// The syntax tree holds a shape the compiler does not support.
    Compile(String),
    /// Execution failed; globals defined before the failure stay defined.
    Runtime(VmError),
}

/// A session: a virtual machine whose globals and heap persist across
/// scripts.
pub struct Thrush<C> {
    pub vm: Vm<C>,
}

impl<C: Callable> Thrush<C> {
    /// What running a script whose tokens are `toks` does: it is parsed,
    /// compiled with a fresh name table, and run from its first instruction
    /// on the session's globals and heap; then the stack and the
    /// instruction pointer are reset. A syntax or compile error leaves the
    /// session as it was.
    pub open spec fn exec_post(self, t: Self, toks: Seq<Token>, r: Result<(), Error>) -> bool {
        match parse_program(toks, 0) {
            None => r is Err && r->Err_0 is Syntax && t == self,
            Some(stmts) => match compile_stmts(stmts, seq![]) {
                None => r is Err && r->Err_0 is Compile && t == self,
                Some((code, names)) => exists|start: Vm<C>, end: Vm<C>, vr: Result<(), VmError>|
                    #![trigger start.run_post(end, vr)]
                    {
                        &&& start.code() == code + seq![Instruction::Halt]
                        &&& start.names() == names
                        &&& start.pc() == 0
                        &&& start.operands() == self.vm.operands()
                        &&& start.state == self.vm.state
                        &&& start.heap == self.vm.heap
                        &&& start.run_post(end, vr)
                        &&& t.vm.state == end.state
                        &&& t.vm.heap == end.heap
                        &&& t.vm.operands().len() == 0
                        &&& t.vm.pc() == 0
                        &&& vr is Ok ==> r is Ok
                        &&& vr is Err ==> r == Err::<(), Error>(Error::Runtime(vr->Err_0))
                    },
            },
        }
    }

    pub fn new() -> (r: Self)
        ensures
            r.vm.state@ == Map::<Seq<char>, Value>::empty(),
            r.vm.heap.classes.len() == 0,
            r.vm.heap.instances.len() == 0,
            r.vm.operands().len() == 0,
            r.vm.pc() == 0,
    {
        Thrush { vm: Vm::new() }
    }

    /// The session's global table.
    pub fn globals(&mut self) -> (r: &mut State)
        ensures
            *r == old(self).vm.state,
            final(self).vm.state == *final(r),
            final(self).vm.heap == old(self).vm.heap,
            final(self).vm.operands() == old(self).vm.operands(),
            final(self).vm.pc() == old(self).vm.pc(),
    {
        &mut self.vm.state
    }

    /// Run a script (see `exec_post`).
    pub fn exec(&mut self, script: &str) -> (r: Result<(), Error>)
        ensures
            exists|toks: Seq<Token>| tokenization(script@, toks) && #[trigger] old(self).exec_post(*final(self), toks, r),
    {
        let tokens = Lexer::tokenize(script);
        let ghost toks = tokens@;
        let ast = match Parser::parse_ast(tokens) {
            Ok(ast) => ast,
            Err(m) => {
                assert(old(self).exec_post(*self, toks, Err(Error::Syntax(m))));
                return Err(Error::Syntax(m));
            },
        };
        let mut compiler = Compiler::new();
        proof {
            assert(compiler.names() =~= Seq::<Seq<char>>::empty());
            assert(compiler.emitted() + Seq::<Instruction>::empty() =~= Seq::<Instruction>::empty());
        }
        let chunk = match compiler.run(ast) {
            Ok(chunk) => chunk,
            Err(m) => {
                assert(old(self).exec_post(*self, toks, Err(Error::Compile(m))));
                return Err(Error::Compile(m));
            },
        };
        let ghost start = Vm { stack: self.vm.stack, state: self.vm.state, heap: self.vm.heap, chunk, ip: 0 };
        let vr = self.vm.execute(chunk);
        let ghost end = self.vm;
        self.vm.reset();
        let r = match vr {
            Ok(()) => Ok(()),
            Err(e) => Err(Error::Runtime(e)),
        };
        proof {
            let (code, names) = compile_stmts(ast@, seq![])->Some_0;
            assert(Seq::<Instruction>::empty() + code + seq![Instruction::Halt] =~= code + seq![Instruction::Halt]);
            assert(start.run_post(end, vr));
            assert(start.code() == code + seq![Instruction::Halt]);
            assert(start.names() == names);
            assert(start.operands() == old(self).vm.operands());
            assert(self.vm.state == end.state);
            assert(old(self).exec_post(*self, toks, r));
        }
        r
    }

    /// The session's virtual machine.
    pub fn vm_mut(&mut self) -> (r: &mut Vm<C>)
        ensures
            *r == old(self).vm,
            final(self).vm == *final(r),
    {
        &mut self.vm
    }
}

} // verus!
