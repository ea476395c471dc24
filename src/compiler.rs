//! One-pass lowering of the syntax tree to a chunk.
use crate::ast::{Ast, BinOp, Expr, ExprV, Lit, LitV, Stmt, StmtV};
use crate::chunk::Chunk;
use crate::instruction::{
    depth_after, lemma_concat_stack, lemma_names_in_bounds_concat, lemma_single_stack, lemma_stack_shift,
    lemma_writes_no_global_concat, names_in_bounds, stack_safe, writes_no_global, InstanceValue, Instruction,
};
use vstd::prelude::*;

verus! {

/// The code of an expression compiled when the name table is `names`, and
/// the name table after it; `None` for a shape the compiler does not
/// support (string and character literals, prefix operators, `!` as an
/// infix operator, a property that is not a name).
///
/// A binary operator compiles to its two operands and one `Binary`
/// instruction that carries the operator. Call arguments are not compiled:
/// every call passes none.
pub open spec fn compile_expr(e: ExprV, names: Seq<Seq<char>>) -> Option<(Seq<Instruction>, Seq<Seq<char>>)>
    decreases e,
{
    match e {
        ExprV::Literal(LitV::Integer(v)) => Some((seq![Instruction::Push { value: InstanceValue::Integer(v) }], names)),
        ExprV::Literal(LitV::Nil) => Some((seq![Instruction::LoadNil], names)),
        ExprV::Literal(_) => None,
        ExprV::Identifier(x) => Some((seq![Instruction::GetGlobal { index: names.len() as usize }], names.push(x))),
        ExprV::BinExpr { left, right, op } => if op == BinOp::Bang {
            None
        } else {
            match compile_expr(*left, names) {
                Some((lc, n1)) => match compile_expr(*right, n1) {
                    Some((rc, n2)) => Some((lc + rc + seq![Instruction::Binary { op }], n2)),
                    None => None,
                },
                None => None,
            }
        },
        ExprV::UnaryExpr { .. } => None,
        ExprV::Call { callee, .. } => match compile_expr(*callee, names) {
            Some((c, n1)) => Some((c + seq![Instruction::Call], n1)),
            None => None,
        },
        ExprV::Dot { object, property } => match *property {
            ExprV::Identifier(p) => match compile_expr(*object, names) {
                Some((c, n1)) => Some((c + seq![Instruction::GetProperty { index: n1.len() as usize }], n1.push(p))),
                None => None,
            },
            _ => None,
        },
    }
}

/// The code of a statement, and the name table after it.
pub open spec fn compile_stmt(s: StmtV, names: Seq<Seq<char>>) -> Option<(Seq<Instruction>, Seq<Seq<char>>)> {
    match s {
        StmtV::Class { name } => Some((
            seq![
                Instruction::Class { index: names.len() as usize },
                Instruction::DefineGlobal { index: names.len() as usize },
            ],
            names.push(name),
        )),
        StmtV::VarDecl { id, init } => match compile_expr(init, names) {
            Some((c, n1)) => Some((c + seq![Instruction::DefineGlobal { index: n1.len() as usize }], n1.push(id))),
            None => None,
        },
        StmtV::Expr(e) => match compile_expr(e, names) {
            Some((c, n1)) => Some((c + seq![Instruction::Pop], n1)),
            None => None,
        },
    }
}

/// The code of a statement list, in order, and the name table after it.
pub open spec fn compile_stmts(ss: Seq<StmtV>, names: Seq<Seq<char>>) -> Option<(Seq<Instruction>, Seq<Seq<char>>)>
    decreases ss.len(),
{
    if ss.len() == 0 {
        Some((seq![], names))
    } else {
        match compile_stmts(ss.drop_last(), names) {
            Some((c, n1)) => match compile_stmt(ss.last(), n1) {
                Some((sc, n2)) => Some((c + sc, n2)),
                None => None,
            },
            None => None,
        }
    }
}

/// The field count of a class; reserved for when class bodies compile.
pub struct Class {
    pub fields: usize,
}

pub struct Compiler {
    chunk: Chunk,
}

impl Compiler {
    /// The chunk emitted so far.
    pub closed spec fn emitted(&self) -> Seq<Instruction> {
        self.chunk.instructions@
    }

    /// The name table so far.
    pub closed spec fn names(&self) -> Seq<Seq<char>> {
        self.chunk.names()
    }

    pub fn new() -> (r: Self)
        ensures
            r.emitted().len() == 0,
            r.names().len() == 0,
    {
        Self { chunk: Chunk::new() }
    }

    pub fn emit_inst(&mut self, inst: Instruction)
        ensures
            final(self).emitted() == old(self).emitted() + seq![inst],
            final(self).names() == old(self).names(),
    {
        self.chunk.instructions.push(inst);
        assert(self.emitted() =~= old(self).emitted() + seq![inst]);
    }

    pub fn emit_return(&mut self)
        ensures
            final(self).emitted() == old(self).emitted() + seq![Instruction::Halt],
            final(self).names() == old(self).names(),
    {
        self.emit_inst(Instruction::Halt);
    }

    fn expr(&mut self, e: &Expr) -> (r: Result<(), String>)
        ensures
            match compile_expr(e@, old(self).names()) {
                Some((c, n)) => r is Ok && final(self).emitted() == old(self).emitted() + c && final(self).names() == n,
                None => r is Err,
            },
        decreases e,
    {
        match e {
            Expr::Literal(lit) => match lit {
                Lit::Integer(v) => {
                    self.emit_inst(Instruction::integer(*v));
                    Ok(())
                },
                Lit::Nil => {
                    self.emit_inst(Instruction::LoadNil);
                    Ok(())
                },
                Lit::String(_) => Err("string literals are not supported yet".to_string()),
                Lit::Char(_) => Err("character literals are not supported yet".to_string()),
            },
            Expr::Identifier(name) => {
                let index = self.chunk.add_variable(name.as_str());
                self.emit_inst(Instruction::GetGlobal { index });
                Ok(())
            },
            Expr::BinExpr { left, right, op } => {
                if let BinOp::Bang = op {
                    return Err("'!' is not an infix operator".to_string());
                }
                let ghost e0 = self.emitted();
                let ghost n0 = self.names();
                match self.expr(left) {
                    Ok(()) => {},
                    Err(m) => return Err(m),
                }
                match self.expr(right) {
                    Ok(()) => {},
                    Err(m) => return Err(m),
                }
                self.emit_inst(Instruction::Binary { op: *op });
                proof {
                    let (lc, n1) = compile_expr(left@, n0)->Some_0;
                    let (rc, n2) = compile_expr(right@, n1)->Some_0;
                    assert(self.emitted() =~= e0 + (lc + rc + seq![Instruction::Binary { op: *op }]));
                }
                Ok(())
            },
            Expr::UnaryExpr { .. } => Err("prefix operators are not supported yet".to_string()),
            Expr::Call { callee, .. } => {
                let ghost e0 = self.emitted();
                let ghost n0 = self.names();
                match self.expr(callee) {
                    Ok(()) => {},
                    Err(m) => return Err(m),
                }
                self.emit_inst(Instruction::Call);
                proof {
                    let (c, n1) = compile_expr(callee@, n0)->Some_0;
                    assert(self.emitted() =~= e0 + (c + seq![Instruction::Call]));
                }
                Ok(())
            },
            Expr::Dot { object, property } => {
                if let Expr::Identifier(name) = &**property {
                    let ghost e0 = self.emitted();
                    let ghost n0 = self.names();
                    match self.expr(object) {
                        Ok(()) => {},
                        Err(m) => return Err(m),
                    }
                    let index = self.chunk.add_variable(name.as_str());
                    self.emit_inst(Instruction::GetProperty { index });
                    proof {
                        let (c, n1) = compile_expr(object@, n0)->Some_0;
                        assert(self.emitted() =~= e0 + (c + seq![Instruction::GetProperty { index: n1.len() as usize }]));
                    }
                    Ok(())
                } else {
                    assert(!((**property)@ is Identifier));
                    Err("a property must be a name".to_string())
                }
            },
        }
    }

    fn statement(&mut self, st: &Stmt) -> (r: Result<(), String>)
        ensures
            match compile_stmt(st@, old(self).names()) {
                Some((c, n)) => r is Ok && final(self).emitted() == old(self).emitted() + c && final(self).names() == n,
                None => r is Err,
            },
    {
        let ghost e0 = self.emitted();
        let ghost n0 = self.names();
        match st {
            Stmt::Class { name } => {
                let index = self.chunk.add_variable(name.as_str());
                self.emit_inst(Instruction::Class { index });
                self.emit_inst(Instruction::DefineGlobal { index });
                assert(self.emitted() =~= e0 + seq![Instruction::Class { index }, Instruction::DefineGlobal { index }]);
                Ok(())
            },
            Stmt::VarDecl { id, init } => {
                match self.expr(init) {
                    Ok(()) => {},
                    Err(m) => return Err(m),
                }
                let index = self.chunk.add_variable(id.as_str());
                self.emit_inst(Instruction::DefineGlobal { index });
                proof {
                    let (c, n1) = compile_expr(init@, n0)->Some_0;
                    assert(self.emitted() =~= e0 + (c + seq![Instruction::DefineGlobal { index: n1.len() as usize }]));
                }
                Ok(())
            },
            Stmt::Expr(e) => {
                match self.expr(e) {
                    Ok(()) => {},
                    Err(m) => return Err(m),
                }
                self.emit_inst(Instruction::Pop);
                proof {
                    let (c, n1) = compile_expr(e@, n0)->Some_0;
                    assert(self.emitted() =~= e0 + (c + seq![Instruction::Pop]));
                }
                Ok(())
            },
        }
    }

    /// Compiles every statement, appends one `Halt`, and hands over the
    /// chunk; the compiler is left empty.
    pub fn run(&mut self, ast: Ast) -> (r: Result<Chunk, String>)
        ensures
            match compile_stmts(ast@, old(self).names()) {
                Some((c, n)) => r is Ok && r->Ok_0.instructions@ == old(self).emitted() + c + seq![Instruction::Halt]
                    && r->Ok_0.names() == n && final(self).emitted().len() == 0 && final(self).names().len() == 0,
                None => r is Err,
            },
    {
        let ghost e0 = self.emitted();
        let ghost n0 = self.names();
        let mut i: usize = 0;
        while i < ast.nodes.len()
            invariant
                i <= ast.nodes.len(),
                e0 == old(self).emitted(),
                n0 == old(self).names(),
                ast@.len() == ast.nodes.len(),
                match compile_stmts(ast@.take(i as int), n0) {
                    Some((c, n)) => self.emitted() == e0 + c && self.names() == n,
                    None => false,
                },
            decreases ast.nodes.len() - i,
        {
            let ghost prefix = ast@.take(i as int);
            assert(ast@.take(i + 1).drop_last() =~= prefix);
            assert(ast@.take(i + 1).last() == ast.nodes[i as int]@);
            let ghost before = self.emitted();
            match self.statement(&ast.nodes[i]) {
                Ok(()) => {},
                Err(m) => {
                    proof {
                        lemma_stmts_prefix_fails(ast@, n0, i as int);
                    }
                    return Err(m);
                },
            }
            proof {
                let (c, n) = compile_stmts(prefix, n0)->Some_0;
                let (sc, n2) = compile_stmt(ast@[i as int], n)->Some_0;
                assert(self.emitted() =~= e0 + (c + sc));
            }
            i = i + 1;
        }
        assert(ast@.take(i as int) =~= ast@);
        self.emit_return();
        let mut out = Chunk::new();
        std::mem::swap(&mut out, &mut self.chunk);
        Ok(out)
    }
}

/// Once a prefix of a statement list fails to compile, so does the list.
proof fn lemma_stmts_prefix_fails(ss: Seq<StmtV>, names: Seq<Seq<char>>, i: int)
    requires
        0 <= i < ss.len(),
        compile_stmts(ss.take(i + 1), names) is None,
    ensures
        compile_stmts(ss, names) is None,
    decreases ss.len() - i,
{
    if i + 1 < ss.len() {
        assert(ss.take(i + 2).drop_last() =~= ss.take(i + 1));
        lemma_stmts_prefix_fails(ss, names, i + 1);
    } else {
        assert(ss.take(i + 1) =~= ss);
    }
}

/// Whether `code` holds no `Halt`.
pub open spec fn halt_free(code: Seq<Instruction>) -> bool {
    forall|k: int| 0 <= k < code.len() ==> code[k] != Instruction::Halt
}

proof fn lemma_halt_free_concat(a: Seq<Instruction>, b: Seq<Instruction>)
    requires
        halt_free(a),
        halt_free(b),
    ensures
        halt_free(a + b),
{
    assert forall|k: int| 0 <= k < (a + b).len() implies (a + b)[k] != Instruction::Halt by {
        if k >= a.len() {
            assert((a + b)[k] == b[k - a.len()]);
        }
    }
}

/// The code of a compiled expression runs from an empty stack without
/// underflow, leaves exactly one value, and holds no `Halt`.
pub proof fn lemma_expr_pushes_one(e: ExprV, names: Seq<Seq<char>>)
    requires
        compile_expr(e, names) is Some,
    ensures
        stack_safe(compile_expr(e, names)->Some_0.0, 0),
        depth_after(compile_expr(e, names)->Some_0.0, 0) == 1,
        halt_free(compile_expr(e, names)->Some_0.0),
    decreases e,
{
    let code = compile_expr(e, names)->Some_0.0;
    match e {
        ExprV::BinExpr { left, right, op } => {
            let (lc, n1) = compile_expr(*left, names)->Some_0;
            let (rc, n2) = compile_expr(*right, n1)->Some_0;
            let tail = seq![Instruction::Binary { op }];
            lemma_expr_pushes_one(*left, names);
            lemma_expr_pushes_one(*right, n1);
            lemma_stack_shift(rc, 0, 1);
            lemma_concat_stack(lc, rc, 0);
            lemma_concat_stack(lc + rc, tail, 0);
            lemma_single_stack(tail[0], 2);
            assert(tail =~= seq![tail[0]]);
            lemma_halt_free_concat(lc, rc);
            lemma_halt_free_concat(lc + rc, tail);
        },
        ExprV::Call { callee, .. } => {
            let (c, n1) = compile_expr(*callee, names)->Some_0;
            let tail = seq![Instruction::Call];
            lemma_expr_pushes_one(*callee, names);
            lemma_concat_stack(c, tail, 0);
            lemma_single_stack(tail[0], 1);
            assert(tail =~= seq![tail[0]]);
            lemma_halt_free_concat(c, tail);
        },
        ExprV::Dot { object, property } => {
            let (c, n1) = compile_expr(*object, names)->Some_0;
            let tail = seq![Instruction::GetProperty { index: n1.len() as usize }];
            lemma_expr_pushes_one(*object, names);
            lemma_concat_stack(c, tail, 0);
            lemma_single_stack(tail[0], 1);
            assert(tail =~= seq![tail[0]]);
            lemma_halt_free_concat(c, tail);
        },
        _ => {
            lemma_single_stack(code[0], 0);
            assert(code =~= seq![code[0]]);
        },
    }
}

/// The code of a compiled statement runs from an empty stack without
/// underflow, leaves the stack empty again, and holds no `Halt`.
pub proof fn lemma_stmt_balanced(s: StmtV, names: Seq<Seq<char>>)
    requires
        compile_stmt(s, names) is Some,
    ensures
        stack_safe(compile_stmt(s, names)->Some_0.0, 0),
        depth_after(compile_stmt(s, names)->Some_0.0, 0) == 0,
        halt_free(compile_stmt(s, names)->Some_0.0),
{
    let code = compile_stmt(s, names)->Some_0.0;
    match s {
        StmtV::Class { name } => {
            lemma_single_stack(code[0], 0);
            lemma_single_stack(code[1], 1);
            lemma_concat_stack(seq![code[0]], seq![code[1]], 0);
            assert(code =~= seq![code[0]] + seq![code[1]]);
        },
        StmtV::VarDecl { id, init } => {
            let (c, n1) = compile_expr(init, names)->Some_0;
            let tail = seq![Instruction::DefineGlobal { index: n1.len() as usize }];
            lemma_expr_pushes_one(init, names);
            lemma_concat_stack(c, tail, 0);
            lemma_single_stack(tail[0], 1);
            assert(tail =~= seq![tail[0]]);
            lemma_halt_free_concat(c, tail);
        },
        StmtV::Expr(e) => {
            let (c, n1) = compile_expr(e, names)->Some_0;
            let tail = seq![Instruction::Pop];
            lemma_expr_pushes_one(e, names);
            lemma_concat_stack(c, tail, 0);
            lemma_single_stack(tail[0], 1);
            assert(tail =~= seq![tail[0]]);
            lemma_halt_free_concat(c, tail);
        },
    }
}

/// A compiled statement list runs from an empty stack without underflow,
/// returns the stack to empty, and holds no `Halt`: the chunk that `run`
/// builds from it ends in its only `Halt`.
pub proof fn lemma_program_balanced(ss: Seq<StmtV>, names: Seq<Seq<char>>)
    requires
        compile_stmts(ss, names) is Some,
    ensures
        stack_safe(compile_stmts(ss, names)->Some_0.0, 0),
        depth_after(compile_stmts(ss, names)->Some_0.0, 0) == 0,
        halt_free(compile_stmts(ss, names)->Some_0.0),
        ({
            let chunk = compile_stmts(ss, names)->Some_0.0 + seq![Instruction::Halt];
            chunk.last() == Instruction::Halt && halt_free(chunk.drop_last())
        }),
    decreases ss.len(),
{
    let code = compile_stmts(ss, names)->Some_0.0;
    if ss.len() > 0 {
        let (c, n1) = compile_stmts(ss.drop_last(), names)->Some_0;
        let (sc, n2) = compile_stmt(ss.last(), n1)->Some_0;
        lemma_program_balanced(ss.drop_last(), names);
        lemma_stmt_balanced(ss.last(), n1);
        lemma_concat_stack(c, sc, 0);
        lemma_halt_free_concat(c, sc);
    }
    assert((code + seq![Instruction::Halt]).drop_last() =~= code);
}

/// The code of a compiled expression writes no global.
pub proof fn lemma_expr_writes_no_global(e: ExprV, names: Seq<Seq<char>>)
    requires
        compile_expr(e, names) is Some,
    ensures
        writes_no_global(compile_expr(e, names)->Some_0.0),
    decreases e,
{
    match e {
        ExprV::BinExpr { left, right, op } => {
            let (lc, n1) = compile_expr(*left, names)->Some_0;
            let (rc, n2) = compile_expr(*right, n1)->Some_0;
            let tail = seq![Instruction::Binary { op }];
            lemma_expr_writes_no_global(*left, names);
            lemma_expr_writes_no_global(*right, n1);
            assert(writes_no_global(tail));
            lemma_writes_no_global_concat(lc, rc);
            lemma_writes_no_global_concat(lc + rc, tail);
        },
        ExprV::Call { callee, .. } => {
            let (c, n1) = compile_expr(*callee, names)->Some_0;
            let tail = seq![Instruction::Call];
            lemma_expr_writes_no_global(*callee, names);
            assert(writes_no_global(tail));
            lemma_writes_no_global_concat(c, tail);
        },
        ExprV::Dot { object, property } => {
            let (c, n1) = compile_expr(*object, names)->Some_0;
            let tail = seq![Instruction::GetProperty { index: n1.len() as usize }];
            lemma_expr_writes_no_global(*object, names);
            assert(writes_no_global(tail));
            lemma_writes_no_global_concat(c, tail);
        },
        _ => {},
    }
}

/// Whether every statement is an expression statement.
pub open spec fn expression_statements(ss: Seq<StmtV>) -> bool {
    forall|i: int| 0 <= i < ss.len() ==> #[trigger] ss[i] is Expr
}

/// The code of a list of expression statements writes no global.
pub proof fn lemma_expression_statements_write_no_global(ss: Seq<StmtV>, names: Seq<Seq<char>>)
    requires
        expression_statements(ss),
        compile_stmts(ss, names) is Some,
    ensures
        writes_no_global(compile_stmts(ss, names)->Some_0.0 + seq![Instruction::Halt]),
    decreases ss.len(),
{
    let halt = seq![Instruction::Halt];
    assert(writes_no_global(halt));
    if ss.len() > 0 {
        let (c, n1) = compile_stmts(ss.drop_last(), names)->Some_0;
        assert(expression_statements(ss.drop_last())) by {
            assert forall|i: int| 0 <= i < ss.drop_last().len() implies #[trigger] ss.drop_last()[i] is Expr by {
                assert(ss.drop_last()[i] == ss[i]);
            }
        }
        lemma_expression_statements_write_no_global(ss.drop_last(), names);
        assert(c =~= (c + halt).subrange(0, c.len() as int));
        assert(writes_no_global(c)) by {
            assert forall|k: int| 0 <= k < c.len() implies !(#[trigger] c[k] is DefineGlobal) && !(c[k] is SetGlobal) by {
                assert(c[k] == (c + halt)[k]);
            }
        }
        assert(ss[ss.len() - 1] is Expr);
        let e = ss.last()->Expr_0;
        let (ec, n2) = compile_expr(e, n1)->Some_0;
        lemma_expr_writes_no_global(e, n1);
        assert(writes_no_global(seq![Instruction::Pop]));
        lemma_writes_no_global_concat(ec, seq![Instruction::Pop]);
        lemma_writes_no_global_concat(c, ec + seq![Instruction::Pop]);
        assert(compile_stmts(ss, names)->Some_0.0 == c + (ec + seq![Instruction::Pop]));
        lemma_writes_no_global_concat(c + (ec + seq![Instruction::Pop]), halt);
    } else {
        assert(compile_stmts(ss, names)->Some_0.0 + halt =~= halt);
    }
}

/// The name table only grows while an expression compiles, and every name
/// index the code reads lies within the table it ends with.
pub proof fn lemma_expr_names_in_bounds(e: ExprV, names: Seq<Seq<char>>)
    requires
        compile_expr(e, names) is Some,
        compile_expr(e, names)->Some_0.1.len() <= usize::MAX,
    ensures
        names.len() <= compile_expr(e, names)->Some_0.1.len(),
        names_in_bounds(compile_expr(e, names)->Some_0.0, compile_expr(e, names)->Some_0.1.len() as int),
    decreases e,
{
    let (code, out) = compile_expr(e, names)->Some_0;
    match e {
        ExprV::BinExpr { left, right, op } => {
            let (lc, n1) = compile_expr(*left, names)->Some_0;
            let (rc, n2) = compile_expr(*right, n1)->Some_0;
            let tail = seq![Instruction::Binary { op }];
            lemma_expr_names_in_bounds(*right, n1);
            lemma_expr_names_in_bounds(*left, names);
            assert(names_in_bounds(tail, n2.len() as int));
            lemma_names_in_bounds_concat(lc, rc, n1.len() as int, n2.len() as int);
            lemma_names_in_bounds_concat(lc + rc, tail, n2.len() as int, n2.len() as int);
        },
        ExprV::Call { callee, .. } => {
            let (c, n1) = compile_expr(*callee, names)->Some_0;
            let tail = seq![Instruction::Call];
            lemma_expr_names_in_bounds(*callee, names);
            assert(names_in_bounds(tail, n1.len() as int));
            lemma_names_in_bounds_concat(c, tail, n1.len() as int, n1.len() as int);
        },
        ExprV::Dot { object, property } => {
            let (c, n1) = compile_expr(*object, names)->Some_0;
            let tail = seq![Instruction::GetProperty { index: n1.len() as usize }];
            lemma_expr_names_in_bounds(*object, names);
            assert(names_in_bounds(tail, out.len() as int));
            lemma_names_in_bounds_concat(c, tail, n1.len() as int, out.len() as int);
        },
        _ => {
            assert(names_in_bounds(code, out.len() as int));
        },
    }
}

/// The same for a statement.
pub proof fn lemma_stmt_names_in_bounds(st: StmtV, names: Seq<Seq<char>>)
    requires
        compile_stmt(st, names) is Some,
        compile_stmt(st, names)->Some_0.1.len() <= usize::MAX,
    ensures
        names.len() <= compile_stmt(st, names)->Some_0.1.len(),
        names_in_bounds(compile_stmt(st, names)->Some_0.0, compile_stmt(st, names)->Some_0.1.len() as int),
{
    let (code, out) = compile_stmt(st, names)->Some_0;
    match st {
        StmtV::Class { name } => {
            assert(names_in_bounds(code, out.len() as int));
        },
        StmtV::VarDecl { id, init } => {
            let (c, n1) = compile_expr(init, names)->Some_0;
            let tail = seq![Instruction::DefineGlobal { index: n1.len() as usize }];
            lemma_expr_names_in_bounds(init, names);
            assert(names_in_bounds(tail, out.len() as int));
            lemma_names_in_bounds_concat(c, tail, n1.len() as int, out.len() as int);
        },
        StmtV::Expr(e) => {
            let (c, n1) = compile_expr(e, names)->Some_0;
            let tail = seq![Instruction::Pop];
            lemma_expr_names_in_bounds(e, names);
            assert(names_in_bounds(tail, out.len() as int));
            lemma_names_in_bounds_concat(c, tail, n1.len() as int, out.len() as int);
        },
    }
}

/// Every name index of a compiled chunk lies within its name table.
pub proof fn lemma_program_names_in_bounds(ss: Seq<StmtV>, names: Seq<Seq<char>>)
    requires
        compile_stmts(ss, names) is Some,
        compile_stmts(ss, names)->Some_0.1.len() <= usize::MAX,
    ensures
        names.len() <= compile_stmts(ss, names)->Some_0.1.len(),
        names_in_bounds(
            compile_stmts(ss, names)->Some_0.0 + seq![Instruction::Halt],
            compile_stmts(ss, names)->Some_0.1.len() as int,
        ),
    decreases ss.len(),
{
    let (code, out) = compile_stmts(ss, names)->Some_0;
    let halt = seq![Instruction::Halt];
    assert(names_in_bounds(halt, out.len() as int));
    if ss.len() > 0 {
        let (c, n1) = compile_stmts(ss.drop_last(), names)->Some_0;
        let (sc, n2) = compile_stmt(ss.last(), n1)->Some_0;
        lemma_stmt_names_in_bounds(ss.last(), n1);
        lemma_program_names_in_bounds(ss.drop_last(), names);
        assert(c =~= (c + halt).subrange(0, c.len() as int));
        assert(names_in_bounds(c, n1.len() as int)) by {
            assert forall|k: int| 0 <= k < c.len() implies match crate::instruction::name_operand(#[trigger] c[k]) {
                Some(index) => index < n1.len(),
                None => true,
            } by {
                assert(c[k] == (c + halt)[k]);
            }
        }
        lemma_names_in_bounds_concat(c, sc, n1.len() as int, out.len() as int);
        lemma_names_in_bounds_concat(c + sc, halt, out.len() as int, out.len() as int);
    } else {
        assert(code + halt =~= halt);
    }
}

/// The chunk of a statement list splits at each statement boundary: the
/// code of the first `k` statements is a prefix of the whole code, runs from
/// an empty stack without underflow and leaves the stack empty, and the code
/// of statement `k` follows it.
pub proof fn lemma_statement_boundaries(ss: Seq<StmtV>, names: Seq<Seq<char>>, k: int)
    requires
        compile_stmts(ss, names) is Some,
        0 <= k <= ss.len(),
    ensures
        compile_stmts(ss.take(k), names) is Some,
        ({
            let whole = compile_stmts(ss, names)->Some_0.0;
            let (before, n) = compile_stmts(ss.take(k), names)->Some_0;
            &&& before.len() <= whole.len()
            &&& whole.subrange(0, before.len() as int) == before
            &&& stack_safe(before, 0)
            &&& depth_after(before, 0) == 0
            &&& k < ss.len() ==> compile_stmt(ss[k], n) is Some && before.len() + compile_stmt(ss[k], n)->Some_0.0.len()
                <= whole.len() && whole.subrange(
                before.len() as int,
                (before.len() + compile_stmt(ss[k], n)->Some_0.0.len()) as int,
            ) == compile_stmt(ss[k], n)->Some_0.0
        }),
    decreases ss.len(),
{
    let whole = compile_stmts(ss, names)->Some_0.0;
    if k == ss.len() {
        assert(ss.take(k) =~= ss);
        lemma_program_balanced(ss, names);
        assert(whole.subrange(0, whole.len() as int) =~= whole);
    } else {
        let init = ss.drop_last();
        let (c, n1) = compile_stmts(init, names)->Some_0;
        let (sc, n2) = compile_stmt(ss.last(), n1)->Some_0;
        assert(whole == c + sc);
        lemma_statement_boundaries(init, names, k);
        assert(init.take(k) =~= ss.take(k));
        let (before, n) = compile_stmts(ss.take(k), names)->Some_0;
        assert(whole.subrange(0, before.len() as int) =~= c.subrange(0, before.len() as int));
        if k < init.len() {
            assert(init[k] == ss[k]);
            let len = compile_stmt(ss[k], n)->Some_0.0.len();
            assert(whole.subrange(before.len() as int, (before.len() + len) as int) =~= c.subrange(
                before.len() as int,
                (before.len() + len) as int,
            ));
        } else {
            assert(before == c);
            assert(ss[k] == ss.last());
            assert(whole.subrange(before.len() as int, (before.len() + sc.len()) as int) =~= sc);
        }
    }
}

} // verus!
