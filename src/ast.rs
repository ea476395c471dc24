//! The syntax tree that the parser builds and the compiler consumes.
use vstd::prelude::*;

verus! {

/// A binary (or prefix) operator.
#[derive(Debug, PartialEq, Eq, Structural, Clone, Copy)]
pub enum BinOp {
    /// +
    Add,
    /// -
    Sub,
    /// *
    Mul,
    /// /
    Div,
    /// %
    Rem,
    /// !
    Bang,
}

/// The source text of an operator.
pub open spec fn op_text(op: BinOp) -> Seq<char> {
    match op {
        BinOp::Add => seq!['+'],
        BinOp::Sub => seq!['-'],
        BinOp::Mul => seq!['*'],
        BinOp::Div => seq!['/'],
        BinOp::Rem => seq!['%'],
        BinOp::Bang => seq!['!'],
    }
}

impl BinOp {
    pub fn into_string(&self) -> (r: &'static str)
        ensures
            r@ == op_text(*self),
    {
        proof {
            reveal_strlit("+");
            reveal_strlit("-");
            reveal_strlit("*");
            reveal_strlit("/");
            reveal_strlit("%");
            reveal_strlit("!");
        }
        match self {
            BinOp::Add => "+",
            BinOp::Sub => "-",
            BinOp::Mul => "*",
            BinOp::Div => "/",
            BinOp::Rem => "%",
            BinOp::Bang => "!",
        }
    }
}

} // verus!

verus! {

/// A literal in the syntax tree.
#[derive(Debug, PartialEq)]
pub enum Lit {
    /// A string literal
    String(String),
    /// An integer literal
    Integer(i64),
    /// A character literal
    Char(char),
    /// A nil literal
    Nil,
}

#[derive(Debug, PartialEq)]
pub enum Expr {
    /// An identifier
    Identifier(String),
    /// A literal
    Literal(Lit),
    /// A binary expression
    BinExpr { left: Box<Expr>, right: Box<Expr>, op: BinOp },
    /// A prefix expression
    UnaryExpr { value: Box<Expr>, op: BinOp },
    /// A call; the arguments are parsed but not yet compiled.
    Call { callee: Box<Expr>, args: Vec<Expr> },
    /// A property access.
    Dot { object: Box<Expr>, property: Box<Expr> },
}

#[derive(Debug, PartialEq)]
pub enum Stmt {
    Class { name: String },
    VarDecl { id: String, init: Expr },
    Expr(Expr),
}

#[derive(Debug, PartialEq)]
pub enum AstNode {
    /// A statement.
    Stmt(Stmt),
    /// An expression
    Expr(Expr),
}

/// An AST (abstract syntax tree): the statements of a script in order.
#[derive(Debug)]
pub struct Ast {
    pub nodes: Vec<Stmt>,
}

/// The mathematical value of a literal.
pub enum LitV {
    String(Seq<char>),
    Integer(i64),
    Char(char),
    Nil,
}

/// The mathematical value of an expression.
pub enum ExprV {
    Identifier(Seq<char>),
    Literal(LitV),
    BinExpr { left: Box<ExprV>, right: Box<ExprV>, op: BinOp },
    UnaryExpr { value: Box<ExprV>, op: BinOp },
    Call { callee: Box<ExprV>, args: Seq<ExprV> },
    Dot { object: Box<ExprV>, property: Box<ExprV> },
}

/// The mathematical value of a statement.
pub enum StmtV {
    Class { name: Seq<char> },
    VarDecl { id: Seq<char>, init: ExprV },
    Expr(ExprV),
}

impl Lit {
    pub open spec fn view(&self) -> LitV {
        match self {
            Lit::String(s) => LitV::String(s@),
            Lit::Integer(v) => LitV::Integer(*v),
            Lit::Char(c) => LitV::Char(*c),
            Lit::Nil => LitV::Nil,
        }
    }
}

/// The values of a list of expressions.
pub open spec fn exprs_view(es: Seq<Expr>) -> Seq<ExprV>
    decreases es,
{
    Seq::new(es.len(), |i: int| if 0 <= i < es.len() { es[i].view() } else { ExprV::Literal(LitV::Nil) })
}

impl Expr {
    pub open spec fn view(&self) -> ExprV
        decreases self,
    {
        match self {
            Expr::Identifier(s) => ExprV::Identifier(s@),
            Expr::Literal(l) => ExprV::Literal(l.view()),
            Expr::BinExpr { left, right, op } => ExprV::BinExpr {
                left: Box::new(left.view()),
                right: Box::new(right.view()),
                op: *op,
            },
            Expr::UnaryExpr { value, op } => ExprV::UnaryExpr { value: Box::new(value.view()), op: *op },
            Expr::Call { callee, args } => ExprV::Call { callee: Box::new(callee.view()), args: exprs_view(args@) },
            Expr::Dot { object, property } => ExprV::Dot {
                object: Box::new(object.view()),
                property: Box::new(property.view()),
            },
        }
    }

    pub fn binary_expr(op: BinOp, left: Expr, right: Expr) -> (r: Expr)
        ensures
            r@ == (ExprV::BinExpr { left: Box::new(left@), right: Box::new(right@), op }),
    {
        Expr::BinExpr { left: Box::new(left), right: Box::new(right), op }
    }
}

impl Stmt {
    pub open spec fn view(&self) -> StmtV {
        match self {
            Stmt::Class { name } => StmtV::Class { name: name@ },
            Stmt::VarDecl { id, init } => StmtV::VarDecl { id: id@, init: init@ },
            Stmt::Expr(e) => StmtV::Expr(e@),
        }
    }
}

impl Ast {
    pub open spec fn view(&self) -> Seq<StmtV> {
        Seq::new(self.nodes.len() as nat, |i: int| self.nodes[i]@)
    }
}

} // verus!
