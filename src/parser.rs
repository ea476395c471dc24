//! A precedence-climbing parser from tokens to the syntax tree.
use crate::ast::{exprs_view, Ast, BinOp, Expr, ExprV, Lit, LitV, Stmt, StmtV};
use crate::token::{self, Keyword, Token, TokenKind};
use vstd::prelude::*;

verus! {

/// Binding strength of operators, lowest first.
#[derive(Debug, PartialEq, Eq, Structural, Copy, Clone)]
pub enum Precedence {
    Lowest,
    /// +, -
    Sum,
    /// *, /, %
    Term,
    /// (, .
    Call,
    /// end of input, `)`, `}` and every other non-operator token
    End,
}

impl Precedence {
    pub open spec fn rank(self) -> nat {
        match self {
            Precedence::Lowest => 0,
            Precedence::Sum => 1,
            Precedence::Term => 2,
            Precedence::Call => 3,
            Precedence::End => 4,
        }
    }

    /// The numeric rank, for comparisons.
    pub fn level(&self) -> (r: u8)
        ensures
            r as nat == self.rank(),
    {
        match self {
            Precedence::Lowest => 0,
            Precedence::Sum => 1,
            Precedence::Term => 2,
            Precedence::Call => 3,
            Precedence::End => 4,
        }
    }

    /// The next tier up; used for the right operand of a left-associative
    /// operator.
    pub fn left(&self) -> (r: Precedence)
        requires
            *self != Precedence::End,
        ensures
            r.rank() == self.rank() + 1,
    {
        match self {
            Precedence::Lowest => Precedence::Sum,
            Precedence::Sum => Precedence::Term,
            Precedence::Term => Precedence::Call,
            _ => Precedence::End,
        }
    }
}

/// The kind of the token at `pos`; past the last token, end of input.
pub open spec fn kind_at(toks: Seq<Token>, pos: int) -> TokenKind {
    if 0 <= pos < toks.len() {
        toks[pos].kind
    } else {
        TokenKind::Eof
    }
}

/// The tier of an infix operator token.
pub open spec fn prec_of(k: TokenKind) -> Precedence {
    match k {
        TokenKind::Plus | TokenKind::Hypen => Precedence::Sum,
        TokenKind::Star | TokenKind::BackSlash | TokenKind::Modulo => Precedence::Term,
        TokenKind::LParen | TokenKind::Dot => Precedence::Call,
        _ => Precedence::End,
    }
}

/// The binary operator of an infix token.
pub open spec fn infix_op(k: TokenKind) -> BinOp {
    match k {
        TokenKind::Plus => BinOp::Add,
        TokenKind::Hypen => BinOp::Sub,
        TokenKind::Star => BinOp::Mul,
        TokenKind::BackSlash => BinOp::Div,
        _ => BinOp::Rem,
    }
}

/// A prefix operator token and the operator it stands for.
pub open spec fn prefix_op(k: TokenKind) -> Option<BinOp> {
    match k {
        TokenKind::Hypen => Some(BinOp::Sub),
        TokenKind::Plus => Some(BinOp::Add),
        TokenKind::Bang => Some(BinOp::Bang),
        _ => None,
    }
}

/// A primary term at `pos`: an integer literal, an identifier, a parenthesised
/// expression, or a prefix operator applied to everything that follows
/// (its operand is parsed at the lowest tier). Gives the term and the
/// position after it. Any other token (a string literal too) is no term.
pub open spec fn parse_primary(toks: Seq<Token>, pos: int) -> Option<(ExprV, int)>
    decreases toks.len() - pos, 1int,
{
    if pos < 0 || pos > toks.len() {
        None
    } else {
        match kind_at(toks, pos) {
            TokenKind::Literal(token::Lit::Integer(v)) => Some((ExprV::Literal(LitV::Integer(v)), pos + 1)),
            TokenKind::Ident(name) => Some((ExprV::Identifier(name@), pos + 1)),
            TokenKind::LParen => match parse_expression(toks, pos + 1, Precedence::Sum) {
                Some((e, p)) => match kind_at(toks, p) {
                    TokenKind::RParen => Some((e, p + 1)),
                    _ => None,
                },
                None => None,
            },
            k => match prefix_op(k) {
                Some(op) => match parse_expression(toks, pos + 1, Precedence::Lowest) {
                    Some((e, p)) => Some((ExprV::UnaryExpr { value: Box::new(e), op }, p)),
                    None => None,
                },
                None => None,
            },
        }
    }
}

/// One infix step at `pos` with `left` as the left operand: a binary
/// operator with its right operand parsed one tier above the operator's, an
/// empty argument list, or a property access.
pub open spec fn parse_infix(toks: Seq<Token>, left: ExprV, pos: int) -> Option<(ExprV, int)>
    decreases toks.len() - pos, 0int,
{
    if pos < 0 || pos > toks.len() {
        None
    } else {
        let k = kind_at(toks, pos);
        match k {
            TokenKind::Plus | TokenKind::Hypen | TokenKind::Star | TokenKind::BackSlash | TokenKind::Modulo => {
                let tier = if prec_of(k) == Precedence::Sum { Precedence::Term } else { Precedence::Call };
                match parse_expression(toks, pos + 1, tier) {
                    Some((right, p)) => Some((
                        ExprV::BinExpr { left: Box::new(left), right: Box::new(right), op: infix_op(k) },
                        p,
                    )),
                    None => None,
                }
            },
            TokenKind::LParen => match kind_at(toks, pos + 1) {
                TokenKind::RParen => Some((ExprV::Call { callee: Box::new(left), args: seq![] }, pos + 2)),
                _ => None,
            },
            TokenKind::Dot => match kind_at(toks, pos + 1) {
                TokenKind::Ident(name) => Some((
                    ExprV::Dot { object: Box::new(left), property: Box::new(ExprV::Identifier(name@)) },
                    pos + 2,
                )),
                _ => None,
            },
            _ => None,
        }
    }
}

/// Folds infix operators of tier at least `min` into `left`, from `pos` on.
pub open spec fn parse_climb(toks: Seq<Token>, left: ExprV, pos: int, min: Precedence) -> Option<(ExprV, int)>
    decreases toks.len() - pos, 1int,
{
    if pos < 0 || pos > toks.len() {
        None
    } else {
        let p = prec_of(kind_at(toks, pos));
        if p.rank() >= min.rank() && p != Precedence::End {
            match parse_infix(toks, left, pos) {
                Some((e, q)) => if pos < q <= toks.len() {
                    parse_climb(toks, e, q, min)
                } else {
                    None
                },
                None => None,
            }
        } else {
            Some((left, pos))
        }
    }
}

/// An expression at `pos` whose operators are all of tier at least `min`.
pub open spec fn parse_expression(toks: Seq<Token>, pos: int, min: Precedence) -> Option<(ExprV, int)>
    decreases toks.len() - pos, 2int,
{
    if pos < 0 || pos > toks.len() {
        None
    } else {
        match parse_primary(toks, pos) {
            Some((e, q)) => if pos < q <= toks.len() {
                parse_climb(toks, e, q, min)
            } else {
                None
            },
            None => None,
        }
    }
}

/// The end of a statement at `pos`: a line break (consumed), the end of a
/// block or the end of input.
pub open spec fn statement_end(toks: Seq<Token>, pos: int) -> Option<int> {
    match kind_at(toks, pos) {
        TokenKind::Newline => Some(pos + 1),
        TokenKind::Eof | TokenKind::RBrace => Some(pos),
        _ => None,
    }
}

/// An expression statement at `pos`: an expression and a statement end.
pub open spec fn parse_expr_statement(toks: Seq<Token>, pos: int) -> Option<(StmtV, int)> {
    match parse_expression(toks, pos, Precedence::Lowest) {
        Some((e, p)) => match statement_end(toks, p) {
            Some(q) => Some((StmtV::Expr(e), q)),
            None => None,
        },
        None => None,
    }
}

/// A statement at `pos`: `class NAME { }`, `var NAME = expr`, or an
/// expression; each followed by a statement end.
pub open spec fn parse_statement(toks: Seq<Token>, pos: int) -> Option<(StmtV, int)> {
    match kind_at(toks, pos) {
        TokenKind::Keyword(Keyword::Class) => match kind_at(toks, pos + 1) {
            TokenKind::Ident(name) => match (kind_at(toks, pos + 2), kind_at(toks, pos + 3)) {
                (TokenKind::LBrace, TokenKind::RBrace) => match statement_end(toks, pos + 4) {
                    Some(q) => Some((StmtV::Class { name: name@ }, q)),
                    None => None,
                },
                _ => None,
            },
            _ => None,
        },
        TokenKind::Keyword(Keyword::Var) => match (kind_at(toks, pos + 1), kind_at(toks, pos + 2)) {
            (TokenKind::Ident(id), TokenKind::Assign) => match parse_expression(toks, pos + 3, Precedence::Lowest) {
                Some((e, p)) => match statement_end(toks, p) {
                    Some(q) => Some((StmtV::VarDecl { id: id@, init: e }, q)),
                    None => None,
                },
                None => None,
            },
            _ => None,
        },
        TokenKind::Keyword(_) => None,
        _ => parse_expr_statement(toks, pos),
    }
}

/// The statements from `pos` to the end of input; blank lines are skipped.
pub open spec fn parse_program(toks: Seq<Token>, pos: int) -> Option<Seq<StmtV>>
    decreases toks.len() - pos,
{
    if pos < 0 || pos > toks.len() {
        None
    } else {
        match kind_at(toks, pos) {
            TokenKind::Eof => Some(seq![]),
            TokenKind::Newline => parse_program(toks, pos + 1),
            _ => match parse_statement(toks, pos) {
                Some((s, q)) => if pos < q <= toks.len() {
                    match parse_program(toks, q) {
                        Some(rest) => Some(seq![s] + rest),
                        None => None,
                    }
                } else {
                    None
                },
                None => None,
            },
        }
    }
}

/// Whether a token list ends with the end of input, as the scanner's lists
/// do.
pub open spec fn ends_with_eof(toks: Seq<Token>) -> bool {
    toks.len() >= 1 && toks.last().kind == TokenKind::Eof
}

/// Parser for the Thrush language: a token list and a read position.
pub struct Parser {
    pub tokens: Vec<Token>,
    pub pos: usize,
}

impl Parser {
    /// The tokens end with the end of input and the position is on one of
    /// them.
    pub open spec fn wf(&self) -> bool {
        ends_with_eof(self.tokens@) && self.pos < self.tokens.len()
    }

    pub fn new(tokens: Vec<Token>) -> (r: Parser)
        ensures
            r.tokens == tokens,
            r.pos == 0,
            ends_with_eof(tokens@) ==> r.wf(),
    {
        Self { tokens, pos: 0 }
    }

    /// Consume the current token and move to the next one; on the last
    /// token the position stays.
    pub fn consume(&mut self)
        ensures
            old(self).wf() ==> final(self).wf(),
            final(self).tokens == old(self).tokens,
            final(self).pos == if old(self).pos + 1 < old(self).tokens.len() {
                old(self).pos + 1
            } else {
                old(self).pos as int
            },
    {
        if self.tokens.len() > 0 && self.pos < self.tokens.len() - 1 {
            self.pos = self.pos + 1;
        }
    }

    /// Whether the current token is the given structural token.
    fn at(&self, want: &TokenKind) -> (r: bool)
        requires
            self.wf(),
            *want == TokenKind::LBrace || *want == TokenKind::RBrace || *want == TokenKind::RParen
                || *want == TokenKind::Assign,
        ensures
            r == (kind_at(self.tokens@, self.pos as int) == *want),
    {
        if self.pos < self.tokens.len() {
            match (&self.tokens[self.pos].kind, want) {
                (TokenKind::LBrace, TokenKind::LBrace) => true,
                (TokenKind::RBrace, TokenKind::RBrace) => true,
                (TokenKind::RParen, TokenKind::RParen) => true,
                (TokenKind::Assign, TokenKind::Assign) => true,
                _ => false,
            }
        } else {
            false
        }
    }

    /// The precedence rule for the current token.
    pub fn prec(&self) -> (r: Precedence)
        requires
            self.wf(),
        ensures
            r == prec_of(kind_at(self.tokens@, self.pos as int)),
    {
        if self.pos < self.tokens.len() {
            match &self.tokens[self.pos].kind {
                TokenKind::Plus | TokenKind::Hypen => Precedence::Sum,
                TokenKind::Star | TokenKind::BackSlash | TokenKind::Modulo => Precedence::Term,
                TokenKind::LParen | TokenKind::Dot => Precedence::Call,
                _ => Precedence::End,
            }
        } else {
            Precedence::End
        }
    }

    /// Parse an identifier.
    fn identifier(&mut self) -> (r: Result<String, String>)
        requires
            old(self).wf(),
        ensures
            final(self).wf(),
            final(self).tokens == old(self).tokens,
            match kind_at(old(self).tokens@, old(self).pos as int) {
                TokenKind::Ident(name) => r is Ok && r->Ok_0@ == name@ && final(self).pos == old(self).pos + 1,
                _ => r is Err && final(self).pos == old(self).pos,
            },
    {
        if self.pos < self.tokens.len() {
            if let TokenKind::Ident(name) = &self.tokens[self.pos].kind {
                let name = name.clone();
                self.consume();
                return Ok(name);
            }
        }
        Err("expected an identifier".to_string())
    }

    /// Parse a primary term (see `parse_primary`).
    pub fn literal(&mut self) -> (r: Result<Expr, String>)
        requires
            old(self).wf(),
        ensures
            final(self).wf(),
            final(self).tokens == old(self).tokens,
            match parse_primary(old(self).tokens@, old(self).pos as int) {
                Some((e, q)) => r is Ok && r->Ok_0@ == e && final(self).pos == q && old(self).pos < q,
                None => r is Err,
            },
        decreases old(self).tokens.len() - old(self).pos, 1int,
    {
        if self.pos >= self.tokens.len() {
            return Err("unexpected end of input".to_string());
        }
        let ghost toks = self.tokens@;
        let ghost pos = self.pos as int;
        let mut prefix: Option<BinOp> = None;
        let mut paren = false;
        match &self.tokens[self.pos].kind {
            TokenKind::Literal(token::Lit::Integer(v)) => {
                let v = *v;
                self.consume();
                return Ok(Expr::Literal(Lit::Integer(v)));
            },
            TokenKind::Ident(name) => {
                let name = name.clone();
                self.consume();
                return Ok(Expr::Identifier(name));
            },
            TokenKind::LParen => {
                paren = true;
            },
            TokenKind::Hypen => {
                prefix = Some(BinOp::Sub);
            },
            TokenKind::Plus => {
                prefix = Some(BinOp::Add);
            },
            TokenKind::Bang => {
                prefix = Some(BinOp::Bang);
            },
            _ => {},
        }
        if paren {
            self.consume();
            let node = match self.expression(Precedence::Lowest.left()) {
                Ok(e) => e,
                Err(m) => return Err(m),
            };
            if !self.at(&TokenKind::RParen) {
                return Err("expected ')'".to_string());
            }
            self.consume();
            return Ok(node);
        }
        match prefix {
            Some(op) => {
                assert(prefix_op(kind_at(toks, pos)) == Some(op));
                self.consume();
                let value = match self.expression(Precedence::Lowest) {
                    Ok(e) => e,
                    Err(m) => return Err(m),
                };
                Ok(Expr::UnaryExpr { value: Box::new(value), op })
            },
            None => Err("unexpected token".to_string()),
        }
    }

    /// Parse one infix step with `left` as the left operand (see
    /// `parse_infix`).
    pub fn infix_expr(&mut self, left: Expr) -> (r: Result<Expr, String>)
        requires
            old(self).wf(),
        ensures
            final(self).wf(),
            final(self).tokens == old(self).tokens,
            match parse_infix(old(self).tokens@, left@, old(self).pos as int) {
                Some((e, q)) => r is Ok && r->Ok_0@ == e && final(self).pos == q && old(self).pos < q,
                None => r is Err,
            },
        decreases old(self).tokens.len() - old(self).pos, 0int,
    {
        if self.pos >= self.tokens.len() {
            return Err("expected an operator".to_string());
        }
        let mut op: Option<BinOp> = None;
        let mut call = false;
        let mut dot = false;
        match &self.tokens[self.pos].kind {
            TokenKind::Plus => {
                op = Some(BinOp::Add);
            },
            TokenKind::Hypen => {
                op = Some(BinOp::Sub);
            },
            TokenKind::Star => {
                op = Some(BinOp::Mul);
            },
            TokenKind::BackSlash => {
                op = Some(BinOp::Div);
            },
            TokenKind::Modulo => {
                op = Some(BinOp::Rem);
            },
            TokenKind::LParen => {
                call = true;
            },
            TokenKind::Dot => {
                dot = true;
            },
            _ => {},
        }
        if call {
            self.consume();
            if !self.at(&TokenKind::RParen) {
                return Err("expected ')'".to_string());
            }
            self.consume();
            let args: Vec<Expr> = Vec::new();
            assert(exprs_view(args@) =~= seq![]);
            let r = Expr::Call { callee: Box::new(left), args };
            return Ok(r);
        }
        if dot {
            self.consume();
            let name = match self.identifier() {
                Ok(n) => n,
                Err(m) => return Err(m),
            };
            let property = Expr::Identifier(name);
            let r = Expr::Dot { object: Box::new(left), property: Box::new(property) };
            assert(r@ == (ExprV::Dot { object: Box::new(left@), property: Box::new(property@) }));
            return Ok(r);
        }
        match op {
            Some(op) => {
                let tier = if self.prec().level() == 1 {
                    Precedence::Sum.left()
                } else {
                    Precedence::Term.left()
                };
                self.consume();
                let right = match self.expression(tier) {
                    Ok(e) => e,
                    Err(m) => return Err(m),
                };
                Ok(Expr::binary_expr(op, left, right))
            },
            None => Err("expected an operator".to_string()),
        }
    }

    /// Parse an expression whose operators are all of tier at least `prec`
    /// (see `parse_expression`).
    pub fn expression(&mut self, prec: Precedence) -> (r: Result<Expr, String>)
        requires
            old(self).wf(),
        ensures
            final(self).wf(),
            final(self).tokens == old(self).tokens,
            match parse_expression(old(self).tokens@, old(self).pos as int, prec) {
                Some((e, q)) => r is Ok && r->Ok_0@ == e && final(self).pos == q && old(self).pos < q,
                None => r is Err,
            },
        decreases old(self).tokens.len() - old(self).pos, 2int,
    {
        let ghost toks = self.tokens@;
        let ghost pos0 = self.pos as int;
        let ghost t0 = self.tokens;
        let mut left = match self.literal() {
            Ok(e) => e,
            Err(m) => return Err(m),
        };
        let min = prec.level();
        loop
            invariant
                self.wf(),
                self.tokens == t0,
                t0 == old(self).tokens,
                t0@ == toks,
                pos0 == old(self).pos,
                pos0 < self.pos,
                min as nat == prec.rank(),
                parse_climb(toks, left@, self.pos as int, prec) == parse_expression(toks, pos0, prec),
            decreases self.tokens.len() - self.pos,
        {
            let p = self.prec();
            if p.level() < min || p.level() == 4 {
                return Ok(left);
            }
            left = match self.infix_expr(left) {
                Ok(e) => e,
                Err(m) => return Err(m),
            };
        }
    }

    /// Consume the end of a statement (see `statement_end`).
    fn end_statement(&mut self) -> (r: Result<(), String>)
        requires
            old(self).wf(),
        ensures
            final(self).wf(),
            final(self).tokens == old(self).tokens,
            match statement_end(old(self).tokens@, old(self).pos as int) {
                Some(q) => r is Ok && final(self).pos == q,
                None => r is Err,
            },
    {
        if self.pos >= self.tokens.len() {
            return Ok(());
        }
        match &self.tokens[self.pos].kind {
            TokenKind::Newline => {
                self.consume();
                Ok(())
            },
            TokenKind::Eof | TokenKind::RBrace => Ok(()),
            _ => Err("expected the end of the statement".to_string()),
        }
    }

    /// Parse a class declaration: `class NAME { }`.
    fn class(&mut self) -> (r: Result<Stmt, String>)
        requires
            old(self).wf(),
            kind_at(old(self).tokens@, old(self).pos as int) == TokenKind::Keyword(Keyword::Class),
        ensures
            final(self).wf(),
            final(self).tokens == old(self).tokens,
            match parse_statement(old(self).tokens@, old(self).pos as int) {
                Some((st, q)) => r is Ok && r->Ok_0@ == st && final(self).pos == q && old(self).pos < q,
                None => r is Err,
            },
    {
        self.consume();
        let name = match self.identifier() {
            Ok(n) => n,
            Err(m) => return Err(m),
        };
        if !self.at(&TokenKind::LBrace) {
            return Err("expected '{'".to_string());
        }
        self.consume();
        if !self.at(&TokenKind::RBrace) {
            return Err("expected '}'".to_string());
        }
        self.consume();
        match self.end_statement() {
            Ok(()) => Ok(Stmt::Class { name }),
            Err(m) => Err(m),
        }
    }

    /// Parse a variable declaration: `var NAME = expr`.
    fn var_declaration(&mut self) -> (r: Result<Stmt, String>)
        requires
            old(self).wf(),
            kind_at(old(self).tokens@, old(self).pos as int) == TokenKind::Keyword(Keyword::Var),
        ensures
            final(self).wf(),
            final(self).tokens == old(self).tokens,
            match parse_statement(old(self).tokens@, old(self).pos as int) {
                Some((st, q)) => r is Ok && r->Ok_0@ == st && final(self).pos == q && old(self).pos < q,
                None => r is Err,
            },
    {
        self.consume();
        let id = match self.identifier() {
            Ok(n) => n,
            Err(m) => return Err(m),
        };
        if !self.at(&TokenKind::Assign) {
            return Err("expected '='".to_string());
        }
        self.consume();
        let init = match self.expression(Precedence::Lowest) {
            Ok(e) => e,
            Err(m) => return Err(m),
        };
        match self.end_statement() {
            Ok(()) => Ok(Stmt::VarDecl { id, init }),
            Err(m) => Err(m),
        }
    }

    /// Parse an expression statement: an expression and a statement end.
    pub fn expr(&mut self) -> (r: Result<Stmt, String>)
        requires
            old(self).wf(),
        ensures
            final(self).wf(),
            final(self).tokens == old(self).tokens,
            match parse_expr_statement(old(self).tokens@, old(self).pos as int) {
                Some((st, q)) => r is Ok && r->Ok_0@ == st && final(self).pos == q && old(self).pos < q,
                None => r is Err,
            },
    {
        let expr = match self.expression(Precedence::Lowest) {
            Ok(e) => e,
            Err(m) => return Err(m),
        };
        match self.end_statement() {
            Ok(()) => Ok(Stmt::Expr(expr)),
            Err(m) => Err(m),
        }
    }

    /// Parse a statement (see `parse_statement`).
    fn statement(&mut self) -> (r: Result<Stmt, String>)
        requires
            old(self).wf(),
        ensures
            final(self).wf(),
            final(self).tokens == old(self).tokens,
            match parse_statement(old(self).tokens@, old(self).pos as int) {
                Some((st, q)) => r is Ok && r->Ok_0@ == st && final(self).pos == q && old(self).pos < q,
                None => r is Err,
            },
    {
        if self.pos < self.tokens.len() {
            match &self.tokens[self.pos].kind {
                TokenKind::Keyword(Keyword::Class) => return self.class(),
                TokenKind::Keyword(Keyword::Var) => return self.var_declaration(),
                TokenKind::Keyword(_) => return Err("unexpected keyword".to_string()),
                _ => {},
            }
        }
        self.expr()
    }

    /// Constructs an [Ast] from the tokens from the current position on
    /// (see `parse_program`). Tokens that do not end with the end of input,
    /// or a position past them, are a syntax error.
    pub fn parse(&mut self) -> (r: Result<Ast, String>)
        ensures
            final(self).tokens == old(self).tokens,
            !old(self).wf() ==> r is Err,
            old(self).wf() ==> match parse_program(old(self).tokens@, old(self).pos as int) {
                Some(stmts) => r is Ok && r->Ok_0@ == stmts,
                None => r is Err,
            },
    {
        if self.tokens.len() == 0 || self.pos >= self.tokens.len() {
            return Err("expected tokens ending with the end of input".to_string());
        }
        match &self.tokens[self.tokens.len() - 1].kind {
            TokenKind::Eof => {},
            _ => return Err("expected tokens ending with the end of input".to_string()),
        }
        let ghost toks = self.tokens@;
        let ghost t0 = self.tokens;
        let ghost pos0 = self.pos as int;
        let mut nodes: Vec<Stmt> = Vec::new();
        loop
            invariant
                self.wf(),
                self.tokens == t0,
                t0 == old(self).tokens,
                t0@ == toks,
                pos0 == old(self).pos,
                parse_program(toks, pos0) == match parse_program(toks, self.pos as int) {
                    Some(rest) => Some(Seq::new(nodes.len() as nat, |i: int| nodes[i]@) + rest),
                    None => None::<Seq<StmtV>>,
                },
            ensures
                self.wf(),
                self.tokens == t0,
                parse_program(toks, pos0) == match parse_program(toks, self.pos as int) {
                    Some(rest) => Some(Seq::new(nodes.len() as nat, |i: int| nodes[i]@) + rest),
                    None => None::<Seq<StmtV>>,
                },
                parse_program(toks, self.pos as int) == Some(Seq::<StmtV>::empty()),
            decreases self.tokens.len() - self.pos,
        {
            if self.pos >= self.tokens.len() {
                assert(parse_program(toks, self.pos as int) == Some(Seq::<StmtV>::empty()));
                break;
            }
            let mut eof = false;
            let mut blank = false;
            match &self.tokens[self.pos].kind {
                TokenKind::Eof => {
                    eof = true;
                },
                TokenKind::Newline => {
                    blank = true;
                },
                _ => {},
            }
            if eof {
                assert(parse_program(toks, self.pos as int) == Some(Seq::<StmtV>::empty()));
                break;
            }
            if blank {
                self.consume();
            } else {
                let ghost before = self.pos as int;
                let ghost old_nodes = nodes@;
                let st = match self.statement() {
                    Ok(st) => st,
                    Err(m) => {
                        assert(parse_program(toks, before) is None);
                        return Err(m);
                    },
                };
                nodes.push(st);
                assert(Seq::new(nodes.len() as nat, |i: int| nodes[i]@) =~= Seq::new(
                    old_nodes.len(),
                    |i: int| old_nodes[i]@,
                ) + seq![st@]);
            }
        }
        let ast = Ast { nodes };
        assert(ast@ =~= Seq::new(ast.nodes.len() as nat, |i: int| ast.nodes[i]@) + Seq::<StmtV>::empty());
        Ok(ast)
    }

    pub fn parse_ast(tokens: Vec<Token>) -> (r: Result<Ast, String>)
        ensures
            !ends_with_eof(tokens@) ==> r is Err,
            ends_with_eof(tokens@) ==> match parse_program(tokens@, 0) {
                Some(stmts) => r is Ok && r->Ok_0@ == stmts,
                None => r is Err,
            },
    {
        let mut parser = Parser::new(tokens);
        parser.parse()
    }
}

} // verus!
