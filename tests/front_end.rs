use thrush::ast::{BinOp, Expr, Lit, Stmt};
use thrush::lexer::{is_numeric, is_whitespace, IntoStringReader, Lexer, StringReader};
use thrush::parser::{Parser, Precedence};
use thrush::token::{self, Keyword, Token, TokenKind};

fn lit_int(v: i64) -> Box<Expr> {
    Box::new(Expr::Literal(Lit::Integer(v)))
}

fn parse_first(src: &str) -> Result<Stmt, String> {
    let mut parser = Parser::new(Lexer::tokenize(src));
    parser.parse().map(|mut ast| ast.nodes.remove(0))
}

#[test]
fn test_fn_hash() {
    assert_eq!(thrush::hash::Hash::of("name"), thrush::hash::Hash::of("name"));
    assert_ne!(thrush::hash::Hash::of("a"), thrush::hash::Hash::of("b"));
}

#[test]
fn test_token() {
    let tokens = [
        ("1", Token::literal(token::Lit::Integer(1))),
        ("123", Token::literal(token::Lit::Integer(123))),
        ("+", Token::new(TokenKind::Plus)),
        ("-", Token::new(TokenKind::Hypen)),
        ("/", Token::new(TokenKind::BackSlash)),
        ("*", Token::new(TokenKind::Star)),
        ("~", Token::new(TokenKind::Tilde)),
        ("!", Token::new(TokenKind::Bang)),
        ("(", Token::new(TokenKind::LParen)),
        (")", Token::new(TokenKind::RParen)),
        (" ", Token::new(TokenKind::Eof)),
    ];

    for (string, token) in tokens {
        let lexer = &mut Lexer::new(string);

        assert_eq!(lexer.next_token(), token);
    }
}

#[test]
fn test_parser() {
    let mut parser = Parser::new(Lexer::tokenize("4 + 2 * 5"));

    assert_eq!(
        parser.parse().unwrap().nodes[0],
        Stmt::Expr(Expr::BinExpr {
            left: Box::new(Expr::Literal(Lit::Integer(4))),
            right: Box::new(Expr::BinExpr {
                left: Box::new(Expr::Literal(Lit::Integer(2))),
                right: Box::new(Expr::Literal(Lit::Integer(5))),
                op: BinOp::Mul,
            }),
            op: BinOp::Add,
        })
    );
}

#[test]
fn subtraction_is_left_associative() {
    assert_eq!(
        parse_first("1 - 2 - 3").unwrap(),
        Stmt::Expr(Expr::binary_expr(
            BinOp::Sub,
            Expr::binary_expr(BinOp::Sub, *lit_int(1), *lit_int(2)),
            *lit_int(3)
        ))
    );
}

#[test]
fn term_binds_tighter_on_the_left_too() {
    assert_eq!(
        parse_first("6 / 3 - 1").unwrap(),
        Stmt::Expr(Expr::binary_expr(
            BinOp::Sub,
            Expr::binary_expr(BinOp::Div, *lit_int(6), *lit_int(3)),
            *lit_int(1)
        ))
    );
}

#[test]
fn parentheses_group() {
    assert_eq!(
        parse_first("(1 + 2) % 3").unwrap(),
        Stmt::Expr(Expr::binary_expr(
            BinOp::Rem,
            Expr::binary_expr(BinOp::Add, *lit_int(1), *lit_int(2)),
            *lit_int(3)
        ))
    );
}

#[test]
fn prefix_operator_takes_the_rest_of_the_expression() {
    assert_eq!(
        parse_first("-1 + 2").unwrap(),
        Stmt::Expr(Expr::UnaryExpr {
            value: Box::new(Expr::binary_expr(BinOp::Add, *lit_int(1), *lit_int(2))),
            op: BinOp::Sub,
        })
    );
}

#[test]
fn call_and_property_access() {
    assert_eq!(
        parse_first("instance.sound()").unwrap(),
        Stmt::Expr(Expr::Call {
            callee: Box::new(Expr::Dot {
                object: Box::new(Expr::Identifier("instance".to_string())),
                property: Box::new(Expr::Identifier("sound".to_string())),
            }),
            args: Vec::new(),
        })
    );
}

#[test]
fn class_and_var_declarations() {
    let mut parser = Parser::new(Lexer::tokenize("class Bird {}\nvar instance = Bird()"));
    let ast = parser.parse().unwrap();
    assert_eq!(ast.nodes.len(), 2);
    assert_eq!(ast.nodes[0], Stmt::Class { name: "Bird".to_string() });
    assert_eq!(
        ast.nodes[1],
        Stmt::VarDecl {
            id: "instance".to_string(),
            init: Expr::Call { callee: Box::new(Expr::Identifier("Bird".to_string())), args: Vec::new() },
        }
    );
}

#[test]
fn syntax_errors_abort_the_parse() {
    assert!(parse_first("1 +").is_err());
    assert!(parse_first("1 2").is_err());
    assert!(parse_first("(1").is_err());
    assert!(parse_first("class {}").is_err());
    assert!(parse_first("class A {").is_err());
    assert!(parse_first("var = 1").is_err());
    assert!(parse_first("fun").is_err());
    assert!(parse_first("a.1").is_err());
    assert!(parse_first("#").is_err());
}

#[test]
fn empty_script_parses_to_nothing() {
    let mut parser = Parser::new(Lexer::tokenize(""));
    assert_eq!(parser.parse().unwrap().nodes.len(), 0);
    let mut parser = Parser::new(Lexer::tokenize("\n\n"));
    assert_eq!(parser.parse().unwrap().nodes.len(), 0);
}

#[test]
fn scanner_reads_names_keywords_and_symbols() {
    let kinds: Vec<TokenKind> = Lexer::tokenize("class Bird {}\nvar x = self.y, 12").into_iter().map(|t| t.kind).collect();
    assert_eq!(
        kinds,
        vec![
            TokenKind::Keyword(Keyword::Class),
            TokenKind::Ident("Bird".to_string()),
            TokenKind::LBrace,
            TokenKind::RBrace,
            TokenKind::Newline,
            TokenKind::Keyword(Keyword::Var),
            TokenKind::Ident("x".to_string()),
            TokenKind::Assign,
            TokenKind::Keyword(Keyword::Slf),
            TokenKind::Dot,
            TokenKind::Ident("y".to_string()),
            TokenKind::Comma,
            TokenKind::Literal(token::Lit::Integer(12)),
            TokenKind::Eof,
        ]
    );
}

#[test]
fn scanner_flags_unknown_text() {
    let kinds: Vec<TokenKind> = Lexer::tokenize("# 99999999999999999999").into_iter().map(|t| t.kind).collect();
    assert_eq!(
        kinds,
        vec![
            TokenKind::Invalid("#".to_string()),
            TokenKind::Invalid("99999999999999999999".to_string()),
            TokenKind::Eof,
        ]
    );
    let kinds: Vec<TokenKind> = Lexer::tokenize("9223372036854775807").into_iter().map(|t| t.kind).collect();
    assert_eq!(kinds[0], TokenKind::Literal(token::Lit::Integer(i64::MAX)));
}

#[test]
fn string_reader_walks_characters() {
    let mut reader = StringReader::new("aé+");
    assert_eq!(reader.peek(), Some("a"));
    assert_eq!(reader.advance(), Some("a"));
    assert_eq!(reader.advance(), Some("é"));
    assert_eq!(reader.remaining(), "+");
    assert_eq!(reader.next_token(), "aé");
    assert_eq!(reader.advance(), Some("+"));
    assert_eq!(reader.advance(), None);
    assert_eq!(reader.peek(), None);
    assert_eq!(reader.next_token(), "+");
    let reader = "xy".into_string_reader();
    assert_eq!(reader.remaining(), "xy");
}

#[test]
fn character_classes() {
    assert!(is_numeric("0123456789"));
    assert!(!is_numeric("12a"));
    assert!(is_whitespace(" \t\r"));
    assert!(!is_whitespace(" \n"));
}

#[test]
fn precedence_tiers() {
    assert_eq!(Precedence::Lowest.left(), Precedence::Sum);
    assert_eq!(Precedence::Sum.left(), Precedence::Term);
    assert_eq!(Precedence::Term.left(), Precedence::Call);
    assert_eq!(Precedence::Call.left(), Precedence::End);
    assert_eq!(BinOp::Rem.into_string(), "%");
    assert_eq!(BinOp::Bang.into_string(), "!");
}

#[test]
fn string_literal_is_no_primary_term() {
    let tokens = vec![Token::literal(token::Lit::String("s".to_string())), Token::new(TokenKind::Eof)];
    assert!(Parser::parse_ast(tokens).is_err());
    let tokens = vec![Token::new(TokenKind::RParen), Token::new(TokenKind::Eof)];
    assert!(Parser::parse_ast(tokens).is_err());
}

#[test]
fn consume_stays_on_the_last_token() {
    let mut parser = Parser::new(vec![Token::literal(token::Lit::Integer(1)), Token::new(TokenKind::Eof)]);
    parser.consume();
    assert_eq!(parser.pos, 1);
    parser.consume();
    assert_eq!(parser.pos, 1);
    let mut empty = Parser::new(Vec::new());
    empty.consume();
    assert_eq!(empty.pos, 0);
}

#[test]
fn tokens_must_end_with_the_end_of_input() {
    assert!(Parser::parse_ast(vec![Token::literal(token::Lit::Integer(1))]).is_err());
    assert!(Parser::parse_ast(Vec::new()).is_err());
    let mut parser = Parser::new(vec![Token::new(TokenKind::Eof)]);
    parser.pos = 3;
    assert!(parser.parse().is_err());
}
