//! The scanner: source text to tokens.
use crate::token::{Keyword, Lit, Token, TokenKind};
use vstd::prelude::*;
use vstd::string::StrSliceExecFns;

verus! {

/// Helper for reading a string one character at a time. `previous` marks
/// the start of the token being read, `current` the next character; both
/// count characters.
pub struct StringReader<'a> {
    pub current: usize,
    pub previous: usize,
    pub src: &'a str,
}

impl<'a> StringReader<'a> {
    pub open spec fn wf(&self) -> bool {
        self.previous <= self.current <= self.src@.len()
    }

    pub fn new(src: &'a str) -> (r: Self)
        ensures
            r.src == src,
            r.current == 0,
            r.previous == 0,
            r.wf(),
    {
        Self { src, current: 0, previous: 0 }
    }

    /// The text not yet read.
    pub fn remaining(&self) -> (r: &'a str)
        requires
            self.wf(),
        ensures
            r@ == self.src@.subrange(self.current as int, self.src@.len() as int),
    {
        let len = self.src.unicode_len();
        self.src.substring_char(self.current, len)
    }

    /// The next character, without reading it.
    pub fn peek(&self) -> (r: Option<&'a str>)
        requires
            self.wf(),
        ensures
            self.current < self.src@.len() ==> r is Some && r->Some_0@ == seq![self.src@[self.current as int]],
            self.current == self.src@.len() ==> r is None,
    {
        let len = self.src.unicode_len();
        if self.current >= len {
            None
        } else {
            let c = self.src.substring_char(self.current, self.current + 1);
            assert(c@ =~= seq![self.src@[self.current as int]]);
            Some(c)
        }
    }

    /// Reads the next character.
    pub fn advance(&mut self) -> (r: Option<&'a str>)
        requires
            old(self).wf(),
        ensures
            final(self).wf(),
            final(self).src == old(self).src,
            final(self).previous == old(self).previous,
            old(self).current < old(self).src@.len() ==> r is Some && r->Some_0@ == seq![
                old(self).src@[old(self).current as int],
            ] && final(self).current == old(self).current + 1,
            old(self).current == old(self).src@.len() ==> r is None && final(self).current
                == old(self).current,
    {
        let len = self.src.unicode_len();
        if self.current >= len {
            None
        } else {
            let c = self.src.substring_char(self.current, self.current + 1);
            assert(c@ =~= seq![self.src@[self.current as int]]);
            self.current = self.current + 1;
            Some(c)
        }
    }

    /// The text of the token just read; the next token starts here.
    pub fn next_token(&mut self) -> (r: &'a str)
        requires
            old(self).wf(),
        ensures
            final(self).wf(),
            final(self).src == old(self).src,
            final(self).current == old(self).current,
            final(self).previous == old(self).current,
            r@ == old(self).src@.subrange(old(self).previous as int, old(self).current as int),
    {
        let token = self.src.substring_char(self.previous, self.current);
        self.previous = self.current;
        token
    }
}

pub trait IntoStringReader {
    fn into_string_reader(&self) -> StringReader<'_>;
}

impl IntoStringReader for str {
    fn into_string_reader(&self) -> StringReader<'_> {
        StringReader::new(self)
    }
}

/// A decimal digit.
pub open spec fn is_digit(c: char) -> bool {
    '0' <= c <= '9'
}

/// Whitespace that separates tokens (a line break is a token of its own).
pub open spec fn is_blank(c: char) -> bool {
    c == ' ' || c == '\t' || c == '\r' || c == '\x0C'
}

/// A character that may start a name.
pub open spec fn is_name_start(c: char) -> bool {
    ('a' <= c <= 'z') || ('A' <= c <= 'Z') || c == '_'
}

/// A character that may continue a name.
pub open spec fn is_name_char(c: char) -> bool {
    is_name_start(c) || is_digit(c)
}

/// The token kind of a character that forms a token alone.
pub open spec fn symbol_kind(c: char) -> Option<TokenKind> {
    if c == '+' { Some(TokenKind::Plus) }
    else if c == '-' { Some(TokenKind::Hypen) }
    else if c == '*' { Some(TokenKind::Star) }
    else if c == '/' { Some(TokenKind::BackSlash) }
    else if c == '%' { Some(TokenKind::Modulo) }
    else if c == '.' { Some(TokenKind::Dot) }
    else if c == '~' { Some(TokenKind::Tilde) }
    else if c == '!' { Some(TokenKind::Bang) }
    else if c == ',' { Some(TokenKind::Comma) }
    else if c == '=' { Some(TokenKind::Assign) }
    else if c == '(' { Some(TokenKind::LParen) }
    else if c == ')' { Some(TokenKind::RParen) }
    else if c == '[' { Some(TokenKind::LBracket) }
    else if c == ']' { Some(TokenKind::RBracket) }
    else if c == '{' { Some(TokenKind::LBrace) }
    else if c == '}' { Some(TokenKind::RBrace) }
    else if c == '\n' { Some(TokenKind::Newline) }
    else { None }
}

/// The keyword that a name spells, if any.
pub open spec fn keyword_of(s: Seq<char>) -> Option<Keyword> {
    if s == seq!['c', 'l', 'a', 's', 's'] { Some(Keyword::Class) }
    else if s == seq!['f', 'u', 'n'] { Some(Keyword::Fun) }
    else if s == seq!['v', 'a', 'r'] { Some(Keyword::Var) }
    else if s == seq!['s', 'e', 'l', 'f'] { Some(Keyword::Slf) }
    else { None }
}

/// The value of a string of decimal digits.
pub open spec fn digits_value(s: Seq<char>) -> int
    decreases s.len(),
{
    if s.len() == 0 {
        0
    } else {
        digits_value(s.drop_last()) * 10 + (s.last() as int - '0' as int)
    }
}

/// The first position at or after `i` that is not blank.
pub open spec fn skip_blanks(s: Seq<char>, i: int) -> int
    decreases s.len() - i,
{
    if 0 <= i < s.len() && is_blank(s[i]) {
        skip_blanks(s, i + 1)
    } else {
        i
    }
}

/// The end of the run of decimal digits that starts at `i`.
pub open spec fn digit_run_end(s: Seq<char>, i: int) -> int
    decreases s.len() - i,
{
    if 0 <= i < s.len() && is_digit(s[i]) {
        digit_run_end(s, i + 1)
    } else {
        i
    }
}

/// The end of the run of name characters that starts at `i`.
pub open spec fn name_run_end(s: Seq<char>, i: int) -> int
    decreases s.len() - i,
{
    if 0 <= i < s.len() && is_name_char(s[i]) {
        name_run_end(s, i + 1)
    } else {
        i
    }
}

/// Whether every character of `c` is a decimal digit.
pub fn is_numeric(c: &str) -> (r: bool)
    ensures
        r == (forall|i: int| 0 <= i < c@.len() ==> is_digit(#[trigger] c@[i])),
{
    let n = c.unicode_len();
    let mut i: usize = 0;
    while i < n
        invariant
            n == c@.len(),
            i <= n,
            forall|j: int| 0 <= j < i ==> is_digit(#[trigger] c@[j]),
        decreases n - i,
    {
        let ch = c.get_char(i);
        if !('0' <= ch && ch <= '9') {
            return false;
        }
        i = i + 1;
    }
    true
}

/// Whether every character of `c` is blank.
pub fn is_whitespace(c: &str) -> (r: bool)
    ensures
        r == (forall|i: int| 0 <= i < c@.len() ==> is_blank(#[trigger] c@[i])),
{
    let n = c.unicode_len();
    let mut i: usize = 0;
    while i < n
        invariant
            n == c@.len(),
            i <= n,
            forall|j: int| 0 <= j < i ==> is_blank(#[trigger] c@[j]),
        decreases n - i,
    {
        let ch = c.get_char(i);
        if !(ch == ' ' || ch == '\t' || ch == '\r' || ch == '\x0C') {
            return false;
        }
        i = i + 1;
    }
    true
}

/// Whether two strings hold the same characters.
pub(crate) fn same_text(a: &str, b: &str) -> (r: bool)
    ensures
        r == (a@ == b@),
{
    let n = a.unicode_len();
    if n != b.unicode_len() {
        return false;
    }
    let mut i: usize = 0;
    while i < n
        invariant
            n == a@.len(),
            n == b@.len(),
            i <= n,
            forall|j: int| 0 <= j < i ==> a@[j] == b@[j],
        decreases n - i,
    {
        if a.get_char(i) != b.get_char(i) {
            return false;
        }
        i = i + 1;
    }
    assert(a@ =~= b@);
    true
}

/// The kind of a scanned name: a keyword or an identifier.
fn name_kind(text: &str) -> (r: TokenKind)
    ensures
        match keyword_of(text@) {
            Some(kw) => r == TokenKind::Keyword(kw),
            None => r is Ident && r->Ident_0@ == text@,
        },
{
    proof {
        reveal_strlit("class");
        reveal_strlit("fun");
        reveal_strlit("var");
        reveal_strlit("self");
        assert("class"@ =~= seq!['c', 'l', 'a', 's', 's']);
        assert("fun"@ =~= seq!['f', 'u', 'n']);
        assert("var"@ =~= seq!['v', 'a', 'r']);
        assert("self"@ =~= seq!['s', 'e', 'l', 'f']);
    }
    if same_text(text, "class") {
        TokenKind::Keyword(Keyword::Class)
    } else if same_text(text, "fun") {
        TokenKind::Keyword(Keyword::Fun)
    } else if same_text(text, "var") {
        TokenKind::Keyword(Keyword::Var)
    } else if same_text(text, "self") {
        TokenKind::Keyword(Keyword::Slf)
    } else {
        TokenKind::Ident(text.to_owned())
    }
}

/// The kind of a character that forms a token alone.
fn symbol(c: char) -> (r: Option<TokenKind>)
    ensures
        r == symbol_kind(c),
{
    if c == '+' { Some(TokenKind::Plus) }
    else if c == '-' { Some(TokenKind::Hypen) }
    else if c == '*' { Some(TokenKind::Star) }
    else if c == '/' { Some(TokenKind::BackSlash) }
    else if c == '%' { Some(TokenKind::Modulo) }
    else if c == '.' { Some(TokenKind::Dot) }
    else if c == '~' { Some(TokenKind::Tilde) }
    else if c == '!' { Some(TokenKind::Bang) }
    else if c == ',' { Some(TokenKind::Comma) }
    else if c == '=' { Some(TokenKind::Assign) }
    else if c == '(' { Some(TokenKind::LParen) }
    else if c == ')' { Some(TokenKind::RParen) }
    else if c == '[' { Some(TokenKind::LBracket) }
    else if c == ']' { Some(TokenKind::RBracket) }
    else if c == '{' { Some(TokenKind::LBrace) }
    else if c == '}' { Some(TokenKind::RBrace) }
    else if c == '\n' { Some(TokenKind::Newline) }
    else { None }
}

/// Where the token that starts at position `i` of `s` ends.
pub open spec fn token_end(s: Seq<char>, i: int) -> int {
    if i >= s.len() {
        s.len() as int
    } else if symbol_kind(s[i]) is Some {
        i + 1
    } else if is_digit(s[i]) {
        digit_run_end(s, i)
    } else if is_name_start(s[i]) {
        name_run_end(s, i)
    } else {
        i + 1
    }
}

/// Whether `kind` is the kind of the token that starts at position `i` of
/// `s` (which is not blank): a one-character symbol, an integer, a keyword
/// or an identifier, an unknown character, or the end of input.
pub open spec fn token_at(s: Seq<char>, i: int, kind: TokenKind) -> bool {
    if i >= s.len() {
        kind == TokenKind::Eof
    } else {
        let c = s[i];
        let text = s.subrange(i, token_end(s, i));
        match symbol_kind(c) {
            Some(k) => kind == k,
            None => if is_digit(c) {
                if digits_value(text) <= i64::MAX {
                    kind == TokenKind::Literal(Lit::Integer(digits_value(text) as i64))
                } else {
                    kind is Invalid && kind->Invalid_0@ == text
                }
            } else if is_name_start(c) {
                match keyword_of(text) {
                    Some(kw) => kind == TokenKind::Keyword(kw),
                    None => kind is Ident && kind->Ident_0@ == text,
                }
            } else {
                kind is Invalid && kind->Invalid_0@ == text
            },
        }
    }
}

/// The position in `s` after scanning `toks` from the start, each token
/// after the blanks before it; -1 where `toks` is not how `s` begins.
pub open spec fn scan_pos(s: Seq<char>, toks: Seq<Token>) -> int
    decreases toks.len(),
{
    if toks.len() == 0 {
        0
    } else {
        let p = scan_pos(s, toks.drop_last());
        let i = skip_blanks(s, p);
        if p >= 0 && token_at(s, i, toks.last().kind) {
            token_end(s, i)
        } else {
            -1
        }
    }
}

/// `toks` is the token list of `s`: every token up to and including the
/// first end of input.
pub open spec fn tokenization(s: Seq<char>, toks: Seq<Token>) -> bool {
    &&& toks.len() >= 1
    &&& toks.last().kind == TokenKind::Eof
    &&& forall|k: int| 0 <= k < toks.len() - 1 ==> toks[k].kind != TokenKind::Eof
    &&& scan_pos(s, toks) >= 0
}

/// The value of a string of decimal digits, where it fits in an `i64`.
fn decimal_value(text: &str) -> (r: Option<i64>)
    requires
        forall|i: int| 0 <= i < text@.len() ==> is_digit(#[trigger] text@[i]),
    ensures
        r is Some <==> digits_value(text@) <= i64::MAX,
        r is Some ==> r->Some_0 == digits_value(text@),
{
    let n = text.unicode_len();
    let mut v: i64 = 0;
    let mut over = false;
    let mut i: usize = 0;
    while i < n
        invariant
            n == text@.len(),
            i <= n,
            forall|j: int| 0 <= j < text@.len() ==> is_digit(#[trigger] text@[j]),
            !over ==> v == digits_value(text@.subrange(0, i as int)) && v >= 0,
            over ==> digits_value(text@.subrange(0, i as int)) > i64::MAX,
        decreases n - i,
    {
        let c = text.get_char(i);
        let d = (c as u32 - '0' as u32) as i64;
        let ghost prev = text@.subrange(0, i as int);
        let ghost next = text@.subrange(0, i + 1);
        assert(next.drop_last() =~= prev);
        assert(next.last() == c);
        assert(digits_value(next) == digits_value(prev) * 10 + d);
        if !over {
            if v <= (i64::MAX - d) / 10 {
                assert(v * 10 + d <= i64::MAX) by (nonlinear_arith)
                    requires v <= (i64::MAX - d) / 10, 0 <= d <= 9;
                v = v * 10 + d;
            } else {
                assert(v * 10 + d > i64::MAX) by (nonlinear_arith)
                    requires v > (i64::MAX - d) / 10, 0 <= d <= 9;
                over = true;
            }
        } else {
            assert(digits_value(prev) * 10 + d > i64::MAX) by (nonlinear_arith)
                requires digits_value(prev) > i64::MAX, 0 <= d <= 9;
        }
        i = i + 1;
    }
    assert(text@.subrange(0, n as int) =~= text@);
    if over {
        None
    } else {
        Some(v)
    }
}

proof fn lemma_skip_blanks(s: Seq<char>, i: int)
    requires
        0 <= i <= s.len(),
    ensures
        i <= skip_blanks(s, i) <= s.len(),
    decreases s.len() - i,
{
    if i < s.len() && is_blank(s[i]) {
        lemma_skip_blanks(s, i + 1);
    }
}

proof fn lemma_digit_run(s: Seq<char>, i: int, j: int)
    requires
        0 <= i <= j < digit_run_end(s, i),
    ensures
        is_digit(s[j]),
    decreases j - i,
{
    if i < j {
        lemma_digit_run(s, i + 1, j);
    }
}

proof fn lemma_run_ends(s: Seq<char>, i: int)
    requires
        0 <= i <= s.len(),
    ensures
        i <= digit_run_end(s, i) <= s.len(),
        i <= name_run_end(s, i) <= s.len(),
    decreases s.len() - i,
{
    if i < s.len() {
        lemma_run_ends(s, i + 1);
    }
}

/// Generates a stream of [Token]s from input.
pub struct Lexer<'a> {
    pub reader: StringReader<'a>,
}

impl<'a> Lexer<'a> {
    pub fn new(src: &'a str) -> (r: Self)
        ensures
            r.reader.src == src,
            r.reader.current == 0,
            r.reader.previous == 0,
            r.reader.wf(),
    {
        Self { reader: StringReader::new(src) }
    }

    /// Skips blanks; the next token starts where this stops.
    fn skip_whitespace(&mut self)
        requires
            old(self).reader.wf(),
        ensures
            final(self).reader.wf(),
            final(self).reader.src == old(self).reader.src,
            final(self).reader.current == skip_blanks(old(self).reader.src@, old(self).reader.current as int),
            final(self).reader.previous == final(self).reader.current,
    {
        let n = self.reader.src.unicode_len();
        let ghost s = self.reader.src@;
        let ghost start = self.reader.current as int;
        let mut stop = false;
        while !stop && self.reader.current < n
            invariant
                n == s.len(),
                self.reader.src@ == s,
                self.reader.src == old(self).reader.src,
                self.reader.wf(),
                skip_blanks(s, self.reader.current as int) == skip_blanks(s, start),
                stop ==> skip_blanks(s, self.reader.current as int) == self.reader.current,
                start == old(self).reader.current,
            decreases n - self.reader.current, if stop { 0int } else { 1int },
        {
            let c = self.reader.src.get_char(self.reader.current);
            if !(c == ' ' || c == '\t' || c == '\r' || c == '\x0C') {
                stop = true;
            } else {
                self.reader.current = self.reader.current + 1;
            }
        }
        self.reader.previous = self.reader.current;
    }

    /// Reads the run of characters from the current one on that satisfy
    /// `digits` (decimal digits) or else name characters.
    fn read_run(&mut self, digits: bool)
        requires
            old(self).reader.wf(),
        ensures
            final(self).reader.wf(),
            final(self).reader.src == old(self).reader.src,
            final(self).reader.previous == old(self).reader.previous,
            digits ==> final(self).reader.current == digit_run_end(old(self).reader.src@, old(self).reader.current as int),
            !digits ==> final(self).reader.current == name_run_end(old(self).reader.src@, old(self).reader.current as int),
    {
        let n = self.reader.src.unicode_len();
        let ghost s = self.reader.src@;
        let ghost start = self.reader.current as int;
        let mut stop = false;
        while !stop && self.reader.current < n
            invariant
                n == s.len(),
                self.reader.src@ == s,
                self.reader.src == old(self).reader.src,
                self.reader.previous == old(self).reader.previous,
                self.reader.wf(),
                digits ==> digit_run_end(s, self.reader.current as int) == digit_run_end(s, start),
                !digits ==> name_run_end(s, self.reader.current as int) == name_run_end(s, start),
                stop && digits ==> digit_run_end(s, self.reader.current as int) == self.reader.current,
                stop && !digits ==> name_run_end(s, self.reader.current as int) == self.reader.current,
                start == old(self).reader.current,
            decreases n - self.reader.current, if stop { 0int } else { 1int },
        {
            let c = self.reader.src.get_char(self.reader.current);
            let ok = if digits {
                '0' <= c && c <= '9'
            } else {
                ('a' <= c && c <= 'z') || ('A' <= c && c <= 'Z') || c == '_' || ('0' <= c && c <= '9')
            };
            if !ok {
                stop = true;
            } else {
                self.reader.current = self.reader.current + 1;
            }
        }
    }

    /// Scans the next token: blanks are skipped, then one token is read
    /// (see `token_at`). At the end of input the token is `Eof`.
    pub fn next_token(&mut self) -> (r: Token)
        requires
            old(self).reader.wf(),
        ensures
            final(self).reader.wf(),
            final(self).reader.src == old(self).reader.src,
            token_at(old(self).reader.src@, skip_blanks(old(self).reader.src@, old(self).reader.current as int), r.kind),
            final(self).reader.current == token_end(
                old(self).reader.src@,
                skip_blanks(old(self).reader.src@, old(self).reader.current as int),
            ),
            final(self).reader.previous == final(self).reader.current,
    {
        let ghost s = self.reader.src@;
        self.skip_whitespace();
        let ghost i = self.reader.current as int;
        proof {
            lemma_run_ends(s, i);
        }
        let n = self.reader.src.unicode_len();
        if self.reader.current >= n {
            return Token::new(TokenKind::Eof);
        }
        let c = self.reader.src.get_char(self.reader.current);
        if let Some(k) = symbol(c) {
            self.reader.current = self.reader.current + 1;
            self.reader.previous = self.reader.current;
            return Token::new(k);
        }
        if '0' <= c && c <= '9' {
            self.read_run(true);
            let text = self.reader.next_token();
            assert(forall|j: int| 0 <= j < text@.len() ==> is_digit(#[trigger] text@[j])) by {
                assert forall|j: int| 0 <= j < text@.len() implies is_digit(#[trigger] text@[j]) by {
                    lemma_digit_run(s, i, i + j);
                }
            }
            match decimal_value(text) {
                Some(v) => Token::literal(Lit::Integer(v)),
                None => Token::new(TokenKind::Invalid(text.to_owned())),
            }
        } else if ('a' <= c && c <= 'z') || ('A' <= c && c <= 'Z') || c == '_' {
            self.read_run(false);
            let text = self.reader.next_token();
            Token::new(name_kind(text))
        } else {
            self.reader.current = self.reader.current + 1;
            let text = self.reader.next_token();
            Token::new(TokenKind::Invalid(text.to_owned()))
        }
    }

    /// Scans the whole source: every token up to and including the first
    /// `Eof` (see `scan_pos`).
    pub fn tokenize(src: &'a str) -> (r: Vec<Token>)
        ensures
            tokenization(src@, r@),
    {
        let mut lexer = Lexer::new(src);
        let mut tokens: Vec<Token> = Vec::new();
        let ghost s = src@;
        loop
            invariant
                lexer.reader.wf(),
                lexer.reader.src == src,
                s == src@,
                scan_pos(s, tokens@) == lexer.reader.current,
                forall|k: int| 0 <= k < tokens.len() ==> tokens@[k].kind != TokenKind::Eof,
            decreases s.len() - lexer.reader.current,
        {
            let ghost before = tokens@;
            let ghost cur = lexer.reader.current as int;
            proof {
                lemma_skip_blanks(s, cur);
                let i = skip_blanks(s, cur);
                lemma_run_ends(s, i);
                if i < s.len() {
                    lemma_run_ends(s, i + 1);
                }
            }
            let t = lexer.next_token();
            let eof = match &t.kind {
                TokenKind::Eof => true,
                _ => false,
            };
            tokens.push(t);
            assert(tokens@.drop_last() =~= before);
            if eof {
                return tokens;
            }
        }
    }
}

} // verus!
