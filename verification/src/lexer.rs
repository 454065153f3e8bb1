//! The lexer: source text to a sequence of classified tokens.
//!
//! `spec_tokenize` is the specification: a recursive function over the
//! source's characters that either produces the model token stream or the
//! first lexical error. The executable `tokenize` is proved to return
//! exactly that.

use vstd::prelude::*;
use vstd::string::StrSliceExecFns;
use vstd::string::StringExecFns;

use crate::strutil::is_digit;
use crate::strutil::is_digit_char;
use crate::strutil::str_eq;

verus! {

#[derive(Debug, Clone, Copy, PartialEq, Eq, Hash, Structural)]
pub enum TokenType {
    // Literal kinds
    Number,
    String,
    Identifier,
    // Keywords
    Let,
    Const,
    Func,
    // Grouping and operators
    BinaryOperator,
    Equals,
    OpenParen,
    CloseParen,
    // Delimiters
    Comma,
    Colon,
    Semicolon,
    Dot,
    OpenBrace,
    CloseBrace,
    OpenBracket,
    CloseBracket,
    // End of input
    EOF,
}

/// A lexical error, with the line on which it arose.
#[derive(Debug, Clone, Copy, PartialEq, Eq, Structural)]
pub enum LexError {
    /// A character outside the recognized alphabet.
    UnrecognizedChar { c: char, line: usize },
    /// A string literal with no closing quote before the end of input.
    UnterminatedString { line: usize },
    /// A backslash followed by a character that is not a known escape.
    InvalidEscape { c: char, line: usize },
    /// A digit run followed by '.' with no digit after it.
    MalformedNumber { line: usize },
}

#[derive(Debug)]
pub struct Token {
    pub value: String,
    pub t: TokenType,
    pub line: usize,
}

impl Clone for Token {
    fn clone(&self) -> (r: Token)
        ensures
            r@ == self@,
    {
        Token { value: self.value.clone(), t: self.t, line: self.line }
    }
}

/// The mathematical model of a token: its lexeme as a character sequence,
/// its kind, and its line.
pub struct SpecToken {
    pub value: Seq<char>,
    pub t: TokenType,
    pub line: usize,
}

impl View for Token {
    type V = SpecToken;

    open spec fn view(&self) -> SpecToken {
        SpecToken { value: self.value@, t: self.t, line: self.line }
    }
}

impl Token {
    pub fn new(value: String, t: TokenType, line: usize) -> (r: Token)
        ensures
            r@.value == value@,
            r@.t == t,
            r@.line == line,
    {
        Token { value, t, line }
    }
}

/// The views of a sequence of tokens.
pub open spec fn toks_deep(v: Seq<Token>) -> Seq<SpecToken> {
    v.map_values(|t: Token| t@)
}

pub proof fn lemma_toks_deep_push(s: Seq<Token>, t: Token)
    ensures
        toks_deep(s.push(t)) == toks_deep(s).push(t@),
{
    assert(toks_deep(s.push(t)) =~= toks_deep(s).push(t@));
}

/// Whitespace, as Rust's `char::is_whitespace` recognizes it: the
/// characters with the Unicode `White_Space` property. A newline is listed
/// here too, though the lexer handles it first, to count lines.
pub open spec fn is_space_char(c: char) -> bool {
    ||| c == ' '
    ||| c == '\t'
    ||| c == '\n'
    ||| c == '\u{000B}'
    ||| c == '\u{000C}'
    ||| c == '\r'
    ||| c == '\u{0085}'
    ||| c == '\u{00A0}'
    ||| c == '\u{1680}'
    ||| (0x2000 <= c as u32 <= 0x200A)
    ||| c == '\u{2028}'
    ||| c == '\u{2029}'
    ||| c == '\u{202F}'
    ||| c == '\u{205F}'
    ||| c == '\u{3000}'
}

pub open spec fn is_alpha_char(c: char) -> bool {
    (65 <= c as u32 <= 90) || (97 <= c as u32 <= 122) || c == '_'
}

pub open spec fn is_ident_char(c: char) -> bool {
    is_alpha_char(c) || is_digit_char(c)
}

fn is_space(c: char) -> (r: bool)
    ensures
        r == is_space_char(c),
{
    let u = c as u32;
    c == ' ' || c == '\t' || c == '\n' || c == '\u{000B}' || c == '\u{000C}' || c == '\r' || c
        == '\u{0085}' || c == '\u{00A0}' || c == '\u{1680}' || (0x2000 <= u && u <= 0x200A) || c
        == '\u{2028}' || c == '\u{2029}' || c == '\u{202F}' || c == '\u{205F}' || c == '\u{3000}'
}

fn is_alpha(c: char) -> (r: bool)
    ensures
        r == is_alpha_char(c),
{
    let u = c as u32;
    (65 <= u && u <= 90) || (97 <= u && u <= 122) || c == '_'
}

fn is_ident(c: char) -> (r: bool)
    ensures
        r == is_ident_char(c),
{
    is_alpha(c) || is_digit(c)
}

/// The keyword table: an identifier lexeme is reclassified by exact match.
pub open spec fn keyword_type(s: Seq<char>) -> TokenType {
    if s == "let"@ {
        TokenType::Let
    } else if s == "const"@ {
        TokenType::Const
    } else if s == "func"@ {
        TokenType::Func
    } else {
        TokenType::Identifier
    }
}

fn classify_ident(s: &str) -> (t: TokenType)
    ensures
        t == keyword_type(s@),
{
    if str_eq(s, "let") {
        TokenType::Let
    } else if str_eq(s, "const") {
        TokenType::Const
    } else if str_eq(s, "func") {
        TokenType::Func
    } else {
        TokenType::Identifier
    }
}

/// The recognized string-literal escapes.
pub open spec fn escape_value(c: char) -> Option<char> {
    if c == 'n' {
        Some('\n')
    } else if c == 'r' {
        Some('\r')
    } else if c == 't' {
        Some('\t')
    } else if c == '0' {
        Some('\0')
    } else if c == '"' {
        Some('"')
    } else if c == '\'' {
        Some('\'')
    } else if c == '\\' {
        Some('\\')
    } else {
        None
    }
}

fn escape_char(c: char) -> (r: Option<char>)
    ensures
        r == escape_value(c),
{
    if c == 'n' {
        Some('\n')
    } else if c == 'r' {
        Some('\r')
    } else if c == 't' {
        Some('\t')
    } else if c == '0' {
        Some('\0')
    } else if c == '"' {
        Some('"')
    } else if c == '\'' {
        Some('\'')
    } else if c == '\\' {
        Some('\\')
    } else {
        None
    }
}

/// The line counter saturates rather than wrap.
pub open spec fn bump_line(line: usize) -> usize {
    if line < usize::MAX {
        (line + 1) as usize
    } else {
        line
    }
}

fn bump(line: usize) -> (r: usize)
    ensures
        r == bump_line(line),
{
    if line < usize::MAX {
        line + 1
    } else {
        line
    }
}

/// The end of the identifier run starting at `i`.
pub open spec fn ident_end(src: Seq<char>, i: int) -> int
    decreases src.len() - i,
{
    if 0 <= i < src.len() && is_ident_char(src[i]) {
        ident_end(src, i + 1)
    } else {
        i
    }
}

pub proof fn lemma_ident_end_bounds(src: Seq<char>, i: int)
    requires
        0 <= i <= src.len(),
    ensures
        i <= ident_end(src, i) <= src.len(),
    decreases src.len() - i,
{
    if i < src.len() && is_ident_char(src[i]) {
        lemma_ident_end_bounds(src, i + 1);
    }
}

/// The end of the digit run starting at `i`.
pub open spec fn digits_end(src: Seq<char>, i: int) -> int
    decreases src.len() - i,
{
    if 0 <= i < src.len() && is_digit_char(src[i]) {
        digits_end(src, i + 1)
    } else {
        i
    }
}

pub proof fn lemma_digits_end_bounds(src: Seq<char>, i: int)
    requires
        0 <= i <= src.len(),
    ensures
        i <= digits_end(src, i) <= src.len(),
    decreases src.len() - i,
{
    if i < src.len() && is_digit_char(src[i]) {
        lemma_digits_end_bounds(src, i + 1);
    }
}

/// The body of a string literal, scanned from just after the opening quote:
/// the decoded contents and the position just after the closing quote.
pub open spec fn lex_string_body(src: Seq<char>, i: int, line: usize, acc: Seq<char>) -> Result<
    (Seq<char>, int),
    LexError,
>
    decreases src.len() - i,
{
    if i < 0 || i >= src.len() {
        Err(LexError::UnterminatedString { line })
    } else if src[i] == '\\' {
        if i + 1 >= src.len() {
            Err(LexError::UnterminatedString { line })
        } else {
            match escape_value(src[i + 1]) {
                Some(e) => lex_string_body(src, i + 2, line, acc.push(e)),
                None => Err(LexError::InvalidEscape { c: src[i + 1], line }),
            }
        }
    } else if src[i] == '"' {
        Ok((acc, i + 1))
    } else {
        lex_string_body(src, i + 1, line, acc.push(src[i]))
    }
}

pub proof fn lemma_lex_string_body_bounds(src: Seq<char>, i: int, line: usize, acc: Seq<char>)
    requires
        lex_string_body(src, i, line, acc) is Ok,
    ensures
        i < lex_string_body(src, i, line, acc)->Ok_0.1 <= src.len(),
    decreases src.len() - i,
{
    if 0 <= i < src.len() {
        if src[i] == '\\' {
            if i + 1 < src.len() {
                match escape_value(src[i + 1]) {
                    Some(e) => lemma_lex_string_body_bounds(src, i + 2, line, acc.push(e)),
                    None => {},
                }
            }
        } else if src[i] == '"' {
        } else {
            lemma_lex_string_body_bounds(src, i + 1, line, acc.push(src[i]));
        }
    }
}

/// A numeric lexeme starting at the digit at `i`: a digit run, optionally
/// followed by '.' and a further digit run. A '.' with no digit after it is
/// a malformed number.
pub open spec fn lex_number(src: Seq<char>, i: int, line: usize) -> Result<(Seq<char>, int), LexError> {
    let e = digits_end(src, i);
    if e < src.len() && src[e] == '.' {
        if e + 1 < src.len() && is_digit_char(src[e + 1]) {
            let e2 = digits_end(src, e + 1);
            Ok((src.subrange(i, e2), e2))
        } else {
            Err(LexError::MalformedNumber { line })
        }
    } else {
        Ok((src.subrange(i, e), e))
    }
}

pub open spec fn single_tok(c: char) -> Option<TokenType> {
    if c == '(' {
        Some(TokenType::OpenParen)
    } else if c == ')' {
        Some(TokenType::CloseParen)
    } else if c == '{' {
        Some(TokenType::OpenBrace)
    } else if c == '}' {
        Some(TokenType::CloseBrace)
    } else if c == '[' {
        Some(TokenType::OpenBracket)
    } else if c == ']' {
        Some(TokenType::CloseBracket)
    } else if c == '+' || c == '-' || c == '*' || c == '/' || c == '%' {
        Some(TokenType::BinaryOperator)
    } else if c == ';' {
        Some(TokenType::Semicolon)
    } else if c == ':' {
        Some(TokenType::Colon)
    } else if c == ',' {
        Some(TokenType::Comma)
    } else if c == '.' {
        Some(TokenType::Dot)
    } else {
        None
    }
}

fn single_token_type(c: char) -> (r: Option<TokenType>)
    ensures
        r == single_tok(c),
{
    if c == '(' {
        Some(TokenType::OpenParen)
    } else if c == ')' {
        Some(TokenType::CloseParen)
    } else if c == '{' {
        Some(TokenType::OpenBrace)
    } else if c == '}' {
        Some(TokenType::CloseBrace)
    } else if c == '[' {
        Some(TokenType::OpenBracket)
    } else if c == ']' {
        Some(TokenType::CloseBracket)
    } else if c == '+' || c == '-' || c == '*' || c == '/' || c == '%' {
        Some(TokenType::BinaryOperator)
    } else if c == ';' {
        Some(TokenType::Semicolon)
    } else if c == ':' {
        Some(TokenType::Colon)
    } else if c == ',' {
        Some(TokenType::Comma)
    } else if c == '.' {
        Some(TokenType::Dot)
    } else {
        None
    }
}

pub open spec fn mk_tok(value: Seq<char>, t: TokenType, line: usize) -> SpecToken {
    SpecToken { value, t, line }
}

/// The lexer proper: scans from position `i` on line `line`, with `acc` the
/// tokens already produced, and ends every successful scan with one EOF
/// token. `==` and `!=` lex as two-character BinaryOperator tokens; a lone
/// `!` is unrecognized.
pub open spec fn lex_from(src: Seq<char>, i: int, line: usize, acc: Seq<SpecToken>) -> Result<
    Seq<SpecToken>,
    LexError,
>
    decreases src.len() - i,
    via lex_from_decreases
{
    if i < 0 || i >= src.len() {
        Ok(acc.push(mk_tok("EndOfFile"@, TokenType::EOF, line)))
    } else {
        let c = src[i];
        if c == '\n' {
            lex_from(src, i + 1, bump_line(line), acc)
        } else if is_space_char(c) {
            lex_from(src, i + 1, line, acc)
        } else if single_tok(c) is Some {
            lex_from(src, i + 1, line, acc.push(mk_tok(seq![c], single_tok(c)->0, line)))
        } else if c == '=' {
            if i + 1 < src.len() && src[i + 1] == '=' {
                lex_from(src, i + 2, line, acc.push(mk_tok("=="@, TokenType::BinaryOperator, line)))
            } else {
                lex_from(src, i + 1, line, acc.push(mk_tok("="@, TokenType::Equals, line)))
            }
        } else if c == '!' {
            if i + 1 < src.len() && src[i + 1] == '=' {
                lex_from(src, i + 2, line, acc.push(mk_tok("!="@, TokenType::BinaryOperator, line)))
            } else {
                Err(LexError::UnrecognizedChar { c: '!', line })
            }
        } else if c == '"' {
            match lex_string_body(src, i + 1, line, Seq::empty()) {
                Ok(body) => lex_from(
                    src,
                    body.1,
                    line,
                    acc.push(mk_tok(body.0, TokenType::String, line)),
                ),
                Err(e) => Err(e),
            }
        } else if is_digit_char(c) {
            match lex_number(src, i, line) {
                Ok(num) => lex_from(src, num.1, line, acc.push(mk_tok(num.0, TokenType::Number, line))),
                Err(e) => Err(e),
            }
        } else if is_alpha_char(c) {
            let e = ident_end(src, i);
            let name = src.subrange(i, e);
            lex_from(src, e, line, acc.push(mk_tok(name, keyword_type(name), line)))
        } else {
            Err(LexError::UnrecognizedChar { c, line })
        }
    }
}

#[via_fn]
proof fn lex_from_decreases(src: Seq<char>, i: int, line: usize, acc: Seq<SpecToken>) {
    if 0 <= i < src.len() {
        let c = src[i];
        if c == '"' {
            match lex_string_body(src, i + 1, line, Seq::empty()) {
                Ok(body) => {
                    lemma_lex_string_body_bounds(src, i + 1, line, Seq::empty());
                },
                Err(_) => {},
            }
        } else if is_digit_char(c) && single_tok(c) is None {
            lemma_digits_end_bounds(src, i + 1);
            let e = digits_end(src, i);
            if e < src.len() && src[e] == '.' && e + 1 < src.len() && is_digit_char(src[e + 1]) {
                lemma_digits_end_bounds(src, e + 2);
            }
        } else if is_alpha_char(c) {
            lemma_ident_end_bounds(src, i + 1);
        }
    }
}

/// The token stream of a source text: tokens in order of appearance, ending
/// with one EOF token, or the first lexical error.
pub open spec fn spec_tokenize(src: Seq<char>) -> Result<Seq<SpecToken>, LexError> {
    lex_from(src, 0, 1, Seq::empty())
}

pub proof fn lemma_lex_from_eof(src: Seq<char>, i: int, line: usize, acc: Seq<SpecToken>)
    requires
        forall|k: int| 0 <= k < acc.len() ==> (#[trigger] acc[k].t) != TokenType::EOF,
        lex_from(src, i, line, acc) is Ok,
    ensures
        lex_from(src, i, line, acc)->Ok_0.len() >= 1,
        lex_from(src, i, line, acc)->Ok_0.last().t == TokenType::EOF,
        forall|k: int|
            0 <= k < lex_from(src, i, line, acc)->Ok_0.len() - 1 ==> (#[trigger] lex_from(
                src,
                i,
                line,
                acc,
            )->Ok_0[k].t) != TokenType::EOF,
    decreases src.len() - i,
{
    if i < 0 || i >= src.len() {
    } else {
        let c = src[i];
        if c == '\n' {
            lemma_lex_from_eof(src, i + 1, bump_line(line), acc);
        } else if is_space_char(c) {
            lemma_lex_from_eof(src, i + 1, line, acc);
        } else if single_tok(c) is Some {
            lemma_lex_from_eof(src, i + 1, line, acc.push(mk_tok(seq![c], single_tok(c)->0, line)));
        } else if c == '=' {
            if i + 1 < src.len() && src[i + 1] == '=' {
                lemma_lex_from_eof(
                    src,
                    i + 2,
                    line,
                    acc.push(mk_tok("=="@, TokenType::BinaryOperator, line)),
                );
            } else {
                lemma_lex_from_eof(src, i + 1, line, acc.push(mk_tok("="@, TokenType::Equals, line)));
            }
        } else if c == '!' {
            if i + 1 < src.len() && src[i + 1] == '=' {
                lemma_lex_from_eof(
                    src,
                    i + 2,
                    line,
                    acc.push(mk_tok("!="@, TokenType::BinaryOperator, line)),
                );
            }
        } else if c == '"' {
            match lex_string_body(src, i + 1, line, Seq::empty()) {
                Ok(body) => {
                    lemma_lex_string_body_bounds(src, i + 1, line, Seq::empty());
                    lemma_lex_from_eof(
                        src,
                        body.1,
                        line,
                        acc.push(mk_tok(body.0, TokenType::String, line)),
                    );
                },
                Err(_) => {},
            }
        } else if is_digit_char(c) {
            lemma_digits_end_bounds(src, i + 1);
            let e0 = digits_end(src, i);
            if e0 < src.len() && src[e0] == '.' && e0 + 1 < src.len() && is_digit_char(src[e0 + 1]) {
                lemma_digits_end_bounds(src, e0 + 2);
            }
            match lex_number(src, i, line) {
                Ok(num) => {
                    lemma_lex_from_eof(src, num.1, line, acc.push(mk_tok(num.0, TokenType::Number, line)));
                },
                Err(_) => {},
            }
        } else if is_alpha_char(c) {
            lemma_ident_end_bounds(src, i + 1);
            let e = ident_end(src, i);
            let name = src.subrange(i, e);
            lemma_lex_from_eof(src, e, line, acc.push(mk_tok(name, keyword_type(name), line)));
        }
    }
}

/// Turns a source text into its token stream, or reports the first lexical
/// error. On success the stream ends with exactly one EOF token.
#[verifier::loop_isolation(false)]
pub fn tokenize(source_code: &str) -> (r: Result<Vec<Token>, LexError>)
    ensures
        match r {
            Ok(tokens) => {
                &&& spec_tokenize(source_code@) == Ok::<Seq<SpecToken>, LexError>(toks_deep(tokens@))
                &&& tokens@.len() >= 1
                &&& tokens@.last()@.t == TokenType::EOF
                &&& forall|k: int|
                    0 <= k < tokens@.len() - 1 ==> (#[trigger] tokens@[k]@.t) != TokenType::EOF
            },
            Err(e) => spec_tokenize(source_code@) == Err::<Seq<SpecToken>, LexError>(e),
        },
{
    let src = source_code;
    let n = src.unicode_len();
    let mut tokens: Vec<Token> = Vec::new();
    proof {
        assert(toks_deep(tokens@) =~= Seq::<SpecToken>::empty());
    }
    let mut i: usize = 0;
    let mut line: usize = 1;
    while i < n
        invariant
            0 <= i <= n,
            n == src@.len(),
            spec_tokenize(src@) == lex_from(src@, i as int, line, toks_deep(tokens@)),
        decreases n - i,
    {
        let ghost acc0 = toks_deep(tokens@);
        let ghost i0 = i as int;
        let ghost line0 = line;
        let c = src.get_char(i);
        if c == '\n' {
            line = bump(line);
            i = i + 1;
        } else if is_space(c) {
            i = i + 1;
        } else {
            match single_token_type(c) {
                Some(tt) => {
                    let mut lex = String::new();
                    lex.push(c);
                    let tk = Token::new(lex, tt, line);
                    proof {
                        assert(tk@.value =~= seq![c]);
                        lemma_toks_deep_push(tokens@, tk);
                    }
                    tokens.push(tk);
                    i = i + 1;
                },
                None => {
                    if c == '=' {
                        if i + 1 < n && src.get_char(i + 1) == '=' {
                            let tk = Token::new(String::from_str("=="), TokenType::BinaryOperator, line);
                            proof {
                                lemma_toks_deep_push(tokens@, tk);
                            }
                            tokens.push(tk);
                            i = i + 2;
                        } else {
                            let tk = Token::new(String::from_str("="), TokenType::Equals, line);
                            proof {
                                lemma_toks_deep_push(tokens@, tk);
                            }
                            tokens.push(tk);
                            i = i + 1;
                        }
                    } else if c == '!' {
                        if i + 1 < n && src.get_char(i + 1) == '=' {
                            let tk = Token::new(String::from_str("!="), TokenType::BinaryOperator, line);
                            proof {
                                lemma_toks_deep_push(tokens@, tk);
                            }
                            tokens.push(tk);
                            i = i + 2;
                        } else {
                            return Err(LexError::UnrecognizedChar { c: '!', line });
                        }
                    } else if c == '"' {
                        // String literal: scan the body, decoding escapes.
                        let mut j: usize = i + 1;
                        let mut content = String::new();
                        loop
                            invariant
                                i as int + 1 <= j as int <= n,
                                n == src@.len(),
                                0 <= i < n,
                                lex_string_body(src@, i as int + 1, line, Seq::empty())
                                    == lex_string_body(src@, j as int, line, content@),
                            decreases n - j,
                        {
                            if j >= n {
                                return Err(LexError::UnterminatedString { line });
                            }
                            let cj = src.get_char(j);
                            if cj == '\\' {
                                if j + 1 >= n {
                                    return Err(LexError::UnterminatedString { line });
                                }
                                let c2 = src.get_char(j + 1);
                                match escape_char(c2) {
                                    Some(e) => {
                                        content.push(e);
                                        j = j + 2;
                                    },
                                    None => {
                                        return Err(LexError::InvalidEscape { c: c2, line });
                                    },
                                }
                            } else if cj == '"' {
                                j = j + 1;
                                break;
                            } else {
                                content.push(cj);
                                j = j + 1;
                            }
                        }
                        let tk = Token::new(content, TokenType::String, line);
                        proof {
                            lemma_toks_deep_push(tokens@, tk);
                        }
                        tokens.push(tk);
                        i = j;
                    } else if is_digit(c) {
                        // Numeric literal: digits, optionally '.' digits.
                        let mut e: usize = i;
                        while e < n && is_digit(src.get_char(e))
                            invariant
                                i as int <= e as int <= n,
                                n == src@.len(),
                                digits_end(src@, i as int) == digits_end(src@, e as int),
                            decreases n - e,
                        {
                            e = e + 1;
                        }
                        assert(digits_end(src@, i as int) == e as int);
                        let mut end: usize = e;
                        if e < n && src.get_char(e) == '.' {
                            if e + 1 < n && is_digit(src.get_char(e + 1)) {
                                let mut e2: usize = e + 1;
                                while e2 < n && is_digit(src.get_char(e2))
                                    invariant
                                        e as int + 1 <= e2 as int <= n,
                                        n == src@.len(),
                                        digits_end(src@, e as int + 1) == digits_end(src@, e2 as int),
                                    decreases n - e2,
                                {
                                    e2 = e2 + 1;
                                }
                                assert(digits_end(src@, e as int + 1) == e2 as int);
                                end = e2;
                            } else {
                                return Err(LexError::MalformedNumber { line });
                            }
                        }
                        let lexeme = src.substring_char(i, end);
                        let tk = Token::new(String::from_str(lexeme), TokenType::Number, line);
                        proof {
                            assert(lexeme@ =~= src@.subrange(i as int, end as int));
                            lemma_toks_deep_push(tokens@, tk);
                        }
                        tokens.push(tk);
                        i = end;
                    } else if is_alpha(c) {
                        // Identifier or keyword.
                        let mut e: usize = i;
                        while e < n && is_ident(src.get_char(e))
                            invariant
                                i as int <= e as int <= n,
                                n == src@.len(),
                                ident_end(src@, i as int) == ident_end(src@, e as int),
                            decreases n - e,
                        {
                            e = e + 1;
                        }
                        assert(ident_end(src@, i as int) == e as int);
                        let lexeme = src.substring_char(i, e);
                        let tt = classify_ident(lexeme);
                        let tk = Token::new(String::from_str(lexeme), tt, line);
                        proof {
                            assert(lexeme@ =~= src@.subrange(i as int, e as int));
                            lemma_toks_deep_push(tokens@, tk);
                        }
                        tokens.push(tk);
                        i = e;
                    } else {
                        return Err(LexError::UnrecognizedChar { c, line });
                    }
                },
            }
        }
    }
    let tk = Token::new(String::from_str("EndOfFile"), TokenType::EOF, line);
    proof {
        lemma_toks_deep_push(tokens@, tk);
    }
    tokens.push(tk);
    proof {
        assert(tk@ == mk_tok("EndOfFile"@, TokenType::EOF, line));
        let ts = toks_deep(tokens@);
        assert(spec_tokenize(src@) == Ok::<Seq<SpecToken>, LexError>(ts));
        lemma_lex_from_eof(src@, 0, 1, Seq::empty());
        assert(lex_from(src@, 0, 1, Seq::empty())->Ok_0 == ts);
        assert(ts.last().t == TokenType::EOF);
        assert(tokens@.last()@ == ts[tokens@.len() - 1]);
        assert forall|k: int| 0 <= k < tokens@.len() - 1 implies (#[trigger] tokens@[k]@.t)
            != TokenType::EOF by {
            assert(tokens@[k]@ == ts[k]);
            assert(ts[k].t != TokenType::EOF);
        }
    }
    Ok(tokens)
}

} // verus!
