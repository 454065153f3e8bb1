//! The parser: a token stream to a `Program` tree, by recursive descent
//! with explicit precedence levels, lowest to highest:
//!
//! ```text
//! statement      := variableDecl | functionDecl | expression ';'?
//! variableDecl   := ('let'|'const') IDENT ('=' expression)? ';'
//! functionDecl   := 'func' IDENT '(' params ')' '{' statement* '}'
//! expression     := assignment
//! assignment     := condition ('=' assignment)?        // right-associative
//! condition      := objectOrLower (('=='|'!='|'and'|'or') objectOrLower)*
//! objectOrLower  := objectLiteral (('.' primary) | ('[' expression ']') | ('(' args ')'))*
//!                 | additive
//! additive       := multiplicative (('+'|'-') multiplicative)*
//! multiplicative := callMember (('*'|'/'|'%') callMember)*
//! callMember     := primary (('.' primary) | ('[' expression ']') | ('(' args ')'))*
//! primary        := NUMBER | STRING | IDENT | '[' args? ']'
//!                 | 'func' '(' params ')' '{' statement* '}' | '(' expression ')'
//! ```
//!
//! The spec-level functions (`sp_parse_*`) define the parse exactly; each
//! executable function is proved to return what its spec counterpart says.
//! Every spec function carries a cursor and returns the cursor after the
//! parsed form. Termination of the recursion is justified by explicit
//! progress checks: where a subparse must have advanced the cursor and did
//! not, the parse stops with a `Stalled` error (the grammar never actually
//! produces one).

use vstd::prelude::*;

use crate::ast::ArrayLiteral;
use crate::ast::Assignment;
use crate::ast::Binary;
use crate::ast::CallExpr;
use crate::ast::Condition;
use crate::ast::Expression;
use crate::ast::FunctionDecleration;
use crate::ast::FunctionLiteral;
use crate::ast::Identifier;
use crate::ast::MemberExpr;
use crate::ast::NumericLiteral;
use crate::ast::ObjectLiteral;
use crate::ast::Program;
use crate::ast::Property;
use crate::ast::SpecExpr;
use crate::ast::SpecNode;
use crate::ast::SpecProp;
use crate::ast::SpecStmt;
use crate::ast::Statement;
use crate::ast::StatementOrExpression;
use crate::ast::StringLiteral;
use crate::ast::VariableDecleration;
use crate::ast::deep_expr;
use crate::ast::deep_exprs;
use crate::ast::deep_node;
use crate::ast::deep_nodes;
use crate::ast::deep_params;
use crate::ast::deep_props;
use crate::ast::lemma_deep_exprs_push;
use crate::ast::lemma_deep_nodes_push;
use crate::ast::lemma_deep_params_push;
use crate::ast::lemma_deep_props_push;
use crate::lexer::LexError;
use crate::lexer::SpecToken;
use crate::lexer::Token;
use crate::lexer::TokenType;
use crate::lexer::tokenize;
use crate::lexer::toks_deep;
use crate::strutil::int_lexeme_val;
use crate::strutil::parse_int_lexeme;
use crate::strutil::str_eq;

verus! {

/// A parse error, with the offending token where there is one.
#[derive(Debug)]
pub enum ParseError {
    /// A token no grammar rule expects in that position.
    UnexpectedToken { found: Token },
    /// A required token of a particular kind is missing.
    MissingToken { expected: TokenType, found: Token },
    /// `const` declared without an initializer.
    ConstWithoutValue { line: usize },
    /// A numeric literal with a fractional part, or one too large for a
    /// 64-bit integer. Numbers in this language are 64-bit integers.
    InvalidNumber { found: Token },
    /// The target of an assignment does not resolve to an identifier.
    InvalidAssignTarget { found: Token },
    /// The cursor ran past the token buffer (a defensive case; a stream
    /// ending in EOF never reaches it).
    UnexpectedEnd,
    /// A subparse failed to advance the cursor (a defensive case; the
    /// grammar never produces it).
    Stalled,
}

/// The model of a parse error.
pub enum SpecParseError {
    UnexpectedToken { found: SpecToken },
    MissingToken { expected: TokenType, found: SpecToken },
    ConstWithoutValue { line: usize },
    InvalidNumber { found: SpecToken },
    InvalidAssignTarget { found: SpecToken },
    UnexpectedEnd,
    Stalled,
}

pub open spec fn deep_perr(e: ParseError) -> SpecParseError {
    match e {
        ParseError::UnexpectedToken { found } => SpecParseError::UnexpectedToken { found: found@ },
        ParseError::MissingToken { expected, found } => SpecParseError::MissingToken {
            expected,
            found: found@,
        },
        ParseError::ConstWithoutValue { line } => SpecParseError::ConstWithoutValue { line },
        ParseError::InvalidNumber { found } => SpecParseError::InvalidNumber { found: found@ },
        ParseError::InvalidAssignTarget { found } => SpecParseError::InvalidAssignTarget {
            found: found@,
        },
        ParseError::UnexpectedEnd => SpecParseError::UnexpectedEnd,
        ParseError::Stalled => SpecParseError::Stalled,
    }
}

/// A failure of either front-end stage.
#[derive(Debug)]
pub enum SourceError {
    Lex(LexError),
    Parse(ParseError),
}

pub enum SpecSourceError {
    Lex(LexError),
    Parse(SpecParseError),
}

pub open spec fn deep_serr(e: SourceError) -> SpecSourceError {
    match e {
        SourceError::Lex(le) => SpecSourceError::Lex(le),
        SourceError::Parse(pe) => SpecSourceError::Parse(deep_perr(pe)),
    }
}

pub type SpecExprRes = Result<(SpecExpr, int), SpecParseError>;

pub type SpecNodeRes = Result<(SpecNode, int), SpecParseError>;

/// Whether a token is a condition operator: `==` or `!=` (lexed as
/// BinaryOperator tokens), or the identifiers `and` and `or`.
pub open spec fn is_cond_op(t: SpecToken) -> bool {
    (t.t == TokenType::BinaryOperator && (t.value == "=="@ || t.value == "!="@)) || (t.t
        == TokenType::Identifier && (t.value == "and"@ || t.value == "or"@))
}

pub open spec fn is_add_op(t: SpecToken) -> bool {
    t.t == TokenType::BinaryOperator && (t.value == "+"@ || t.value == "-"@)
}

pub open spec fn is_mult_op(t: SpecToken) -> bool {
    t.t == TokenType::BinaryOperator && (t.value == "*"@ || t.value == "/"@ || t.value == "%"@)
}

/// Statements of a program, up to the EOF token.
pub open spec fn sp_parse_prog_nodes(toks: Seq<SpecToken>, i: int, acc: Seq<SpecNode>) -> Result<
    Seq<SpecNode>,
    SpecParseError,
>
    decreases toks.len() - i, 12int,
{
    if i < 0 || i >= toks.len() {
        Err(SpecParseError::UnexpectedEnd)
    } else if toks[i].t == TokenType::EOF {
        Ok(acc)
    } else {
        match sp_parse_stmt(toks, i) {
            Ok(p) => if p.1 <= i || p.1 > toks.len() {
                Err(SpecParseError::Stalled)
            } else {
                sp_parse_prog_nodes(toks, p.1, acc.push(p.0))
            },
            Err(e) => Err(e),
        }
    }
}

/// One statement: a variable declaration, a function declaration, or an
/// expression statement with an optional trailing semicolon.
pub open spec fn sp_parse_stmt(toks: Seq<SpecToken>, i: int) -> SpecNodeRes
    decreases toks.len() - i, 11int,
{
    if i < 0 || i >= toks.len() {
        Err(SpecParseError::UnexpectedEnd)
    } else if toks[i].t == TokenType::Let || toks[i].t == TokenType::Const {
        sp_parse_var_decl(toks, i)
    } else if toks[i].t == TokenType::Func {
        sp_parse_fn_decl(toks, i)
    } else {
        match sp_parse_expr(toks, i) {
            Ok(p) => {
                let j = p.1;
                if 0 <= j < toks.len() && toks[j].t == TokenType::Semicolon {
                    Ok((SpecNode::Expr(p.0), j + 1))
                } else {
                    Ok((SpecNode::Expr(p.0), j))
                }
            },
            Err(e) => Err(e),
        }
    }
}

/// `('let'|'const') IDENT ('=' expression)? ';'` — a `const` without an
/// initializer is an error.
pub open spec fn sp_parse_var_decl(toks: Seq<SpecToken>, i: int) -> SpecNodeRes
    decreases toks.len() - i, 10int,
{
    if i < 0 || i + 1 >= toks.len() {
        Err(SpecParseError::UnexpectedEnd)
    } else {
        let is_const = toks[i].t == TokenType::Const;
        if toks[i + 1].t != TokenType::Identifier {
            Err(SpecParseError::MissingToken { expected: TokenType::Identifier, found: toks[i + 1] })
        } else {
            let name = toks[i + 1].value;
            if i + 2 >= toks.len() {
                Err(SpecParseError::UnexpectedEnd)
            } else if toks[i + 2].t == TokenType::Semicolon {
                if is_const {
                    Err(SpecParseError::ConstWithoutValue { line: toks[i + 2].line })
                } else {
                    Ok(
                        (
                            SpecNode::Stmt(SpecStmt::VarDecl { constant: false, name, init: None }),
                            i + 3,
                        ),
                    )
                }
            } else if toks[i + 2].t != TokenType::Equals {
                Err(SpecParseError::MissingToken { expected: TokenType::Equals, found: toks[i + 2] })
            } else {
                match sp_parse_expr(toks, i + 3) {
                    Ok(p) => {
                        let j = p.1;
                        if j < 0 || j >= toks.len() {
                            Err(SpecParseError::UnexpectedEnd)
                        } else if toks[j].t != TokenType::Semicolon {
                            Err(
                                SpecParseError::MissingToken {
                                    expected: TokenType::Semicolon,
                                    found: toks[j],
                                },
                            )
                        } else {
                            Ok(
                                (
                                    SpecNode::Stmt(
                                        SpecStmt::VarDecl {
                                            constant: is_const,
                                            name,
                                            init: Some(p.0),
                                        },
                                    ),
                                    j + 1,
                                ),
                            )
                        }
                    },
                    Err(e) => Err(e),
                }
            }
        }
    }
}

/// `'func' IDENT '(' params ')' '{' statement* '}'`.
pub open spec fn sp_parse_fn_decl(toks: Seq<SpecToken>, i: int) -> SpecNodeRes
    decreases toks.len() - i, 10int,
{
    if i < 0 || i + 1 >= toks.len() {
        Err(SpecParseError::UnexpectedEnd)
    } else if toks[i + 1].t != TokenType::Identifier {
        Err(SpecParseError::MissingToken { expected: TokenType::Identifier, found: toks[i + 1] })
    } else {
        let name = toks[i + 1].value;
        match sp_parse_params(toks, i + 2) {
            Ok(pp) => {
                let j = pp.1;
                if j <= i + 2 || j > toks.len() {
                    Err(SpecParseError::Stalled)
                } else {
                    match sp_parse_block(toks, j) {
                        Ok(bb) => Ok(
                            (
                                SpecNode::Stmt(
                                    SpecStmt::FnDecl { name, params: pp.0, body: bb.0 },
                                ),
                                bb.1,
                            ),
                        ),
                        Err(e) => Err(e),
                    }
                }
            },
            Err(e) => Err(e),
        }
    }
}

/// `'(' (IDENT (',' IDENT)*)? ')'`.
pub open spec fn sp_parse_params(toks: Seq<SpecToken>, i: int) -> Result<
    (Seq<Seq<char>>, int),
    SpecParseError,
>
    decreases toks.len() - i, 0int,
{
    if i < 0 || i + 1 >= toks.len() {
        Err(SpecParseError::UnexpectedEnd)
    } else if toks[i].t != TokenType::OpenParen {
        Err(SpecParseError::MissingToken { expected: TokenType::OpenParen, found: toks[i] })
    } else if toks[i + 1].t == TokenType::CloseParen {
        Ok((Seq::empty(), i + 2))
    } else {
        sp_parse_params_rest(toks, i + 1, Seq::empty())
    }
}

pub open spec fn sp_parse_params_rest(toks: Seq<SpecToken>, i: int, acc: Seq<Seq<char>>) -> Result<
    (Seq<Seq<char>>, int),
    SpecParseError,
>
    decreases toks.len() - i, 0int,
{
    if i < 0 || i + 1 >= toks.len() {
        Err(SpecParseError::UnexpectedEnd)
    } else if toks[i].t != TokenType::Identifier {
        Err(SpecParseError::MissingToken { expected: TokenType::Identifier, found: toks[i] })
    } else {
        let acc2 = acc.push(toks[i].value);
        if toks[i + 1].t == TokenType::Comma {
            sp_parse_params_rest(toks, i + 2, acc2)
        } else if toks[i + 1].t == TokenType::CloseParen {
            Ok((acc2, i + 2))
        } else {
            Err(SpecParseError::MissingToken { expected: TokenType::CloseParen, found: toks[i + 1] })
        }
    }
}

/// `'{' statement* '}'`.
pub open spec fn sp_parse_block(toks: Seq<SpecToken>, i: int) -> Result<
    (Seq<SpecNode>, int),
    SpecParseError,
>
    decreases toks.len() - i, 12int,
{
    if i < 0 || i >= toks.len() {
        Err(SpecParseError::UnexpectedEnd)
    } else if toks[i].t != TokenType::OpenBrace {
        Err(SpecParseError::MissingToken { expected: TokenType::OpenBrace, found: toks[i] })
    } else {
        sp_parse_stmts_until(toks, i + 1, Seq::empty())
    }
}

/// Statements up to a closing brace.
pub open spec fn sp_parse_stmts_until(toks: Seq<SpecToken>, i: int, acc: Seq<SpecNode>) -> Result<
    (Seq<SpecNode>, int),
    SpecParseError,
>
    decreases toks.len() - i, 12int,
{
    if i < 0 || i >= toks.len() {
        Err(SpecParseError::UnexpectedEnd)
    } else if toks[i].t == TokenType::CloseBrace {
        Ok((acc, i + 1))
    } else if toks[i].t == TokenType::EOF {
        Err(SpecParseError::MissingToken { expected: TokenType::CloseBrace, found: toks[i] })
    } else {
        match sp_parse_stmt(toks, i) {
            Ok(p) => if p.1 <= i || p.1 > toks.len() {
                Err(SpecParseError::Stalled)
            } else {
                sp_parse_stmts_until(toks, p.1, acc.push(p.0))
            },
            Err(e) => Err(e),
        }
    }
}

pub open spec fn sp_parse_expr(toks: Seq<SpecToken>, i: int) -> SpecExprRes
    decreases toks.len() - i, 10int,
{
    sp_parse_assignment(toks, i)
}

/// Right-associative assignment; the target must be an identifier.
pub open spec fn sp_parse_assignment(toks: Seq<SpecToken>, i: int) -> SpecExprRes
    decreases toks.len() - i, 9int,
{
    match sp_parse_cond(toks, i) {
        Ok(p) => {
            let j = p.1;
            if 0 <= j < toks.len() && toks[j].t == TokenType::Equals {
                if !(p.0 is Ident) {
                    Err(SpecParseError::InvalidAssignTarget { found: toks[j] })
                } else if j <= i {
                    Err(SpecParseError::Stalled)
                } else {
                    match sp_parse_assignment(toks, j + 1) {
                        Ok(q) => Ok(
                            (
                                SpecExpr::Assign {
                                    assignee: Box::new(p.0),
                                    value: Box::new(q.0),
                                },
                                q.1,
                            ),
                        ),
                        Err(e) => Err(e),
                    }
                }
            } else {
                Ok(p)
            }
        },
        Err(e) => Err(e),
    }
}

/// Left-associative conditions: `==`, `!=`, `and`, `or`.
pub open spec fn sp_parse_cond(toks: Seq<SpecToken>, i: int) -> SpecExprRes
    decreases toks.len() - i, 8int,
{
    match sp_parse_object(toks, i) {
        Ok(p) => if p.1 <= i || p.1 > toks.len() {
            Err(SpecParseError::Stalled)
        } else {
            sp_parse_cond_rest(toks, p.1, p.0)
        },
        Err(e) => Err(e),
    }
}

pub open spec fn sp_parse_cond_rest(toks: Seq<SpecToken>, i: int, left: SpecExpr) -> SpecExprRes
    decreases toks.len() - i, 8int,
{
    if 0 <= i < toks.len() && is_cond_op(toks[i]) {
        let op = toks[i].value;
        match sp_parse_object(toks, i + 1) {
            Ok(p) => if p.1 <= i + 1 || p.1 > toks.len() {
                Err(SpecParseError::Stalled)
            } else {
                sp_parse_cond_rest(
                    toks,
                    p.1,
                    SpecExpr::Cond { operator: op, left: Box::new(left), right: Box::new(p.0) },
                )
            },
            Err(e) => Err(e),
        }
    } else {
        Ok((left, i))
    }
}

/// An object literal where a `{` stands in expression position, with any
/// member chain on it; otherwise the additive level.
pub open spec fn sp_parse_object(toks: Seq<SpecToken>, i: int) -> SpecExprRes
    decreases toks.len() - i, 7int,
{
    if i < 0 || i >= toks.len() {
        Err(SpecParseError::UnexpectedEnd)
    } else if toks[i].t != TokenType::OpenBrace {
        sp_parse_additive(toks, i)
    } else {
        match sp_parse_props(toks, i + 1, Seq::empty()) {
            Ok(p) => if p.1 <= i || p.1 > toks.len() {
                Err(SpecParseError::Stalled)
            } else {
                sp_parse_member_rest(toks, p.1, SpecExpr::Object(p.0))
            },
            Err(e) => Err(e),
        }
    }
}

/// Object-literal properties: `key`, `key,` (shorthand) or `key: expr`,
/// comma-separated, up to the closing brace.
pub open spec fn sp_parse_props(toks: Seq<SpecToken>, i: int, acc: Seq<SpecProp>) -> Result<
    (Seq<SpecProp>, int),
    SpecParseError,
>
    decreases toks.len() - i, 12int,
{
    if i < 0 || i >= toks.len() {
        Err(SpecParseError::UnexpectedEnd)
    } else if toks[i].t == TokenType::CloseBrace {
        Ok((acc, i + 1))
    } else if toks[i].t == TokenType::EOF {
        Err(SpecParseError::MissingToken { expected: TokenType::CloseBrace, found: toks[i] })
    } else if toks[i].t != TokenType::Identifier {
        Err(SpecParseError::MissingToken { expected: TokenType::Identifier, found: toks[i] })
    } else {
        let key = toks[i].value;
        if i + 1 >= toks.len() {
            Err(SpecParseError::UnexpectedEnd)
        } else if toks[i + 1].t == TokenType::Comma {
            sp_parse_props(toks, i + 2, acc.push(SpecProp { key, value: None }))
        } else if toks[i + 1].t == TokenType::CloseBrace {
            sp_parse_props(toks, i + 1, acc.push(SpecProp { key, value: None }))
        } else if toks[i + 1].t != TokenType::Colon {
            Err(SpecParseError::MissingToken { expected: TokenType::Colon, found: toks[i + 1] })
        } else {
            match sp_parse_expr(toks, i + 2) {
                Ok(p) => {
                    let j = p.1;
                    if j <= i + 2 {
                        Err(SpecParseError::Stalled)
                    } else {
                        let acc2 = acc.push(SpecProp { key, value: Some(p.0) });
                        if j >= toks.len() {
                            Err(SpecParseError::UnexpectedEnd)
                        } else if toks[j].t == TokenType::CloseBrace {
                            Ok((acc2, j + 1))
                        } else if toks[j].t != TokenType::Comma {
                            Err(
                                SpecParseError::MissingToken {
                                    expected: TokenType::Comma,
                                    found: toks[j],
                                },
                            )
                        } else {
                            sp_parse_props(toks, j + 1, acc2)
                        }
                    }
                },
                Err(e) => Err(e),
            }
        }
    }
}

/// Left-associative `+` and `-`.
pub open spec fn sp_parse_additive(toks: Seq<SpecToken>, i: int) -> SpecExprRes
    decreases toks.len() - i, 6int,
{
    match sp_parse_mult(toks, i) {
        Ok(p) => if p.1 <= i || p.1 > toks.len() {
            Err(SpecParseError::Stalled)
        } else {
            sp_parse_additive_rest(toks, p.1, p.0)
        },
        Err(e) => Err(e),
    }
}

pub open spec fn sp_parse_additive_rest(toks: Seq<SpecToken>, i: int, left: SpecExpr) -> SpecExprRes
    decreases toks.len() - i, 6int,
{
    if 0 <= i < toks.len() && is_add_op(toks[i]) {
        let op = toks[i].value;
        match sp_parse_mult(toks, i + 1) {
            Ok(p) => if p.1 <= i + 1 || p.1 > toks.len() {
                Err(SpecParseError::Stalled)
            } else {
                sp_parse_additive_rest(
                    toks,
                    p.1,
                    SpecExpr::Bin { operator: op, left: Box::new(left), right: Box::new(p.0) },
                )
            },
            Err(e) => Err(e),
        }
    } else {
        Ok((left, i))
    }
}

/// Left-associative `*`, `/` and `%`.
pub open spec fn sp_parse_mult(toks: Seq<SpecToken>, i: int) -> SpecExprRes
    decreases toks.len() - i, 5int,
{
    match sp_parse_call_member(toks, i) {
        Ok(p) => if p.1 <= i || p.1 > toks.len() {
            Err(SpecParseError::Stalled)
        } else {
            sp_parse_mult_rest(toks, p.1, p.0)
        },
        Err(e) => Err(e),
    }
}

pub open spec fn sp_parse_mult_rest(toks: Seq<SpecToken>, i: int, left: SpecExpr) -> SpecExprRes
    decreases toks.len() - i, 5int,
{
    if 0 <= i < toks.len() && is_mult_op(toks[i]) {
        let op = toks[i].value;
        match sp_parse_call_member(toks, i + 1) {
            Ok(p) => if p.1 <= i + 1 || p.1 > toks.len() {
                Err(SpecParseError::Stalled)
            } else {
                sp_parse_mult_rest(
                    toks,
                    p.1,
                    SpecExpr::Bin { operator: op, left: Box::new(left), right: Box::new(p.0) },
                )
            },
            Err(e) => Err(e),
        }
    } else {
        Ok((left, i))
    }
}

/// A member expression, then any chain of call argument lists.
pub open spec fn sp_parse_call_member(toks: Seq<SpecToken>, i: int) -> SpecExprRes
    decreases toks.len() - i, 4int,
{
    match sp_parse_member(toks, i) {
        Ok(p) => {
            let j = p.1;
            if 0 <= j < toks.len() && toks[j].t == TokenType::OpenParen {
                if j < i {
                    Err(SpecParseError::Stalled)
                } else {
                    sp_parse_call(toks, j, p.0)
                }
            } else {
                Ok(p)
            }
        },
        Err(e) => Err(e),
    }
}

/// One call's argument list, and any further call chained on the result.
pub open spec fn sp_parse_call(toks: Seq<SpecToken>, i: int, callee: SpecExpr) -> SpecExprRes
    decreases toks.len() - i, 1int,
{
    match sp_parse_args(toks, i) {
        Ok(p) => {
            let j = p.1;
            if j <= i || j > toks.len() {
                Err(SpecParseError::Stalled)
            } else {
                let call = SpecExpr::Call { caller: Box::new(callee), arguments: p.0 };
                if 0 <= j < toks.len() && toks[j].t == TokenType::OpenParen {
                    sp_parse_call(toks, j, call)
                } else {
                    sp_parse_member_rest(toks, j, call)
                }
            }
        },
        Err(e) => Err(e),
    }
}

/// `'(' (expression (',' expression)*)? ')'`.
pub open spec fn sp_parse_args(toks: Seq<SpecToken>, i: int) -> Result<
    (Seq<SpecExpr>, int),
    SpecParseError,
>
    decreases toks.len() - i, 0int,
{
    if i < 0 || i + 1 >= toks.len() {
        Err(SpecParseError::UnexpectedEnd)
    } else if toks[i].t != TokenType::OpenParen {
        Err(SpecParseError::MissingToken { expected: TokenType::OpenParen, found: toks[i] })
    } else if toks[i + 1].t == TokenType::CloseParen {
        Ok((Seq::empty(), i + 2))
    } else {
        match sp_parse_arg_list(toks, i + 1) {
            Ok(p) => {
                let j = p.1;
                if j < 0 || j >= toks.len() {
                    Err(SpecParseError::UnexpectedEnd)
                } else if toks[j].t != TokenType::CloseParen {
                    Err(
                        SpecParseError::MissingToken {
                            expected: TokenType::CloseParen,
                            found: toks[j],
                        },
                    )
                } else {
                    Ok((p.0, j + 1))
                }
            },
            Err(e) => Err(e),
        }
    }
}

pub open spec fn sp_parse_arg_list(toks: Seq<SpecToken>, i: int) -> Result<
    (Seq<SpecExpr>, int),
    SpecParseError,
>
    decreases toks.len() - i, 12int,
{
    match sp_parse_expr(toks, i) {
        Ok(p) => if p.1 <= i || p.1 > toks.len() {
            Err(SpecParseError::Stalled)
        } else {
            sp_parse_arg_rest(toks, p.1, seq![p.0])
        },
        Err(e) => Err(e),
    }
}

pub open spec fn sp_parse_arg_rest(toks: Seq<SpecToken>, i: int, acc: Seq<SpecExpr>) -> Result<
    (Seq<SpecExpr>, int),
    SpecParseError,
>
    decreases toks.len() - i, 12int,
{
    if 0 <= i < toks.len() && toks[i].t == TokenType::Comma {
        match sp_parse_assignment(toks, i + 1) {
            Ok(p) => if p.1 <= i + 1 || p.1 > toks.len() {
                Err(SpecParseError::Stalled)
            } else {
                sp_parse_arg_rest(toks, p.1, acc.push(p.0))
            },
            Err(e) => Err(e),
        }
    } else {
        Ok((acc, i))
    }
}

/// A primary expression, then any chain of `.IDENT` and `[ expr ]` members,
/// binding left to right.
pub open spec fn sp_parse_member(toks: Seq<SpecToken>, i: int) -> SpecExprRes
    decreases toks.len() - i, 3int,
{
    match sp_parse_primary(toks, i) {
        Ok(p) => if p.1 <= i || p.1 > toks.len() {
            Err(SpecParseError::Stalled)
        } else {
            sp_parse_member_rest(toks, p.1, p.0)
        },
        Err(e) => Err(e),
    }
}

pub open spec fn sp_parse_member_rest(toks: Seq<SpecToken>, i: int, obj: SpecExpr) -> SpecExprRes
    decreases toks.len() - i, 2int,
{
    if !(0 <= i < toks.len()) {
        Ok((obj, i))
    } else if toks[i].t == TokenType::Dot {
        match sp_parse_primary(toks, i + 1) {
            Ok(p) => if p.1 <= i + 1 || p.1 > toks.len() {
                Err(SpecParseError::Stalled)
            } else {
                sp_parse_member_rest(
                    toks,
                    p.1,
                    SpecExpr::Member {
                        object: Box::new(obj),
                        property: Box::new(p.0),
                        computed: false,
                    },
                )
            },
            Err(e) => Err(e),
        }
    } else if toks[i].t == TokenType::OpenBracket {
        match sp_parse_expr(toks, i + 1) {
            Ok(p) => {
                let j = p.1;
                if j <= i + 1 {
                    Err(SpecParseError::Stalled)
                } else if j >= toks.len() {
                    Err(SpecParseError::UnexpectedEnd)
                } else if toks[j].t != TokenType::CloseBracket {
                    Err(
                        SpecParseError::MissingToken {
                            expected: TokenType::CloseBracket,
                            found: toks[j],
                        },
                    )
                } else {
                    sp_parse_member_rest(
                        toks,
                        j + 1,
                        SpecExpr::Member {
                            object: Box::new(obj),
                            property: Box::new(p.0),
                            computed: true,
                        },
                    )
                }
            },
            Err(e) => Err(e),
        }
    } else if toks[i].t == TokenType::OpenParen {
        sp_parse_call(toks, i, obj)
    } else {
        Ok((obj, i))
    }
}

/// A primary expression: a numeric literal (a 64-bit integer; a fractional
/// or oversized lexeme is an error), a string literal, an identifier, an
/// anonymous function, or a parenthesized expression.
pub open spec fn sp_parse_primary(toks: Seq<SpecToken>, i: int) -> SpecExprRes
    decreases toks.len() - i, 0int,
{
    if i < 0 || i >= toks.len() {
        Err(SpecParseError::UnexpectedEnd)
    } else if toks[i].t == TokenType::Number {
        match int_lexeme_val(toks[i].value) {
            Some(v) => Ok((SpecExpr::NumLit(v), i + 1)),
            None => Err(SpecParseError::InvalidNumber { found: toks[i] }),
        }
    } else if toks[i].t == TokenType::String {
        Ok((SpecExpr::StrLit(toks[i].value), i + 1))
    } else if toks[i].t == TokenType::Identifier {
        Ok((SpecExpr::Ident(toks[i].value), i + 1))
    } else if toks[i].t == TokenType::OpenBracket {
        if i + 1 < toks.len() && toks[i + 1].t == TokenType::CloseBracket {
            Ok((SpecExpr::Array(Seq::empty()), i + 2))
        } else {
            match sp_parse_arg_list(toks, i + 1) {
                Ok(p) => {
                    let j = p.1;
                    if j < 0 || j >= toks.len() {
                        Err(SpecParseError::UnexpectedEnd)
                    } else if toks[j].t != TokenType::CloseBracket {
                        Err(
                            SpecParseError::MissingToken {
                                expected: TokenType::CloseBracket,
                                found: toks[j],
                            },
                        )
                    } else {
                        Ok((SpecExpr::Array(p.0), j + 1))
                    }
                },
                Err(e) => Err(e),
            }
        }
    } else if toks[i].t == TokenType::Func {
        match sp_parse_params(toks, i + 1) {
            Ok(pp) => {
                let j = pp.1;
                if j <= i + 1 || j > toks.len() {
                    Err(SpecParseError::Stalled)
                } else {
                    match sp_parse_block(toks, j) {
                        Ok(bb) => Ok((SpecExpr::FnLit { params: pp.0, body: bb.0 }, bb.1)),
                        Err(e) => Err(e),
                    }
                }
            },
            Err(e) => Err(e),
        }
    } else if toks[i].t == TokenType::OpenParen {
        match sp_parse_expr(toks, i + 1) {
            Ok(p) => {
                let j = p.1;
                if j < 0 || j >= toks.len() {
                    Err(SpecParseError::UnexpectedEnd)
                } else if toks[j].t != TokenType::CloseParen {
                    Err(
                        SpecParseError::MissingToken {
                            expected: TokenType::CloseParen,
                            found: toks[j],
                        },
                    )
                } else {
                    Ok((p.0, j + 1))
                }
            },
            Err(e) => Err(e),
        }
    } else {
        Err(SpecParseError::UnexpectedToken { found: toks[i] })
    }
}

/// The parse of a whole source text: its token stream's statements up to
/// EOF, or the first lexical or parse error.
pub open spec fn sp_produce_ast(src: Seq<char>) -> Result<Seq<SpecNode>, SpecSourceError> {
    match crate::lexer::spec_tokenize(src) {
        Ok(toks) => match sp_parse_prog_nodes(toks, 0, Seq::empty()) {
            Ok(nodes) => Ok(nodes),
            Err(pe) => Err(SpecSourceError::Parse(pe)),
        },
        Err(le) => Err(SpecSourceError::Lex(le)),
    }
}

/// Whether `i + k` runs past a buffer of length `n`, computed without
/// overflow.
fn out_of_range(n: usize, i: usize, k: usize) -> (r: bool)
    ensures
        r == (i + k >= n),
{
    if n < k {
        true
    } else {
        i >= n - k
    }
}

fn is_cond_op_tok(t: &Token) -> (r: bool)
    ensures
        r == is_cond_op(t@),
{
    if t.t == TokenType::BinaryOperator {
        str_eq(t.value.as_str(), "==") || str_eq(t.value.as_str(), "!=")
    } else if t.t == TokenType::Identifier {
        str_eq(t.value.as_str(), "and") || str_eq(t.value.as_str(), "or")
    } else {
        false
    }
}

fn is_add_op_tok(t: &Token) -> (r: bool)
    ensures
        r == is_add_op(t@),
{
    t.t == TokenType::BinaryOperator && (str_eq(t.value.as_str(), "+") || str_eq(
        t.value.as_str(),
        "-",
    ))
}

fn is_mult_op_tok(t: &Token) -> (r: bool)
    ensures
        r == is_mult_op(t@),
{
    t.t == TokenType::BinaryOperator && (str_eq(t.value.as_str(), "*") || str_eq(
        t.value.as_str(),
        "/",
    ) || str_eq(t.value.as_str(), "%"))
}

pub fn parse_stmt(toks: &Vec<Token>, i: usize) -> (r: Result<(StatementOrExpression, usize), ParseError>)
    ensures
        ({
            let s = sp_parse_stmt(toks_deep(toks@), i as int);
            match r {
                Ok(p) => s == Ok::<(SpecNode, int), SpecParseError>((deep_node(p.0), p.1 as int)),
                Err(e) => s == Err::<(SpecNode, int), SpecParseError>(deep_perr(e)),
            }
        }),
    decreases toks@.len() - i, 11int,
{
    let n = toks.len();
    if i >= n {
        return Err(ParseError::UnexpectedEnd);
    }
    let tt = toks[i].t;
    if tt == TokenType::Let || tt == TokenType::Const {
        parse_var_decleration(toks, i)
    } else if tt == TokenType::Func {
        parse_fn_decleration(toks, i)
    } else {
        match parse_expr(toks, i) {
            Ok(p) => {
                let j = p.1;
                if j < n && toks[j].t == TokenType::Semicolon {
                    Ok((StatementOrExpression::Expression(p.0), j + 1))
                } else {
                    Ok((StatementOrExpression::Expression(p.0), j))
                }
            },
            Err(e) => Err(e),
        }
    }
}

#[verifier::rlimit(60)]
pub fn parse_var_decleration(toks: &Vec<Token>, i: usize) -> (r: Result<
    (StatementOrExpression, usize),
    ParseError,
>)
    ensures
        ({
            let s = sp_parse_var_decl(toks_deep(toks@), i as int);
            match r {
                Ok(p) => s == Ok::<(SpecNode, int), SpecParseError>((deep_node(p.0), p.1 as int)),
                Err(e) => s == Err::<(SpecNode, int), SpecParseError>(deep_perr(e)),
            }
        }),
    decreases toks@.len() - i, 10int,
{
    let n = toks.len();
    if out_of_range(n, i, 1) {
        return Err(ParseError::UnexpectedEnd);
    }
    let is_const = toks[i].t == TokenType::Const;
    if toks[i + 1].t != TokenType::Identifier {
        return Err(
            ParseError::MissingToken { expected: TokenType::Identifier, found: toks[i + 1].clone() },
        );
    }
    let name = toks[i + 1].value.clone();
    if out_of_range(n, i, 2) {
        return Err(ParseError::UnexpectedEnd);
    }
    if toks[i + 2].t == TokenType::Semicolon {
        if is_const {
            return Err(ParseError::ConstWithoutValue { line: toks[i + 2].line });
        }
        return Ok(
            (
                StatementOrExpression::Statement(
                    Statement::VariableDecleration(
                        VariableDecleration {
                            constant: false,
                            identifier: Identifier { symbol: name },
                            value: None,
                        },
                    ),
                ),
                i + 3,
            ),
        );
    }
    if toks[i + 2].t != TokenType::Equals {
        return Err(
            ParseError::MissingToken { expected: TokenType::Equals, found: toks[i + 2].clone() },
        );
    }
    match parse_expr(toks, i + 3) {
        Ok(p) => {
            let j = p.1;
            if j >= n {
                return Err(ParseError::UnexpectedEnd);
            }
            if toks[j].t != TokenType::Semicolon {
                return Err(
                    ParseError::MissingToken { expected: TokenType::Semicolon, found: toks[j].clone() },
                );
            }
            Ok(
                (
                    StatementOrExpression::Statement(
                        Statement::VariableDecleration(
                            VariableDecleration {
                                constant: is_const,
                                identifier: Identifier { symbol: name },
                                value: Some(p.0),
                            },
                        ),
                    ),
                    j + 1,
                ),
            )
        },
        Err(e) => Err(e),
    }
}

pub fn parse_fn_decleration(toks: &Vec<Token>, i: usize) -> (r: Result<
    (StatementOrExpression, usize),
    ParseError,
>)
    ensures
        ({
            let s = sp_parse_fn_decl(toks_deep(toks@), i as int);
            match r {
                Ok(p) => s == Ok::<(SpecNode, int), SpecParseError>((deep_node(p.0), p.1 as int)),
                Err(e) => s == Err::<(SpecNode, int), SpecParseError>(deep_perr(e)),
            }
        }),
    decreases toks@.len() - i, 10int,
{
    let n = toks.len();
    if out_of_range(n, i, 1) {
        return Err(ParseError::UnexpectedEnd);
    }
    if toks[i + 1].t != TokenType::Identifier {
        return Err(
            ParseError::MissingToken { expected: TokenType::Identifier, found: toks[i + 1].clone() },
        );
    }
    let name = toks[i + 1].value.clone();
    match parse_params(toks, i + 2) {
        Ok(pp) => {
            let j = pp.1;
            if j <= i + 2 || j > n {
                return Err(ParseError::Stalled);
            }
            match parse_block(toks, j) {
                Ok(bb) => Ok(
                    (
                        StatementOrExpression::Statement(
                            Statement::FunctionDecleration(
                                FunctionDecleration {
                                    identifier: Identifier { symbol: name },
                                    params: pp.0,
                                    body: bb.0,
                                },
                            ),
                        ),
                        bb.1,
                    ),
                ),
                Err(e) => Err(e),
            }
        },
        Err(e) => Err(e),
    }
}

pub fn parse_params(toks: &Vec<Token>, i: usize) -> (r: Result<(Vec<Identifier>, usize), ParseError>)
    ensures
        ({
            let s = sp_parse_params(toks_deep(toks@), i as int);
            match r {
                Ok(p) => s == Ok::<(Seq<Seq<char>>, int), SpecParseError>(
                    (deep_params(p.0@), p.1 as int),
                ),
                Err(e) => s == Err::<(Seq<Seq<char>>, int), SpecParseError>(deep_perr(e)),
            }
        }),
    decreases toks@.len() - i, 0int,
{
    let n = toks.len();
    if out_of_range(n, i, 1) {
        return Err(ParseError::UnexpectedEnd);
    }
    if toks[i].t != TokenType::OpenParen {
        return Err(ParseError::MissingToken { expected: TokenType::OpenParen, found: toks[i].clone() });
    }
    if toks[i + 1].t == TokenType::CloseParen {
        let v: Vec<Identifier> = Vec::new();
        proof {
            assert(deep_params(v@) =~= Seq::<Seq<char>>::empty());
        }
        return Ok((v, i + 2));
    }
    let acc: Vec<Identifier> = Vec::new();
    proof {
        assert(deep_params(acc@) =~= Seq::<Seq<char>>::empty());
    }
    parse_params_rest(toks, i + 1, acc)
}

pub fn parse_params_rest(toks: &Vec<Token>, i: usize, acc: Vec<Identifier>) -> (r: Result<
    (Vec<Identifier>, usize),
    ParseError,
>)
    ensures
        ({
            let s = sp_parse_params_rest(toks_deep(toks@), i as int, deep_params(acc@));
            match r {
                Ok(p) => s == Ok::<(Seq<Seq<char>>, int), SpecParseError>(
                    (deep_params(p.0@), p.1 as int),
                ),
                Err(e) => s == Err::<(Seq<Seq<char>>, int), SpecParseError>(deep_perr(e)),
            }
        }),
    decreases toks@.len() - i, 0int,
{
    let n = toks.len();
    if out_of_range(n, i, 1) {
        return Err(ParseError::UnexpectedEnd);
    }
    if toks[i].t != TokenType::Identifier {
        return Err(
            ParseError::MissingToken { expected: TokenType::Identifier, found: toks[i].clone() },
        );
    }
    let mut acc2 = acc;
    let ident = Identifier { symbol: toks[i].value.clone() };
    proof {
        lemma_deep_params_push(acc2@, ident);
    }
    acc2.push(ident);
    if toks[i + 1].t == TokenType::Comma {
        parse_params_rest(toks, i + 2, acc2)
    } else if toks[i + 1].t == TokenType::CloseParen {
        Ok((acc2, i + 2))
    } else {
        Err(ParseError::MissingToken { expected: TokenType::CloseParen, found: toks[i + 1].clone() })
    }
}

pub fn parse_block(toks: &Vec<Token>, i: usize) -> (r: Result<
    (Vec<StatementOrExpression>, usize),
    ParseError,
>)
    ensures
        ({
            let s = sp_parse_block(toks_deep(toks@), i as int);
            match r {
                Ok(p) => s == Ok::<(Seq<SpecNode>, int), SpecParseError>(
                    (deep_nodes(p.0@), p.1 as int),
                ),
                Err(e) => s == Err::<(Seq<SpecNode>, int), SpecParseError>(deep_perr(e)),
            }
        }),
    decreases toks@.len() - i, 12int,
{
    let n = toks.len();
    if i >= n {
        return Err(ParseError::UnexpectedEnd);
    }
    if toks[i].t != TokenType::OpenBrace {
        return Err(ParseError::MissingToken { expected: TokenType::OpenBrace, found: toks[i].clone() });
    }
    let acc: Vec<StatementOrExpression> = Vec::new();
    proof {
        assert(deep_nodes(acc@) =~= Seq::<SpecNode>::empty());
    }
    parse_stmts_until(toks, i + 1, acc)
}

pub fn parse_stmts_until(toks: &Vec<Token>, i: usize, acc: Vec<StatementOrExpression>) -> (r: Result<
    (Vec<StatementOrExpression>, usize),
    ParseError,
>)
    ensures
        ({
            let s = sp_parse_stmts_until(toks_deep(toks@), i as int, deep_nodes(acc@));
            match r {
                Ok(p) => s == Ok::<(Seq<SpecNode>, int), SpecParseError>(
                    (deep_nodes(p.0@), p.1 as int),
                ),
                Err(e) => s == Err::<(Seq<SpecNode>, int), SpecParseError>(deep_perr(e)),
            }
        }),
    decreases toks@.len() - i, 12int,
{
    let n = toks.len();
    if i >= n {
        return Err(ParseError::UnexpectedEnd);
    }
    if toks[i].t == TokenType::CloseBrace {
        return Ok((acc, i + 1));
    }
    if toks[i].t == TokenType::EOF {
        return Err(
            ParseError::MissingToken { expected: TokenType::CloseBrace, found: toks[i].clone() },
        );
    }
    match parse_stmt(toks, i) {
        Ok(p) => {
            let j = p.1;
            if j <= i || j > n {
                return Err(ParseError::Stalled);
            }
            let mut acc2 = acc;
            proof {
                lemma_deep_nodes_push(acc2@, p.0);
            }
            acc2.push(p.0);
            parse_stmts_until(toks, j, acc2)
        },
        Err(e) => Err(e),
    }
}

pub fn parse_expr(toks: &Vec<Token>, i: usize) -> (r: Result<(Expression, usize), ParseError>)
    ensures
        ({
            let s = sp_parse_expr(toks_deep(toks@), i as int);
            match r {
                Ok(p) => s == Ok::<(SpecExpr, int), SpecParseError>((deep_expr(p.0), p.1 as int)),
                Err(e) => s == Err::<(SpecExpr, int), SpecParseError>(deep_perr(e)),
            }
        }),
    decreases toks@.len() - i, 10int,
{
    parse_assignment_expr(toks, i)
}

#[verifier::rlimit(60)]
pub fn parse_assignment_expr(toks: &Vec<Token>, i: usize) -> (r: Result<
    (Expression, usize),
    ParseError,
>)
    ensures
        ({
            let s = sp_parse_assignment(toks_deep(toks@), i as int);
            match r {
                Ok(p) => s == Ok::<(SpecExpr, int), SpecParseError>((deep_expr(p.0), p.1 as int)),
                Err(e) => s == Err::<(SpecExpr, int), SpecParseError>(deep_perr(e)),
            }
        }),
    decreases toks@.len() - i, 9int,
{
    let n = toks.len();
    match parse_conditional_expr(toks, i) {
        Ok(p) => {
            let j = p.1;
            if j < n && toks[j].t == TokenType::Equals {
                let is_ident = matches!(p.0, Expression::Identifier(_));
                if !is_ident {
                    return Err(ParseError::InvalidAssignTarget { found: toks[j].clone() });
                }
                if j <= i {
                    return Err(ParseError::Stalled);
                }
                match parse_assignment_expr(toks, j + 1) {
                    Ok(q) => Ok(
                        (
                            Expression::Assignment(
                                Assignment { assignee: Box::new(p.0), value: Box::new(q.0) },
                            ),
                            q.1,
                        ),
                    ),
                    Err(e) => Err(e),
                }
            } else {
                Ok(p)
            }
        },
        Err(e) => Err(e),
    }
}

pub fn parse_conditional_expr(toks: &Vec<Token>, i: usize) -> (r: Result<
    (Expression, usize),
    ParseError,
>)
    ensures
        ({
            let s = sp_parse_cond(toks_deep(toks@), i as int);
            match r {
                Ok(p) => s == Ok::<(SpecExpr, int), SpecParseError>((deep_expr(p.0), p.1 as int)),
                Err(e) => s == Err::<(SpecExpr, int), SpecParseError>(deep_perr(e)),
            }
        }),
    decreases toks@.len() - i, 8int,
{
    let n = toks.len();
    match parse_object_expr(toks, i) {
        Ok(p) => {
            if p.1 <= i || p.1 > n {
                return Err(ParseError::Stalled);
            }
            parse_cond_rest(toks, p.1, p.0)
        },
        Err(e) => Err(e),
    }
}

#[verifier::rlimit(60)]
pub fn parse_cond_rest(toks: &Vec<Token>, i: usize, left: Expression) -> (r: Result<
    (Expression, usize),
    ParseError,
>)
    ensures
        ({
            let s = sp_parse_cond_rest(toks_deep(toks@), i as int, deep_expr(left));
            match r {
                Ok(p) => s == Ok::<(SpecExpr, int), SpecParseError>((deep_expr(p.0), p.1 as int)),
                Err(e) => s == Err::<(SpecExpr, int), SpecParseError>(deep_perr(e)),
            }
        }),
    decreases toks@.len() - i, 8int,
{
    let n = toks.len();
    if i < n && is_cond_op_tok(&toks[i]) {
        let op = toks[i].value.clone();
        match parse_object_expr(toks, i + 1) {
            Ok(p) => {
                if p.1 <= i + 1 || p.1 > n {
                    return Err(ParseError::Stalled);
                }
                parse_cond_rest(
                    toks,
                    p.1,
                    Expression::Condition(
                        Condition { left: Box::new(left), operator: op, right: Box::new(p.0) },
                    ),
                )
            },
            Err(e) => Err(e),
        }
    } else {
        Ok((left, i))
    }
}

pub fn parse_object_expr(toks: &Vec<Token>, i: usize) -> (r: Result<(Expression, usize), ParseError>)
    ensures
        ({
            let s = sp_parse_object(toks_deep(toks@), i as int);
            match r {
                Ok(p) => s == Ok::<(SpecExpr, int), SpecParseError>((deep_expr(p.0), p.1 as int)),
                Err(e) => s == Err::<(SpecExpr, int), SpecParseError>(deep_perr(e)),
            }
        }),
    decreases toks@.len() - i, 7int,
{
    let n = toks.len();
    if i >= n {
        return Err(ParseError::UnexpectedEnd);
    }
    if toks[i].t != TokenType::OpenBrace {
        return parse_additive_expr(toks, i);
    }
    let acc: Vec<Property> = Vec::new();
    proof {
        assert(deep_props(acc@) =~= Seq::<SpecProp>::empty());
    }
    match parse_props(toks, i + 1, acc) {
        Ok(p) => {
            if p.1 <= i || p.1 > n {
                return Err(ParseError::Stalled);
            }
            parse_member_rest(
                toks,
                p.1,
                Expression::ObjectLiteral(ObjectLiteral { properties: p.0 }),
            )
        },
        Err(e) => Err(e),
    }
}

#[verifier::rlimit(60)]
pub fn parse_props(toks: &Vec<Token>, i: usize, acc: Vec<Property>) -> (r: Result<
    (Vec<Property>, usize),
    ParseError,
>)
    ensures
        ({
            let s = sp_parse_props(toks_deep(toks@), i as int, deep_props(acc@));
            match r {
                Ok(p) => s == Ok::<(Seq<SpecProp>, int), SpecParseError>(
                    (deep_props(p.0@), p.1 as int),
                ),
                Err(e) => s == Err::<(Seq<SpecProp>, int), SpecParseError>(deep_perr(e)),
            }
        }),
    decreases toks@.len() - i, 12int,
{
    let n = toks.len();
    if i >= n {
        return Err(ParseError::UnexpectedEnd);
    }
    if toks[i].t == TokenType::CloseBrace {
        return Ok((acc, i + 1));
    }
    if toks[i].t == TokenType::EOF {
        return Err(
            ParseError::MissingToken { expected: TokenType::CloseBrace, found: toks[i].clone() },
        );
    }
    if toks[i].t != TokenType::Identifier {
        return Err(
            ParseError::MissingToken { expected: TokenType::Identifier, found: toks[i].clone() },
        );
    }
    let key = toks[i].value.clone();
    if out_of_range(n, i, 1) {
        return Err(ParseError::UnexpectedEnd);
    }
    if toks[i + 1].t == TokenType::Comma {
        let mut acc2 = acc;
        let p = Property { key, value: None };
        proof {
            lemma_deep_props_push(acc2@, p);
        }
        acc2.push(p);
        return parse_props(toks, i + 2, acc2);
    }
    if toks[i + 1].t == TokenType::CloseBrace {
        let mut acc2 = acc;
        let p = Property { key, value: None };
        proof {
            lemma_deep_props_push(acc2@, p);
        }
        acc2.push(p);
        return parse_props(toks, i + 1, acc2);
    }
    if toks[i + 1].t != TokenType::Colon {
        return Err(
            ParseError::MissingToken { expected: TokenType::Colon, found: toks[i + 1].clone() },
        );
    }
    match parse_expr(toks, i + 2) {
        Ok(p) => {
            let j = p.1;
            if j <= i + 2 {
                return Err(ParseError::Stalled);
            }
            let mut acc2 = acc;
            let prop = Property { key, value: Some(Box::new(p.0)) };
            proof {
                lemma_deep_props_push(acc2@, prop);
            }
            acc2.push(prop);
            if j >= n {
                return Err(ParseError::UnexpectedEnd);
            }
            if toks[j].t == TokenType::CloseBrace {
                return Ok((acc2, j + 1));
            }
            if toks[j].t != TokenType::Comma {
                return Err(
                    ParseError::MissingToken { expected: TokenType::Comma, found: toks[j].clone() },
                );
            }
            parse_props(toks, j + 1, acc2)
        },
        Err(e) => Err(e),
    }
}

#[verifier::rlimit(60)]
pub fn parse_additive_expr(toks: &Vec<Token>, i: usize) -> (r: Result<
    (Expression, usize),
    ParseError,
>)
    ensures
        ({
            let s = sp_parse_additive(toks_deep(toks@), i as int);
            match r {
                Ok(p) => s == Ok::<(SpecExpr, int), SpecParseError>((deep_expr(p.0), p.1 as int)),
                Err(e) => s == Err::<(SpecExpr, int), SpecParseError>(deep_perr(e)),
            }
        }),
    decreases toks@.len() - i, 6int,
{
    let n = toks.len();
    match parse_multiplicitive_expr(toks, i) {
        Ok(p) => {
            if p.1 <= i || p.1 > n {
                return Err(ParseError::Stalled);
            }
            parse_additive_rest(toks, p.1, p.0)
        },
        Err(e) => Err(e),
    }
}

#[verifier::rlimit(100)]
pub fn parse_additive_rest(toks: &Vec<Token>, i: usize, left: Expression) -> (r: Result<
    (Expression, usize),
    ParseError,
>)
    ensures
        ({
            let s = sp_parse_additive_rest(toks_deep(toks@), i as int, deep_expr(left));
            match r {
                Ok(p) => s == Ok::<(SpecExpr, int), SpecParseError>((deep_expr(p.0), p.1 as int)),
                Err(e) => s == Err::<(SpecExpr, int), SpecParseError>(deep_perr(e)),
            }
        }),
    decreases toks@.len() - i, 6int,
{
    let n = toks.len();
    if i < n && is_add_op_tok(&toks[i]) {
        let op = toks[i].value.clone();
        match parse_multiplicitive_expr(toks, i + 1) {
            Ok(p) => {
                if p.1 <= i + 1 || p.1 > n {
                    return Err(ParseError::Stalled);
                }
                parse_additive_rest(
                    toks,
                    p.1,
                    Expression::Binary(
                        Binary { left: Box::new(left), operator: op, right: Box::new(p.0) },
                    ),
                )
            },
            Err(e) => Err(e),
        }
    } else {
        Ok((left, i))
    }
}

#[verifier::rlimit(60)]
pub fn parse_multiplicitive_expr(toks: &Vec<Token>, i: usize) -> (r: Result<
    (Expression, usize),
    ParseError,
>)
    ensures
        ({
            let s = sp_parse_mult(toks_deep(toks@), i as int);
            match r {
                Ok(p) => s == Ok::<(SpecExpr, int), SpecParseError>((deep_expr(p.0), p.1 as int)),
                Err(e) => s == Err::<(SpecExpr, int), SpecParseError>(deep_perr(e)),
            }
        }),
    decreases toks@.len() - i, 5int,
{
    let n = toks.len();
    match parse_call_member_expr(toks, i) {
        Ok(p) => {
            if p.1 <= i || p.1 > n {
                return Err(ParseError::Stalled);
            }
            parse_mult_rest(toks, p.1, p.0)
        },
        Err(e) => Err(e),
    }
}

#[verifier::rlimit(60)]
pub fn parse_mult_rest(toks: &Vec<Token>, i: usize, left: Expression) -> (r: Result<
    (Expression, usize),
    ParseError,
>)
    ensures
        ({
            let s = sp_parse_mult_rest(toks_deep(toks@), i as int, deep_expr(left));
            match r {
                Ok(p) => s == Ok::<(SpecExpr, int), SpecParseError>((deep_expr(p.0), p.1 as int)),
                Err(e) => s == Err::<(SpecExpr, int), SpecParseError>(deep_perr(e)),
            }
        }),
    decreases toks@.len() - i, 5int,
{
    let n = toks.len();
    if i < n && is_mult_op_tok(&toks[i]) {
        let op = toks[i].value.clone();
        match parse_call_member_expr(toks, i + 1) {
            Ok(p) => {
                if p.1 <= i + 1 || p.1 > n {
                    return Err(ParseError::Stalled);
                }
                parse_mult_rest(
                    toks,
                    p.1,
                    Expression::Binary(
                        Binary { left: Box::new(left), operator: op, right: Box::new(p.0) },
                    ),
                )
            },
            Err(e) => Err(e),
        }
    } else {
        Ok((left, i))
    }
}

#[verifier::rlimit(60)]
pub fn parse_call_member_expr(toks: &Vec<Token>, i: usize) -> (r: Result<
    (Expression, usize),
    ParseError,
>)
    ensures
        ({
            let s = sp_parse_call_member(toks_deep(toks@), i as int);
            match r {
                Ok(p) => s == Ok::<(SpecExpr, int), SpecParseError>((deep_expr(p.0), p.1 as int)),
                Err(e) => s == Err::<(SpecExpr, int), SpecParseError>(deep_perr(e)),
            }
        }),
    decreases toks@.len() - i, 4int,
{
    let n = toks.len();
    match parse_member_expr(toks, i) {
        Ok(p) => {
            let j = p.1;
            if j < n && toks[j].t == TokenType::OpenParen {
                if j < i {
                    return Err(ParseError::Stalled);
                }
                parse_call_expr(toks, j, p.0)
            } else {
                Ok(p)
            }
        },
        Err(e) => Err(e),
    }
}

#[verifier::rlimit(60)]
pub fn parse_call_expr(toks: &Vec<Token>, i: usize, caller: Expression) -> (r: Result<
    (Expression, usize),
    ParseError,
>)
    ensures
        ({
            let s = sp_parse_call(toks_deep(toks@), i as int, deep_expr(caller));
            match r {
                Ok(p) => s == Ok::<(SpecExpr, int), SpecParseError>((deep_expr(p.0), p.1 as int)),
                Err(e) => s == Err::<(SpecExpr, int), SpecParseError>(deep_perr(e)),
            }
        }),
    decreases toks@.len() - i, 1int,
{
    let n = toks.len();
    match parse_args(toks, i) {
        Ok(p) => {
            let j = p.1;
            if j <= i || j > n {
                return Err(ParseError::Stalled);
            }
            let call = Expression::Call(CallExpr { caller: Box::new(caller), arguments: p.0 });
            if j < n && toks[j].t == TokenType::OpenParen {
                parse_call_expr(toks, j, call)
            } else {
                parse_member_rest(toks, j, call)
            }
        },
        Err(e) => Err(e),
    }
}

pub fn parse_args(toks: &Vec<Token>, i: usize) -> (r: Result<(Vec<Expression>, usize), ParseError>)
    ensures
        ({
            let s = sp_parse_args(toks_deep(toks@), i as int);
            match r {
                Ok(p) => s == Ok::<(Seq<SpecExpr>, int), SpecParseError>(
                    (deep_exprs(p.0@), p.1 as int),
                ),
                Err(e) => s == Err::<(Seq<SpecExpr>, int), SpecParseError>(deep_perr(e)),
            }
        }),
    decreases toks@.len() - i, 0int,
{
    let n = toks.len();
    if out_of_range(n, i, 1) {
        return Err(ParseError::UnexpectedEnd);
    }
    if toks[i].t != TokenType::OpenParen {
        return Err(ParseError::MissingToken { expected: TokenType::OpenParen, found: toks[i].clone() });
    }
    if toks[i + 1].t == TokenType::CloseParen {
        let v: Vec<Expression> = Vec::new();
        proof {
            assert(deep_exprs(v@) =~= Seq::<SpecExpr>::empty());
        }
        return Ok((v, i + 2));
    }
    match parse_argument_list(toks, i + 1) {
        Ok(p) => {
            let j = p.1;
            if j >= n {
                return Err(ParseError::UnexpectedEnd);
            }
            if toks[j].t != TokenType::CloseParen {
                return Err(
                    ParseError::MissingToken {
                        expected: TokenType::CloseParen,
                        found: toks[j].clone(),
                    },
                );
            }
            Ok((p.0, j + 1))
        },
        Err(e) => Err(e),
    }
}

pub fn parse_argument_list(toks: &Vec<Token>, i: usize) -> (r: Result<
    (Vec<Expression>, usize),
    ParseError,
>)
    ensures
        ({
            let s = sp_parse_arg_list(toks_deep(toks@), i as int);
            match r {
                Ok(p) => s == Ok::<(Seq<SpecExpr>, int), SpecParseError>(
                    (deep_exprs(p.0@), p.1 as int),
                ),
                Err(e) => s == Err::<(Seq<SpecExpr>, int), SpecParseError>(deep_perr(e)),
            }
        }),
    decreases toks@.len() - i, 12int,
{
    let n = toks.len();
    match parse_expr(toks, i) {
        Ok(p) => {
            if p.1 <= i || p.1 > n {
                return Err(ParseError::Stalled);
            }
            let mut acc: Vec<Expression> = Vec::new();
            proof {
                assert(deep_exprs(acc@) =~= Seq::<SpecExpr>::empty());
                lemma_deep_exprs_push(acc@, p.0);
            }
            let j = p.1;
            let ghost first = deep_expr(p.0);
            acc.push(p.0);
            proof {
                assert(deep_exprs(acc@) =~= seq![first]);
            }
            parse_arg_rest(toks, j, acc)
        },
        Err(e) => Err(e),
    }
}

pub fn parse_arg_rest(toks: &Vec<Token>, i: usize, acc: Vec<Expression>) -> (r: Result<
    (Vec<Expression>, usize),
    ParseError,
>)
    ensures
        ({
            let s = sp_parse_arg_rest(toks_deep(toks@), i as int, deep_exprs(acc@));
            match r {
                Ok(p) => s == Ok::<(Seq<SpecExpr>, int), SpecParseError>(
                    (deep_exprs(p.0@), p.1 as int),
                ),
                Err(e) => s == Err::<(Seq<SpecExpr>, int), SpecParseError>(deep_perr(e)),
            }
        }),
    decreases toks@.len() - i, 12int,
{
    let n = toks.len();
    if i < n && toks[i].t == TokenType::Comma {
        match parse_assignment_expr(toks, i + 1) {
            Ok(p) => {
                if p.1 <= i + 1 || p.1 > n {
                    return Err(ParseError::Stalled);
                }
                let mut acc2 = acc;
                proof {
                    lemma_deep_exprs_push(acc2@, p.0);
                }
                let j = p.1;
                acc2.push(p.0);
                parse_arg_rest(toks, j, acc2)
            },
            Err(e) => Err(e),
        }
    } else {
        Ok((acc, i))
    }
}

pub fn parse_member_expr(toks: &Vec<Token>, i: usize) -> (r: Result<(Expression, usize), ParseError>)
    ensures
        ({
            let s = sp_parse_member(toks_deep(toks@), i as int);
            match r {
                Ok(p) => s == Ok::<(SpecExpr, int), SpecParseError>((deep_expr(p.0), p.1 as int)),
                Err(e) => s == Err::<(SpecExpr, int), SpecParseError>(deep_perr(e)),
            }
        }),
    decreases toks@.len() - i, 3int,
{
    let n = toks.len();
    match parse_primary_expr(toks, i) {
        Ok(p) => {
            if p.1 <= i || p.1 > n {
                return Err(ParseError::Stalled);
            }
            parse_member_rest(toks, p.1, p.0)
        },
        Err(e) => Err(e),
    }
}

#[verifier::rlimit(60)]
pub fn parse_member_rest(toks: &Vec<Token>, i: usize, obj: Expression) -> (r: Result<
    (Expression, usize),
    ParseError,
>)
    ensures
        ({
            let s = sp_parse_member_rest(toks_deep(toks@), i as int, deep_expr(obj));
            match r {
                Ok(p) => s == Ok::<(SpecExpr, int), SpecParseError>((deep_expr(p.0), p.1 as int)),
                Err(e) => s == Err::<(SpecExpr, int), SpecParseError>(deep_perr(e)),
            }
        }),
    decreases toks@.len() - i, 2int,
{
    let n = toks.len();
    if i >= n {
        return Ok((obj, i));
    }
    if toks[i].t == TokenType::Dot {
        match parse_primary_expr(toks, i + 1) {
            Ok(p) => {
                if p.1 <= i + 1 || p.1 > n {
                    return Err(ParseError::Stalled);
                }
                parse_member_rest(
                    toks,
                    p.1,
                    Expression::Member(
                        MemberExpr {
                            object: Box::new(obj),
                            property: Box::new(p.0),
                            computed: false,
                        },
                    ),
                )
            },
            Err(e) => Err(e),
        }
    } else if toks[i].t == TokenType::OpenBracket {
        match parse_expr(toks, i + 1) {
            Ok(p) => {
                let j = p.1;
                if j <= i + 1 {
                    return Err(ParseError::Stalled);
                }
                if j >= n {
                    return Err(ParseError::UnexpectedEnd);
                }
                if toks[j].t != TokenType::CloseBracket {
                    return Err(
                        ParseError::MissingToken {
                            expected: TokenType::CloseBracket,
                            found: toks[j].clone(),
                        },
                    );
                }
                parse_member_rest(
                    toks,
                    j + 1,
                    Expression::Member(
                        MemberExpr {
                            object: Box::new(obj),
                            property: Box::new(p.0),
                            computed: true,
                        },
                    ),
                )
            },
            Err(e) => Err(e),
        }
    } else if toks[i].t == TokenType::OpenParen {
        parse_call_expr(toks, i, obj)
    } else {
        Ok((obj, i))
    }
}

#[verifier::rlimit(60)]
pub fn parse_primary_expr(toks: &Vec<Token>, i: usize) -> (r: Result<(Expression, usize), ParseError>)
    ensures
        ({
            let s = sp_parse_primary(toks_deep(toks@), i as int);
            match r {
                Ok(p) => s == Ok::<(SpecExpr, int), SpecParseError>((deep_expr(p.0), p.1 as int)),
                Err(e) => s == Err::<(SpecExpr, int), SpecParseError>(deep_perr(e)),
            }
        }),
    decreases toks@.len() - i, 0int,
{
    let n = toks.len();
    if i >= n {
        return Err(ParseError::UnexpectedEnd);
    }
    let tt = toks[i].t;
    if tt == TokenType::Number {
        match parse_int_lexeme(toks[i].value.as_str()) {
            Some(v) => Ok((Expression::NumericLiteral(NumericLiteral { value: v }), i + 1)),
            None => Err(ParseError::InvalidNumber { found: toks[i].clone() }),
        }
    } else if tt == TokenType::String {
        Ok(
            (
                Expression::StringLiteral(StringLiteral { value: toks[i].value.clone() }),
                i + 1,
            ),
        )
    } else if tt == TokenType::Identifier {
        Ok((Expression::Identifier(Identifier { symbol: toks[i].value.clone() }), i + 1))
    } else if tt == TokenType::OpenBracket {
        if i + 1 < n && toks[i + 1].t == TokenType::CloseBracket {
            let v: Vec<Expression> = Vec::new();
            proof {
                assert(deep_exprs(v@) =~= Seq::<SpecExpr>::empty());
            }
            return Ok((Expression::ArrayLiteral(ArrayLiteral { elements: v }), i + 2));
        }
        match parse_argument_list(toks, i + 1) {
            Ok(p) => {
                let j = p.1;
                if j >= n {
                    return Err(ParseError::UnexpectedEnd);
                }
                if toks[j].t != TokenType::CloseBracket {
                    return Err(
                        ParseError::MissingToken {
                            expected: TokenType::CloseBracket,
                            found: toks[j].clone(),
                        },
                    );
                }
                Ok((Expression::ArrayLiteral(ArrayLiteral { elements: p.0 }), j + 1))
            },
            Err(e) => Err(e),
        }
    } else if tt == TokenType::Func {
        match parse_params(toks, i + 1) {
            Ok(pp) => {
                let j = pp.1;
                if j <= i + 1 || j > n {
                    return Err(ParseError::Stalled);
                }
                match parse_block(toks, j) {
                    Ok(bb) => Ok(
                        (
                            Expression::FunctionLiteral(
                                FunctionLiteral { params: pp.0, body: bb.0 },
                            ),
                            bb.1,
                        ),
                    ),
                    Err(e) => Err(e),
                }
            },
            Err(e) => Err(e),
        }
    } else if tt == TokenType::OpenParen {
        match parse_expr(toks, i + 1) {
            Ok(p) => {
                let j = p.1;
                if j >= n {
                    return Err(ParseError::UnexpectedEnd);
                }
                if toks[j].t != TokenType::CloseParen {
                    return Err(
                        ParseError::MissingToken {
                            expected: TokenType::CloseParen,
                            found: toks[j].clone(),
                        },
                    );
                }
                Ok((p.0, j + 1))
            },
            Err(e) => Err(e),
        }
    } else {
        Err(ParseError::UnexpectedToken { found: toks[i].clone() })
    }
}

/// The parser's cursor state: the token buffer and the position of the
/// next unconsumed token.
#[derive(Debug)]
pub struct Parser {
    pub tokens: Vec<Token>,
    pub index: usize,
}

impl Parser {
    /// The model token stream.
    pub open spec fn toks(&self) -> Seq<SpecToken> {
        toks_deep(self.tokens@)
    }

    /// The current token, unconsumed.
    pub fn at(&self) -> (t: &Token)
        requires
            self.index < self.tokens@.len(),
        ensures
            t@ == self.toks()[self.index as int],
    {
        &self.tokens[self.index]
    }

    /// Consumes and returns the current token.
    pub fn eat(&mut self) -> (t: Token)
        requires
            old(self).index < old(self).tokens@.len(),
        ensures
            t@ == old(self).toks()[old(self).index as int],
            final(self).tokens == old(self).tokens,
            final(self).index == old(self).index + 1,
    {
        let n = self.tokens.len();
        let t = self.tokens[self.index].clone();
        self.index = self.index + 1;
        t
    }

    /// Consumes the current token if it has the expected kind; otherwise
    /// reports it missing and consumes nothing.
    pub fn expect(&mut self, t: TokenType) -> (r: Result<Token, ParseError>)
        requires
            old(self).index < old(self).tokens@.len(),
        ensures
            final(self).tokens == old(self).tokens,
            match r {
                Ok(tok) => {
                    &&& tok@ == old(self).toks()[old(self).index as int]
                    &&& tok@.t == t
                    &&& final(self).index == old(self).index + 1
                },
                Err(e) => {
                    &&& final(self).index == old(self).index
                    &&& deep_perr(e) == (SpecParseError::MissingToken {
                        expected: t,
                        found: old(self).toks()[old(self).index as int],
                    })
                },
            },
    {
        if self.tokens[self.index].t == t {
            Ok(self.eat())
        } else {
            Err(ParseError::MissingToken { expected: t, found: self.tokens[self.index].clone() })
        }
    }

    /// Whether the cursor stands on the EOF token.
    pub fn is_eof(&self) -> (r: bool)
        requires
            self.index < self.tokens@.len(),
        ensures
            r == (self.toks()[self.index as int].t == TokenType::EOF),
    {
        self.tokens[self.index].t == TokenType::EOF
    }

    /// Parses a whole source text into a `Program`, or reports the first
    /// lexical or parse error.
    pub fn produce_ast(source_code: &str) -> (r: Result<Program, SourceError>)
        ensures
            match r {
                Ok(prog) => sp_produce_ast(source_code@) == Ok::<Seq<SpecNode>, SpecSourceError>(
                    deep_nodes(prog.body@),
                ),
                Err(e) => sp_produce_ast(source_code@) == Err::<Seq<SpecNode>, SpecSourceError>(
                    deep_serr(e),
                ),
            },
    {
        let tokens = match tokenize(source_code) {
            Ok(t) => t,
            Err(le) => {
                return Err(SourceError::Lex(le));
            },
        };
        let mut parser = Parser { tokens, index: 0 };
        let mut body: Vec<StatementOrExpression> = Vec::new();
        proof {
            assert(deep_nodes(body@) =~= Seq::<SpecNode>::empty());
        }
        loop
            invariant
                parser.index <= parser.tokens@.len(),
                crate::lexer::spec_tokenize(source_code@) == Ok::<Seq<SpecToken>, LexError>(
                    parser.toks(),
                ),
                sp_parse_prog_nodes(parser.toks(), 0, Seq::empty()) == sp_parse_prog_nodes(
                    parser.toks(),
                    parser.index as int,
                    deep_nodes(body@),
                ),
            decreases parser.tokens@.len() - parser.index,
        {
            if parser.index >= parser.tokens.len() {
                return Err(SourceError::Parse(ParseError::UnexpectedEnd));
            }
            if parser.is_eof() {
                return Ok(Program { body });
            }
            match parse_stmt(&parser.tokens, parser.index) {
                Ok(p) => {
                    let j = p.1;
                    if j <= parser.index || j > parser.tokens.len() {
                        return Err(SourceError::Parse(ParseError::Stalled));
                    }
                    proof {
                        lemma_deep_nodes_push(body@, p.0);
                    }
                    body.push(p.0);
                    parser.index = j;
                },
                Err(e) => {
                    return Err(SourceError::Parse(e));
                },
            }
        }
    }
}

} // verus!
