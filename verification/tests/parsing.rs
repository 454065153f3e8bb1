use avii_lang::ast::{
    Binary, Expression, NumericLiteral, Program, Statement, StatementOrExpression,
};
use avii_lang::lexer::TokenType;
use avii_lang::parser::{ParseError, Parser, SourceError};

fn num(n: i64) -> Expression {
    Expression::NumericLiteral(NumericLiteral { value: n })
}

#[test]
fn precedence_multiplicative_binds_tighter() {
    let prog = Parser::produce_ast("1 + 2 * 3").expect("parses");
    let expected = Program {
        body: vec![StatementOrExpression::Expression(Expression::Binary(Binary {
            left: Box::new(num(1)),
            operator: String::from("+"),
            right: Box::new(Expression::Binary(Binary {
                left: Box::new(num(2)),
                operator: String::from("*"),
                right: Box::new(num(3)),
            })),
        }))],
    };
    assert_eq!(prog, expected);
}

#[test]
fn additive_is_left_associative() {
    let prog = Parser::produce_ast("1 - 2 - 3").expect("parses");
    let expected = Program {
        body: vec![StatementOrExpression::Expression(Expression::Binary(Binary {
            left: Box::new(Expression::Binary(Binary {
                left: Box::new(num(1)),
                operator: String::from("-"),
                right: Box::new(num(2)),
            })),
            operator: String::from("-"),
            right: Box::new(num(3)),
        }))],
    };
    assert_eq!(prog, expected);
}

#[test]
fn parentheses_override_precedence() {
    let prog = Parser::produce_ast("(1 + 2) * 3").expect("parses");
    let expected = Program {
        body: vec![StatementOrExpression::Expression(Expression::Binary(Binary {
            left: Box::new(Expression::Binary(Binary {
                left: Box::new(num(1)),
                operator: String::from("+"),
                right: Box::new(num(2)),
            })),
            operator: String::from("*"),
            right: Box::new(num(3)),
        }))],
    };
    assert_eq!(prog, expected);
}

#[test]
fn variable_declaration_shapes() {
    let prog = Parser::produce_ast("let x = 5;").expect("parses");
    match &prog.body[0] {
        StatementOrExpression::Statement(Statement::VariableDecleration(v)) => {
            assert!(!v.constant);
            assert_eq!(v.identifier.symbol, "x");
            assert_eq!(v.value, Some(num(5)));
        }
        other => panic!("expected a variable declaration, got {:?}", other),
    }
    let prog = Parser::produce_ast("let y;").expect("parses");
    match &prog.body[0] {
        StatementOrExpression::Statement(Statement::VariableDecleration(v)) => {
            assert!(v.value.is_none());
        }
        other => panic!("expected a variable declaration, got {:?}", other),
    }
}

#[test]
fn const_requires_initializer() {
    assert!(matches!(
        Parser::produce_ast("const x;"),
        Err(SourceError::Parse(ParseError::ConstWithoutValue { line: 1 }))
    ));
}

#[test]
fn assignment_is_right_associative_with_identifier_target() {
    let prog = Parser::produce_ast("let a = 1; let b = 2; a = b = 3;").expect("parses");
    assert_eq!(prog.body.len(), 3);
    match &prog.body[2] {
        StatementOrExpression::Expression(Expression::Assignment(a)) => {
            assert!(matches!(&*a.assignee, Expression::Identifier(i) if i.symbol == "a"));
            assert!(matches!(&*a.value, Expression::Assignment(_)));
        }
        other => panic!("expected an assignment, got {:?}", other),
    }
}

#[test]
fn assignment_to_non_identifier_is_rejected() {
    assert!(matches!(
        Parser::produce_ast("1 = 2"),
        Err(SourceError::Parse(ParseError::InvalidAssignTarget { .. }))
    ));
}

#[test]
fn fractional_literal_is_rejected_at_parse() {
    assert!(matches!(
        Parser::produce_ast("1.5"),
        Err(SourceError::Parse(ParseError::InvalidNumber { .. }))
    ));
}

#[test]
fn oversized_literal_is_rejected_at_parse() {
    assert!(matches!(
        Parser::produce_ast("99999999999999999999"),
        Err(SourceError::Parse(ParseError::InvalidNumber { .. }))
    ));
}

#[test]
fn unexpected_token_is_reported() {
    match Parser::produce_ast(")") {
        Err(SourceError::Parse(ParseError::UnexpectedToken { found })) => {
            assert_eq!(found.t, TokenType::CloseParen);
        }
        other => panic!("expected an unexpected-token error, got {:?}", other),
    }
}

#[test]
fn missing_token_is_reported() {
    match Parser::produce_ast("let x = 5") {
        Err(SourceError::Parse(ParseError::MissingToken { expected, .. })) => {
            assert_eq!(expected, TokenType::Semicolon);
        }
        other => panic!("expected a missing-token error, got {:?}", other),
    }
}

#[test]
fn lex_error_surfaces_through_produce_ast() {
    assert!(matches!(
        Parser::produce_ast("let x = $;"),
        Err(SourceError::Lex(_))
    ));
}

#[test]
fn member_and_call_chain_shape() {
    let prog = Parser::produce_ast("a.b(c)[d]").expect("parses");
    match &prog.body[0] {
        StatementOrExpression::Expression(Expression::Member(m)) => {
            assert!(m.computed);
            assert!(matches!(&*m.object, Expression::Call(_)));
        }
        other => panic!("expected a member expression, got {:?}", other),
    }
}

#[test]
fn function_declaration_parses() {
    let prog = Parser::produce_ast("func add(a, b) { a + b }").expect("parses");
    match &prog.body[0] {
        StatementOrExpression::Statement(Statement::FunctionDecleration(f)) => {
            assert_eq!(f.identifier.symbol, "add");
            assert_eq!(f.params.len(), 2);
            assert_eq!(f.params[0].symbol, "a");
            assert_eq!(f.params[1].symbol, "b");
            assert_eq!(f.body.len(), 1);
        }
        other => panic!("expected a function declaration, got {:?}", other),
    }
}

#[test]
fn object_literal_shorthand_and_pairs() {
    let prog = Parser::produce_ast("{ a, b: 2 }").expect("parses");
    match &prog.body[0] {
        StatementOrExpression::Expression(Expression::ObjectLiteral(o)) => {
            assert_eq!(o.properties.len(), 2);
            assert_eq!(o.properties[0].key, "a");
            assert!(o.properties[0].value.is_none());
            assert_eq!(o.properties[1].key, "b");
            assert!(o.properties[1].value.is_some());
        }
        other => panic!("expected an object literal, got {:?}", other),
    }
}

#[test]
fn array_literal_parses() {
    let prog = Parser::produce_ast("[10, 20, 30]").expect("parses");
    match &prog.body[0] {
        StatementOrExpression::Expression(Expression::ArrayLiteral(a)) => {
            assert_eq!(a.elements.len(), 3);
            assert_eq!(a.elements[1], num(20));
        }
        other => panic!("expected an array literal, got {:?}", other),
    }
}

#[test]
fn condition_parses_below_assignment() {
    let prog = Parser::produce_ast("1 + 1 == 2").expect("parses");
    match &prog.body[0] {
        StatementOrExpression::Expression(Expression::Condition(c)) => {
            assert_eq!(c.operator, "==");
            assert!(matches!(&*c.left, Expression::Binary(_)));
        }
        other => panic!("expected a condition, got {:?}", other),
    }
}
