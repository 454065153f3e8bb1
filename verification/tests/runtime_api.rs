use avii_lang::ast::{
    ArrayLiteral, Assignment, Expression, Identifier, IfStatement, NumericLiteral, ObjectLiteral,
    Property, Statement, StatementOrExpression, VariableDecleration,
};
use avii_lang::environment::Environment;
use avii_lang::interpreter::{evaluate, RuntimeError, RuntimeVal};

fn eval_node(node: StatementOrExpression) -> Result<RuntimeVal, RuntimeError> {
    let mut env = Environment::new();
    let mut printed: Vec<String> = Vec::new();
    evaluate(node, &mut env, &mut printed)
}

fn num(n: i64) -> Expression {
    Expression::NumericLiteral(NumericLiteral { value: n })
}

#[test]
fn environment_defines_and_resolves() {
    let mut env = Environment::new();
    assert_eq!(env.get("true"), Some(RuntimeVal::BoolVal(true)));
    assert_eq!(env.get("false"), Some(RuntimeVal::BoolVal(false)));
    assert_eq!(env.get("null"), Some(RuntimeVal::NullVal));
    assert_eq!(env.get("nope"), None);
    assert!(env.resolve("nope").is_none());

    env.set("x", RuntimeVal::NumberVal(1), false).expect("defines");
    assert_eq!(env.get("x"), Some(RuntimeVal::NumberVal(1)));
    assert!(env.resolve("x").is_some());
    assert!(matches!(
        env.set("x", RuntimeVal::NumberVal(2), false),
        Err(RuntimeError::DuplicateDefinition { .. })
    ));
}

#[test]
fn environment_chain_lookup_and_assignment() {
    let mut outer = Environment::new();
    outer.set("x", RuntimeVal::NumberVal(1), false).expect("defines");
    let mut inner = Environment::new_with_parent(outer);
    assert_eq!(inner.get("x"), Some(RuntimeVal::NumberVal(1)));
    // A fresh definition in the child shadows without conflict.
    inner.set("x", RuntimeVal::NumberVal(7), false).expect("shadows");
    assert_eq!(inner.get("x"), Some(RuntimeVal::NumberVal(7)));
    // Assignment resolves through the chain.
    assert_eq!(
        inner.assign("true", RuntimeVal::NumberVal(0)),
        Err(RuntimeError::AssignToConstant { name: String::from("true") })
    );
    assert_eq!(
        inner.assign("ghostly", RuntimeVal::NumberVal(0)),
        Err(RuntimeError::UndefinedVariable { name: String::from("ghostly") })
    );
}

#[test]
fn if_statement_takes_the_matching_branch() {
    let branch = Statement::If(IfStatement {
        test: Box::new(Expression::Identifier(Identifier { symbol: String::from("true") })),
        consequent: vec![StatementOrExpression::Expression(num(7))],
        alternate: Some(vec![StatementOrExpression::Expression(num(8))]),
    });
    assert_eq!(
        eval_node(StatementOrExpression::Statement(branch)),
        Ok(RuntimeVal::NumberVal(7))
    );
    let branch = Statement::If(IfStatement {
        test: Box::new(Expression::Identifier(Identifier { symbol: String::from("false") })),
        consequent: vec![StatementOrExpression::Expression(num(7))],
        alternate: Some(vec![StatementOrExpression::Expression(num(8))]),
    });
    assert_eq!(
        eval_node(StatementOrExpression::Statement(branch)),
        Ok(RuntimeVal::NumberVal(8))
    );
}

#[test]
fn if_statement_requires_a_boolean_test() {
    let branch = Statement::If(IfStatement {
        test: Box::new(num(1)),
        consequent: vec![],
        alternate: None,
    });
    assert_eq!(
        eval_node(StatementOrExpression::Statement(branch)),
        Err(RuntimeError::NonBooleanCondition)
    );
}

#[test]
fn assignment_node_requires_identifier_target() {
    let node = StatementOrExpression::Expression(Expression::Assignment(Assignment::new(
        num(1),
        num(2),
    )));
    assert_eq!(eval_node(node), Err(RuntimeError::InvalidAssignmentTarget));
}

#[test]
fn ast_constructors_build_expected_nodes() {
    let v = VariableDecleration::new(String::from("x"), Some(num(1)), true);
    assert!(v.constant);
    assert_eq!(v.identifier.symbol, "x");

    let f = avii_lang::ast::FunctionDecleration::new(
        String::from("f"),
        vec![String::from("a"), String::from("b")],
        vec![StatementOrExpression::Expression(num(1))],
    );
    assert_eq!(f.get_name(), "f");
    assert_eq!(f.params.len(), 2);
    assert_eq!(f.params[1].symbol, "b");

    let a = Assignment::new(
        Expression::Identifier(Identifier { symbol: String::from("x") }),
        num(3),
    );
    assert!(matches!(&*a.assignee, Expression::Identifier(_)));

    let p = Property::new(String::from("k"), num(4));
    assert_eq!(p.key, "k");
    assert_eq!(p.value.as_deref(), Some(&num(4)));

    let o = ObjectLiteral::new(vec![Property { key: String::from("k"), value: None }]);
    assert_eq!(o.properties.len(), 1);

    let arr = ArrayLiteral::new(vec![num(1), num(2)]);
    assert_eq!(arr.elements.len(), 2);
}
