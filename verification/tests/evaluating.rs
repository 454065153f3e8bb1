use avii_lang::ast::{Statement, StatementOrExpression};
use avii_lang::environment::Environment;
use avii_lang::interpreter::{evaluate, evaluate_with_fuel, RuntimeError, RuntimeVal};
use avii_lang::parser::Parser;

fn run(src: &str) -> (Result<RuntimeVal, RuntimeError>, Vec<String>) {
    let prog = Parser::produce_ast(src).expect("parses");
    let mut env = Environment::new();
    let mut printed: Vec<String> = Vec::new();
    let r = evaluate(
        StatementOrExpression::Statement(Statement::Program(prog)),
        &mut env,
        &mut printed,
    );
    (r, printed)
}

fn run_value(src: &str) -> RuntimeVal {
    let (r, _) = run(src);
    r.expect("evaluates")
}

fn run_error(src: &str) -> RuntimeError {
    let (r, _) = run(src);
    r.expect_err("fails")
}

#[test]
fn let_binding_resolves() {
    assert_eq!(run_value("let x = 5; x"), RuntimeVal::NumberVal(5));
}

#[test]
fn assign_to_constant_fails() {
    assert_eq!(
        run_error("const x = 5; x = 6;"),
        RuntimeError::AssignToConstant { name: String::from("x") }
    );
}

#[test]
fn object_member_access() {
    assert_eq!(run_value("{ a: 1, b: 2 }.a"), RuntimeVal::NumberVal(1));
}

#[test]
fn array_indexing() {
    assert_eq!(run_value("[10,20,30][1]"), RuntimeVal::NumberVal(20));
}

#[test]
fn string_indexing() {
    assert_eq!(
        run_value("\"hello\"[1]"),
        RuntimeVal::StringVal(String::from("e"))
    );
}

#[test]
fn string_split_with_slash() {
    assert_eq!(
        run_value("\"a,b,c\" / \",\""),
        RuntimeVal::ArrayVal(vec![
            RuntimeVal::StringVal(String::from("a")),
            RuntimeVal::StringVal(String::from("b")),
            RuntimeVal::StringVal(String::from("c")),
        ])
    );
}

#[test]
fn function_call_returns_last_value() {
    assert_eq!(
        run_value("func add(a, b) { a + b } add(2, 3)"),
        RuntimeVal::NumberVal(5)
    );
}

#[test]
fn wrong_arity_fails() {
    assert_eq!(
        run_error("func add(a, b) { a + b } add(1)"),
        RuntimeError::ArityMismatch { expected: 2, found: 1 }
    );
}

#[test]
fn numeric_equality() {
    assert_eq!(run_value("1 == 1"), RuntimeVal::BoolVal(true));
}

#[test]
fn boolean_conjunction() {
    assert_eq!(run_value("true and false"), RuntimeVal::BoolVal(false));
}

#[test]
fn redefinition_in_same_scope_fails() {
    assert_eq!(
        run_error("let x = 1; let x = 2;"),
        RuntimeError::DuplicateDefinition { name: String::from("x") }
    );
}

#[test]
fn parameter_shadows_outer_binding_within_call() {
    assert_eq!(
        run_value("let x = 1; func f(x) { x + 10 } f(5)"),
        RuntimeVal::NumberVal(15)
    );
}

#[test]
fn parameter_shadowing_leaves_outer_binding_alone() {
    assert_eq!(
        run_value("let x = 1; func f(x) { x + 10 } f(5) x"),
        RuntimeVal::NumberVal(1)
    );
}

#[test]
fn division_by_zero_fails() {
    assert_eq!(run_error("5 / 0"), RuntimeError::DivisionByZero);
}

#[test]
fn modulo_by_zero_fails() {
    assert_eq!(run_error("5 % 0"), RuntimeError::DivisionByZero);
}

#[test]
fn arithmetic_results() {
    assert_eq!(run_value("2 + 3 * 4"), RuntimeVal::NumberVal(14));
    assert_eq!(run_value("10 - 2 - 3"), RuntimeVal::NumberVal(5));
    assert_eq!(run_value("7 % 3"), RuntimeVal::NumberVal(1));
    assert_eq!(run_value("10 / 4"), RuntimeVal::NumberVal(2));
}

#[test]
fn string_concatenation_coerces_numbers() {
    assert_eq!(
        run_value("\"a\" + 1"),
        RuntimeVal::StringVal(String::from("a1"))
    );
    assert_eq!(
        run_value("1 + \"a\""),
        RuntimeVal::StringVal(String::from("1a"))
    );
}

#[test]
fn uncoercible_binary_operands_give_null() {
    assert_eq!(run_value("true + 1"), RuntimeVal::NullVal);
    assert_eq!(run_value("\"a\" - \"b\""), RuntimeVal::NullVal);
}

#[test]
fn mixed_type_condition_is_false() {
    assert_eq!(run_value("1 == \"1\""), RuntimeVal::BoolVal(false));
}

#[test]
fn string_equality() {
    assert_eq!(run_value("\"a\" == \"a\""), RuntimeVal::BoolVal(true));
    assert_eq!(run_value("\"a\" != \"b\""), RuntimeVal::BoolVal(true));
}

#[test]
fn unknown_operator_for_matched_types_fails() {
    assert_eq!(
        run_error("1 and 2"),
        RuntimeError::UnknownOperator { op: String::from("and") }
    );
}

#[test]
fn absent_key_and_out_of_range_index_give_null() {
    assert_eq!(run_value("{ a: 1 }.b"), RuntimeVal::NullVal);
    assert_eq!(run_value("[1,2][5]"), RuntimeVal::NullVal);
    assert_eq!(run_value("[1,2][\"x\"]"), RuntimeVal::NullVal);
}

#[test]
fn uncoercible_property_fails() {
    assert_eq!(run_error("[1][true]"), RuntimeError::InvalidPropertyAccess);
}

#[test]
fn undefined_variable_fails() {
    assert_eq!(
        run_error("nope"),
        RuntimeError::UndefinedVariable { name: String::from("nope") }
    );
}

#[test]
fn print_appends_display_forms() {
    let (r, printed) = run("print(\"hi\")");
    assert_eq!(r, Ok(RuntimeVal::NullVal));
    assert_eq!(printed, vec![String::from("hi")]);
}

#[test]
fn print_renders_arrays_and_objects() {
    let (_, printed) = run("print([1, \"x\", true])");
    assert_eq!(printed, vec![String::from("[1, x, true]")]);
    let (_, printed) = run("print({ a: 1, b: 2 })");
    assert_eq!(printed, vec![String::from("{a: 1, b: 2}")]);
    let (_, printed) = run("print(null)");
    assert_eq!(printed, vec![String::from("null")]);
    let (_, printed) = run("print(0 - 7)");
    assert_eq!(printed, vec![String::from("-7")]);
}

#[test]
fn repeated_object_key_takes_last_value() {
    assert_eq!(run_value("{ a: 1, a: 2 }.a"), RuntimeVal::NumberVal(2));
}

#[test]
fn object_shorthand_looks_up_variable() {
    assert_eq!(run_value("let a = 41; { a }.a"), RuntimeVal::NumberVal(41));
}

#[test]
fn closures_snapshot_their_scope() {
    // The captured environment is a value snapshot: later mutation of the
    // defining scope is not visible through the closure.
    assert_eq!(
        run_value("let x = 1; func f() { x } x = 2; f()"),
        RuntimeVal::NumberVal(1)
    );
}

#[test]
fn named_function_cannot_see_itself() {
    // The snapshot precedes the function's own binding, so direct
    // recursion does not resolve.
    assert_eq!(
        run_error("func g() { g() } g()"),
        RuntimeError::UndefinedVariable { name: String::from("g") }
    );
}

#[test]
fn function_values_and_anonymous_literals() {
    assert!(matches!(
        run_value("func f(a) { a } f"),
        RuntimeVal::FunctionVal(_)
    ));
    assert_eq!(run_value("let g = func (a) { a + 1 }; g(4)"), RuntimeVal::NumberVal(5));
}

#[test]
fn calling_a_non_function_gives_null() {
    assert_eq!(run_value("let x = 1; x(2)"), RuntimeVal::NullVal);
}

#[test]
fn duplicate_parameter_names_fail_at_call() {
    assert_eq!(
        run_error("func f(a, a) { a } f(1, 2)"),
        RuntimeError::DuplicateDefinition { name: String::from("a") }
    );
}

#[test]
fn fuel_bounds_call_nesting() {
    let prog = Parser::produce_ast("print(1)").expect("parses");
    let mut env = Environment::new();
    let mut printed: Vec<String> = Vec::new();
    let r = evaluate_with_fuel(
        StatementOrExpression::Statement(Statement::Program(prog)),
        &mut env,
        &mut printed,
        0,
    );
    assert_eq!(r, Err(RuntimeError::RecursionLimit));
}

#[test]
fn wrapping_arithmetic_on_overflow() {
    assert_eq!(
        run_value("9223372036854775807 + 1"),
        RuntimeVal::NumberVal(i64::MIN)
    );
}

#[test]
fn unicode_string_indexing_counts_characters() {
    assert_eq!(
        run_value("\"h\u{e9}llo\"[1]"),
        RuntimeVal::StringVal(String::from("\u{e9}"))
    );
}

#[test]
fn empty_split_delimiter_returns_whole_string() {
    assert_eq!(
        run_value("\"abc\" / \"\""),
        RuntimeVal::ArrayVal(vec![RuntimeVal::StringVal(String::from("abc"))])
    );
}

#[test]
fn split_keeps_empty_trailing_piece() {
    assert_eq!(
        run_value("\"a,b,\" / \",\""),
        RuntimeVal::ArrayVal(vec![
            RuntimeVal::StringVal(String::from("a")),
            RuntimeVal::StringVal(String::from("b")),
            RuntimeVal::StringVal(String::from("")),
        ])
    );
}

#[test]
fn call_chains_on_call_results() {
    assert_eq!(
        run_value("func mk() { let f = func (a) { a + 1 }; f } mk()(4)"),
        RuntimeVal::NumberVal(5)
    );
}

#[test]
fn member_access_on_call_result() {
    assert_eq!(
        run_value("func f() { { a: 9 } } f().a"),
        RuntimeVal::NumberVal(9)
    );
}

#[test]
fn assignments_inside_arguments_mutate_the_caller_scope() {
    let (r, printed) = run("let x = 1; print(x = 2) x");
    assert_eq!(r, Ok(RuntimeVal::NumberVal(2)));
    assert_eq!(printed, vec![String::from("2")]);
}

#[test]
fn shadowing_in_nested_scope_is_allowed() {
    assert_eq!(
        run_value("let x = 1; func f() { let x = 2; x } f()"),
        RuntimeVal::NumberVal(2)
    );
}
