use shellux::errors::RuntimeError;
use shellux::interp::{Interpreter, NullHost};
use shellux::lexer::Lexer;
use shellux::parser::Parser;
use shellux::value::Value;

fn run(source: &str) -> Result<Value, RuntimeError> {
    let mut lexer = Lexer::new(source);
    let tokens = lexer.tokenize();
    let mut parser = Parser::new(tokens);
    let program = parser.parse().unwrap();
    let mut interpreter = Interpreter::new();
    let mut host = NullHost {};
    interpreter.interpret(&mut host, program)
}

#[test]
fn test_simple_arithmetic() {
    let result = run("2 + 3 * 4").unwrap();
    assert!(matches!(result, Value::Integer(14)));
}

#[test]
fn test_variable_assignment() {
    let result = run("x is 42\nx").unwrap();
    assert!(matches!(result, Value::Integer(42)));
}

#[test]
fn test_function_definition_and_call() {
    let source = r#"
        fn add(a: int, b: int) -> int {
            return a + b
        }
        add(2, 3)
    "#;
    let result = run(source).unwrap();
    assert!(matches!(result, Value::Integer(5)));
}

#[test]
fn test_const_declaration() {
    let result = run("const x is 42\nx").unwrap();
    assert!(matches!(result, Value::Integer(42)));
}

#[test]
fn test_const_reassignment_fails() {
    let result = run("const x is 42\nx = 10");
    assert!(result.is_err());
    assert!(result.unwrap_err().message().contains("Cannot assign to const variable: x"));
}

#[test]
fn test_let_reassignment_succeeds() {
    let result = run("let x is 42\nx = 10\nx").unwrap();
    assert!(matches!(result, Value::Integer(10)));
}

#[test]
fn test_mixed_let_const_declarations() {
    let source = r#"
        let x is 10
        const y is 20
        x = 30
        x + y
    "#;
    let result = run(source).unwrap();
    assert!(matches!(result, Value::Integer(50)));
}

#[test]
fn test_parenthesized_precedence() {
    let result = run("(2 + 3) * 4").unwrap();
    assert!(matches!(result, Value::Integer(20)));
}

#[test]
fn test_division_truncates_toward_zero() {
    assert!(matches!(run("7 / 2").unwrap(), Value::Integer(3)));
    assert!(matches!(run("(0 - 7) / 2").unwrap(), Value::Integer(-3)));
    assert!(matches!(run("7 / (0 - 2)").unwrap(), Value::Integer(-3)));
    assert!(matches!(run("(0 - 7) / (0 - 2)").unwrap(), Value::Integer(3)));
}

#[test]
fn test_remainder_matches_truncation() {
    assert!(matches!(run("7 % 2").unwrap(), Value::Integer(1)));
    assert!(matches!(run("(0 - 7) % 2").unwrap(), Value::Integer(-1)));
    assert!(matches!(run("7 % (0 - 2)").unwrap(), Value::Integer(1)));
    assert!(matches!(run("(0 - 7) % (0 - 2)").unwrap(), Value::Integer(-1)));
}

#[test]
fn test_division_by_zero_fails() {
    let err = run("5 / 0").unwrap_err();
    assert_eq!(err.message(), "Division by zero");
    let err = run("5 % 0").unwrap_err();
    assert_eq!(err.message(), "Division by zero");
}

#[test]
fn test_division_overflow_fails() {
    let err = run("(0 - 9223372036854775807 - 1) / (0 - 1)").unwrap_err();
    assert_eq!(err.message(), "Integer overflow in division");
}

#[test]
fn test_addition_wraps() {
    let result = run("9223372036854775807 + 1").unwrap();
    assert!(matches!(result, Value::Integer(i) if i == i64::MIN));
}

#[test]
fn test_nested_block_assignment_reaches_outer() {
    // Mutating x inside the if-body changes the outer binding
    let result = run("let x is 10\nif true { x = 99 }\nx").unwrap();
    assert!(matches!(result, Value::Integer(99)));
}

#[test]
fn test_nested_block_declaration_stays_local() {
    // Declaring a new x inside the block shadows; the outer x is unchanged
    let result = run("let x is 10\nif true { let x is 5 }\nx").unwrap();
    assert!(matches!(result, Value::Integer(10)));
}

#[test]
fn test_closure_captures_snapshot() {
    // The function sees the binding present at its definition, not the
    // mutation made afterwards
    let source = "let y is 1\nfn f() { return y }\ny = 2\nf()";
    let result = run(source).unwrap();
    assert!(matches!(result, Value::Integer(1)));
}

#[test]
fn test_arity_mismatch_reports_counts() {
    let source = "fn add(a, b) { return a + b }\nadd(1)";
    let err = run(source).unwrap_err();
    assert_eq!(err.message(), "Function add expects 2 arguments, got 1");

    let source = "fn add(a, b) { return a + b }\nadd(1, 2, 3)";
    let err = run(source).unwrap_err();
    assert_eq!(err.message(), "Function add expects 2 arguments, got 3");
}

#[test]
fn test_truthiness_zero_and_empty_string_are_falsy() {
    let result = run("if 0 { } else { \"no\" }").unwrap();
    assert!(matches!(result, Value::String(s) if s == "no"));
    let result = run("if \"\" { } else { \"no\" }").unwrap();
    assert!(matches!(result, Value::String(s) if s == "no"));
}

#[test]
fn test_truthiness_nonempty_array_is_truthy() {
    let result = run("if [0] { \"yes\" }").unwrap();
    assert!(matches!(result, Value::String(s) if s == "yes"));
}

#[test]
fn test_undefined_variable_assignment_fails() {
    let err = run("y = 1").unwrap_err();
    assert_eq!(err.message(), "Undefined variable: y");
}

#[test]
fn test_unsupported_operation_names_types() {
    let err = run("1 + \"a\"").unwrap_err();
    assert_eq!(err.message(), "Unsupported operation: int Add string");
}

#[test]
fn test_unsupported_unary_names_type() {
    let err = run("-\"a\"").unwrap_err();
    assert_eq!(err.message(), "Unsupported unary operation: Minus string");
}

#[test]
fn test_cross_type_equality_is_false() {
    assert!(matches!(run("1 == \"1\"").unwrap(), Value::Boolean(false)));
    assert!(matches!(run("1 != \"1\"").unwrap(), Value::Boolean(true)));
}

#[test]
fn test_string_concat_and_equality() {
    let result = run("\"ab\" + \"cd\"").unwrap();
    assert!(matches!(result, Value::String(s) if s == "abcd"));
    assert!(matches!(run("\"a\" == \"a\"").unwrap(), Value::Boolean(true)));
    assert!(matches!(run("\"a\" != \"b\"").unwrap(), Value::Boolean(true)));
}

#[test]
fn test_boolean_operators() {
    assert!(matches!(run("true && false").unwrap(), Value::Boolean(false)));
    assert!(matches!(run("true || false").unwrap(), Value::Boolean(true)));
    assert!(matches!(run("!0").unwrap(), Value::Boolean(true)));
}

#[test]
fn test_comparisons() {
    assert!(matches!(run("1 < 2").unwrap(), Value::Boolean(true)));
    assert!(matches!(run("2 <= 1").unwrap(), Value::Boolean(false)));
    assert!(matches!(run("3 > 2").unwrap(), Value::Boolean(true)));
    assert!(matches!(run("2 >= 2").unwrap(), Value::Boolean(true)));
}

#[test]
fn test_array_literal_evaluates_elements() {
    let result = run("[1, 2 + 3]").unwrap();
    match result {
        Value::Array(elems) => {
            assert_eq!(elems.len(), 2);
            assert!(matches!(elems[1], Value::Integer(5)));
        }
        _ => panic!("Expected array value"),
    }
}

#[test]
fn test_map_literal_string_keys() {
    let result = run("{\"a\": 1, \"b\": 2, \"a\": 3}").unwrap();
    match result {
        Value::MapVal(pairs) => {
            // A repeated key replaces the earlier entry
            assert_eq!(pairs.len(), 2);
            assert_eq!(pairs[0].0, "a");
            assert!(matches!(pairs[0].1, Value::Integer(3)));
        }
        _ => panic!("Expected map value"),
    }
}

#[test]
fn test_map_literal_integer_key_renders_as_text() {
    let result = run("{1: \"a\"}").unwrap();
    match result {
        Value::MapVal(pairs) => {
            assert_eq!(pairs.len(), 1);
            assert_eq!(pairs[0].0, "1");
        }
        _ => panic!("Expected map value"),
    }
}

#[test]
fn test_unsupported_statement_reports() {
    let err = run("while true { 1 }").unwrap_err();
    assert_eq!(err.message(), "Statement type not yet implemented");
}

#[test]
fn test_function_does_not_see_itself() {
    // The closure snapshot is taken before the function's own name is bound,
    // so a self-call inside the body resolves as an external command
    let err = run("fn f() { return f() }\nf()").unwrap_err();
    assert!(err.message().contains("no host"));
}

#[test]
fn test_builtin_call_goes_to_host() {
    // Under the empty host every built-in call fails with the host's error
    let err = run("print(1)").unwrap_err();
    assert!(err.message().contains("no host"));
}

#[test]
fn test_unknown_name_goes_to_host() {
    let err = run("ls").unwrap_err();
    assert!(err.message().contains("no host"));
}

#[test]
fn test_command_substitution_goes_to_host() {
    let err = run("$(echo hi)").unwrap_err();
    assert!(err.message().contains("no host"));
}

#[test]
fn test_interpreter_keeps_definitions_between_programs() {
    let mut interpreter = Interpreter::new();
    let mut host = NullHost {};

    let mut lexer = Lexer::new("x is 41");
    let mut parser = Parser::new(lexer.tokenize());
    interpreter.interpret(&mut host, parser.parse().unwrap()).unwrap();

    let mut lexer = Lexer::new("x + 1");
    let mut parser = Parser::new(lexer.tokenize());
    let result = interpreter.interpret(&mut host, parser.parse().unwrap()).unwrap();
    assert!(matches!(result, Value::Integer(42)));
}

#[test]
fn test_is_builtin_names() {
    assert!(shellux::builtins::is_builtin("print"));
    assert!(shellux::builtins::is_builtin("run"));
    assert!(shellux::builtins::is_builtin("to_float"));
    assert!(!shellux::builtins::is_builtin("frobnicate"));
    assert!(!shellux::builtins::is_builtin(""));
}

#[test]
fn test_value_truthiness_direct() {
    assert!(!Value::Nil.is_truthy());
    assert!(!Value::Boolean(false).is_truthy());
    assert!(!Value::Integer(0).is_truthy());
    assert!(Value::Integer(-1).is_truthy());
    assert!(!Value::String(String::new()).is_truthy());
    assert!(Value::Array(vec![Value::Integer(0)]).is_truthy());
    // 0.0 and -0.0 are falsy by their bit patterns; any other float is truthy
    assert!(!Value::Float(0).is_truthy());
    assert!(!Value::Float(0x8000_0000_0000_0000).is_truthy());
    assert!(Value::Float(0x3FF0_0000_0000_0000).is_truthy());
}

#[test]
fn test_type_labels() {
    assert_eq!(Value::Integer(1).type_label(), "int");
    assert_eq!(Value::Nil.type_label(), "nil");
    assert_eq!(Value::MapVal(Vec::new()).type_label(), "map");
}

#[test]
fn test_value_display() {
    let mut host = NullHost {};
    assert_eq!(Value::Integer(-5).to_string(&mut host), "-5");
    assert_eq!(Value::Boolean(true).to_string(&mut host), "true");
    assert_eq!(Value::Nil.to_string(&mut host), "nil");
    let arr = Value::Array(vec![Value::Integer(1), Value::Integer(2)]);
    assert_eq!(arr.to_string(&mut host), "[1, 2]");
    let map = Value::MapVal(vec![("a".to_string(), Value::Integer(1))]);
    assert_eq!(map.to_string(&mut host), "{a: 1}");
}

#[test]
fn test_program_value_is_last_statement() {
    assert!(matches!(run("1\n2\n3").unwrap(), Value::Integer(3)));
    assert!(matches!(run("").unwrap(), Value::Nil));
}

#[test]
fn test_float_literal_needs_host() {
    let err = run("3.14").unwrap_err();
    assert!(err.message().contains("no host"));
}

#[test]
fn test_nil_literal() {
    assert!(matches!(run("nil").unwrap(), Value::Nil));
}

#[test]
fn test_largest_integer_literal() {
    let result = run("9223372036854775807").unwrap();
    assert!(matches!(result, Value::Integer(i) if i == i64::MAX));
}

#[test]
fn test_comparison_result_feeds_equality() {
    assert!(matches!(run("1 < 2 == true").unwrap(), Value::Boolean(true)));
}

#[test]
fn test_nested_closure_capture() {
    // The inner function captures the outer call's scope, parameters included
    let source = "fn outer(a) { fn inner() { return a } return inner() }\nouter(7)";
    let result = run(source).unwrap();
    assert!(matches!(result, Value::Integer(7)));
}

#[test]
fn test_parameter_shadows_outer_binding() {
    let source = "let a is 1\nfn f(a) { return a }\nf(2)";
    let result = run(source).unwrap();
    assert!(matches!(result, Value::Integer(2)));
}

#[test]
fn test_function_value_echo() {
    // Defining a function yields the function value itself
    let mut host = NullHost {};
    let result = run("fn g(x) { return x }").unwrap();
    assert!(matches!(&result, Value::Function { .. }));
    assert_eq!(result.to_string(&mut host), "function g");
}
