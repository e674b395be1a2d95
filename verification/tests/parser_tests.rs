use shellux::ast::{Expr, Stmt};
use shellux::lexer::Lexer;
use shellux::parser::Parser;

#[test]
fn test_parse_simple_let() {
    let source = "name is \"World\"";
    let mut lexer = Lexer::new(source);
    let tokens = lexer.tokenize();
    let mut parser = Parser::new(tokens);
    let program = parser.parse().unwrap();

    assert_eq!(program.statements.len(), 1);
    match &program.statements[0] {
        Stmt::Let { name, value, .. } => {
            assert_eq!(name, "name");
            assert!(matches!(value, Expr::String(_)));
        }
        _ => panic!("Expected let statement"),
    }
}

#[test]
fn test_parse_function_call() {
    let source = "print(\"Hello\")";
    let mut lexer = Lexer::new(source);
    let tokens = lexer.tokenize();
    let mut parser = Parser::new(tokens);
    let program = parser.parse().unwrap();

    assert_eq!(program.statements.len(), 1);
    match &program.statements[0] {
        Stmt::Expression(Expr::Call { name, args }) => {
            assert_eq!(name, "print");
            assert_eq!(args.len(), 1);
        }
        _ => panic!("Expected function call"),
    }
}

fn parse_source(source: &str) -> Result<shellux::ast::Program, shellux::errors::ParseError> {
    let mut lexer = Lexer::new(source);
    let tokens = lexer.tokenize();
    let mut parser = Parser::new(tokens);
    parser.parse()
}

#[test]
fn test_parse_precedence_shape() {
    // 2 + 3 * 4 parses as 2 + (3 * 4)
    let program = parse_source("2 + 3 * 4").unwrap();
    match &program.statements[0] {
        Stmt::Expression(Expr::Binary { left, operator, right }) => {
            assert!(matches!(**left, Expr::Integer(2)));
            assert!(matches!(operator, shellux::ast::BinaryOperator::Add));
            assert!(matches!(**right, Expr::Binary { .. }));
        }
        _ => panic!("Expected binary expression"),
    }
}

#[test]
fn test_parse_keyword_let_with_annotation() {
    let program = parse_source("let x: int is 1").unwrap();
    match &program.statements[0] {
        Stmt::Let { name, type_annotation, .. } => {
            assert_eq!(name, "x");
            assert!(matches!(type_annotation, Some(shellux::ast::Type::Int)));
        }
        _ => panic!("Expected let statement"),
    }
}

#[test]
fn test_parse_function_definition() {
    let program = parse_source("fn add(a: int, b: int) -> int { return a + b }").unwrap();
    match &program.statements[0] {
        Stmt::Function { name, parameters, return_type, body } => {
            assert_eq!(name, "add");
            assert_eq!(parameters.len(), 2);
            assert_eq!(parameters[0].name, "a");
            assert!(matches!(return_type, Some(shellux::ast::Type::Int)));
            assert_eq!(body.len(), 1);
        }
        _ => panic!("Expected function statement"),
    }
}

#[test]
fn test_parse_if_else() {
    let program = parse_source("if x { 1 } else { 2 }").unwrap();
    match &program.statements[0] {
        Stmt::If { condition, then_block, else_block } => {
            assert!(matches!(condition, Expr::Identifier(_)));
            assert_eq!(then_block.len(), 1);
            assert!(else_block.is_some());
        }
        _ => panic!("Expected if statement"),
    }
}

#[test]
fn test_parse_assignment_forms() {
    let program = parse_source("x = 1\nx += 2\nx -= 3").unwrap();
    assert_eq!(program.statements.len(), 3);
    match &program.statements[1] {
        Stmt::Assignment { operator, .. } => {
            assert!(matches!(operator, shellux::ast::AssignmentOperator::AddAssign));
        }
        _ => panic!("Expected assignment"),
    }
}

#[test]
fn test_parse_array_and_map_literals() {
    let program = parse_source("[1, 2, 3]\n{\"a\": 1, \"b\": 2}").unwrap();
    assert_eq!(program.statements.len(), 2);
    match &program.statements[0] {
        Stmt::Expression(Expr::Array(elems)) => assert_eq!(elems.len(), 3),
        _ => panic!("Expected array literal"),
    }
    match &program.statements[1] {
        Stmt::Expression(Expr::MapLit(pairs)) => assert_eq!(pairs.len(), 2),
        _ => panic!("Expected map literal"),
    }
}

#[test]
fn test_parse_error_on_unclosed_paren() {
    assert!(parse_source("(1 + 2").is_err());
}

#[test]
fn test_parse_error_on_bare_let() {
    assert!(parse_source("let").is_err());
}

#[test]
fn test_parse_error_message_text() {
    let err = parse_source("let 1 is 2").unwrap_err();
    assert!(err.message().contains("Expected identifier"));
}

#[test]
fn test_parse_invalid_call_target() {
    // Call syntax on something that is not a plain name is rejected
    assert!(parse_source("1(2)").is_err());
}

#[test]
fn test_parse_postfix_chain() {
    let program = parse_source("a.b[0].c(1)").unwrap();
    match &program.statements[0] {
        Stmt::Expression(Expr::MethodCall { method, args, .. }) => {
            assert_eq!(method, "c");
            assert_eq!(args.len(), 1);
        }
        _ => panic!("Expected method call"),
    }
}

#[test]
fn test_parse_comments_and_newlines_skipped() {
    let program = parse_source("# leading comment\n\n1\n# trailing\n").unwrap();
    assert_eq!(program.statements.len(), 1);
}

#[test]
fn test_parse_match_statement() {
    let program = parse_source("match x { 1 -> { \"one\" } _ -> { \"many\" } }").unwrap();
    match &program.statements[0] {
        Stmt::Match { arms, .. } => {
            assert_eq!(arms.len(), 2);
            assert!(matches!(arms[0].pattern, shellux::ast::Pattern::Literal(_)));
            assert!(matches!(arms[1].pattern, shellux::ast::Pattern::Wildcard));
        }
        _ => panic!("Expected match statement"),
    }
}

#[test]
fn test_parse_try_catch() {
    let program = parse_source("try { 1 } catch IOError as e { 2 }").unwrap();
    match &program.statements[0] {
        Stmt::Try { catch_clauses, .. } => {
            assert_eq!(catch_clauses.len(), 1);
            assert_eq!(catch_clauses[0].exception_type.as_deref(), Some("IOError"));
            assert_eq!(catch_clauses[0].variable.as_deref(), Some("e"));
        }
        _ => panic!("Expected try statement"),
    }
}
