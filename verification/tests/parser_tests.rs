use cliq::expression::binary_expression::add_opr::AddOpr;
use cliq::expression::binary_expression::mul_opr::MulOpr;
use cliq::expression::binary_expression::sub_opr::SubOpr;
use cliq::expression::value_expression::ValueExpression;
use cliq::expression::variable_expression::VariableExpression;
use cliq::expression::Expression;
use cliq::lexer::Lexer;
use cliq::parser::{ParseError, Parser};
use cliq::statement::assign_stmt::AssignStmt;
use cliq::statement::Statement;

fn parse_source(input: &str) -> Parser {
    let mut lexer = Lexer::new();
    let tokens = lexer.lex(input).unwrap();
    let mut parser = Parser::new(tokens);
    parser.parse();
    parser
}

#[test]
fn clear_whitespaces() {
    let mut lexer = Lexer::new();
    let input = "  123 + 321 * 123 / 312 - 123";
    let tokens = lexer.lex(input).unwrap();
    let mut parser = Parser::new(tokens);
    parser.clear_whitespaces();
    println!("{:#?}", parser.token_stream());
    assert_eq!(parser.token_stream().len(), 9);
}

#[test]
fn test_next_expression() {
    let mut lexer = Lexer::new();
    let input = "  123";
    let tokens = lexer.lex(input).unwrap();
    let mut parser = Parser::new(tokens);
    parser.clear_whitespaces();
    let expr = parser.next_expression();
    println!("{:#?}", expr);

    assert_eq!(expr.is_ok(), true);
    let expr = expr.unwrap();
    assert_eq!(expr, ValueExpression::int_value(123));
}

#[test]
fn test_binary_expr() {
    let mut lexer = Lexer::new();
    let input = "123 + 321 * 333";
    let tokens = lexer.lex(input).unwrap();
    let mut parser = Parser::new(tokens);
    let ast = parser.parse();
    println!("{:#?}", ast);
}

#[test]
fn test_complex_expression() {
    let mut lexer = Lexer::new();
    let input = "4 + 3 * 2 / 7 - 5";
    let tokens = lexer.lex(input).unwrap();
    let mut parser = Parser::new(tokens);
    let ast = parser.parse();
    println!("Parsed AST for '{}':\n{:#?}", input, ast);
}

#[test]
fn test_bracketed_expression() {
    let mut lexer = Lexer::new();
    let input = "(4 + 3) * 2";
    let tokens = lexer.lex(input).unwrap();
    let mut parser = Parser::new(tokens);
    let ast = parser.parse();
    println!("Parsed AST for '{}':\n{:#?}", input, ast);
}

fn intv(v: i32) -> Expression {
    ValueExpression::int_value(v)
}

#[test]
fn precedence() {
    let mut lexer = Lexer::new();
    let tokens = lexer.lex("1 + 2 * 3").unwrap();
    let mut parser = Parser::new(tokens);
    let ast = parser.parse();
    let expected = AddOpr::expression(intv(1), MulOpr::expression(intv(2), intv(3)));
    assert_eq!(ast.len(), 1);
    assert_eq!(ast[0], Statement::Expression(expected));
    assert!(parser.errors().is_empty());
}

#[test]
fn left_associativity() {
    let mut lexer = Lexer::new();
    let tokens = lexer.lex("4 + 3 - 2 + 7 - 5").unwrap();
    let mut parser = Parser::new(tokens);
    let ast = parser.parse();
    let expected = SubOpr::expression(
        AddOpr::expression(
            SubOpr::expression(AddOpr::expression(intv(4), intv(3)), intv(2)),
            intv(7),
        ),
        intv(5),
    );
    assert_eq!(ast.len(), 1);
    assert_eq!(ast[0], Statement::Expression(expected));
}

#[test]
fn grouping_overrides_precedence() {
    let mut lexer = Lexer::new();
    let tokens = lexer.lex("(1 + 2) * 3").unwrap();
    let mut parser = Parser::new(tokens);
    let ast = parser.parse();
    let expected = MulOpr::expression(AddOpr::expression(intv(1), intv(2)), intv(3));
    assert_eq!(ast.len(), 1);
    assert_eq!(ast[0], Statement::Expression(expected));
}

#[test]
fn high_precedence_chain_then_low() {
    let mut lexer = Lexer::new();
    let tokens = lexer.lex("2 * 3 + 1").unwrap();
    let mut parser = Parser::new(tokens);
    let ast = parser.parse();
    let expected = AddOpr::expression(MulOpr::expression(intv(2), intv(3)), intv(1));
    assert_eq!(ast.len(), 1);
    assert_eq!(ast[0], Statement::Expression(expected));
}

#[test]
fn var_assignment() {
    let mut lexer = Lexer::new();
    let tokens = lexer.lex("var x = 1.5 + 2").unwrap();
    let mut parser = Parser::new(tokens);
    let ast = parser.parse();
    let expected = AssignStmt::statement(
        VariableExpression::expression("x".to_string()),
        AddOpr::expression(ValueExpression::float_value("1.5".to_string()), intv(2)),
        false,
    );
    assert_eq!(ast.len(), 1);
    assert_eq!(ast[0], expected);
    assert!(parser.errors().is_empty());
}

#[test]
fn operator_without_operand() {
    let parser = parse_source("+");
    let errors = parser.errors();
    assert_eq!(errors.len(), 1);
    match &errors[0] {
        ParseError::UnexpectedKind { found, .. } => {
            assert_eq!(found.value, "+");
            assert_eq!(found.codepos.line, 1);
            assert_eq!(found.codepos.col, 1);
        },
        other => panic!("unexpected error: {:?}", other),
    }
}

#[test]
fn unterminated_group() {
    let parser = parse_source("(1 + 2");
    let errors = parser.errors();
    assert!(!errors.is_empty());
    assert!(matches!(errors[0], ParseError::UnexpectedEof));
}

#[test]
fn percent_unsupported() {
    let parser = parse_source("1 % 2");
    let errors = parser.errors();
    assert!(!errors.is_empty());
    match &errors[0] {
        ParseError::Unsupported { found } => assert_eq!(found.value, "%"),
        other => panic!("unexpected error: {:?}", other),
    }
}

#[test]
fn brace_unsupported() {
    let parser = parse_source("{");
    let errors = parser.errors();
    assert!(!errors.is_empty());
    assert!(matches!(errors[0], ParseError::Unsupported { .. }));
}

#[test]
fn close_bracket_cannot_open_atom() {
    let parser = parse_source(")");
    let errors = parser.errors();
    assert!(!errors.is_empty());
    match &errors[0] {
        ParseError::UnexpectedValue { found, .. } => assert_eq!(found.value, ")"),
        other => panic!("unexpected error: {:?}", other),
    }
}

#[test]
fn var_missing_equals() {
    let parser = parse_source("var x + 2");
    let errors = parser.errors();
    assert!(!errors.is_empty());
    match &errors[0] {
        ParseError::UnexpectedValue { found, .. } => assert_eq!(found.value, "+"),
        other => panic!("unexpected error: {:?}", other),
    }
}

#[test]
fn integer_overflow_is_internal() {
    let parser = parse_source("9999999999");
    let errors = parser.errors();
    assert!(!errors.is_empty());
    assert!(matches!(errors[0], ParseError::InternalNumeric { .. }));

    let mut lexer = Lexer::new();
    let tokens = lexer.lex("2147483647").unwrap();
    let mut parser = Parser::new(tokens);
    let ast = parser.parse();
    assert_eq!(ast.len(), 1);
    assert_eq!(ast[0], Statement::Expression(intv(2147483647)));
}

#[test]
fn get_precedence_levels() {
    assert_eq!(cliq::parser::get_precedence("+"), 1);
    assert_eq!(cliq::parser::get_precedence("-"), 1);
    assert_eq!(cliq::parser::get_precedence("*"), 2);
    assert_eq!(cliq::parser::get_precedence("/"), 2);
    assert_eq!(cliq::parser::get_precedence("%"), 2);
    assert_eq!(cliq::parser::get_precedence("="), 0);
    assert_eq!(cliq::parser::get_precedence("++"), 0);
}

#[test]
fn error_context_marks_offending_token() {
    let parser = parse_source("1 + + 2");
    let errors = parser.errors();
    assert!(!errors.is_empty());
    match &errors[0] {
        ParseError::UnexpectedKind { context, .. } => {
            assert_eq!(context, &vec!["1", "+", "^+", "2"]);
        },
        other => panic!("unexpected error: {:?}", other),
    }
}
