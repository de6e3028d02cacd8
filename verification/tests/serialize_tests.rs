use cliq::expression::binary_expression::add_opr::AddOpr;
use cliq::expression::value_expression::int_value::IntValue;
use cliq::expression::value_expression::ValueExpression;
use cliq::expression::variable_expression::VariableExpression;
use cliq::lexer::Lexer;
use cliq::parser::Parser;
use cliq::serialize::serialize_expression;

#[test]
fn test_serialize_ast() {
    let mut lexer = Lexer::new();
    let input = "(4 + 3) * 2";
    let tokens = lexer.lex(input).unwrap();
    let mut parser = Parser::new(tokens);
    let ast = parser.parse();
    println!("Parsed AST for '{}':\n{:#?}", input, ast);
    let serialized_ast = parser.serialize_ast();
    println!("Serialized AST for '{}':\n{}", input, serialized_ast);
}

#[test]
fn test_parse_variable_def() {
    let mut lexer = Lexer::new();
    let input = "var hello = ((ab + 123.3) * (ac - (33 + 22) * 2)) + 2";
    let tokens = lexer.lex(input).unwrap();
    let mut parser = Parser::new(tokens);
    let ast = parser.parse();
    println!("Parsed AST for '{}':\n{:#?}", input, ast);
    let serialized_ast = parser.serialize_ast();
    println!("Serialized AST for '{}':\n{}", input, serialized_ast);
}

#[test]
fn serialize_exact_expression() {
    let mut lexer = Lexer::new();
    let tokens = lexer.lex("1 + 2").unwrap();
    let mut parser = Parser::new(tokens);
    parser.parse();
    let expected = "[{\"Expression\":{\"BinaryExpression\":{\"AddOpr\":{\"lhs\":{\"ValueExpression\":{\"IntValue\":{\"value\":1}}},\"rhs\":{\"ValueExpression\":{\"IntValue\":{\"value\":2}}}}}}}]";
    assert_eq!(parser.serialize_ast(), expected);
}

#[test]
fn serialize_exact_assignment() {
    let mut lexer = Lexer::new();
    let tokens = lexer.lex("var x = 1.5").unwrap();
    let mut parser = Parser::new(tokens);
    parser.parse();
    let expected = "[{\"Assign\":{\"variable\":{\"VariableExpression\":{\"name\":\"x\"}},\"value\":{\"ValueExpression\":{\"FloatValue\":{\"value\":1.5}}},\"mutable\":false}}]";
    assert_eq!(parser.serialize_ast(), expected);
}

#[test]
fn serialize_idempotent() {
    let mut lexer = Lexer::new();
    let tokens = lexer.lex("var a = (1 + 2) * 3").unwrap();
    let mut parser = Parser::new(tokens);
    parser.parse();
    let first = parser.serialize_ast();
    let second = parser.serialize_ast();
    assert_eq!(first, second);

    let mut lexer2 = Lexer::new();
    let tokens2 = lexer2.lex("var a = (1 + 2) * 3").unwrap();
    let mut parser2 = Parser::new(tokens2);
    parser2.parse();
    assert_eq!(parser2.serialize_ast(), first);
}

#[test]
fn serialize_empty() {
    let parser = Parser::new(Vec::new());
    assert_eq!(parser.serialize_ast(), "[]");
}

#[test]
fn serialize_negative_int() {
    let e = IntValue::expression(-5);
    assert_eq!(
        serialize_expression(&e),
        "{\"ValueExpression\":{\"IntValue\":{\"value\":-5}}}"
    );
}

#[test]
fn serialize_escaped_name() {
    let e = VariableExpression::expression("a\"b\\c".to_string());
    assert_eq!(
        serialize_expression(&e),
        "{\"VariableExpression\":{\"name\":\"a\\\"b\\\\c\"}}"
    );
}

#[test]
fn serialize_every_operator() {
    let mut lexer = Lexer::new();
    let tokens = lexer.lex("1 - 2 / 4").unwrap();
    let mut parser = Parser::new(tokens);
    parser.parse();
    let expected = "[{\"Expression\":{\"BinaryExpression\":{\"SubOpr\":{\"lhs\":{\"ValueExpression\":{\"IntValue\":{\"value\":1}}},\"rhs\":{\"BinaryExpression\":{\"DivOpr\":{\"lhs\":{\"ValueExpression\":{\"IntValue\":{\"value\":2}}},\"rhs\":{\"ValueExpression\":{\"IntValue\":{\"value\":4}}}}}}}}}}]";
    assert_eq!(parser.serialize_ast(), expected);
}

#[test]
fn getters_read_back() {
    let one = ValueExpression::int_value(1);
    let two = ValueExpression::int_value(2);
    let node = AddOpr::new(one.clone(), two.clone());
    assert_eq!(node.lhs(), &one);
    assert_eq!(node.rhs(), &two);

    let iv = IntValue::new(7);
    assert_eq!(iv.value(), 7);

    let pos = cliq::codepos::Codepos::zero();
    assert_eq!((pos.line, pos.col), (1, 1));
    assert!(pos.file.is_none());
}
