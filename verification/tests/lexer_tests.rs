use cliq::lexer::Lexer;
use cliq::parser::Parser;
use cliq::token_t::TokenT;

#[test]
fn test_lexer() {
    let mut lexer = Lexer::new();
    let input = "  123 + 321 * 123 / 312 - 123";
    let tokens = lexer.lex(input).unwrap();
    println!("{:#?}", tokens);
}

#[test]
fn test_lexer_bracket() {
    let mut lexer = Lexer::new();
    let input = "  (123 + 321) * 123 / 312 - 123";
    let tokens = lexer.lex(input).unwrap();
    println!("{:#?}", tokens);
}

#[test]
fn float_canonicalization() {
    let mut lexer = Lexer::new();
    let tokens = lexer.lex(".5").unwrap();
    assert_eq!(tokens.len(), 1);
    assert_eq!(tokens[0].token_t, TokenT::FLOAT);
    assert_eq!(tokens[0].value, "0.5");

    let mut lexer = Lexer::new();
    let tokens = lexer.lex("0.50").unwrap();
    assert_eq!(tokens.len(), 1);
    assert_eq!(tokens[0].token_t, TokenT::FLOAT);
    assert_eq!(tokens[0].value, "0.5");
    assert_eq!(tokens[0].value.parse::<f64>().unwrap(), 0.5);
}

#[test]
fn float_canonical_forms() {
    let mut lexer = Lexer::new();
    let tokens = lexer.lex("1.0").unwrap();
    assert_eq!(tokens[0].value, "1");

    let mut lexer = Lexer::new();
    let tokens = lexer.lex("007.250").unwrap();
    assert_eq!(tokens[0].value, "7.25");

    let mut lexer = Lexer::new();
    let tokens = lexer.lex("12.3").unwrap();
    assert_eq!(tokens[0].value, "12.3");
}

#[test]
fn identifiers_and_keyword() {
    let mut lexer = Lexer::new();
    let tokens = lexer.lex("var x1 _y").unwrap();
    let kinds: Vec<TokenT> = tokens.iter().map(|t| t.token_t).collect();
    assert_eq!(
        kinds,
        vec![
            TokenT::VAR,
            TokenT::WHITESPACE,
            TokenT::IDENTIFIER,
            TokenT::WHITESPACE,
            TokenT::IDENTIFIER,
        ]
    );
    assert_eq!(tokens[0].value, "var");
    assert_eq!(tokens[2].value, "x1");
    assert_eq!(tokens[4].value, "_y");
}

#[test]
fn token_positions() {
    let mut lexer = Lexer::new();
    let tokens = lexer.lex("1\n2").unwrap();
    assert_eq!((tokens[0].codepos.line, tokens[0].codepos.col), (1, 1));
    assert_eq!((tokens[1].codepos.line, tokens[1].codepos.col), (1, 2));
    assert_eq!((tokens[2].codepos.line, tokens[2].codepos.col), (2, 1));
}

#[test]
fn lex_error_position() {
    let mut lexer = Lexer::new();
    let err = lexer.lex("12 @").unwrap_err();
    assert_eq!(err.position.line, 1);
    assert_eq!(err.position.col, 4);
    println!("{}", err.message);
}

#[test]
fn token_count_matches_units() {
    // Whitespace, digits, operators and brackets only: one token per
    // lexical unit once whitespace is stripped.
    let mut lexer = Lexer::new();
    let tokens = lexer.lex("  123 + (321*2)  ").unwrap();
    let mut parser = Parser::new(tokens);
    parser.clear_whitespaces();
    assert_eq!(parser.token_stream().len(), 7);
}

#[test]
fn empty_input() {
    let mut lexer = Lexer::new();
    let tokens = lexer.lex("").unwrap();
    assert!(tokens.is_empty());
    let mut parser = Parser::new(tokens);
    let ast = parser.parse();
    assert!(ast.is_empty());
    assert!(parser.errors().is_empty());
}

#[test]
fn whitespace_token_emptied() {
    let mut lexer = Lexer::new();
    let tokens = lexer.lex(" 1").unwrap();
    assert_eq!(tokens[0].token_t, TokenT::WHITESPACE);
    assert_eq!(tokens[0].value, "");
    assert_eq!(tokens[1].value, "1");
}
