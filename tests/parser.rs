use calc::analyzer::AnalyzerError;
use calc::parser::Parser;
use calc::token::Token;

fn num(text: &str) -> Token {
    Token::Number(text.to_string())
}

fn scan_all(input: &str) -> Vec<Token> {
    let mut parser = Parser::new(input.to_string());
    let mut tokens = Vec::new();
    while let Some(t) = parser.next_token() {
        tokens.push(t);
    }
    tokens
}

fn errors_of(input: &str) -> Vec<AnalyzerError> {
    let mut parser = Parser::new(input.to_string());
    parser.parse();
    parser.analyzer.errors
}

fn error(m: &str) -> AnalyzerError {
    AnalyzerError::ParseError(m.to_string())
}

#[test]
fn full_expression_is_echoed_without_errors() {
    let mut parser = Parser::new("1+2-3*4/5(6+7-8*9/10)".to_string());
    parser.parse();
    assert_eq!(
        parser.analyzer.stack,
        vec![
            num("1"),
            Token::Operation('+'),
            num("2"),
            Token::Operation('-'),
            num("3"),
            Token::Operation('*'),
            num("4"),
            Token::Operation('/'),
            num("5"),
            Token::Parenthesis('('),
            num("6"),
            Token::Operation('+'),
            num("7"),
            Token::Operation('-'),
            num("8"),
            Token::Operation('*'),
            num("9"),
            Token::Operation('/'),
            num("10"),
            Token::Parenthesis(')'),
        ]
    );
    assert!(parser.analyzer.errors.is_empty());
}

#[test]
fn operation_at_start_of_input() {
    assert_eq!(
        errors_of("+a"),
        vec![error("Unexpected operation at the beginning of the expression")]
    );
}

#[test]
fn space_between_numbers_is_skipped() {
    assert_eq!(
        errors_of("1 2"),
        vec![error("Error: unexpected number in the middle of the expression")]
    );
}

#[test]
fn double_operation_in_input() {
    assert_eq!(
        errors_of("1+-3"),
        vec![error("Unexpected operation after operation")]
    );
}

#[test]
fn empty_input() {
    let mut parser = Parser::new(String::new());
    assert_eq!(parser.next_token(), None);
    parser.parse();
    assert!(parser.analyzer.stack.is_empty());
    assert!(parser.analyzer.errors.is_empty());
}

#[test]
fn lone_closing_parenthesis_input() {
    assert_eq!(
        errors_of(")"),
        vec![error("Unexpected parenthesis at the beginning of the expression")]
    );
}

#[test]
fn number_literals() {
    assert_eq!(scan_all("3.14"), vec![num("3.14")]);
    assert_eq!(scan_all("7."), vec![num("7.")]);
    assert_eq!(scan_all("1.2.3"), vec![num("1.2"), num("3")]);
    assert_eq!(
        scan_all("12ab"),
        vec![num("12"), Token::Variable("ab".to_string())]
    );
}

#[test]
fn variables_and_symbols() {
    assert_eq!(
        scan_all("ab1 (x)*"),
        vec![
            Token::Variable("ab1".to_string()),
            Token::Parenthesis('('),
            Token::Variable("x".to_string()),
            Token::Parenthesis(')'),
            Token::Operation('*'),
        ]
    );
}

#[test]
fn unrecognised_characters_are_skipped() {
    assert_eq!(
        scan_all(" 1\t€+ 2 ;"),
        vec![num("1"), Token::Operation('+'), num("2")]
    );
    assert_eq!(scan_all("  ;;  "), vec![]);
}

#[test]
fn token_log_echoes_every_token() {
    let input = "1 1 + + ) x y";
    let mut parser = Parser::new(input.to_string());
    parser.parse();
    assert_eq!(parser.analyzer.stack, scan_all(input));
    assert_eq!(parser.analyzer.stack.len(), 7);
    assert_eq!(parser.analyzer.errors.len(), 5);
}

#[test]
fn rescanning_yields_the_same_tokens() {
    let input = "alpha*(3.5-b2)/ 7";
    assert_eq!(scan_all(input), scan_all(input));
    assert_eq!(scan_all(input).len(), 9);
}

#[test]
fn alternating_input_is_accepted() {
    let mut parser = Parser::new("a + 1 * b2 - 3.5".to_string());
    parser.parse();
    assert!(parser.analyzer.errors.is_empty());
    assert_eq!(parser.analyzer.stack.len(), 7);
}

#[test]
fn cursor_after_each_call() {
    let mut parser = Parser::new("1.".to_string());
    assert_eq!(parser.next_token(), Some(num("1.")));
    assert_eq!(parser.position, 2);

    let mut parser = Parser::new("2x".to_string());
    assert_eq!(parser.next_token(), Some(num("2")));
    assert_eq!(parser.position, 1);
    assert_eq!(parser.next_token(), Some(Token::Variable("x".to_string())));
    assert_eq!(parser.position, 2);

    let mut parser = Parser::new(" ( ;".to_string());
    assert_eq!(parser.next_token(), Some(Token::Parenthesis('(')));
    assert_eq!(parser.position, 2);
    assert_eq!(parser.next_token(), None);
    assert_eq!(parser.position, 4);

    let mut parser = Parser::new(String::new());
    assert_eq!(parser.next_token(), None);
    assert_eq!(parser.position, 0);
}

#[test]
fn parse_leaves_cursor_at_end() {
    let mut parser = Parser::new("a+€".to_string());
    parser.parse();
    assert_eq!(parser.position, 3);
}
