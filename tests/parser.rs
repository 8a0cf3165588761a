use rjq::lexer::{Token, Type};
use rjq::parser::{parse_filter, Expression, ParseError, Parser};

fn assert_parsed(command: &str, expected: &Expression) {
    let actual = Parser::parse(command.to_string());
    assert_eq!(actual.as_ref(), Ok(expected));
}

#[test]
fn parses_object() {
    assert_parsed(".", &Expression::This)
}

#[test]
fn parses_attribute() {
    let expected = Expression::Attribute { expression: Box::from(Expression::This), name: "bar".to_string() };
    assert_parsed(".bar", &expected)
}

#[test]
fn parse_two_attributes() {
    let bar = Expression::Attribute { expression: Box::from(Expression::This), name: "bar".to_string() };
    let fiz = Expression::Attribute { expression: Box::from(bar), name: "fiz".to_string() };

    assert_parsed(".bar.fiz", &fiz)
}

#[test]
fn just_identifier_is_syntax_error() {
    let expected = ParseError {
        token: Token { token_type: Type::Identifier, text: "foo".to_string() },
        position: 0,
    };
    assert_eq!(Parser::parse("foo".to_string()), Err(expected));
}

#[test]
fn parse_pipe() {
    let expected = Expression::Pipe {
        left: Box::from(Expression::This),
        right: Box::from(Expression::This),
    };
    assert_parsed(". | .", &expected);
    assert_parsed(".|.", &expected);
}

#[test]
fn empty_text_is_identity() {
    assert_parsed("", &Expression::This)
}

#[test]
fn dots_only_are_identity() {
    assert_parsed("..", &Expression::This);
    assert_parsed("....", &Expression::This);
}

#[test]
fn double_dot_before_identifier_is_accepted() {
    let expected = Expression::Attribute { expression: Box::from(Expression::This), name: "a".to_string() };
    assert_parsed("..a", &expected)
}

#[test]
fn identifier_after_identifier_is_error_with_position() {
    let expected = ParseError {
        token: Token { token_type: Type::Identifier, text: "b".to_string() },
        position: 3,
    };
    assert_eq!(Parser::parse(".a b".to_string()), Err(expected));
}

#[test]
fn pipe_with_attributes() {
    let a = Expression::Attribute { expression: Box::from(Expression::This), name: "a".to_string() };
    let b = Expression::Attribute { expression: Box::from(Expression::This), name: "b".to_string() };
    let expected = Expression::Pipe { left: Box::from(a), right: Box::from(b) };
    assert_parsed(".a | .b", &expected);
}

#[test]
fn error_after_pipe_is_reported() {
    let expected = ParseError {
        token: Token { token_type: Type::Identifier, text: "c".to_string() },
        position: 6,
    };
    assert_eq!(Parser::parse(".a|.b c".to_string()), Err(expected));
}

#[test]
fn parsing_twice_gives_equal_trees() {
    for text in [".", ".a.b", ".a | .b.c", "x"] {
        assert_eq!(Parser::parse(text.to_string()), Parser::parse(text.to_string()));
    }
}

#[test]
fn parse_filter_takes_last_argument() {
    let args = vec!["prog".to_string(), ".x".to_string(), ".bar".to_string()];
    let expected = Expression::Attribute { expression: Box::from(Expression::This), name: "bar".to_string() };
    assert_eq!(parse_filter(&args), Ok(expected));
}
