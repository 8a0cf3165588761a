use rjq::lexer::Type::{Dot, Identifier, Pipe};
use rjq::lexer::{Lexer, Token};

fn first_token(text: String) -> Option<Token> {
    let mut lex = Lexer::on(text);
    lex.next_token()
}

fn assert_no_token(text: &str) {
    let actual = first_token(text.to_string());
    assert_eq!(actual, None)
}

fn assert_tokenized(text: &str, token: Token) {
    let actual = first_token(text.to_string());
    assert_eq!(actual, Some(token))
}

fn assert_tokenized_many(text: &str, tokens: Vec<Token>) {
    let mut lex = Lexer::on(text.to_string());
    let mut actual = vec![];
    while lex.has_remaining() {
        actual.push(lex.next_token().expect("must be a token"));
    }
    assert_eq!(actual, tokens);
}

#[test]
fn lex_empty() {
    assert_no_token("")
}

#[test]
fn test_dot() {
    assert_tokenized(".", Token { token_type: Dot, text: ".".to_string() });
}

#[test]
fn test_identifier() {
    assert_tokenized("bar", Token { token_type: Identifier, text: "bar".to_string() });
}

#[test]
fn test_identifier_with_numbers() {
    assert_tokenized("a3b42", Token { token_type: Identifier, text: "a3b42".to_string() });
}

#[test]
fn test_dot_identifier() {
    let dot = Token { token_type: Dot, text: ".".to_string() };
    let ident = Token { token_type: Identifier, text: "bar".to_string() };
    assert_tokenized_many(".bar", vec![dot, ident]);
}

#[test]
fn test_dot_identifier_many() {
    let dot = Token { token_type: Dot, text: ".".to_string() };
    let ident_ab = Token { token_type: Identifier, text: "ab".to_string() };
    let ident_cd = Token { token_type: Identifier, text: "cd".to_string() };
    let expected = vec![dot.clone(), ident_ab, dot, ident_cd];

    assert_tokenized_many(".ab.cd", expected);
}

#[test]
fn pipe_is_a_token() {
    assert_tokenized("|", Token { token_type: Pipe, text: "|".to_string() });
}

#[test]
fn identifier_stops_at_underscore() {
    assert_tokenized("ab_c", Token { token_type: Identifier, text: "ab".to_string() });
}

#[test]
fn identifier_takes_unicode_letters() {
    assert_tokenized("aé1.", Token { token_type: Identifier, text: "aé1".to_string() });
}

#[test]
fn reserved_words_are_identifiers() {
    assert_tokenized("null", Token { token_type: Identifier, text: "null".to_string() });
}

#[test]
fn unknown_first_char_gives_no_token() {
    for text in [" .a", "1ab", "_x", "#", "[0]"] {
        let mut lex = Lexer::on(text.to_string());
        assert!(lex.has_remaining());
        assert_eq!(lex.next_token(), None);
    }
}

#[test]
fn unknown_char_is_consumed() {
    let mut lex = Lexer::on(" .".to_string());
    assert_eq!(lex.next_token(), None);
    assert!(lex.has_remaining());
    assert_eq!(lex.next_token(), Some(Token { token_type: Dot, text: ".".to_string() }));
    assert!(!lex.has_remaining());
    assert_eq!(lex.next_token(), None);
}
