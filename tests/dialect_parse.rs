use dialectic::dialect::{parse, parse_chars, Ast, ParseError};

fn check_parse(input: &str, expected: Ast) {
    let result = parse(input).unwrap();
    assert_eq!(format!("{:?}", result), format!("{:?}", expected));
}

fn s(text: &str) -> String {
    text.to_string()
}

#[test]
fn test_parse_function_call() {
    check_parse(
        "foo(42, \"hello\")",
        Ast::Call(s("foo"), vec![Ast::Int(42), Ast::String(s("hello"))]),
    );
}

#[test]
fn test_parse_array() {
    check_parse("[1, 2, 3]", Ast::Array(vec![Ast::Int(1), Ast::Int(2), Ast::Int(3)]));
}

#[test]
fn test_parse_object() {
    check_parse("{\"key\": 42}", Ast::Object(vec![(s("key"), Ast::Int(42))]));
}

#[test]
fn test_parse_nested_structure() {
    check_parse(
        "process([{\"name\": \"test\", \"value\": 123}, true])",
        Ast::Call(
            s("process"),
            vec![Ast::Array(vec![
                Ast::Object(vec![
                    (s("name"), Ast::String(s("test"))),
                    (s("value"), Ast::Int(123)),
                ]),
                Ast::Boolean(true),
            ])],
        ),
    );
}

#[test]
fn parse_identifier_keys_and_single_quotes() {
    check_parse(
        "{name: 'it\\'s', flag: false}",
        Ast::Object(vec![
            (s("name"), Ast::String(s("it's"))),
            (s("flag"), Ast::Boolean(false)),
        ]),
    );
}

#[test]
fn parse_repeated_key_keeps_last_value() {
    check_parse("{a: 1, b: 2, a: 3}", Ast::Object(vec![(s("a"), Ast::Int(3)), (s("b"), Ast::Int(2))]));
}

#[test]
fn parse_escapes_in_strings() {
    check_parse("\"a\\nb\\tc\\\\\"", Ast::String(s("a\nb\tc\\")));
}

#[test]
fn parse_empty_call_and_trailing_comma() {
    check_parse("f()", Ast::Call(s("f"), vec![]));
    check_parse("[1, 2,]", Ast::Array(vec![Ast::Int(1), Ast::Int(2)]));
}

#[test]
fn parse_largest_integer() {
    check_parse("18446744073709551615", Ast::Int(u64::MAX));
}

#[test]
fn parse_integer_out_of_range_is_lexical_error() {
    assert_eq!(parse("18446744073709551616").unwrap_err(), ParseError::Lexical);
}

#[test]
fn parse_lexical_errors() {
    assert_eq!(parse("\"open").unwrap_err(), ParseError::Lexical);
    assert_eq!(parse("\"bad \\q escape\"").unwrap_err(), ParseError::Lexical);
    assert_eq!(parse("\"dangling \\").unwrap_err(), ParseError::Lexical);
    assert_eq!(parse("f(1; 2)").unwrap_err(), ParseError::Lexical);
}

#[test]
fn parse_syntax_errors() {
    assert_eq!(parse("foo").unwrap_err(), ParseError::Syntax);
    assert_eq!(parse("").unwrap_err(), ParseError::Syntax);
    assert_eq!(parse("[1, 2").unwrap_err(), ParseError::Syntax);
    assert_eq!(parse("{1: 2}").unwrap_err(), ParseError::Syntax);
    assert_eq!(parse("{a 2}").unwrap_err(), ParseError::Syntax);
    assert_eq!(parse(")").unwrap_err(), ParseError::Syntax);
}

#[test]
fn parse_trailing_tokens() {
    assert_eq!(parse("1 2").unwrap_err(), ParseError::TrailingInput);
}

#[test]
fn parse_with_given_character_classes() {
    // With no character flagged alphabetic, a word cannot start a token.
    let cs: Vec<char> = "f(1)".chars().collect();
    let none = vec![false; cs.len()];
    assert_eq!(parse_chars(&cs, &none, &none).unwrap_err(), ParseError::Lexical);
    let alpha = vec![true, false, false, false];
    let r = parse_chars(&cs, &alpha, &none).unwrap();
    assert_eq!(format!("{:?}", r), format!("{:?}", Ast::Call(s("f"), vec![Ast::Int(1)])));
    // A character flagged whitespace is skipped.
    let cs: Vec<char> = "1x".chars().collect();
    let ws = vec![false, true];
    let r = parse_chars(&cs, &vec![false, false], &ws).unwrap();
    assert_eq!(format!("{:?}", r), format!("{:?}", Ast::Int(1)));
}

#[test]
fn parse_unicode_words_and_spaces() {
    check_parse("\u{e9}t\u{e9}(\u{3000}1)", Ast::Call(s("\u{e9}t\u{e9}"), vec![Ast::Int(1)]));
}
