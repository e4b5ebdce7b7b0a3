use mini_parc::errors::ParsingError;
use mini_parc::parsers::{
    IsAsciiDigit, ParseIf, ParseMatch, ParseWhile, ParseWhileOrNothing,
};
use mini_parc::traits::Parser;

#[test]
fn match_parser() {
    let parse_if = ParseMatch("if".to_string());
    let answer = parse_if.parse("if and");
    assert_eq!(answer, Ok(("if".to_string(), " and".to_string())));
}

#[test]
fn if_parser() {
    let parse_if = ParseIf(IsAsciiDigit);
    let answer = parse_if.parse("12hello");
    assert_eq!(answer, Ok(('1', "2hello".to_string())));
}

#[test]
fn parse_while() {
    let parse_numbers = ParseWhile(IsAsciiDigit);

    let answer_valid = parse_numbers.parse("123a 1234");
    assert_eq!(answer_valid, Ok(("123".to_string(), "a 1234".to_string())));

    let answer_bad = parse_numbers.parse("x123a 1234");
    assert_eq!(
        answer_bad,
        Err(ParsingError::PatternNotFound(
            "no characters matched predicate".to_string()
        ))
    );
}

#[test]
fn match_parser_mismatch_message() {
    let parse_if = ParseMatch("if".to_string());
    let answer = parse_if.parse("of and");
    assert_eq!(
        answer,
        Err(ParsingError::PatternNotFound(
            "of and did not match pattern: if".to_string()
        ))
    );
}

#[test]
fn match_parser_short_input() {
    let p = ParseMatch("hello".to_string());
    let answer = p.parse("he");
    assert_eq!(
        answer,
        Err(ParsingError::PatternNotFound(
            "he did not match pattern: hello".to_string()
        ))
    );
}

#[test]
fn match_parser_empty_literal() {
    let p = ParseMatch(String::new());
    let answer = p.parse("abc");
    assert_eq!(answer, Ok((String::new(), "abc".to_string())));
}

#[test]
fn if_parser_empty_input() {
    let p = ParseIf(IsAsciiDigit);
    assert_eq!(
        p.parse(""),
        Err(ParsingError::PatternNotFound("if predicate not met".to_string()))
    );
}

#[test]
fn if_parser_predicate_not_met() {
    let p = ParseIf(IsAsciiDigit);
    assert_eq!(
        p.parse("x12"),
        Err(ParsingError::PatternNotFound("if predicate not met".to_string()))
    );
}

#[test]
fn optional_run_matches_nothing() {
    let parse_numbers = ParseWhileOrNothing(IsAsciiDigit);
    let answer = parse_numbers.parse("x123");
    assert_eq!(answer, Ok((String::new(), "x123".to_string())));
}

#[test]
fn optional_run_matches_leading_digits() {
    let parse_numbers = ParseWhileOrNothing(IsAsciiDigit);
    let answer = parse_numbers.parse("123a 1234");
    assert_eq!(answer, Ok(("123".to_string(), "a 1234".to_string())));
}

#[test]
fn parse_while_consumes_everything() {
    let parse_numbers = ParseWhile(IsAsciiDigit);
    let answer = parse_numbers.parse("12345");
    assert_eq!(answer, Ok(("12345".to_string(), String::new())));
}

#[test]
fn parse_is_deterministic() {
    let parse_numbers = ParseWhile(IsAsciiDigit);
    let first = parse_numbers.parse("123a 1234");
    let second = parse_numbers.parse("123a 1234");
    assert_eq!(first, second);
}

#[test]
fn remainder_is_suffix_of_input() {
    let input = "123a 1234";
    let parse_numbers = ParseWhile(IsAsciiDigit);
    let (_, rest) = parse_numbers.parse(input).unwrap();
    assert!(input.ends_with(&rest));
    assert!(rest.len() <= input.len());
}

#[test]
fn alphabetic_run_mixed_case() {
    let p = mini_parc::parsers::ParseWhile(mini_parc::parsers::IsAsciiAlphabetic);
    let answer = p.parse("AbZz9rest");
    assert_eq!(answer, Ok(("AbZz".to_string(), "9rest".to_string())));
}
