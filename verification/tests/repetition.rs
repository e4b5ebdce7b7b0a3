use mini_parc::errors::ParsingError;
use mini_parc::parsers::and_p::{KeepFirstOutputOnly, KeepSecondOutputOnly};
use mini_parc::parsers::repeat_p::RepeatParser;
use mini_parc::parsers::{
    IsAsciiAlphabetic, IsAsciiDigit, IsAsciiWhitespace, ParseMatch, ParseWhile,
    ParseWhileOrNothing,
};
use mini_parc::traits::Parser;

#[test]
fn parse_many_strings() {
    let sp = ParseWhile(IsAsciiAlphabetic);
    let wp = ParseWhileOrNothing(IsAsciiWhitespace);
    let swp = wp.and_then(sp).combine(KeepSecondOutputOnly);
    let many_string_p = RepeatParser::new(swp);

    let (acc, rest) = many_string_p.parse("hello there this is a text").unwrap();
    let exp = "hello there this is a text".split(' ').collect::<Vec<_>>();
    assert_eq!(acc, exp);
    assert!(rest.is_empty());

    let (acc, rest) = many_string_p.parse("hello").unwrap();
    assert_eq!(acc, vec!["hello".to_string()]);
    assert!(rest.is_empty());

    assert!(many_string_p.parse("").is_err())
}

#[test]
fn repetition_fails_iff_first_attempt_fails() {
    let child = ParseWhile(IsAsciiDigit);
    let p = RepeatParser::new(ParseWhile(IsAsciiDigit));
    assert!(child.parse("abc").is_err());
    assert!(p.parse("abc").is_err());
    assert!(child.parse("1abc").is_ok());
    assert!(p.parse("1abc").is_ok());
}

#[test]
fn repetition_zero_rounds_error() {
    let p = RepeatParser::new(ParseWhile(IsAsciiDigit));
    assert_eq!(
        p.parse("abc"),
        Err(ParsingError::PatternNotFound(
            "Did not match parser any times".to_string()
        ))
    );
}

#[test]
fn repetition_returns_true_remainder() {
    // Each round takes one run of digits and its trailing comma; the round
    // on "3]" fails at the comma, so repetition stops having consumed
    // exactly "1,2," and the leftover text is reported as it stands.
    let digits_comma = ParseWhile(IsAsciiDigit)
        .and_then(ParseMatch(",".to_string()))
        .combine(KeepFirstOutputOnly);
    let p = RepeatParser::new(digits_comma);

    let (acc, rest) = p.parse("1,2,3]").unwrap();
    assert_eq!(acc, vec!["1".to_string(), "2".to_string()]);
    assert_eq!(rest, "3]".to_string());
}

#[test]
fn repetition_over_bracketed_list() {
    // "[1,2,3]" read by plain composition: the opening bracket, repeated
    // digit-runs each followed by a comma or by nothing, and the closing
    // bracket.
    let item = ParseWhile(IsAsciiDigit)
        .and_then(ParseMatch(",".to_string()).otherwise(ParseMatch(String::new())))
        .combine(KeepFirstOutputOnly);
    let p = ParseMatch("[".to_string())
        .and_then(RepeatParser::new(item))
        .combine(KeepSecondOutputOnly)
        .and_then(ParseMatch("]".to_string()))
        .combine(KeepFirstOutputOnly);

    let (acc, rest) = p.parse("[1,2,3]").unwrap();
    assert_eq!(acc, vec!["1".to_string(), "2".to_string(), "3".to_string()]);
    assert!(rest.is_empty());
}
