use mini_parc::errors::ParsingError;
use mini_parc::parsers::and_p::{KeepFirstOutputOnly, KeepNone, KeepSecondOutputOnly};
use mini_parc::parsers::map_p::{NonEmpty, StringLength};
use mini_parc::parsers::{IsAsciiDigit, ParseMatch, ParseWhile, ParseWhileOrNothing};
use mini_parc::traits::{parse_and_then_map, Parser};

#[test]
fn sequence_pairs_outputs() {
    let p = ParseMatch("a".to_string()).and_then(ParseMatch("b".to_string()));
    let answer = p.parse("abc");
    assert_eq!(answer, Ok((("a".to_string(), "b".to_string()), "c".to_string())));
}

#[test]
fn sequence_keep_first() {
    let p = ParseMatch("a".to_string())
        .and_then_combine_with(ParseMatch("b".to_string()), KeepFirstOutputOnly);
    let answer = p.parse("abc");
    assert_eq!(answer, Ok(("a".to_string(), "c".to_string())));
}

#[test]
fn sequence_keep_second() {
    let p = ParseMatch("a".to_string())
        .and_then(ParseMatch("b".to_string()))
        .combine(KeepSecondOutputOnly);
    let answer = p.parse("abc");
    assert_eq!(answer, Ok(("b".to_string(), "c".to_string())));
}

#[test]
fn sequence_keep_none() {
    let p = ParseMatch("a".to_string())
        .and_then(ParseMatch("b".to_string()))
        .combine(KeepNone);
    let answer = p.parse("abc");
    assert_eq!(answer, Ok(((), "c".to_string())));
}

#[test]
fn sequence_short_circuits_on_first_failure() {
    let a = ParseMatch("x".to_string());
    let a_error = a.parse("abc").unwrap_err();
    let p = ParseMatch("x".to_string()).and_then(ParseMatch("b".to_string()));
    assert_eq!(p.parse("abc").unwrap_err(), a_error);
}

#[test]
fn sequence_propagates_second_failure() {
    let b = ParseMatch("x".to_string());
    let b_error = b.parse("bc").unwrap_err();
    let p = ParseMatch("a".to_string()).and_then(ParseMatch("x".to_string()));
    assert_eq!(p.parse("abc").unwrap_err(), b_error);
}

#[test]
fn alternative_prefers_left_branch() {
    let a = ParseMatch("ab".to_string());
    let left_alone = a.parse("abc");
    let p = ParseMatch("ab".to_string()).otherwise(ParseMatch("a".to_string()));
    assert_eq!(p.parse("abc"), left_alone);
}

#[test]
fn alternative_falls_back_to_right_branch() {
    let p = ParseMatch("x".to_string()).otherwise(ParseMatch("a".to_string()));
    assert_eq!(p.parse("abc"), Ok(("a".to_string(), "bc".to_string())));
}

#[test]
fn alternative_generic_error_when_both_fail() {
    let p = ParseMatch("x".to_string()).otherwise(ParseMatch("y".to_string()));
    assert_eq!(
        p.parse("abc"),
        Err(ParsingError::PatternNotFound(
            "Or Parser didnt match either of the branches".to_string()
        ))
    );
}

#[test]
fn mapping_applies_to_success_value_only() {
    let p = ParseWhile(IsAsciiDigit).with_mapping(StringLength);
    assert_eq!(p.parse("123ab"), Ok((3, "ab".to_string())));

    let plain = ParseWhile(IsAsciiDigit).parse("123ab").unwrap();
    assert_eq!(p.parse("123ab").unwrap(), (plain.0.chars().count(), plain.1));
}

#[test]
fn mapping_passes_failure_through() {
    let plain_error = ParseWhile(IsAsciiDigit).parse("abc").unwrap_err();
    let p = ParseWhile(IsAsciiDigit).with_mapping(StringLength);
    assert_eq!(p.parse("abc").unwrap_err(), plain_error);
}

#[test]
fn try_mapping_success() {
    let p = ParseWhileOrNothing(IsAsciiDigit).with_try_mapping(NonEmpty);
    assert_eq!(p.parse("12ab"), Ok(("12".to_string(), "ab".to_string())));
}

#[test]
fn try_mapping_failure_is_mapping_error() {
    let p = ParseWhileOrNothing(IsAsciiDigit).with_try_mapping(NonEmpty);
    assert_eq!(
        p.parse("abc"),
        Err(ParsingError::MappingError("mapping failed".to_string()))
    );
}

#[test]
fn parse_and_then_map_applies_mapping() {
    let p = ParseWhile(IsAsciiDigit);
    assert_eq!(parse_and_then_map(&p, "12x", StringLength), Ok((2, "x".to_string())));
    let plain_error = p.parse("x").unwrap_err();
    assert_eq!(parse_and_then_map(&p, "x", StringLength).unwrap_err(), plain_error);
}
