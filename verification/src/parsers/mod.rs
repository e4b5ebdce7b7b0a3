pub mod and_p;
pub mod map_p;
pub mod or_p;
pub mod repeat_p;
pub mod string_p;

use vstd::prelude::*;

use crate::errors::{ErrorModel, ParsingError};
use crate::traits::{Outcome, Parser};
use crate::type_alias::ParserRes;
use vstd::string::StrSliceExecFns;
use vstd::string::StringExecFns;

verus! {

/// A pure test on a single character.  The executable `check` must agree
/// with the mathematical `spec_check` on every character, so a predicate can
/// carry no hidden state: the determinism of every parser built on it
/// depends on that.  Implement this trait to supply your own predicates.
pub trait CharPredicate where Self: Sized {
    /// What the predicate holds of a character, mathematically.
    spec fn spec_check(&self, c: char) -> bool;

    /// Decide the predicate on one character.
    fn check(&self, c: char) -> (r: bool)
        ensures
            r == self.spec_check(c),
    ;
}

/// Accepts the decimal digits `'0'` through `'9'`.
#[derive(Clone, Copy)]
pub struct IsAsciiDigit;

impl CharPredicate for IsAsciiDigit {
    open spec fn spec_check(&self, c: char) -> bool {
        '0' <= c && c <= '9'
    }

    fn check(&self, c: char) -> (r: bool) {
        '0' <= c && c <= '9'
    }
}

/// Accepts the letters `'a'` through `'z'` and `'A'` through `'Z'`.
#[derive(Clone, Copy)]
pub struct IsAsciiAlphabetic;

impl CharPredicate for IsAsciiAlphabetic {
    open spec fn spec_check(&self, c: char) -> bool {
        ('a' <= c && c <= 'z') || ('A' <= c && c <= 'Z')
    }

    fn check(&self, c: char) -> (r: bool) {
        ('a' <= c && c <= 'z') || ('A' <= c && c <= 'Z')
    }
}

/// Accepts the blank characters: space, tab, line feed, carriage return.
#[derive(Clone, Copy)]
pub struct IsAsciiWhitespace;

impl CharPredicate for IsAsciiWhitespace {
    open spec fn spec_check(&self, c: char) -> bool {
        c == ' ' || c == '\t' || c == '\n' || c == '\r'
    }

    fn check(&self, c: char) -> (r: bool) {
        c == ' ' || c == '\t' || c == '\n' || c == '\r'
    }
}

/// The length of the maximal leading run of characters of `s` satisfying
/// `p`: scanning left to right, the first character that fails the predicate
/// ends the run, and nothing after it is reconsidered (maximal munch).
pub open spec fn run_len<P: CharPredicate>(p: &P, s: Seq<char>) -> nat
    decreases s.len(),
{
    if s.len() == 0 || !p.spec_check(s[0]) {
        0
    } else {
        (1 + run_len(p, s.skip(1))) as nat
    }
}

/// The leading run is a prefix of satisfying characters, ended by the end of
/// the input or by the first character that fails the predicate.
pub proof fn lemma_run_len_boundary<P: CharPredicate>(p: &P, s: Seq<char>)
    ensures
        run_len(p, s) <= s.len(),
        forall|j: int| 0 <= j < run_len(p, s) ==> p.spec_check(s[j]),
        run_len(p, s) < s.len() ==> !p.spec_check(s[run_len(p, s) as int]),
    decreases s.len(),
{
    if s.len() == 0 || !p.spec_check(s[0]) {
    } else {
        lemma_run_len_boundary(p, s.skip(1));
        assert forall|j: int| 0 <= j < run_len(p, s) implies p.spec_check(s[j]) by {
            if j > 0 {
                assert(s.skip(1)[j - 1] == s[j]);
            }
        }
        if run_len(p, s) < s.len() {
            assert(s.skip(1)[run_len(p, s) - 1] == s[run_len(p, s) as int]);
        }
    }
}

/// The maximal-munch boundary is unique: any position that is preceded only
/// by satisfying characters and is the end of the input or a failing
/// character is exactly `run_len`.
pub proof fn lemma_run_len_unique<P: CharPredicate>(p: &P, s: Seq<char>, i: int)
    requires
        0 <= i <= s.len(),
        forall|j: int| 0 <= j < i ==> p.spec_check(s[j]),
        i < s.len() ==> !p.spec_check(s[i]),
    ensures
        i == run_len(p, s),
{
    lemma_run_len_boundary(p, s);
}

/// A parser that consumes one character, provided it satisfies the
/// predicate; it fails on empty input and on a first character that does
/// not.
pub struct ParseIf<P: CharPredicate>(pub P);

impl<P: CharPredicate> Parser for ParseIf<P> {
    type Output = char;

    open spec fn spec_result(&self, input: Seq<char>) -> Outcome<char> {
        if input.len() > 0 && self.0.spec_check(input[0]) {
            Outcome::Match(input[0], input.skip(1))
        } else {
            Outcome::Fail(ErrorModel::PatternNotFound("if predicate not met"@))
        }
    }

    proof fn lemma_consumption(&self, input: Seq<char>) {
    }

    fn parse(&self, input: &str) -> (r: ParserRes<char>) {
        let m = input.unicode_len();
        if m == 0 {
            return Err(ParsingError::PatternNotFound("if predicate not met".to_owned()));
        }
        let c = input.get_char(0);
        if self.0.check(c) {
            Ok((c, input.substring_char(1, m).to_owned()))
        } else {
            Err(ParsingError::PatternNotFound("if predicate not met".to_owned()))
        }
    }
}

/// A parser that consumes the maximal leading run of characters satisfying
/// the predicate.  A run of zero characters is an ordinary success: the
/// value is the empty string and nothing is consumed.  For a variant that
/// rejects an empty run, see [`ParseWhile`].
#[derive(Debug, Clone)]
pub struct ParseWhileOrNothing<P: CharPredicate>(pub P);

impl<P: CharPredicate> Parser for ParseWhileOrNothing<P> {
    type Output = String;

    open spec fn spec_result(&self, input: Seq<char>) -> Outcome<Seq<char>> {
        Outcome::Match(
            input.take(run_len(&self.0, input) as int),
            input.skip(run_len(&self.0, input) as int),
        )
    }

    proof fn lemma_consumption(&self, input: Seq<char>) {
        lemma_run_len_boundary(&self.0, input);
    }

    fn parse(&self, input: &str) -> (r: ParserRes<String>) {
        let i = scan_run(&self.0, input);
        let taken = input.substring_char(0, i).to_owned();
        let rest = input.substring_char(i, input.unicode_len()).to_owned();
        Ok((taken, rest))
    }
}

/// A parser that consumes the maximal leading run of characters satisfying
/// the predicate and fails if that run is empty.  For a variant that accepts
/// an empty run, see [`ParseWhileOrNothing`].
#[derive(Debug, Clone)]
pub struct ParseWhile<P: CharPredicate>(pub P);

impl<P: CharPredicate> Parser for ParseWhile<P> {
    type Output = String;

    open spec fn spec_result(&self, input: Seq<char>) -> Outcome<Seq<char>> {
        if run_len(&self.0, input) == 0 {
            Outcome::Fail(ErrorModel::PatternNotFound("no characters matched predicate"@))
        } else {
            Outcome::Match(
                input.take(run_len(&self.0, input) as int),
                input.skip(run_len(&self.0, input) as int),
            )
        }
    }

    proof fn lemma_consumption(&self, input: Seq<char>) {
        lemma_run_len_boundary(&self.0, input);
    }

    fn parse(&self, input: &str) -> (r: ParserRes<String>) {
        let i = scan_run(&self.0, input);
        if i == 0 {
            return Err(ParsingError::PatternNotFound("no characters matched predicate".to_owned()));
        }
        let taken = input.substring_char(0, i).to_owned();
        let rest = input.substring_char(i, input.unicode_len()).to_owned();
        Ok((taken, rest))
    }
}

/// Walk the maximal leading run of characters of `input` satisfying `p` and
/// return its length in characters.
fn scan_run<P: CharPredicate>(p: &P, input: &str) -> (i: usize)
    ensures
        i == run_len(p, input@),
        i <= input@.len(),
{
    let m = input.unicode_len();
    let mut i: usize = 0;
    while i < m
        invariant_except_break
            i <= m,
            m == input@.len(),
            forall|j: int| 0 <= j < i ==> p.spec_check(input@[j]),
        ensures
            i <= m,
            m == input@.len(),
            forall|j: int| 0 <= j < i ==> p.spec_check(input@[j]),
            i < m ==> !p.spec_check(input@[i as int]),
        decreases m - i,
    {
        if !p.check(input.get_char(i)) {
            break ;
        }
        i += 1;
    }
    proof {
        lemma_run_len_unique(p, input@, i as int);
    }
    i
}

/// A parser that matches an exact literal at the start of the input,
/// consuming exactly the literal and returning it as the value.
pub struct ParseMatch(pub String);

impl Parser for ParseMatch {
    type Output = String;

    open spec fn spec_result(&self, input: Seq<char>) -> Outcome<Seq<char>> {
        if self.0@.is_prefix_of(input) {
            Outcome::Match(self.0@, input.skip(self.0@.len() as int))
        } else {
            Outcome::Fail(
                ErrorModel::PatternNotFound(input + " did not match pattern: "@ + self.0@),
            )
        }
    }

    proof fn lemma_consumption(&self, input: Seq<char>) {
    }

    fn parse(&self, input: &str) -> (r: ParserRes<String>) {
        let pat = self.0.as_str();
        let n = pat.unicode_len();
        let m = input.unicode_len();
        if m < n {
            return Err(
                ParsingError::PatternNotFound(
                    input.to_owned().concat(" did not match pattern: ").concat(pat),
                ),
            );
        }
        let mut i: usize = 0;
        while i < n
            invariant
                i <= n,
                pat@ == self.0@,
                n == self.0@.len(),
                m == input@.len(),
                n <= m,
                forall|j: int| 0 <= j < i ==> input@[j] == self.0@[j],
            decreases n - i,
        {
            if input.get_char(i) != pat.get_char(i) {
                proof {
                    assert(!self.0@.is_prefix_of(input@)) by {
                        if self.0@.is_prefix_of(input@) {
                            assert(self.0@[i as int] == input@.subrange(
                                0,
                                self.0@.len() as int,
                            )[i as int]);
                        }
                    }
                }
                return Err(
                    ParsingError::PatternNotFound(
                        input.to_owned().concat(" did not match pattern: ").concat(pat),
                    ),
                );
            }
            i += 1;
        }
        proof {
            assert(self.0@ =~= input@.subrange(0, self.0@.len() as int));
        }
        let rest = input.substring_char(n, m).to_owned();
        Ok((self.0.clone(), rest))
    }
}

} // verus!
