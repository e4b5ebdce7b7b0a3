use vstd::prelude::*;

use crate::errors::{ErrorModel, ParsingError};
use crate::traits::{Outcome, Parser};
use crate::type_alias::ParserRes;
use vstd::string::StrSliceExecFns;

verus! {

/// The position of the unescaped closing double quote of `s` at or after
/// position `i`, if there is one.  A backslash escapes the character that
/// follows it, whatever it is: both are stepped over, so a quote right after
/// a backslash does not close the string.  A backslash as the last character
/// leaves nothing to escape and no closing quote is found.
pub open spec fn find_close(s: Seq<char>, i: nat) -> Option<nat>
    decreases s.len() - i,
{
    if i >= s.len() {
        None
    } else if s[i as int] == '"' {
        Some(i)
    } else if s[i as int] == '\\' {
        if i + 2 <= s.len() {
            find_close(s, (i + 2) as nat)
        } else {
            None
        }
    } else {
        find_close(s, (i + 1) as nat)
    }
}

/// A closing quote found from position `i` lies at or after `i`, within the
/// input, and is a double quote.
proof fn lemma_find_close_bounds(s: Seq<char>, i: nat)
    ensures
        find_close(s, i) matches Some(k) ==> i <= k < s.len() && s[k as int] == '"',
    decreases s.len() - i,
{
    if i < s.len() && s[i as int] != '"' {
        if s[i as int] == '\\' {
            if i + 2 <= s.len() {
                lemma_find_close_bounds(s, (i + 2) as nat);
            }
        } else {
            lemma_find_close_bounds(s, (i + 1) as nat);
        }
    }
}

/// A parser for a double-quoted string.  It fails unless the input starts
/// with `"`; it then scans for the terminating unescaped `"`.  The value is
/// everything between the two quotes, verbatim: a backslash and the
/// character after it are kept as written, never decoded.  The remainder is
/// everything after the closing quote.  Input that ends before an unescaped
/// closing quote is a failure.
pub struct StringParser;

impl Parser for StringParser {
    type Output = String;

    open spec fn spec_result(&self, input: Seq<char>) -> Outcome<Seq<char>> {
        if input.len() == 0 || input[0] != '"' {
            Outcome::Fail(ErrorModel::PatternNotFound("String must start with \""@))
        } else {
            match find_close(input, 1) {
                None => Outcome::Fail(
                    ErrorModel::PatternNotFound("Did not find closing quote \""@),
                ),
                Some(k) => Outcome::Match(
                    input.subrange(1, k as int),
                    input.skip((k + 1) as int),
                ),
            }
        }
    }

    proof fn lemma_consumption(&self, input: Seq<char>) {
        lemma_find_close_bounds(input, 1);
        if input.len() > 0 && input[0] == '"' {
            if let Some(k) = find_close(input, 1) {
                assert(input.skip((k + 1) as int).is_suffix_of(input));
            }
        }
    }

    fn parse(&self, input: &str) -> (r: ParserRes<String>) {
        let m = input.unicode_len();
        if m == 0 || input.get_char(0) != '"' {
            return Err(ParsingError::PatternNotFound("String must start with \"".to_owned()));
        }
        let mut i: usize = 1;
        loop
            invariant_except_break
                1 <= i <= m,
                m == input@.len(),
                input@.len() > 0 && input@[0] == '"',
                find_close(input@, 1) == find_close(input@, i as nat),
            ensures
                1 <= i < m,
                m == input@.len(),
                input@.len() > 0 && input@[0] == '"',
                find_close(input@, 1) == Some(i as nat),
            decreases m - i,
        {
            if i >= m {
                return Err(
                    ParsingError::PatternNotFound("Did not find closing quote \"".to_owned()),
                );
            }
            let c = input.get_char(i);
            if c == '"' {
                break ;
            } else if c == '\\' {
                if m - i < 2 {
                    return Err(
                        ParsingError::PatternNotFound("Did not find closing quote \"".to_owned()),
                    );
                }
                i += 2;
            } else {
                i += 1;
            }
        }
        let acc = input.substring_char(1, i).to_owned();
        let rest = input.substring_char(i + 1, m).to_owned();
        Ok((acc, rest))
    }
}

/// The quoted-string parser.
pub fn string_parser() -> (r: StringParser)
    ensures
        r == StringParser,
{
    StringParser
}

} // verus!
