use vstd::prelude::*;

use crate::errors::{ErrorModel, ParsingError};
use crate::traits::{Outcome, Parser};
use crate::type_alias::ParserRes;

verus! {

/// A parser that tries one parser and, only if it fails, a second one on the
/// same, untouched input; the first success wins.  When both branches fail,
/// it fails with a generic error: the two branch-specific errors are
/// deliberately discarded.
pub struct OrThenParser<A, B> {
    pub first_parse: A,
    pub second_parse: B,
}

impl<A, B, CommonOut> Parser for OrThenParser<A, B> where
    A: Parser<Output = CommonOut>,
    B: Parser<Output = CommonOut>,
    CommonOut: DeepView,
 {
    type Output = CommonOut;

    open spec fn spec_result(&self, input: Seq<char>) -> Outcome<
        <CommonOut as DeepView>::V,
    > {
        if self.first_parse.spec_result(input) is Match {
            self.first_parse.spec_result(input)
        } else if self.second_parse.spec_result(input) is Match {
            self.second_parse.spec_result(input)
        } else {
            Outcome::Fail(
                ErrorModel::PatternNotFound("Or Parser didnt match either of the branches"@),
            )
        }
    }

    proof fn lemma_consumption(&self, input: Seq<char>) {
        self.first_parse.lemma_consumption(input);
        self.second_parse.lemma_consumption(input);
    }

    fn parse(&self, input: &str) -> (r: ParserRes<CommonOut>) {
        let aparse = self.first_parse.parse(input);
        if aparse.is_ok() {
            return aparse;
        }
        let bparse = self.second_parse.parse(input);
        if bparse.is_ok() {
            return bparse;
        }
        Err(
            ParsingError::PatternNotFound(
                "Or Parser didnt match either of the branches".to_owned(),
            ),
        )
    }
}

impl<A, B> From<(A, B)> for OrThenParser<A, B> {
    fn from(t: (A, B)) -> (r: Self) {
        OrThenParser { first_parse: t.0, second_parse: t.1 }
    }
}

impl<A, B> vstd::std_specs::convert::FromSpecImpl<(A, B)> for OrThenParser<A, B> {
    open spec fn obeys_from_spec() -> bool {
        true
    }

    open spec fn from_spec(t: (A, B)) -> Self {
        OrThenParser { first_parse: t.0, second_parse: t.1 }
    }
}

/// Law: alternation prefers its left branch.  Whenever the first branch
/// matches (in particular whenever both branches would) the alternative's
/// outcome is exactly the first branch's.
pub proof fn lemma_alternative_precedence<A, B, CommonOut>(
    p: &OrThenParser<A, B>,
    input: Seq<char>,
) where
    A: Parser<Output = CommonOut>,
    B: Parser<Output = CommonOut>,
    CommonOut: DeepView,

    ensures
        p.first_parse.spec_result(input) is Match ==> p.spec_result(input)
            == p.first_parse.spec_result(input),
{
}

} // verus!
