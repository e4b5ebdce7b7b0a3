use vstd::prelude::*;

use crate::traits::{lemma_suffix_trans, Outcome, Parser};
use crate::type_alias::ParserRes;

verus! {

/// A rule for merging the outputs of two sequential parsers into one value.
/// The executable `combine` must agree with the mathematical `spec_combine`
/// on the views of its arguments, so a strategy is a pure function chosen
/// once, at construction time.
pub trait AndCombinator<A: DeepView, B: DeepView> where Self: Sized {
    type Combined: DeepView;

    /// How the views of the two outputs merge.
    spec fn spec_combine(&self, a: A::V, b: B::V) -> <Self::Combined as DeepView>::V;

    /// Merge the two outputs.
    fn combine(&self, pair: (A, B)) -> (r: Self::Combined)
        ensures
            r.deep_view() == self.spec_combine(pair.0.deep_view(), pair.1.deep_view()),
    ;
}

/// Keep both outputs, as the pair `(A, B)`.  The default strategy.
pub struct IdentityAndCombinator;

impl<A: DeepView, B: DeepView> AndCombinator<A, B> for IdentityAndCombinator {
    type Combined = (A, B);

    open spec fn spec_combine(&self, a: A::V, b: B::V) -> (A::V, B::V) {
        (a, b)
    }

    fn combine(&self, pair: (A, B)) -> (r: (A, B)) {
        pair
    }
}

/// Keep the first parser's output and discard the second's.
pub struct KeepFirstOutputOnly;

impl<A: DeepView, B: DeepView> AndCombinator<A, B> for KeepFirstOutputOnly {
    type Combined = A;

    open spec fn spec_combine(&self, a: A::V, b: B::V) -> A::V {
        a
    }

    fn combine(&self, pair: (A, B)) -> (r: A) {
        pair.0
    }
}

/// Keep the second parser's output and discard the first's.
pub struct KeepSecondOutputOnly;

impl<A: DeepView, B: DeepView> AndCombinator<A, B> for KeepSecondOutputOnly {
    type Combined = B;

    open spec fn spec_combine(&self, a: A::V, b: B::V) -> B::V {
        b
    }

    fn combine(&self, pair: (A, B)) -> (r: B) {
        pair.1
    }
}

/// Discard both outputs and return the unit value.
pub struct KeepNone;

impl<A: DeepView, B: DeepView> AndCombinator<A, B> for KeepNone {
    type Combined = ();

    open spec fn spec_combine(&self, a: A::V, b: B::V) -> () {
        ()
    }

    fn combine(&self, pair: (A, B)) -> (r: ()) {
        ()
    }
}

/// A parser that runs one parser and then a second on what the first left
/// unconsumed.  It fails with the first failing child's error, untouched;
/// when both children match, their outputs are merged by the combination
/// strategy and the remainder is the second child's.
pub struct AndThenParser<A, B, C> {
    pub first_parse: A,
    pub second_parse: B,
    pub combinator: C,
}

impl<A, B, C> AndThenParser<A, B, C> {
    /// Replace the combination strategy, keeping both child parsers.
    pub fn combine<NC>(self, combinator: NC) -> (r: AndThenParser<A, B, NC>)
        ensures
            r.first_parse == self.first_parse,
            r.second_parse == self.second_parse,
            r.combinator == combinator,
    {
        AndThenParser { first_parse: self.first_parse, second_parse: self.second_parse, combinator }
    }
}

impl<A, B, C> Parser for AndThenParser<A, B, C> where
    A: Parser,
    B: Parser,
    C: AndCombinator<A::Output, B::Output>,
 {
    type Output = C::Combined;

    open spec fn spec_result(&self, input: Seq<char>) -> Outcome<
        <C::Combined as DeepView>::V,
    > {
        match self.first_parse.spec_result(input) {
            Outcome::Fail(e) => Outcome::Fail(e),
            Outcome::Match(a, rest1) => match self.second_parse.spec_result(rest1) {
                Outcome::Fail(e) => Outcome::Fail(e),
                Outcome::Match(b, rest2) => Outcome::Match(
                    self.combinator.spec_combine(a, b),
                    rest2,
                ),
            },
        }
    }

    proof fn lemma_consumption(&self, input: Seq<char>) {
        self.first_parse.lemma_consumption(input);
        if let Outcome::Match(a, rest1) = self.first_parse.spec_result(input) {
            self.second_parse.lemma_consumption(rest1);
            if let Outcome::Match(b, rest2) = self.second_parse.spec_result(rest1) {
                lemma_suffix_trans(rest2, rest1, input);
            }
        }
    }

    fn parse(&self, input: &str) -> (r: ParserRes<C::Combined>) {
        match self.first_parse.parse(input) {
            Err(e) => Err(e),
            Ok((a, rest)) => match self.second_parse.parse(rest.as_str()) {
                Err(e) => Err(e),
                Ok((b, rest2)) => Ok((self.combinator.combine((a, b)), rest2)),
            },
        }
    }
}

impl<A, B, C> From<(A, B, C)> for AndThenParser<A, B, C> {
    fn from(t: (A, B, C)) -> (r: Self) {
        AndThenParser { first_parse: t.0, second_parse: t.1, combinator: t.2 }
    }
}

impl<A, B, C> vstd::std_specs::convert::FromSpecImpl<(A, B, C)> for AndThenParser<A, B, C> {
    open spec fn obeys_from_spec() -> bool {
        true
    }

    open spec fn from_spec(t: (A, B, C)) -> Self {
        AndThenParser { first_parse: t.0, second_parse: t.1, combinator: t.2 }
    }
}

impl<A, B> From<(A, B)> for AndThenParser<A, B, IdentityAndCombinator> {
    fn from(t: (A, B)) -> (r: Self) {
        AndThenParser { first_parse: t.0, second_parse: t.1, combinator: IdentityAndCombinator }
    }
}

impl<A, B> vstd::std_specs::convert::FromSpecImpl<(A, B)> for AndThenParser<A, B, IdentityAndCombinator> {
    open spec fn obeys_from_spec() -> bool {
        true
    }

    open spec fn from_spec(t: (A, B)) -> Self {
        AndThenParser { first_parse: t.0, second_parse: t.1, combinator: IdentityAndCombinator }
    }
}

/// Law: sequencing short-circuits.  When the first child fails, the sequence
/// fails with that child's error, exactly; the model never consults the
/// second child in that case, which is why `parse` need not run it.
pub proof fn lemma_sequence_short_circuit<A, B, C>(
    p: &AndThenParser<A, B, C>,
    input: Seq<char>,
) where A: Parser, B: Parser, C: AndCombinator<A::Output, B::Output>
    ensures
        p.first_parse.spec_result(input) matches Outcome::Fail(e) ==> p.spec_result(input)
            == Outcome::<<C::Combined as DeepView>::V>::Fail(e),
{
}

} // verus!
