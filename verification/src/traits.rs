use vstd::prelude::*;

use crate::errors::ErrorModel;
use crate::parsers::and_p::{AndThenParser, IdentityAndCombinator};
use crate::parsers::map_p::{MapParser, Mapping, TryMapParser, TryMapping};
use crate::parsers::or_p::OrThenParser;
use crate::type_alias::ParserRes;

verus! {

/// The mathematical outcome of running a parser on an input: either a match,
/// holding the model of the parsed value and the unconsumed remainder, or a
/// failure, holding the error.
#[verifier::ext_equal]
pub enum Outcome<V> {
    Match(V, Seq<char>),
    Fail(ErrorModel),
}

impl<V> Outcome<V> {
    /// On a match, the remainder is a suffix of the input the parser was run
    /// on; a failure constrains nothing.
    pub open spec fn remainder_within(self, input: Seq<char>) -> bool {
        self matches Outcome::Match(_, rest) ==> rest.is_suffix_of(input)
    }
}

/// The model of an executable parse result: values and errors are abstracted
/// to their views, so that two results with the same model are
/// indistinguishable to every contract of this crate.
pub open spec fn res_model<T: DeepView>(r: ParserRes<T>) -> Outcome<T::V> {
    match r {
        Ok((v, rest)) => Outcome::Match(v.deep_view(), rest@),
        Err(e) => Outcome::Fail(e@),
    }
}

/// A suffix of a suffix is a suffix of the whole.
pub proof fn lemma_suffix_trans(a: Seq<char>, b: Seq<char>, c: Seq<char>)
    requires
        a.is_suffix_of(b),
        b.is_suffix_of(c),
    ensures
        a.is_suffix_of(c),
{
    assert(a =~= c.subrange(c.len() - a.len(), c.len() as int));
}

/// A parser recognizes a pattern at the start of its input and reports either
/// a parsed value plus the leftover input, or an error.
///
/// Every implementation carries its own mathematical model, `spec_result`,
/// and `parse` is required to return exactly what the model says.  Since the
/// model is a function of the parser and the input alone, parsing is
/// deterministic: two calls on the same input agree on the value's view, the
/// remainder, and the error.
pub trait Parser where Self: Sized {
    type Output: DeepView;

    /// The outcome this parser yields on `input`, as a mathematical function.
    spec fn spec_result(&self, input: Seq<char>) -> Outcome<<Self::Output as DeepView>::V>;

    /// Law: consumption is monotonic.  Whenever the model reports a match,
    /// the remainder is a suffix of the input (so in particular no longer
    /// than it): a parser may consume nothing, but never invents, reorders,
    /// or un-consumes characters.
    proof fn lemma_consumption(&self, input: Seq<char>)
        ensures
            self.spec_result(input).remainder_within(input),
    ;

    /// Parse the input string.  On success the result holds the parsed value
    /// and the unconsumed rest of the input; otherwise it holds the error.
    /// The outcome is exactly the one `spec_result` assigns to this input.
    fn parse(&self, input: &str) -> (r: ParserRes<Self::Output>)
        ensures
            res_model(r) == self.spec_result(input@),
    ;

    /// A parser that runs `self` and then `other` on what `self` left,
    /// keeping both outputs as a pair.  Succeeds exactly when both succeed.
    fn and_then<P>(self, other: P) -> (r: AndThenParser<Self, P, IdentityAndCombinator>)
        ensures
            r.first_parse == self,
            r.second_parse == other,
    {
        AndThenParser { first_parse: self, second_parse: other, combinator: IdentityAndCombinator }
    }

    /// A parser that runs `self` and then `other` on what `self` left,
    /// merging the outputs with the given strategy.
    fn and_then_combine_with<P, C>(self, other: P, combinator: C) -> (r: AndThenParser<Self, P, C>)
        ensures
            r.first_parse == self,
            r.second_parse == other,
            r.combinator == combinator,
    {
        AndThenParser { first_parse: self, second_parse: other, combinator }
    }

    /// A parser that tries `self` and, only if it fails, `other` on the
    /// same input; the first success wins.
    fn otherwise<P>(self, other: P) -> (r: OrThenParser<Self, P>)
        ensures
            r.first_parse == self,
            r.second_parse == other,
    {
        OrThenParser { first_parse: self, second_parse: other }
    }

    /// A parser that transforms this parser's value with an infallible
    /// mapping.
    fn with_mapping<M>(self, mapping: M) -> (r: MapParser<Self, M>) where
        M: Mapping<In = Self::Output>,

        ensures
            r.parser == self,
            r.mapping == mapping,
    {
        MapParser { parser: self, mapping }
    }

    /// A parser that transforms this parser's value with a fallible
    /// mapping; when the mapping declines, the parser fails with a mapping
    /// error.
    fn with_try_mapping<M>(self, try_map: M) -> (r: TryMapParser<Self, M>) where
        M: TryMapping<In = Self::Output>,

        ensures
            r.parser == self,
            r.try_map == try_map,
    {
        TryMapParser { parser: self, try_map }
    }
}

/// Parse the input with `p` and, on success, transform the parsed value
/// with the given mapping, keeping the remainder; a failure passes through
/// unchanged.
pub fn parse_and_then_map<P, M>(p: &P, input: &str, mapping: M) -> (r: ParserRes<M::Out>) where
    P: Parser,
    M: Mapping<In = P::Output>,

    ensures
        res_model(r) == (match p.spec_result(input@) {
            Outcome::Match(v, rest) => Outcome::Match(mapping.spec_apply(v), rest),
            Outcome::Fail(e) => Outcome::<<M::Out as DeepView>::V>::Fail(e),
        }),
{
    match p.parse(input) {
        Ok((a, rest)) => Ok((mapping.apply(a), rest)),
        Err(e) => Err(e),
    }
}

/// Law: parsing is deterministic.  Any two results that `parse` may return
/// for the same parser and the same input have the same model: both match
/// with equal value views and equal remainders, or both fail with the same
/// error.
pub proof fn lemma_parse_deterministic<P: Parser>(
    p: &P,
    input: Seq<char>,
    r1: ParserRes<P::Output>,
    r2: ParserRes<P::Output>,
)
    requires
        res_model(r1) == p.spec_result(input),
        res_model(r2) == p.spec_result(input),
    ensures
        res_model(r1) == res_model(r2),
{
}

} // verus!
