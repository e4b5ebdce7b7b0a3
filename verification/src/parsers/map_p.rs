use vstd::prelude::*;

use crate::errors::{ErrorModel, ParsingError};
use crate::traits::{Outcome, Parser};
use crate::type_alias::ParserRes;
use vstd::string::StrSliceExecFns;

verus! {

/// An infallible, pure transformation of a parsed value.  The executable
/// `apply` must agree with the mathematical `spec_apply` on the views of its
/// argument, so a mapping can read nothing but the value it is given.
/// Implement this trait to supply your own transformations.
pub trait Mapping where Self: Sized {
    type In: DeepView;
    type Out: DeepView;

    /// What the transformation does, on views.
    spec fn spec_apply(&self, v: <Self::In as DeepView>::V) -> <Self::Out as DeepView>::V;

    /// Transform one value.
    fn apply(&self, v: Self::In) -> (r: Self::Out)
        ensures
            r.deep_view() == self.spec_apply(v.deep_view()),
    ;
}

/// A fallible, pure transformation of a parsed value: it may decline by
/// returning nothing, and a parser built on it then fails with a mapping
/// error.
pub trait TryMapping where Self: Sized {
    type In: DeepView;
    type Out: DeepView;

    /// What the transformation does, on views: a result, or nothing.
    spec fn spec_try_apply(&self, v: <Self::In as DeepView>::V) -> Option<
        <Self::Out as DeepView>::V,
    >;

    /// Attempt to transform one value.
    fn try_apply(&self, v: Self::In) -> (r: Option<Self::Out>)
        ensures
            match r {
                Some(o) => self.spec_try_apply(v.deep_view()) == Some(o.deep_view()),
                None => self.spec_try_apply(v.deep_view()) is None,
            },
    ;
}

/// A parser that runs another parser and transforms its value on success,
/// leaving the remainder untouched; failures pass through unchanged.
pub struct MapParser<P, M> where P: Parser, M: Mapping<In = P::Output> {
    pub parser: P,
    pub mapping: M,
}

impl<P, M> Parser for MapParser<P, M> where P: Parser, M: Mapping<In = P::Output> {
    type Output = M::Out;

    open spec fn spec_result(&self, input: Seq<char>) -> Outcome<<M::Out as DeepView>::V> {
        match self.parser.spec_result(input) {
            Outcome::Match(v, rest) => Outcome::Match(self.mapping.spec_apply(v), rest),
            Outcome::Fail(e) => Outcome::Fail(e),
        }
    }

    proof fn lemma_consumption(&self, input: Seq<char>) {
        self.parser.lemma_consumption(input);
    }

    fn parse(&self, input: &str) -> (r: ParserRes<M::Out>) {
        match self.parser.parse(input) {
            Ok((v, rest)) => Ok((self.mapping.apply(v), rest)),
            Err(e) => Err(e),
        }
    }
}

/// A parser that runs another parser and attempts to transform its value on
/// success: when the transformation declines, the parser fails with a
/// mapping error; the child's failures pass through unchanged.
pub struct TryMapParser<P, M> where P: Parser, M: TryMapping<In = P::Output> {
    pub parser: P,
    pub try_map: M,
}

impl<P, M> Parser for TryMapParser<P, M> where P: Parser, M: TryMapping<In = P::Output> {
    type Output = M::Out;

    open spec fn spec_result(&self, input: Seq<char>) -> Outcome<<M::Out as DeepView>::V> {
        match self.parser.spec_result(input) {
            Outcome::Match(v, rest) => match self.try_map.spec_try_apply(v) {
                Some(o) => Outcome::Match(o, rest),
                None => Outcome::Fail(ErrorModel::MappingError("mapping failed"@)),
            },
            Outcome::Fail(e) => Outcome::Fail(e),
        }
    }

    proof fn lemma_consumption(&self, input: Seq<char>) {
        self.parser.lemma_consumption(input);
    }

    fn parse(&self, input: &str) -> (r: ParserRes<M::Out>) {
        match self.parser.parse(input) {
            Ok((v, rest)) => match self.try_map.try_apply(v) {
                None => Err(ParsingError::MappingError("mapping failed".to_owned())),
                Some(mapped_val) => Ok((mapped_val, rest)),
            },
            Err(e) => Err(e),
        }
    }
}

/// Law: mapping is pure.  A mapped parser's outcome is its child's, with the
/// transformation applied to the value of a match and the remainder kept;
/// failures pass through unchanged.
pub proof fn lemma_map_purity<P, M>(p: &MapParser<P, M>, input: Seq<char>) where
    P: Parser,
    M: Mapping<In = P::Output>,

    ensures
        match p.parser.spec_result(input) {
            Outcome::Match(v, rest) => p.spec_result(input) == Outcome::Match(
                p.mapping.spec_apply(v),
                rest,
            ),
            Outcome::Fail(e) => p.spec_result(input) == Outcome::<
                <M::Out as DeepView>::V,
            >::Fail(e),
        },
{
}

/// An infallible sample transformation: the length of the parsed text, in
/// characters.
pub struct StringLength;

impl Mapping for StringLength {
    type In = String;

    type Out = usize;

    open spec fn spec_apply(&self, v: Seq<char>) -> usize {
        v.len() as usize
    }

    fn apply(&self, v: String) -> (r: usize) {
        v.as_str().unicode_len()
    }
}

/// A fallible sample transformation: passes non-empty text through and
/// declines empty text.
pub struct NonEmpty;

impl TryMapping for NonEmpty {
    type In = String;

    type Out = String;

    open spec fn spec_try_apply(&self, v: Seq<char>) -> Option<Seq<char>> {
        if v.len() > 0 {
            Some(v)
        } else {
            None
        }
    }

    fn try_apply(&self, v: String) -> (r: Option<String>) {
        if v.as_str().is_empty() {
            None
        } else {
            Some(v)
        }
    }
}

} // verus!
