use vstd::prelude::*;

verus! {

/// The ways a parse attempt can fail.  Every failure is an ordinary value:
/// a parser never aborts the process, whatever the input.
#[derive(Debug, PartialEq)]
pub enum ParsingError {
    /// A matcher's input did not satisfy its condition.  Carries a
    /// human-readable diagnostic.
    PatternNotFound(String),
    /// Reserved for matchers that explicitly forbid empty input; no parser
    /// of this crate currently produces it.
    CannotParseAnEmptyString,
    /// A fallible value transformation produced no result.
    MappingError(String),
}

/// The mathematical image of a `ParsingError`: the same taxonomy with each
/// diagnostic as a sequence of characters, so that contracts can pin errors
/// down exactly.
#[verifier::ext_equal]
pub enum ErrorModel {
    PatternNotFound(Seq<char>),
    CannotParseAnEmptyString,
    MappingError(Seq<char>),
}

impl View for ParsingError {
    type V = ErrorModel;

    open spec fn view(&self) -> ErrorModel {
        match self {
            ParsingError::PatternNotFound(s) => ErrorModel::PatternNotFound(s@),
            ParsingError::CannotParseAnEmptyString => ErrorModel::CannotParseAnEmptyString,
            ParsingError::MappingError(s) => ErrorModel::MappingError(s@),
        }
    }
}

impl DeepView for ParsingError {
    type V = ErrorModel;

    open spec fn deep_view(&self) -> ErrorModel {
        self.view()
    }
}

} // verus!
