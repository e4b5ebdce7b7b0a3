use vstd::prelude::*;

use crate::errors::ParsingError;

verus! {

/// What a parser returns: on success the parsed value together with the
/// unconsumed remainder of the input, otherwise an error.
pub type ParserRes<A, E = ParsingError> = Result<(A, String), E>;

} // verus!
