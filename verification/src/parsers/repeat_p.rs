use vstd::prelude::*;

use crate::errors::{ErrorModel, ParsingError};
use crate::traits::{lemma_suffix_trans, Outcome, Parser};
use crate::type_alias::ParserRes;
use vstd::string::StrSliceExecFns;

verus! {

/// A parser that runs its child over and over, each time on what the
/// previous round left unconsumed, collecting the values in order, until the
/// child fails; the failing attempt consumes nothing and its error is
/// discarded.  Zero successful rounds is a failure; otherwise the value is
/// the collected sequence and the remainder is whatever the last successful
/// round left.
pub struct RepeatParser<P>(pub P);

impl<P> RepeatParser<P> {
    pub fn new(p: P) -> (r: Self)
        ensures
            r.0 == p,
    {
        RepeatParser(p)
    }
}

/// The values the child yields and the remainder it leaves when run
/// repeatedly from `input` until it fails.  When a round consumes nothing,
/// the repetition stops after that round: running the child again could only
/// repeat it forever.
pub open spec fn repeat_steps<P: Parser>(p: &P, input: Seq<char>) -> (
    Seq<<P::Output as DeepView>::V>,
    Seq<char>,
)
    decreases input.len(),
{
    match p.spec_result(input) {
        Outcome::Fail(_) => (Seq::<<P::Output as DeepView>::V>::empty(), input),
        Outcome::Match(v, rest) => {
            if rest.len() < input.len() {
                let tail = repeat_steps(p, rest);
                (seq![v] + tail.0, tail.1)
            } else {
                (seq![v], rest)
            }
        },
    }
}

/// What repetition leaves unconsumed is a suffix of its input.
pub proof fn lemma_repeat_steps_suffix<P: Parser>(p: &P, input: Seq<char>)
    ensures
        repeat_steps(p, input).1.is_suffix_of(input),
    decreases input.len(),
{
    p.lemma_consumption(input);
    match p.spec_result(input) {
        Outcome::Fail(_) => {
            assert(input.is_suffix_of(input));
        },
        Outcome::Match(v, rest) => {
            if rest.len() < input.len() {
                lemma_repeat_steps_suffix(p, rest);
                lemma_suffix_trans(repeat_steps(p, rest).1, rest, input);
            }
        },
    }
}

impl<P: Parser> Parser for RepeatParser<P> {
    type Output = Vec<P::Output>;

    open spec fn spec_result(&self, input: Seq<char>) -> Outcome<
        Seq<<P::Output as DeepView>::V>,
    > {
        if self.0.spec_result(input) is Fail {
            Outcome::Fail(ErrorModel::PatternNotFound("Did not match parser any times"@))
        } else {
            let steps = repeat_steps(&self.0, input);
            Outcome::Match(steps.0, steps.1)
        }
    }

    proof fn lemma_consumption(&self, input: Seq<char>) {
        lemma_repeat_steps_suffix(&self.0, input);
    }

    fn parse(&self, input: &str) -> (r: ParserRes<Vec<P::Output>>) {
        let mut rest: String = input.to_owned();
        let mut rest_len: usize = rest.as_str().unicode_len();
        let mut acc: Vec<P::Output> = Vec::new();
        loop
            invariant_except_break
                acc.deep_view() + repeat_steps(&self.0, rest@).0 == repeat_steps(
                    &self.0,
                    input@,
                ).0,
                repeat_steps(&self.0, rest@).1 == repeat_steps(&self.0, input@).1,
            invariant
                rest_len == rest@.len(),
            ensures
                acc.deep_view() == repeat_steps(&self.0, input@).0,
                rest@ == repeat_steps(&self.0, input@).1,
            decreases rest@.len(),
        {
            let res = self.0.parse(rest.as_str());
            let ghost prev_acc = acc.deep_view();
            let ghost prev_rest = rest@;
            match res {
                Ok((p_val, r)) => {
                    let new_len = r.as_str().unicode_len();
                    proof {
                        self.0.lemma_consumption(prev_rest);
                        if new_len == rest_len {
                            assert(r@ =~= prev_rest);
                        }
                    }
                    let consumed_nothing = new_len == rest_len;
                    rest = r;
                    rest_len = new_len;
                    acc.push(p_val);
                    proof {
                        assert(acc.deep_view() =~= prev_acc + seq![p_val.deep_view()]);
                        if !consumed_nothing {
                            assert((prev_acc + seq![p_val.deep_view()]) + repeat_steps(
                                &self.0,
                                rest@,
                            ).0 =~= prev_acc + (seq![p_val.deep_view()] + repeat_steps(
                                &self.0,
                                rest@,
                            ).0));
                        }
                    }
                    if consumed_nothing {
                        break ;
                    }
                },
                Err(_) => {
                    proof {
                        assert(prev_acc + repeat_steps(&self.0, prev_rest).0 =~= prev_acc);
                    }
                    break ;
                },
            }
        }
        if acc.len() == 0 {
            return Err(ParsingError::PatternNotFound("Did not match parser any times".to_owned()));
        }
        Ok((acc, rest))
    }
}

/// Law: repetition fails exactly when its child fails on the very first
/// attempt; one successful round is already enough for the repetition to
/// succeed.
pub proof fn lemma_repetition_zero_failure<P: Parser>(p: &RepeatParser<P>, input: Seq<char>)
    ensures
        p.spec_result(input) is Fail <==> p.0.spec_result(input) is Fail,
{
}

} // verus!
