//! Evaluation of a matcher tree against an input.

use crate::encoding::{encode_list, texts_of};
use crate::outcome::{result_verdict, Outcome};
use crate::parser::{Parser, ParserKind};
use crate::pattern::find_first;
use crate::shape::listed;
use crate::text::strip_start;
use vstd::pervasive::unreached;
use vstd::prelude::*;

verus! {

impl Parser {
    /// Evaluates this matcher against `src`.
    pub fn evaluate(&self, src: &str) -> (outcome: Outcome)
        ensures
            outcome@ == self@.eval(src@),
        decreases self, 0nat,
    {
        proof {
            use_type_invariant(self);
        }
        match &self.kind {
            ParserKind::Literal(lit) => {
                match strip_start(src, lit.as_str()) {
                    Some((head, tail)) => Outcome::Matched {
                        text: head.to_owned(),
                        rest: tail.to_owned(),
                    },
                    None => Outcome::Failed { rest: src.to_owned() },
                }
            },
            ParserKind::Regex(re) => {
                Outcome::anchored(find_first(re, src), src)
            },
            ParserKind::Constant(text) => Outcome::Matched {
                text: text.clone(),
                rest: src.to_owned(),
            },
            ParserKind::Error(message) => Outcome::Fatal { message: message.clone() },
            ParserKind::And => {
                match self.subparsers[0].evaluate(src) {
                    Outcome::Matched { text: first, rest } => {
                        match self.subparsers[1].evaluate(rest.as_str()) {
                            Outcome::Matched { text: second, rest } => {
                                let ghost pair = seq![first@, second@];
                                let mut items: Vec<String> = Vec::new();
                                items.push(first);
                                items.push(second);
                                assert(texts_of(items@) =~= pair);
                                Outcome::Matched { text: encode_list(&items).unwrap(), rest }
                            },
                            other => other,
                        }
                    },
                    other => other,
                }
            },
            ParserKind::Ignore(before) => {
                match self.subparsers[0].evaluate(src) {
                    Outcome::Matched { text, rest } => {
                        if *before {
                            self.subparsers[1].evaluate(rest.as_str())
                        } else {
                            match self.subparsers[1].evaluate(rest.as_str()) {
                                Outcome::Matched { text: _, rest } => Outcome::Matched {
                                    text,
                                    rest,
                                },
                                other => other,
                            }
                        }
                    },
                    other => other,
                }
            },
            ParserKind::Or => {
                match self.subparsers[0].evaluate(src) {
                    Outcome::Failed { rest: _ } => self.subparsers[1].evaluate(src),
                    other => other,
                }
            },
            ParserKind::Repeat(count) => self.subparsers[0].evaluate_repeated(*count, 0, src),
            ParserKind::RepeatRange(range) => {
                let optional = if range.end >= range.start {
                    range.end - range.start
                } else {
                    0
                };
                self.subparsers[0].evaluate_repeated(range.start, optional, src)
            },
            ParserKind::Transform(transform) => {
                match self.subparsers[0].evaluate(src) {
                    Outcome::Matched { text, rest } => Outcome::replaced(
                        transform.apply(text),
                        rest,
                    ),
                    other => other,
                }
            },
        }
    }

    /// Evaluates this matcher `must` times in a row against `src`, and then
    /// up to `may` times more for as long as it accepts.
    fn evaluate_repeated(&self, must: usize, may: usize, src: &str) -> (outcome: Outcome)
        ensures
            outcome@ == listed(self@.repeat_eval(must as nat, may as nat, src@, seq![])),
        decreases self, 1nat,
    {
        let mut matched: Vec<String> = Vec::new();
        let mut rest: String = src.to_owned();
        let mut owed: usize = must;
        assert(texts_of(matched@) =~= seq![]);
        while owed > 0
            invariant
                self@.repeat_eval(owed as nat, may as nat, rest@, texts_of(matched@))
                    == self@.repeat_eval(must as nat, may as nat, src@, seq![]),
            decreases owed,
        {
            match self.evaluate(rest.as_str()) {
                Outcome::Matched { text, rest: left } => {
                    assert(texts_of(matched@.push(text)) =~= texts_of(matched@).push(text@));
                    matched.push(text);
                    rest = left;
                },
                other => {
                    return other;
                },
            }
            owed -= 1;
        }
        let mut allowed: usize = may;
        while allowed > 0
            invariant
                self@.repeat_eval(0, allowed as nat, rest@, texts_of(matched@))
                    == self@.repeat_eval(must as nat, may as nat, src@, seq![]),
            decreases allowed,
        {
            match self.evaluate(rest.as_str()) {
                Outcome::Matched { text, rest: left } => {
                    assert(texts_of(matched@.push(text)) =~= texts_of(matched@).push(text@));
                    matched.push(text);
                    rest = left;
                },
                Outcome::Failed { rest: left } => {
                    return Outcome::Matched { text: encode_list(&matched).unwrap(), rest: left };
                },
                other => {
                    return other;
                },
            }
            allowed -= 1;
        }
        Outcome::Matched { text: encode_list(&matched).unwrap(), rest }
    }

    /// Evaluates this matcher against `src`, where evaluation meets no node
    /// that aborts the run: the matched text and the remainder, or the input
    /// left where the match failed.
    pub fn parse(&self, src: &str) -> (result: Result<(String, String), String>)
        requires
            !(self@.eval(src@) is Fatal),
        ensures
            result_verdict(result) == self@.eval(src@),
    {
        match self.evaluate(src) {
            Outcome::Matched { text, rest } => Ok((text, rest)),
            Outcome::Failed { rest } => Err(rest),
            Outcome::Fatal { message: _ } => unreached(),
        }
    }
}

} // verus!
