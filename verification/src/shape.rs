//! The mathematical model of a matcher tree and of its evaluation.

use crate::encoding::list_text;
use crate::outcome::{Run, Verdict};
use crate::pattern::first_match;
use crate::text::{byte_prefix, byte_suffix, is_cut};
use regex::Regex;
use vstd::prelude::*;

verus! {

/// A matcher tree: every node with its payload and its operands.
pub enum Shape {
    /// Accepts exactly this text at the start of the input.
    Literal(Seq<char>),
    /// Accepts what the expression matches at the start of the input.
    Pattern(Regex),
    /// Accepts always, reports this text and consumes nothing.
    Constant(Seq<char>),
    /// Aborts the run with this message.
    Fail(Seq<char>),
    /// Both operands in order; reports the list of the two texts.
    Sequence(Box<Shape>, Box<Shape>),
    /// Both operands in order; reports the text of the second.
    SkipBefore(Box<Shape>, Box<Shape>),
    /// Both operands in order; reports the text of the first.
    SkipAfter(Box<Shape>, Box<Shape>),
    /// The first operand, or where it fails the second on the same input.
    Alternation(Box<Shape>, Box<Shape>),
    /// The operand a fixed number of times; reports the list of the texts.
    FixedRepeat(Box<Shape>, nat),
    /// The operand `min` times, then as often as it accepts while fewer than
    /// `max` repetitions are done; reports the list of the texts.
    BoundedRepeat(Box<Shape>, nat, nat),
    /// The operand, with its text replaced by the image under a function;
    /// fails where the function gives none.
    Transform(Box<Shape>, spec_fn(Seq<char>) -> Option<Seq<char>>),
}

/// How many optional repetitions the range from `min` to `max` allows.
pub open spec fn optional_count(min: nat, max: nat) -> nat {
    if max >= min {
        (max - min) as nat
    } else {
        0
    }
}

/// The verdict of a pattern on `input`, given the span in bytes of the
/// leftmost match of its expression: the pattern accepts where that match
/// starts at offset 0, reports the text up to the end of the match and leaves
/// what follows. A match that starts later is no match, and neither is a
/// span that ends where the input cannot be cut.
pub open spec fn anchored(span: Option<(usize, usize)>, input: Seq<char>) -> Verdict {
    match span {
        Some((start, end)) => if start == 0 && is_cut(input, end as int) {
            Verdict::Matched {
                text: byte_prefix(input, end as int),
                rest: byte_suffix(input, end as int),
            }
        } else {
            Verdict::Failed { rest: input }
        },
        None => Verdict::Failed { rest: input },
    }
}

/// The verdict of a transformation whose operand accepted and left `rest`,
/// given the image of the operand's text: the image takes the place of the
/// text, and where there is none the node fails with what the operand left.
pub open spec fn replaced(image: Option<Seq<char>>, rest: Seq<char>) -> Verdict {
    match image {
        Some(text) => Verdict::Matched { text, rest },
        None => Verdict::Failed { rest },
    }
}

/// The verdict of a repetition that ended as `run`: the texts it gathered
/// are reported as one list.
pub open spec fn listed(run: Run) -> Verdict {
    match run {
        Run::Done { items, rest } => Verdict::Matched { text: list_text(items), rest },
        Run::Failed { rest } => Verdict::Failed { rest },
        Run::Fatal { message } => Verdict::Fatal { message },
    }
}

impl Shape {
    /// Whether some node of this tree aborts the run when it is evaluated.
    pub open spec fn has_fail(self) -> bool
        decreases self,
    {
        match self {
            Shape::Fail(_) => true,
            Shape::Sequence(left, right)
            | Shape::SkipBefore(left, right)
            | Shape::SkipAfter(left, right)
            | Shape::Alternation(left, right) => left.has_fail() || right.has_fail(),
            Shape::FixedRepeat(operand, _)
            | Shape::BoundedRepeat(operand, _, _)
            | Shape::Transform(operand, _) => operand.has_fail(),
            _ => false,
        }
    }

    /// The verdict of this matcher on `input`.
    pub open spec fn eval(self, input: Seq<char>) -> Verdict
        decreases self, 0nat,
    {
        match self {
            Shape::Literal(lit) => if lit.is_prefix_of(input) {
                Verdict::Matched { text: lit, rest: input.skip(lit.len() as int) }
            } else {
                Verdict::Failed { rest: input }
            },
            Shape::Pattern(re) => anchored(first_match(re, input), input),
            Shape::Constant(text) => Verdict::Matched { text, rest: input },
            Shape::Fail(message) => Verdict::Fatal { message },
            Shape::Sequence(left, right) => match left.eval(input) {
                Verdict::Matched { text: first, rest } => match right.eval(rest) {
                    Verdict::Matched { text: second, rest } => Verdict::Matched {
                        text: list_text(seq![first, second]),
                        rest,
                    },
                    other => other,
                },
                other => other,
            },
            Shape::SkipBefore(left, right) => match left.eval(input) {
                Verdict::Matched { text: _, rest } => right.eval(rest),
                other => other,
            },
            Shape::SkipAfter(left, right) => match left.eval(input) {
                Verdict::Matched { text, rest } => match right.eval(rest) {
                    Verdict::Matched { text: _, rest } => Verdict::Matched { text, rest },
                    other => other,
                },
                other => other,
            },
            Shape::Alternation(left, right) => match left.eval(input) {
                Verdict::Failed { rest: _ } => right.eval(input),
                other => other,
            },
            Shape::FixedRepeat(operand, count) => listed(
                operand.repeat_eval(count, 0, input, seq![]),
            ),
            Shape::BoundedRepeat(operand, min, max) => listed(
                operand.repeat_eval(min, optional_count(min, max), input, seq![]),
            ),
            Shape::Transform(operand, function) => match operand.eval(input) {
                Verdict::Matched { text, rest } => replaced(function(text), rest),
                other => other,
            },
        }
    }

    /// How repeating this matcher on `input` ends after the texts in `done`
    /// were gathered: `must` more repetitions are owed, and `may` more are
    /// attempted after them. A failure among the owed ones fails the
    /// repetition; the first failure after them ends it, and the input that
    /// the failed attempt left is what remains.
    pub open spec fn repeat_eval(
        self,
        must: nat,
        may: nat,
        input: Seq<char>,
        done: Seq<Seq<char>>,
    ) -> Run
        decreases self, must + may + 1,
    {
        if must > 0 {
            match self.eval(input) {
                Verdict::Matched { text, rest } => self.repeat_eval(
                    (must - 1) as nat,
                    may,
                    rest,
                    done.push(text),
                ),
                Verdict::Failed { rest } => Run::Failed { rest },
                Verdict::Fatal { message } => Run::Fatal { message },
            }
        } else if may > 0 {
            match self.eval(input) {
                Verdict::Matched { text, rest } => self.repeat_eval(
                    0,
                    (may - 1) as nat,
                    rest,
                    done.push(text),
                ),
                Verdict::Failed { rest } => Run::Done { items: done, rest },
                Verdict::Fatal { message } => Run::Fatal { message },
            }
        } else {
            Run::Done { items: done, rest: input }
        }
    }
}

} // verus!
