//! What holds of every matcher tree and every input.

use crate::outcome::{Run, Verdict};
use crate::pattern::first_match;
use crate::shape::{listed, optional_count, Shape};
use crate::text::{byte_prefix, byte_suffix, is_cut, lemma_cut_parts};
use regex::Regex;
use vstd::prelude::*;

verus! {

/// A literal accepts every input that begins with it: it reports itself and
/// leaves what follows.
pub proof fn lemma_literal_accepts(lit: Seq<char>, rest: Seq<char>)
    ensures
        Shape::Literal(lit).eval(lit + rest) == (Verdict::Matched { text: lit, rest }),
{
    let input = lit + rest;
    assert(input.skip(lit.len() as int) =~= rest);
}

/// A literal fails on every input that does not begin with it, leaving the
/// whole input.
pub proof fn lemma_literal_rejects(lit: Seq<char>, input: Seq<char>)
    requires
        !lit.is_prefix_of(input),
    ensures
        Shape::Literal(lit).eval(input) == (Verdict::Failed { rest: input }),
{
}

/// What a literal accepts and what it leaves make up the input again.
pub proof fn lemma_literal_splits(lit: Seq<char>, input: Seq<char>)
    ensures
        Shape::Literal(lit).eval(input) matches Verdict::Matched { text, rest } ==> text + rest
            == input,
{
}

/// A pattern accepts only where the leftmost match of its expression starts
/// at offset 0: a match that starts later, like no match at all, fails the
/// pattern and leaves the whole input.
pub proof fn lemma_pattern_anchored(re: Regex, input: Seq<char>)
    ensures
        Shape::Pattern(re).eval(input) is Matched ==> (first_match(re, input) matches Some(
            (start, _),
        ) && start == 0),
        !(first_match(re, input) matches Some((start, _)) && start == 0) ==> Shape::Pattern(
            re,
        ).eval(input) == (Verdict::Failed { rest: input }),
{
}

/// A pattern that accepts reports the span that its expression matched, from
/// the start of the input to the end of the match, and leaves what follows:
/// the two make up the input again.
pub proof fn lemma_pattern_splits(re: Regex, input: Seq<char>)
    ensures
        Shape::Pattern(re).eval(input) matches Verdict::Matched { text, rest } ==> {
            &&& first_match(re, input) matches Some((_, end)) && text == byte_prefix(
                input,
                end as int,
            ) && rest == byte_suffix(input, end as int)
            &&& text + rest == input
        },
{
    match first_match(re, input) {
        Some((start, end)) => {
            if start == 0 && is_cut(input, end as int) {
                lemma_cut_parts(input, end as int);
            }
        },
        None => {},
    }
}

/// A constant accepts every input, reports its text and consumes nothing.
pub proof fn lemma_constant_consumes_nothing(text: Seq<char>, input: Seq<char>)
    ensures
        Shape::Constant(text).eval(input) == (Verdict::Matched { text, rest: input }),
{
}

/// A sequence whose left operand does not accept ends with the verdict of
/// that operand, whatever its right operand is: the right operand has no
/// part in the evaluation, not even one that would abort the run.
pub proof fn lemma_sequence_short_circuits(left: Shape, right: Shape, input: Seq<char>)
    requires
        !(left.eval(input) is Matched),
    ensures
        Shape::Sequence(Box::new(left), Box::new(right)).eval(input) == left.eval(input),
        Shape::SkipBefore(Box::new(left), Box::new(right)).eval(input) == left.eval(input),
        Shape::SkipAfter(Box::new(left), Box::new(right)).eval(input) == left.eval(input),
{
}

/// An alternation whose left operand accepts ends with the verdict of that
/// operand, whatever its right operand is: the first branch that accepts
/// wins, and a left operand that aborts the run is not rescued either.
pub proof fn lemma_alternation_left_biased(left: Shape, right: Shape, input: Seq<char>)
    requires
        !(left.eval(input) is Failed),
    ensures
        Shape::Alternation(Box::new(left), Box::new(right)).eval(input) == left.eval(input),
{
}

/// An alternation whose left operand fails evaluates its right operand on
/// the input it was given itself, not on what the left operand left.
pub proof fn lemma_alternation_retries_input(left: Shape, right: Shape, input: Seq<char>)
    requires
        left.eval(input) is Failed,
    ensures
        Shape::Alternation(Box::new(left), Box::new(right)).eval(input) == right.eval(input),
{
}

/// A transformation replaces the text that its operand reported and keeps
/// the remainder; where the function refuses the text, the node fails and
/// leaves what the operand left, not the input it was given.
pub proof fn lemma_transform_applies(
    operand: Shape,
    function: spec_fn(Seq<char>) -> Option<Seq<char>>,
    input: Seq<char>,
)
    ensures
        Shape::Transform(Box::new(operand), function).eval(input) == (match operand.eval(input) {
            Verdict::Matched { text, rest } => match function(text) {
                Some(image) => Verdict::Matched { text: image, rest },
                None => Verdict::Failed { rest },
            },
            other => other,
        }),
{
}

/// A repetition that ends gathered at least the owed number of texts and no
/// more than the allowed number on top of them, after those it began with.
pub proof fn lemma_repetition_count(
    operand: Shape,
    must: nat,
    may: nat,
    input: Seq<char>,
    done: Seq<Seq<char>>,
)
    ensures
        operand.repeat_eval(must, may, input, done) matches Run::Done { items, rest: _ } ==> {
            &&& done.is_prefix_of(items)
            &&& done.len() + must <= items.len() <= done.len() + must + may
        },
    decreases must + may,
{
    if must > 0 || may > 0 {
        if let Verdict::Matched { text, rest } = operand.eval(input) {
            let next_must = if must > 0 {
                (must - 1) as nat
            } else {
                0
            };
            let next_may = if must > 0 {
                may
            } else {
                (may - 1) as nat
            };
            lemma_repetition_count(operand, next_must, next_may, rest, done.push(text));
        }
    }
}

/// A fixed repetition that accepts gathered exactly its count of texts, and
/// a bounded one at least its lower and at most its upper bound.
pub proof fn lemma_repeat_bounds(operand: Shape, min: nat, max: nat, input: Seq<char>)
    ensures
        operand.repeat_eval(min, 0, input, seq![]) matches Run::Done { items, rest: _ }
            ==> items.len() == min,
        operand.repeat_eval(min, optional_count(min, max), input, seq![]) matches Run::Done {
            items,
            rest: _,
        } ==> min <= items.len() && (min <= max ==> items.len() <= max),
{
    lemma_repetition_count(operand, min, 0, input, seq![]);
    lemma_repetition_count(operand, min, optional_count(min, max), input, seq![]);
}

/// A repetition that owes nothing never fails: it accepts, with what the
/// last attempt left as remainder, unless an attempt aborts the run.
pub proof fn lemma_optional_tail_never_fails(
    operand: Shape,
    may: nat,
    input: Seq<char>,
    done: Seq<Seq<char>>,
)
    ensures
        !(operand.repeat_eval(0, may, input, done) is Failed),
    decreases may,
{
    if may > 0 {
        if let Verdict::Matched { text, rest } = operand.eval(input) {
            lemma_optional_tail_never_fails(operand, (may - 1) as nat, rest, done.push(text));
        }
    }
}

/// A bounded repetition that owes nothing never fails, and an optional
/// matcher is such a repetition.
pub proof fn lemma_bounded_from_zero_never_fails(operand: Shape, max: nat, input: Seq<char>)
    ensures
        !(Shape::BoundedRepeat(Box::new(operand), 0, max).eval(input) is Failed),
{
    lemma_optional_tail_never_fails(operand, max, input, seq![]);
}

/// A repetition that is owed fails as soon as one attempt does not accept,
/// with the verdict of that attempt.
pub proof fn lemma_owed_repetition_fails(
    operand: Shape,
    must: nat,
    may: nat,
    input: Seq<char>,
    done: Seq<Seq<char>>,
)
    requires
        must > 0,
        !(operand.eval(input) is Matched),
    ensures
        listed(operand.repeat_eval(must, may, input, done)) == operand.eval(input),
{
}

/// Whether what a verdict leaves is a tail of `input`.
pub open spec fn leaves_tail_of(verdict: Verdict, input: Seq<char>) -> bool {
    match verdict {
        Verdict::Matched { text: _, rest } => rest.is_suffix_of(input),
        Verdict::Failed { rest } => rest.is_suffix_of(input),
        Verdict::Fatal { message: _ } => true,
    }
}

/// A verdict that leaves a tail of a tail of `input` leaves a tail of `input`.
proof fn lemma_tail_of_tail(verdict: Verdict, middle: Seq<char>, input: Seq<char>)
    requires
        leaves_tail_of(verdict, middle),
        middle.is_suffix_of(input),
    ensures
        leaves_tail_of(verdict, input),
{
}

/// Whatever a matcher accepts or refuses, the input it leaves is a tail of
/// the input it was given: evaluation consumes from the front and makes up
/// no input.
pub proof fn lemma_remainder_is_tail(shape: Shape, input: Seq<char>)
    ensures
        leaves_tail_of(shape.eval(input), input),
    decreases shape, 0nat,
{
    match shape {
        Shape::Literal(_) | Shape::Constant(_) | Shape::Fail(_) => {},
        Shape::Pattern(re) => {
            if let Some((start, end)) = first_match(re, input) {
                if start == 0 && is_cut(input, end as int) {
                    lemma_cut_parts(input, end as int);
                }
            }
        },
        Shape::Sequence(left, right) | Shape::SkipBefore(left, right) | Shape::SkipAfter(
            left,
            right,
        ) => {
            lemma_remainder_is_tail(*left, input);
            match left.eval(input) {
                Verdict::Matched { text: _, rest } => {
                    lemma_remainder_is_tail(*right, rest);
                    lemma_tail_of_tail(right.eval(rest), rest, input);
                },
                _ => {},
            }
        },
        Shape::Alternation(left, right) => {
            lemma_remainder_is_tail(*left, input);
            lemma_remainder_is_tail(*right, input);
        },
        Shape::FixedRepeat(operand, count) => {
            lemma_repeat_remainder_is_tail(*operand, count, 0, input, seq![]);
        },
        Shape::BoundedRepeat(operand, min, max) => {
            lemma_repeat_remainder_is_tail(
                *operand,
                min,
                optional_count(min, max),
                input,
                seq![],
            );
        },
        Shape::Transform(operand, _) => {
            lemma_remainder_is_tail(*operand, input);
        },
    }
}

/// A repetition likewise leaves a tail of the input it was given.
pub proof fn lemma_repeat_remainder_is_tail(
    shape: Shape,
    must: nat,
    may: nat,
    input: Seq<char>,
    done: Seq<Seq<char>>,
)
    ensures
        leaves_tail_of(listed(shape.repeat_eval(must, may, input, done)), input),
    decreases shape, must + may + 1,
{
    if must > 0 || may > 0 {
        lemma_remainder_is_tail(shape, input);
        match shape.eval(input) {
            Verdict::Matched { text, rest } => {
                let next_must = if must > 0 {
                    (must - 1) as nat
                } else {
                    0
                };
                let next_may = if must > 0 {
                    may
                } else {
                    (may - 1) as nat
                };
                lemma_repeat_remainder_is_tail(shape, next_must, next_may, rest, done.push(text));
                lemma_tail_of_tail(
                    listed(shape.repeat_eval(next_must, next_may, rest, done.push(text))),
                    rest,
                    input,
                );
            },
            _ => {},
        }
    }
}

/// Only a node that aborts the run makes an evaluation fatal: a tree that
/// holds none accepts or fails on every input.
pub proof fn lemma_fatal_needs_fail(shape: Shape, input: Seq<char>)
    requires
        !shape.has_fail(),
    ensures
        !(shape.eval(input) is Fatal),
    decreases shape, 0nat,
{
    match shape {
        Shape::Literal(_) | Shape::Constant(_) | Shape::Fail(_) | Shape::Pattern(_) => {},
        Shape::Sequence(left, right) | Shape::SkipBefore(left, right) | Shape::SkipAfter(
            left,
            right,
        ) => {
            lemma_fatal_needs_fail(*left, input);
            if let Verdict::Matched { text: _, rest } = left.eval(input) {
                lemma_fatal_needs_fail(*right, rest);
            }
        },
        Shape::Alternation(left, right) => {
            lemma_fatal_needs_fail(*left, input);
            lemma_fatal_needs_fail(*right, input);
        },
        Shape::FixedRepeat(operand, count) => {
            lemma_repeat_fatal_needs_fail(*operand, count, 0, input, seq![]);
        },
        Shape::BoundedRepeat(operand, min, max) => {
            lemma_repeat_fatal_needs_fail(
                *operand,
                min,
                optional_count(min, max),
                input,
                seq![],
            );
        },
        Shape::Transform(operand, _) => {
            lemma_fatal_needs_fail(*operand, input);
        },
    }
}

/// A repetition of a matcher that holds no node that aborts the run is not
/// fatal either.
pub proof fn lemma_repeat_fatal_needs_fail(
    shape: Shape,
    must: nat,
    may: nat,
    input: Seq<char>,
    done: Seq<Seq<char>>,
)
    requires
        !shape.has_fail(),
    ensures
        !(shape.repeat_eval(must, may, input, done) is Fatal),
    decreases shape, must + may + 1,
{
    if must > 0 || may > 0 {
        lemma_fatal_needs_fail(shape, input);
        if let Verdict::Matched { text, rest } = shape.eval(input) {
            let next_must = if must > 0 {
                (must - 1) as nat
            } else {
                0
            };
            let next_may = if must > 0 {
                may
            } else {
                (may - 1) as nat
            };
            lemma_repeat_fatal_needs_fail(shape, next_must, next_may, rest, done.push(text));
        }
    }
}

} // verus!
