//! The matcher tree as it is built and held.

mod print;
mod run;

use crate::pattern::{compile, compiled_from, copy_of, regex_source};
use crate::shape::Shape;
use crate::transform::{
    accepts_all, closure_image, share, single_valued, FnTransform, Transform,
};
use regex::Regex;
use std::ops::Range;
use std::rc::Rc;
use vstd::prelude::*;

verus! {

/// The rule a node applies to its input and to its operands.
pub enum ParserKind {
    Literal(String),
    Regex(Regex),
    Constant(String),
    And,
    Ignore(bool),
    Or,
    Repeat(usize),
    RepeatRange(Range<usize>),
    Error(String),
    Transform(Rc<Box<dyn Transform>>),
}

/// A node of a matcher tree together with its operands.
pub struct Parser {
    kind: ParserKind,
    subparsers: Vec<Parser>,
}

impl ParserKind {
    /// The number of operands that a node of this kind has.
    pub open spec fn arity(self) -> nat {
        match self {
            ParserKind::And | ParserKind::Ignore(_) | ParserKind::Or => 2,
            ParserKind::Repeat(_) | ParserKind::RepeatRange(_) | ParserKind::Transform(_) => 1,
            _ => 0,
        }
    }
}

/// The function on texts that a shared transformation stands for.
pub open spec fn transform_function(transform: Rc<Box<dyn Transform>>) -> spec_fn(
    Seq<char>,
) -> Option<Seq<char>> {
    |text: Seq<char>| transform.image(text)
}

/// The function on texts that a closure stands for.
pub open spec fn closure_function<F: Fn(String) -> Result<String, ron::Error>>(f: F) -> spec_fn(
    Seq<char>,
) -> Option<Seq<char>> {
    |text: Seq<char>| closure_image(f, text)
}

impl View for Parser {
    type V = Shape;

    /// The tree that this node is the root of. Every node that can be built
    /// has the operands its kind asks for; one that had not would stand for a
    /// node that aborts the run.
    closed spec fn view(&self) -> Shape
        decreases self,
    {
        let operands = self.subparsers@;
        if operands.len() != self.kind.arity() {
            Shape::Fail(Seq::empty())
        } else {
            match self.kind {
                ParserKind::Literal(lit) => Shape::Literal(lit@),
                ParserKind::Regex(re) => Shape::Pattern(re),
                ParserKind::Constant(text) => Shape::Constant(text@),
                ParserKind::Error(message) => Shape::Fail(message@),
                ParserKind::And => Shape::Sequence(
                    Box::new(operands[0].view()),
                    Box::new(operands[1].view()),
                ),
                ParserKind::Ignore(before) => if before {
                    Shape::SkipBefore(Box::new(operands[0].view()), Box::new(operands[1].view()))
                } else {
                    Shape::SkipAfter(Box::new(operands[0].view()), Box::new(operands[1].view()))
                },
                ParserKind::Or => Shape::Alternation(
                    Box::new(operands[0].view()),
                    Box::new(operands[1].view()),
                ),
                ParserKind::Repeat(count) => Shape::FixedRepeat(
                    Box::new(operands[0].view()),
                    count as nat,
                ),
                ParserKind::RepeatRange(range) => Shape::BoundedRepeat(
                    Box::new(operands[0].view()),
                    range.start as nat,
                    range.end as nat,
                ),
                ParserKind::Transform(transform) => Shape::Transform(
                    Box::new(operands[0].view()),
                    transform_function(transform),
                ),
            }
        }
    }
}

impl Parser {
    /// A node has as many operands as its kind asks for.
    #[verifier::type_invariant]
    spec fn arity_holds(self) -> bool {
        self.subparsers@.len() == self.kind.arity()
    }

    /// A matcher for exactly the text `s`.
    pub fn literal(s: &str) -> (parser: Parser)
        ensures
            parser@ == Shape::Literal(s@),
    {
        Parser { kind: ParserKind::Literal(s.to_owned()), subparsers: Vec::new() }
    }

    /// A matcher for the regular expression `s`, which must compile.
    pub fn regex(s: &str) -> (parser: Parser)
        requires
            compiled_from(s@) is Some,
        ensures
            parser@ == Shape::Pattern(compiled_from(s@)->0),
            regex_source(compiled_from(s@)->0) == s@,
    {
        let compiled = compile(s);
        Parser { kind: ParserKind::Regex(compiled.unwrap()), subparsers: Vec::new() }
    }

    /// A matcher for the regular expression `s`, or `None` where `s` does not
    /// compile.
    pub fn try_regex(s: &str) -> (parser: Option<Parser>)
        ensures
            parser is Some <==> compiled_from(s@) is Some,
            parser matches Some(built) ==> built@ == Shape::Pattern(compiled_from(s@)->0)
                && regex_source(compiled_from(s@)->0) == s@,
    {
        match compile(s) {
            Ok(_) => Some(Parser::regex(s)),
            Err(_) => None,
        }
    }

    /// A matcher that reports `s` and consumes nothing.
    pub fn constant(s: &str) -> (parser: Parser)
        ensures
            parser@ == Shape::Constant(s@),
    {
        Parser { kind: ParserKind::Constant(s.to_owned()), subparsers: Vec::new() }
    }

    /// A matcher that aborts the run with the message `s`.
    pub fn error(s: &str) -> (parser: Parser)
        ensures
            parser@ == Shape::Fail(s@),
    {
        Parser { kind: ParserKind::Error(s.to_owned()), subparsers: Vec::new() }
    }

    /// This matcher, then `r`.
    pub fn and(self, r: Parser) -> (parser: Parser)
        ensures
            parser@ == Shape::Sequence(Box::new(self@), Box::new(r@)),
    {
        Parser { kind: ParserKind::And, subparsers: vec![self, r] }
    }

    /// This matcher, then `r`, reporting only what `r` matched.
    pub fn ignore_before(self, r: Parser) -> (parser: Parser)
        ensures
            parser@ == Shape::SkipBefore(Box::new(self@), Box::new(r@)),
    {
        Parser { kind: ParserKind::Ignore(true), subparsers: vec![self, r] }
    }

    /// This matcher, then `r`, reporting only what this matcher matched.
    pub fn ignore_after(self, r: Parser) -> (parser: Parser)
        ensures
            parser@ == Shape::SkipAfter(Box::new(self@), Box::new(r@)),
    {
        Parser { kind: ParserKind::Ignore(false), subparsers: vec![self, r] }
    }

    /// This matcher, or `r` on the same input where this one fails.
    pub fn or(self, r: Parser) -> (parser: Parser)
        ensures
            parser@ == Shape::Alternation(Box::new(self@), Box::new(r@)),
    {
        Parser { kind: ParserKind::Or, subparsers: vec![self, r] }
    }

    /// This matcher exactly `num_repeats` times.
    pub fn repeat(self, num_repeats: usize) -> (parser: Parser)
        ensures
            parser@ == Shape::FixedRepeat(Box::new(self@), num_repeats as nat),
    {
        Parser { kind: ParserKind::Repeat(num_repeats), subparsers: vec![self] }
    }

    /// This matcher `num_repeats.start` times, and then for as long as it
    /// accepts until `num_repeats.end` repetitions are done.
    pub fn repeat_range(self, num_repeats: Range<usize>) -> (parser: Parser)
        ensures
            parser@ == Shape::BoundedRepeat(
                Box::new(self@),
                num_repeats.start as nat,
                num_repeats.end as nat,
            ),
    {
        Parser { kind: ParserKind::RepeatRange(num_repeats), subparsers: vec![self] }
    }

    /// This matcher once or not at all.
    pub fn optional(self) -> (parser: Parser)
        ensures
            parser@ == Shape::BoundedRepeat(Box::new(self@), 0, 1),
    {
        Parser { kind: ParserKind::RepeatRange(0..1), subparsers: vec![self] }
    }

    /// This matcher with its text replaced by what `cfn` makes of it.
    pub fn map<F: 'static>(self, cfn: F) -> (parser: Parser) where
        F: Fn(String) -> Result<String, ron::Error>,

        requires
            accepts_all(cfn),
            single_valued(cfn),
        ensures
            parser@ == Shape::Transform(Box::new(self@), closure_function(cfn)),
    {
        let adapter = FnTransform::new(cfn);
        let shared: Rc<Box<dyn Transform>> = Rc::new(Box::new(adapter));
        proof {
            assert(transform_function(shared) =~= closure_function(cfn));
        }
        Parser { kind: ParserKind::Transform(shared), subparsers: vec![self] }
    }
}

impl Clone for ParserKind {
    /// A copy of this kind with the same payload; a transformation is shared,
    /// not duplicated.
    fn clone(&self) -> (copy: Self)
        ensures
            copy == *self,
    {
        match self {
            ParserKind::Literal(lit) => ParserKind::Literal(lit.clone()),
            ParserKind::Regex(re) => ParserKind::Regex(copy_of(re)),
            ParserKind::Constant(text) => ParserKind::Constant(text.clone()),
            ParserKind::And => ParserKind::And,
            ParserKind::Ignore(before) => ParserKind::Ignore(*before),
            ParserKind::Or => ParserKind::Or,
            ParserKind::Repeat(count) => ParserKind::Repeat(*count),
            ParserKind::RepeatRange(range) => ParserKind::RepeatRange(range.start..range.end),
            ParserKind::Error(message) => ParserKind::Error(message.clone()),
            ParserKind::Transform(transform) => ParserKind::Transform(share(transform)),
        }
    }
}

impl Clone for Parser {
    /// A copy of this tree: the same matcher, node for node.
    fn clone(&self) -> (copy: Self)
        ensures
            copy@ == self@,
        decreases self,
    {
        proof {
            use_type_invariant(self);
        }
        let kind = self.kind.clone();
        let mut subparsers: Vec<Parser> = Vec::new();
        let mut i: usize = 0;
        while i < self.subparsers.len()
            invariant
                i <= self.subparsers.len(),
                subparsers.len() == i,
                forall|j: int| 0 <= j < i ==> (#[trigger] subparsers@[j])@ == self.subparsers@[j]@,
            decreases self.subparsers.len() - i,
        {
            let operand = self.subparsers[i].clone();
            subparsers.push(operand);
            i += 1;
        }
        Parser { kind, subparsers }
    }
}

} // verus!
