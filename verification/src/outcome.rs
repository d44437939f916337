//! What evaluating a matcher against a text comes to.

use crate::shape::{anchored, replaced};
use crate::text::split_text;
use crate::transform::answer_view;
use vstd::prelude::*;
use vstd::utf8::encode_utf8_valid_utf8;

verus! {

/// The verdict of an evaluation, over texts as sequences of characters.
pub enum Verdict {
    /// The matcher accepted: the text it reports, and the input left over.
    Matched { text: Seq<char>, rest: Seq<char> },
    /// The matcher did not accept: the input left at the point of failure.
    Failed { rest: Seq<char> },
    /// Evaluation reached a node that aborts the whole run.
    Fatal { message: Seq<char> },
}

/// How a repetition ends, before the texts it gathered are made one.
pub enum Run {
    /// The repetition is over: the texts of the attempts that accepted, in
    /// order, and the input left over.
    Done { items: Seq<Seq<char>>, rest: Seq<char> },
    /// An attempt that was owed did not accept: the input it left.
    Failed { rest: Seq<char> },
    /// An attempt reached a node that aborts the whole run.
    Fatal { message: Seq<char> },
}

/// The verdict of an evaluation, as the engine hands it out.
#[derive(Debug, PartialEq, Eq)]
pub enum Outcome {
    /// The matcher accepted: the text it reports, and the input left over.
    Matched { text: String, rest: String },
    /// The matcher did not accept: the input left at the point of failure.
    Failed { rest: String },
    /// Evaluation reached a node that aborts the whole run, with its message.
    Fatal { message: String },
}

impl View for Outcome {
    type V = Verdict;

    open spec fn view(&self) -> Verdict {
        match *self {
            Outcome::Matched { text, rest } => Verdict::Matched { text: text@, rest: rest@ },
            Outcome::Failed { rest } => Verdict::Failed { rest: rest@ },
            Outcome::Fatal { message } => Verdict::Fatal { message: message@ },
        }
    }
}

/// The verdict that a recoverable result stands for.
pub open spec fn result_verdict(result: Result<(String, String), String>) -> Verdict {
    match result {
        Ok((text, rest)) => Verdict::Matched { text: text@, rest: rest@ },
        Err(rest) => Verdict::Failed { rest: rest@ },
    }
}

impl Outcome {
    /// The outcome of a pattern on `src`, given the span in bytes that the
    /// search for its expression reported.
    pub fn anchored(span: Option<(usize, usize)>, src: &str) -> (outcome: Outcome)
        ensures
            outcome@ == anchored(span, src@),
    {
        match span {
            Some((start, end)) => {
                proof {
                    encode_utf8_valid_utf8(src@);
                }
                if start == 0 && end <= src.as_bytes().len() && src.is_char_boundary(end) {
                    let (head, tail) = split_text(src, end);
                    Outcome::Matched { text: head.to_owned(), rest: tail.to_owned() }
                } else {
                    Outcome::Failed { rest: src.to_owned() }
                }
            },
            None => Outcome::Failed { rest: src.to_owned() },
        }
    }

    /// The outcome of a transformation, given what its function answered on
    /// the text of the operand and the input that the operand left.
    pub fn replaced(answer: Result<String, ron::Error>, rest: String) -> (outcome: Outcome)
        ensures
            outcome@ == replaced(answer_view(answer), rest@),
    {
        match answer {
            Ok(text) => Outcome::Matched { text, rest },
            Err(_) => Outcome::Failed { rest },
        }
    }
}

} // verus!
