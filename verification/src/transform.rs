//! Text transformations attached to a matcher node.

use std::rc::Rc;
use vstd::prelude::*;

verus! {

/// `ron::Error`, the reason a transformation gives for refusing a text.
#[verifier::external_type_specification]
#[verifier::external_body]
pub struct ExRonError(ron::Error);

/// What a transformation's answer means to the engine: a replacement text, or
/// a refusal.
pub open spec fn answer_view(answer: Result<String, ron::Error>) -> Option<Seq<char>> {
    match answer {
        Ok(text) => Some(text@),
        Err(_) => None,
    }
}

/// A function from matched text to a replacement or a refusal.
pub trait Transform {
    /// The replacement for `text`, or `None` where the transformation refuses it.
    spec fn image(&self, text: Seq<char>) -> Option<Seq<char>>;

    /// Answers `text`: the replacement that `image` names, or an error
    /// where `image` gives none.
    fn apply(&self, text: String) -> (answer: Result<String, ron::Error>)
        ensures
            answer_view(answer) == self.image(text@),
    ;
}

/// A closure is usable as a transformation when it accepts every text.
pub open spec fn accepts_all<F: Fn(String) -> Result<String, ron::Error>>(f: F) -> bool {
    forall|text: String| call_requires(f, (text,))
}

/// A closure is single-valued when its answer depends on the text alone.
pub open spec fn single_valued<F: Fn(String) -> Result<String, ron::Error>>(f: F) -> bool {
    forall|
        t1: String,
        t2: String,
        a1: Result<String, ron::Error>,
        a2: Result<String, ron::Error>,
    |
        t1@ == t2@ && #[trigger] call_ensures(f, (t1,), a1) && #[trigger] call_ensures(f, (t2,), a2)
            ==> answer_view(a1) == answer_view(a2)
}

/// The answer of a closure on `text`, read off its postcondition.
pub open spec fn closure_image<F: Fn(String) -> Result<String, ron::Error>>(
    f: F,
    text: Seq<char>,
) -> Option<Seq<char>> {
    let run = choose|run: (String, Result<String, ron::Error>)|
        run.0@ == text && call_ensures(f, (run.0,), run.1);
    answer_view(run.1)
}

/// Adapter that lets a closure stand where a `Transform` is expected.
pub struct FnTransform<F: Fn(String) -> Result<String, ron::Error>> {
    f: F,
}

impl<F: Fn(String) -> Result<String, ron::Error>> FnTransform<F> {
    /// The closure accepts every text and answers each in one way.
    #[verifier::type_invariant]
    spec fn well_behaved(self) -> bool {
        accepts_all(self.f) && single_valued(self.f)
    }

    /// The closure that this adapter holds.
    pub closed spec fn function(self) -> F {
        self.f
    }

    /// Wraps a closure that accepts every text and answers each in one way.
    pub fn new(f: F) -> (adapter: Self)
        requires
            accepts_all(f),
            single_valued(f),
        ensures
            adapter.function() == f,
    {
        FnTransform { f }
    }
}

impl<F: Fn(String) -> Result<String, ron::Error>> Transform for FnTransform<F> {
    open spec fn image(&self, text: Seq<char>) -> Option<Seq<char>> {
        closure_image(self.function(), text)
    }

    fn apply(&self, text: String) -> (answer: Result<String, ron::Error>) {
        proof {
            use_type_invariant(self);
        }
        let ghost given = text;
        let answer = (self.f)(text);
        proof {
            let witness = (given, answer);
            assert(witness.0@ == given@ && call_ensures(self.f, (witness.0,), witness.1));
        }
        answer
    }
}

/// `Rc::clone`: another pointer to the same allocation, so to the same value.
#[verifier::external_body]
pub(crate) fn share<T: ?Sized>(shared: &Rc<T>) -> (copy: Rc<T>)
    ensures
        copy == *shared,
{
    Rc::clone(shared)
}

} // verus!
