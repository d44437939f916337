//! Regular-expression leaves: the compiled expression is carried as an opaque
//! value, and the searches it answers are named rather than defined.

use regex::Regex;
use vstd::prelude::*;

verus! {

/// `regex::Regex`, a compiled regular expression: carried through as it is.
#[verifier::external_type_specification]
#[verifier::external_body]
pub struct ExRegex(regex::Regex);

/// `regex::Error`, the reason an expression did not compile.
#[verifier::external_type_specification]
#[verifier::external_body]
pub struct ExRegexError(regex::Error);

/// The text an expression was compiled from, as `Regex::as_str` reports it.
pub uninterp spec fn regex_source(re: Regex) -> Seq<char>;

/// The byte span of the leftmost match of `re` in `haystack`, as `Regex::find`
/// reports it, or `None` where the expression matches nowhere.
pub uninterp spec fn first_match(re: Regex, haystack: Seq<char>) -> Option<(usize, usize)>;

/// The expression that `Regex::new` compiles from `source` under the limits
/// that the crate sets by default, or `None` where it refuses the text.
pub uninterp spec fn compiled_from(source: Seq<char>) -> Option<Regex>;

/// `Regex::new`: compiles `source`. What comes back is what `compiled_from`
/// names, and a compiled expression remembers the text it was compiled from.
#[verifier::external_body]
pub(crate) fn compile(source: &str) -> (compiled: Result<Regex, regex::Error>)
    ensures
        compiled matches Ok(re) ==> compiled_from(source@) == Some(re) && regex_source(re)
            == source@,
        compiled is Err ==> compiled_from(source@) is None,
{
    Regex::new(source)
}

/// `Regex::find`: the leftmost match in `haystack`, as the byte offsets at
/// which it starts and ends. Nothing is claimed of the span but that it is
/// the one `first_match` names.
#[verifier::external_body]
pub(crate) fn find_first(re: &Regex, haystack: &str) -> (span: Option<(usize, usize)>)
    ensures
        span == first_match(*re, haystack@),
{
    match re.find(haystack) {
        Some(found) => Some((found.start(), found.end())),
        None => None,
    }
}

/// `Regex::as_str`: the source text of a compiled expression.
#[verifier::external_body]
pub(crate) fn source_of(re: &Regex) -> (source: &str)
    ensures
        source@ == regex_source(*re),
{
    re.as_str()
}

/// `Regex::clone`: a second handle on the same compiled expression. The copy
/// is the value it was made from: it has the same source and finds the same
/// matches.
#[verifier::external_body]
pub(crate) fn copy_of(re: &Regex) -> (copy: Regex)
    ensures
        copy == *re,
{
    re.clone()
}

} // verus!
