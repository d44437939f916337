//! The encoding under which a composite node reports the texts of its parts:
//! the list notation of RON.

use vstd::prelude::*;

verus! {

/// The RON notation of a list of texts, as `ron::to_string` writes it for a
/// vector of strings: the quoted, escaped texts between square brackets,
/// separated by commas.
pub uninterp spec fn list_text(items: Seq<Seq<char>>) -> Seq<char>;

/// The texts that a vector of strings holds.
pub open spec fn texts_of(items: Seq<String>) -> Seq<Seq<char>> {
    items.map_values(|item: String| item@)
}

/// `ron::to_string` on a vector of strings. The serializer writes into a
/// string and nests one level deep, so neither a write nor its recursion
/// limit can fail it; the text it gives is named by `list_text`.
#[verifier::external_body]
pub(crate) fn encode_list(items: &Vec<String>) -> (encoded: Result<String, ron::Error>)
    ensures
        encoded is Ok,
        encoded matches Ok(text) ==> text@ == list_text(texts_of(items@)),
{
    ron::to_string(items)
}

} // verus!
