//! Texts as sequences of characters, and the byte offsets into their UTF-8
//! form at which they may be cut.

use vstd::prelude::*;
use vstd::utf8::{
    char_u32_cast, decode_first_scalar, decode_utf8, decode_utf8_encode_utf8, decode_utf8_split,
    encode_utf8, encode_utf8_decode_utf8, encode_utf8_first_scalar, encode_utf8_valid_utf8,
    is_char_boundary, length_of_first_scalar, pop_first_scalar, valid_utf8_split,
};

verus! {

/// The characters of `text` that its first `bytes` bytes of UTF-8 spell.
pub open spec fn byte_prefix(text: Seq<char>, bytes: int) -> Seq<char> {
    decode_utf8(encode_utf8(text).subrange(0, bytes))
}

/// The characters of `text` that follow its first `bytes` bytes of UTF-8.
pub open spec fn byte_suffix(text: Seq<char>, bytes: int) -> Seq<char> {
    decode_utf8(encode_utf8(text).subrange(bytes, encode_utf8(text).len() as int))
}

/// Whether `bytes` is an offset at which `text` may be cut.
pub open spec fn is_cut(text: Seq<char>, bytes: int) -> bool {
    0 <= bytes <= encode_utf8(text).len() && is_char_boundary(encode_utf8(text), bytes)
}

/// Cutting a text at a character boundary loses nothing: the two parts spell
/// the text again, and re-encode to the two byte ranges.
pub proof fn lemma_cut_parts(text: Seq<char>, bytes: int)
    requires
        is_cut(text, bytes),
    ensures
        byte_prefix(text, bytes) + byte_suffix(text, bytes) == text,
        encode_utf8(byte_prefix(text, bytes)) == encode_utf8(text).subrange(0, bytes),
        encode_utf8(byte_suffix(text, bytes)) == encode_utf8(text).subrange(
            bytes,
            encode_utf8(text).len() as int,
        ),
{
    let encoded = encode_utf8(text);
    encode_utf8_valid_utf8(text);
    encode_utf8_decode_utf8(text);
    decode_utf8_split(encoded, bytes);
    valid_utf8_split(encoded, bytes);
    decode_utf8_encode_utf8(encoded.subrange(0, bytes));
    decode_utf8_encode_utf8(encoded.subrange(bytes, encoded.len() as int));
}

/// Encoding distributes over concatenation.
pub proof fn lemma_encode_concat(a: Seq<char>, b: Seq<char>)
    ensures
        encode_utf8(a + b) == encode_utf8(a) + encode_utf8(b),
    decreases a.len(),
{
    if a.len() > 0 {
        lemma_encode_concat(a.drop_first(), b);
        assert((a + b).drop_first() =~= a.drop_first() + b);
    }
}

/// The end of an encoded prefix is a character boundary of the whole.
pub proof fn lemma_prefix_is_cut(a: Seq<char>, b: Seq<char>)
    ensures
        is_cut(a + b, encode_utf8(a).len() as int),
        byte_prefix(a + b, encode_utf8(a).len() as int) == a,
        byte_suffix(a + b, encode_utf8(a).len() as int) == b,
    decreases a.len(),
{
    let whole = encode_utf8(a + b);
    let at = encode_utf8(a).len() as int;
    lemma_encode_concat(a, b);
    encode_utf8_valid_utf8(a + b);
    if a.len() > 0 {
        let tail = a.drop_first() + b;
        lemma_prefix_is_cut(a.drop_first(), b);
        lemma_encode_concat(a.drop_first(), b);
        encode_utf8_first_scalar(a + b);
        assert(pop_first_scalar(whole) =~= encode_utf8(tail));
    }
    assert(whole.subrange(0, at) =~= encode_utf8(a));
    assert(whole.subrange(at, whole.len() as int) =~= encode_utf8(b));
    encode_utf8_decode_utf8(a);
    encode_utf8_decode_utf8(b);
}

/// A text whose encoding begins another's encoding begins that text.
pub proof fn lemma_encoded_prefix(a: Seq<char>, s: Seq<char>)
    requires
        encode_utf8(a).is_prefix_of(encode_utf8(s)),
    ensures
        a.is_prefix_of(s),
    decreases a.len(),
{
    if a.len() > 0 {
        let ea = encode_utf8(a);
        let es = encode_utf8(s);
        encode_utf8_first_scalar(a);
        assert(ea.len() > 0) by {
            encode_utf8_valid_utf8(a);
        }
        encode_utf8_first_scalar(s);
        let width = length_of_first_scalar(ea);
        assert(width <= ea.len()) by {
            encode_utf8_valid_utf8(a);
        }
        char_u32_cast(a[0], decode_first_scalar(ea));
        char_u32_cast(s[0], decode_first_scalar(es));
        assert(pop_first_scalar(es) =~= encode_utf8(s.drop_first()));
        assert(encode_utf8(a.drop_first()).is_prefix_of(encode_utf8(s.drop_first()))) by {
            assert(pop_first_scalar(ea) =~= pop_first_scalar(es).subrange(
                0,
                pop_first_scalar(ea).len() as int,
            ));
        }
        lemma_encoded_prefix(a.drop_first(), s.drop_first());
        assert(a =~= s.subrange(0, a.len() as int)) by {
            assert(forall|i: int| 0 < i < a.len() ==> a[i] == a.drop_first()[i - 1]);
        }
    }
}

/// A text that begins another encodes to bytes that begin the other's.
pub proof fn lemma_prefix_encoded(a: Seq<char>, s: Seq<char>)
    requires
        a.is_prefix_of(s),
    ensures
        encode_utf8(a).is_prefix_of(encode_utf8(s)),
        s == a + s.skip(a.len() as int),
{
    let rest = s.skip(a.len() as int);
    assert(s =~= a + rest);
    lemma_encode_concat(a, rest);
}

/// Cuts `src` in two at a character boundary given in bytes.
pub fn split_text(src: &str, at: usize) -> (parts: (&str, &str))
    requires
        is_cut(src@, at as int),
    ensures
        parts.0@ == byte_prefix(src@, at as int),
        parts.1@ == byte_suffix(src@, at as int),
        parts.0@ + parts.1@ == src@,
{
    let parts = src.split_at(at);
    proof {
        lemma_cut_parts(src@, at as int);
        encode_utf8_decode_utf8(parts.0@);
        encode_utf8_decode_utf8(parts.1@);
    }
    parts
}

/// Whether `src` begins with `lit`.
pub fn begins_with(src: &str, lit: &str) -> (found: bool)
    ensures
        found == lit@.is_prefix_of(src@),
{
    let whole = src.as_bytes();
    let part = lit.as_bytes();
    if part.len() > whole.len() {
        proof {
            if lit@.is_prefix_of(src@) {
                lemma_prefix_encoded(lit@, src@);
            }
        }
        return false;
    }
    let mut i: usize = 0;
    while i < part.len()
        invariant
            i <= part.len() <= whole.len(),
            part@ == encode_utf8(lit@),
            whole@ == encode_utf8(src@),
            forall|j: int| 0 <= j < i ==> part@[j] == whole@[j],
        decreases part.len() - i,
    {
        if part[i] != whole[i] {
            proof {
                if lit@.is_prefix_of(src@) {
                    lemma_prefix_encoded(lit@, src@);
                }
            }
            return false;
        }
        i += 1;
    }
    proof {
        lemma_encoded_prefix(lit@, src@);
    }
    true
}

/// Cuts `lit` off the start of `src`, where `src` begins with it.
pub fn strip_start<'a>(src: &'a str, lit: &str) -> (parts: Option<(&'a str, &'a str)>)
    ensures
        parts is Some <==> lit@.is_prefix_of(src@),
        parts matches Some((head, tail)) ==> head@ == lit@ && tail@ == src@.skip(
            lit@.len() as int,
        ),
{
    if begins_with(src, lit) {
        let at = lit.as_bytes().len();
        proof {
            let tail = src@.skip(lit@.len() as int);
            lemma_prefix_encoded(lit@, src@);
            lemma_prefix_is_cut(lit@, tail);
        }
        Some(split_text(src, at))
    } else {
        None
    }
}

} // verus!
