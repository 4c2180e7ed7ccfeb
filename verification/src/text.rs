//! Texts as sequences of characters.

use vstd::prelude::*;
use vstd::utf8::encode_utf8;

verus! {

/// A text that may be missing, as the characters that the contracts speak of.
pub open spec fn text_view(text: Option<String>) -> Option<Seq<char>> {
    match text {
        Some(s) => Some(s@),
        None => None,
    }
}

/// The encoding of a text has at least one byte for each character.
pub proof fn lemma_encoding_is_no_shorter(chars: Seq<char>)
    ensures
        encode_utf8(chars).len() >= chars.len(),
    decreases chars.len(),
{
    if chars.len() > 0 {
        lemma_encoding_is_no_shorter(chars.drop_first());
    }
}

/// The number of characters of a text that is held in memory fits a
/// `usize`, as the number of its bytes does. Costs no pass over the text.
pub fn character_count_fits(s: &str)
    ensures
        s@.len() <= usize::MAX,
{
    let byte_count = s.as_bytes().len();
    proof {
        lemma_encoding_is_no_shorter(s@);
        assert(s@.len() <= byte_count);
    }
}

} // verus!
