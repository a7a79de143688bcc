//! Lowercase normalization for case-insensitive matching.
use vstd::prelude::*;

verus! {

/// Every character of `s` lies in the ASCII range.
pub open spec fn seq_is_ascii(s: Seq<char>) -> bool {
    forall|k: int| 0 <= k < s.len() ==> (s[k] as u32) < 128
}

/// ASCII lowercasing of one character: the letters 'A' through 'Z' move
/// to 'a' through 'z', every other character stays as it is.
pub open spec fn ascii_lower_char(c: char) -> char {
    if 'A' <= c && c <= 'Z' {
        ((c as u32) + 32) as char
    } else {
        c
    }
}

/// Character-wise ASCII lowercasing of a sequence.
pub open spec fn ascii_lower(s: Seq<char>) -> Seq<char> {
    s.map_values(|c: char| ascii_lower_char(c))
}

/// What `str::to_lowercase` returns on a character sequence that is not
/// all ASCII. The result depends on the characters alone.
pub uninterp spec fn lower_of(s: Seq<char>) -> Seq<char>;

/// The lowercase form of a character sequence: character-wise ASCII
/// lowercasing on ASCII text, and the named Unicode lowering elsewhere.
pub open spec fn spec_lower(s: Seq<char>) -> Seq<char> {
    if seq_is_ascii(s) {
        ascii_lower(s)
    } else {
        lower_of(s)
    }
}

/// Relies on `str::to_lowercase`: the result is a function of the input
/// characters alone, and on ASCII input it lowercases exactly the ASCII
/// letters, character for character.
#[verifier::external_body]
pub(crate) fn lowercase(s: &str) -> (r: String)
    ensures
        r@ == spec_lower(s@),
        !seq_is_ascii(s@) ==> r@ == lower_of(s@),
{
    s.to_lowercase()
}

} // verus!
