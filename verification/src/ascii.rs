//! Text compared without regard to the case of ASCII letters.

use vstd::prelude::*;

verus! {

/// The lower-case form of an ASCII capital letter; any other character is left as it is.
pub open spec fn lower_char(c: char) -> char {
    if 'A' <= c && c <= 'Z' {
        ((c as u8) + 32) as char
    } else {
        c
    }
}

/// The text with each of its ASCII capital letters in lower case.
pub open spec fn ascii_lowercase(text: Seq<char>) -> Seq<char> {
    text.map_values(|c: char| lower_char(c))
}

/// Whether two texts are the same but for the case of their ASCII letters.
pub open spec fn same_ignoring_case(a: Seq<char>, b: Seq<char>) -> bool {
    ascii_lowercase(a) == ascii_lowercase(b)
}

/// `str::to_ascii_lowercase` of the standard library: a copy of the text in
/// which the ASCII letters 'A' to 'Z' have become 'a' to 'z' and every other
/// character is unchanged.
pub assume_specification[ str::to_ascii_lowercase ](text: &str) -> (lower: String)
    ensures
        lower@ == ascii_lowercase(text@),
;

/// `str::eq_ignore_ascii_case` of the standard library: whether the two texts
/// have the same ASCII lower-case form.
pub assume_specification[ str::eq_ignore_ascii_case ](text: &str, other: &str) -> (same: bool)
    ensures
        same == same_ignoring_case(text@, other@),
;

/// Putting a text in lower case twice is the same as doing it once.
pub proof fn lemma_lowercase_idempotent(text: Seq<char>)
    ensures
        ascii_lowercase(ascii_lowercase(text)) == ascii_lowercase(text),
{
    assert forall|c: char| lower_char(lower_char(c)) == lower_char(c) by {}
    assert(ascii_lowercase(ascii_lowercase(text)) =~= ascii_lowercase(text));
}

/// A text is the same as its lower-case form, ignoring case.
pub proof fn lemma_same_as_lowercase(text: Seq<char>)
    ensures
        same_ignoring_case(text, ascii_lowercase(text)),
        same_ignoring_case(ascii_lowercase(text), text),
{
    lemma_lowercase_idempotent(text);
}

} // verus!
