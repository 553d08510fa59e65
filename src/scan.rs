//! Searches over the unprocessed part of a line.
use crate::semantics::{
    hits, is_ident_byte, Stop, BACKSLASH, CLOSE_BRACE, CLOSE_BRACKET, CLOSE_PAREN, LINE_FEED,
    OPEN_BRACE, OPEN_BRACKET, OPEN_PAREN, SEMICOLON,
};
use vstd::prelude::*;

verus! {

/// Relies on `memchr::memchr3`: the offset of the first byte of `haystack` that equals one
/// of the three needles, or `None` when no byte does.
#[verifier::external_body]
fn find_any_of3(needle1: u8, needle2: u8, needle3: u8, haystack: &[u8]) -> (r: Option<usize>)
    ensures
        match r {
            Some(i) => i < haystack@.len() && (haystack@[i as int] == needle1 || haystack@[i as int]
                == needle2 || haystack@[i as int] == needle3) && forall|j: int|
                0 <= j < i ==> #[trigger] haystack@[j] != needle1 && haystack@[j] != needle2
                    && haystack@[j] != needle3,
            None => forall|j: int|
                0 <= j < haystack@.len() ==> #[trigger] haystack@[j] != needle1 && haystack@[j]
                    != needle2 && haystack@[j] != needle3,
        },
{
    memchr::memchr3(needle1, needle2, needle3, haystack)
}

/// The offset of the first byte that ends a text run closed by `end`: a line feed, `end`
/// or a backslash.
pub fn find_text_end(end: u8, haystack: &[u8]) -> (r: Option<usize>)
    ensures
        match r {
            Some(i) => i < haystack@.len() && hits(Stop::TextEnd(end), haystack@[i as int])
                && forall|j: int| 0 <= j < i ==> !hits(Stop::TextEnd(end), #[trigger] haystack@[j]),
            None => forall|j: int|
                0 <= j < haystack@.len() ==> !hits(Stop::TextEnd(end), #[trigger] haystack@[j]),
        },
{
    find_any_of3(LINE_FEED, end, BACKSLASH, haystack)
}

/// Whether a byte may be part of an item name: it is not whitespace, not one of
/// `{ } ( ) [ ]` and not `;`.
pub fn is_ascii_ident_char(byte: u8) -> (r: bool)
    ensures
        r == is_ident_byte(byte),
{
    !crate::buf::is_ascii_whitespace(byte) && !is_ascii_context_char(byte) && byte != SEMICOLON
}

/// Whether a byte opens or closes a block, a parameter list or a container.
pub fn is_ascii_context_char(byte: u8) -> (r: bool)
    ensures
        r == crate::semantics::is_context_byte(byte),
{
    byte == OPEN_BRACE || byte == CLOSE_BRACE || byte == OPEN_PAREN || byte == CLOSE_PAREN || byte
        == OPEN_BRACKET || byte == CLOSE_BRACKET
}

/// The offset of the first byte that cannot belong to an item name.
pub fn find_non_ident(haystack: &[u8]) -> (r: Option<usize>)
    ensures
        match r {
            Some(i) => i < haystack@.len() && !is_ident_byte(haystack@[i as int]) && forall|j: int|
                0 <= j < i ==> is_ident_byte(#[trigger] haystack@[j]),
            None => forall|j: int|
                0 <= j < haystack@.len() ==> is_ident_byte(#[trigger] haystack@[j]),
        },
{
    let mut i: usize = 0;
    while i < haystack.len()
        invariant
            i <= haystack@.len(),
            forall|j: int| 0 <= j < i ==> is_ident_byte(#[trigger] haystack@[j]),
        decreases haystack@.len() - i,
    {
        if !is_ascii_ident_char(haystack[i]) {
            return Some(i);
        }
        i = i + 1;
    }
    None
}

} // verus!
