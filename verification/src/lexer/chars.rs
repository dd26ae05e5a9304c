//! Classes of characters, and runs of characters of one class.

use vstd::prelude::*;

verus! {

/// Whether [`char::is_whitespace`] holds of the character.
pub uninterp spec fn whitespace(c: char) -> bool;

/// Whether [`char::is_alphanumeric`] holds of the character.
pub uninterp spec fn alphanumeric(c: char) -> bool;

/// Taken on trust from the standard library: [`char::is_whitespace`] tells
/// whether the character has the Unicode property `White_Space`, a fact
/// about the character alone. The fact is given the name [`whitespace`]
/// here and not spelled out, so nothing is known of any one character.
pub assume_specification[ char::is_whitespace ](c: char) -> (r: bool)
    ensures
        r == whitespace(c),
;

/// Taken on trust from the standard library: [`char::is_alphanumeric`]
/// tells whether the character is alphabetic or numeric in the sense of
/// Unicode, a fact about the character alone. The fact is given the name
/// [`alphanumeric`] here and not spelled out, so nothing is known of any
/// one character.
pub assume_specification[ char::is_alphanumeric ](c: char) -> (r: bool)
    ensures
        r == alphanumeric(c),
;

/// The character that ends the input.
pub const END: char = '\0';

/// What a run of characters is made of.
pub enum Class {
    /// White space.
    Blank,
    /// The rest of a line.
    Comment,
    /// The digits `0` to `9`.
    Digit,
    /// The inside of a string literal.
    Quoted,
    /// Letters, digits and the underscore.
    Word,
}

/// Whether the character is one of the Latin letters `a` to `z` and `A` to
/// `Z`.
pub open spec fn letter(c: char) -> bool {
    ('a' <= c && c <= 'z') || ('A' <= c && c <= 'Z')
}

/// Whether the character is one of the digits `0` to `9`.
pub open spec fn digit(c: char) -> bool {
    '0' <= c && c <= '9'
}

/// Whether the character belongs to the class. The character that ends the
/// input belongs to none.
pub open spec fn belongs(class: Class, c: char) -> bool {
    c != END && match class {
        Class::Blank => whitespace(c),
        Class::Comment => c != '\n',
        Class::Digit => digit(c),
        Class::Quoted => c != '"',
        Class::Word => alphanumeric(c) || c == '_',
    }
}

/// Where the run of characters of the class that starts at `from` ends: the
/// first position from there on whose character is not of the class, or the
/// end of the source.
pub open spec fn run_end(source: Seq<char>, from: int, class: Class) -> int
    decreases source.len() - from,
{
    if 0 <= from < source.len() && belongs(class, source[from]) {
        run_end(source, from + 1, class)
    } else {
        from
    }
}

/// A run ends at or after its start and within the source, holds only
/// characters of its class, and is followed by none.
pub proof fn lemma_run_end(source: Seq<char>, from: int, class: Class)
    requires
        0 <= from <= source.len(),
    ensures
        from <= run_end(source, from, class) <= source.len(),
        forall|i: int| from <= i < run_end(source, from, class) ==> belongs(class, source[i]),
        run_end(source, from, class) < source.len() ==> !belongs(
            class,
            source[run_end(source, from, class)],
        ),
    decreases source.len() - from,
{
    if from < source.len() && belongs(class, source[from]) {
        lemma_run_end(source, from + 1, class);
    }
}

/// In a source whose last character ends the input, every run ends before
/// that character or on it.
pub proof fn lemma_run_end_inside(source: Seq<char>, from: int, class: Class)
    requires
        0 <= from < source.len(),
        source.last() == END,
    ensures
        from <= run_end(source, from, class) < source.len(),
    decreases source.len() - from,
{
    if belongs(class, source[from]) {
        lemma_run_end_inside(source, from + 1, class);
    }
}

/// Whether the character is one of the Latin letters.
pub fn is_letter(c: char) -> (r: bool)
    ensures
        r == letter(c),
{
    (c >= 'a' && c <= 'z') || (c >= 'A' && c <= 'Z')
}

/// Whether the character is one of the digits `0` to `9`.
pub fn is_digit(c: char) -> (r: bool)
    ensures
        r == digit(c),
{
    c >= '0' && c <= '9'
}

/// Whether the character belongs to the class.
pub fn is_of(class: &Class, c: char) -> (r: bool)
    ensures
        r == belongs(*class, c),
{
    c != END && match class {
        Class::Blank => c.is_whitespace(),
        Class::Comment => c != '\n',
        Class::Digit => is_digit(c),
        Class::Quoted => c != '"',
        Class::Word => c.is_alphanumeric() || c == '_',
    }
}

} // verus!
