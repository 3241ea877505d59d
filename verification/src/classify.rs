//! Character classes of the lexer.
//!
//! The scanner sorts characters into white space, digits and word characters
//! with the standard library's Unicode predicates. Within ASCII each class is
//! written out here; beyond ASCII the classes are whatever the Unicode tables
//! that the standard library was built with say, and are left abstract.
use vstd::prelude::*;

verus! {

/// For a character beyond ASCII: whether `char::is_whitespace` holds of it,
/// that is, whether it has the Unicode property `White_Space`.
pub uninterp spec fn white_space_beyond_ascii(c: char) -> bool;

/// For a character beyond ASCII: whether `char::is_numeric` holds of it,
/// that is, whether its general category is one of `Nd`, `Nl`, `No`.
pub uninterp spec fn numeric_beyond_ascii(c: char) -> bool;

/// For a character beyond ASCII: whether `char::is_alphanumeric` holds of it,
/// that is, whether it is `Alphabetic` or numeric.
pub uninterp spec fn alphanumeric_beyond_ascii(c: char) -> bool;

/// The characters U+0000 to U+007F.
pub open spec fn is_ascii(c: char) -> bool {
    c <= '\u{7f}'
}

/// The ASCII characters with the property `White_Space`: space, and the
/// controls from horizontal tab to carriage return.
pub open spec fn is_ascii_space(c: char) -> bool {
    c == ' ' || ('\u{9}' <= c && c <= '\u{d}')
}

/// The ASCII decimal digits.
pub open spec fn is_ascii_digit(c: char) -> bool {
    '0' <= c && c <= '9'
}

/// The ASCII letters.
pub open spec fn is_ascii_letter(c: char) -> bool {
    ('a' <= c && c <= 'z') || ('A' <= c && c <= 'Z')
}

/// White space: skipped between tokens.
pub open spec fn is_space(c: char) -> bool {
    if is_ascii(c) {
        is_ascii_space(c)
    } else {
        white_space_beyond_ascii(c)
    }
}

/// A digit: starts a number literal.
pub open spec fn is_digit(c: char) -> bool {
    if is_ascii(c) {
        is_ascii_digit(c)
    } else {
        numeric_beyond_ascii(c)
    }
}

/// A letter or a digit.
pub open spec fn is_alphanumeric(c: char) -> bool {
    if is_ascii(c) {
        is_ascii_letter(c) || is_ascii_digit(c)
    } else {
        alphanumeric_beyond_ascii(c)
    }
}

/// A character that continues a number literal: a digit or the point.
pub open spec fn is_number_part(c: char) -> bool {
    is_digit(c) || c == '.'
}

/// A character that continues a word: a letter, a digit or the underscore.
pub open spec fn is_word_part(c: char) -> bool {
    is_alphanumeric(c) || c == '_'
}

/// A character that starts a word: a word character that is no digit.
pub open spec fn is_word_start(c: char) -> bool {
    is_word_part(c) && !is_digit(c)
}

/// `char::is_whitespace` reports the Unicode property `White_Space`. Claimed
/// here: within ASCII that is exactly space and U+0009 to U+000D; beyond
/// ASCII the answer depends on the character alone.
pub assume_specification[ char::is_whitespace ](c: char) -> (b: bool)
    ensures
        is_ascii(c) ==> b == is_ascii_space(c),
        !is_ascii(c) ==> b == white_space_beyond_ascii(c),
;

/// `char::is_numeric` reports the general categories `Nd`, `Nl` and `No`.
/// Claimed here: within ASCII that is exactly `0` to `9`; beyond ASCII the
/// answer depends on the character alone.
pub assume_specification[ char::is_numeric ](c: char) -> (b: bool)
    ensures
        is_ascii(c) ==> b == is_ascii_digit(c),
        !is_ascii(c) ==> b == numeric_beyond_ascii(c),
;

/// `char::is_alphanumeric` reports `Alphabetic` or numeric. Claimed here:
/// within ASCII that is exactly the letters and the digits; beyond ASCII the
/// answer depends on the character alone.
pub assume_specification[ char::is_alphanumeric ](c: char) -> (b: bool)
    ensures
        is_ascii(c) ==> b == (is_ascii_letter(c) || is_ascii_digit(c)),
        !is_ascii(c) ==> b == alphanumeric_beyond_ascii(c),
;

/// `String::push` appends one character to the end of the string.
pub assume_specification[ std::string::String::push ](s: &mut std::string::String, c: char)
    ensures
        final(s)@ == old(s)@.push(c),
;

} // verus!
