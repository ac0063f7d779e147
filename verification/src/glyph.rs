//! Character classes the decoder tells apart.

use vstd::prelude::*;

verus! {

/// Whether a character beyond ASCII has the Unicode property `Alphabetic`.
pub uninterp spec fn unicode_alphabetic(c: char) -> bool;

/// Whether a character beyond ASCII is alphabetic or numeric in Unicode's sense.
pub uninterp spec fn unicode_alphanumeric(c: char) -> bool;

/// An ASCII letter.
pub open spec fn ascii_letter(c: char) -> bool {
    ('a' <= c && c <= 'z') || ('A' <= c && c <= 'Z')
}

/// An ASCII decimal digit.
pub open spec fn ascii_digit(c: char) -> bool {
    '0' <= c && c <= '9'
}

/// A letter: an ASCII letter, or a character beyond ASCII that Unicode calls alphabetic.
pub open spec fn alphabetic(c: char) -> bool {
    if c <= '\x7f' {
        ascii_letter(c)
    } else {
        unicode_alphabetic(c)
    }
}

/// A letter or a number: an ASCII letter or digit, or a character beyond ASCII that Unicode
/// calls alphabetic or numeric. Every letter is among them.
pub open spec fn alphanumeric(c: char) -> bool {
    if c <= '\x7f' {
        ascii_letter(c) || ascii_digit(c)
    } else {
        unicode_alphabetic(c) || unicode_alphanumeric(c)
    }
}

/// `char::is_alphabetic` of the standard library. Within ASCII it holds of the fifty-two
/// letters and of nothing else; beyond ASCII the answer depends on the character alone and
/// is left unstated.
pub assume_specification[ char::is_alphabetic ](c: char) -> (r: bool)
    ensures
        r == (if c <= '\x7f' {
            ascii_letter(c)
        } else {
            unicode_alphabetic(c)
        }),
;

/// `char::is_alphanumeric` of the standard library. Within ASCII it holds of the letters and
/// the ten digits and of nothing else; beyond ASCII the answer depends on the character
/// alone and is left unstated, but for this: it holds of every character of which
/// `char::is_alphabetic` holds.
pub assume_specification[ char::is_alphanumeric ](c: char) -> (r: bool)
    ensures
        r == (if c <= '\x7f' {
            ascii_letter(c) || ascii_digit(c)
        } else {
            unicode_alphanumeric(c)
        }),
        c > '\x7f' && unicode_alphabetic(c) ==> r,
;

} // verus!
