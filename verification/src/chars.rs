//! Character classes of the scanner.
//!
//! Whitespace is a fixed set of four characters and is decided here. Whether a
//! character is a letter or a numeral is decided by the standard library's
//! Unicode tables, which this module names rather than restates; only their
//! restriction to ASCII is spelled out.

use vstd::prelude::*;

verus! {

/// What `char::is_alphabetic` answers for `c`: whether `c` has the Unicode
/// property Alphabetic, as the standard library's tables record it.
pub uninterp spec fn unicode_alphabetic(c: char) -> bool;

/// What `char::is_numeric` answers for `c`: whether `c` belongs to one of the
/// Unicode general categories for numbers (Nd, Nl, No), as the standard
/// library's tables record it.
pub uninterp spec fn unicode_numeric(c: char) -> bool;

/// The four characters that separate tokens without being one.
pub open spec fn is_space(c: char) -> bool {
    c == ' ' || c == '\t' || c == '\n' || c == '\r'
}

/// A character of the ASCII range.
pub open spec fn is_ascii(c: char) -> bool {
    c <= '\x7f'
}

/// One of the 52 unaccented Latin letters.
pub open spec fn is_ascii_letter(c: char) -> bool {
    'a' <= c <= 'z' || 'A' <= c <= 'Z'
}

/// One of the ten decimal digits.
pub open spec fn is_ascii_digit(c: char) -> bool {
    '0' <= c <= '9'
}

/// A letter: within ASCII exactly `a`-`z` and `A`-`Z`, beyond ASCII whatever
/// Unicode calls alphabetic.
pub open spec fn is_letter(c: char) -> bool {
    if is_ascii(c) {
        is_ascii_letter(c)
    } else {
        unicode_alphabetic(c)
    }
}

/// A numeral: within ASCII exactly `0`-`9`, beyond ASCII whatever Unicode
/// calls numeric.
pub open spec fn is_numeral(c: char) -> bool {
    if is_ascii(c) {
        is_ascii_digit(c)
    } else {
        unicode_numeric(c)
    }
}

/// A character that may continue an identifier.
pub open spec fn is_letter_or_numeral(c: char) -> bool {
    is_letter(c) || is_numeral(c)
}

/// `char::is_alphabetic` of the standard library. Nothing is proved of it. The
/// contract claims that the only ASCII characters it accepts are the 52
/// letters, and gives its answer beyond ASCII a name.
pub assume_specification[ char::is_alphabetic ](c: char) -> (b: bool)
    ensures
        is_ascii(c) ==> b == is_ascii_letter(c),
        !is_ascii(c) ==> b == unicode_alphabetic(c),
;

/// `char::is_numeric` of the standard library. Nothing is proved of it. The
/// contract claims that the only ASCII characters it accepts are the ten
/// digits, and gives its answer beyond ASCII a name.
pub assume_specification[ char::is_numeric ](c: char) -> (b: bool)
    ensures
        is_ascii(c) ==> b == is_ascii_digit(c),
        !is_ascii(c) ==> b == unicode_numeric(c),
;

/// The three kinds of character run that the scanner reads as a whole.
#[derive(PartialEq, Eq, Structural, Clone, Copy, Debug)]
pub enum CharClass {
    /// The characters skipped between tokens.
    Whitespace,
    /// The characters of an identifier.
    Alphanumeric,
    /// The characters of a numeric literal.
    Numeric,
}

impl CharClass {
    /// Whether `c` belongs to the class.
    pub open spec fn contains(self, c: char) -> bool {
        match self {
            CharClass::Whitespace => is_space(c),
            CharClass::Alphanumeric => is_letter_or_numeral(c),
            CharClass::Numeric => is_numeral(c),
        }
    }

    /// Tells whether `c` belongs to the class.
    pub fn has(self, c: char) -> (b: bool)
        ensures
            b == self.contains(c),
    {
        match self {
            CharClass::Whitespace => c == ' ' || c == '\t' || c == '\n' || c == '\r',
            CharClass::Alphanumeric => c.is_alphabetic() || c.is_numeric(),
            CharClass::Numeric => c.is_numeric(),
        }
    }
}

} // verus!
