//! What the library takes from std about characters and strings, where vstd
//! gives no specification.

use vstd::prelude::*;

verus! {

/// Whether `c` has the Unicode `Alphabetic` property, as `char::is_alphabetic`
/// decides it from the Unicode tables.
pub uninterp spec fn alphabetic(c: char) -> bool;

/// `char::is_alphabetic`. Claimed: the result is the `Alphabetic` property of
/// `c`, named by `alphabetic`. Which characters have that property is left
/// unsaid (it is given by the Unicode tables, not by a few lines).
pub assume_specification[ char::is_alphabetic ](c: char) -> (b: bool)
    ensures
        b == alphabetic(c),
;

/// `char::is_digit`, for radix 10 only. Claimed, as its documentation says:
/// in radix 10 the digits are exactly `'0'` to `'9'`.
pub assume_specification[ char::is_digit ](c: char, radix: u32) -> (b: bool)
    requires
        radix == 10,
    ensures
        b == ('0' <= c && c <= '9'),
;

/// `String::push`. Claimed, as its documentation says: the character is
/// appended at the end of the string.
pub assume_specification[ String::push ](s: &mut String, ch: char)
    ensures
        final(s)@ == old(s)@.push(ch),
;

} // verus!
