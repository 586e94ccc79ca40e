//! Small verified helpers for building strings, together with the two
//! standard-library functions they rely on, stated as trusted contracts
//! because vstd gives them no specification.

use vstd::prelude::*;

verus! {

/// Relies on `alloc::string::String::push`: appends one character at the
/// end of the string.
pub assume_specification[ std::string::String::push ](s: &mut String, c: char)
    ensures
        final(s)@ == old(s)@.push(c),
;

/// Relies on `char::from_u32`: returns the character with the given code
/// point exactly when the value is a Unicode scalar value (at most
/// 0x10FFFF and not a surrogate), and `None` otherwise.
pub assume_specification[ char::from_u32 ](u: u32) -> (r: Option<char>)
    ensures
        r is Some <==> (u < 0xD800 || (0xE000 <= u && u <= 0x10FFFF)),
        r is Some ==> r->0 as u32 == u,
;

/// The decimal digits of `n`, most significant first.
pub open spec fn dec_digits(n: nat) -> Seq<char>
    decreases n,
{
    if n < 10 {
        seq![((48 + n) as u32) as char]
    } else {
        dec_digits(n / 10).push(((48 + n % 10) as u32) as char)
    }
}

/// Formats `n` in decimal.
pub fn u32_to_decimal(n: u32) -> (r: String)
    ensures
        r@ == dec_digits(n as nat),
    decreases n,
{
    if n < 10 {
        let mut s = String::new();
        s.push((48 + n as u8) as char);
        s
    } else {
        let mut s = u32_to_decimal(n / 10);
        s.push((48 + (n % 10) as u8) as char);
        s
    }
}

} // verus!
