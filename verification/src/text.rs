//! String building helpers: appending single characters and rendering
//! numbers in decimal.

use vstd::prelude::*;

use crate::classify::decimal_char;

verus! {

/// Relies on String::push: appends the given character to the end of the
/// string.
#[verifier::external_body]
pub(crate) fn push_char(s: &mut String, c: char)
    ensures
        final (s)@ == old(s)@.push(c),
{
    s.push(c);
}

/// The decimal digits of a number, most significant first, with no leading
/// zeros (a single `0` for zero).
pub open spec fn decimal_digits(n: nat) -> Seq<char>
    decreases n,
{
    if n < 10 {
        seq![decimal_char(n)]
    } else {
        decimal_digits(n / 10) + seq![decimal_char(n % 10)]
    }
}

/// Renders a number in decimal.
pub fn decimal_string(n: u128) -> (r: String)
    ensures
        r@ == decimal_digits(n as nat),
    decreases n,
{
    if n < 10 {
        let mut r = String::new();
        push_char(&mut r, crate::classify::decimal_digit_char(n as u8));
        proof {
            assert(r@ =~= seq![decimal_char(n as nat)]);
        }
        r
    } else {
        let mut r = decimal_string(n / 10);
        push_char(&mut r, crate::classify::decimal_digit_char((n % 10) as u8));
        proof {
            assert(r@ =~= decimal_digits((n / 10) as nat) + seq![decimal_char((n % 10) as nat)]);
        }
        r
    }
}

} // verus!
