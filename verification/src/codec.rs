//! The percent encoder and decoder.

use vstd::prelude::*;

use crate::classify::hex_upper;
use crate::classify::hex_value;
use crate::classify::is_hex_digit;
use crate::classify::is_unreserved;
use crate::classify::low_byte;
use crate::text::push_char;
use vstd::string::StrSliceExecFns;
use vstd::string::StringExecFns;

verus! {

/// Why a decode failed: a `%` with fewer than two characters after it, or a
/// `%` whose next two characters are not hexadecimal digits (the two
/// characters are carried along).
#[derive(Debug, Clone, Copy, PartialEq, Eq)]
pub enum DecodeError {
    TruncatedTriplet,
    InvalidHex(char, char),
}

/// The character a percent-triplet stands for: the byte named by its two
/// hexadecimal digits.
pub open spec fn triplet_char(h: char, l: char) -> char
    recommends
        is_hex_digit(h),
        is_hex_digit(l),
{
    (hex_value(h) * 16 + hex_value(l)) as char
}

/// The decoded form of a text, or the first error met scanning left to
/// right: `+` stands for a space, `%` must be followed by exactly two
/// hexadecimal digits and stands for the byte they name, and every other
/// character stands for itself.
pub open spec fn decoded(s: Seq<char>) -> Result<Seq<char>, DecodeError>
    decreases s.len(),
{
    if s.len() == 0 {
        Ok(Seq::empty())
    } else if s[0] == '%' {
        if s.len() < 3 {
            Err(DecodeError::TruncatedTriplet)
        } else if is_hex_digit(s[1]) && is_hex_digit(s[2]) {
            match decoded(s.subrange(3, s.len() as int)) {
                Ok(t) => Ok(seq![triplet_char(s[1], s[2])] + t),
                Err(e) => Err(e),
            }
        } else {
            Err(DecodeError::InvalidHex(s[1], s[2]))
        }
    } else {
        let c = if s[0] == '+' {
            ' '
        } else {
            s[0]
        };
        match decoded(s.drop_first()) {
            Ok(t) => Ok(seq![c] + t),
            Err(e) => Err(e),
        }
    }
}

/// The error message a failed decode reports.
pub open spec fn error_text(e: DecodeError) -> Seq<char> {
    match e {
        DecodeError::TruncatedTriplet => "Invalid percent encoding"@,
        DecodeError::InvalidHex(h, l) => "Invalid hex sequence: %"@ + seq![h, l],
    }
}

impl DecodeError {
    /// The human-readable reason for the failure.
    pub fn message(&self) -> (r: String)
        ensures
            r@ == error_text(*self),
    {
        match self {
            DecodeError::TruncatedTriplet => String::from_str("Invalid percent encoding"),
            DecodeError::InvalidHex(h, l) => {
                let mut r = String::from_str("Invalid hex sequence: %");
                let ghost r0 = r@;
                push_char(&mut r, *h);
                push_char(&mut r, *l);
                proof {
                    assert(r@ =~= r0 + seq![*h, *l]);
                }
                r
            },
        }
    }
}

/// What the encoder emits for one character: the character itself where it
/// is unreserved, `+` for a space, and otherwise `%` followed by the low
/// byte of the code point in uppercase hexadecimal.
pub open spec fn encoded_char(c: char) -> Seq<char> {
    if is_unreserved(c) {
        seq![c]
    } else if c == ' ' {
        seq!['+']
    } else {
        seq!['%', hex_upper(low_byte(c) / 16), hex_upper(low_byte(c) % 16)]
    }
}

/// The percent-encoded form of a text: each character encoded independently,
/// left to right.
pub open spec fn encoded(s: Seq<char>) -> Seq<char>
    decreases s.len(),
{
    if s.len() == 0 {
        Seq::empty()
    } else {
        encoded_char(s[0]) + encoded(s.drop_first())
    }
}

/// Performs percent-encoding, percent-decoding and structural analysis of
/// one input string.
pub struct URLEncoder {
    pub input: String,
}

impl URLEncoder {
    /// Wraps the input string.
    pub fn new(input: String) -> (r: URLEncoder)
        ensures
            r.input == input,
    {
        URLEncoder { input }
    }

    /// Encode string to URL-safe format.
    pub fn encode(&self) -> (r: String)
        ensures
            r@ == encoded(self.input@),
    {
        let text = self.input.as_str();
        let n = text.unicode_len();
        let mut r = String::new();
        let mut i: usize = 0;
        proof {
            assert(text@.subrange(0, n as int) =~= text@);
            assert(Seq::<char>::empty() + encoded(text@) =~= encoded(text@));
        }
        while i < n
            invariant
                i <= n,
                n == text@.len(),
                text@ == self.input@,
                encoded(text@) == r@ + encoded(text@.subrange(i as int, n as int)),
            decreases n - i,
        {
            let c = text.get_char(i);
            let ghost suffix = text@.subrange(i as int, n as int);
            let ghost rest = text@.subrange(i + 1, n as int);
            let ghost r0 = r@;
            proof {
                assert(suffix[0] == c);
                assert(suffix.drop_first() =~= rest);
                assert(encoded(suffix) == encoded_char(c) + encoded(rest));
            }
            if crate::classify::unreserved(c) {
                push_char(&mut r, c);
                proof {
                    assert(r@ =~= r0 + encoded_char(c));
                }
            } else if c == ' ' {
                push_char(&mut r, '+');
                proof {
                    assert(r@ =~= r0 + encoded_char(c));
                }
            } else {
                let u = c as u32;
                let b = (u % 256) as u8;
                proof {
                    assert(b == low_byte(c));
                }
                push_char(&mut r, '%');
                push_char(&mut r, crate::classify::hex_upper_char(b / 16));
                push_char(&mut r, crate::classify::hex_upper_char(b % 16));
                proof {
                    assert(r@ =~= r0 + encoded_char(c));
                }
            }
            i = i + 1;
            proof {
                assert(r0 + encoded(suffix) =~= (r0 + encoded_char(c)) + encoded(rest));
                assert(encoded(text@) == r@ + encoded(text@.subrange(i as int, n as int)));
            }
        }
        proof {
            assert(text@.subrange(n as int, n as int) =~= Seq::<char>::empty());
            assert(r@ + Seq::<char>::empty() =~= r@);
        }
        r
    }

    /// Decode URL-encoded string.
    pub fn decode(&self) -> (r: Result<String, DecodeError>)
        ensures
            match r {
                Ok(out) => decoded(self.input@) == Ok::<Seq<char>, DecodeError>(out@),
                Err(e) => decoded(self.input@) == Err::<Seq<char>, DecodeError>(e),
            },
    {
        let text = self.input.as_str();
        let n = text.unicode_len();
        let mut out = String::new();
        let mut i: usize = 0;
        proof {
            assert(text@.subrange(0, n as int) =~= text@);
            if decoded(text@) is Ok {
                assert(Seq::<char>::empty() + decoded(text@)->Ok_0 =~= decoded(text@)->Ok_0);
            }
        }
        while i < n
            invariant
                i <= n,
                n == text@.len(),
                text@ == self.input@,
                match decoded(text@.subrange(i as int, n as int)) {
                    Ok(t) => decoded(text@) == Ok::<Seq<char>, DecodeError>(out@ + t),
                    Err(e) => decoded(text@) == Err::<Seq<char>, DecodeError>(e),
                },
            decreases n - i,
        {
            let c = text.get_char(i);
            let ghost suffix = text@.subrange(i as int, n as int);
            let ghost out0 = out@;
            proof {
                assert(suffix[0] == c);
            }
            if c == '%' {
                if n - i < 3 {
                    return Err(DecodeError::TruncatedTriplet);
                }
                let h = text.get_char(i + 1);
                let l = text.get_char(i + 2);
                proof {
                    assert(suffix[1] == h);
                    assert(suffix[2] == l);
                }
                match (crate::classify::hex_digit_value(h), crate::classify::hex_digit_value(l)) {
                    (Some(hv), Some(lv)) => {
                        let b: u8 = hv * 16 + lv;
                        push_char(&mut out, b as char);
                        proof {
                            assert(b as char == triplet_char(h, l));
                            assert(suffix.subrange(3, suffix.len() as int) =~= text@.subrange(
                                i + 3,
                                n as int,
                            ));
                        }
                        i = i + 3;
                        proof {
                            let tail = text@.subrange(i as int, n as int);
                            assert(decoded(suffix) == match decoded(tail) {
                                Ok(t) => Ok::<Seq<char>, DecodeError>(
                                    seq![triplet_char(h, l)] + t,
                                ),
                                Err(e) => Err::<Seq<char>, DecodeError>(e),
                            });
                            if decoded(tail) is Ok {
                                assert(out0 + (seq![triplet_char(h, l)] + decoded(tail)->Ok_0)
                                    =~= out@ + decoded(tail)->Ok_0);
                            }
                        }
                    },
                    _ => {
                        return Err(DecodeError::InvalidHex(h, l));
                    },
                }
            } else {
                if c == '+' {
                    push_char(&mut out, ' ');
                } else {
                    push_char(&mut out, c);
                }
                proof {
                    assert(suffix.drop_first() =~= text@.subrange(i + 1, n as int));
                }
                i = i + 1;
                proof {
                    let tail = text@.subrange(i as int, n as int);
                    let ghost d = if c == '+' {
                        ' '
                    } else {
                        c
                    };
                    assert(decoded(suffix) == match decoded(tail) {
                        Ok(t) => Ok::<Seq<char>, DecodeError>(seq![d] + t),
                        Err(e) => Err::<Seq<char>, DecodeError>(e),
                    });
                    if decoded(tail) is Ok {
                        assert(out0 + (seq![d] + decoded(tail)->Ok_0) =~= out@ + decoded(
                            tail,
                        )->Ok_0);
                    }
                }
            }
        }
        proof {
            assert(text@.subrange(n as int, n as int) =~= Seq::<char>::empty());
            assert(out@ + Seq::<char>::empty() =~= out@);
        }
        Ok(out)
    }
}

/// Encoding a text that holds only unreserved characters returns it
/// unchanged.
pub proof fn lemma_encode_unreserved_identity(s: Seq<char>)
    requires
        forall|i: int| 0 <= i < s.len() ==> is_unreserved(#[trigger] s[i]),
    ensures
        encoded(s) == s,
    decreases s.len(),
{
    if s.len() == 0 {
        assert(encoded(s) =~= s);
    } else {
        lemma_encode_unreserved_identity(s.drop_first());
        assert(encoded_char(s[0]) == seq![s[0]]);
        assert(encoded(s) =~= s) by {
            assert(encoded(s) == seq![s[0]] + s.drop_first());
        }
    }
}

/// Encoding the empty text yields the empty text.
pub proof fn lemma_encode_empty()
    ensures
        encoded(Seq::<char>::empty()) == Seq::<char>::empty(),
{
}

/// Decoding inverts encoding on every text made of unreserved characters
/// and spaces.
pub proof fn lemma_round_trip(s: Seq<char>)
    requires
        forall|i: int| 0 <= i < s.len() ==> is_unreserved(#[trigger] s[i]) || s[i] == ' ',
    ensures
        decoded(encoded(s)) == Ok::<Seq<char>, DecodeError>(s),
    decreases s.len(),
{
    if s.len() == 0 {
        assert(s =~= Seq::<char>::empty());
    } else {
        let c = s[0];
        let rest = s.drop_first();
        lemma_round_trip(rest);
        let e = encoded(s);
        let er = encoded(rest);
        assert(e == encoded_char(c) + er);
        if is_unreserved(c) {
            assert(e[0] == c);
            assert(c != '%' && c != '+');
            assert(e.drop_first() =~= er);
            assert(decoded(e) == Ok::<Seq<char>, DecodeError>(seq![c] + rest));
            assert(seq![c] + rest =~= s);
        } else {
            assert(c == ' ');
            assert(e[0] == '+');
            assert(e.drop_first() =~= er);
            assert(decoded(e) == Ok::<Seq<char>, DecodeError>(seq![' '] + rest));
            assert(seq![' '] + rest =~= s);
        }
    }
}

} // verus!
