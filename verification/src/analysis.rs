//! Statistics over the input string and the fixed-format report.

use vstd::prelude::*;

use crate::classify::decimal_char;
use crate::classify::is_unreserved;
use crate::codec::URLEncoder;
use crate::codec::encoded;
use crate::text::decimal_digits;
use crate::text::push_char;
use vstd::string::StrSliceExecFns;
use vstd::string::StringExecFns;

verus! {

/// A character the analyzer does not count as special: an unreserved
/// character or one of the URL structural characters `/ ? & = :`.
pub open spec fn is_url_text_char(c: char) -> bool {
    is_unreserved(c) || c == '/' || c == '?' || c == '&' || c == '=' || c == ':'
}

/// How many characters of a text are special, that is, outside the
/// analyzer's allow-list.
pub open spec fn special_count(s: Seq<char>) -> nat
    decreases s.len(),
{
    if s.len() == 0 {
        0
    } else {
        (if is_url_text_char(s[0]) {
            0nat
        } else {
            1nat
        }) + special_count(s.drop_first())
    }
}

/// How many times a character occurs in a text.
pub open spec fn char_count(s: Seq<char>, c: char) -> nat
    decreases s.len(),
{
    if s.len() == 0 {
        0
    } else {
        (if s[0] == c {
            1nat
        } else {
            0nat
        }) + char_count(s.drop_first(), c)
    }
}

/// How many non-overlapping occurrences of `://` a text holds, counted left
/// to right.
pub open spec fn scheme_sep_count(s: Seq<char>) -> nat
    decreases s.len(),
{
    if s.len() < 3 {
        0
    } else if s[0] == ':' && s[1] == '/' && s[2] == '/' {
        1 + scheme_sep_count(s.subrange(3, s.len() as int))
    } else {
        scheme_sep_count(s.drop_first())
    }
}

/// The expansion ratio in hundredths of a percent, rounded half up: how far
/// the encoded length lies from the total length, relative to the total
/// length. Zero for an empty input; the magnitude alone, whatever the sign.
pub open spec fn ratio_hundredths(total: nat, encoded_len: nat) -> nat {
    if total == 0 {
        0
    } else if encoded_len >= total {
        (((encoded_len - total) * 10000 + total / 2) / total as int) as nat
    } else {
        (((total - encoded_len) * 10000 + total / 2) / total as int) as nat
    }
}

/// The expansion ratio rendered to two decimal places, with a leading `-`
/// where the encoded form is shorter than the input.
pub open spec fn ratio_text(total: nat, encoded_len: nat) -> Seq<char> {
    let h = ratio_hundredths(total, encoded_len);
    let sign: Seq<char> = if 0 < total && encoded_len < total {
        seq!['-']
    } else {
        Seq::<char>::empty()
    };
    sign + decimal_digits(h / 100) + seq!['.', decimal_char((h % 100) / 10), decimal_char(h % 10)]
}

/// URLAnalysis contains URL statistics.
#[derive(Debug, Clone, Copy, PartialEq, Eq)]
pub struct URLAnalysis {
    pub total_length: usize,
    pub encoded_length: usize,
    pub special_chars: usize,
    pub domains: usize,
    pub paths: usize,
    pub queries: usize,
}

/// The full text of the analysis report.
pub open spec fn report_text(a: URLAnalysis) -> Seq<char> {
    "URL Analysis Report\n====================\nOriginal Length: "@ + decimal_digits(
        a.total_length as nat,
    ) + "\nEncoded Length: "@ + decimal_digits(a.encoded_length as nat)
        + "\nExpansion Ratio: "@ + ratio_text(a.total_length as nat, a.encoded_length as nat)
        + "%\nSpecial Characters: "@ + decimal_digits(a.special_chars as nat)
        + "\nDomains Found: "@ + decimal_digits(a.domains as nat) + "\nPaths Found: "@
        + decimal_digits(a.paths as nat) + "\nQueries Found: "@ + decimal_digits(
        a.queries as nat,
    ) + "\n"@
}

/// Renders the expansion ratio to two decimal places.
fn ratio_string(total: usize, encoded_length: usize) -> (r: String)
    ensures
        r@ == ratio_text(total as nat, encoded_length as nat),
{
    let t = total as u128;
    let e = encoded_length as u128;
    let h: u128 = if t == 0 {
        0
    } else if e >= t {
        ((e - t) * 10000 + t / 2) / t
    } else {
        ((t - e) * 10000 + t / 2) / t
    };
    proof {
        assert(h == ratio_hundredths(total as nat, encoded_length as nat));
    }
    let mut r = String::new();
    if t > 0 && e < t {
        push_char(&mut r, '-');
    }
    let whole = crate::text::decimal_string(h / 100);
    r.append(whole.as_str());
    push_char(&mut r, '.');
    let frac = (h % 100) as u8;
    push_char(&mut r, crate::classify::decimal_digit_char(frac / 10));
    push_char(&mut r, crate::classify::decimal_digit_char(frac % 10));
    proof {
        let hn = ratio_hundredths(total as nat, encoded_length as nat);
        assert((frac / 10) as nat == (hn % 100) / 10);
        assert((frac % 10) as nat == hn % 10);
        assert(r@ =~= ratio_text(total as nat, encoded_length as nat));
    }
    r
}

impl URLAnalysis {
    /// Renders the fixed-format analysis report.
    pub fn report(&self) -> (r: String)
        ensures
            r@ == report_text(*self),
    {
        let mut r = String::from_str(
            "URL Analysis Report\n====================\nOriginal Length: ",
        );
        let total = crate::text::decimal_string(self.total_length as u128);
        r.append(total.as_str());
        r.append("\nEncoded Length: ");
        let enc = crate::text::decimal_string(self.encoded_length as u128);
        r.append(enc.as_str());
        r.append("\nExpansion Ratio: ");
        let ratio = ratio_string(self.total_length, self.encoded_length);
        r.append(ratio.as_str());
        r.append("%\nSpecial Characters: ");
        let special = crate::text::decimal_string(self.special_chars as u128);
        r.append(special.as_str());
        r.append("\nDomains Found: ");
        let domains = crate::text::decimal_string(self.domains as u128);
        r.append(domains.as_str());
        r.append("\nPaths Found: ");
        let paths = crate::text::decimal_string(self.paths as u128);
        r.append(paths.as_str());
        r.append("\nQueries Found: ");
        let queries = crate::text::decimal_string(self.queries as u128);
        r.append(queries.as_str());
        r.append("\n");
        r
    }
}

impl URLEncoder {
    /// Analyze URL components.
    pub fn analyze(&self) -> (r: URLAnalysis)
        ensures
            r.total_length == self.input@.len(),
            r.encoded_length == encoded(self.input@).len(),
            r.special_chars == special_count(self.input@),
            r.domains == scheme_sep_count(self.input@),
            r.paths == char_count(self.input@, '/'),
            r.queries == char_count(self.input@, '?'),
    {
        let text = self.input.as_str();
        let n = text.unicode_len();
        let encoded_form = self.encode();
        let encoded_length = encoded_form.as_str().unicode_len();
        let mut special: usize = 0;
        let mut paths: usize = 0;
        let mut queries: usize = 0;
        let mut i: usize = 0;
        proof {
            assert(text@.subrange(0, n as int) =~= text@);
        }
        while i < n
            invariant
                i <= n,
                n == text@.len(),
                text@ == self.input@,
                special <= i,
                paths <= i,
                queries <= i,
                special_count(text@) == special + special_count(
                    text@.subrange(i as int, n as int),
                ),
                char_count(text@, '/') == paths + char_count(
                    text@.subrange(i as int, n as int),
                    '/',
                ),
                char_count(text@, '?') == queries + char_count(
                    text@.subrange(i as int, n as int),
                    '?',
                ),
            decreases n - i,
        {
            let c = text.get_char(i);
            proof {
                let suffix = text@.subrange(i as int, n as int);
                assert(suffix[0] == c);
                assert(suffix.drop_first() =~= text@.subrange(i + 1, n as int));
            }
            if !crate::classify::unreserved(c) && c != '/' && c != '?' && c != '&' && c != '='
                && c != ':' {
                special = special + 1;
            }
            if c == '/' {
                paths = paths + 1;
            }
            if c == '?' {
                queries = queries + 1;
            }
            i = i + 1;
        }
        let mut domains: usize = 0;
        let mut j: usize = 0;
        proof {
            assert(text@.subrange(0, n as int) =~= text@);
        }
        while j < n
            invariant
                j <= n,
                n == text@.len(),
                text@ == self.input@,
                domains <= j,
                scheme_sep_count(text@) == domains + scheme_sep_count(
                    text@.subrange(j as int, n as int),
                ),
            decreases n - j,
        {
            let ghost suffix = text@.subrange(j as int, n as int);
            if n - j >= 3 && text.get_char(j) == ':' && text.get_char(j + 1) == '/'
                && text.get_char(j + 2) == '/' {
                proof {
                    assert(suffix[0] == ':' && suffix[1] == '/' && suffix[2] == '/');
                    assert(suffix.subrange(3, suffix.len() as int) =~= text@.subrange(
                        j + 3,
                        n as int,
                    ));
                }
                domains = domains + 1;
                j = j + 3;
            } else {
                proof {
                    assert(suffix.drop_first() =~= text@.subrange(j + 1, n as int));
                }
                j = j + 1;
            }
        }
        URLAnalysis {
            total_length: n,
            encoded_length,
            special_chars: special,
            domains,
            paths,
            queries,
        }
    }
}

} // verus!
