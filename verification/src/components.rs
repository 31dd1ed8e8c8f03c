//! Heuristic extraction of labeled URL parts from a
//! `scheme://domain/path?query` shape.

use vstd::prelude::*;

use crate::codec::URLEncoder;
use vstd::string::StrSliceExecFns;
use vstd::string::StringExecFns;

verus! {

/// The position of the first `://` in a text, if any.
pub open spec fn find_scheme_sep(s: Seq<char>) -> Option<int>
    decreases s.len(),
{
    if s.len() < 3 {
        None
    } else if s[0] == ':' && s[1] == '/' && s[2] == '/' {
        Some(0)
    } else {
        match find_scheme_sep(s.drop_first()) {
            Some(i) => Some(i + 1),
            None => None,
        }
    }
}

/// The position of the first occurrence of a character in a text, if any.
pub open spec fn find_char(s: Seq<char>, c: char) -> Option<int>
    decreases s.len(),
{
    if s.len() == 0 {
        None
    } else if s[0] == c {
        Some(0)
    } else {
        match find_char(s.drop_first(), c) {
            Some(i) => Some(i + 1),
            None => None,
        }
    }
}

/// The labeled parts of a URL-like text, in discovery order: Protocol and
/// Domain, then Path and Query where present. A text without `://` yields
/// the single entry `URL: Not a valid URL format`.
pub open spec fn components_text(s: Seq<char>) -> Seq<Seq<char>> {
    match find_scheme_sep(s) {
        None => seq!["URL: Not a valid URL format"@],
        Some(p) => {
            let protocol = s.subrange(0, p);
            let rest = s.subrange(p + 3, s.len() as int);
            let head = seq!["Protocol: "@ + protocol];
            match find_char(rest, '/') {
                None => head + seq!["Domain: "@ + rest],
                Some(sl) => {
                    let domain = rest.subrange(0, sl);
                    let path_query = rest.subrange(sl, rest.len() as int);
                    let head2 = head + seq!["Domain: "@ + domain];
                    match find_char(path_query, '?') {
                        None => head2 + seq!["Path: "@ + path_query],
                        Some(q) => head2 + seq![
                            "Path: "@ + path_query.subrange(0, q),
                            "Query: "@ + path_query.subrange(q + 1, path_query.len() as int),
                        ],
                    }
                },
            }
        },
    }
}

/// Scans a text for its first `://`.
fn scheme_sep_position(text: &str) -> (r: Option<usize>)
    ensures
        match r {
            Some(p) => find_scheme_sep(text@) == Some(p as int) && p + 3 <= text@.len(),
            None => find_scheme_sep(text@) is None,
        },
{
    let n = text.unicode_len();
    let mut i: usize = 0;
    proof {
        assert(text@.subrange(0, n as int) =~= text@);
    }
    while i < n
        invariant
            i <= n,
            n == text@.len(),
            find_scheme_sep(text@) == match find_scheme_sep(text@.subrange(i as int, n as int)) {
                Some(j) => Some(i + j),
                None => None::<int>,
            },
        decreases n - i,
    {
        let ghost suffix = text@.subrange(i as int, n as int);
        proof {
            assert(suffix.drop_first() =~= text@.subrange(i + 1, n as int));
        }
        if n - i >= 3 && text.get_char(i) == ':' && text.get_char(i + 1) == '/' && text.get_char(
            i + 2,
        ) == '/' {
            proof {
                assert(suffix[0] == ':' && suffix[1] == '/' && suffix[2] == '/');
            }
            return Some(i);
        }
        i = i + 1;
    }
    None
}

/// Scans a text for the first occurrence of a character.
fn char_position(text: &str, c: char) -> (r: Option<usize>)
    ensures
        match r {
            Some(p) => find_char(text@, c) == Some(p as int) && p < text@.len(),
            None => find_char(text@, c) is None,
        },
{
    let n = text.unicode_len();
    let mut i: usize = 0;
    proof {
        assert(text@.subrange(0, n as int) =~= text@);
    }
    while i < n
        invariant
            i <= n,
            n == text@.len(),
            find_char(text@, c) == match find_char(text@.subrange(i as int, n as int), c) {
                Some(j) => Some(i + j),
                None => None::<int>,
            },
        decreases n - i,
    {
        let ghost suffix = text@.subrange(i as int, n as int);
        proof {
            assert(suffix.drop_first() =~= text@.subrange(i + 1, n as int));
        }
        if text.get_char(i) == c {
            proof {
                assert(suffix[0] == c);
            }
            return Some(i);
        }
        i = i + 1;
    }
    None
}

impl URLEncoder {
    /// Extract URL components.
    pub fn extract_components(&self) -> (r: Vec<String>)
        ensures
            r@.len() == components_text(self.input@).len(),
            forall|i: int| 0 <= i < r@.len() ==> r@[i]@ == components_text(self.input@)[i],
    {
        let text = self.input.as_str();
        let n = text.unicode_len();
        let mut components: Vec<String> = Vec::new();
        match scheme_sep_position(text) {
            None => {
                components.push(String::from_str("URL: Not a valid URL format"));
            },
            Some(p) => {
                let mut protocol_entry = String::from_str("Protocol: ");
                protocol_entry.append(text.substring_char(0, p));
                components.push(protocol_entry);
                let rest = text.substring_char(p + 3, n);
                let rest_len = rest.unicode_len();
                match char_position(rest, '/') {
                    None => {
                        let mut domain_entry = String::from_str("Domain: ");
                        domain_entry.append(rest);
                        components.push(domain_entry);
                    },
                    Some(sl) => {
                        let mut domain_entry = String::from_str("Domain: ");
                        domain_entry.append(rest.substring_char(0, sl));
                        components.push(domain_entry);
                        let path_query = rest.substring_char(sl, rest_len);
                        let pq_len = path_query.unicode_len();
                        match char_position(path_query, '?') {
                            None => {
                                let mut path_entry = String::from_str("Path: ");
                                path_entry.append(path_query);
                                components.push(path_entry);
                            },
                            Some(q) => {
                                let mut path_entry = String::from_str("Path: ");
                                path_entry.append(path_query.substring_char(0, q));
                                components.push(path_entry);
                                let mut query_entry = String::from_str("Query: ");
                                query_entry.append(path_query.substring_char(q + 1, pq_len));
                                components.push(query_entry);
                            },
                        }
                    },
                }
            },
        }
        components
    }
}

} // verus!
