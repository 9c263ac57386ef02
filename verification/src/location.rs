//! Location enrichment: best-effort recovery of a facility name or a
//! street-address/city-state pair from the page text.

use vstd::prelude::*;
use crate::text::{
    CharClass, find_char_from, find_from, find_char_ex, find_ex, in_class, is_digit, is_ws,
    lemma_find_char_from, lemma_find_from, lemma_run_end, push_all, run_end, run_end_ex, subvec,
    to_chars, trim_ex, trim_spec,
};

verus! {

/// The facility-name marker.
pub open spec fn facility_marker() -> Seq<char> {
    "Pick-n-Pull - "@
}

/// First facility-name match at or after `i`: the marker followed by at
/// least one character, captured up to (not including) the next `]` or the
/// end of the text.  An occurrence with an empty capture is skipped.
pub open spec fn facility_from(s: Seq<char>, i: int) -> Option<Seq<char>>
    decreases s.len() - i when 0 <= i <= s.len()
{
    match find_from(s, i, facility_marker()) {
        None => None,
        Some(f) => {
            if !(i <= f && f + facility_marker().len() <= s.len()) {
                None
            } else {
                let c0 = f + facility_marker().len();
                let cend = match find_char_from(s, c0, ']') {
                    Some(q) => q,
                    None => s.len() as int,
                };
                if c0 < cend {
                    Some(s.subrange(c0, cend))
                } else {
                    facility_from(s, f + 1)
                }
            }
        },
    }
}

/// An address match starting exactly at `i`: digits, whitespace, then
/// arbitrary text up to a bullet, then a city/state fragment up to an
/// opening bracket; yields `"{address}, {city-state}"`, both parts trimmed.
pub open spec fn address_match_at(s: Seq<char>, i: int) -> Option<Seq<char>> {
    if !(0 <= i < s.len() && is_digit(s[i])) {
        None
    } else {
        let a = run_end(s, i, CharClass::Digit);
        match find_char_from(s, i, '•') {
            None => None,
            Some(q) => {
                if !(a < s.len() && is_ws(s[a]) && a + 2 <= q) {
                    None
                } else {
                    let r = q + 1;
                    let e = match find_char_from(s, r, '[') {
                        Some(b) => b,
                        None => s.len() as int,
                    };
                    if r < e {
                        Some(
                            trim_spec(s.subrange(i, q)) + seq![',', ' '] + trim_spec(
                                s.subrange(r, e),
                            ),
                        )
                    } else {
                        None
                    }
                }
            },
        }
    }
}

/// First address match at or after `i`.
pub open spec fn address_from(s: Seq<char>, i: int) -> Option<Seq<char>>
    decreases s.len() - i when 0 <= i <= s.len()
{
    if i >= s.len() {
        None
    } else {
        match address_match_at(s, i) {
            Some(r) => Some(r),
            None => address_from(s, i + 1),
        }
    }
}

/// What location enrichment recovers from a text: the facility-name
/// strategy first, the street-address strategy second, `None` if neither
/// pattern occurs.
pub open spec fn location_of(s: Seq<char>) -> Option<Seq<char>> {
    match facility_from(s, 0) {
        Some(c) => Some(c),
        None => address_from(s, 0),
    }
}

fn facility_location(t: &Vec<char>) -> (r: Option<Vec<char>>)
    ensures
        match r {
            Some(v) => facility_from(t@, 0) == Some(v@),
            None => facility_from(t@, 0) is None,
        },
{
    let pat = to_chars("Pick-n-Pull - ");
    let mut i: usize = 0;
    loop
        invariant
            0 <= i <= t.len(),
            pat@ == facility_marker(),
            facility_from(t@, 0) == facility_from(t@, i as int),
        decreases t.len() - i,
    {
        match find_ex(t, i, &pat) {
            None => {
                return None;
            },
            Some(f) => {
                proof {
                    lemma_find_from(t@, i as int, pat@);
                }
                let c0 = f + pat.len();
                let cend = match find_char_ex(t, c0, ']') {
                    Some(q) => q,
                    None => t.len(),
                };
                proof {
                    lemma_find_char_from(t@, c0 as int, ']');
                }
                if c0 < cend {
                    return Some(subvec(t, c0, cend));
                }
                i = f + 1;
            },
        }
    }
}

fn address_match_ex(t: &Vec<char>, i: usize) -> (r: Option<Vec<char>>)
    requires
        i < t.len(),
    ensures
        match r {
            Some(v) => address_match_at(t@, i as int) == Some(v@),
            None => address_match_at(t@, i as int) is None,
        },
{
    if !('0' <= t[i] && t[i] <= '9') {
        return None;
    }
    let a = run_end_ex(t, i, CharClass::Digit);
    proof {
        lemma_run_end(t@, i as int, CharClass::Digit);
    }
    match find_char_ex(t, i, '•') {
        None => {
            return None;
        },
        Some(q) => {
            proof {
                lemma_find_char_from(t@, i as int, '•');
            }
            let ws_ok = a < t.len() && {
                let c = t[a];
                c == ' ' || c == '\t' || c == '\n' || c == '\r' || c == '\u{b}' || c == '\u{c}'
            };
            if !(ws_ok && a + 2 <= q) {
                return None;
            }
            let r = q + 1;
            let e = match find_char_ex(t, r, '[') {
                Some(b) => b,
                None => t.len(),
            };
            proof {
                lemma_find_char_from(t@, r as int, '[');
            }
            if r < e {
                let part1 = subvec(t, i, q);
                let part2 = subvec(t, r, e);
                let mut out = trim_ex(&part1);
                out.push(',');
                out.push(' ');
                let t2 = trim_ex(&part2);
                push_all(&mut out, &t2);
                proof {
                    assert(out@ =~= trim_spec(t@.subrange(i as int, q as int)) + seq![',', ' ']
                        + trim_spec(t@.subrange(r as int, e as int)));
                }
                Some(out)
            } else {
                None
            }
        },
    }
}

fn address_location(t: &Vec<char>) -> (r: Option<Vec<char>>)
    ensures
        match r {
            Some(v) => address_from(t@, 0) == Some(v@),
            None => address_from(t@, 0) is None,
        },
{
    let mut i: usize = 0;
    while i < t.len()
        invariant
            0 <= i <= t.len(),
            address_from(t@, 0) == address_from(t@, i as int),
        decreases t.len() - i,
    {
        match address_match_ex(t, i) {
            Some(v) => {
                return Some(v);
            },
            None => {
                i = i + 1;
            },
        }
    }
    None
}

/// Location enrichment over a character vector.
pub fn location_of_chars(t: &Vec<char>) -> (r: Option<Vec<char>>)
    ensures
        match r {
            Some(v) => location_of(t@) == Some(v@),
            None => location_of(t@) is None,
        },
{
    match facility_location(t) {
        Some(v) => Some(v),
        None => address_location(t),
    }
}

/// Recovers a facility name (`"Pick-n-Pull - "` marker) or a
/// street-address/city-state pair from the text; `None` when neither
/// pattern occurs.
pub fn extract_location_from_markdown(markdown: &str) -> (r: Option<String>)
    ensures
        match r {
            Some(s) => location_of(markdown@) == Some(s@),
            None => location_of(markdown@) is None,
        },
{
    let t = to_chars(markdown);
    match location_of_chars(&t) {
        Some(v) => Some(crate::text::chars_to_string(&v)),
        None => None,
    }
}

} // verus!
