//! Character-level utilities shared by the extractors: character classes,
//! substring search, run scanning, trimming, lowercasing and decimal
//! rendering, each with an exact specification over `Seq<char>`.

use vstd::prelude::*;
use vstd::string::*;

verus! {

/// Character classes that the extraction patterns scan runs of.
#[derive(Clone, Copy, PartialEq, Eq, Structural)]
pub enum CharClass {
    /// ASCII whitespace: space, tab, newline, carriage return, vertical tab, form feed.
    Ws,
    /// ASCII decimal digits.
    Digit,
    /// ASCII letters.
    Alpha,
    /// ASCII letters or whitespace.
    AlphaWs,
    /// Characters a date token is made of: digits and `/`.
    DateChar,
}

pub open spec fn is_ws(c: char) -> bool {
    c == ' ' || c == '\t' || c == '\n' || c == '\r' || c == '\u{b}' || c == '\u{c}'
}

pub open spec fn is_digit(c: char) -> bool {
    '0' <= c && c <= '9'
}

pub open spec fn is_alpha(c: char) -> bool {
    ('A' <= c && c <= 'Z') || ('a' <= c && c <= 'z')
}

pub open spec fn in_class(cls: CharClass, c: char) -> bool {
    match cls {
        CharClass::Ws => is_ws(c),
        CharClass::Digit => is_digit(c),
        CharClass::Alpha => is_alpha(c),
        CharClass::AlphaWs => is_alpha(c) || is_ws(c),
        CharClass::DateChar => is_digit(c) || c == '/',
    }
}

/// Executable mirror of [`in_class`].
pub fn in_class_ex(cls: CharClass, c: char) -> (r: bool)
    ensures
        r == in_class(cls, c),
{
    match cls {
        CharClass::Ws => c == ' ' || c == '\t' || c == '\n' || c == '\r' || c == '\u{b}'
            || c == '\u{c}',
        CharClass::Digit => '0' <= c && c <= '9',
        CharClass::Alpha => ('A' <= c && c <= 'Z') || ('a' <= c && c <= 'z'),
        CharClass::AlphaWs => ('A' <= c && c <= 'Z') || ('a' <= c && c <= 'z') || c == ' '
            || c == '\t' || c == '\n' || c == '\r' || c == '\u{b}' || c == '\u{c}',
        CharClass::DateChar => ('0' <= c && c <= '9') || c == '/',
    }
}

/// The end of the run of `cls` characters that starts at `i`: the first
/// position at or after `i` holding a character outside the class.
pub open spec fn run_end(s: Seq<char>, i: int, cls: CharClass) -> int
    decreases s.len() - i when 0 <= i <= s.len()
{
    if i >= s.len() {
        i
    } else if in_class(cls, s[i]) {
        run_end(s, i + 1, cls)
    } else {
        i
    }
}

pub proof fn lemma_run_end(s: Seq<char>, i: int, cls: CharClass)
    requires
        0 <= i <= s.len(),
    ensures
        i <= run_end(s, i, cls) <= s.len(),
        forall|j: int| i <= j < run_end(s, i, cls) ==> in_class(cls, #[trigger] s[j]),
        run_end(s, i, cls) < s.len() ==> !in_class(cls, s[run_end(s, i, cls)]),
    decreases s.len() - i,
{
    if i < s.len() && in_class(cls, s[i]) {
        lemma_run_end(s, i + 1, cls);
    }
}

/// Executable run scan matching [`run_end`].
pub fn run_end_ex(s: &Vec<char>, i: usize, cls: CharClass) -> (r: usize)
    requires
        i <= s.len(),
    ensures
        r == run_end(s@, i as int, cls),
{
    let mut j: usize = i;
    while j < s.len() && in_class_ex(cls, s[j])
        invariant
            i <= j <= s.len(),
            run_end(s@, i as int, cls) == run_end(s@, j as int, cls),
        decreases s.len() - j,
    {
        j = j + 1;
    }
    j
}

/// The first position at or after `i` that holds the character `c`.
pub open spec fn find_char_from(s: Seq<char>, i: int, c: char) -> Option<int>
    decreases s.len() - i when 0 <= i <= s.len()
{
    if i >= s.len() {
        None
    } else if s[i] == c {
        Some(i)
    } else {
        find_char_from(s, i + 1, c)
    }
}

pub proof fn lemma_find_char_from(s: Seq<char>, i: int, c: char)
    requires
        0 <= i <= s.len(),
    ensures
        match find_char_from(s, i, c) {
            Some(j) => i <= j < s.len() && s[j] == c && forall|m: int|
                i <= m < j ==> #[trigger] s[m] != c,
            None => forall|m: int| i <= m < s.len() ==> #[trigger] s[m] != c,
        },
    decreases s.len() - i,
{
    if i < s.len() && s[i] != c {
        lemma_find_char_from(s, i + 1, c);
    }
}

/// Executable mirror of [`find_char_from`].
pub fn find_char_ex(s: &Vec<char>, i: usize, c: char) -> (r: Option<usize>)
    requires
        i <= s.len(),
    ensures
        match r {
            Some(j) => find_char_from(s@, i as int, c) == Some(j as int),
            None => find_char_from(s@, i as int, c) is None,
        },
{
    let mut j: usize = i;
    while j < s.len() && s[j] != c
        invariant
            i <= j <= s.len(),
            find_char_from(s@, i as int, c) == find_char_from(s@, j as int, c),
        decreases s.len() - j,
    {
        j = j + 1;
    }
    if j < s.len() {
        Some(j)
    } else {
        None
    }
}

/// Whether `pat` occurs in `s` starting exactly at position `i`.
pub open spec fn matches_at(s: Seq<char>, i: int, pat: Seq<char>) -> bool {
    0 <= i && i + pat.len() <= s.len() && s.subrange(i, i + pat.len()) == pat
}

/// The first position at or after `i` where a non-empty `pat` occurs in `s`.
pub open spec fn find_from(s: Seq<char>, i: int, pat: Seq<char>) -> Option<int>
    decreases s.len() - i when 0 <= i <= s.len()
{
    if pat.len() == 0 || i + pat.len() > s.len() {
        None
    } else if matches_at(s, i, pat) {
        Some(i)
    } else {
        find_from(s, i + 1, pat)
    }
}

/// Whether `pat` occurs anywhere in `s`.
pub open spec fn contains_seq(s: Seq<char>, pat: Seq<char>) -> bool {
    find_from(s, 0, pat) is Some
}

pub proof fn lemma_find_from(s: Seq<char>, i: int, pat: Seq<char>)
    requires
        0 <= i <= s.len(),
        pat.len() >= 1,
    ensures
        match find_from(s, i, pat) {
            Some(j) => i <= j && matches_at(s, j, pat),
            None => forall|m: int| i <= m ==> !matches_at(s, m, pat),
        },
    decreases s.len() - i,
{
    if i + pat.len() > s.len() {
        assert forall|m: int| i <= m implies !matches_at(s, m, pat) by {}
    } else if !matches_at(s, i, pat) {
        lemma_find_from(s, i + 1, pat);
    }
}

/// Executable test for [`matches_at`].
pub fn matches_at_ex(s: &Vec<char>, i: usize, pat: &Vec<char>) -> (r: bool)
    requires
        i <= s.len(),
    ensures
        r == matches_at(s@, i as int, pat@),
{
    if pat.len() > s.len() - i {
        return false;
    }
    let mut k: usize = 0;
    while k < pat.len()
        invariant
            0 <= k <= pat.len(),
            i + pat.len() <= s.len(),
            forall|m: int| 0 <= m < k ==> s@[i + m] == pat@[m],
        decreases pat.len() - k,
    {
        if s[i + k] != pat[k] {
            assert(s@.subrange(i as int, i + pat.len())[k as int] != pat@[k as int]);
            return false;
        }
        k = k + 1;
    }
    assert(s@.subrange(i as int, i + pat.len()) =~= pat@);
    true
}

/// Executable mirror of [`find_from`].
pub fn find_ex(s: &Vec<char>, i: usize, pat: &Vec<char>) -> (r: Option<usize>)
    requires
        i <= s.len(),
    ensures
        match r {
            Some(j) => find_from(s@, i as int, pat@) == Some(j as int) && j <= s.len(),
            None => find_from(s@, i as int, pat@) is None,
        },
{
    if pat.len() == 0 || pat.len() > s.len() || i > s.len() - pat.len() {
        return None;
    }
    let limit = s.len() - pat.len();
    let mut j: usize = i;
    while j <= limit
        invariant
            i <= j <= limit + 1,
            limit == s.len() - pat.len(),
            1 <= pat.len() <= s.len(),
            find_from(s@, i as int, pat@) == find_from(s@, j as int, pat@),
        decreases limit + 1 - j,
    {
        if matches_at_ex(s, j, pat) {
            return Some(j);
        }
        proof {
            assert(find_from(s@, j as int, pat@) == find_from(s@, j + 1, pat@));
        }
        j = j + 1;
    }
    None
}

/// Executable test for [`contains_seq`].
pub fn contains_ex(s: &Vec<char>, pat: &Vec<char>) -> (r: bool)
    ensures
        r == contains_seq(s@, pat@),
{
    find_ex(s, 0, pat).is_some()
}

/// `s` with its leading run of whitespace removed.
pub open spec fn trim_start(s: Seq<char>) -> Seq<char>
    decreases s.len()
{
    if s.len() > 0 && is_ws(s[0]) {
        trim_start(s.drop_first())
    } else {
        s
    }
}

/// `s` with its trailing run of whitespace removed.
pub open spec fn trim_end(s: Seq<char>) -> Seq<char>
    decreases s.len()
{
    if s.len() > 0 && is_ws(s[s.len() - 1]) {
        trim_end(s.drop_last())
    } else {
        s
    }
}

/// `s` with surrounding whitespace removed, as `str::trim` does for the
/// whitespace characters this crate's patterns use.
pub open spec fn trim_spec(s: Seq<char>) -> Seq<char> {
    trim_start(trim_end(s))
}

pub proof fn lemma_trim_start_index(s: Seq<char>, a: int)
    requires
        0 <= a <= s.len(),
        forall|j: int| 0 <= j < a ==> is_ws(#[trigger] s[j]),
        a < s.len() ==> !is_ws(s[a]),
    ensures
        trim_start(s) =~= s.subrange(a, s.len() as int),
    decreases s.len(),
{
    if s.len() > 0 && is_ws(s[0]) {
        assert(a > 0) by {
            if a == 0 {
                assert(!is_ws(s[0]));
            }
        }
        lemma_trim_start_index(s.drop_first(), a - 1);
        assert(s.drop_first().subrange(a - 1, s.drop_first().len() as int) =~= s.subrange(
            a,
            s.len() as int,
        ));
    } else {
        assert(a == 0) by {
            if a > 0 {
                assert(is_ws(s[0]));
            }
        }
        assert(s.subrange(0, s.len() as int) =~= s);
    }
}

pub proof fn lemma_trim_end_index(s: Seq<char>, b: int)
    requires
        0 <= b <= s.len(),
        forall|j: int| b <= j < s.len() ==> is_ws(#[trigger] s[j]),
        b > 0 ==> !is_ws(s[b - 1]),
    ensures
        trim_end(s) =~= s.subrange(0, b),
    decreases s.len(),
{
    if s.len() > 0 && is_ws(s[s.len() - 1]) {
        assert(b < s.len()) by {
            if b == s.len() {
                assert(is_ws(s[b - 1]));
            }
        }
        lemma_trim_end_index(s.drop_last(), b);
        assert(s.drop_last().subrange(0, b) =~= s.subrange(0, b));
    } else {
        assert(b == s.len()) by {
            if b < s.len() {
                assert(is_ws(s[s.len() - 1]));
            }
        }
        assert(s.subrange(0, s.len() as int) =~= s);
    }
}

pub proof fn lemma_trim_start_props(s: Seq<char>)
    ensures
        trim_start(s).len() <= s.len(),
        trim_start(s).len() > 0 ==> !is_ws(trim_start(s)[0]),
        trim_start(s).len() > 0 ==> s.len() > 0 && trim_start(s)[trim_start(s).len() - 1]
            == s[s.len() - 1],
    decreases s.len(),
{
    if s.len() > 0 && is_ws(s[0]) {
        lemma_trim_start_props(s.drop_first());
        assert(s.drop_first().len() > 0 ==> s.drop_first()[s.drop_first().len() - 1] == s[s.len()
            - 1]);
    }
}

pub proof fn lemma_trim_end_props(s: Seq<char>)
    ensures
        trim_end(s).len() <= s.len(),
        trim_end(s).len() > 0 ==> !is_ws(trim_end(s)[trim_end(s).len() - 1]),
        trim_end(s).len() > 0 ==> s.len() > 0 && trim_end(s)[0] == s[0],
        s.len() > 0 && !is_ws(s[0]) ==> trim_end(s).len() > 0,
    decreases s.len(),
{
    if s.len() > 0 && is_ws(s[s.len() - 1]) {
        lemma_trim_end_props(s.drop_last());
    }
}

/// A non-empty trimmed text neither starts nor ends with whitespace, and a
/// text that does not start with whitespace trims to something non-empty.
pub proof fn lemma_trim_props(s: Seq<char>)
    ensures
        trim_spec(s).len() <= s.len(),
        trim_spec(s).len() > 0 ==> !is_ws(trim_spec(s)[0]) && !is_ws(
            trim_spec(s)[trim_spec(s).len() - 1],
        ),
        s.len() > 0 && !is_ws(s[0]) ==> trim_spec(s).len() > 0,
{
    lemma_trim_end_props(s);
    lemma_trim_start_props(trim_end(s));
}

/// Trimming is idempotent.
pub proof fn lemma_trim_idempotent(s: Seq<char>)
    ensures
        trim_spec(trim_spec(s)) == trim_spec(s),
{
    lemma_trim_props(s);
    let t = trim_spec(s);
    assert(trim_end(t) == t);
    assert(trim_start(t) == t);
}

/// A text with no surrounding whitespace trims to itself.
pub proof fn lemma_trim_noop(s: Seq<char>)
    requires
        s.len() > 0 ==> !is_ws(s[0]) && !is_ws(s[s.len() - 1]),
    ensures
        trim_spec(s) == s,
{
    assert(trim_end(s) == s);
    assert(trim_start(s) == s);
}

/// Copies `s[from..to]` into a fresh vector.
pub fn subvec(s: &Vec<char>, from: usize, to: usize) -> (r: Vec<char>)
    requires
        from <= to <= s.len(),
    ensures
        r@ == s@.subrange(from as int, to as int),
{
    let mut r: Vec<char> = Vec::new();
    let mut j: usize = from;
    while j < to
        invariant
            from <= j <= to <= s.len(),
            r@ =~= s@.subrange(from as int, j as int),
        decreases to - j,
    {
        r.push(s[j]);
        assert(r@ =~= s@.subrange(from as int, j + 1));
        j = j + 1;
    }
    r
}

/// Trims surrounding whitespace, matching [`trim_spec`].
pub fn trim_ex(s: &Vec<char>) -> (r: Vec<char>)
    ensures
        r@ == trim_spec(s@),
{
    let a = run_end_ex(s, 0, CharClass::Ws);
    proof {
        lemma_run_end(s@, 0, CharClass::Ws);
    }
    if a == s.len() {
        proof {
            lemma_trim_end_index(s@, 0);
            lemma_trim_start_index(s@.subrange(0, 0), 0);
        }
        return Vec::new();
    }
    let mut b: usize = s.len();
    while b > a && in_class_ex(CharClass::Ws, s[b - 1])
        invariant
            a <= b <= s.len(),
            forall|j: int| b <= j < s.len() ==> is_ws(#[trigger] s@[j]),
        decreases b,
    {
        b = b - 1;
    }
    proof {
        lemma_trim_end_index(s@, b as int);
        let t = s@.subrange(0, b as int);
        lemma_trim_start_index(t, a as int);
        assert(t.subrange(a as int, t.len() as int) =~= s@.subrange(a as int, b as int));
    }
    subvec(s, a, b)
}

/// ASCII lowercasing of one character, the rule used for identifier synthesis.
pub open spec fn lower_char(c: char) -> char {
    if 'A' <= c && c <= 'Z' {
        (((c as u8) + 32) as char)
    } else {
        c
    }
}

/// The lowercased form of a text.
pub open spec fn lower_seq(s: Seq<char>) -> Seq<char> {
    s.map_values(|c: char| lower_char(c))
}

/// The character an identifier holds in place of `c`: spaces become
/// underscores, letters are lowercased.
pub open spec fn ident_char(c: char) -> char {
    if c == ' ' {
        '_'
    } else {
        lower_char(c)
    }
}

/// `s` lowercased with spaces replaced by underscores, the identifier form
/// of a make or model token.
pub open spec fn ident_seq(s: Seq<char>) -> Seq<char> {
    s.map_values(|c: char| ident_char(c))
}

/// `s` with spaces replaced by underscores (no case change), the identifier
/// form of a row label.
pub open spec fn underscore_seq(s: Seq<char>) -> Seq<char> {
    s.map_values(|c: char| if c == ' ' { '_' } else { c })
}

/// Executable mirror of [`lower_char`].
pub fn lower_char_ex(c: char) -> (r: char)
    ensures
        r == lower_char(c),
{
    if 'A' <= c && c <= 'Z' {
        ((c as u8) + 32) as char
    } else {
        c
    }
}

/// The characters of a text, in order, as a vector.
pub fn to_chars(s: &str) -> (r: Vec<char>)
    ensures
        r@ == s@,
{
    let n = s.unicode_len();
    let mut r: Vec<char> = Vec::new();
    let mut i: usize = 0;
    while i < n
        invariant
            i <= n,
            n == s@.len(),
            r@ == s@.subrange(0, i as int),
        decreases n - i,
    {
        r.push(s.get_char(i));
        assert(r@ =~= s@.subrange(0, i + 1));
        i = i + 1;
    }
    assert(s@.subrange(0, n as int) =~= s@);
    r
}

/// Relies on std's `String::push`: it appends the character to the end of
/// the string.
#[verifier::external_body]
fn push_char(s: &mut String, c: char)
    ensures
        final(s)@ == old(s)@.push(c),
{
    s.push(c);
}

/// Builds a string holding exactly the characters of `v`.
pub fn chars_to_string(v: &Vec<char>) -> (r: String)
    ensures
        r@ == v@,
{
    let mut r = String::new();
    let mut i: usize = 0;
    while i < v.len()
        invariant
            i <= v.len(),
            r@ == v@.subrange(0, i as int),
        decreases v.len() - i,
    {
        push_char(&mut r, v[i]);
        assert(r@ =~= v@.subrange(0, i + 1));
        i = i + 1;
    }
    assert(v@.subrange(0, v.len() as int) =~= v@);
    r
}

/// Executable mirror of [`lower_seq`].
pub fn map_lower(v: &Vec<char>) -> (r: Vec<char>)
    ensures
        r@ == lower_seq(v@),
{
    let mut r: Vec<char> = Vec::new();
    let mut i: usize = 0;
    while i < v.len()
        invariant
            i <= v.len(),
            r@.len() == i,
            forall|j: int| 0 <= j < i ==> r@[j] == lower_char(#[trigger] v@[j]),
        decreases v.len() - i,
    {
        r.push(lower_char_ex(v[i]));
        i = i + 1;
    }
    assert(r@ =~= lower_seq(v@));
    r
}

/// Executable mirror of [`ident_seq`].
pub fn map_ident(v: &Vec<char>) -> (r: Vec<char>)
    ensures
        r@ == ident_seq(v@),
{
    let mut r: Vec<char> = Vec::new();
    let mut i: usize = 0;
    while i < v.len()
        invariant
            i <= v.len(),
            r@.len() == i,
            forall|j: int| 0 <= j < i ==> r@[j] == ident_char(#[trigger] v@[j]),
        decreases v.len() - i,
    {
        if v[i] == ' ' {
            r.push('_');
        } else {
            r.push(lower_char_ex(v[i]));
        }
        i = i + 1;
    }
    assert(r@ =~= ident_seq(v@));
    r
}

/// Executable mirror of [`underscore_seq`].
pub fn map_underscore(v: &Vec<char>) -> (r: Vec<char>)
    ensures
        r@ == underscore_seq(v@),
{
    let mut r: Vec<char> = Vec::new();
    let mut i: usize = 0;
    while i < v.len()
        invariant
            i <= v.len(),
            r@.len() == i,
            forall|j: int| 0 <= j < i ==> r@[j] == (if v@[j] == ' ' {
                '_'
            } else {
                #[trigger] v@[j]
            }),
        decreases v.len() - i,
    {
        if v[i] == ' ' {
            r.push('_');
        } else {
            r.push(v[i]);
        }
        i = i + 1;
    }
    assert(r@ =~= underscore_seq(v@));
    r
}

/// Appends the characters of `v` to `out`.
pub fn push_all(out: &mut Vec<char>, v: &Vec<char>)
    ensures
        final(out)@ == old(out)@ + v@,
{
    let mut j: usize = 0;
    while j < v.len()
        invariant
            j <= v.len(),
            out@ == old(out)@ + v@.subrange(0, j as int),
        decreases v.len() - j,
    {
        out.push(v[j]);
        assert(out@ =~= old(out)@ + v@.subrange(0, j + 1));
        j = j + 1;
    }
    assert(old(out)@ + v@.subrange(0, v.len() as int) =~= old(out)@ + v@);
}

/// Tests two character vectors for equality.
pub fn vec_eq(a: &Vec<char>, b: &Vec<char>) -> (r: bool)
    ensures
        r == (a@ == b@),
{
    if a.len() != b.len() {
        return false;
    }
    let r = matches_at_ex(a, 0, b);
    proof {
        if r {
            assert(a@.subrange(0, a@.len() as int) =~= a@);
        } else {
            assert(a@.subrange(0, b@.len() as int) =~= a@);
        }
    }
    r
}

/// The character for the decimal digit `d`.
pub open spec fn dec_digit(d: int) -> char {
    ((48 + d) as u8) as char
}

/// The decimal rendering of `n`, without leading zeros (a single `0` for 0).
pub open spec fn dec_str(n: int) -> Seq<char>
    decreases n when n >= 0
{
    if n < 10 {
        seq![dec_digit(n)]
    } else {
        dec_str(n / 10).push(dec_digit(n % 10))
    }
}

/// Appends the decimal rendering of `n` to `out`.
pub fn push_dec_u32(out: &mut Vec<char>, n: u32)
    ensures
        final(out)@ == old(out)@ + dec_str(n as int),
    decreases n,
{
    if n < 10 {
        out.push(((48 + n) as u8) as char);
        assert(final(out)@ =~= old(out)@ + dec_str(n as int));
    } else {
        push_dec_u32(out, n / 10);
        out.push(((48 + (n % 10)) as u8) as char);
        assert(final(out)@ =~= old(out)@ + dec_str(n as int));
    }
}

} // verus!
