//! The extraction pipeline: page classification, the pipe-delimited table
//! extractor, the free-text fallback extractor, and record assembly.

use vstd::prelude::*;
use crate::date::{date_value, dval, parse_set_date};
use crate::location::{location_of, location_of_chars};
use crate::models::{item_matches, opt_view, JunkyardItem, RecordModel};
use crate::text::{
    chars_to_string, contains_ex, contains_seq, find_char_ex, find_char_from, find_ex, find_from,
    ident_seq, is_alpha, is_digit, is_ws, lemma_find_char_from, lemma_find_from, lemma_run_end,
    lower_seq,
    map_ident, map_lower, map_underscore, matches_at_ex, run_end, run_end_ex, subvec, to_chars,
    trim_ex, trim_spec, underscore_seq, vec_eq, CharClass,
};

verus! {

/// The upstream "no inventory" marker.
pub open spec fn no_vehicles_marker() -> Seq<char> {
    "### No Vehicles Found"@
}

/// The results-section marker.
pub open spec fn matching_marker() -> Seq<char> {
    "## Matching Vehicles"@
}

/// The stand-in used when location enrichment finds nothing.
pub open spec fn unknown_location() -> Seq<char> {
    "Unknown Location"@
}

/// The numeric value of a four-digit capture.
pub open spec fn four_digit_value(c: Seq<char>) -> int {
    1000 * dval(c[0]) + 100 * dval(c[1]) + 10 * dval(c[2]) + dval(c[3])
}

/// One table cell: the content strictly between the pipe at `p` and the
/// next pipe, which must be non-empty; yields the content and the position
/// of the closing pipe.
pub open spec fn cell_after(s: Seq<char>, p: int) -> Option<(Seq<char>, int)> {
    if !(0 <= p < s.len()) {
        None
    } else {
        match find_char_from(s, p + 1, '|') {
            None => None,
            Some(q) => if q <= p + 1 {
                None
            } else {
                Some((s.subrange(p + 1, q), q))
            },
        }
    }
}

/// Whether a year cell is well-formed: optional whitespace, exactly four
/// digits, optional whitespace.
pub open spec fn year_cell_ok(c: Seq<char>) -> bool {
    let a = run_end(c, 0, CharClass::Ws);
    &&& a + 4 <= c.len()
    &&& forall|j: int| a <= j < a + 4 ==> is_digit(#[trigger] c[j])
    &&& forall|j: int| a + 4 <= j < c.len() ==> is_ws(#[trigger] c[j])
}

/// The four-digit capture of a well-formed year cell.
pub open spec fn year_capture(c: Seq<char>) -> Seq<char> {
    let a = run_end(c, 0, CharClass::Ws);
    c.subrange(a, a + 4)
}

/// A table-row match: the six cell contents and the position just past the
/// closing pipe.
pub ghost struct RowMatch {
    pub photo: Seq<char>,
    pub year: Seq<char>,
    pub make: Seq<char>,
    pub model: Seq<char>,
    pub row: Seq<char>,
    pub set_date: Seq<char>,
    pub end: int,
}

/// The table-row pattern at position `i`: seven pipes delimiting six
/// non-empty cells, the second of which is a well-formed year cell.
pub open spec fn row_match_at(s: Seq<char>, i: int) -> Option<RowMatch> {
    if !(0 <= i < s.len() && s[i] == '|') {
        None
    } else {
        match cell_after(s, i) {
            None => None,
            Some((c1, p1)) => match cell_after(s, p1) {
                None => None,
                Some((c2, p2)) => match cell_after(s, p2) {
                    None => None,
                    Some((c3, p3)) => match cell_after(s, p3) {
                        None => None,
                        Some((c4, p4)) => match cell_after(s, p4) {
                            None => None,
                            Some((c5, p5)) => match cell_after(s, p5) {
                                None => None,
                                Some((c6, p6)) => if year_cell_ok(c2) {
                                    Some(
                                        RowMatch {
                                            photo: c1,
                                            year: c2,
                                            make: c3,
                                            model: c4,
                                            row: c5,
                                            set_date: c6,
                                            end: p6 + 1,
                                        },
                                    )
                                } else {
                                    None
                                },
                            },
                        },
                    },
                },
            },
        }
    }
}

/// The record a surviving table row yields, given the section's location
/// guess.
pub open spec fn row_record(m: RowMatch, loc: Option<Seq<char>>) -> RecordModel {
    let cap = year_capture(m.year);
    let mk = trim_spec(m.make);
    let md = trim_spec(m.model);
    let rw = trim_spec(m.row);
    let sd = trim_spec(m.set_date);
    RecordModel {
        id: cap + seq!['_'] + ident_seq(mk) + seq!['_'] + ident_seq(md) + seq!['_']
            + underscore_seq(rw),
        make: mk,
        model: md,
        year: four_digit_value(cap) as u32,
        location: "Row "@ + rw + ", "@ + match loc {
            Some(l) => l,
            None => unknown_location(),
        },
        date: date_value(sd),
    }
}

/// Whether a matched table row survives into a record: its year capture is
/// not the literal header text, and its make and model trim to non-empty.
pub open spec fn row_kept(m: RowMatch) -> bool {
    &&& year_capture(m.year) != "Year"@
    &&& trim_spec(m.make).len() > 0
    &&& trim_spec(m.model).len() > 0
}

/// The records of all table rows matched at or after `i`, scanning left to
/// right, non-overlapping, in document order.
pub open spec fn table_records_from(s: Seq<char>, i: int, loc: Option<Seq<char>>) -> Seq<
    RecordModel,
>
    decreases s.len() - i when 0 <= i <= s.len()
{
    if i >= s.len() {
        seq![]
    } else {
        match row_match_at(s, i) {
            None => table_records_from(s, i + 1, loc),
            Some(m) => if !(i < m.end <= s.len()) {
                seq![]
            } else {
                let rest = table_records_from(s, m.end, loc);
                if row_kept(m) {
                    seq![row_record(m, loc)] + rest
                } else {
                    rest
                }
            },
        }
    }
}

/// What the primary (table) strategy yields: nothing without the
/// results-section marker, else the records of the table in the section
/// from the marker on, enriched with that section's location guess.
pub open spec fn primary_records(s: Seq<char>) -> Seq<RecordModel> {
    match find_from(s, 0, matching_marker()) {
        None => seq![],
        Some(p) => if !(0 <= p <= s.len()) {
            seq![]
        } else {
            let sec = s.subrange(p, s.len() as int);
            table_records_from(sec, 0, location_of(sec))
        },
    }
}

/// Relies on chrono's `Utc::now`: the wall-clock time at the call, as
/// seconds since the Unix epoch.  Nothing is assumed about the value.
#[verifier::external_body]
fn current_epoch_seconds() -> i64 {
    chrono::Utc::now().timestamp()
}

/// Checks a year cell and returns its four-digit capture.
fn year_cell_ex(c: &Vec<char>) -> (r: Option<Vec<char>>)
    ensures
        match r {
            Some(cap) => year_cell_ok(c@) && cap@ == year_capture(c@) && cap@.len() == 4
                && forall|j: int| 0 <= j < 4 ==> is_digit(#[trigger] cap@[j]),
            None => !year_cell_ok(c@),
        },
{
    let a = run_end_ex(c, 0, CharClass::Ws);
    proof {
        lemma_run_end(c@, 0, CharClass::Ws);
    }
    if c.len() - a < 4 {
        return None;
    }
    let digits_ok = {
        let d0 = '0' <= c[a] && c[a] <= '9';
        let d1 = '0' <= c[a + 1] && c[a + 1] <= '9';
        let d2 = '0' <= c[a + 2] && c[a + 2] <= '9';
        let d3 = '0' <= c[a + 3] && c[a + 3] <= '9';
        d0 && d1 && d2 && d3
    };
    if !digits_ok {
        return None;
    }
    let tail = run_end_ex(c, a + 4, CharClass::Ws);
    proof {
        lemma_run_end(c@, a + 4, CharClass::Ws);
    }
    if tail != c.len() {
        return None;
    }
    let cap = crate::text::subvec(c, a, a + 4);
    proof {
        assert forall|j: int| a <= j < a + 4 implies is_digit(#[trigger] c@[j]) by {}
    }
    Some(cap)
}

/// Finds the closing pipe of the cell that opens at the pipe `p`.
fn cell_after_ex(t: &Vec<char>, p: usize) -> (r: Option<usize>)
    requires
        p < t.len(),
    ensures
        match r {
            Some(q) => cell_after(t@, p as int) == Some(
                (t@.subrange(p + 1, q as int), q as int),
            ) && p + 1 < q < t.len(),
            None => cell_after(t@, p as int) is None,
        },
{
    match find_char_ex(t, p + 1, '|') {
        None => None,
        Some(q) => {
            proof {
                lemma_find_char_from(t@, p + 1, '|');
            }
            if q <= p + 1 {
                None
            } else {
                Some(q)
            }
        },
    }
}

/// The concrete counterpart of a [`RowMatch`]: the cell contents a record
/// is assembled from, and where the match ends.
struct RowCellsEx {
    year_cap: Vec<char>,
    make: Vec<char>,
    model: Vec<char>,
    row: Vec<char>,
    set_date: Vec<char>,
    end: usize,
}

/// Matches the table-row pattern at position `i`.
fn row_match_ex(t: &Vec<char>, i: usize) -> (r: Option<RowCellsEx>)
    requires
        i < t.len(),
    ensures
        match r {
            Some(rm) => row_match_at(t@, i as int) matches Some(m) && rm.year_cap@
                == year_capture(m.year) && rm.make@ == m.make && rm.model@ == m.model && rm.row@
                == m.row && rm.set_date@ == m.set_date && rm.end == m.end && i < rm.end <= t.len()
                && rm.year_cap@.len() == 4 && (forall|j: int|
                0 <= j < 4 ==> is_digit(#[trigger] rm.year_cap@[j])),
            None => row_match_at(t@, i as int) is None,
        },
{
    if t[i] != '|' {
        return None;
    }
    let p1 = match cell_after_ex(t, i) {
        None => {
            return None;
        },
        Some(q) => q,
    };
    let p2 = match cell_after_ex(t, p1) {
        None => {
            return None;
        },
        Some(q) => q,
    };
    let p3 = match cell_after_ex(t, p2) {
        None => {
            return None;
        },
        Some(q) => q,
    };
    let p4 = match cell_after_ex(t, p3) {
        None => {
            return None;
        },
        Some(q) => q,
    };
    let p5 = match cell_after_ex(t, p4) {
        None => {
            return None;
        },
        Some(q) => q,
    };
    let p6 = match cell_after_ex(t, p5) {
        None => {
            return None;
        },
        Some(q) => q,
    };
    let year_cell = subvec(t, p1 + 1, p2);
    let cap = match year_cell_ex(&year_cell) {
        None => {
            return None;
        },
        Some(cap) => cap,
    };
    Some(
        RowCellsEx {
            year_cap: cap,
            make: subvec(t, p2 + 1, p3),
            model: subvec(t, p3 + 1, p4),
            row: subvec(t, p4 + 1, p5),
            set_date: subvec(t, p5 + 1, p6),
            end: p6 + 1,
        },
    )
}

/// Assembles the record of one surviving table row.
fn build_row_item(rm: &RowCellsEx, loc: &Option<Vec<char>>, Ghost(m): Ghost<RowMatch>) -> (it:
    JunkyardItem)
    requires
        rm.year_cap@ == year_capture(m.year),
        rm.make@ == m.make,
        rm.model@ == m.model,
        rm.row@ == m.row,
        rm.set_date@ == m.set_date,
        rm.year_cap@.len() == 4,
        forall|j: int| 0 <= j < 4 ==> is_digit(#[trigger] rm.year_cap@[j]),
    ensures
        item_matches(it, row_record(m, opt_view(*loc))),
{
    let make_t = trim_ex(&rm.make);
    let model_t = trim_ex(&rm.model);
    let row_t = trim_ex(&rm.row);
    let sd_t = trim_ex(&rm.set_date);
    let mut idv: Vec<char> = Vec::new();
    crate::text::push_all(&mut idv, &rm.year_cap);
    idv.push('_');
    let mk_id = map_ident(&make_t);
    crate::text::push_all(&mut idv, &mk_id);
    idv.push('_');
    let md_id = map_ident(&model_t);
    crate::text::push_all(&mut idv, &md_id);
    idv.push('_');
    let rw_id = map_underscore(&row_t);
    crate::text::push_all(&mut idv, &rw_id);
    let y: u32 = 1000 * ((rm.year_cap[0] as u32) - 48) + 100 * ((rm.year_cap[1] as u32) - 48)
        + 10 * ((rm.year_cap[2] as u32) - 48) + ((rm.year_cap[3] as u32) - 48);
    let mut lv = to_chars("Row ");
    crate::text::push_all(&mut lv, &row_t);
    lv.push(',');
    lv.push(' ');
    match loc {
        Some(v) => crate::text::push_all(&mut lv, v),
        None => {
            let u = to_chars("Unknown Location");
            crate::text::push_all(&mut lv, &u);
        },
    }
    let sd_s = chars_to_string(&sd_t);
    let added = match parse_set_date(sd_s.as_str()) {
        Some(ts) => ts,
        None => current_epoch_seconds(),
    };
    let it = JunkyardItem {
        id: chars_to_string(&idv),
        make: chars_to_string(&make_t),
        model: chars_to_string(&model_t),
        year: Some(y),
        location: Some(chars_to_string(&lv)),
        availability: true,
        added_date: added,
    };
    proof {
        reveal_strlit(", ");
        assert(idv@ =~= year_capture(m.year) + seq!['_'] + ident_seq(trim_spec(m.make))
            + seq!['_'] + ident_seq(trim_spec(m.model)) + seq!['_'] + underscore_seq(
            trim_spec(m.row),
        ));
        assert(lv@ =~= "Row "@ + trim_spec(m.row) + ", "@ + (match opt_view(*loc) {
            Some(l) => l,
            None => unknown_location(),
        }));
    }
    it
}

/// A free-text match: the captures of the inline vehicle pattern (the
/// model already trimmed, as the extractor stores it) and where the match
/// ends.
pub ghost struct FreeMatch {
    pub year: Seq<char>,
    pub make: Seq<char>,
    pub model: Seq<char>,
    pub row: Seq<char>,
    pub date: Seq<char>,
    pub end: int,
}

/// Whether position `k` inside the letters-and-whitespace region ending at
/// `r_end` can serve as the `Row` keyword of a free-text match whose model
/// capture starts at `a`: the literal `Row` there, whitespace just before
/// it, only whitespace between it and the digits at `r_end`, and at least
/// one model character before the separator.
pub open spec fn row_kw_at(s: Seq<char>, a: int, r_end: int, k: int) -> bool {
    &&& a + 2 <= k
    &&& k + 3 < r_end
    &&& r_end <= s.len()
    &&& s.subrange(k, k + 3) == "Row"@
    &&& is_ws(s[k - 1])
    &&& forall|j: int| k + 3 <= j < r_end ==> is_ws(#[trigger] s[j])
}

/// The greatest `Row`-keyword position at or below `k` (the model capture
/// is greedy, so the last workable keyword wins).
pub open spec fn find_row_kw(s: Seq<char>, a: int, r_end: int, k: int) -> Option<int>
    decreases k when k >= 0
{
    if a < 0 || k < a + 2 {
        None
    } else if row_kw_at(s, a, r_end, k) {
        Some(k)
    } else {
        find_row_kw(s, a, r_end, k - 1)
    }
}

/// The free-text vehicle pattern at position `i`: a four-digit year,
/// whitespace, a single alphabetic make token, a greedy letters-and-spaces
/// model run, the literal `Row` with a row number, and `Set:` with a date
/// token of digits and slashes.
pub open spec fn fb_match_at(s: Seq<char>, i: int) -> Option<FreeMatch> {
    if !(0 <= i && i + 4 <= s.len() && is_digit(s[i]) && is_digit(s[i + 1]) && is_digit(s[i + 2])
        && is_digit(s[i + 3])) {
        None
    } else {
        let w1 = run_end(s, i + 4, CharClass::Ws);
        if w1 == i + 4 {
            None
        } else {
            let mk_end = run_end(s, w1, CharClass::Alpha);
            if mk_end == w1 || !(mk_end < s.len() && is_ws(s[mk_end])) {
                None
            } else {
                let r_end = run_end(s, mk_end, CharClass::AlphaWs);
                let a = run_end(s, mk_end, CharClass::Ws);
                if !(r_end < s.len() && is_digit(s[r_end])) {
                    None
                } else {
                    match find_row_kw(s, a, r_end, r_end - 4) {
                        None => None,
                        Some(k) => {
                            let d_end = run_end(s, r_end, CharClass::Digit);
                            let w2 = run_end(s, d_end, CharClass::Ws);
                            if w2 == d_end || !(w2 + 4 <= s.len() && s.subrange(w2, w2 + 4)
                                == "Set:"@) {
                                None
                            } else {
                                let w3 = run_end(s, w2 + 4, CharClass::Ws);
                                let e = run_end(s, w3, CharClass::DateChar);
                                if e == w3 {
                                    None
                                } else {
                                    Some(
                                        FreeMatch {
                                            year: s.subrange(i, i + 4),
                                            make: s.subrange(w1, mk_end),
                                            model: trim_spec(s.subrange(a, k - 1)),
                                            row: s.subrange(r_end, d_end),
                                            date: s.subrange(w3, e),
                                            end: e,
                                        },
                                    )
                                }
                            }
                        },
                    }
                }
            }
        }
    }
}

/// The record a free-text match yields, given the page-wide location
/// guess.
pub open spec fn fb_record(m: FreeMatch, loc: Option<Seq<char>>) -> RecordModel {
    RecordModel {
        id: m.year + seq!['_'] + lower_seq(m.make) + seq!['_'] + ident_seq(m.model) + seq!['_']
            + m.row,
        make: m.make,
        model: m.model,
        year: four_digit_value(m.year) as u32,
        location: "Row "@ + m.row + ", "@ + match loc {
            Some(l) => l,
            None => unknown_location(),
        },
        date: date_value(m.date),
    }
}

/// The records of all free-text matches at or after `i`, scanning left to
/// right, non-overlapping, in document order.
pub open spec fn fb_records_from(s: Seq<char>, i: int, loc: Option<Seq<char>>) -> Seq<RecordModel>
    decreases s.len() - i when 0 <= i <= s.len()
{
    if i >= s.len() {
        seq![]
    } else {
        match fb_match_at(s, i) {
            None => fb_records_from(s, i + 1, loc),
            Some(m) => if !(i < m.end <= s.len()) {
                seq![]
            } else {
                seq![fb_record(m, loc)] + fb_records_from(s, m.end, loc)
            },
        }
    }
}

/// What the free-text fallback strategy yields over a whole page: one
/// location guess for the page, applied to every match.
pub open spec fn fallback_records(s: Seq<char>) -> Seq<RecordModel> {
    fb_records_from(s, 0, location_of(s))
}

/// What extraction yields for a page: nothing when the "no vehicles"
/// marker is present; else the primary table records, or the free-text
/// fallback records when the primary strategy produced none.
pub open spec fn extract_records(s: Seq<char>) -> Seq<RecordModel> {
    if contains_seq(s, no_vehicles_marker()) {
        seq![]
    } else {
        let prim = primary_records(s);
        if prim.len() > 0 {
            prim
        } else {
            fallback_records(s)
        }
    }
}

pub proof fn lemma_find_row_kw(s: Seq<char>, a: int, r_end: int, k: int)
    requires
        0 <= a,
        0 <= k,
    ensures
        match find_row_kw(s, a, r_end, k) {
            Some(kk) => a + 2 <= kk <= k && row_kw_at(s, a, r_end, kk),
            None => forall|j: int| a + 2 <= j <= k ==> !row_kw_at(s, a, r_end, j),
        },
    decreases k,
{
    if k >= a + 2 && !row_kw_at(s, a, r_end, k) {
        lemma_find_row_kw(s, a, r_end, k - 1);
    }
}

/// Executable test for [`row_kw_at`].
fn row_kw_at_ex(t: &Vec<char>, a: usize, r_end: usize, k: usize, row_pat: &Vec<char>) -> (r: bool)
    requires
        r_end <= t.len(),
        row_pat@ == "Row"@,
        row_pat@.len() == 3,
    ensures
        r == row_kw_at(t@, a as int, r_end as int, k as int),
{
    if !(a <= k && k - a >= 2 && k < r_end && r_end - k > 3) {
        return false;
    }
    if !matches_at_ex(t, k, row_pat) {
        return false;
    }
    if !crate::text::in_class_ex(CharClass::Ws, t[k - 1]) {
        return false;
    }
    let re = run_end_ex(t, k + 3, CharClass::Ws);
    proof {
        lemma_run_end(t@, k + 3, CharClass::Ws);
        if re < r_end {
            assert(!is_ws(t@[re as int]));
        }
    }
    re >= r_end
}

/// Finds the greedy `Row`-keyword position, scanning downward from `k0`.
fn find_row_kw_ex(t: &Vec<char>, a: usize, r_end: usize, k0: usize, row_pat: &Vec<char>) -> (r:
    Option<usize>)
    requires
        r_end <= t.len(),
        row_pat@ == "Row"@,
        row_pat@.len() == 3,
    ensures
        match r {
            Some(k) => find_row_kw(t@, a as int, r_end as int, k0 as int) == Some(k as int)
                && a + 2 <= k <= k0 && row_kw_at(t@, a as int, r_end as int, k as int),
            None => find_row_kw(t@, a as int, r_end as int, k0 as int) is None,
        },
{
    let mut k: usize = k0;
    loop
        invariant
            k <= k0,
            r_end <= t.len(),
            row_pat@ == "Row"@,
            row_pat@.len() == 3,
            find_row_kw(t@, a as int, r_end as int, k0 as int) == find_row_kw(
                t@,
                a as int,
                r_end as int,
                k as int,
            ),
        decreases k,
    {
        if k < a || k - a < 2 {
            return None;
        }
        if row_kw_at_ex(t, a, r_end, k, row_pat) {
            return Some(k);
        }
        k = k - 1;
    }
}

/// The concrete counterpart of a [`FreeMatch`].
struct FreeCellsEx {
    year: Vec<char>,
    make: Vec<char>,
    model: Vec<char>,
    row: Vec<char>,
    date: Vec<char>,
    end: usize,
}

/// Matches the free-text vehicle pattern at position `i`.
fn fb_match_ex(t: &Vec<char>, i: usize, row_pat: &Vec<char>, set_pat: &Vec<char>) -> (r: Option<
    FreeCellsEx,
>)
    requires
        i < t.len(),
        row_pat@ == "Row"@,
        row_pat@.len() == 3,
        set_pat@ == "Set:"@,
        set_pat@.len() == 4,
    ensures
        match r {
            Some(fm) => fb_match_at(t@, i as int) matches Some(m) && fm.year@ == m.year && fm.make@
                == m.make && fm.model@ == m.model && fm.row@ == m.row && fm.date@ == m.date
                && fm.end == m.end && i < fm.end <= t.len() && fm.year@.len() == 4 && (forall|
                j: int,
            |
                0 <= j < 4 ==> is_digit(#[trigger] fm.year@[j])),
            None => fb_match_at(t@, i as int) is None,
        },
{
    if t.len() - i < 4 {
        return None;
    }
    if !(('0' <= t[i] && t[i] <= '9') && ('0' <= t[i + 1] && t[i + 1] <= '9') && ('0' <= t[i + 2]
        && t[i + 2] <= '9') && ('0' <= t[i + 3] && t[i + 3] <= '9')) {
        return None;
    }
    let w1 = run_end_ex(t, i + 4, CharClass::Ws);
    proof {
        lemma_run_end(t@, i + 4, CharClass::Ws);
    }
    if w1 == i + 4 {
        return None;
    }
    let mk_end = run_end_ex(t, w1, CharClass::Alpha);
    proof {
        lemma_run_end(t@, w1 as int, CharClass::Alpha);
    }
    if mk_end == w1 {
        return None;
    }
    if !(mk_end < t.len() && crate::text::in_class_ex(CharClass::Ws, t[mk_end])) {
        return None;
    }
    let r_end = run_end_ex(t, mk_end, CharClass::AlphaWs);
    let a = run_end_ex(t, mk_end, CharClass::Ws);
    proof {
        lemma_run_end(t@, mk_end as int, CharClass::AlphaWs);
        lemma_run_end(t@, mk_end as int, CharClass::Ws);
    }
    if !(r_end < t.len() && '0' <= t[r_end] && t[r_end] <= '9') {
        return None;
    }
    let k = match find_row_kw_ex(t, a, r_end, r_end - 4, row_pat) {
        None => {
            return None;
        },
        Some(k) => k,
    };
    let d_end = run_end_ex(t, r_end, CharClass::Digit);
    proof {
        lemma_run_end(t@, r_end as int, CharClass::Digit);
    }
    let w2 = run_end_ex(t, d_end, CharClass::Ws);
    proof {
        lemma_run_end(t@, d_end as int, CharClass::Ws);
    }
    if w2 == d_end {
        return None;
    }
    if !(t.len() - w2 >= 4 && matches_at_ex(t, w2, set_pat)) {
        return None;
    }
    let w3 = run_end_ex(t, w2 + 4, CharClass::Ws);
    proof {
        lemma_run_end(t@, w2 + 4, CharClass::Ws);
    }
    let e = run_end_ex(t, w3, CharClass::DateChar);
    proof {
        lemma_run_end(t@, w3 as int, CharClass::DateChar);
    }
    if e == w3 {
        return None;
    }
    let model_raw = subvec(t, a, k - 1);
    let model_t = trim_ex(&model_raw);
    Some(
        FreeCellsEx {
            year: subvec(t, i, i + 4),
            make: subvec(t, w1, mk_end),
            model: model_t,
            row: subvec(t, r_end, d_end),
            date: subvec(t, w3, e),
            end: e,
        },
    )
}

/// Assembles the record of one free-text match.
fn build_fb_item(fm: &FreeCellsEx, loc: &Option<Vec<char>>, Ghost(m): Ghost<FreeMatch>) -> (it:
    JunkyardItem)
    requires
        fm.year@ == m.year,
        fm.make@ == m.make,
        fm.model@ == m.model,
        fm.row@ == m.row,
        fm.date@ == m.date,
        fm.year@.len() == 4,
        forall|j: int| 0 <= j < 4 ==> is_digit(#[trigger] fm.year@[j]),
    ensures
        item_matches(it, fb_record(m, opt_view(*loc))),
{
    let mut idv: Vec<char> = Vec::new();
    crate::text::push_all(&mut idv, &fm.year);
    idv.push('_');
    let mk_id = map_lower(&fm.make);
    crate::text::push_all(&mut idv, &mk_id);
    idv.push('_');
    let md_id = map_ident(&fm.model);
    crate::text::push_all(&mut idv, &md_id);
    idv.push('_');
    crate::text::push_all(&mut idv, &fm.row);
    let y: u32 = 1000 * ((fm.year[0] as u32) - 48) + 100 * ((fm.year[1] as u32) - 48) + 10 * ((
    fm.year[2] as u32) - 48) + ((fm.year[3] as u32) - 48);
    let mut lv = to_chars("Row ");
    crate::text::push_all(&mut lv, &fm.row);
    lv.push(',');
    lv.push(' ');
    match loc {
        Some(v) => crate::text::push_all(&mut lv, v),
        None => {
            let u = to_chars("Unknown Location");
            crate::text::push_all(&mut lv, &u);
        },
    }
    let sd_s = chars_to_string(&fm.date);
    let added = match parse_set_date(sd_s.as_str()) {
        Some(ts) => ts,
        None => current_epoch_seconds(),
    };
    let it = JunkyardItem {
        id: chars_to_string(&idv),
        make: chars_to_string(&fm.make),
        model: chars_to_string(&fm.model),
        year: Some(y),
        location: Some(chars_to_string(&lv)),
        availability: true,
        added_date: added,
    };
    proof {
        reveal_strlit(", ");
        assert(idv@ =~= m.year + seq!['_'] + lower_seq(m.make) + seq!['_'] + ident_seq(m.model)
            + seq!['_'] + m.row);
        assert(lv@ =~= "Row "@ + m.row + ", "@ + (match opt_view(*loc) {
            Some(l) => l,
            None => unknown_location(),
        }));
    }
    it
}

/// A suffix of a record sequence stepping past its head: the head is the
/// element at the cut, and the rest is the suffix one further on.
proof fn lemma_skip_step(full: Seq<RecordModel>, n: int, r: RecordModel, rest: Seq<RecordModel>)
    requires
        0 <= n <= full.len(),
        full.skip(n) == seq![r] + rest,
    ensures
        n < full.len(),
        full[n] == r,
        full.skip(n + 1) =~= rest,
{
    assert(full.skip(n).len() == full.len() - n);
    assert(full.skip(n)[0] == full[n]);
    assert(full[n] == r);
    assert forall|j: int| 0 <= j < rest.len() implies full.skip(n + 1)[j] == rest[j] by {
        assert(full.skip(n)[j + 1] == rest[j]);
        assert(full.skip(n + 1)[j] == full[n + 1 + j]);
        assert(full.skip(n)[j + 1] == full[n + j + 1]);
    }
    assert(full.skip(n + 1).len() == rest.len());
}

/// Scans the full text for the inline vehicle pattern; every record found
/// by this pass shares the one whole-text location guess (`source_url` is
/// accepted for interface compatibility and ignored).
pub fn parse_alternative_format(markdown: &str, source_url: &str) -> (items: Vec<JunkyardItem>)
    ensures
        items@.len() == fallback_records(markdown@).len(),
        forall|j: int|
            0 <= j < items@.len() ==> item_matches(
                #[trigger] items@[j],
                fallback_records(markdown@)[j],
            ),
{
    let t = to_chars(markdown);
    let loc = location_of_chars(&t);
    let ghost gloc = opt_view(loc);
    let row_pat = to_chars("Row");
    let set_pat = to_chars("Set:");
    let mut items: Vec<JunkyardItem> = Vec::new();
    proof {
        reveal_strlit("Row");
        reveal_strlit("Set:");
        assert(fb_records_from(t@, 0, gloc).skip(0) =~= fb_records_from(t@, 0, gloc));
    }
    let mut i: usize = 0;
    while i < t.len()
        invariant
            0 <= i <= t.len(),
            row_pat@ == "Row"@ && row_pat@.len() == 3,
            set_pat@ == "Set:"@ && set_pat@.len() == 4,
            gloc == opt_view(loc),
            location_of(t@) == gloc,
            items@.len() <= fb_records_from(t@, 0, gloc).len(),
            fb_records_from(t@, i as int, gloc) == fb_records_from(t@, 0, gloc).skip(
                items@.len() as int,
            ),
            forall|j: int|
                0 <= j < items@.len() ==> item_matches(
                    #[trigger] items@[j],
                    fb_records_from(t@, 0, gloc)[j],
                ),
        decreases t.len() - i,
    {
        match fb_match_ex(&t, i, &row_pat, &set_pat) {
            None => {
                assert(fb_records_from(t@, i as int, gloc) == fb_records_from(t@, i + 1, gloc));
                i = i + 1;
            },
            Some(fm) => {
                let ghost m = fb_match_at(t@, i as int)->Some_0;
                let it = build_fb_item(&fm, &loc, Ghost(m));
                proof {
                    assert(fb_records_from(t@, i as int, gloc) == seq![fb_record(m, gloc)]
                        + fb_records_from(t@, m.end, gloc));
                    lemma_skip_step(
                        fb_records_from(t@, 0, gloc),
                        items@.len() as int,
                        fb_record(m, gloc),
                        fb_records_from(t@, m.end, gloc),
                    );
                }
                let next = fm.end;
                items.push(it);
                i = next;
            },
        }
    }
    proof {
        assert(fb_records_from(t@, i as int, gloc) =~= Seq::<RecordModel>::empty());
        assert(fb_records_from(t@, 0, gloc).skip(items@.len() as int).len() == 0);
        assert(fb_records_from(t@, 0, gloc).len() == items@.len());
    }
    items
}

/// Extracts the inventory records of a scraped page.
///
/// A page carrying the "no vehicles" marker yields nothing.  Otherwise the
/// pipe-delimited table after the results-section marker is walked row by
/// row; if that contributes no records, the free-text fallback scans the
/// full original text.  The returned records realise
/// [`extract_records`]`(markdown@)` field for field; only a record whose
/// set date failed to parse carries a wall-clock stand-in instead of the
/// modelled date.
pub fn parse_junkyard_page(markdown: &str, source_url: &str) -> (items: Vec<JunkyardItem>)
    ensures
        items@.len() == extract_records(markdown@).len(),
        forall|j: int|
            0 <= j < items@.len() ==> item_matches(
                #[trigger] items@[j],
                extract_records(markdown@)[j],
            ),
{
    let t = to_chars(markdown);
    let no_veh = to_chars("### No Vehicles Found");
    if contains_ex(&t, &no_veh) {
        return Vec::new();
    }
    let matching = to_chars("## Matching Vehicles");
    let year_lit = to_chars("Year");
    let mut items: Vec<JunkyardItem> = Vec::new();
    match find_ex(&t, 0, &matching) {
        None => {
            proof {
                assert(primary_records(t@) =~= Seq::<RecordModel>::empty());
                assert(items@.len() == primary_records(t@).len());
            }
        },
        Some(p) => {
            let sec = subvec(&t, p, t.len());
            let loc = location_of_chars(&sec);
            let ghost gloc = opt_view(loc);
            proof {
                assert(primary_records(t@) == table_records_from(sec@, 0, gloc));
                assert(table_records_from(sec@, 0, gloc).skip(0) =~= table_records_from(
                    sec@,
                    0,
                    gloc,
                ));
            }
            let mut i: usize = 0;
            while i < sec.len()
                invariant
                    0 <= i <= sec.len(),
                    year_lit@ == "Year"@,
                    gloc == opt_view(loc),
                    location_of(sec@) == gloc,
                    items@.len() <= table_records_from(sec@, 0, gloc).len(),
                    table_records_from(sec@, i as int, gloc) == table_records_from(
                        sec@,
                        0,
                        gloc,
                    ).skip(items@.len() as int),
                    forall|j: int|
                        0 <= j < items@.len() ==> item_matches(
                            #[trigger] items@[j],
                            table_records_from(sec@, 0, gloc)[j],
                        ),
                decreases sec.len() - i,
            {
                match row_match_ex(&sec, i) {
                    None => {
                        assert(table_records_from(sec@, i as int, gloc) == table_records_from(
                            sec@,
                            i + 1,
                            gloc,
                        ));
                        i = i + 1;
                    },
                    Some(rm) => {
                        let ghost m = row_match_at(sec@, i as int)->Some_0;
                        let mk_t = trim_ex(&rm.make);
                        let md_t = trim_ex(&rm.model);
                        let keep = !vec_eq(&rm.year_cap, &year_lit) && mk_t.len() > 0
                            && md_t.len() > 0;
                        proof {
                            assert(keep == row_kept(m));
                        }
                        if keep {
                            let it = build_row_item(&rm, &loc, Ghost(m));
                            proof {
                                assert(table_records_from(sec@, i as int, gloc) == seq![
                                    row_record(m, gloc),
                                ] + table_records_from(sec@, m.end, gloc));
                                lemma_skip_step(
                                    table_records_from(sec@, 0, gloc),
                                    items@.len() as int,
                                    row_record(m, gloc),
                                    table_records_from(sec@, m.end, gloc),
                                );
                            }
                            items.push(it);
                        } else {
                            proof {
                                assert(table_records_from(sec@, i as int, gloc)
                                    == table_records_from(sec@, m.end, gloc));
                            }
                        }
                        i = rm.end;
                    },
                }
            }
            proof {
                assert(table_records_from(sec@, i as int, gloc) =~= Seq::<RecordModel>::empty());
                assert(table_records_from(sec@, 0, gloc).skip(items@.len() as int).len() == 0);
                assert(items@.len() == primary_records(t@).len());
            }
        },
    }
    if items.len() == 0 {
        return parse_alternative_format(markdown, source_url);
    }
    items
}

/// A page carrying the "no vehicles" marker yields no records, whatever
/// table-like content the text also holds.
pub proof fn lemma_no_vehicles_page_empty(s: Seq<char>)
    requires
        contains_seq(s, no_vehicles_marker()),
    ensures
        extract_records(s).len() == 0,
{
}

/// The header filter: the year capture of any matched table row is four
/// digits and therefore never the literal header text, and a row whose
/// capture were that text would not survive into the records.
pub proof fn lemma_header_row_excluded(s: Seq<char>, i: int, loc: Option<Seq<char>>)
    requires
        0 <= i <= s.len(),
    ensures
        row_match_at(s, i) matches Some(m) ==> year_capture(m.year) != "Year"@,
        (row_match_at(s, i) is Some && !row_kept(row_match_at(s, i)->Some_0) && i < row_match_at(
            s,
            i,
        )->Some_0.end <= s.len() && i < s.len()) ==> table_records_from(s, i, loc)
            == table_records_from(s, row_match_at(s, i)->Some_0.end, loc),
{
    reveal_strlit("Year");
    if row_match_at(s, i) is Some {
        let m = row_match_at(s, i)->Some_0;
        assert(year_cell_ok(m.year));
        let a = run_end(m.year, 0, CharClass::Ws);
        lemma_run_end(m.year, 0, CharClass::Ws);
        assert(is_digit(m.year[a]));
        assert(year_capture(m.year)[0] == m.year[a]);
        assert(!is_digit('Y'));
        if year_capture(m.year) == "Year"@ {
            assert(year_capture(m.year)[0] == 'Y');
        }
    }
}

/// The fields a record must carry: make and model are non-empty and
/// already trimmed, and the year is a four-digit value.
pub open spec fn essential_fields_ok(r: RecordModel) -> bool {
    &&& r.make.len() > 0
    &&& trim_spec(r.make) == r.make
    &&& r.model.len() > 0
    &&& trim_spec(r.model) == r.model
    &&& r.year <= 9999
}

proof fn lemma_table_records_wf(s: Seq<char>, i: int, loc: Option<Seq<char>>)
    requires
        0 <= i <= s.len(),
    ensures
        forall|j: int|
            0 <= j < table_records_from(s, i, loc).len() ==> essential_fields_ok(
                #[trigger] table_records_from(s, i, loc)[j],
            ),
    decreases s.len() - i,
{
    if i >= s.len() {
    } else {
        match row_match_at(s, i) {
            None => {
                lemma_table_records_wf(s, i + 1, loc);
                assert forall|j: int|
                    0 <= j < table_records_from(s, i, loc).len() implies essential_fields_ok(
                    #[trigger] table_records_from(s, i, loc)[j],
                ) by {
                    assert(table_records_from(s, i, loc)[j] == table_records_from(
                        s,
                        i + 1,
                        loc,
                    )[j]);
                }
            },
            Some(m) => {
                if !(i < m.end <= s.len()) {
                } else {
                    lemma_table_records_wf(s, m.end, loc);
                    if !row_kept(m) {
                        assert forall|j: int|
                            0 <= j < table_records_from(s, i, loc).len() implies
                            essential_fields_ok(#[trigger] table_records_from(s, i, loc)[j]) by {
                            assert(table_records_from(s, i, loc)[j] == table_records_from(
                                s,
                                m.end,
                                loc,
                            )[j]);
                        }
                    }
                    if row_kept(m) {
                        let r = row_record(m, loc);
                        crate::text::lemma_trim_idempotent(m.make);
                        crate::text::lemma_trim_idempotent(m.model);
                        assert(year_cell_ok(m.year));
                        let a = run_end(m.year, 0, CharClass::Ws);
                        lemma_run_end(m.year, 0, CharClass::Ws);
                        assert(forall|j: int|
                            0 <= j < 4 ==> is_digit(#[trigger] year_capture(m.year)[j]));
                        assert(four_digit_value(year_capture(m.year)) <= 9999);
                        assert(essential_fields_ok(r));
                        assert(forall|j: int|
                            0 <= j < table_records_from(s, i, loc).len() ==> essential_fields_ok(
                                #[trigger] table_records_from(s, i, loc)[j],
                            )) by {
                            let whole = table_records_from(s, i, loc);
                            let rest = table_records_from(s, m.end, loc);
                            assert(whole == seq![r] + rest);
                            assert forall|j: int| 0 <= j < whole.len() implies essential_fields_ok(
                                #[trigger] whole[j],
                            ) by {
                                if j == 0 {
                                    assert(whole[0] == r);
                                } else {
                                    assert(whole[j] == rest[j - 1]);
                                }
                            }
                        }
                    }
                }
            },
        }
    }
}

proof fn lemma_fb_match_wf(s: Seq<char>, i: int)
    requires
        0 <= i <= s.len(),
        fb_match_at(s, i) is Some,
    ensures
        ({
            let m = fb_match_at(s, i)->Some_0;
            &&& m.make.len() > 0
            &&& trim_spec(m.make) == m.make
            &&& m.model.len() > 0
            &&& trim_spec(m.model) == m.model
            &&& m.year.len() == 4
            &&& forall|j: int| 0 <= j < 4 ==> is_digit(#[trigger] m.year[j])
        }),
{
    let m = fb_match_at(s, i)->Some_0;
    let w1 = run_end(s, i + 4, CharClass::Ws);
    lemma_run_end(s, i + 4, CharClass::Ws);
    let mk_end = run_end(s, w1, CharClass::Alpha);
    lemma_run_end(s, w1, CharClass::Alpha);
    let r_end = run_end(s, mk_end, CharClass::AlphaWs);
    lemma_run_end(s, mk_end, CharClass::AlphaWs);
    let a = run_end(s, mk_end, CharClass::Ws);
    lemma_run_end(s, mk_end, CharClass::Ws);
    let k = find_row_kw(s, a, r_end, r_end - 4)->Some_0;
    lemma_find_row_kw(s, a, r_end, r_end - 4);
    // The make is a non-empty run of letters, so trimming keeps it whole.
    assert(m.make == s.subrange(w1, mk_end));
    assert(m.make.len() > 0);
    assert(is_alpha(m.make[0]) && is_alpha(m.make[m.make.len() - 1]));
    crate::text::lemma_trim_noop(m.make);
    // The model capture starts at a non-whitespace character, so it trims
    // to something non-empty; trimming is idempotent.
    let raw = s.subrange(a, k - 1);
    assert(a + 2 <= k);
    assert(raw.len() > 0);
    assert(raw[0] == s[a]);
    assert(a < s.len() && !is_ws(s[a]));
    crate::text::lemma_trim_props(raw);
    crate::text::lemma_trim_idempotent(raw);
    assert(m.model == trim_spec(raw));
    assert(m.year == s.subrange(i, i + 4));
    assert(forall|j: int| 0 <= j < 4 ==> is_digit(#[trigger] m.year[j]));
}

proof fn lemma_fb_records_wf(s: Seq<char>, i: int, loc: Option<Seq<char>>)
    requires
        0 <= i <= s.len(),
    ensures
        forall|j: int|
            0 <= j < fb_records_from(s, i, loc).len() ==> essential_fields_ok(
                #[trigger] fb_records_from(s, i, loc)[j],
            ),
    decreases s.len() - i,
{
    if i >= s.len() {
    } else {
        match fb_match_at(s, i) {
            None => {
                lemma_fb_records_wf(s, i + 1, loc);
                assert forall|j: int|
                    0 <= j < fb_records_from(s, i, loc).len() implies essential_fields_ok(
                    #[trigger] fb_records_from(s, i, loc)[j],
                ) by {
                    assert(fb_records_from(s, i, loc)[j] == fb_records_from(s, i + 1, loc)[j]);
                }
            },
            Some(m) => {
                if !(i < m.end <= s.len()) {
                } else {
                    lemma_fb_records_wf(s, m.end, loc);
                    lemma_fb_match_wf(s, i);
                    let r = fb_record(m, loc);
                    assert(four_digit_value(m.year) <= 9999);
                    assert(essential_fields_ok(r));
                    let whole = fb_records_from(s, i, loc);
                    let rest = fb_records_from(s, m.end, loc);
                    assert(whole == seq![r] + rest);
                    assert forall|j: int| 0 <= j < whole.len() implies essential_fields_ok(
                        #[trigger] whole[j],
                    ) by {
                        if j == 0 {
                            assert(whole[0] == r);
                        } else {
                            assert(whole[j] == rest[j - 1]);
                        }
                    }
                }
            },
        }
    }
}

/// Every record the extractor emits has a non-empty, already-trimmed make
/// and model and a four-digit year value, whichever strategy produced it.
pub proof fn lemma_essential_fields(s: Seq<char>)
    ensures
        forall|j: int|
            0 <= j < extract_records(s).len() ==> essential_fields_ok(
                #[trigger] extract_records(s)[j],
            ),
{
    if !contains_seq(s, no_vehicles_marker()) {
        match find_from(s, 0, matching_marker()) {
            None => {},
            Some(p) => {
                reveal_strlit("## Matching Vehicles");
                lemma_find_from(s, 0, matching_marker());
                let sec = s.subrange(p, s.len() as int);
                lemma_table_records_wf(sec, 0, location_of(sec));
            },
        }
        lemma_fb_records_wf(s, 0, location_of(s));
    }
}

} // verus!
