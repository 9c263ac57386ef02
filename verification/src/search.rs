//! The decisions behind the search endpoints: request assembly from raw
//! query parameters, request validation, and response assembly.

use vstd::prelude::*;
use vstd::string::*;
use crate::models::{JunkyardItem, SearchRequest, SearchResponse};
use crate::pick_n_pull::{assoc_make, assoc_model, url_spec, PicknPullSearch};
use crate::text::{is_digit, lower_seq, to_chars};
use crate::date::dval;

verus! {

/// The numeric value of a digit string, most significant digit first.
pub open spec fn digits_value(s: Seq<char>) -> int
    decreases s.len()
{
    if s.len() == 0 {
        0
    } else {
        10 * digits_value(s.drop_last()) + dval(s[s.len() - 1])
    }
}

pub open spec fn all_digits(s: Seq<char>) -> bool {
    forall|j: int| 0 <= j < s.len() ==> is_digit(#[trigger] s[j])
}

/// What a numeric parameter denotes: a non-empty all-digit string whose
/// value fits in 32 bits, else nothing.
pub open spec fn parse_u32_spec(s: Seq<char>) -> Option<u32> {
    if s.len() > 0 && all_digits(s) && digits_value(s) <= u32::MAX {
        Some(digits_value(s) as u32)
    } else {
        None
    }
}

/// What an optional numeric parameter denotes.
pub open spec fn opt_u32(o: Option<String>) -> Option<u32> {
    match o {
        None => None,
        Some(s) => parse_u32_spec(s@),
    }
}

pub proof fn lemma_digits_value_nonneg(s: Seq<char>)
    requires
        all_digits(s),
    ensures
        digits_value(s) >= 0,
    decreases s.len(),
{
    if s.len() > 0 {
        assert(all_digits(s.drop_last()));
        lemma_digits_value_nonneg(s.drop_last());
    }
}

pub proof fn lemma_digits_prefix_bound(s: Seq<char>, j: int)
    requires
        all_digits(s),
        0 <= j <= s.len(),
    ensures
        digits_value(s.subrange(0, j)) <= digits_value(s),
    decreases s.len() - j,
{
    if j == s.len() {
        assert(s.subrange(0, j) =~= s);
    } else {
        let a = s.subrange(0, j);
        let b = s.subrange(0, j + 1);
        assert(b.drop_last() =~= a);
        assert(all_digits(a));
        lemma_digits_value_nonneg(a);
        lemma_digits_prefix_bound(s, j + 1);
    }
}

/// Parses a decimal parameter: non-empty, digits only, fitting in 32 bits.
pub fn parse_u32(s: &str) -> (r: Option<u32>)
    ensures
        match r {
            Some(v) => parse_u32_spec(s@) == Some(v),
            None => parse_u32_spec(s@) is None,
        },
{
    let v = to_chars(s);
    if v.len() == 0 {
        return None;
    }
    let mut acc: u64 = 0;
    let mut j: usize = 0;
    while j < v.len()
        invariant
            j <= v.len(),
            v@ == s@,
            all_digits(v@.subrange(0, j as int)),
            acc == digits_value(v@.subrange(0, j as int)),
            acc <= u32::MAX,
        decreases v.len() - j,
    {
        let c = v[j];
        if !('0' <= c && c <= '9') {
            return None;
        }
        let d: u64 = (c as u64) - 48;
        proof {
            assert(v@.subrange(0, j + 1).drop_last() =~= v@.subrange(0, j as int));
            assert(v@.subrange(0, j + 1)[j as int] == v@[j as int]);
            assert(all_digits(v@.subrange(0, j + 1)));
        }
        let next: u64 = acc * 10 + d;
        if next > 0xffff_ffff {
            proof {
                assert(digits_value(v@.subrange(0, j + 1)) > u32::MAX);
                if all_digits(v@) {
                    lemma_digits_prefix_bound(v@, j + 1);
                }
            }
            return None;
        }
        acc = next;
        j = j + 1;
    }
    proof {
        assert(v@.subrange(0, v@.len() as int) =~= v@);
    }
    Some(acc as u32)
}

/// Assembles a search request from raw query parameters, reporting the
/// first missing or invalid one as the endpoint does.
pub fn build_search_request(
    make: Option<String>,
    model: Option<String>,
    year_min: Option<String>,
    year_max: Option<String>,
    zip_code: Option<String>,
    distance: Option<String>,
) -> (r: Result<SearchRequest, String>)
    ensures
        match make {
            None => r matches Err(e) && e@ == "Missing 'make' parameter"@,
            Some(mk) => match model {
                None => r matches Err(e) && e@ == "Missing 'model' parameter"@,
                Some(md) => match opt_u32(year_min) {
                    None => r matches Err(e) && e@ == "Missing or invalid 'year_min' parameter"@,
                    Some(ymin) => match opt_u32(year_max) {
                        None => r matches Err(e) && e@
                            == "Missing or invalid 'year_max' parameter"@,
                        Some(ymax) => match zip_code {
                            None => r matches Err(e) && e@ == "Missing 'zip_code' parameter"@,
                            Some(z) => r matches Ok(req) && req.make == mk && req.model == md
                                && req.year_min == ymin && req.year_max == ymax && req.zip_code
                                == z && req.distance == opt_u32(distance),
                        },
                    },
                },
            },
        },
{
    let mk = match make {
        None => {
            return Err(String::from_str("Missing 'make' parameter"));
        },
        Some(mk) => mk,
    };
    let md = match model {
        None => {
            return Err(String::from_str("Missing 'model' parameter"));
        },
        Some(md) => md,
    };
    let ymin = match year_min {
        None => {
            return Err(String::from_str("Missing or invalid 'year_min' parameter"));
        },
        Some(s) => match parse_u32(s.as_str()) {
            None => {
                return Err(String::from_str("Missing or invalid 'year_min' parameter"));
            },
            Some(v) => v,
        },
    };
    let ymax = match year_max {
        None => {
            return Err(String::from_str("Missing or invalid 'year_max' parameter"));
        },
        Some(s) => match parse_u32(s.as_str()) {
            None => {
                return Err(String::from_str("Missing or invalid 'year_max' parameter"));
            },
            Some(v) => v,
        },
    };
    let z = match zip_code {
        None => {
            return Err(String::from_str("Missing 'zip_code' parameter"));
        },
        Some(z) => z,
    };
    let dist = match distance {
        None => None,
        Some(s) => parse_u32(s.as_str()),
    };
    Ok(
        SearchRequest {
            make: mk,
            model: md,
            year_min: ymin,
            year_max: ymax,
            zip_code: z,
            distance: dist,
        },
    )
}

/// Validates a search request and plans the search URL: rejects an
/// inverted year range, defaults the radius to 50 miles, and resolves the
/// names through the catalog.
pub fn plan_search(catalog: &PicknPullSearch, req: &SearchRequest) -> (r: Result<String, String>)
    ensures
        req.year_min > req.year_max ==> (r matches Err(e) && e@
            == "year_min cannot be greater than year_max"@),
        req.year_min <= req.year_max ==> ({
            let d = match req.distance {
                Some(d0) => d0,
                None => 50u32,
            };
            match assoc_make(catalog.makes(), lower_seq(req.make@)) {
                None => r matches Err(e) && e@ == "Unsupported make: "@ + req.make@,
                Some(make_id) => match assoc_model(
                    catalog.models(),
                    lower_seq(req.make@),
                    lower_seq(req.model@),
                ) {
                    None => r matches Err(e) && e@ == "Unsupported model: "@ + req.make@ + " "@
                        + req.model@,
                    Some(model_id) => r matches Ok(u) && u@ == url_spec(
                        catalog.base(),
                        make_id,
                        model_id,
                        d,
                        req.zip_code@,
                        req.year_min,
                        req.year_max,
                    ),
                },
            }
        }),
{
    if req.year_min > req.year_max {
        return Err(String::from_str("year_min cannot be greater than year_max"));
    }
    let d = match req.distance {
        Some(d0) => d0,
        None => 50,
    };
    catalog.generate_search_url(
        req.make.as_str(),
        req.model.as_str(),
        req.zip_code.as_str(),
        d,
        (req.year_min, req.year_max),
    )
}

/// Assembles the success envelope around a list of vehicles: the count
/// always equals the number of vehicles carried.
pub fn make_search_response(vehicles: Vec<JunkyardItem>, request: SearchRequest) -> (r:
    SearchResponse)
    ensures
        r.success == true,
        r.vehicles == vehicles,
        r.search_params == request,
        r.total_found == vehicles@.len(),
{
    let n = vehicles.len();
    SearchResponse { success: true, vehicles, search_params: request, total_found: n }
}

} // verus!
