//! The search-URL catalog: known make and model identifiers and the
//! search-URL builder around them.

use vstd::prelude::*;
use vstd::string::*;
use crate::text::{
    chars_to_string, dec_str, lower_seq, map_lower, push_all, push_dec_u32, to_chars, vec_eq,
};

verus! {

/// The catalog of provider identifiers and the base search URL.
pub struct PicknPullSearch {
    base_url: String,
    make_map: Vec<(String, u32)>,
    model_map: Vec<(String, String, u32)>,
}

/// The key/identifier view of the make table.
pub open spec fn make_entries(v: Seq<(String, u32)>) -> Seq<(Seq<char>, u32)> {
    v.map_values(|p: (String, u32)| (p.0@, p.1))
}

/// The key/identifier view of the model table.
pub open spec fn model_entries(v: Seq<(String, String, u32)>) -> Seq<(Seq<char>, Seq<char>, u32)> {
    v.map_values(|p: (String, String, u32)| (p.0@, p.1@, p.2))
}

/// First-match association lookup in the make table.
pub open spec fn assoc_make(es: Seq<(Seq<char>, u32)>, k: Seq<char>) -> Option<u32>
    decreases es.len()
{
    if es.len() == 0 {
        None
    } else if es[0].0 == k {
        Some(es[0].1)
    } else {
        assoc_make(es.drop_first(), k)
    }
}

/// First-match association lookup in the model table.
pub open spec fn assoc_model(es: Seq<(Seq<char>, Seq<char>, u32)>, mk: Seq<char>, md: Seq<char>)
    -> Option<u32>
    decreases es.len()
{
    if es.len() == 0 {
        None
    } else if es[0].0 == mk && es[0].1 == md {
        Some(es[0].2)
    } else {
        assoc_model(es.drop_first(), mk, md)
    }
}

/// The models listed under a make, in table order.
pub open spec fn models_for(es: Seq<(Seq<char>, Seq<char>, u32)>, mk: Seq<char>) -> Seq<Seq<char>>
    decreases es.len()
{
    if es.len() == 0 {
        seq![]
    } else {
        (if es[0].0 == mk {
            seq![es[0].1]
        } else {
            seq![]
        }) + models_for(es.drop_first(), mk)
    }
}

/// The built-in make table.
pub open spec fn default_makes() -> Seq<(Seq<char>, u32)> {
    seq![
        ("subaru"@, 226u32),
        ("honda"@, 120u32),
        ("toyota"@, 251u32),
        ("nissan"@, 185u32),
        ("ford"@, 95u32),
        ("chevrolet"@, 58u32),
        ("bmw"@, 34u32),
        ("mercedes"@, 159u32),
        ("audi"@, 20u32),
        ("volkswagen"@, 273u32),
    ]
}

/// The built-in model table.
pub open spec fn default_models() -> Seq<(Seq<char>, Seq<char>, u32)> {
    seq![
        ("subaru"@, "impreza"@, 4153u32),
        ("subaru"@, "impreza wagon"@, 4154u32),
        ("subaru"@, "outback"@, 4164u32),
        ("subaru"@, "forester"@, 4157u32),
        ("subaru"@, "legacy"@, 4160u32),
        ("subaru"@, "wrx"@, 4170u32),
        ("honda"@, "civic"@, 2969u32),
        ("honda"@, "accord"@, 2960u32),
        ("honda"@, "cr-v"@, 2967u32),
        ("honda"@, "pilot"@, 2985u32),
        ("toyota"@, "camry"@, 6178u32),
        ("toyota"@, "corolla"@, 6182u32),
        ("toyota"@, "prius"@, 6209u32),
        ("toyota"@, "rav4"@, 6212u32),
        ("toyota"@, "4runner"@, 6165u32),
    ]
}

/// The base search URL.
pub open spec fn base_url_spec() -> Seq<char> {
    "https://www.picknpull.com/check-inventory/vehicle-search"@
}

/// The search URL built from a base, the two identifiers, a radius, a zip
/// code and a year range.
pub open spec fn url_spec(
    base: Seq<char>,
    make_id: u32,
    model_id: u32,
    distance: u32,
    zip: Seq<char>,
    year_min: u32,
    year_max: u32,
) -> Seq<char> {
    base + "?make="@ + dec_str(make_id as int) + "&model="@ + dec_str(model_id as int)
        + "&distance="@ + dec_str(distance as int) + "&zip="@ + zip + "&year="@ + dec_str(
        year_min as int,
    ) + "-"@ + dec_str(year_max as int)
}

fn lookup_make_ex(map: &Vec<(String, u32)>, key: &Vec<char>) -> (r: Option<u32>)
    ensures
        match r {
            Some(v) => assoc_make(make_entries(map@), key@) == Some(v),
            None => assoc_make(make_entries(map@), key@) is None,
        },
{
    let ghost es = make_entries(map@);
    proof {
        assert(es.skip(0) =~= es);
    }
    let mut j: usize = 0;
    while j < map.len()
        invariant
            j <= map.len(),
            es == make_entries(map@),
            es.len() == map.len(),
            assoc_make(es, key@) == assoc_make(es.skip(j as int), key@),
        decreases map.len() - j,
    {
        let e = &map[j];
        let ks = to_chars(e.0.as_str());
        proof {
            assert(es.skip(j as int)[0] == es[j as int]);
            assert(es[j as int] == (map@[j as int].0@, map@[j as int].1));
        }
        if vec_eq(&ks, key) {
            return Some(e.1);
        }
        proof {
            assert(es.skip(j as int).drop_first() =~= es.skip(j + 1));
        }
        j = j + 1;
    }
    proof {
        assert(es.skip(map.len() as int) =~= Seq::<(Seq<char>, u32)>::empty());
    }
    None
}

fn lookup_model_ex(map: &Vec<(String, String, u32)>, mk: &Vec<char>, md: &Vec<char>) -> (r: Option<
    u32,
>)
    ensures
        match r {
            Some(v) => assoc_model(model_entries(map@), mk@, md@) == Some(v),
            None => assoc_model(model_entries(map@), mk@, md@) is None,
        },
{
    let ghost es = model_entries(map@);
    proof {
        assert(es.skip(0) =~= es);
    }
    let mut j: usize = 0;
    while j < map.len()
        invariant
            j <= map.len(),
            es == model_entries(map@),
            es.len() == map.len(),
            assoc_model(es, mk@, md@) == assoc_model(es.skip(j as int), mk@, md@),
        decreases map.len() - j,
    {
        let e = &map[j];
        let ks = to_chars(e.0.as_str());
        let ms = to_chars(e.1.as_str());
        proof {
            assert(es.skip(j as int)[0] == es[j as int]);
            assert(es[j as int] == (map@[j as int].0@, map@[j as int].1@, map@[j as int].2));
        }
        if vec_eq(&ks, mk) && vec_eq(&ms, md) {
            return Some(e.2);
        }
        proof {
            assert(es.skip(j as int).drop_first() =~= es.skip(j + 1));
        }
        j = j + 1;
    }
    proof {
        assert(es.skip(map.len() as int) =~= Seq::<(Seq<char>, Seq<char>, u32)>::empty());
    }
    None
}

impl PicknPullSearch {
    /// The make table, as key/identifier pairs.
    pub closed spec fn makes(&self) -> Seq<(Seq<char>, u32)> {
        make_entries(self.make_map@)
    }

    /// The model table, as make-key/model-key/identifier triples.
    pub closed spec fn models(&self) -> Seq<(Seq<char>, Seq<char>, u32)> {
        model_entries(self.model_map@)
    }

    /// The stored base URL.
    pub closed spec fn base(&self) -> Seq<char> {
        self.base_url@
    }

    /// Builds the catalog with the built-in make and model tables.
    pub fn new() -> (s: Self)
        ensures
            s.base() == base_url_spec(),
            s.makes() == default_makes(),
            s.models() == default_models(),
    {
        let mut make_map: Vec<(String, u32)> = Vec::new();
        make_map.push((String::from_str("subaru"), 226));
        make_map.push((String::from_str("honda"), 120));
        make_map.push((String::from_str("toyota"), 251));
        make_map.push((String::from_str("nissan"), 185));
        make_map.push((String::from_str("ford"), 95));
        make_map.push((String::from_str("chevrolet"), 58));
        make_map.push((String::from_str("bmw"), 34));
        make_map.push((String::from_str("mercedes"), 159));
        make_map.push((String::from_str("audi"), 20));
        make_map.push((String::from_str("volkswagen"), 273));
        let mut model_map: Vec<(String, String, u32)> = Vec::new();
        model_map.push((String::from_str("subaru"), String::from_str("impreza"), 4153));
        model_map.push((String::from_str("subaru"), String::from_str("impreza wagon"), 4154));
        model_map.push((String::from_str("subaru"), String::from_str("outback"), 4164));
        model_map.push((String::from_str("subaru"), String::from_str("forester"), 4157));
        model_map.push((String::from_str("subaru"), String::from_str("legacy"), 4160));
        model_map.push((String::from_str("subaru"), String::from_str("wrx"), 4170));
        model_map.push((String::from_str("honda"), String::from_str("civic"), 2969));
        model_map.push((String::from_str("honda"), String::from_str("accord"), 2960));
        model_map.push((String::from_str("honda"), String::from_str("cr-v"), 2967));
        model_map.push((String::from_str("honda"), String::from_str("pilot"), 2985));
        model_map.push((String::from_str("toyota"), String::from_str("camry"), 6178));
        model_map.push((String::from_str("toyota"), String::from_str("corolla"), 6182));
        model_map.push((String::from_str("toyota"), String::from_str("prius"), 6209));
        model_map.push((String::from_str("toyota"), String::from_str("rav4"), 6212));
        model_map.push((String::from_str("toyota"), String::from_str("4runner"), 6165));
        let s = PicknPullSearch {
            base_url: String::from_str("https://www.picknpull.com/check-inventory/vehicle-search"),
            make_map,
            model_map,
        };
        proof {
            assert(s.makes() =~= default_makes());
            assert(s.models() =~= default_models());
        }
        s
    }

    /// Builds the search URL for explicit identifiers.
    pub fn generate_url(
        &self,
        make_id: u32,
        model_id: u32,
        zip: &str,
        distance: u32,
        years: (u32, u32),
    ) -> (r: String)
        ensures
            r@ == url_spec(self.base(), make_id, model_id, distance, zip@, years.0, years.1),
    {
        let mut v = to_chars(self.base_url.as_str());
        let q1 = to_chars("?make=");
        push_all(&mut v, &q1);
        push_dec_u32(&mut v, make_id);
        let q2 = to_chars("&model=");
        push_all(&mut v, &q2);
        push_dec_u32(&mut v, model_id);
        let q3 = to_chars("&distance=");
        push_all(&mut v, &q3);
        push_dec_u32(&mut v, distance);
        let q4 = to_chars("&zip=");
        push_all(&mut v, &q4);
        let zv = to_chars(zip);
        push_all(&mut v, &zv);
        let q5 = to_chars("&year=");
        push_all(&mut v, &q5);
        push_dec_u32(&mut v, years.0);
        let q6 = to_chars("-");
        push_all(&mut v, &q6);
        push_dec_u32(&mut v, years.1);
        proof {
            assert(v@ =~= url_spec(
                self.base(),
                make_id,
                model_id,
                distance,
                zip@,
                years.0,
                years.1,
            ));
        }
        chars_to_string(&v)
    }

    /// Resolves the make and model names (lowercased) through the catalog
    /// and builds the search URL; reports the first unknown name.
    pub fn generate_search_url(
        &self,
        make: &str,
        model: &str,
        zip: &str,
        distance: u32,
        years: (u32, u32),
    ) -> (r: Result<String, String>)
        ensures
            match assoc_make(self.makes(), lower_seq(make@)) {
                None => r matches Err(e) && e@ == "Unsupported make: "@ + make@,
                Some(make_id) => match assoc_model(
                    self.models(),
                    lower_seq(make@),
                    lower_seq(model@),
                ) {
                    None => r matches Err(e) && e@ == "Unsupported model: "@ + make@ + " "@
                        + model@,
                    Some(model_id) => r matches Ok(u) && u@ == url_spec(
                        self.base(),
                        make_id,
                        model_id,
                        distance,
                        zip@,
                        years.0,
                        years.1,
                    ),
                },
            },
    {
        let mk_chars = to_chars(make);
        let make_lower = map_lower(&mk_chars);
        let md_chars = to_chars(model);
        let model_lower = map_lower(&md_chars);
        let make_id = match lookup_make_ex(&self.make_map, &make_lower) {
            Some(id) => id,
            None => {
                let mut e = to_chars("Unsupported make: ");
                push_all(&mut e, &mk_chars);
                proof {
                    assert(e@ =~= "Unsupported make: "@ + make@);
                }
                return Err(chars_to_string(&e));
            },
        };
        let model_id = match lookup_model_ex(&self.model_map, &make_lower, &model_lower) {
            Some(id) => id,
            None => {
                let mut e = to_chars("Unsupported model: ");
                push_all(&mut e, &mk_chars);
                e.push(' ');
                push_all(&mut e, &md_chars);
                proof {
                    reveal_strlit(" ");
                    assert(e@ =~= "Unsupported model: "@ + make@ + " "@ + model@);
                }
                return Err(chars_to_string(&e));
            },
        };
        Ok(self.generate_url(make_id, model_id, zip, distance, years))
    }

    /// The stock search for a Subaru Impreza Wagon of the 2000-2006 years.
    pub fn subaru_impreza_wagon_search(&self, zip: &str, distance: u32) -> (r: String)
        ensures
            r@ == url_spec(self.base(), 226, 4154, distance, zip@, 2000, 2006),
    {
        self.generate_url(226, 4154, zip, distance, (2000, 2006))
    }

    /// The make names the catalog knows, in table order.
    pub fn get_supported_makes(&self) -> (r: Vec<String>)
        ensures
            r@.len() == self.makes().len(),
            forall|j: int| 0 <= j < r@.len() ==> (#[trigger] r@[j])@ == self.makes()[j].0,
    {
        let mut r: Vec<String> = Vec::new();
        let mut j: usize = 0;
        while j < self.make_map.len()
            invariant
                j <= self.make_map.len(),
                r@.len() == j,
                forall|m: int| 0 <= m < j ==> (#[trigger] r@[m])@ == self.makes()[m].0,
            decreases self.make_map.len() - j,
        {
            r.push(self.make_map[j].0.clone());
            j = j + 1;
        }
        r
    }

    /// The model names listed under a make (lowercased), in table order.
    pub fn get_supported_models_for_make(&self, make: &str) -> (r: Vec<String>)
        ensures
            r@.len() == models_for(self.models(), lower_seq(make@)).len(),
            forall|j: int|
                0 <= j < r@.len() ==> (#[trigger] r@[j])@ == models_for(
                    self.models(),
                    lower_seq(make@),
                )[j],
    {
        let mk_chars = to_chars(make);
        let key = map_lower(&mk_chars);
        let ghost es = self.models();
        let ghost goal = models_for(es, key@);
        let mut r: Vec<String> = Vec::new();
        let mut j: usize = 0;
        proof {
            assert(es.skip(0) =~= es);
        }
        while j < self.model_map.len()
            invariant
                j <= self.model_map.len(),
                es == self.models(),
                goal == models_for(es, key@),
                es.len() == self.model_map.len(),
                models_for(es, key@) == models_for_prefix(r@) + models_for(
                    es.skip(j as int),
                    key@,
                ),
                forall|m: int| 0 <= m < r@.len() ==> models_for_prefix(r@)[m] == (
                #[trigger] r@[m])@,
            decreases self.model_map.len() - j,
        {
            let e = &self.model_map[j];
            let ks = to_chars(e.0.as_str());
            proof {
                assert(es.skip(j as int)[0] == es[j as int]);
                assert(es[j as int] == (
                    self.model_map@[j as int].0@,
                    self.model_map@[j as int].1@,
                    self.model_map@[j as int].2,
                ));
                assert(es.skip(j as int).drop_first() =~= es.skip(j + 1));
            }
            if vec_eq(&ks, &key) {
                let ghost old_r = r@;
                r.push(e.1.clone());
                proof {
                    assert(models_for_prefix(r@) =~= models_for_prefix(old_r) + seq![
                        self.model_map@[j as int].1@,
                    ]);
                }
            }
            j = j + 1;
        }
        proof {
            assert(es.skip(self.model_map.len() as int) =~= Seq::<(Seq<char>, Seq<char>, u32)>::empty());
            assert(models_for_prefix(r@) == models_for(es, key@));
        }
        r
    }
}

/// The views of the strings collected so far.
pub open spec fn models_for_prefix(v: Seq<String>) -> Seq<Seq<char>> {
    v.map_values(|s: String| s@)
}

} // verus!
