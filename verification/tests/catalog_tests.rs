use junkyard_tracker::models::SearchRequest;
use junkyard_tracker::pick_n_pull::PicknPullSearch;
use junkyard_tracker::search::{build_search_request, make_search_response, parse_u32, plan_search};

const BASE: &str = "https://www.picknpull.com/check-inventory/vehicle-search";

#[test]
fn generate_url_formats_all_parameters() {
    let c = PicknPullSearch::new();
    let url = c.generate_url(226, 4154, "95014", 50, (2000, 2006));
    assert_eq!(
        url,
        format!("{}?make=226&model=4154&distance=50&zip=95014&year=2000-2006", BASE)
    );
}

#[test]
fn generate_search_url_resolves_names_case_insensitively() {
    let c = PicknPullSearch::new();
    let url = c.generate_search_url("Subaru", "Impreza Wagon", "95014", 50, (2000, 2006));
    assert_eq!(
        url.as_deref(),
        Ok(format!("{}?make=226&model=4154&distance=50&zip=95014&year=2000-2006", BASE).as_str())
    );
}

#[test]
fn unsupported_make_is_reported() {
    let c = PicknPullSearch::new();
    let r = c.generate_search_url("Yugo", "45", "95014", 50, (1985, 1990));
    assert_eq!(r, Err("Unsupported make: Yugo".to_string()));
}

#[test]
fn unsupported_model_is_reported() {
    let c = PicknPullSearch::new();
    let r = c.generate_search_url("Subaru", "Baja", "95014", 50, (2003, 2006));
    assert_eq!(r, Err("Unsupported model: Subaru Baja".to_string()));
}

#[test]
fn stock_subaru_search_uses_fixed_identifiers() {
    let c = PicknPullSearch::new();
    let url = c.subaru_impreza_wagon_search("95014", 25);
    assert_eq!(
        url,
        format!("{}?make=226&model=4154&distance=25&zip=95014&year=2000-2006", BASE)
    );
}

#[test]
fn supported_makes_lists_the_catalog() {
    let c = PicknPullSearch::new();
    let makes = c.get_supported_makes();
    assert_eq!(makes.len(), 10);
    assert!(makes.iter().any(|m| m == "subaru"));
    assert!(makes.iter().any(|m| m == "volkswagen"));
}

#[test]
fn supported_models_filter_by_make() {
    let c = PicknPullSearch::new();
    let models = c.get_supported_models_for_make("SUBARU");
    assert_eq!(
        models,
        vec!["impreza", "impreza wagon", "outback", "forester", "legacy", "wrx"]
    );
    let none = c.get_supported_models_for_make("yugo");
    assert!(none.is_empty());
}

#[test]
fn parse_u32_accepts_digits_only() {
    assert_eq!(parse_u32("0"), Some(0));
    assert_eq!(parse_u32("2005"), Some(2005));
    assert_eq!(parse_u32("4294967295"), Some(u32::MAX));
    assert_eq!(parse_u32("4294967296"), None);
    assert_eq!(parse_u32(""), None);
    assert_eq!(parse_u32("12a"), None);
    assert_eq!(parse_u32("-5"), None);
}

#[test]
fn build_search_request_reports_first_missing_parameter() {
    let r = build_search_request(None, None, None, None, None, None);
    assert_eq!(r.err().as_deref(), Some("Missing 'make' parameter"));
    let r = build_search_request(Some("subaru".into()), None, None, None, None, None);
    assert_eq!(r.err().as_deref(), Some("Missing 'model' parameter"));
    let r = build_search_request(Some("subaru".into()), Some("outback".into()), None, None, None, None);
    assert_eq!(r.err().as_deref(), Some("Missing or invalid 'year_min' parameter"));
    let r = build_search_request(
        Some("subaru".into()),
        Some("outback".into()),
        Some("199x".into()),
        None,
        None,
        None,
    );
    assert_eq!(r.err().as_deref(), Some("Missing or invalid 'year_min' parameter"));
    let r = build_search_request(
        Some("subaru".into()),
        Some("outback".into()),
        Some("1999".into()),
        Some("".into()),
        None,
        None,
    );
    assert_eq!(r.err().as_deref(), Some("Missing or invalid 'year_max' parameter"));
    let r = build_search_request(
        Some("subaru".into()),
        Some("outback".into()),
        Some("1999".into()),
        Some("2004".into()),
        None,
        None,
    );
    assert_eq!(r.err().as_deref(), Some("Missing 'zip_code' parameter"));
}

#[test]
fn build_search_request_assembles_the_request() {
    let r = build_search_request(
        Some("Subaru".into()),
        Some("Outback".into()),
        Some("1999".into()),
        Some("2004".into()),
        Some("95014".into()),
        Some("not-a-number".into()),
    )
    .unwrap();
    assert_eq!(r.make, "Subaru");
    assert_eq!(r.model, "Outback");
    assert_eq!(r.year_min, 1999);
    assert_eq!(r.year_max, 2004);
    assert_eq!(r.zip_code, "95014");
    // An unparsable distance falls back to the default at planning time.
    assert_eq!(r.distance, None);
}

#[test]
fn plan_search_rejects_inverted_year_range() {
    let c = PicknPullSearch::new();
    let req = SearchRequest {
        make: "subaru".into(),
        model: "outback".into(),
        year_min: 2010,
        year_max: 2000,
        zip_code: "95014".into(),
        distance: None,
    };
    let r = plan_search(&c, &req);
    assert_eq!(r, Err("year_min cannot be greater than year_max".to_string()));
}

#[test]
fn plan_search_defaults_distance_to_fifty_miles() {
    let c = PicknPullSearch::new();
    let req = SearchRequest {
        make: "Toyota".into(),
        model: "RAV4".into(),
        year_min: 2001,
        year_max: 2005,
        zip_code: "94601".into(),
        distance: None,
    };
    let url = plan_search(&c, &req).unwrap();
    assert_eq!(
        url,
        format!("{}?make=251&model=6212&distance=50&zip=94601&year=2001-2005", BASE)
    );
}

#[test]
fn plan_search_reports_unknown_make() {
    let c = PicknPullSearch::new();
    let req = SearchRequest {
        make: "Yugo".into(),
        model: "45".into(),
        year_min: 1985,
        year_max: 1990,
        zip_code: "95014".into(),
        distance: None,
    };
    let r = plan_search(&c, &req);
    assert_eq!(r, Err("Unsupported make: Yugo".to_string()));
}

#[test]
fn search_response_counts_its_vehicles() {
    let req = SearchRequest {
        make: "subaru".into(),
        model: "outback".into(),
        year_min: 1999,
        year_max: 2004,
        zip_code: "95014".into(),
        distance: Some(25),
    };
    let resp = make_search_response(Vec::new(), req);
    assert!(resp.success);
    assert_eq!(resp.total_found, 0);
    assert_eq!(resp.vehicles.len(), 0);
    assert_eq!(resp.search_params.zip_code, "95014");
}
