use junkyard_tracker::date::parse_set_date;
use junkyard_tracker::location::extract_location_from_markdown;

#[test]
fn both_date_formats_agree_on_the_instant() {
    let a = parse_set_date("04/02/2025");
    let b = parse_set_date("2025-04-02");
    assert_eq!(a, Some(1743552000));
    assert_eq!(a, b);
}

#[test]
fn slash_format_parses_to_midnight_utc() {
    assert_eq!(parse_set_date("01/01/1970"), Some(0));
    assert_eq!(parse_set_date("12/31/1969"), Some(-86400));
    assert_eq!(parse_set_date("01/15/2025"), Some(1736899200));
}

#[test]
fn dash_format_parses_to_midnight_utc() {
    assert_eq!(parse_set_date("2024-12-31"), Some(1735603200));
    assert_eq!(parse_set_date("1970-01-02"), Some(86400));
}

#[test]
fn leap_day_is_accepted_only_in_leap_years() {
    assert_eq!(parse_set_date("02/29/2024"), Some(1709164800));
    assert_eq!(parse_set_date("02/29/2025"), None);
    assert_eq!(parse_set_date("02/29/1900"), None);
    assert_eq!(parse_set_date("02/29/2000"), Some(951782400));
}

#[test]
fn malformed_dates_are_rejected() {
    assert_eq!(parse_set_date(""), None);
    assert_eq!(parse_set_date("soon"), None);
    assert_eq!(parse_set_date("13/01/2025"), None);
    assert_eq!(parse_set_date("00/10/2025"), None);
    assert_eq!(parse_set_date("04/31/2025"), None);
    assert_eq!(parse_set_date("4/2/2025"), None);
    assert_eq!(parse_set_date("2025/04/02"), None);
    assert_eq!(parse_set_date("04-02-2025"), None);
    assert_eq!(parse_set_date("04/02/20251"), None);
}

#[test]
fn facility_name_is_recovered() {
    let text = "Visit [Pick-n-Pull - Newark](https://example.test/newark) today";
    assert_eq!(extract_location_from_markdown(text).as_deref(), Some("Newark"));
}

#[test]
fn street_address_is_recovered() {
    let text = "Our yard: 9255 San Leandro St \u{2022} Oakland, CA [Get Directions]";
    assert_eq!(
        extract_location_from_markdown(text).as_deref(),
        Some("9255 San Leandro St, Oakland, CA")
    );
}

#[test]
fn facility_wins_over_address() {
    let text = "[Pick-n-Pull - Oakland] at 9255 San Leandro St \u{2022} Oakland, CA [map]";
    assert_eq!(extract_location_from_markdown(text).as_deref(), Some("Oakland"));
}

#[test]
fn no_pattern_yields_no_location() {
    assert_eq!(extract_location_from_markdown("nothing of note here"), None);
}

#[test]
fn empty_facility_capture_is_skipped() {
    // The first marker is immediately closed; the second carries the name.
    let text = "[Pick-n-Pull - ] and later [Pick-n-Pull - Fresno](x)";
    assert_eq!(extract_location_from_markdown(text).as_deref(), Some("Fresno"));
}
