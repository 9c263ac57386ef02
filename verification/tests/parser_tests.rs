use junkyard_tracker::parser::{parse_alternative_format, parse_junkyard_page};

const URL: &str = "https://example.test/search";

fn table_page() -> String {
    let mut s = String::new();
    s.push_str("# Inventory\n\n");
    s.push_str("## Matching Vehicles\n\n");
    s.push_str("| Photo | Year | Make | Model | Row | Set Date |\n");
    s.push_str("| --- | --- | --- | --- | --- | --- |\n");
    s.push_str("| photo | 2005 | Subaru | Impreza Wagon | 132 | 04/02/2025 |\n");
    s
}

#[test]
fn no_vehicles_marker_short_circuits() {
    let mut page = table_page();
    page.push_str("\n### No Vehicles Found\n");
    let items = parse_junkyard_page(&page, URL);
    assert_eq!(items.len(), 0);
}

#[test]
fn single_table_row_extracted() {
    let items = parse_junkyard_page(&table_page(), URL);
    assert_eq!(items.len(), 1);
    let it = &items[0];
    assert_eq!(it.id, "2005_subaru_impreza_wagon_132");
    assert_eq!(it.make, "Subaru");
    assert_eq!(it.model, "Impreza Wagon");
    assert_eq!(it.year, Some(2005));
    assert_eq!(it.location.as_deref(), Some("Row 132, Unknown Location"));
    assert!(it.availability);
    // Midnight UTC, 2025-04-02.
    assert_eq!(it.added_date, 1743552000);
}

#[test]
fn header_row_is_not_a_record() {
    // The header-only table yields nothing from the primary strategy, and
    // the fallback finds nothing either.
    let mut s = String::new();
    s.push_str("## Matching Vehicles\n\n");
    s.push_str("| Photo | Year | Make | Model | Row | Set Date |\n");
    s.push_str("| --- | --- | --- | --- | --- | --- |\n");
    let items = parse_junkyard_page(&s, URL);
    assert_eq!(items.len(), 0);
}

#[test]
fn empty_table_triggers_fallback_over_same_text() {
    let mut s = String::new();
    s.push_str("2007 Honda Civic Row 18 Set: 01/15/2025\n\n");
    s.push_str("## Matching Vehicles\n\n");
    s.push_str("| Photo | Year | Make | Model | Row | Set Date |\n");
    let items = parse_junkyard_page(&s, URL);
    assert_eq!(items.len(), 1);
    assert_eq!(items[0].id, "2007_honda_civic_18");
    assert_eq!(items[0].make, "Honda");
    assert_eq!(items[0].model, "Civic");
}

#[test]
fn fallback_parses_inline_listing() {
    let page = "Inventory note: 2005 Subaru Impreza Wagon Row 132 Set: 04/02/2025";
    let items = parse_junkyard_page(page, URL);
    assert_eq!(items.len(), 1);
    let it = &items[0];
    assert_eq!(it.id, "2005_subaru_impreza_wagon_132");
    assert_eq!(it.make, "Subaru");
    assert_eq!(it.model, "Impreza Wagon");
    assert_eq!(it.year, Some(2005));
    assert_eq!(it.location.as_deref(), Some("Row 132, Unknown Location"));
    assert_eq!(it.added_date, 1743552000);
}

#[test]
fn parse_alternative_format_directly() {
    let page = "2003 Toyota Corolla Row 7 Set: 12/31/2024";
    let items = parse_alternative_format(page, URL);
    assert_eq!(items.len(), 1);
    assert_eq!(items[0].id, "2003_toyota_corolla_7");
    // Midnight UTC, 2024-12-31.
    assert_eq!(items[0].added_date, 1735603200);
}

#[test]
fn table_rows_keep_document_order() {
    let mut s = String::new();
    s.push_str("## Matching Vehicles\n\n");
    s.push_str("| Photo | Year | Make | Model | Row | Set Date |\n");
    s.push_str("| p | 2005 | Subaru | Outback | 10 | 04/02/2025 |\n");
    s.push_str("| p | 1999 | Honda | Accord | 11 | 04/03/2025 |\n");
    let items = parse_junkyard_page(&s, URL);
    assert_eq!(items.len(), 2);
    assert_eq!(items[0].id, "2005_subaru_outback_10");
    assert_eq!(items[1].id, "1999_honda_accord_11");
}

#[test]
fn empty_essential_field_rejects_row() {
    let mut s = String::new();
    s.push_str("## Matching Vehicles\n\n");
    s.push_str("| p | 2005 |   | Impreza | 9 | 04/02/2025 |\n");
    let items = parse_junkyard_page(&s, URL);
    assert_eq!(items.len(), 0);
}

#[test]
fn facility_inside_section_enriches_location() {
    let mut s = String::new();
    s.push_str("## Matching Vehicles\n\n");
    s.push_str("[Pick-n-Pull - Newark](https://example.test/store)\n\n");
    s.push_str("| p | 2005 | Subaru | Impreza | 132 | 04/02/2025 |\n");
    let items = parse_junkyard_page(&s, URL);
    assert_eq!(items.len(), 1);
    assert_eq!(items[0].location.as_deref(), Some("Row 132, Newark"));
}

#[test]
fn unparseable_set_date_gets_wall_clock_stand_in() {
    let mut s = String::new();
    s.push_str("## Matching Vehicles\n\n");
    s.push_str("| p | 2005 | Subaru | Impreza | 132 | soon |\n");
    let items = parse_junkyard_page(&s, URL);
    assert_eq!(items.len(), 1);
    // The stand-in is the construction time, not a parsed value.
    assert!(items[0].added_date > 1_000_000_000);
}

#[test]
fn year_cell_with_surrounding_whitespace_matches() {
    let mut s = String::new();
    s.push_str("## Matching Vehicles\n");
    s.push_str("| p |  2011  | Ford | Focus | 3 | 05/06/2025 |\n");
    let items = parse_junkyard_page(&s, URL);
    assert_eq!(items.len(), 1);
    assert_eq!(items[0].year, Some(2011));
    assert_eq!(items[0].id, "2011_ford_focus_3");
}

#[test]
fn five_digit_year_cell_does_not_match() {
    let mut s = String::new();
    s.push_str("## Matching Vehicles\n");
    s.push_str("| p | 20055 | Ford | Focus | 3 | 05/06/2025 |\n");
    let items = parse_junkyard_page(&s, URL);
    assert_eq!(items.len(), 0);
}

#[test]
fn row_label_spaces_become_underscores_in_id() {
    let mut s = String::new();
    s.push_str("## Matching Vehicles\n");
    s.push_str("| p | 2005 | Subaru | Impreza | row A | 04/02/2025 |\n");
    let items = parse_junkyard_page(&s, URL);
    assert_eq!(items.len(), 1);
    assert_eq!(items[0].id, "2005_subaru_impreza_row_A");
    assert_eq!(items[0].location.as_deref(), Some("Row row A, Unknown Location"));
}
