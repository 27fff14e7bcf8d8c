use usda_plants::vascan::append_query_param;
use usda_plants::vascan::encode_name_for_query;
use usda_plants::vascan::handle_hybrid;
use usda_plants::vascan::include_occurrence;
use usda_plants::vascan::map_locality;

#[test]
fn test_handle_hybrid() {
    assert_eq!(handle_hybrid("Quercus alba"), "Quercus alba");
    assert_eq!(handle_hybrid("Quercus ×leana"), "Quercus x leana");
}

#[test]
fn handle_hybrid_drops_trailing_fields() {
    assert_eq!(handle_hybrid("Quercus alba Linnaeus"), "Quercus alba");
}

#[test]
fn encode_replaces_spaces() {
    assert_eq!(encode_name_for_query("Quercus alba"), "Quercus%20alba");
    assert_eq!(encode_name_for_query("alba"), "alba");
    assert_eq!(encode_name_for_query(""), "");
}

#[test]
fn query_params_accumulate_with_separator() {
    let p = append_query_param(String::new(), "Quercus alba");
    assert_eq!(p, "Quercus%20alba");
    let p = append_query_param(p, "Acer rubrum");
    assert_eq!(p, "Quercus%20alba%0AAcer%20rubrum");
}

#[test]
fn occurrence_filter_is_case_insensitive() {
    assert!(!include_occurrence("excluded"));
    assert!(!include_occurrence("EXCLUDED"));
    assert!(!include_occurrence("Doubtful"));
    assert!(include_occurrence("native"));
    assert!(include_occurrence(""));
}

#[test]
fn locality_codes_are_rewritten() {
    assert_eq!(map_locality("NL_N"), Some("NL".to_string()));
    assert_eq!(map_locality("NL_L"), Some("NL".to_string()));
    assert_eq!(map_locality("GL"), None);
    assert_eq!(map_locality("QC"), Some("QC".to_string()));
}
