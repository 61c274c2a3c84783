use rate_ingest::housing::YearBuiltCount;

#[test]
fn empty_year_label_becomes_unknown() {
    let mut y = YearBuiltCount { year_built: String::new(), total_houses: 3 };
    y.clean_string_fields();
    assert_eq!(y.year_built, "Unknown");
    assert_eq!(y.total_houses, 3);
}

#[test]
fn null_year_label_becomes_unknown() {
    let mut y = YearBuiltCount { year_built: "null".to_string(), total_houses: 0 };
    y.clean_string_fields();
    assert_eq!(y.year_built, "Unknown");
}

#[test]
fn year_label_keeps_alphanumerics_only() {
    let mut y = YearBuiltCount { year_built: "19-80?".to_string(), total_houses: 1 };
    y.clean_string_fields();
    assert_eq!(y.year_built, "1980");
}

#[test]
fn clean_year_label_is_unchanged() {
    let mut y = YearBuiltCount { year_built: "1999".to_string(), total_houses: 1 };
    y.clean_string_fields();
    assert_eq!(y.year_built, "1999");
}

#[test]
fn sentinel_count_becomes_zero() {
    let mut y = YearBuiltCount { year_built: "1999".to_string(), total_houses: i32::MAX };
    assert_eq!(y.clean_i32_fields(), Ok(()));
    assert_eq!(y.total_houses, 0);
}

#[test]
fn negative_count_is_rejected() {
    let mut y = YearBuiltCount { year_built: "1999".to_string(), total_houses: -4 };
    assert_eq!(y.clean_i32_fields(), Err("Invalid value for total_houses: 0"));
    assert_eq!(y.total_houses, -4);
}

#[test]
fn ordinary_count_is_kept() {
    let mut y = YearBuiltCount { year_built: "1999".to_string(), total_houses: 17 };
    assert_eq!(y.clean_i32_fields(), Ok(()));
    assert_eq!(y.total_houses, 17);
}
