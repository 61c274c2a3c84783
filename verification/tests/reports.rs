use rate_ingest::reports::{MappingError, TopPerformers};

fn ten_columns() -> Vec<Option<String>> {
    (0..10).map(|i| Some(format!("Employee {i}"))).collect()
}

#[test]
fn full_row_maps_to_record() {
    let t = TopPerformers::from_columns(ten_columns()).expect("full row should map");
    assert_eq!(t.customer_thhdp, "Employee 0");
    assert_eq!(t.customer_cyztn, "Employee 1");
    assert_eq!(t.customer_ibvrg, "Employee 2");
    assert_eq!(t.customer_frxzl, "Employee 3");
    assert_eq!(t.customer_gllag, "Employee 4");
    assert_eq!(t.customer_irrvl, "Employee 5");
    assert_eq!(t.customer_nyuhs, "Employee 6");
    assert_eq!(t.customer_lcouj, "Employee 7");
    assert_eq!(t.customer_sfogw, "Employee 8");
    assert_eq!(t.customer_ybqti, "Employee 9");
}

#[test]
fn absent_column_is_a_mapping_error_not_a_crash() {
    let mut cols = ten_columns();
    cols[4] = None;
    match TopPerformers::from_columns(cols) {
        Err(MappingError::MissingColumn) => {},
        other => panic!("expected a missing-column error, got {:?}", other.map(|_| ())),
    }
}

#[test]
fn wrong_column_count_is_reported() {
    match TopPerformers::from_columns(ten_columns()[..9].to_vec()) {
        Err(MappingError::WrongArity) => {},
        other => panic!("expected a wrong-arity error, got {:?}", other.map(|_| ())),
    }
}
