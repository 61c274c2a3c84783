use rate_ingest::normalize::{is_decimal_cell, normalize, normalize_rows, parse_int_cell,
    rewrite_comma, trim_bytes};

fn row(cells: &[&[u8]]) -> Vec<Vec<u8>> {
    cells.iter().map(|c| c.to_vec()).collect()
}

#[test]
fn well_formed_row_becomes_record() {
    let rec = normalize(&row(&[b"EUR", b"978", b"Euro zone", b"1", b"117,4523"]))
        .expect("row should normalize");
    assert_eq!(rec.code, b"EUR".to_vec());
    assert_eq!(rec.numeric_id, 978);
    assert_eq!(rec.country_name, b"Euro zone".to_vec());
    assert_eq!(rec.unit_basis, 1);
    assert_eq!(rec.mid_rate, b"117.4523".to_vec());
    assert_eq!(rec.date, None);
}

#[test]
fn comma_rate_is_rewritten_to_period() {
    let rec = normalize(&row(&[b"EUR", b"978", b"Euro zone", b"1", b"117,4523"])).unwrap();
    assert_eq!(rec.mid_rate, b"117.4523".to_vec());
    let rec2 = normalize(&row(&[b"USD", b"840", b"United States", b"1", b"108.9901"])).unwrap();
    assert_eq!(rec2.mid_rate, b"108.9901".to_vec());
}

#[test]
fn identity_fields_are_trimmed() {
    let rec = normalize(&row(&[b"  EUR \n", b" 978", b"\tEuro zone ", b"1 ", b" 117,4523 "]))
        .unwrap();
    assert_eq!(rec.code, b"EUR".to_vec());
    assert_eq!(rec.country_name, b"Euro zone".to_vec());
    assert_eq!(rec.mid_rate, b"117.4523".to_vec());
}

#[test]
fn bad_rate_discards_whole_row() {
    assert!(normalize(&row(&[b"EUR", b"978", b"Euro zone", b"1", b"abc"])).is_none());
    assert!(normalize(&row(&[b"EUR", b"978", b"Euro zone", b"1", b"117,45,23"])).is_none());
    assert!(normalize(&row(&[b"EUR", b"978", b"Euro zone", b"1", b""])).is_none());
    assert!(normalize(&row(&[b"EUR", b"978", b"Euro zone", b"1", b"117,"])).is_none());
    assert!(normalize(&row(&[b"EUR", b"978", b"Euro zone", b"1", b",45"])).is_none());
}

#[test]
fn bad_identifier_defaults_to_zero_and_keeps_row() {
    let rec = normalize(&row(&[b"EUR", b"xyz", b"Euro zone", b"1", b"117,4523"]))
        .expect("identifier failure must not discard the row");
    assert_eq!(rec.numeric_id, 0);
    assert_eq!(rec.unit_basis, 1);
}

#[test]
fn bad_unit_basis_defaults_to_zero_and_keeps_row() {
    let rec = normalize(&row(&[b"EUR", b"978", b"Euro zone", b"", b"117,4523"]))
        .expect("unit-basis failure must not discard the row");
    assert_eq!(rec.numeric_id, 978);
    assert_eq!(rec.unit_basis, 0);
}

#[test]
fn empty_identity_fields_discard_row() {
    assert!(normalize(&row(&[b"  ", b"978", b"Euro zone", b"1", b"117,4523"])).is_none());
    assert!(normalize(&row(&[b"EUR", b"978", b" \t", b"1", b"117,4523"])).is_none());
}

#[test]
fn short_row_is_discarded() {
    assert!(normalize(&row(&[b"EUR", b"978", b"Euro zone", b"1"])).is_none());
    assert!(normalize(&row(&[])).is_none());
}

#[test]
fn sixth_cell_becomes_date() {
    let rec = normalize(&row(&[b"EUR", b"978", b"Euro zone", b"1", b"117,4523", b" 2024-05-07 "]))
        .unwrap();
    assert_eq!(rec.date, Some(b"2024-05-07".to_vec()));
}

#[test]
fn rows_keep_input_order_and_drop_bad_ones() {
    let rows = vec![
        row(&[b"EUR", b"978", b"Euro zone", b"1", b"117,4523"]),
        row(&[b"???", b"0", b"Nowhere", b"1", b"not-a-rate"]),
        row(&[b"JPY", b"392", b"Japan", b"100", b"74,11"]),
    ];
    let recs = normalize_rows(&rows);
    assert_eq!(recs.len(), 2);
    assert_eq!(recs[0].code, b"EUR".to_vec());
    assert_eq!(recs[1].code, b"JPY".to_vec());
}

#[test]
fn int_cell_parses_digit_runs_only() {
    assert_eq!(parse_int_cell(b"978"), 978);
    assert_eq!(parse_int_cell(b"0"), 0);
    assert_eq!(parse_int_cell(b""), 0);
    assert_eq!(parse_int_cell(b"12a"), 0);
    assert_eq!(parse_int_cell(b"-5"), 0);
    assert_eq!(parse_int_cell(b"2147483647"), i32::MAX);
    assert_eq!(parse_int_cell(b"2147483648"), 0);
    assert_eq!(parse_int_cell(b"99999999999999999999"), 0);
}

#[test]
fn decimal_grammar_accepts_plain_and_pointed_runs() {
    assert!(is_decimal_cell(b"117"));
    assert!(is_decimal_cell(b"117.4523"));
    assert!(is_decimal_cell(b"0.5"));
    assert!(!is_decimal_cell(b""));
    assert!(!is_decimal_cell(b"."));
    assert!(!is_decimal_cell(b"117."));
    assert!(!is_decimal_cell(b".45"));
    assert!(!is_decimal_cell(b"1.2.3"));
    assert!(!is_decimal_cell(b"1a2"));
}

#[test]
fn trim_strips_ascii_whitespace_only() {
    assert_eq!(trim_bytes(b"  a b \r\n"), b"a b".to_vec());
    assert_eq!(trim_bytes(b"\t\t"), b"".to_vec());
    assert_eq!(trim_bytes(b"x"), b"x".to_vec());
}

#[test]
fn comma_rewrite_touches_commas_only() {
    assert_eq!(rewrite_comma(b"1,2,3"), b"1.2.3".to_vec());
    assert_eq!(rewrite_comma(b"abc"), b"abc".to_vec());
    assert_eq!(rewrite_comma(b""), b"".to_vec());
}
