use rate_ingest::extract::locate_embedded_frame_url;
use rate_ingest::ingest::{ingest_document, records_of_document};
use rate_ingest::reload::CurrencyTable;

fn outer_document() -> Vec<u8> {
    b"<html><body><iframe name=\"rates\" src=\"/rate-table.html\"></iframe></body></html>"
        .to_vec()
}

fn inner_document() -> Vec<u8> {
    let mut doc = String::from("<html><table>");
    doc.push_str("<tr><td>Exchange rates</td></tr>");
    doc.push_str("<tr><td>Code</td><td>Id</td><td>Country</td><td>Unit</td><td>Rate</td></tr>");
    doc.push_str("<tr><td>EUR</td><td>978</td><td>Euro zone</td><td>1</td><td>117,4523</td></tr>");
    doc.push_str("<tr><td>XXX</td><td>0</td><td>Nowhere</td><td>1</td><td>bad rate</td></tr>");
    doc.push_str("<tr><td>JPY</td><td>392</td><td>Japan</td><td>100</td><td>74,11</td></tr>");
    doc.push_str("</table></html>");
    doc.into_bytes()
}

#[test]
fn three_data_rows_one_bad_persist_two_records() {
    let url = locate_embedded_frame_url(&outer_document()).expect("outer page holds the frame");
    assert_eq!(url, b"https://www.nbs.rs/rate-table.html".to_vec());

    let mut table = CurrencyTable::new();
    ingest_document(&inner_document(), &mut table);
    assert_eq!(table.len(), 2);
    assert_eq!(table.rows[0].code, b"EUR".to_vec());
    assert_eq!(table.rows[0].mid_rate, b"117.4523".to_vec());
    assert_eq!(table.rows[1].code, b"JPY".to_vec());
    assert_eq!(table.rows[1].mid_rate, b"74.11".to_vec());
}

#[test]
fn ingesting_same_content_twice_is_idempotent() {
    let doc = inner_document();
    let mut table = CurrencyTable::new();
    ingest_document(&doc, &mut table);
    let first: Vec<Vec<u8>> = table.rows.iter().map(|r| r.code.clone()).collect();
    ingest_document(&doc, &mut table);
    let second: Vec<Vec<u8>> = table.rows.iter().map(|r| r.code.clone()).collect();
    assert_eq!(first, second);
    assert_eq!(table.len(), 2);
}

#[test]
fn records_preserve_document_order() {
    let recs = records_of_document(&inner_document());
    assert_eq!(recs.len(), 2);
    assert_eq!(recs[0].code, b"EUR".to_vec());
    assert_eq!(recs[0].numeric_id, 978);
    assert_eq!(recs[1].code, b"JPY".to_vec());
    assert_eq!(recs[1].unit_basis, 100);
}

#[test]
fn header_only_document_yields_no_records() {
    let doc = b"<table><tr><td>h1</td></tr><tr><td>h2</td></tr></table>".to_vec();
    assert_eq!(records_of_document(&doc).len(), 0);
}
