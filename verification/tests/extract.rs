use rate_ingest::extract::{extract_all_rows, extract_rows, extract_rows_skipping,
    locate_embedded_frame_url};

fn doc_with_rows(n: usize) -> Vec<u8> {
    let mut doc = String::from("<html><body><table>");
    for i in 0..n {
        doc.push_str(&format!("<tr><td>cell{i}a</td><td>cell{i}b</td></tr>"));
    }
    doc.push_str("</table></body></html>");
    doc.into_bytes()
}

#[test]
fn skips_exactly_two_header_rows() {
    let rows = extract_rows(&doc_with_rows(5));
    assert_eq!(rows.len(), 3);
    assert_eq!(rows[0][0], b"cell2a".to_vec());
    assert_eq!(rows[2][1], b"cell4b".to_vec());
}

#[test]
fn two_rows_yield_nothing() {
    assert_eq!(extract_rows(&doc_with_rows(2)).len(), 0);
}

#[test]
fn short_documents_yield_nothing() {
    assert_eq!(extract_rows(&doc_with_rows(1)).len(), 0);
    assert_eq!(extract_rows(&doc_with_rows(0)).len(), 0);
    assert_eq!(extract_rows(b"").len(), 0);
}

#[test]
fn all_rows_in_document_order() {
    let rows = extract_all_rows(&doc_with_rows(3));
    assert_eq!(rows.len(), 3);
    assert_eq!(rows[0], vec![b"cell0a".to_vec(), b"cell0b".to_vec()]);
    assert_eq!(rows[1], vec![b"cell1a".to_vec(), b"cell1b".to_vec()]);
    assert_eq!(rows[2], vec![b"cell2a".to_vec(), b"cell2b".to_vec()]);
}

#[test]
fn rows_with_attributes_are_found() {
    let doc = b"<tr class=\"head\"><td align=\"r\">x</td></tr><tr><td>y</td></tr>".to_vec();
    let rows = extract_rows_skipping(&doc, 0);
    assert_eq!(rows.len(), 2);
    assert_eq!(rows[0], vec![b"x".to_vec()]);
    assert_eq!(rows[1], vec![b"y".to_vec()]);
}

#[test]
fn unterminated_cell_runs_to_content_end() {
    let doc = b"<tr><td>abc</tr>".to_vec();
    let rows = extract_rows_skipping(&doc, 0);
    assert_eq!(rows.len(), 1);
    assert_eq!(rows[0], vec![b"abc".to_vec()]);
}

#[test]
fn configurable_skip_defaults_to_table_head() {
    let doc = doc_with_rows(4);
    assert_eq!(extract_rows_skipping(&doc, 0).len(), 4);
    assert_eq!(extract_rows_skipping(&doc, 3).len(), 1);
    assert_eq!(extract_rows_skipping(&doc, 9).len(), 0);
}

#[test]
fn frame_url_is_resolved_against_fixed_host() {
    let doc = b"<html><iframe name=\"rates\" src=\"/rate-table.html\"></iframe></html>".to_vec();
    let url = locate_embedded_frame_url(&doc).expect("frame should be found");
    assert_eq!(url, b"https://www.nbs.rs/rate-table.html".to_vec());
}

#[test]
fn missing_frame_is_a_hard_failure() {
    assert!(locate_embedded_frame_url(b"<html><body>no frames</body></html>").is_none());
}

#[test]
fn frame_without_source_attribute_is_absent() {
    assert!(locate_embedded_frame_url(b"<iframe name=\"rates\"></iframe>").is_none());
}
