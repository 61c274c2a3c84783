//! The exchange-rate ingestion pipeline, end to end.
//!
//! Given the inner rate-table document, the pipeline extracts its data rows
//! (skipping the two positional header rows), normalizes them in order while
//! discarding malformed ones, and fully reloads the destination table with
//! the result. Fetching the two pages and driving the real store are the
//! caller's side; what the table must hold afterwards is pinned here.

use vstd::prelude::*;

use crate::extract::{data_rows, extract_rows, HEADER_ROW_SKIP};
use crate::normalize::{normalize_rows, normalize_seq, record_wf, CurrencyRecord,
    CurrencyRecordModel};
use crate::reload::CurrencyTable;

verus! {

/// The records a rate-table document yields: its data rows, normalized in
/// document order.
pub open spec fn ingest_result(doc: Seq<u8>) -> Seq<CurrencyRecordModel> {
    normalize_seq(data_rows(doc, HEADER_ROW_SKIP as int))
}

/// The normalized records of a rate-table document, in document order.
pub fn records_of_document(doc: &[u8]) -> (recs: Vec<CurrencyRecord>)
    ensures
        recs.deep_view() =~= ingest_result(doc@),
        forall|i: int| 0 <= i < recs.deep_view().len() ==> record_wf(recs.deep_view()[i]),
{
    let rows = extract_rows(doc);
    normalize_rows(&rows)
}

/// Runs the whole pipeline against the table model: afterwards the table
/// holds exactly the document's normalized records, whatever it held before.
pub fn ingest_document(doc: &[u8], table: &mut CurrencyTable)
    ensures
        final (table)@ =~= ingest_result(doc@),
{
    let records = records_of_document(doc);
    table.reload(&records);
}

} // verus!
