//! Exchange-rate ingestion and reporting library.
//!
//! The core is the pipeline that turns a fetched rate-table page into
//! normalized currency records and a full reload of the destination table:
//! byte-level table extraction (`extract`, over the primitives of `scan`),
//! field normalization (`normalize`), the reload state machine with its
//! table model (`reload`), and their composition (`ingest`). Around it stand
//! the record types and validation rules of the reporting side (`employee`,
//! `housing`, `reports`), with shared character handling in `text`.

use vstd::prelude::*;

pub mod employee;
pub mod extract;
pub mod housing;
pub mod ingest;
pub mod normalize;
pub mod reload;
pub mod reports;
pub mod scan;
pub mod text;

verus! {

/// ASCII whitespace, the only padding stripped from scraped cells.
pub open spec fn is_space(b: u8) -> bool {
    b == 32 || b == 9 || b == 10 || b == 13
}

} // verus!
