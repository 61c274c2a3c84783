//! Table extraction from a fetched document.
//!
//! The document is a byte string. A row element begins at every occurrence of
//! `<tr` followed by `>` or whitespace; its content runs from the `>` that
//! closes the opening tag to the next `</tr` (or the end of the document).
//! Cells are the `<td` elements inside that content, and a cell's text is the
//! raw bytes between its opening tag's `>` and the next `</td`. The first two
//! rows of a rate-table document are structural headers and are skipped by
//! position, never by content.

use vstd::prelude::*;

use crate::is_space;
use crate::scan::{
    copy_range, find_byte, find_byte_spec, find_pat, find_pat_spec, lemma_find_byte_spec_props,
    lemma_find_pat_spec_props,
};

verus! {

/// A `<t?` element (third byte `third`, so `<tr` or `<td`) opens at position
/// `i`: the tag prefix is followed by `>` or whitespace, never by more name
/// bytes.
pub open spec fn is_elem_start(doc: Seq<u8>, third: u8, i: int) -> bool {
    &&& 0 <= i
    &&& i + 4 <= doc.len()
    &&& doc[i] == '<' as u8
    &&& doc[i + 1] == 't' as u8
    &&& doc[i + 2] == third
    &&& (doc[i + 3] == '>' as u8 || is_space(doc[i + 3]))
}

/// The closing-tag prefix `</tr`.
pub open spec fn close_tr_seq() -> Seq<u8> {
    seq!['<' as u8, '/' as u8, 't' as u8, 'r' as u8]
}

/// The closing-tag prefix `</td`.
pub open spec fn close_td_seq() -> Seq<u8> {
    seq!['<' as u8, '/' as u8, 't' as u8, 'd' as u8]
}

fn close_tr_pat() -> (v: Vec<u8>)
    ensures
        v@ =~= close_tr_seq(),
{
    let mut v: Vec<u8> = Vec::new();
    v.push('<' as u8);
    v.push('/' as u8);
    v.push('t' as u8);
    v.push('r' as u8);
    v
}

fn close_td_pat() -> (v: Vec<u8>)
    ensures
        v@ =~= close_td_seq(),
{
    let mut v: Vec<u8> = Vec::new();
    v.push('<' as u8);
    v.push('/' as u8);
    v.push('t' as u8);
    v.push('d' as u8);
    v
}

/// Content span of the element whose opening tag starts at `i`: from just
/// after the `>` of the opening tag to the next occurrence of `close` (or the
/// end of the document when either is missing).
pub open spec fn content_span(doc: Seq<u8>, close: Seq<u8>, i: int) -> (int, int) {
    match find_byte_spec(doc, '>' as u8, i) {
        None => (doc.len() as int, doc.len() as int),
        Some(g) => {
            let cs = g + 1;
            match find_pat_spec(doc, close, cs) {
                None => (cs, doc.len() as int),
                Some(c) => (cs, c),
            }
        },
    }
}

pub proof fn lemma_content_span_bounds(doc: Seq<u8>, close: Seq<u8>, i: int)
    requires
        0 <= i,
    ensures
        0 <= content_span(doc, close, i).0 <= content_span(doc, close, i).1 <= doc.len(),
{
    lemma_find_byte_spec_props(doc, '>' as u8, i);
    if let Some(g) = find_byte_spec(doc, '>' as u8, i) {
        lemma_find_pat_spec_props(doc, close, g + 1);
    }
}

/// Exec counterpart of `content_span`.
fn content_span_at(doc: &[u8], close: &[u8], i: usize) -> (sp: (usize, usize))
    ensures
        (sp.0 as int, sp.1 as int) == content_span(doc@, close@, i as int),
        sp.0 <= sp.1 <= doc@.len(),
{
    proof {
        lemma_content_span_bounds(doc@, close@, i as int);
    }
    let doc_len = doc.len();
    match find_byte(doc, '>' as u8, i) {
        None => (doc_len, doc_len),
        Some(g) => {
            proof {
                lemma_find_byte_spec_props(doc@, '>' as u8, i as int);
            }
            let cs = g + 1;
            match find_pat(doc, close, cs) {
                None => (cs, doc_len),
                Some(c) => {
                    proof {
                        lemma_find_pat_spec_props(doc@, close@, cs as int);
                    }
                    (cs, c)
                },
            }
        },
    }
}

/// Text of the cell whose opening tag starts at `i` in `content`.
pub open spec fn cell_text(content: Seq<u8>, i: int) -> Seq<u8> {
    let sp = content_span(content, close_td_seq(), i);
    content.subrange(sp.0, sp.1)
}

/// The cell texts of all `<td` elements at or after `from`, in order.
pub open spec fn cells_from(content: Seq<u8>, from: int) -> Seq<Seq<u8>>
    decreases content.len() - from,
{
    if from < 0 || from + 4 > content.len() {
        Seq::empty()
    } else if is_elem_start(content, 'd' as u8, from) {
        seq![cell_text(content, from)] + cells_from(content, from + 1)
    } else {
        cells_from(content, from + 1)
    }
}

/// All cell texts of one row's content, in document order.
pub fn cells_of_content(content: &[u8]) -> (cells: Vec<Vec<u8>>)
    ensures
        cells.deep_view() =~= cells_from(content@, 0),
{
    let content_len = content.len();
    let close_td = close_td_pat();
    let mut cells: Vec<Vec<u8>> = Vec::new();
    let mut i: usize = 0;
    while content_len - i >= 4
        invariant
            0 <= i <= content_len,
            content@.len() == content_len,
            close_td@ =~= close_td_seq(),
            cells.deep_view() + cells_from(content@, i as int) =~= cells_from(content@, 0),
        decreases content_len - i,
    {
        if is_elem_start_at(content, 'd' as u8, i) {
            let sp = content_span_at(content, close_td.as_slice(), i);
            let text = copy_range(content, sp.0, sp.1);
            let ghost old_cells = cells.deep_view();
            cells.push(text);
            proof {
                assert(text@ =~= cell_text(content@, i as int));
                assert(cells.deep_view() =~~= old_cells.push(text@));
                assert(cells_from(content@, i as int) =~= seq![cell_text(content@, i as int)]
                    + cells_from(content@, i + 1));
                assert(cells.deep_view() + cells_from(content@, i + 1) =~= cells_from(
                    content@,
                    0,
                ));
            }
        }
        i = i + 1;
    }
    proof {
        assert(cells_from(content@, i as int) =~= Seq::empty());
    }
    cells
}

/// Whether a `<t?` element (third byte `third`) opens at position `i`.
fn is_elem_start_at(doc: &[u8], third: u8, i: usize) -> (r: bool)
    ensures
        r == is_elem_start(doc@, third, i as int),
{
    if doc.len() < 4 || i > doc.len() - 4 {
        return false;
    }
    doc[i] == '<' as u8 && doc[i + 1] == 't' as u8 && doc[i + 2] == third && (doc[i + 3] == '>'
        as u8 || is_space_byte(doc[i + 3]))
}

/// Exec counterpart of `is_space`.
fn is_space_byte(b: u8) -> (r: bool)
    ensures
        r == is_space(b),
{
    b == 32 || b == 9 || b == 10 || b == 13
}

/// The rows of the document's table elements: for each `<tr` element in
/// document order, the texts of its `<td` cells.
pub open spec fn rows_from(doc: Seq<u8>, from: int) -> Seq<Seq<Seq<u8>>>
    decreases doc.len() - from,
{
    if from < 0 || from + 4 > doc.len() {
        Seq::empty()
    } else if is_elem_start(doc, 'r' as u8, from) {
        seq![row_cells_at(doc, from)] + rows_from(doc, from + 1)
    } else {
        rows_from(doc, from + 1)
    }
}

/// The cells of the row whose opening tag starts at `i`.
pub open spec fn row_cells_at(doc: Seq<u8>, i: int) -> Seq<Seq<u8>> {
    let sp = content_span(doc, close_tr_seq(), i);
    cells_from(doc.subrange(sp.0, sp.1), 0)
}

/// All rows of the document, in document order.
pub open spec fn table_rows(doc: Seq<u8>) -> Seq<Seq<Seq<u8>>> {
    rows_from(doc, 0)
}

/// How many row elements the document holds.
pub open spec fn row_count(doc: Seq<u8>) -> int {
    table_rows(doc).len() as int
}

/// The rows left after dropping the first `skip` ones.
pub open spec fn data_rows(doc: Seq<u8>, skip: int) -> Seq<Seq<Seq<u8>>> {
    let all = table_rows(doc);
    if all.len() <= skip {
        Seq::empty()
    } else {
        all.subrange(skip, all.len() as int)
    }
}

/// Every row of every table element of the document, with its cell texts.
pub fn extract_all_rows(doc: &[u8]) -> (rows: Vec<Vec<Vec<u8>>>)
    ensures
        rows.deep_view() =~= table_rows(doc@),
{
    let doc_len = doc.len();
    let close_tr = close_tr_pat();
    let mut rows: Vec<Vec<Vec<u8>>> = Vec::new();
    let mut i: usize = 0;
    while doc_len - i >= 4
        invariant
            0 <= i <= doc_len,
            doc@.len() == doc_len,
            close_tr@ =~= close_tr_seq(),
            rows.deep_view() + rows_from(doc@, i as int) =~= table_rows(doc@),
        decreases doc_len - i,
    {
        if is_elem_start_at(doc, 'r' as u8, i) {
            let sp = content_span_at(doc, close_tr.as_slice(), i);
            let content = copy_range(doc, sp.0, sp.1);
            let cells = cells_of_content(content.as_slice());
            let ghost old_rows = rows.deep_view();
            rows.push(cells);
            proof {
                assert(cells.deep_view() =~= row_cells_at(doc@, i as int));
                assert(rows.deep_view() =~= old_rows.push(cells.deep_view()));
                assert(rows_from(doc@, i as int) =~= seq![row_cells_at(doc@, i as int)]
                    + rows_from(doc@, i + 1));
                assert(rows.deep_view() + rows_from(doc@, i + 1) =~= table_rows(doc@));
            }
        }
        i = i + 1;
    }
    proof {
        assert(rows_from(doc@, i as int) =~= Seq::empty());
    }
    rows
}

/// The document's rows with the first `skip` dropped.
pub fn extract_rows_skipping(doc: &[u8], skip: usize) -> (rows: Vec<Vec<Vec<u8>>>)
    ensures
        rows.deep_view() =~= data_rows(doc@, skip as int),
        rows@.len() == if row_count(doc@) >= skip {
            row_count(doc@) - skip
        } else {
            0
        },
{
    let mut rows = extract_all_rows(doc);
    let mut k: usize = 0;
    while k < skip && rows.len() > 0
        invariant
            0 <= k <= skip,
            rows.deep_view() =~= data_rows(doc@, k as int),
        decreases skip - k,
    {
        let ghost before = rows.deep_view();
        rows.remove(0);
        proof {
            assert(rows.deep_view() =~= before.subrange(1, before.len() as int));
            assert(rows.deep_view() =~= data_rows(doc@, k + 1));
        }
        k = k + 1;
    }
    proof {
        if k < skip {
            assert(rows.deep_view().len() == 0);
            assert(table_rows(doc@).len() <= k);
            assert(data_rows(doc@, skip as int) =~= Seq::empty());
        }
        assert(rows.deep_view() =~= data_rows(doc@, skip as int));
    }
    rows
}

/// How many rows at the head of a rate-table document are structural headers.
/// The source site's layout fixes this at exactly two; the skip is by
/// position, never inferred from content.
pub const HEADER_ROW_SKIP: usize = 2;

/// The data rows of a rate-table document: every row element except the two
/// positional header rows. A document with `N` row elements yields exactly
/// `N - 2` rows when `N >= 2`, and none otherwise.
pub fn extract_rows(doc: &[u8]) -> (rows: Vec<Vec<Vec<u8>>>)
    ensures
        rows.deep_view() =~= data_rows(doc@, HEADER_ROW_SKIP as int),
        rows@.len() == if row_count(doc@) >= 2 {
            row_count(doc@) - 2
        } else {
            0
        },
{
    extract_rows_skipping(doc, HEADER_ROW_SKIP)
}

/// The tag prefix `<iframe`.
pub open spec fn iframe_seq() -> Seq<u8> {
    seq![
        '<' as u8,
        'i' as u8,
        'f' as u8,
        'r' as u8,
        'a' as u8,
        'm' as u8,
        'e' as u8,
    ]
}

/// The attribute prefix `src="`.
pub open spec fn src_attr_seq() -> Seq<u8> {
    seq!['s' as u8, 'r' as u8, 'c' as u8, '=' as u8, '"' as u8]
}

/// The fixed host that a frame path from the rate page is resolved against.
pub open spec fn base_host_seq() -> Seq<u8> {
    seq![
        'h' as u8,
        't' as u8,
        't' as u8,
        'p' as u8,
        's' as u8,
        ':' as u8,
        '/' as u8,
        '/' as u8,
        'w' as u8,
        'w' as u8,
        'w' as u8,
        '.' as u8,
        'n' as u8,
        'b' as u8,
        's' as u8,
        '.' as u8,
        'r' as u8,
        's' as u8,
    ]
}

fn iframe_pat() -> (v: Vec<u8>)
    ensures
        v@ =~= iframe_seq(),
{
    let mut v: Vec<u8> = Vec::new();
    v.push('<' as u8);
    v.push('i' as u8);
    v.push('f' as u8);
    v.push('r' as u8);
    v.push('a' as u8);
    v.push('m' as u8);
    v.push('e' as u8);
    v
}

fn src_attr_pat() -> (v: Vec<u8>)
    ensures
        v@ =~= src_attr_seq(),
{
    let mut v: Vec<u8> = Vec::new();
    v.push('s' as u8);
    v.push('r' as u8);
    v.push('c' as u8);
    v.push('=' as u8);
    v.push('"' as u8);
    v
}

/// The fixed host as bytes.
pub fn base_host() -> (v: Vec<u8>)
    ensures
        v@ =~= base_host_seq(),
{
    let mut v: Vec<u8> = Vec::new();
    v.push('h' as u8);
    v.push('t' as u8);
    v.push('t' as u8);
    v.push('p' as u8);
    v.push('s' as u8);
    v.push(':' as u8);
    v.push('/' as u8);
    v.push('/' as u8);
    v.push('w' as u8);
    v.push('w' as u8);
    v.push('w' as u8);
    v.push('.' as u8);
    v.push('n' as u8);
    v.push('b' as u8);
    v.push('s' as u8);
    v.push('.' as u8);
    v.push('r' as u8);
    v.push('s' as u8);
    v
}

/// The source path of the first embedded frame: the bytes of its `src="..."`
/// attribute value, or nothing when the document has no frame element or the
/// frame has no source attribute.
pub open spec fn frame_src(doc: Seq<u8>) -> Option<Seq<u8>> {
    match find_pat_spec(doc, iframe_seq(), 0) {
        None => None,
        Some(i) => match find_pat_spec(doc, src_attr_seq(), i) {
            None => None,
            Some(s) => match find_byte_spec(doc, '"' as u8, s + 5) {
                None => None,
                Some(q) => Some(doc.subrange(s + 5, q)),
            },
        },
    }
}

/// The frame's source path resolved against the fixed base host.
pub open spec fn frame_url(doc: Seq<u8>) -> Option<Seq<u8>> {
    match frame_src(doc) {
        None => None,
        Some(s) => Some(base_host_seq() + s),
    }
}

/// Finds the embedded frame element of the outer rate page and returns its
/// source attribute resolved against the fixed base host. An absent frame or
/// attribute is a hard failure of the ingestion run: without it no currency
/// data can be fetched.
pub fn locate_embedded_frame_url(doc: &[u8]) -> (r: Option<Vec<u8>>)
    ensures
        match r {
            Some(v) => frame_url(doc@) == Some(v@),
            None => frame_url(doc@) is None,
        },
{
    let doc_len = doc.len();
    let iframe = iframe_pat();
    let src_attr = src_attr_pat();
    let i = match find_pat(doc, iframe.as_slice(), 0) {
        None => {
            return None;
        },
        Some(i) => i,
    };
    let s = match find_pat(doc, src_attr.as_slice(), i) {
        None => {
            return None;
        },
        Some(s) => s,
    };
    proof {
        lemma_find_pat_spec_props(doc@, src_attr_seq(), i as int);
        assert(s + 5 <= doc_len);
    }
    let q = match find_byte(doc, '"' as u8, s + 5) {
        None => {
            return None;
        },
        Some(q) => q,
    };
    proof {
        lemma_find_byte_spec_props(doc@, '"' as u8, s + 5);
    }
    let mut url = base_host();
    let mut path = copy_range(doc, s + 5, q);
    url.append(&mut path);
    proof {
        assert(url@ =~= base_host_seq() + doc@.subrange(s + 5, q as int));
    }
    Some(url)
}

} // verus!
