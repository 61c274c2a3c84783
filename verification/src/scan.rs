//! Byte-level scanning primitives shared by the document extractor.

use vstd::prelude::*;

verus! {

/// The bytes of `pat` occur in `doc` starting at position `i`.
pub open spec fn match_at(doc: Seq<u8>, pat: Seq<u8>, i: int) -> bool {
    &&& 0 <= i
    &&& i + pat.len() <= doc.len()
    &&& forall|k: int| 0 <= k < pat.len() ==> doc[i + k] == pat[k]
}

/// Position of the first occurrence of byte `b` in `doc` at or after `from`.
pub open spec fn find_byte_spec(doc: Seq<u8>, b: u8, from: int) -> Option<int>
    decreases doc.len() - from,
{
    if from < 0 || from >= doc.len() {
        None
    } else if doc[from] == b {
        Some(from)
    } else {
        find_byte_spec(doc, b, from + 1)
    }
}

pub proof fn lemma_find_byte_spec_props(doc: Seq<u8>, b: u8, from: int)
    requires
        0 <= from,
    ensures
        match find_byte_spec(doc, b, from) {
            Some(i) => from <= i < doc.len() && doc[i] == b && (forall|j: int|
                from <= j < i ==> doc[j] != b),
            None => forall|j: int| from <= j < doc.len() ==> doc[j] != b,
        },
    decreases doc.len() - from,
{
    if from < doc.len() && doc[from] != b {
        lemma_find_byte_spec_props(doc, b, from + 1);
    }
}

/// First occurrence of byte `b` in `doc` at or after `from`.
pub fn find_byte(doc: &[u8], b: u8, from: usize) -> (r: Option<usize>)
    ensures
        match r {
            Some(i) => find_byte_spec(doc@, b, from as int) == Some(i as int),
            None => find_byte_spec(doc@, b, from as int) is None,
        },
{
    let mut i = from;
    while i < doc.len()
        invariant
            from <= i,
            find_byte_spec(doc@, b, from as int) == find_byte_spec(doc@, b, i as int),
        decreases doc.len() - i,
    {
        if doc[i] == b {
            return Some(i);
        }
        i = i + 1;
    }
    None
}

/// Position of the first occurrence of `pat` in `doc` at or after `from`.
pub open spec fn find_pat_spec(doc: Seq<u8>, pat: Seq<u8>, from: int) -> Option<int>
    decreases doc.len() - from,
{
    if from < 0 || from + pat.len() > doc.len() {
        None
    } else if match_at(doc, pat, from) {
        Some(from)
    } else {
        find_pat_spec(doc, pat, from + 1)
    }
}

pub proof fn lemma_find_pat_spec_props(doc: Seq<u8>, pat: Seq<u8>, from: int)
    requires
        0 <= from,
    ensures
        match find_pat_spec(doc, pat, from) {
            Some(i) => from <= i && match_at(doc, pat, i) && (forall|j: int|
                from <= j < i ==> !match_at(doc, pat, j)),
            None => forall|j: int| j >= from ==> !match_at(doc, pat, j),
        },
    decreases doc.len() - from,
{
    if from + pat.len() <= doc.len() && !match_at(doc, pat, from) {
        lemma_find_pat_spec_props(doc, pat, from + 1);
    }
}

/// Whether `pat` occurs in `doc` at position `i`.
pub fn match_at_exec(doc: &[u8], pat: &[u8], i: usize) -> (r: bool)
    requires
        i + pat@.len() <= doc@.len(),
    ensures
        r == match_at(doc@, pat@, i as int),
{
    let doc_len = doc.len();
    let mut k: usize = 0;
    while k < pat.len()
        invariant
            0 <= k <= pat@.len(),
            i + pat@.len() <= doc@.len(),
            doc@.len() == doc_len,
            forall|m: int| 0 <= m < k ==> doc@[i + m] == pat@[m],
        decreases pat.len() - k,
    {
        if doc[i + k] != pat[k] {
            return false;
        }
        k = k + 1;
    }
    true
}

/// First occurrence of `pat` in `doc` at or after `from`.
pub fn find_pat(doc: &[u8], pat: &[u8], from: usize) -> (r: Option<usize>)
    ensures
        match r {
            Some(i) => find_pat_spec(doc@, pat@, from as int) == Some(i as int),
            None => find_pat_spec(doc@, pat@, from as int) is None,
        },
{
    if pat.len() > doc.len() {
        return None;
    }
    let mut i = from;
    while i <= doc.len() - pat.len()
        invariant
            from <= i,
            pat@.len() <= doc@.len(),
            find_pat_spec(doc@, pat@, from as int) == find_pat_spec(doc@, pat@, i as int),
        decreases doc.len() - i,
    {
        if match_at_exec(doc, pat, i) {
            return Some(i);
        }
        i = i + 1;
    }
    None
}

/// The bytes of `doc` from `a` (inclusive) to `b` (exclusive), as a fresh vector.
pub fn copy_range(doc: &[u8], a: usize, b: usize) -> (v: Vec<u8>)
    requires
        a <= b <= doc@.len(),
    ensures
        v@ =~= doc@.subrange(a as int, b as int),
{
    let mut v: Vec<u8> = Vec::new();
    let mut i = a;
    while i < b
        invariant
            a <= i <= b <= doc@.len(),
            v@ =~= doc@.subrange(a as int, i as int),
        decreases b - i,
    {
        v.push(doc[i]);
        i = i + 1;
    }
    v
}

} // verus!
