//! Normalization of raw rate-table rows into typed currency records.
//!
//! Field mapping is by strict column order: currency code, numeric currency
//! identifier, country name, unit basis, mid rate, and an optional date. The
//! failure policy is asymmetric and deliberate: an unparseable identifier or
//! unit basis defaults to zero, while an unparseable mid rate or an empty
//! code or country name discards the whole row.

use vstd::prelude::*;

use crate::is_space;
use crate::scan::copy_range;

verus! {

/// ASCII decimal digit.
pub open spec fn is_digit(b: u8) -> bool {
    '0' as u8 <= b && b <= '9' as u8
}

/// `s` without leading ASCII whitespace.
pub open spec fn trim_start(s: Seq<u8>) -> Seq<u8>
    decreases s.len(),
{
    if s.len() > 0 && is_space(s[0]) {
        trim_start(s.drop_first())
    } else {
        s
    }
}

/// `s` without trailing ASCII whitespace.
pub open spec fn trim_end(s: Seq<u8>) -> Seq<u8>
    decreases s.len(),
{
    if s.len() > 0 && is_space(s.last()) {
        trim_end(s.drop_last())
    } else {
        s
    }
}

/// `s` without leading and trailing ASCII whitespace.
pub open spec fn trimmed(s: Seq<u8>) -> Seq<u8> {
    trim_end(trim_start(s))
}

proof fn lemma_trim_start_at(s: Seq<u8>, a: int)
    requires
        0 <= a <= s.len(),
        forall|j: int| 0 <= j < a ==> is_space(s[j]),
        a < s.len() ==> !is_space(s[a]),
    ensures
        trim_start(s) =~= s.subrange(a, s.len() as int),
    decreases a,
{
    if a == 0 {
        if s.len() > 0 && is_space(s[0]) {
            assert(false);
        }
        assert(trim_start(s) =~= s.subrange(0, s.len() as int));
    } else {
        let t = s.drop_first();
        assert(forall|j: int| 0 <= j < a - 1 ==> is_space(t[j]));
        lemma_trim_start_at(t, a - 1);
        assert(t.subrange(a - 1, t.len() as int) =~= s.subrange(a, s.len() as int));
    }
}

proof fn lemma_trim_end_at(s: Seq<u8>, b: int)
    requires
        0 <= b <= s.len(),
        forall|j: int| b <= j < s.len() ==> is_space(s[j]),
        b > 0 ==> !is_space(s[b - 1]),
    ensures
        trim_end(s) =~= s.subrange(0, b),
    decreases s.len(),
{
    if b == s.len() {
        if s.len() > 0 && is_space(s.last()) {
            assert(false);
        }
        assert(trim_end(s) =~= s.subrange(0, b));
    } else {
        let t = s.drop_last();
        assert(is_space(s.last()));
        assert(forall|j: int| b <= j < t.len() ==> is_space(t[j]));
        lemma_trim_end_at(t, b);
        assert(t.subrange(0, b) =~= s.subrange(0, b));
    }
}

/// Exec counterpart of `trimmed`.
pub fn trim_bytes(s: &[u8]) -> (r: Vec<u8>)
    ensures
        r@ =~= trimmed(s@),
{
    let n = s.len();
    let mut a: usize = 0;
    while a < n && is_space_byte(s[a])
        invariant
            0 <= a <= n,
            n == s@.len(),
            forall|j: int| 0 <= j < a ==> is_space(s@[j]),
        decreases n - a,
    {
        a = a + 1;
    }
    proof {
        lemma_trim_start_at(s@, a as int);
    }
    if a == n {
        let r: Vec<u8> = Vec::new();
        proof {
            assert(trim_start(s@) =~= Seq::<u8>::empty());
            assert(trimmed(s@) =~= Seq::<u8>::empty());
        }
        return r;
    }
    let mut b: usize = n;
    while b > a && is_space_byte(s[b - 1])
        invariant
            a <= b <= n,
            n == s@.len(),
            forall|j: int| b <= j < n ==> is_space(s@[j]),
        decreases b,
    {
        b = b - 1;
    }
    // the first non-space byte bounds the scan from below, so `b` points one
    // past a non-space byte
    proof {
        let t = trim_start(s@);
        assert(t =~= s@.subrange(a as int, n as int));
        assert(forall|j: int| b - a <= j < t.len() ==> is_space(t[j]));
        assert(b > a);
        assert(!is_space(s@[b - 1]));
        lemma_trim_end_at(t, b - a);
    }
    let r = copy_range(s, a, b);
    proof {
        assert(r@ =~= trimmed(s@));
    }
    r
}

/// Exec counterpart of `is_space`.
fn is_space_byte(b: u8) -> (r: bool)
    ensures
        r == is_space(b),
{
    b == 32 || b == 9 || b == 10 || b == 13
}

/// A non-empty run of ASCII digits.
pub open spec fn is_numeric_cell(s: Seq<u8>) -> bool {
    s.len() > 0 && (forall|i: int| 0 <= i < s.len() ==> is_digit(s[i]))
}

/// The integer the digit run `s` denotes, most significant digit first.
pub open spec fn digits_val(s: Seq<u8>) -> int
    decreases s.len(),
{
    if s.len() == 0 {
        0
    } else {
        digits_val(s.drop_last()) * 10 + (s.last() - '0' as u8)
    }
}

/// What an identifier or unit-basis cell denotes: its digit-run value when it
/// is one and fits the column type, and the default zero otherwise. A parse
/// failure here never discards the row.
pub open spec fn int_cell_value(s: Seq<u8>) -> int {
    if is_numeric_cell(s) && digits_val(s) <= i32::MAX {
        digits_val(s)
    } else {
        0
    }
}

proof fn lemma_digits_val_nonneg(s: Seq<u8>)
    requires
        forall|i: int| 0 <= i < s.len() ==> is_digit(s[i]),
    ensures
        digits_val(s) >= 0,
    decreases s.len(),
{
    if s.len() > 0 {
        lemma_digits_val_nonneg(s.drop_last());
    }
}

proof fn lemma_digits_val_prefix(s: Seq<u8>, k: int)
    requires
        0 <= k <= s.len(),
        forall|i: int| 0 <= i < s.len() ==> is_digit(s[i]),
    ensures
        digits_val(s) >= digits_val(s.subrange(0, k)),
    decreases s.len() - k,
{
    if k < s.len() {
        let p = s.subrange(0, k);
        let q = s.subrange(0, k + 1);
        assert(q.drop_last() =~= p);
        lemma_digits_val_nonneg(p);
        assert(digits_val(q) == digits_val(p) * 10 + (q.last() - '0' as u8));
        assert(digits_val(q) >= digits_val(p));
        lemma_digits_val_prefix(s, k + 1);
    } else {
        assert(s.subrange(0, k) =~= s);
    }
}

/// Parses an identifier or unit-basis cell, defaulting to zero on any parse
/// failure (non-digit byte, empty cell, or a value over the column's range).
pub fn parse_int_cell(s: &[u8]) -> (r: i32)
    ensures
        r as int == int_cell_value(s@),
        r >= 0,
{
    let n = s.len();
    if n == 0 {
        return 0;
    }
    let mut acc: u64 = 0;
    let mut i: usize = 0;
    while i < n
        invariant
            0 <= i <= n,
            n == s@.len(),
            forall|j: int| 0 <= j < i ==> is_digit(s@[j]),
            acc as int == digits_val(s@.subrange(0, i as int)),
            acc <= i32::MAX as u64,
        decreases n - i,
    {
        let b = s[i];
        if b < '0' as u8 || b > '9' as u8 {
            proof {
                assert(!is_digit(s@[i as int]));
                assert(!is_numeric_cell(s@));
            }
            return 0;
        }
        acc = acc * 10 + (b - '0' as u8) as u64;
        proof {
            assert(s@.subrange(0, i + 1).drop_last() =~= s@.subrange(0, i as int));
            assert(acc as int == digits_val(s@.subrange(0, i + 1)));
        }
        if acc > i32::MAX as u64 {
            proof {
                if is_numeric_cell(s@) {
                    lemma_digits_val_prefix(s@, i + 1);
                    assert(digits_val(s@) > i32::MAX);
                }
            }
            return 0;
        }
        i = i + 1;
    }
    proof {
        assert(s@.subrange(0, n as int) =~= s@);
        assert(is_numeric_cell(s@));
        assert(int_cell_value(s@) == acc as int);
    }
    acc as i32
}

/// `s` with every comma rewritten to a period, the locale cleanup applied to
/// a mid-rate cell before numeric validation.
pub open spec fn comma_to_period(s: Seq<u8>) -> Seq<u8> {
    Seq::new(
        s.len(),
        |i: int|
            if s[i] == ',' as u8 {
                '.' as u8
            } else {
                s[i]
            },
    )
}

/// Exec counterpart of `comma_to_period`.
pub fn rewrite_comma(s: &[u8]) -> (r: Vec<u8>)
    ensures
        r@ =~= comma_to_period(s@),
{
    let n = s.len();
    let mut r: Vec<u8> = Vec::new();
    let mut i: usize = 0;
    while i < n
        invariant
            0 <= i <= n,
            n == s@.len(),
            r@.len() == i,
            forall|j: int| 0 <= j < i ==> r@[j] == comma_to_period(s@)[j],
        decreases n - i,
    {
        let b = s[i];
        if b == ',' as u8 {
            r.push('.' as u8);
        } else {
            r.push(b);
        }
        i = i + 1;
    }
    r
}

/// A well-formed period-decimal rate: a non-empty digit run, optionally split
/// by exactly one period with digits on both sides.
pub open spec fn is_decimal(s: Seq<u8>) -> bool {
    ||| is_numeric_cell(s)
    ||| (exists|p: int|
        {
            &&& 0 < p < s.len() - 1
            &&& #[trigger] s[p] == '.' as u8
            &&& forall|i: int| 0 <= i < s.len() && i != p ==> is_digit(s[i])
        })
}

/// Exec counterpart of `is_decimal`.
pub fn is_decimal_cell(s: &[u8]) -> (r: bool)
    ensures
        r == is_decimal(s@),
{
    let n = s.len();
    if n == 0 {
        return false;
    }
    let mut dot: Option<usize> = None;
    let mut i: usize = 0;
    while i < n
        invariant
            0 <= i <= n,
            n == s@.len(),
            match dot {
                Some(d) => 0 <= d < i && s@[d as int] == '.' as u8 && (forall|j: int|
                    0 <= j < i && j != d ==> is_digit(s@[j])),
                None => forall|j: int| 0 <= j < i ==> is_digit(s@[j]),
            },
        decreases n - i,
    {
        let b = s[i];
        if b >= '0' as u8 && b <= '9' as u8 {
        } else if b == '.' as u8 {
            match dot {
                None => {
                    dot = Some(i);
                },
                Some(d) => {
                    proof {
                        lemma_not_decimal_two_nondigits(s@, d as int, i as int);
                    }
                    return false;
                },
            }
        } else {
            match dot {
                None => {
                    proof {
                        lemma_not_decimal_one_nondigit(s@, i as int);
                    }
                    return false;
                },
                Some(d) => {
                    proof {
                        lemma_not_decimal_two_nondigits(s@, d as int, i as int);
                    }
                    return false;
                },
            }
        }
        i = i + 1;
    }
    match dot {
        None => true,
        Some(d) => {
            if d > 0 && d < n - 1 {
                true
            } else {
                proof {
                    lemma_not_decimal_edge_dot(s@, d as int);
                }
                false
            }
        },
    }
}

proof fn lemma_not_decimal_one_nondigit(s: Seq<u8>, i: int)
    requires
        0 <= i < s.len(),
        !is_digit(s[i]),
        s[i] != '.' as u8,
    ensures
        !is_decimal(s),
{
    assert(!is_numeric_cell(s));
    assert forall|p: int|
        0 < p < s.len() - 1 && #[trigger] s[p] == '.' as u8 implies !(forall|j: int|
        0 <= j < s.len() && j != p ==> is_digit(s[j])) by {
        assert(i != p);
        assert(!is_digit(s[i]));
    }
}

proof fn lemma_not_decimal_two_nondigits(s: Seq<u8>, d: int, i: int)
    requires
        0 <= d < s.len(),
        0 <= i < s.len(),
        d != i,
        !is_digit(s[d]),
        !is_digit(s[i]),
    ensures
        !is_decimal(s),
{
    assert(!is_numeric_cell(s));
    assert forall|p: int|
        0 < p < s.len() - 1 && #[trigger] s[p] == '.' as u8 implies !(forall|j: int|
        0 <= j < s.len() && j != p ==> is_digit(s[j])) by {
        if p == d {
            assert(!is_digit(s[i]));
        } else {
            assert(!is_digit(s[d]));
        }
    }
}

/// A normalized currency record. The mid rate is kept in exact
/// period-decimal text form; persisting it as a floating-point column is the
/// storage layer's concern.
pub struct CurrencyRecord {
    pub code: Vec<u8>,
    pub numeric_id: i32,
    pub country_name: Vec<u8>,
    pub unit_basis: i32,
    pub mid_rate: Vec<u8>,
    pub date: Option<Vec<u8>>,
}

/// The mathematical value of a `CurrencyRecord`.
pub struct CurrencyRecordModel {
    pub code: Seq<u8>,
    pub numeric_id: int,
    pub country_name: Seq<u8>,
    pub unit_basis: int,
    pub mid_rate: Seq<u8>,
    pub date: Option<Seq<u8>>,
}

impl View for CurrencyRecord {
    type V = CurrencyRecordModel;

    open spec fn view(&self) -> CurrencyRecordModel {
        CurrencyRecordModel {
            code: self.code@,
            numeric_id: self.numeric_id as int,
            country_name: self.country_name@,
            unit_basis: self.unit_basis as int,
            mid_rate: self.mid_rate@,
            date: match self.date {
                Some(d) => Some(d@),
                None => None,
            },
        }
    }
}

impl DeepView for CurrencyRecord {
    type V = CurrencyRecordModel;

    open spec fn deep_view(&self) -> CurrencyRecordModel {
        self.view()
    }
}

/// The invariant every normalized record satisfies: non-empty identity
/// fields, a well-formed period-decimal rate, and non-negative identifiers.
pub open spec fn record_wf(r: CurrencyRecordModel) -> bool {
    &&& r.code.len() > 0
    &&& r.country_name.len() > 0
    &&& is_decimal(r.mid_rate)
    &&& 0 <= r.numeric_id <= i32::MAX
    &&& 0 <= r.unit_basis <= i32::MAX
}

/// What `normalize` yields on one raw row, cell by cell in strict column
/// order. A row is discarded when it is short, when its rewritten rate cell
/// is not a well-formed decimal, or when its code or country name is empty
/// after trimming; a bad identifier or unit-basis cell only defaults to zero.
pub open spec fn normalize_spec(row: Seq<Seq<u8>>) -> Option<CurrencyRecordModel> {
    if row.len() < 5 {
        None
    } else {
        let code = trimmed(row[0]);
        let country = trimmed(row[2]);
        let rate = comma_to_period(trimmed(row[4]));
        if !is_decimal(rate) {
            None
        } else if code.len() == 0 || country.len() == 0 {
            None
        } else {
            Some(
                CurrencyRecordModel {
                    code,
                    numeric_id: int_cell_value(trimmed(row[1])),
                    country_name: country,
                    unit_basis: int_cell_value(trimmed(row[3])),
                    mid_rate: rate,
                    date: if row.len() >= 6 {
                        Some(trimmed(row[5]))
                    } else {
                        None
                    },
                },
            )
        }
    }
}

/// Converts one raw row into a typed currency record, or discards it.
pub fn normalize(row: &Vec<Vec<u8>>) -> (r: Option<CurrencyRecord>)
    ensures
        match r {
            Some(rec) => normalize_spec(row.deep_view()) == Some(rec@) && record_wf(rec@),
            None => normalize_spec(row.deep_view()) is None,
        },
{
    proof {
        assert(row.deep_view().len() == row@.len());
        assert forall|i: int| 0 <= i < row@.len() implies #[trigger] row.deep_view()[i]
            =~= row@[i]@ by {}
    }
    if row.len() < 5 {
        return None;
    }
    let code = trim_bytes(row[0].as_slice());
    let numeric_id = parse_int_cell(trim_bytes(row[1].as_slice()).as_slice());
    let country_name = trim_bytes(row[2].as_slice());
    let unit_basis = parse_int_cell(trim_bytes(row[3].as_slice()).as_slice());
    let rate_cell = trim_bytes(row[4].as_slice());
    let mid_rate = rewrite_comma(rate_cell.as_slice());
    if !is_decimal_cell(mid_rate.as_slice()) {
        return None;
    }
    if code.len() == 0 || country_name.len() == 0 {
        return None;
    }
    let date = if row.len() >= 6 {
        Some(trim_bytes(row[5].as_slice()))
    } else {
        None
    };
    let rec = CurrencyRecord { code, numeric_id, country_name, unit_basis, mid_rate, date };
    proof {
        assert(normalize_spec(row.deep_view()) == Some(rec@));
    }
    Some(rec)
}

/// The records of a whole sequence of raw rows, in input order, with
/// discarded rows dropped.
pub open spec fn normalize_seq(rows: Seq<Seq<Seq<u8>>>) -> Seq<CurrencyRecordModel>
    decreases rows.len(),
{
    if rows.len() == 0 {
        Seq::empty()
    } else {
        match normalize_spec(rows[0]) {
            Some(r) => seq![r] + normalize_seq(rows.drop_first()),
            None => normalize_seq(rows.drop_first()),
        }
    }
}

/// Normalizes every raw row, preserving input order and silently discarding
/// malformed rows.
pub fn normalize_rows(rows: &Vec<Vec<Vec<u8>>>) -> (recs: Vec<CurrencyRecord>)
    ensures
        recs.deep_view() =~= normalize_seq(rows.deep_view()),
        forall|i: int| 0 <= i < recs.deep_view().len() ==> record_wf(recs.deep_view()[i]),
{
    let n = rows.len();
    let ghost all = rows.deep_view();
    let mut recs: Vec<CurrencyRecord> = Vec::new();
    let mut i: usize = 0;
    proof {
        assert(all.subrange(0, n as int) =~= all);
    }
    while i < n
        invariant
            0 <= i <= n,
            n == rows@.len(),
            all =~= rows.deep_view(),
            recs.deep_view() + normalize_seq(all.subrange(i as int, n as int)) =~= normalize_seq(
                all,
            ),
            forall|k: int| 0 <= k < recs.deep_view().len() ==> record_wf(recs.deep_view()[k]),
        decreases n - i,
    {
        let ghost rest = all.subrange(i as int, n as int);
        proof {
            assert(rest[0] =~= all[i as int]);
            assert(rest.drop_first() =~= all.subrange(i + 1, n as int));
            assert(rows.deep_view()[i as int] =~= rows@[i as int].deep_view());
        }
        match normalize(&rows[i]) {
            Some(rec) => {
                let ghost before = recs.deep_view();
                recs.push(rec);
                proof {
                    assert(recs.deep_view() =~= before.push(rec@));
                    assert(normalize_seq(rest) =~= seq![rec@] + normalize_seq(rest.drop_first()));
                    assert(recs.deep_view() + normalize_seq(all.subrange(i + 1, n as int))
                        =~= normalize_seq(all));
                }
            },
            None => {
                proof {
                    assert(normalize_seq(rest) =~= normalize_seq(rest.drop_first()));
                }
            },
        }
        i = i + 1;
    }
    proof {
        assert(all.subrange(n as int, n as int) =~= Seq::<Seq<Seq<u8>>>::empty());
        assert(normalize_seq(all.subrange(n as int, n as int)) =~= Seq::<
            CurrencyRecordModel,
        >::empty());
    }
    recs
}

/// Every record a well-formed row yields has a non-empty code and country
/// name and a period-decimal rate, the comma-rewritten image of the row's
/// rate cell.
pub proof fn lemma_normalize_well_formed(row: Seq<Seq<u8>>, rec: CurrencyRecordModel)
    requires
        normalize_spec(row) == Some(rec),
    ensures
        rec.code.len() > 0,
        rec.country_name.len() > 0,
        is_decimal(rec.mid_rate),
        rec.mid_rate == comma_to_period(trimmed(row[4])),
{
}

/// A row whose rate cell is not numeric even after the comma-to-period
/// rewrite is discarded, whatever its other cells hold.
pub proof fn lemma_normalize_discards_bad_rate(row: Seq<Seq<u8>>)
    requires
        !is_decimal(comma_to_period(trimmed(row[4]))),
    ensures
        normalize_spec(row) is None,
{
}

/// A non-numeric identifier or unit-basis cell defaults that field to zero
/// and still yields a record, provided code, country and rate are valid.
pub proof fn lemma_normalize_defaults_ids(row: Seq<Seq<u8>>)
    requires
        row.len() >= 5,
        trimmed(row[0]).len() > 0,
        trimmed(row[2]).len() > 0,
        is_decimal(comma_to_period(trimmed(row[4]))),
    ensures
        normalize_spec(row) is Some,
        !is_numeric_cell(trimmed(row[1])) ==> normalize_spec(row)->Some_0.numeric_id == 0,
        !is_numeric_cell(trimmed(row[3])) ==> normalize_spec(row)->Some_0.unit_basis == 0,
{
}

proof fn lemma_not_decimal_edge_dot(s: Seq<u8>, d: int)
    requires
        0 <= d < s.len(),
        s[d] == '.' as u8,
        d == 0 || d == s.len() - 1,
        forall|j: int| 0 <= j < s.len() && j != d ==> is_digit(s[j]),
    ensures
        !is_decimal(s),
{
    assert(!is_digit(s[d]));
    assert(!is_numeric_cell(s));
    assert forall|p: int|
        0 < p < s.len() - 1 && #[trigger] s[p] == '.' as u8 implies !(forall|j: int|
        0 <= j < s.len() && j != p ==> is_digit(s[j])) by {
        assert(p != d);
        assert(!is_digit(s[d]));
    }
}

} // verus!
