//! The employee record of the insert endpoint and its validation rules.
//!
//! A payload is validated against per-field length bounds and, for the
//! name-like fields, an ASCII-alphanumeric character set, before any insert
//! statement is built. Dates travel as plain calendar fields with their own
//! validity invariant, parsed from and formatted to `YYYY-MM-DD` text.

use vstd::prelude::*;

use crate::text::{
    all_ascii_alnum, ascii_alnum_char, ascii_to_string, is_ascii_alnum_char, is_ascii_digit_char,
};

verus! {

/// A calendar date as plain fields.
#[derive(Clone, Copy, PartialEq, Eq, Structural, Debug)]
pub struct Date {
    pub year: u32,
    pub month: u32,
    pub day: u32,
}

/// Gregorian leap year.
pub open spec fn is_leap_year(y: int) -> bool {
    y % 4 == 0 && (y % 100 != 0 || y % 400 == 0)
}

/// How many days the month holds.
pub open spec fn days_in_month(y: int, m: int) -> int {
    if m == 2 {
        if is_leap_year(y) {
            29
        } else {
            28
        }
    } else if m == 4 || m == 6 || m == 9 || m == 11 {
        30
    } else {
        31
    }
}

/// A valid calendar date whose year fits four digits.
pub open spec fn date_valid(y: int, m: int, d: int) -> bool {
    &&& 0 <= y <= 9999
    &&& 1 <= m <= 12
    &&& 1 <= d <= days_in_month(y, m)
}

impl Date {
    /// The fields form a valid calendar date.
    pub open spec fn wf(&self) -> bool {
        date_valid(self.year as int, self.month as int, self.day as int)
    }

    /// Exec counterpart of `wf`.
    pub fn is_valid(&self) -> (r: bool)
        ensures
            r == self.wf(),
    {
        if self.year > 9999 || self.month < 1 || self.month > 12 || self.day < 1 {
            return false;
        }
        let dim: u32 = if self.month == 2 {
            if self.year % 4 == 0 && (self.year % 100 != 0 || self.year % 400 == 0) {
                29
            } else {
                28
            }
        } else if self.month == 4 || self.month == 6 || self.month == 9 || self.month == 11 {
            30
        } else {
            31
        };
        self.day <= dim
    }
}

/// The numeric value of a digit character.
pub open spec fn digit_val_char(c: char) -> int {
    c as u32 - '0' as u32
}

/// The year a `YYYY-MM-DD` string denotes.
pub open spec fn year_of_str(s: Seq<char>) -> int {
    digit_val_char(s[0]) * 1000 + digit_val_char(s[1]) * 100 + digit_val_char(s[2]) * 10
        + digit_val_char(s[3])
}

/// The month a `YYYY-MM-DD` string denotes.
pub open spec fn month_of_str(s: Seq<char>) -> int {
    digit_val_char(s[5]) * 10 + digit_val_char(s[6])
}

/// The day a `YYYY-MM-DD` string denotes.
pub open spec fn day_of_str(s: Seq<char>) -> int {
    digit_val_char(s[8]) * 10 + digit_val_char(s[9])
}

/// A well-formed `YYYY-MM-DD` date string: exactly ten characters, digits
/// and the two dashes in place, denoting a valid calendar date.
pub open spec fn date_str_wf(s: Seq<char>) -> bool {
    &&& s.len() == 10
    &&& is_ascii_digit_char(s[0])
    &&& is_ascii_digit_char(s[1])
    &&& is_ascii_digit_char(s[2])
    &&& is_ascii_digit_char(s[3])
    &&& s[4] == '-'
    &&& is_ascii_digit_char(s[5])
    &&& is_ascii_digit_char(s[6])
    &&& s[7] == '-'
    &&& is_ascii_digit_char(s[8])
    &&& is_ascii_digit_char(s[9])
    &&& date_valid(year_of_str(s), month_of_str(s), day_of_str(s))
}

/// Parses a `YYYY-MM-DD` string into a date, rejecting anything that is not
/// a well-formed valid calendar date.
pub fn parse_date(s: &str) -> (r: Option<Date>)
    ensures
        match r {
            Some(d) => {
                &&& date_str_wf(s@)
                &&& d.wf()
                &&& d.year as int == year_of_str(s@)
                &&& d.month as int == month_of_str(s@)
                &&& d.day as int == day_of_str(s@)
            },
            None => !date_str_wf(s@),
        },
{
    let n = s.unicode_len();
    if n != 10 {
        return None;
    }
    if s.get_char(4) != '-' || s.get_char(7) != '-' {
        return None;
    }
    let mut digits: [u32; 8] = [0, 0, 0, 0, 0, 0, 0, 0];
    let positions: [usize; 8] = [0, 1, 2, 3, 5, 6, 8, 9];
    let mut k: usize = 0;
    while k < 8
        invariant
            0 <= k <= 8,
            s@.len() == 10,
            positions@ =~= seq![0usize, 1, 2, 3, 5, 6, 8, 9],
            forall|j: int| 0 <= j < k ==> is_ascii_digit_char(s@[positions@[j] as int]),
            forall|j: int|
                0 <= j < k ==> digits@[j] as int == digit_val_char(s@[positions@[j] as int]),
        decreases 8 - k,
    {
        let c = s.get_char(positions[k]);
        if c < '0' || c > '9' {
            return None;
        }
        digits[k] = c as u32 - '0' as u32;
        k = k + 1;
    }
    let year = digits[0] * 1000 + digits[1] * 100 + digits[2] * 10 + digits[3];
    let month = digits[4] * 10 + digits[5];
    let day = digits[6] * 10 + digits[7];
    let d = Date { year, month, day };
    if d.is_valid() {
        Some(d)
    } else {
        None
    }
}

/// The `YYYY-MM-DD` rendering of a date, zero-padded.
pub open spec fn date_str_of(d: Date) -> Seq<char> {
    seq![
        digit_char(d.year as int / 1000 % 10),
        digit_char(d.year as int / 100 % 10),
        digit_char(d.year as int / 10 % 10),
        digit_char(d.year as int % 10),
        '-',
        digit_char(d.month as int / 10 % 10),
        digit_char(d.month as int % 10),
        '-',
        digit_char(d.day as int / 10 % 10),
        digit_char(d.day as int % 10),
    ]
}

/// The character of one decimal digit.
pub open spec fn digit_char(v: int) -> char {
    ((48 + v) as u8) as char
}

/// Formats a date as `YYYY-MM-DD`, the form the insert statement binds and
/// the JSON layer serializes.
pub fn format_date(d: &Date) -> (s: String)
    requires
        d.wf(),
    ensures
        s@ =~= date_str_of(*d),
{
    let mut bytes: Vec<u8> = Vec::new();
    bytes.push(48 + (d.year / 1000 % 10) as u8);
    bytes.push(48 + (d.year / 100 % 10) as u8);
    bytes.push(48 + (d.year / 10 % 10) as u8);
    bytes.push(48 + (d.year % 10) as u8);
    bytes.push('-' as u8);
    bytes.push(48 + (d.month / 10 % 10) as u8);
    bytes.push(48 + (d.month % 10) as u8);
    bytes.push('-' as u8);
    bytes.push(48 + (d.day / 10 % 10) as u8);
    bytes.push(48 + (d.day % 10) as u8);
    let s = ascii_to_string(bytes);
    proof {
        assert(s@ =~= date_str_of(*d));
    }
    s
}

proof fn lemma_digit_char_props(v: int)
    requires
        0 <= v <= 9,
    ensures
        is_ascii_digit_char(digit_char(v)),
        digit_val_char(digit_char(v)) == v,
{
}

/// Formatting a valid date yields a well-formed date string that denotes the
/// same date, so parsing it back recovers the date exactly.
pub proof fn lemma_date_text_roundtrip(d: Date)
    requires
        d.wf(),
    ensures
        date_str_wf(date_str_of(d)),
        year_of_str(date_str_of(d)) == d.year as int,
        month_of_str(date_str_of(d)) == d.month as int,
        day_of_str(date_str_of(d)) == d.day as int,
{
    let y = d.year as int;
    let m = d.month as int;
    let dd = d.day as int;
    let a = y / 1000 % 10;
    let b = y / 100 % 10;
    let c = y / 10 % 10;
    let e = y % 10;
    lemma_digit_char_props(a);
    lemma_digit_char_props(b);
    lemma_digit_char_props(c);
    lemma_digit_char_props(e);
    lemma_digit_char_props(m / 10 % 10);
    lemma_digit_char_props(m % 10);
    lemma_digit_char_props(dd / 10 % 10);
    lemma_digit_char_props(dd % 10);
    assert(a * 1000 + b * 100 + c * 10 + e == y) by (nonlinear_arith)
        requires
            0 <= y <= 9999,
            a == y / 1000 % 10,
            b == y / 100 % 10,
            c == y / 10 % 10,
            e == y % 10,
    ;
    assert((m / 10 % 10) * 10 + m % 10 == m) by (nonlinear_arith)
        requires
            1 <= m <= 12,
    ;
    assert((dd / 10 % 10) * 10 + dd % 10 == dd) by (nonlinear_arith)
        requires
            1 <= dd <= 31,
    ;
}

/// An employee record as the insert endpoint receives it.
pub struct HREmployees {
    pub lastname: String,
    pub firstname: String,
    pub title: String,
    pub titleofcourtesy: String,
    pub birthdate: Date,
    pub hiredate: Date,
    pub address: String,
    pub city: String,
    pub region: String,
    pub postalcode: String,
    pub country: String,
    pub phone: String,
    pub mgrid: Option<i32>,
}

/// The field a validation failure names.
#[derive(Clone, Copy, PartialEq, Eq, Structural, Debug)]
pub enum EmployeeField {
    Lastname,
    Firstname,
    Title,
    Titleofcourtesy,
    Birthdate,
    Hiredate,
    Address,
    City,
    Region,
    Postalcode,
    Country,
    Phone,
}

/// Why a payload was rejected before any insert statement was built.
#[derive(Clone, Copy, PartialEq, Eq, Structural, Debug)]
pub enum ValidationError {
    /// The field's character count is outside its column bounds.
    Length(EmployeeField),
    /// The field holds a character outside ASCII letters and digits.
    Charset(EmployeeField),
    /// The date field is not a valid calendar date.
    Date(EmployeeField),
}

/// The character count of `s` lies within the closed bounds.
pub open spec fn len_ok(s: Seq<char>, min: int, max: int) -> bool {
    min <= s.len() <= max
}

/// A payload every constraint accepts: length bounds on every text field,
/// the ASCII-alphanumeric charset on the name-like fields, and valid dates.
pub open spec fn employee_valid(e: &HREmployees) -> bool {
    &&& len_ok(e.lastname@, 1, 20)
    &&& all_ascii_alnum(e.lastname@)
    &&& len_ok(e.firstname@, 1, 10)
    &&& all_ascii_alnum(e.firstname@)
    &&& len_ok(e.title@, 1, 50)
    &&& len_ok(e.titleofcourtesy@, 1, 30)
    &&& e.birthdate.wf()
    &&& e.hiredate.wf()
    &&& len_ok(e.address@, 1, 50)
    &&& len_ok(e.city@, 1, 60)
    &&& all_ascii_alnum(e.city@)
    &&& len_ok(e.region@, 1, 50)
    &&& all_ascii_alnum(e.region@)
    &&& len_ok(e.postalcode@, 1, 10)
    &&& all_ascii_alnum(e.postalcode@)
    &&& len_ok(e.country@, 1, 15)
    &&& all_ascii_alnum(e.country@)
    &&& len_ok(e.phone@, 1, 24)
}

/// The first failure `validate` reports, in field declaration order, length
/// before charset within a field.
pub open spec fn validate_spec(e: &HREmployees) -> Result<(), ValidationError> {
    if !len_ok(e.lastname@, 1, 20) {
        Err(ValidationError::Length(EmployeeField::Lastname))
    } else if !all_ascii_alnum(e.lastname@) {
        Err(ValidationError::Charset(EmployeeField::Lastname))
    } else if !len_ok(e.firstname@, 1, 10) {
        Err(ValidationError::Length(EmployeeField::Firstname))
    } else if !all_ascii_alnum(e.firstname@) {
        Err(ValidationError::Charset(EmployeeField::Firstname))
    } else if !len_ok(e.title@, 1, 50) {
        Err(ValidationError::Length(EmployeeField::Title))
    } else if !len_ok(e.titleofcourtesy@, 1, 30) {
        Err(ValidationError::Length(EmployeeField::Titleofcourtesy))
    } else if !e.birthdate.wf() {
        Err(ValidationError::Date(EmployeeField::Birthdate))
    } else if !e.hiredate.wf() {
        Err(ValidationError::Date(EmployeeField::Hiredate))
    } else if !len_ok(e.address@, 1, 50) {
        Err(ValidationError::Length(EmployeeField::Address))
    } else if !len_ok(e.city@, 1, 60) {
        Err(ValidationError::Length(EmployeeField::City))
    } else if !all_ascii_alnum(e.city@) {
        Err(ValidationError::Charset(EmployeeField::City))
    } else if !len_ok(e.region@, 1, 50) {
        Err(ValidationError::Length(EmployeeField::Region))
    } else if !all_ascii_alnum(e.region@) {
        Err(ValidationError::Charset(EmployeeField::Region))
    } else if !len_ok(e.postalcode@, 1, 10) {
        Err(ValidationError::Length(EmployeeField::Postalcode))
    } else if !all_ascii_alnum(e.postalcode@) {
        Err(ValidationError::Charset(EmployeeField::Postalcode))
    } else if !len_ok(e.country@, 1, 15) {
        Err(ValidationError::Length(EmployeeField::Country))
    } else if !all_ascii_alnum(e.country@) {
        Err(ValidationError::Charset(EmployeeField::Country))
    } else if !len_ok(e.phone@, 1, 24) {
        Err(ValidationError::Length(EmployeeField::Phone))
    } else {
        Ok(())
    }
}

/// The character count of `s` lies within the closed bounds.
fn check_len(s: &str, min: usize, max: usize) -> (r: bool)
    ensures
        r == len_ok(s@, min as int, max as int),
{
    let n = s.unicode_len();
    min <= n && n <= max
}

/// Whether every character of `s` is an ASCII letter or digit. This check
/// runs, and must reject, before any database statement is built.
pub fn string_ascii_check(s: &str) -> (r: bool)
    ensures
        r == all_ascii_alnum(s@),
{
    let n = s.unicode_len();
    let mut i: usize = 0;
    while i < n
        invariant
            0 <= i <= n,
            n == s@.len(),
            forall|j: int| 0 <= j < i ==> is_ascii_alnum_char(s@[j]),
        decreases n - i,
    {
        if !ascii_alnum_char(s.get_char(i)) {
            return false;
        }
        i = i + 1;
    }
    true
}

impl HREmployees {
    /// Validates the payload against every per-field constraint, reporting
    /// the first failure in field order. Succeeds exactly on the payloads
    /// `employee_valid` accepts; a caller must see `Ok` before it builds any
    /// insert statement.
    pub fn validate(&self) -> (r: Result<(), ValidationError>)
        ensures
            r == validate_spec(self),
            r is Ok <==> employee_valid(self),
    {
        if !check_len(self.lastname.as_str(), 1, 20) {
            return Err(ValidationError::Length(EmployeeField::Lastname));
        }
        if !string_ascii_check(self.lastname.as_str()) {
            return Err(ValidationError::Charset(EmployeeField::Lastname));
        }
        if !check_len(self.firstname.as_str(), 1, 10) {
            return Err(ValidationError::Length(EmployeeField::Firstname));
        }
        if !string_ascii_check(self.firstname.as_str()) {
            return Err(ValidationError::Charset(EmployeeField::Firstname));
        }
        if !check_len(self.title.as_str(), 1, 50) {
            return Err(ValidationError::Length(EmployeeField::Title));
        }
        if !check_len(self.titleofcourtesy.as_str(), 1, 30) {
            return Err(ValidationError::Length(EmployeeField::Titleofcourtesy));
        }
        if !self.birthdate.is_valid() {
            return Err(ValidationError::Date(EmployeeField::Birthdate));
        }
        if !self.hiredate.is_valid() {
            return Err(ValidationError::Date(EmployeeField::Hiredate));
        }
        if !check_len(self.address.as_str(), 1, 50) {
            return Err(ValidationError::Length(EmployeeField::Address));
        }
        if !check_len(self.city.as_str(), 1, 60) {
            return Err(ValidationError::Length(EmployeeField::City));
        }
        if !string_ascii_check(self.city.as_str()) {
            return Err(ValidationError::Charset(EmployeeField::City));
        }
        if !check_len(self.region.as_str(), 1, 50) {
            return Err(ValidationError::Length(EmployeeField::Region));
        }
        if !string_ascii_check(self.region.as_str()) {
            return Err(ValidationError::Charset(EmployeeField::Region));
        }
        if !check_len(self.postalcode.as_str(), 1, 10) {
            return Err(ValidationError::Length(EmployeeField::Postalcode));
        }
        if !string_ascii_check(self.postalcode.as_str()) {
            return Err(ValidationError::Charset(EmployeeField::Postalcode));
        }
        if !check_len(self.country.as_str(), 1, 15) {
            return Err(ValidationError::Length(EmployeeField::Country));
        }
        if !string_ascii_check(self.country.as_str()) {
            return Err(ValidationError::Charset(EmployeeField::Country));
        }
        if !check_len(self.phone.as_str(), 1, 24) {
            return Err(ValidationError::Length(EmployeeField::Phone));
        }
        Ok(())
    }
}

/// A payload with a character outside ASCII letters and digits in a
/// name-like field is rejected: validation cannot succeed on it, so no
/// insert statement is ever built from it.
pub proof fn lemma_charset_violation_rejected(e: &HREmployees)
    requires
        !all_ascii_alnum(e.lastname@) || !all_ascii_alnum(e.firstname@) || !all_ascii_alnum(e.city@)
            || !all_ascii_alnum(e.region@) || !all_ascii_alnum(e.postalcode@) || !all_ascii_alnum(
            e.country@,
        ),
    ensures
        validate_spec(e) is Err,
{
}

} // verus!
