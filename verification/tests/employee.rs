use rate_ingest::employee::{format_date, parse_date, string_ascii_check, Date, EmployeeField,
    HREmployees, ValidationError};

fn valid_employee() -> HREmployees {
    HREmployees {
        lastname: "Davolio".to_string(),
        firstname: "Nancy".to_string(),
        title: "Sales Representative".to_string(),
        titleofcourtesy: "Ms.".to_string(),
        birthdate: Date { year: 1968, month: 12, day: 8 },
        hiredate: Date { year: 2012, month: 5, day: 1 },
        address: "507 20th Ave. E. Apt. 2A".to_string(),
        city: "Seattle".to_string(),
        region: "WA".to_string(),
        postalcode: "98122".to_string(),
        country: "USA".to_string(),
        phone: "(206) 555-9857".to_string(),
        mgrid: Some(2),
    }
}

#[test]
fn valid_payload_passes_validation() {
    assert_eq!(valid_employee().validate(), Ok(()));
}

#[test]
fn non_alphanumeric_name_is_rejected_before_any_insert() {
    let mut e = valid_employee();
    e.lastname = "Dav'olio".to_string();
    assert_eq!(
        e.validate(),
        Err(ValidationError::Charset(EmployeeField::Lastname))
    );
}

#[test]
fn non_ascii_name_is_rejected() {
    let mut e = valid_employee();
    e.firstname = "Zoë".to_string();
    assert_eq!(
        e.validate(),
        Err(ValidationError::Charset(EmployeeField::Firstname))
    );
}

#[test]
fn empty_field_fails_length_bound() {
    let mut e = valid_employee();
    e.lastname = String::new();
    assert_eq!(
        e.validate(),
        Err(ValidationError::Length(EmployeeField::Lastname))
    );
}

#[test]
fn overlong_field_fails_length_bound() {
    let mut e = valid_employee();
    e.firstname = "Maximiliana".to_string();
    assert_eq!(
        e.validate(),
        Err(ValidationError::Length(EmployeeField::Firstname))
    );
}

#[test]
fn invalid_date_is_rejected() {
    let mut e = valid_employee();
    e.hiredate = Date { year: 2012, month: 2, day: 30 };
    assert_eq!(e.validate(), Err(ValidationError::Date(EmployeeField::Hiredate)));
}

#[test]
fn first_failing_field_is_reported() {
    let mut e = valid_employee();
    e.firstname = "N@ncy".to_string();
    e.city = String::new();
    assert_eq!(
        e.validate(),
        Err(ValidationError::Charset(EmployeeField::Firstname))
    );
}

#[test]
fn ascii_check_accepts_letters_and_digits_only() {
    assert!(string_ascii_check("Davolio123"));
    assert!(!string_ascii_check("a b"));
    assert!(!string_ascii_check("a-b"));
    assert!(!string_ascii_check("Đorđe"));
    assert!(string_ascii_check(""));
}

#[test]
fn dates_parse_from_dashed_form() {
    assert_eq!(parse_date("1968-12-08"), Some(Date { year: 1968, month: 12, day: 8 }));
    assert_eq!(parse_date("2020-02-29"), Some(Date { year: 2020, month: 2, day: 29 }));
    assert_eq!(parse_date("2021-02-29"), None);
    assert_eq!(parse_date("2020-13-01"), None);
    assert_eq!(parse_date("2020-00-10"), None);
    assert_eq!(parse_date("2020-1-01"), None);
    assert_eq!(parse_date("20200101"), None);
    assert_eq!(parse_date("yyyy-mm-dd"), None);
}

#[test]
fn dates_format_zero_padded() {
    assert_eq!(format_date(&Date { year: 1987, month: 6, day: 5 }), "1987-06-05");
    assert_eq!(format_date(&Date { year: 33, month: 11, day: 30 }), "0033-11-30");
}

#[test]
fn date_roundtrips_through_text() {
    let d = Date { year: 2024, month: 2, day: 29 };
    assert_eq!(parse_date(&format_date(&d)), Some(d));
}
