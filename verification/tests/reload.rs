use rate_ingest::normalize::{normalize, CurrencyRecord};
use rate_ingest::reload::{CurrencyTable, ReloadAction, ReloadError, ReloadMachine};

fn record(code: &[u8], id: i32, rate: &[u8]) -> CurrencyRecord {
    let row: Vec<Vec<u8>> = vec![
        code.to_vec(),
        id.to_string().into_bytes(),
        b"Somewhere".to_vec(),
        b"1".to_vec(),
        rate.to_vec(),
    ];
    normalize(&row).expect("test record should normalize")
}

#[test]
fn reload_replaces_prior_contents() {
    let mut table = CurrencyTable::new();
    let old = vec![record(b"OLD", 1, b"9,99")];
    table.reload(&old);
    assert_eq!(table.len(), 1);
    let new = vec![record(b"EUR", 978, b"117,4523"), record(b"JPY", 392, b"74,11")];
    table.reload(&new);
    assert_eq!(table.len(), 2);
    assert_eq!(table.rows[0].code, b"EUR".to_vec());
    assert_eq!(table.rows[1].code, b"JPY".to_vec());
}

#[test]
fn reload_twice_yields_same_record_set() {
    let mut table = CurrencyTable::new();
    let recs = vec![record(b"EUR", 978, b"117,4523"), record(b"JPY", 392, b"74,11")];
    table.reload(&recs);
    let first: Vec<Vec<u8>> = table.rows.iter().map(|r| r.code.clone()).collect();
    table.reload(&recs);
    let second: Vec<Vec<u8>> = table.rows.iter().map(|r| r.code.clone()).collect();
    assert_eq!(table.len(), 2);
    assert_eq!(first, second);
}

/// Drives a machine against a scripted store: `fail_at` names the action
/// ordinal (counting from zero) that fails. Returns the actions performed
/// and the outcome.
fn drive(
    records: Vec<CurrencyRecord>,
    fail_at: Option<usize>,
) -> (Vec<ReloadAction>, Result<(), ReloadError>) {
    let mut machine = ReloadMachine::new(records);
    let mut performed = Vec::new();
    while let Some(action) = machine.next_action() {
        let ok = fail_at != Some(performed.len());
        performed.push(action);
        machine.apply(ok);
    }
    (performed, machine.outcome().expect("run must end with an outcome"))
}

#[test]
fn successful_run_performs_every_step_in_order() {
    let recs = vec![record(b"EUR", 978, b"117,4523"), record(b"JPY", 392, b"74,11")];
    let (actions, outcome) = drive(recs, None);
    assert_eq!(
        actions,
        vec![
            ReloadAction::RecreateSchema,
            ReloadAction::InsertRecord(0),
            ReloadAction::InsertRecord(1),
            ReloadAction::Recalculate,
        ]
    );
    assert_eq!(outcome, Ok(()));
}

#[test]
fn schema_failure_attempts_zero_inserts() {
    let recs = vec![record(b"EUR", 978, b"117,4523"), record(b"JPY", 392, b"74,11")];
    let (actions, outcome) = drive(recs, Some(0));
    let inserts = actions
        .iter()
        .filter(|a| matches!(a, ReloadAction::InsertRecord(_)))
        .count();
    assert_eq!(inserts, 0);
    assert_eq!(actions, vec![ReloadAction::RecreateSchema]);
    assert_eq!(outcome, Err(ReloadError::SchemaRecreate));
}

#[test]
fn insert_failure_abandons_remaining_inserts() {
    let recs = vec![
        record(b"EUR", 978, b"117,4523"),
        record(b"JPY", 392, b"74,11"),
        record(b"GBP", 826, b"136,02"),
    ];
    let (actions, outcome) = drive(recs, Some(2));
    assert_eq!(
        actions,
        vec![
            ReloadAction::RecreateSchema,
            ReloadAction::InsertRecord(0),
            ReloadAction::InsertRecord(1),
        ]
    );
    assert_eq!(outcome, Err(ReloadError::RecordInsert));
}

#[test]
fn recalculation_failure_surfaces_as_incomplete_reload() {
    let recs = vec![record(b"EUR", 978, b"117,4523")];
    let (actions, outcome) = drive(recs, Some(2));
    assert_eq!(
        actions,
        vec![
            ReloadAction::RecreateSchema,
            ReloadAction::InsertRecord(0),
            ReloadAction::Recalculate,
        ]
    );
    assert_eq!(outcome, Err(ReloadError::Recalculate));
}

#[test]
fn empty_record_list_still_recreates_and_recalculates() {
    let (actions, outcome) = drive(Vec::new(), None);
    assert_eq!(actions, vec![ReloadAction::RecreateSchema, ReloadAction::Recalculate]);
    assert_eq!(outcome, Ok(()));
}
