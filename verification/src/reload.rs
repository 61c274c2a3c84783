//! Replace-and-reload of the destination currency table.
//!
//! A reload is never incremental: it drops and recreates the table, inserts
//! every normalized record as an individual statement in input order, and
//! then triggers the store's post-load recalculation. Each step is a
//! distinct failure point, and the first failure aborts everything after it.
//! The steps are deliberately not wrapped in a transaction: a failure leaves
//! the table in whatever state the completed steps produced, and the caller
//! must treat a failed run as "reload incomplete" and trigger it again.
//!
//! The decision logic lives here as a small state machine: the caller that
//! owns the real connection performs one action at a time and reports its
//! outcome back. `CurrencyTable` is the in-memory model of the destination
//! table that the contracts (and the tests) speak of.

use vstd::prelude::*;

use crate::normalize::{CurrencyRecord, CurrencyRecordModel};
use crate::scan::copy_range;

verus! {

/// A fresh copy of a byte field.
fn copy_bytes(v: &Vec<u8>) -> (r: Vec<u8>)
    ensures
        r@ =~= v@,
{
    copy_range(v.as_slice(), 0, v.len())
}

/// A fresh copy of a record.
pub fn copy_record(rec: &CurrencyRecord) -> (r: CurrencyRecord)
    ensures
        r@ == rec@,
{
    let date = match &rec.date {
        Some(d) => Some(copy_bytes(d)),
        None => None,
    };
    let r = CurrencyRecord {
        code: copy_bytes(&rec.code),
        numeric_id: rec.numeric_id,
        country_name: copy_bytes(&rec.country_name),
        unit_basis: rec.unit_basis,
        mid_rate: copy_bytes(&rec.mid_rate),
        date,
    };
    proof {
        assert(r@.code =~= rec@.code);
        assert(r@.country_name =~= rec@.country_name);
        assert(r@.mid_rate =~= rec@.mid_rate);
        match rec.date {
            Some(_) => {
                assert(r@.date->Some_0 =~= rec@.date->Some_0);
            },
            None => {},
        }
    }
    r
}

/// In-memory model of the destination currency table.
pub struct CurrencyTable {
    pub rows: Vec<CurrencyRecord>,
}

impl View for CurrencyTable {
    type V = Seq<CurrencyRecordModel>;

    open spec fn view(&self) -> Seq<CurrencyRecordModel> {
        self.rows.deep_view()
    }
}

/// What recreating the schema leaves: an existing but empty table.
pub open spec fn recreate_spec(table: Seq<CurrencyRecordModel>) -> Seq<CurrencyRecordModel> {
    Seq::empty()
}

/// What one insert leaves: the record appended.
pub open spec fn insert_spec(
    table: Seq<CurrencyRecordModel>,
    rec: CurrencyRecordModel,
) -> Seq<CurrencyRecordModel> {
    table.push(rec)
}

/// What inserting every record in order leaves.
pub open spec fn insert_all_spec(
    table: Seq<CurrencyRecordModel>,
    records: Seq<CurrencyRecordModel>,
) -> Seq<CurrencyRecordModel>
    decreases records.len(),
{
    if records.len() == 0 {
        table
    } else {
        insert_all_spec(insert_spec(table, records[0]), records.drop_first())
    }
}

/// What a whole successful reload leaves in the table: recreate, then insert
/// every record in order.
pub open spec fn reload_result(
    table: Seq<CurrencyRecordModel>,
    records: Seq<CurrencyRecordModel>,
) -> Seq<CurrencyRecordModel> {
    insert_all_spec(recreate_spec(table), records)
}

pub proof fn lemma_insert_all_appends(
    table: Seq<CurrencyRecordModel>,
    records: Seq<CurrencyRecordModel>,
)
    ensures
        insert_all_spec(table, records) =~= table + records,
    decreases records.len(),
{
    if records.len() > 0 {
        lemma_insert_all_appends(table.push(records[0]), records.drop_first());
        assert(table.push(records[0]) + records.drop_first() =~= table + records);
    }
}

/// A reload replaces the table's contents with exactly the given records: no
/// prior row survives and no record is duplicated.
pub proof fn lemma_reload_replaces(
    table: Seq<CurrencyRecordModel>,
    records: Seq<CurrencyRecordModel>,
)
    ensures
        reload_result(table, records) =~= records,
{
    lemma_insert_all_appends(Seq::empty(), records);
}

/// Reloading twice with the same records leaves the same table as reloading
/// once: the first reload's rows are fully replaced, never appended to.
pub proof fn lemma_reload_idempotent(
    table: Seq<CurrencyRecordModel>,
    records: Seq<CurrencyRecordModel>,
)
    ensures
        reload_result(reload_result(table, records), records) =~= reload_result(table, records),
{
    lemma_reload_replaces(table, records);
    lemma_reload_replaces(reload_result(table, records), records);
}

impl CurrencyTable {
    /// An absent (never yet created) destination table.
    pub fn new() -> (t: CurrencyTable)
        ensures
            t@ =~= Seq::<CurrencyRecordModel>::empty(),
    {
        CurrencyTable { rows: Vec::new() }
    }

    /// How many records the table holds.
    pub fn len(&self) -> (n: usize)
        ensures
            n == self@.len(),
    {
        self.rows.len()
    }

    /// Drops the table if present and creates it empty.
    pub fn recreate(&mut self)
        ensures
            final (self)@ =~= recreate_spec(old(self)@),
    {
        self.rows.clear();
    }

    /// Appends one record.
    pub fn insert(&mut self, rec: &CurrencyRecord)
        ensures
            final (self)@ =~= insert_spec(old(self)@, rec@),
    {
        let r = copy_record(rec);
        let ghost before = self.rows.deep_view();
        self.rows.push(r);
        proof {
            assert(self.rows.deep_view() =~= before.push(rec@));
        }
    }

    /// Replaces the table's whole contents with the given records, in order.
    /// This is the success path of a reload run; the fallible, step-by-step
    /// path against a real store goes through `ReloadMachine`.
    pub fn reload(&mut self, records: &Vec<CurrencyRecord>)
        ensures
            final (self)@ =~= reload_result(old(self)@, records.deep_view()),
            final (self)@ =~= records.deep_view(),
    {
        self.recreate();
        let n = records.len();
        let ghost rs = records.deep_view();
        let mut i: usize = 0;
        while i < n
            invariant
                0 <= i <= n,
                n == records@.len(),
                rs =~= records.deep_view(),
                self@ =~= rs.subrange(0, i as int),
            decreases n - i,
        {
            self.insert(&records[i]);
            proof {
                assert(records.deep_view()[i as int] == records@[i as int].deep_view());
                assert(self@ =~= rs.subrange(0, i + 1));
            }
            i = i + 1;
        }
        proof {
            assert(rs.subrange(0, n as int) =~= rs);
            lemma_reload_replaces(old(self)@, rs);
        }
    }
}

/// The failure taxonomy of a reload run, one kind per step.
#[derive(Clone, Copy, PartialEq, Eq, Structural, Debug)]
pub enum ReloadError {
    /// Dropping or creating the destination table failed; no insert was
    /// attempted.
    SchemaRecreate,
    /// An individual record insert failed; the remaining inserts were
    /// abandoned.
    RecordInsert,
    /// The post-load recalculation routine failed; the records are persisted
    /// but derived data may be stale, so the reload counts as incomplete.
    Recalculate,
}

/// One outward action of a reload run, to be performed against the real
/// store by the caller that owns the connection.
#[derive(Clone, Copy, PartialEq, Eq, Structural, Debug)]
pub enum ReloadAction {
    /// Drop the destination table if present and create it afresh.
    RecreateSchema,
    /// Insert the record at this index of the run's record list, bound as an
    /// individual parameterized statement.
    InsertRecord(usize),
    /// Invoke the store's post-load currency-conversion recalculation.
    Recalculate,
}

/// Where a reload run stands.
#[derive(Clone, Copy, PartialEq, Eq, Structural, Debug)]
pub enum ReloadPhase {
    /// The schema step is next.
    Recreating,
    /// The record at this index is the next to insert.
    Inserting(usize),
    /// All records are inserted; the recalculation step is next.
    Recalculating,
    /// Every step succeeded.
    Succeeded,
    /// A step failed and the run stopped there.
    Failed(ReloadError),
}

/// The action a phase asks for, if the run is still going.
pub open spec fn action_of(phase: ReloadPhase) -> Option<ReloadAction> {
    match phase {
        ReloadPhase::Recreating => Some(ReloadAction::RecreateSchema),
        ReloadPhase::Inserting(i) => Some(ReloadAction::InsertRecord(i)),
        ReloadPhase::Recalculating => Some(ReloadAction::Recalculate),
        ReloadPhase::Succeeded => None,
        ReloadPhase::Failed(_) => None,
    }
}

/// The phase after one step's outcome. The first failure moves the run to
/// `Failed` for that step's error kind, and nothing runs after a failure.
pub open spec fn step_spec(phase: ReloadPhase, n_records: int, ok: bool) -> ReloadPhase {
    match phase {
        ReloadPhase::Recreating => if !ok {
            ReloadPhase::Failed(ReloadError::SchemaRecreate)
        } else if n_records == 0 {
            ReloadPhase::Recalculating
        } else {
            ReloadPhase::Inserting(0)
        },
        ReloadPhase::Inserting(i) => if !ok {
            ReloadPhase::Failed(ReloadError::RecordInsert)
        } else if i + 1 < n_records {
            ReloadPhase::Inserting((i + 1) as usize)
        } else {
            ReloadPhase::Recalculating
        },
        ReloadPhase::Recalculating => if !ok {
            ReloadPhase::Failed(ReloadError::Recalculate)
        } else {
            ReloadPhase::Succeeded
        },
        _ => phase,
    }
}

/// The step-by-step reload run over a fixed record list. The caller asks for
/// the next action, performs it against the real store, and reports whether
/// it succeeded; the machine decides what, if anything, comes next.
pub struct ReloadMachine {
    pub records: Vec<CurrencyRecord>,
    pub phase: ReloadPhase,
}

impl ReloadMachine {
    /// Every insert index the machine can reach stays inside the record
    /// list.
    pub open spec fn wf(&self) -> bool {
        match self.phase {
            ReloadPhase::Inserting(i) => i < self.records@.len(),
            _ => true,
        }
    }

    /// A run over `records`, about to recreate the schema.
    pub fn new(records: Vec<CurrencyRecord>) -> (m: ReloadMachine)
        ensures
            m.wf(),
            m.phase == ReloadPhase::Recreating,
            m.records.deep_view() =~= records.deep_view(),
    {
        ReloadMachine { records, phase: ReloadPhase::Recreating }
    }

    /// The next action to perform, or nothing once the run has succeeded or
    /// failed.
    pub fn next_action(&self) -> (a: Option<ReloadAction>)
        ensures
            a == action_of(self.phase),
    {
        match self.phase {
            ReloadPhase::Recreating => Some(ReloadAction::RecreateSchema),
            ReloadPhase::Inserting(i) => Some(ReloadAction::InsertRecord(i)),
            ReloadPhase::Recalculating => Some(ReloadAction::Recalculate),
            ReloadPhase::Succeeded => None,
            ReloadPhase::Failed(_) => None,
        }
    }

    /// Records the outcome of the action last asked for.
    pub fn apply(&mut self, ok: bool)
        requires
            old(self).wf(),
            action_of(old(self).phase) is Some,
        ensures
            final (self).wf(),
            final (self).records == old(self).records,
            final (self).phase == step_spec(old(self).phase, old(self).records@.len() as int, ok),
    {
        let n = self.records.len();
        let next = match self.phase {
            ReloadPhase::Recreating => {
                if !ok {
                    ReloadPhase::Failed(ReloadError::SchemaRecreate)
                } else if n == 0 {
                    ReloadPhase::Recalculating
                } else {
                    ReloadPhase::Inserting(0)
                }
            },
            ReloadPhase::Inserting(i) => {
                if !ok {
                    ReloadPhase::Failed(ReloadError::RecordInsert)
                } else if i + 1 < n {
                    ReloadPhase::Inserting(i + 1)
                } else {
                    ReloadPhase::Recalculating
                }
            },
            ReloadPhase::Recalculating => {
                if !ok {
                    ReloadPhase::Failed(ReloadError::Recalculate)
                } else {
                    ReloadPhase::Succeeded
                }
            },
            ReloadPhase::Succeeded => ReloadPhase::Succeeded,
            ReloadPhase::Failed(e) => ReloadPhase::Failed(e),
        };
        self.phase = next;
    }

    /// The run's outcome, once it is over.
    pub fn outcome(&self) -> (r: Option<Result<(), ReloadError>>)
        ensures
            match self.phase {
                ReloadPhase::Succeeded => r == Some(Result::<(), ReloadError>::Ok(())),
                ReloadPhase::Failed(e) => r == Some(Result::<(), ReloadError>::Err(e)),
                _ => r is None,
            },
    {
        match self.phase {
            ReloadPhase::Succeeded => Some(Ok(())),
            ReloadPhase::Failed(e) => Some(Err(e)),
            _ => None,
        }
    }
}

/// When the schema-recreate step fails, the run is over at once: the machine
/// asks for no insert (and no other action) afterwards, and its outcome is
/// the schema error.
pub proof fn lemma_schema_failure_blocks_inserts(n: int)
    ensures
        step_spec(ReloadPhase::Recreating, n, false) == ReloadPhase::Failed(
            ReloadError::SchemaRecreate,
        ),
        action_of(step_spec(ReloadPhase::Recreating, n, false)) is None,
{
}

/// A failed step never hands control onward: from a failed phase no further
/// action is ever asked for.
pub proof fn lemma_failure_is_final(e: ReloadError)
    ensures
        action_of(ReloadPhase::Failed(e)) is None,
{
}

} // verus!
