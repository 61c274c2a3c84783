//! Report records of the query gateway and the typed row-mapping step.
//!
//! The gateway's fixed queries return rows whose columns are read by name
//! and may be absent. Mapping such a row to a typed record fails with a
//! `MappingError` instead of crashing; the caller decides whether to abort
//! the batch or skip the row.

use vstd::prelude::*;

verus! {

/// Why a fetched row could not be mapped to a typed record.
#[derive(Clone, Copy, PartialEq, Eq, Structural, Debug)]
pub enum MappingError {
    /// An expected column is absent from the row.
    MissingColumn,
    /// The row has the wrong number of columns for the record.
    WrongArity,
}

/// One row of the top-performers report: the best-performing employees per
/// top customer, one text column for each of the ten fixed customers.
pub struct TopPerformers {
    pub customer_thhdp: String,
    pub customer_cyztn: String,
    pub customer_ibvrg: String,
    pub customer_frxzl: String,
    pub customer_gllag: String,
    pub customer_irrvl: String,
    pub customer_nyuhs: String,
    pub customer_lcouj: String,
    pub customer_sfogw: String,
    pub customer_ybqti: String,
}

impl TopPerformers {
    /// Maps one fetched row, given as its ten columns in query order, to a
    /// record. Succeeds exactly when all ten columns are present.
    pub fn from_columns(cols: Vec<Option<String>>) -> (r: Result<TopPerformers, MappingError>)
        ensures
            r is Ok <==> (cols@.len() == 10 && (forall|i: int| 0 <= i < 10 ==> cols@[i] is Some)),
            cols@.len() != 10 ==> r == Result::<TopPerformers, MappingError>::Err(
                MappingError::WrongArity,
            ),
            (cols@.len() == 10 && (exists|i: int| 0 <= i < 10 && cols@[i] is None)) ==> r
                == Result::<TopPerformers, MappingError>::Err(MappingError::MissingColumn),
            r matches Ok(t) ==> {
                &&& t.customer_thhdp@ == cols@[0]->Some_0@
                &&& t.customer_cyztn@ == cols@[1]->Some_0@
                &&& t.customer_ibvrg@ == cols@[2]->Some_0@
                &&& t.customer_frxzl@ == cols@[3]->Some_0@
                &&& t.customer_gllag@ == cols@[4]->Some_0@
                &&& t.customer_irrvl@ == cols@[5]->Some_0@
                &&& t.customer_nyuhs@ == cols@[6]->Some_0@
                &&& t.customer_lcouj@ == cols@[7]->Some_0@
                &&& t.customer_sfogw@ == cols@[8]->Some_0@
                &&& t.customer_ybqti@ == cols@[9]->Some_0@
            },
    {
        let mut cols = cols;
        if cols.len() != 10 {
            return Err(MappingError::WrongArity);
        }
        let customer_ybqti = match cols.pop() {
            Some(Some(s)) => s,
            _ => {
                return Err(MappingError::MissingColumn);
            },
        };
        let customer_sfogw = match cols.pop() {
            Some(Some(s)) => s,
            _ => {
                return Err(MappingError::MissingColumn);
            },
        };
        let customer_lcouj = match cols.pop() {
            Some(Some(s)) => s,
            _ => {
                return Err(MappingError::MissingColumn);
            },
        };
        let customer_nyuhs = match cols.pop() {
            Some(Some(s)) => s,
            _ => {
                return Err(MappingError::MissingColumn);
            },
        };
        let customer_irrvl = match cols.pop() {
            Some(Some(s)) => s,
            _ => {
                return Err(MappingError::MissingColumn);
            },
        };
        let customer_gllag = match cols.pop() {
            Some(Some(s)) => s,
            _ => {
                return Err(MappingError::MissingColumn);
            },
        };
        let customer_frxzl = match cols.pop() {
            Some(Some(s)) => s,
            _ => {
                return Err(MappingError::MissingColumn);
            },
        };
        let customer_ibvrg = match cols.pop() {
            Some(Some(s)) => s,
            _ => {
                return Err(MappingError::MissingColumn);
            },
        };
        let customer_cyztn = match cols.pop() {
            Some(Some(s)) => s,
            _ => {
                return Err(MappingError::MissingColumn);
            },
        };
        let customer_thhdp = match cols.pop() {
            Some(Some(s)) => s,
            _ => {
                return Err(MappingError::MissingColumn);
            },
        };
        Ok(
            TopPerformers {
                customer_thhdp,
                customer_cyztn,
                customer_ibvrg,
                customer_frxzl,
                customer_gllag,
                customer_irrvl,
                customer_nyuhs,
                customer_lcouj,
                customer_sfogw,
                customer_ybqti,
            },
        )
    }
}

} // verus!
