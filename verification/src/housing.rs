//! Housing-report records and their field cleanup.

use vstd::prelude::*;

use crate::text::is_ascii_alnum_char;

verus! {

/// How many houses were built in one year, as the year-built report returns
/// it.
pub struct YearBuiltCount {
    pub year_built: String,
    pub total_houses: i32,
}

impl YearBuiltCount {
    /// Cleans the year label: an empty or literal `null` label becomes
    /// `Unknown`, anything else keeps only its ASCII letters and digits.
    pub fn clean_string_fields(&mut self)
        ensures
            final (self).total_houses == old(self).total_houses,
            (old(self).year_built@.len() == 0 || old(self).year_built@ == "null"@) ==> final (self).year_built@ == "Unknown"@,
            !(old(self).year_built@.len() == 0 || old(self).year_built@ == "null"@) ==> final (self).year_built@ == old(self).year_built@.filter(|c: char| is_ascii_alnum_char(c)),
    {
        let null_label: String = String::from_str("null");
        if self.year_built.as_str().is_empty() || self.year_built == null_label {
            self.year_built = String::from_str("Unknown");
        } else {
            let cleaned = crate::text::filter_alnum_string(self.year_built.as_str());
            self.year_built = cleaned;
        }
    }

    /// Cleans the count: the column type's maximum stands for a missing
    /// count and becomes zero, a negative count is rejected, and any other
    /// count is kept as it is.
    pub fn clean_i32_fields(&mut self) -> (r: Result<(), &'static str>)
        ensures
            final (self).year_built == old(self).year_built,
            old(self).total_houses == i32::MAX ==> r is Ok && final (self).total_houses == 0,
            old(self).total_houses < 0 ==> r is Err && final (self).total_houses == old(self).total_houses,
            (0 <= old(self).total_houses < i32::MAX) ==> r is Ok && final (self).total_houses
                == old(self).total_houses,
            r matches Err(m) ==> m@ == "Invalid value for total_houses: 0"@,
    {
        if self.total_houses == i32::MAX {
            self.total_houses = 0;
        } else if self.total_houses < 0 {
            return Err("Invalid value for total_houses: 0");
        }
        Ok(())
    }
}

} // verus!
