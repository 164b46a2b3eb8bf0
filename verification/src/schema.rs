use vstd::prelude::*;

use crate::store::views_of_history;
use crate::strutil::str_eq;
use crate::types::HistoryRow;

verus! {

broadcast use vstd::string::group_string_axioms;

/// A fatal startup failure: the schema cannot be brought to the current
/// version, and the process must not proceed with an indeterminate layout.
#[derive(Clone, Copy, Debug, PartialEq, Eq, Structural)]
pub enum SchemaError {
    UnrecognizedVersion,
}

/// The version the current table layout carries.
pub fn current_version() -> (r: &'static str)
    ensures
        r@ == "2"@,
{
    "2"
}

/// The only version with a forward migration step.
pub fn legacy_version() -> (r: &'static str)
    ensures
        r@ == "1"@,
{
    "1"
}

/// The startup-relevant slice of the backing store: whether the metadata
/// table exists, the recorded schema version, and the history rows — the
/// one table whose layout changed between versions.
#[derive(Debug)]
pub struct SchemaStore {
    pub meta_present: bool,
    pub version: String,
    pub history: Vec<HistoryRow>,
}

impl SchemaStore {
    /// The single migration step away from version one: the history table
    /// is rebuilt under an auto-incrementing surrogate key, every row is
    /// carried over in order with its fields intact, and only then does
    /// the version marker advance — a repeat run after a partial failure
    /// starts from the unchanged marker.
    pub fn migration_v1(&mut self)
        ensures
            final(self).meta_present == old(self).meta_present,
            views_of_history(final(self).history@) == views_of_history(old(self).history@),
            final(self).version@ == "2"@,
    {
        let mut moved: Vec<HistoryRow> = Vec::new();
        let mut j: usize = 0;
        proof {
            assert(views_of_history(moved@) =~= views_of_history(self.history@.take(0)));
        }
        while j < self.history.len()
            invariant
                j <= self.history@.len(),
                views_of_history(moved@) == views_of_history(self.history@.take(j as int)),
            decreases self.history@.len() - j,
        {
            let ghost moved0 = moved@;
            moved.push(self.history[j].clone());
            proof {
                assert(views_of_history(moved@) =~= views_of_history(moved0).push(
                    (self.history@[j as int])@,
                ));
                assert(views_of_history(self.history@.take(j as int + 1)) =~= views_of_history(
                    self.history@.take(j as int),
                ).push((self.history@[j as int])@));
            }
            j += 1;
        }
        proof {
            assert(self.history@.take(self.history@.len() as int) =~= self.history@);
        }
        self.history = moved;
        self.version = "2".to_owned();
    }

    /// Brings the store to the current schema: a fresh store gets the full
    /// current-version layout and marker; a stored version older than the
    /// current one is migrated forward one step at a time; an unrecognized
    /// version has no migration path and is fatal. Returns whether any
    /// migration ran. History rows survive in count and field values.
    pub fn ensure_schema(&mut self) -> (r: Result<bool, SchemaError>)
        ensures
            match r {
                Ok(migrated) => {
                    &&& final(self).meta_present
                    &&& final(self).version@ == "2"@
                    &&& views_of_history(final(self).history@) == views_of_history(
                        old(self).history@,
                    )
                    &&& migrated == (old(self).meta_present && old(self).version@ == "1"@)
                    &&& !old(self).meta_present ==> final(self).history@ == old(self).history@
                },
                Err(e) => {
                    &&& e == SchemaError::UnrecognizedVersion
                    &&& old(self).meta_present
                    &&& old(self).version@ != "1"@
                    &&& old(self).version@ != "2"@
                    &&& *final(self) == *old(self)
                },
            },
    {
        if !self.meta_present {
            self.meta_present = true;
            self.version = "2".to_owned();
            return Ok(false);
        }
        if str_eq(self.version.as_str(), current_version()) {
            proof {
                reveal_strlit("1");
                reveal_strlit("2");
                assert("1"@.len() == 1);
                assert("1"@[0] == '1');
                assert("2"@[0] == '2');
                assert("1"@ != "2"@);
            }
            return Ok(false);
        }
        if str_eq(self.version.as_str(), legacy_version()) {
            self.migration_v1();
            return Ok(true);
        }
        Err(SchemaError::UnrecognizedVersion)
    }
}

} // verus!
