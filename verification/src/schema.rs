//! Which tables and columns a trace has.
use crate::text::{holds_str, str_eq, strings};
use vstd::prelude::*;

verus! {

/// One table of a trace and the names of its columns.
#[derive(Debug, Clone)]
pub struct TableColumns {
    pub name: String,
    pub columns: Vec<String>,
}

/// The tables of a trace.
#[derive(Debug, Clone)]
pub struct TraceSchema {
    pub tables: Vec<TableColumns>,
}

impl TraceSchema {
    /// The trace has table `name`.
    pub open spec fn has(&self, name: Seq<char>) -> bool {
        exists|i: int| 0 <= i < self.tables.len() && (#[trigger] self.tables@[i]).name@ == name
    }

    /// Table `name` has column `column`.
    pub open spec fn has_column(&self, name: Seq<char>, column: Seq<char>) -> bool {
        exists|i: int|
            0 <= i < self.tables.len() && (#[trigger] self.tables@[i]).name@ == name && strings(
                self.tables@[i].columns@,
            ).contains(column)
    }

    /// Table `name` has every one of the columns.
    pub open spec fn has_columns(&self, name: Seq<char>, columns: Seq<Seq<char>>) -> bool {
        self.has(name) && forall|c: int|
            0 <= c < columns.len() ==> self.has_column(name, #[trigger] columns[c])
    }

    /// Whether the trace has table `name`.
    pub fn has_table(&self, name: &str) -> (held: bool)
        ensures
            held == self.has(name@),
    {
        let mut i: usize = 0;
        while i < self.tables.len()
            invariant
                i <= self.tables.len(),
                forall|x: int| 0 <= x < i ==> (#[trigger] self.tables@[x]).name@ != name@,
            decreases self.tables.len() - i,
        {
            if str_eq(self.tables[i].name.as_str(), name) {
                assert(self.tables@[i as int].name@ == name@);
                return true;
            }
            i = i + 1;
        }
        false
    }

    /// Whether table `name` has column `column`.
    pub fn table_has_column(&self, name: &str, column: &str) -> (held: bool)
        ensures
            held == self.has_column(name@, column@),
    {
        let mut i: usize = 0;
        while i < self.tables.len()
            invariant
                i <= self.tables.len(),
                forall|x: int|
                    0 <= x < i ==> (#[trigger] self.tables@[x]).name@ != name@ || !strings(
                        self.tables@[x].columns@,
                    ).contains(column@),
            decreases self.tables.len() - i,
        {
            let table = &self.tables[i];
            if str_eq(table.name.as_str(), name) && holds_str(&table.columns, column) {
                assert(self.tables@[i as int].name@ == name@);
                return true;
            }
            i = i + 1;
        }
        false
    }

    /// Whether table `name` is there with every one of the columns.
    pub fn table_has_columns(&self, name: &str, columns: &[&str]) -> (held: bool)
        ensures
            held == self.has_columns(name@, columns@.map_values(|c: &str| c@)),
    {
        if !self.has_table(name) {
            return false;
        }
        let ghost wanted = columns@.map_values(|c: &str| c@);
        let mut i: usize = 0;
        while i < columns.len()
            invariant
                i <= columns.len(),
                wanted == columns@.map_values(|c: &str| c@),
                self.has(name@),
                forall|c: int| 0 <= c < i ==> self.has_column(name@, #[trigger] wanted[c]),
            decreases columns.len() - i,
        {
            if !self.table_has_column(name, columns[i]) {
                assert(!self.has_column(name@, wanted[i as int]));
                return false;
            }
            i = i + 1;
        }
        true
    }
}

} // verus!
