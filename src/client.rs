use vstd::prelude::*;
use crate::error::ErrorType;

verus! {

/// One row of the ledger of applied migrations.
pub struct MigrationsRow {
    pub timestamp: u64,
    pub name: String,
    pub checksum: String,
}

impl MigrationsRow {
    /// A copy of this row.
    pub fn copy(&self) -> (r: MigrationsRow)
        ensures
            r == *self,
    {
        MigrationsRow { timestamp: self.timestamp, name: self.name.clone(), checksum: self.checksum.clone() }
    }
}

/// The single row of the lock table.
pub struct LockRow {
    pub is_locked: u8,
}

/// Executes statements on a database backend; a failure is reported as
/// `BackendError`.
pub trait Transaction {
    /// Executes `queries` one after another, stopping at the first that fails
    /// (the ones before it are not undone).
    fn execute_many(&mut self, queries: &[&str]) -> (r: Result<(), ErrorType>)
        ensures
            r matches Err(e) ==> e is BackendError,
    ;

    /// Executes one statement.
    fn execute_query(&mut self, query: &str) -> (r: Result<(), ErrorType>)
        ensures
            r matches Err(e) ==> e is BackendError,
    ;
}

/// Reads rows of type `T` from a database backend; a failure, or no row
/// where one is asked for, is reported as `BackendError`.
pub trait RowFetcher<T>: Transaction {
    /// The first row that `query` selects.
    fn fetch_one(&mut self, query: &str) -> (r: Result<T, ErrorType>)
        ensures
            r matches Err(e) ==> e is BackendError,
    ;

    /// Every row that `query` selects.
    fn fetch_many(&mut self, query: &str) -> (r: Result<Vec<T>, ErrorType>)
        ensures
            r matches Err(e) ==> e is BackendError,
    ;
}

/// A backend connection that the engine can run on: it executes statements
/// and reads both ledger rows and lock rows.
pub trait DatabaseClient: RowFetcher<MigrationsRow> + RowFetcher<LockRow> {}

impl<T: RowFetcher<MigrationsRow> + RowFetcher<LockRow>> DatabaseClient for T {}

} // verus!
