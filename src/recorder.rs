use vstd::prelude::*;
use crate::client::{DatabaseClient, LockRow, MigrationsRow, RowFetcher, Transaction};
use crate::error::ErrorType;

verus! {

/// The text of each statement of `queries`, in order.
pub open spec fn texts(queries: Seq<&str>) -> Seq<Seq<char>> {
    queries.map_values(|q: &str| q@)
}

/// One call on a backend connection, with what the backend answered.
pub enum Call {
    /// Statements handed over as one batch, and whether the backend executed
    /// all of them.
    Exec(Seq<Seq<char>>, bool),
    /// A read of ledger rows: its query, and the rows, or `None` when it
    /// failed.
    ReadLedger(Seq<char>, Option<Seq<MigrationsRow>>),
    /// A read of the lock row: its query, and the row, or `None` when it
    /// failed.
    ReadLock(Seq<char>, Option<LockRow>),
}

/// The rows a ledger read returned, if it succeeded.
pub open spec fn ledger_seen(r: Result<Vec<MigrationsRow>, ErrorType>) -> Option<Seq<MigrationsRow>> {
    match r {
        Ok(rows) => Some(rows@),
        Err(_) => None,
    }
}

/// The row a lock read returned, if it succeeded.
pub open spec fn lock_seen(r: Result<LockRow, ErrorType>) -> Option<LockRow> {
    match r {
        Ok(row) => Some(row),
        Err(_) => None,
    }
}

/// A connection that keeps account of its use: every call made on it, in
/// order, with the backend's answer. It is the only way to the connection it
/// holds.
pub struct Recorder<C> {
    inner: C,
    calls: Ghost<Seq<Call>>,
}

impl<C: DatabaseClient> Recorder<C> {
    /// The calls made so far, oldest first.
    pub closed spec fn trace(&self) -> Seq<Call> {
        self.calls@
    }

    pub fn new(inner: C) -> (r: Recorder<C>)
        ensures
            r.trace() == Seq::<Call>::empty(),
    {
        Recorder { inner, calls: Ghost(Seq::empty()) }
    }

    /// The connection.
    pub fn inner(&self) -> &C {
        &self.inner
    }

    /// The connection, giving up the account.
    pub fn into_inner(self) -> C {
        self.inner
    }

    /// Executes `queries` in order, stopping at the first that fails.
    pub fn execute_many(&mut self, queries: &[&str]) -> (r: Result<(), ErrorType>)
        ensures
            final(self).trace() == old(self).trace().push(Call::Exec(texts(queries@), r is Ok)),
            r matches Err(e) ==> e is BackendError,
    {
        let r = self.inner.execute_many(queries);
        self.calls = Ghost(self.calls@.push(Call::Exec(texts(queries@), r is Ok)));
        r
    }

    /// Executes one statement.
    pub fn execute_query(&mut self, query: &str) -> (r: Result<(), ErrorType>)
        ensures
            final(self).trace() == old(self).trace().push(Call::Exec(seq![query@], r is Ok)),
            r matches Err(e) ==> e is BackendError,
    {
        let r = self.inner.execute_query(query);
        self.calls = Ghost(self.calls@.push(Call::Exec(seq![query@], r is Ok)));
        r
    }

    /// Every ledger row that `query` selects.
    pub fn fetch_ledger(&mut self, query: &str) -> (r: Result<Vec<MigrationsRow>, ErrorType>)
        ensures
            final(self).trace() == old(self).trace().push(Call::ReadLedger(query@, ledger_seen(r))),
            r matches Err(e) ==> e is BackendError,
    {
        let r = RowFetcher::<MigrationsRow>::fetch_many(&mut self.inner, query);
        self.calls = Ghost(self.calls@.push(Call::ReadLedger(query@, ledger_seen(r))));
        r
    }

    /// The first lock row that `query` selects.
    pub fn fetch_lock(&mut self, query: &str) -> (r: Result<LockRow, ErrorType>)
        ensures
            final(self).trace() == old(self).trace().push(Call::ReadLock(query@, lock_seen(r))),
            r matches Err(e) ==> e is BackendError,
    {
        let r = RowFetcher::<LockRow>::fetch_one(&mut self.inner, query);
        self.calls = Ghost(self.calls@.push(Call::ReadLock(query@, lock_seen(r))));
        r
    }
}

} // verus!
