use vstd::prelude::*;
use crate::client::{DatabaseClient, LockRow, MigrationsRow};
use crate::recorder::{ledger_seen, texts, Call, Recorder};
use crate::clock::{current_ledger_timestamp, next_stamp, stamp_after};
use crate::error::ErrorType;
use crate::history::{newest_first, order_newest_first};
use crate::migration::{checksum_text, insert_statement, MigrationFile};
use crate::reconcile::{error_reports, pending, pending_migrations, reconcile, reconcile_spec, Verdict};
use crate::report::ExecutionReport;
use crate::text::{decimal, push_decimal};

verus! {

/// Creates the ledger table if it is absent.
pub const CREATE_CLICKHOUSE_MIGRATIONS_TABLE_QUERY: &'static str = "
CREATE TABLE IF NOT EXISTS clickhouse_migrations (
    timestamp DateTime64(9) NOT NULL,
    name TEXT NOT NULL,
    checksum TEXT NOT NULL
)
engine=TinyLog
";

/// Creates the lock table if it is absent.
pub const CREATE_CLICKHOUSE_LOCK_TABLE_QUERY: &'static str = "
CREATE TABLE IF NOT EXISTS clickhouse_migration_lock (
    is_locked UInt8 NOT NULL
)
engine=Memory
";

/// Writes the lock row, free, when there is none yet.
pub const INSERT_LOCK_ROW_QUERY: &'static str = "INSERT INTO clickhouse_migration_lock (*) VALUES (0)";

/// Reads every ledger row.
pub const SELECT_MIGRATIONS_QUERY: &'static str = "SELECT * FROM clickhouse_migrations";

/// Reads the lock row.
pub const SELECT_LOCK_QUERY: &'static str = "SELECT * FROM clickhouse_migration_lock LIMIT 1";

/// The statements that create the ledger and lock tables.
pub open spec fn create_statements() -> Seq<Seq<char>> {
    seq![CREATE_CLICKHOUSE_MIGRATIONS_TABLE_QUERY@, CREATE_CLICKHOUSE_LOCK_TABLE_QUERY@]
}

/// The statement that sets the lock row to `status`.
pub open spec fn lock_statement(status: u8) -> Seq<char> {
    "ALTER TABLE clickhouse_migration_lock UPDATE is_locked = "@ + decimal(status as nat)
        + " WHERE is_locked IS NOT NULL"@
}

/// The lock row says the lock is held.
pub open spec fn lock_held(lock: Option<LockRow>) -> bool {
    lock matches Some(row) && row.is_locked == 1
}

/// How a run ends, given what it reads from the database.
pub enum RunOutcome {
    /// These migrations were applied, in order.
    Applied(Seq<MigrationFile>),
    /// Reconciliation refused the files; nothing was executed.
    Refused(Verdict),
    /// Another run holds the lock; nothing was executed.
    Locked,
}

/// The outcome of a run on `files` that finds the ledger rows `rows` and
/// the lock row `lock`.
pub open spec fn run_outcome(
    files: Seq<MigrationFile>,
    rows: Seq<MigrationsRow>,
    lock: Option<LockRow>,
) -> RunOutcome {
    match reconcile_spec(pending(files), rows) {
        Verdict::Apply(new) => if lock_held(lock) {
            RunOutcome::Locked
        } else {
            RunOutcome::Applied(new)
        },
        v => RunOutcome::Refused(v),
    }
}

/// The backend's answers to the calls of one run, as far as it got.
pub struct Responses {
    /// Creating the tables succeeded.
    pub created: bool,
    /// The lock row the bootstrap read (`None` when there was none).
    pub found: Option<LockRow>,
    /// Writing a free lock row succeeded (made only when none was found).
    pub inserted: bool,
    /// The ledger rows read (`None` when the read failed).
    pub ledger: Option<Seq<MigrationsRow>>,
    /// The lock row read before taking the lock.
    pub checked: Option<LockRow>,
    /// Taking the lock succeeded.
    pub locked: bool,
    /// The stamps of the ledger rows of the batches sent.
    pub stamps: Seq<u64>,
    /// How many batches succeeded.
    pub applied: nat,
    /// Freeing the lock succeeded.
    pub freed: bool,
}

/// The calls of the bootstrap: create the tables; if that succeeded, read
/// the lock row; if there is none, write a free one.
pub open spec fn bootstrap_calls(x: Responses) -> Seq<Call> {
    if !x.created {
        seq![Call::Exec(create_statements(), false)]
    } else if x.found is Some {
        seq![Call::Exec(create_statements(), true), Call::ReadLock(SELECT_LOCK_QUERY@, x.found)]
    } else {
        seq![
            Call::Exec(create_statements(), true),
            Call::ReadLock(SELECT_LOCK_QUERY@, None),
            Call::Exec(seq![INSERT_LOCK_ROW_QUERY@], x.inserted),
        ]
    }
}

/// The bootstrap succeeded.
pub open spec fn bootstrapped(x: Responses) -> bool {
    x.created && (x.found is Some || x.inserted)
}

/// The bootstrap took the trace from `before` to `after`, with result `ok`.
pub open spec fn bootstrap_matches(
    before: Seq<Call>,
    after: Seq<Call>,
    x: Responses,
    ok: bool,
) -> bool {
    after == before + bootstrap_calls(x) && (ok <==> bootstrapped(x))
}

/// The statements that apply `m` with its ledger row stamped `stamp`.
pub open spec fn batch_of(m: MigrationFile, stamp: u64) -> Seq<Seq<char>> {
    seq![m.sql@, insert_statement(m.name@, checksum_text(m.name@, m.sql@), stamp as nat)]
}

/// The batches that apply `new`, one per stamp, of which the first
/// `applied` succeeded.
pub open spec fn apply_calls(new: Seq<MigrationFile>, stamps: Seq<u64>, applied: nat) -> Seq<Call> {
    Seq::new(stamps.len(), |j: int| Call::Exec(batch_of(new[j], stamps[j]), j < applied))
}

/// Each stamp is later than those before it, unless it is held at
/// `u64::MAX`.
pub open spec fn increasing(stamps: Seq<u64>) -> bool {
    forall|i: int, j: int|
        0 <= i < j < stamps.len() ==> #[trigger] stamps[i] < #[trigger] stamps[j] || stamps[j]
            == u64::MAX
}

/// Applying `new` sent one batch per stamp and stopped at the first that
/// failed: all of them succeeded and there is one per migration, or the
/// last one sent failed.
pub open spec fn apply_fits(new: Seq<MigrationFile>, stamps: Seq<u64>, applied: nat) -> bool {
    &&& applied <= stamps.len() <= new.len()
    &&& applied < stamps.len() ==> stamps.len() == applied + 1
    &&& applied == stamps.len() ==> stamps.len() == new.len()
    &&& increasing(stamps)
}

/// The calls a run on `files` makes when the backend answers `x`: the
/// bootstrap; the ledger read; when reconciliation passes, the lock read;
/// when the lock is free, taking it, one batch per new migration up to the
/// first that fails, and, when none failed, freeing it. A failed call ends
/// the run.
pub open spec fn run_calls(files: Seq<MigrationFile>, x: Responses) -> Seq<Call> {
    if !bootstrapped(x) {
        bootstrap_calls(x)
    } else {
        let read = bootstrap_calls(x).push(Call::ReadLedger(SELECT_MIGRATIONS_QUERY@, x.ledger));
        match x.ledger {
            None => read,
            Some(rows) => match run_outcome(files, rows, x.checked) {
                RunOutcome::Refused(_) => read,
                RunOutcome::Locked => read.push(Call::ReadLock(SELECT_LOCK_QUERY@, x.checked)),
                RunOutcome::Applied(new) => {
                    let taken = read.push(Call::ReadLock(SELECT_LOCK_QUERY@, x.checked)).push(
                        Call::Exec(seq![lock_statement(1)], x.locked),
                    );
                    if !x.locked {
                        taken
                    } else if x.applied < new.len() {
                        taken + apply_calls(new, x.stamps, x.applied)
                    } else {
                        (taken + apply_calls(new, x.stamps, x.applied)).push(
                            Call::Exec(seq![lock_statement(0)], x.freed),
                        )
                    }
                },
            },
        }
    }
}

/// `r` is what a run on `files` returns when the backend answers `x`: a
/// backend error exactly when a call the run depends on failed; otherwise
/// the error that reconciliation or the lock gives, or the migrations
/// applied.
pub open spec fn run_result(
    files: Seq<MigrationFile>,
    x: Responses,
    r: Result<ExecutionReport, ErrorType>,
) -> bool {
    if !bootstrapped(x) {
        r matches Err(e) && e is BackendError
    } else {
        match x.ledger {
            None => r matches Err(e) && e is BackendError,
            Some(rows) => match run_outcome(files, rows, x.checked) {
                RunOutcome::Refused(v) => r matches Err(e) && error_reports(
                    e,
                    v,
                    pending(files),
                    rows,
                ),
                RunOutcome::Locked => r matches Err(e) && e is LockConflict,
                RunOutcome::Applied(new) => if !x.locked {
                    r matches Err(e) && e is BackendError
                } else {
                    &&& apply_fits(new, x.stamps, x.applied)
                    &&& if x.applied < new.len() || !x.freed {
                        r matches Err(e) && e is BackendError
                    } else {
                        r matches Ok(report) && report@ == new
                    }
                },
            },
        }
    }
}

/// A run on `files` made the calls `calls` and returned `r`, the backend
/// having answered `x`.
pub open spec fn run_matches(
    files: Seq<MigrationFile>,
    x: Responses,
    calls: Seq<Call>,
    r: Result<ExecutionReport, ErrorType>,
) -> bool {
    calls == run_calls(files, x) && run_result(files, x, r)
}

/// Applying `new` took the trace from `before` to `after`, with the stamps
/// `stamps`, of which the first `applied` batches succeeded, and returned
/// `r`.
pub open spec fn applied_as(
    before: Seq<Call>,
    after: Seq<Call>,
    new: Seq<MigrationFile>,
    stamps: Seq<u64>,
    applied: nat,
    r: Result<Vec<MigrationFile>, ErrorType>,
) -> bool {
    &&& after == before + apply_calls(new, stamps, applied)
    &&& apply_fits(new, stamps, applied)
    &&& r is Ok <==> applied == new.len()
    &&& r matches Ok(ran) ==> ran@ == new
    &&& r matches Err(e) ==> e is BackendError
}

/// Whether `status` lets a run take the lock: `LockConflict` exactly when the
/// lock row says it is held.
pub fn check_lock(status: &Option<LockRow>) -> (r: Result<(), ErrorType>)
    ensures
        r is Err <==> lock_held(*status),
        r matches Err(e) ==> e is LockConflict,
{
    match status {
        Some(row) => if row.is_locked == 1 {
            Err(ErrorType::LockConflict)
        } else {
            Ok(())
        },
        None => Ok(()),
    }
}

/// Runs migrations against one database connection.
pub struct Driver<C> {
    client: Recorder<C>,
}

impl<C: DatabaseClient> Driver<C> {
    /// The calls this driver has made on its connection, oldest first, with
    /// the backend's answers.
    pub closed spec fn trace(&self) -> Seq<Call> {
        self.client.trace()
    }

    pub fn new(client: C) -> (r: Driver<C>)
        ensures
            r.trace() == Seq::<Call>::empty(),
    {
        Driver { client: Recorder::new(client) }
    }

    /// The connection.
    pub fn client(&self) -> &C {
        self.client.inner()
    }

    /// The connection, giving up the driver.
    pub fn into_client(self) -> C {
        self.client.into_inner()
    }

    /// Every ledger row.
    pub fn run_migrations(&mut self) -> (r: Result<Vec<MigrationsRow>, ErrorType>)
        ensures
            final(self).trace() == old(self).trace().push(
                Call::ReadLedger(SELECT_MIGRATIONS_QUERY@, ledger_seen(r)),
            ),
            r matches Err(e) ==> e is BackendError,
    {
        self.client.fetch_ledger(SELECT_MIGRATIONS_QUERY)
    }

    /// The lock row, or `None` when it cannot be read.
    pub fn lock_status(&mut self) -> (r: Option<LockRow>)
        ensures
            final(self).trace() == old(self).trace().push(Call::ReadLock(SELECT_LOCK_QUERY@, r)),
    {
        match self.client.fetch_lock(SELECT_LOCK_QUERY) {
            Ok(row) => Some(row),
            Err(_) => None,
        }
    }

    /// Sets the lock row to `status`.
    pub fn change_lock(&mut self, status: u8) -> (r: Result<(), ErrorType>)
        ensures
            final(self).trace() == old(self).trace().push(
                Call::Exec(seq![lock_statement(status)], r is Ok),
            ),
            r matches Err(e) ==> e is BackendError,
    {
        let mut query = "ALTER TABLE clickhouse_migration_lock UPDATE is_locked = ".to_owned();
        push_decimal(&mut query, status as u64);
        query.append(" WHERE is_locked IS NOT NULL");
        self.client.execute_query(query.as_str())
    }

    /// Creates the ledger and lock tables if they are absent, then reads the
    /// lock row and, when there is none, writes a free one. The result is
    /// that of the last statement sent.
    pub fn prerequisite(&mut self) -> (r: Result<(), ErrorType>)
        ensures
            exists|x: Responses|
                #[trigger] bootstrap_matches(old(self).trace(), final(self).trace(), x, r is Ok),
            r matches Err(e) ==> e is BackendError,
    {
        let creates = [CREATE_CLICKHOUSE_MIGRATIONS_TABLE_QUERY, CREATE_CLICKHOUSE_LOCK_TABLE_QUERY];
        assert(texts(creates@) =~= create_statements());
        let created = self.client.execute_many(&creates);
        let ghost x = Responses {
            created: created is Ok,
            found: None,
            inserted: false,
            ledger: None,
            checked: None,
            locked: false,
            stamps: Seq::empty(),
            applied: 0,
            freed: false,
        };
        if created.is_err() {
            assert(self.trace() =~= old(self).trace() + bootstrap_calls(x));
            assert(bootstrap_matches(old(self).trace(), self.trace(), x, false));
            return created;
        }
        let status = self.lock_status();
        let ghost x = Responses { found: status, ..x };
        if status.is_some() {
            assert(self.trace() =~= old(self).trace() + bootstrap_calls(x));
            assert(bootstrap_matches(old(self).trace(), self.trace(), x, true));
            return Ok(());
        }
        let inserted = self.client.execute_query(INSERT_LOCK_ROW_QUERY);
        let ghost x = Responses { inserted: inserted is Ok, ..x };
        assert(self.trace() =~= old(self).trace() + bootstrap_calls(x));
        assert(bootstrap_matches(old(self).trace(), self.trace(), x, inserted is Ok));
        inserted
    }

    /// Applies each of `new` in order, its SQL then its ledger row stamped
    /// with the time (later than the row before it), and stops at the first
    /// batch that fails.
    fn apply_each(&mut self, new: &Vec<MigrationFile>) -> (r: Result<Vec<MigrationFile>, ErrorType>)
        ensures
            exists|stamps: Seq<u64>, applied: nat|
                #[trigger] applied_as(old(self).trace(), final(self).trace(), new@, stamps, applied, r),
    {
        let mut ran: Vec<MigrationFile> = Vec::new();
        let ghost mut stamps: Seq<u64> = Seq::empty();
        let mut prev: Option<u64> = None;
        let mut i: usize = 0;
        assert(apply_calls(new@, stamps, 0) =~= Seq::empty());
        while i < new.len()
            invariant
                i <= new@.len(),
                stamps.len() == i,
                ran@ == new@.take(i as int),
                prev == if i == 0 {
                    None::<u64>
                } else {
                    Some(stamps.last())
                },
                increasing(stamps),
                self.trace() == old(self).trace() + apply_calls(new@, stamps, i as nat),
            decreases new@.len() - i,
        {
            let m = &new[i];
            let stamp = next_stamp(prev, current_ledger_timestamp());
            let insert = m.insert_sql_at(stamp);
            let queries = [m.sql.as_str(), insert.as_str()];
            let ghost next = stamps.push(stamp);
            assert(texts(queries@) =~= batch_of(new@[i as int], stamp));
            assert forall|a: int, b: int| 0 <= a < b < next.len() implies #[trigger] next[a]
                < #[trigger] next[b] || next[b] == u64::MAX by {
                if b == i && a < i - 1 {
                    assert(stamps[a] < stamps[i - 1] || stamps[i - 1] == u64::MAX);
                }
            }
            let res = self.client.execute_many(&queries);
            if let Err(e) = res {
                let r: Result<Vec<MigrationFile>, ErrorType> = Err(e);
                assert(apply_calls(new@, next, i as nat) =~= apply_calls(new@, stamps, i as nat).push(
                    Call::Exec(batch_of(new@[i as int], stamp), false),
                ));
                assert(applied_as(old(self).trace(), self.trace(), new@, next, i as nat, r));
                return r;
            }
            assert(apply_calls(new@, next, (i + 1) as nat) =~= apply_calls(
                new@,
                stamps,
                i as nat,
            ).push(Call::Exec(batch_of(new@[i as int], stamp), true)));
            proof {
                stamps = next;
            }
            prev = Some(stamp);
            ran.push(m.copy());
            i += 1;
            assert(ran@ =~= new@.take(i as int));
        }
        assert(ran@ =~= new@);
        let r: Result<Vec<MigrationFile>, ErrorType> = Ok(ran);
        assert(applied_as(old(self).trace(), self.trace(), new@, stamps, i as nat, r));
        r
    }

    /// Applies the new migrations among `migrations`: bootstraps the tables,
    /// reconciles the forward files, in name order, against the ledger, takes
    /// the lock, applies each new migration and records it in the ledger,
    /// and frees the lock. Any inconsistency stops the run before a
    /// migration is executed; a failed call ends the run with a backend
    /// error, and one while applying leaves the lock held.
    pub fn migrate(&mut self, migrations: Vec<MigrationFile>) -> (r: Result<
        ExecutionReport,
        ErrorType,
    >)
        ensures
            old(self).trace().is_prefix_of(final(self).trace()),
            exists|x: Responses|
                #[trigger] run_matches(
                    migrations@,
                    x,
                    final(self).trace().skip(old(self).trace().len() as int),
                    r,
                ),
    {
        let ghost start = self.trace();
        let ghost files = migrations@;
        let boot = self.prerequisite();
        let ghost x = choose|x: Responses|
            #[trigger] bootstrap_matches(start, self.trace(), x, boot is Ok);
        assert(self.trace().skip(start.len() as int) =~= bootstrap_calls(x));
        if let Err(e) = boot {
            let r: Result<ExecutionReport, ErrorType> = Err(e);
            assert(run_matches(files, x, self.trace().skip(start.len() as int), r));
            return r;
        }
        let fetched = self.run_migrations();
        let ghost x = Responses { ledger: ledger_seen(fetched), ..x };
        let ghost read = bootstrap_calls(x).push(
            Call::ReadLedger(SELECT_MIGRATIONS_QUERY@, x.ledger),
        );
        assert(self.trace().skip(start.len() as int) =~= read);
        let rows = match fetched {
            Ok(rows) => rows,
            Err(e) => {
                let r: Result<ExecutionReport, ErrorType> = Err(e);
                assert(run_matches(files, x, self.trace().skip(start.len() as int), r));
                return r;
            },
        };
        let pending_files = pending_migrations(&migrations);
        let new = match reconcile(&pending_files, &rows) {
            Ok(new) => new,
            Err(e) => {
                let r: Result<ExecutionReport, ErrorType> = Err(e);
                assert(run_matches(files, x, self.trace().skip(start.len() as int), r));
                return r;
            },
        };
        let status = self.lock_status();
        let ghost x = Responses { checked: status, ..x };
        assert(self.trace().skip(start.len() as int) =~= read.push(
            Call::ReadLock(SELECT_LOCK_QUERY@, status),
        ));
        if let Err(e) = check_lock(&status) {
            let r: Result<ExecutionReport, ErrorType> = Err(e);
            assert(run_matches(files, x, self.trace().skip(start.len() as int), r));
            return r;
        }
        let taking = self.change_lock(1);
        let ghost x = Responses { locked: taking is Ok, ..x };
        let ghost taken = read.push(Call::ReadLock(SELECT_LOCK_QUERY@, status)).push(
            Call::Exec(seq![lock_statement(1)], x.locked),
        );
        assert(self.trace().skip(start.len() as int) =~= taken);
        if let Err(e) = taking {
            let r: Result<ExecutionReport, ErrorType> = Err(e);
            assert(run_matches(files, x, self.trace().skip(start.len() as int), r));
            return r;
        }
        let ghost before_apply = self.trace();
        let applied = self.apply_each(&new);
        let ghost (stamps, count) = choose|stamps: Seq<u64>, count: nat|
            #[trigger] applied_as(before_apply, self.trace(), new@, stamps, count, applied);
        let ghost x = Responses { stamps, applied: count, ..x };
        assert(self.trace().skip(start.len() as int) =~= taken + apply_calls(new@, stamps, count));
        let ran = match applied {
            Ok(ran) => ran,
            Err(e) => {
                let r: Result<ExecutionReport, ErrorType> = Err(e);
                assert(run_matches(files, x, self.trace().skip(start.len() as int), r));
                return r;
            },
        };
        let freeing = self.change_lock(0);
        let ghost x = Responses { freed: freeing is Ok, ..x };
        assert(self.trace().skip(start.len() as int) =~= (taken + apply_calls(new@, stamps, count)).push(
            Call::Exec(seq![lock_statement(0)], x.freed),
        ));
        if let Err(e) = freeing {
            let r: Result<ExecutionReport, ErrorType> = Err(e);
            assert(run_matches(files, x, self.trace().skip(start.len() as int), r));
            return r;
        }
        let r: Result<ExecutionReport, ErrorType> = Ok(ExecutionReport::new(ran));
        assert(run_matches(files, x, self.trace().skip(start.len() as int), r));
        r
    }

    /// The ledger rows, newest first: the order in which a rollback would
    /// undo them.
    pub fn applied_newest_first(&mut self) -> (r: Result<Vec<MigrationsRow>, ErrorType>)
        ensures
            final(self).trace().drop_last() == old(self).trace(),
            final(self).trace().len() == old(self).trace().len() + 1,
            final(self).trace().last() matches Call::ReadLedger(query, rows) && query
                == SELECT_MIGRATIONS_QUERY@ && (r is Err <==> rows is None) && (r matches Ok(
                ordered,
            ) ==> ordered@ == newest_first(rows->0)),
            r matches Err(e) ==> e is BackendError,
    {
        let fetched = self.run_migrations();
        assert(self.trace().drop_last() =~= old(self).trace());
        match fetched {
            Ok(rows) => Ok(order_newest_first(&rows)),
            Err(e) => Err(e),
        }
    }

    /// Rolling back is not available yet: this reads the ledger, newest
    /// first, sends no statement and reports `RollbackUnavailable`, or the
    /// backend error when the read fails.
    pub fn rollback(&mut self, _migrations: Vec<MigrationFile>) -> (r: Result<ExecutionReport, ErrorType>)
        ensures
            final(self).trace().drop_last() == old(self).trace(),
            final(self).trace().len() == old(self).trace().len() + 1,
            final(self).trace().last() matches Call::ReadLedger(query, rows) && query
                == SELECT_MIGRATIONS_QUERY@ && (rows is None ==> (r matches Err(e)
                && e is BackendError)) && (rows is Some ==> (r matches Err(e)
                && e is RollbackUnavailable)),
    {
        match self.applied_newest_first() {
            Ok(_) => Err(ErrorType::RollbackUnavailable),
            Err(e) => Err(e),
        }
    }
}

} // verus!
