//! Properties of `Driver::migrate`. Each is stated for a call that made the
//! calls `calls` and returned `r` with the backend answering `x`, which is
//! what the contract of `migrate` (`run_matches`) says of every call.

use vstd::prelude::*;
use vstd::set_lib::{lemma_int_range, lemma_len_subset, set_int_range};
use crate::client::{LockRow, MigrationsRow};
use crate::driver::{
    apply_calls, batch_of, bootstrap_calls, bootstrapped, increasing, lock_held, lock_statement,
    run_matches, run_outcome, Responses, RunOutcome, SELECT_LOCK_QUERY, SELECT_MIGRATIONS_QUERY,
};
use crate::error::ErrorType;
use crate::recorder::Call;
use crate::report::ExecutionReport;
use crate::migration::{checksum_text, MigrationFile};
use crate::reconcile::{
    pending_is_sorted, sorted_by_name, verdict_keeps_order, has_file, orphan_names, orphans_upto, pending, reconcile_spec, error_reports, row_index, row_index_from, lemma_row_index_from,
    verdict_from, Verdict,
};

verus! {

/// File `j` of `files` gets past the per-file check: its ledger row, if it
/// has one, records its checksum, and if it has none it holds SQL.
pub open spec fn file_passes(files: Seq<MigrationFile>, rows: Seq<MigrationsRow>, j: int) -> bool {
    let k = row_index(rows, files[j].name@);
    if k >= 0 {
        rows[k].checksum@ == checksum_text(files[j].name@, files[j].sql@)
    } else {
        files[j].sql@.len() > 0
    }
}

/// File `j` of `files` has a ledger row, and it records the file's checksum.
pub open spec fn file_recorded(files: Seq<MigrationFile>, rows: Seq<MigrationsRow>, j: int) -> bool {
    let k = row_index(rows, files[j].name@);
    k >= 0 && rows[k].checksum@ == checksum_text(files[j].name@, files[j].sql@)
}

/// The checksum is a function of the name and the SQL alone: migrations with
/// equal names and equal SQL have equal checksums, in every run.
pub proof fn checksum_is_deterministic(a: MigrationFile, b: MigrationFile)
    requires
        a.name@ == b.name@,
        a.sql@ == b.sql@,
    ensures
        a.spec_checksum() == b.spec_checksum(),
        checksum_text(a.name@, a.sql@) == checksum_text(b.name@, b.sql@),
{
}

proof fn lemma_all_matched(
    files: Seq<MigrationFile>,
    rows: Seq<MigrationsRow>,
    i: int,
    new: Seq<MigrationFile>,
)
    requires
        0 <= i <= files.len(),
        forall|j: int| i <= j < files.len() ==> #[trigger] file_recorded(files, rows, j),
    ensures
        verdict_from(files, rows, i, new) == Verdict::Apply(new),
    decreases files.len() - i,
{
    if i < files.len() {
        assert(file_recorded(files, rows, i));
        lemma_all_matched(files, rows, i + 1, new);
    }
}

/// When every forward file has a ledger row that records its checksum, the
/// ledger has no other row, the lock is free and no call fails, `migrate`
/// applies nothing and reports no migration: after the bootstrap it reads
/// the ledger and the lock, takes the lock and frees it.
pub proof fn all_applied_runs_nothing(
    files: Seq<MigrationFile>,
    x: Responses,
    calls: Seq<Call>,
    r: Result<ExecutionReport, ErrorType>,
    rows: Seq<MigrationsRow>,
)
    requires
        run_matches(files, x, calls, r),
        bootstrapped(x),
        x.ledger == Some(rows),
        forall|j: int|
            0 <= j < pending(files).len() ==> #[trigger] file_recorded(pending(files), rows, j),
        rows.len() == pending(files).len(),
        !lock_held(x.checked),
        x.locked,
        x.freed,
    ensures
        r matches Ok(report) && report@.len() == 0,
        calls == bootstrap_calls(x) + seq![
            Call::ReadLedger(SELECT_MIGRATIONS_QUERY@, Some(rows)),
            Call::ReadLock(SELECT_LOCK_QUERY@, x.checked),
            Call::Exec(seq![lock_statement(1)], true),
            Call::Exec(seq![lock_statement(0)], true),
        ],
{
    lemma_all_matched(pending(files), rows, 0, Seq::empty());
    assert(apply_calls(Seq::empty(), x.stamps, x.applied) =~= Seq::empty());
    assert(calls =~= bootstrap_calls(x) + seq![
        Call::ReadLedger(SELECT_MIGRATIONS_QUERY@, Some(rows)),
        Call::ReadLock(SELECT_LOCK_QUERY@, x.checked),
        Call::Exec(seq![lock_statement(1)], true),
        Call::Exec(seq![lock_statement(0)], true),
    ]);
}

proof fn lemma_corrupt_from(
    files: Seq<MigrationFile>,
    rows: Seq<MigrationsRow>,
    j: int,
    new: Seq<MigrationFile>,
    i: int,
)
    requires
        0 <= j <= i < files.len(),
        forall|m: int| j <= m < i ==> #[trigger] file_passes(files, rows, m),
        row_index(rows, files[i].name@) >= 0,
        rows[row_index(rows, files[i].name@)].checksum@ != checksum_text(
            files[i].name@,
            files[i].sql@,
        ),
    ensures
        verdict_from(files, rows, j, new) == Verdict::Corrupt(i, row_index(rows, files[i].name@)),
    decreases i - j,
{
    if j < i {
        assert(file_passes(files, rows, j));
        if row_index(rows, files[j].name@) >= 0 {
            lemma_corrupt_from(files, rows, j + 1, new, i);
        } else {
            lemma_corrupt_from(files, rows, j + 1, new.push(files[j]), i);
        }
    }
}

/// When a forward file's ledger row records another checksum (the file was
/// edited after it was applied), and every file before it in name order gets
/// past the per-file check, a `migrate` that got past the bootstrap and read
/// the ledger fails with `CorruptMigrationDirectory` on that file, whatever
/// the lock says, and sends nothing after the bootstrap: no migration SQL,
/// no ledger row, no change to the lock.
pub proof fn edited_file_stops_run(
    files: Seq<MigrationFile>,
    x: Responses,
    calls: Seq<Call>,
    r: Result<ExecutionReport, ErrorType>,
    rows: Seq<MigrationsRow>,
    i: int,
)
    requires
        run_matches(files, x, calls, r),
        bootstrapped(x),
        x.ledger == Some(rows),
        0 <= i < pending(files).len(),
        row_index(rows, pending(files)[i].name@) >= 0,
        rows[row_index(rows, pending(files)[i].name@)].checksum@ != checksum_text(
            pending(files)[i].name@,
            pending(files)[i].sql@,
        ),
        forall|m: int| 0 <= m < i ==> #[trigger] file_passes(pending(files), rows, m),
    ensures
        r matches Err(ErrorType::CorruptMigrationDirectory { name, recorded, current }) && name@
            == pending(files)[i].name@ && recorded@ == rows[row_index(
            rows,
            pending(files)[i].name@,
        )].checksum@,
        calls == bootstrap_calls(x).push(Call::ReadLedger(SELECT_MIGRATIONS_QUERY@, Some(rows))),
{
    lemma_corrupt_from(pending(files), rows, 0, Seq::empty(), i);
}

/// When the lock row says the lock is held and reconciliation finds nothing
/// wrong, a `migrate` that got past the bootstrap and read the ledger fails
/// with `LockConflict` after reading the lock, and sends nothing after the
/// bootstrap: no migration SQL, no ledger row, no change to the lock.
pub proof fn held_lock_stops_run(
    files: Seq<MigrationFile>,
    x: Responses,
    calls: Seq<Call>,
    r: Result<ExecutionReport, ErrorType>,
    rows: Seq<MigrationsRow>,
)
    requires
        run_matches(files, x, calls, r),
        bootstrapped(x),
        x.ledger == Some(rows),
        reconcile_spec(pending(files), rows) is Apply,
        lock_held(x.checked),
    ensures
        r matches Err(e) && e is LockConflict,
        calls == bootstrap_calls(x) + seq![
            Call::ReadLedger(SELECT_MIGRATIONS_QUERY@, Some(rows)),
            Call::ReadLock(SELECT_LOCK_QUERY@, x.checked),
        ],
{
    assert(calls =~= bootstrap_calls(x) + seq![
        Call::ReadLedger(SELECT_MIGRATIONS_QUERY@, Some(rows)),
        Call::ReadLock(SELECT_LOCK_QUERY@, x.checked),
    ]);
}

/// With no local file, an empty ledger, the lock free and no call failing,
/// `migrate` creates both tables, writes a free lock row when there was
/// none, reports no migration, and takes and frees the lock, which ends free.
pub proof fn empty_run_bootstraps(
    files: Seq<MigrationFile>,
    x: Responses,
    calls: Seq<Call>,
    r: Result<ExecutionReport, ErrorType>,
)
    requires
        run_matches(files, x, calls, r),
        files.len() == 0,
        bootstrapped(x),
        x.ledger == Some(Seq::<MigrationsRow>::empty()),
        !lock_held(x.checked),
        x.locked,
        x.freed,
    ensures
        r matches Ok(report) && report@.len() == 0,
        calls[0] == Call::Exec(crate::driver::create_statements(), true),
        x.found is None ==> calls[2] == Call::Exec(
            seq![crate::driver::INSERT_LOCK_ROW_QUERY@],
            true,
        ),
        calls.last() == Call::Exec(seq![lock_statement(0)], true),
{
    assert(pending(files) =~= Seq::empty());
    all_applied_runs_nothing(files, x, calls, r, Seq::empty());
}

/// How many of `files[i..]` have a ledger row.
pub open spec fn matched_from(files: Seq<MigrationFile>, rows: Seq<MigrationsRow>, i: int) -> nat
    decreases files.len() - i,
{
    if i >= files.len() {
        0
    } else {
        (if row_index(rows, files[i].name@) >= 0 {
            1nat
        } else {
            0nat
        }) + matched_from(files, rows, i + 1)
    }
}

/// The ledger rows that `files[i..]` have.
pub open spec fn matched_rows_from(files: Seq<MigrationFile>, rows: Seq<MigrationsRow>, i: int) -> Set<
    int,
>
    decreases files.len() - i,
{
    if i >= files.len() {
        Set::empty()
    } else if row_index(rows, files[i].name@) >= 0 {
        matched_rows_from(files, rows, i + 1).insert(row_index(rows, files[i].name@))
    } else {
        matched_rows_from(files, rows, i + 1)
    }
}

proof fn lemma_all_pass(
    files: Seq<MigrationFile>,
    rows: Seq<MigrationsRow>,
    i: int,
    new: Seq<MigrationFile>,
)
    requires
        0 <= i <= files.len(),
        forall|j: int| i <= j < files.len() ==> #[trigger] file_passes(files, rows, j),
    ensures
        verdict_from(files, rows, i, new) matches Verdict::Apply(all) && all.len() == new.len() + (
        files.len() - i) - matched_from(files, rows, i),
    decreases files.len() - i,
{
    if i < files.len() {
        assert(file_passes(files, rows, i));
        if row_index(rows, files[i].name@) >= 0 {
            lemma_all_pass(files, rows, i + 1, new);
        } else {
            lemma_all_pass(files, rows, i + 1, new.push(files[i]));
        }
    }
}

proof fn lemma_matched_rows(files: Seq<MigrationFile>, rows: Seq<MigrationsRow>, i: int)
    requires
        0 <= i <= files.len(),
        forall|a: int, b: int|
            0 <= a < b < files.len() ==> #[trigger] files[a].name@ != #[trigger] files[b].name@,
    ensures
        matched_rows_from(files, rows, i).finite(),
        matched_rows_from(files, rows, i).len() == matched_from(files, rows, i),
        forall|k: int|
            #[trigger] matched_rows_from(files, rows, i).contains(k) ==> 0 <= k < rows.len()
                && exists|j: int| i <= j < files.len() && rows[k].name@ == files[j].name@,
    decreases files.len() - i,
{
    if i < files.len() {
        lemma_matched_rows(files, rows, i + 1);
        let k = row_index(rows, files[i].name@);
        lemma_row_index_from(rows, files[i].name@, 0);
        if k >= 0 {
            if matched_rows_from(files, rows, i + 1).contains(k) {
                let j = choose|j: int| i + 1 <= j < files.len() && rows[k].name@ == files[j].name@;
                assert(files[i].name@ != files[j].name@);
            }
        }
    }
}

proof fn lemma_orphan_listed(files: Seq<MigrationFile>, rows: Seq<MigrationsRow>, r: int, n: int)
    requires
        0 <= r < n <= rows.len(),
        !has_file(files, rows[r].name@),
    ensures
        orphans_upto(files, rows, n).contains(rows[r].name@),
    decreases n,
{
    if n - 1 > r {
        lemma_orphan_listed(files, rows, r, n - 1);
        assert(orphans_upto(files, rows, n - 1).contains(rows[r].name@));
        let prev = orphans_upto(files, rows, n - 1);
        let m = choose|m: int| 0 <= m < prev.len() && prev[m] == rows[r].name@;
        if !has_file(files, rows[n - 1].name@) {
            assert(prev.push(rows[n - 1].name@)[m] == rows[r].name@);
        }
    } else {
        assert(orphans_upto(files, rows, n)[orphans_upto(files, rows, n).len() - 1] == rows[r].name@);
    }
}

/// When a ledger row has no forward file of its name (the file was deleted
/// or renamed), every forward file gets past the per-file check, and the
/// forward files have distinct names, a `migrate` that got past the
/// bootstrap and read the ledger fails with `MissingMigrationFiles` listing
/// exactly the orphaned names, that row's among them, whatever the lock
/// says, and sends nothing after the bootstrap.
pub proof fn orphaned_row_stops_run(
    files: Seq<MigrationFile>,
    x: Responses,
    calls: Seq<Call>,
    r: Result<ExecutionReport, ErrorType>,
    rows: Seq<MigrationsRow>,
    o: int,
)
    requires
        run_matches(files, x, calls, r),
        bootstrapped(x),
        x.ledger == Some(rows),
        0 <= o < rows.len(),
        !has_file(pending(files), rows[o].name@),
        forall|j: int| 0 <= j < pending(files).len() ==> #[trigger] file_passes(pending(files), rows, j),
        forall|a: int, b: int|
            0 <= a < b < pending(files).len() ==> #[trigger] pending(files)[a].name@
                != #[trigger] pending(files)[b].name@,
    ensures
        r matches Err(ErrorType::MissingMigrationFiles(list)) && list@.map_values(|s: String| s@)
            == orphan_names(pending(files), rows),
        orphan_names(pending(files), rows).contains(rows[o].name@),
        calls == bootstrap_calls(x).push(Call::ReadLedger(SELECT_MIGRATIONS_QUERY@, Some(rows))),
{
    let p = pending(files);
    let r0 = o;
    lemma_all_pass(p, rows, 0, Seq::empty());
    lemma_matched_rows(p, rows, 0);
    let used = matched_rows_from(p, rows, 0);
    let avail = set_int_range(0, rows.len() as int).remove(r0);
    lemma_int_range(0, rows.len() as int);
    assert forall|k: int| used.contains(k) implies avail.contains(k) by {
        if k == r0 {
            let j = choose|j: int| 0 <= j < p.len() && rows[k].name@ == p[j].name@;
            assert(has_file(p, rows[r0].name@));
        }
    }
    lemma_len_subset(used, avail);
    lemma_orphan_listed(p, rows, r0, rows.len() as int);
}

/// When `migrate` succeeds it has applied the migrations in ascending order
/// of name, whatever order the files were found in, and stamped their ledger
/// rows in increasing order (held at `u64::MAX` only past the year 2554).
pub proof fn applied_in_name_order(
    files: Seq<MigrationFile>,
    x: Responses,
    calls: Seq<Call>,
    r: Result<ExecutionReport, ErrorType>,
)
    requires
        run_matches(files, x, calls, r),
    ensures
        r matches Ok(report) ==> sorted_by_name(report@) && increasing(x.stamps)
            && x.stamps.len() == report@.len(),
{
    pending_is_sorted(files, files.len() as int);
    verdict_keeps_order(pending(files), rows_or_empty(x), 0, Seq::empty());
}

/// The ledger rows of `x`, or none.
pub open spec fn rows_or_empty(x: Responses) -> Seq<MigrationsRow> {
    match x.ledger {
        Some(rows) => rows,
        None => Seq::empty(),
    }
}

/// When a batch fails while migrations are applied, `migrate` fails with a
/// backend error right after it: the batches before it succeeded, nothing
/// follows it, and the lock is not freed.
pub proof fn failed_batch_ends_run(
    files: Seq<MigrationFile>,
    x: Responses,
    calls: Seq<Call>,
    r: Result<ExecutionReport, ErrorType>,
    rows: Seq<MigrationsRow>,
    new: Seq<MigrationFile>,
)
    requires
        run_matches(files, x, calls, r),
        bootstrapped(x),
        x.ledger == Some(rows),
        run_outcome(files, rows, x.checked) == RunOutcome::Applied(new),
        x.locked,
        x.applied < new.len(),
    ensures
        r matches Err(e) && e is BackendError,
        x.stamps.len() == x.applied + 1,
        calls == bootstrap_calls(x) + seq![
            Call::ReadLedger(SELECT_MIGRATIONS_QUERY@, Some(rows)),
            Call::ReadLock(SELECT_LOCK_QUERY@, x.checked),
            Call::Exec(seq![lock_statement(1)], true),
        ] + apply_calls(new, x.stamps, x.applied),
        calls.last() == Call::Exec(batch_of(new[x.applied as int], x.stamps[x.applied as int]), false),
{
    let taken = bootstrap_calls(x) + seq![
        Call::ReadLedger(SELECT_MIGRATIONS_QUERY@, Some(rows)),
        Call::ReadLock(SELECT_LOCK_QUERY@, x.checked),
        Call::Exec(seq![lock_statement(1)], true),
    ];
    assert(calls =~= taken + apply_calls(new, x.stamps, x.applied));
}

/// A call of the run failed: a batch the backend did not execute, or a
/// ledger read that failed.
pub open spec fn some_call_failed(calls: Seq<Call>) -> bool {
    exists|i: int|
        0 <= i < calls.len() && (#[trigger] calls[i] matches Call::Exec(_, false)
            || calls[i] matches Call::ReadLedger(_, None))
}

/// `migrate` returns a backend error only when a call that it depends on
/// failed: a batch, or the ledger read (a failed lock read is not one: it
/// means that there is no lock row).
pub proof fn backend_error_has_a_cause(
    files: Seq<MigrationFile>,
    x: Responses,
    calls: Seq<Call>,
    r: Result<ExecutionReport, ErrorType>,
)
    requires
        run_matches(files, x, calls, r),
        r matches Err(e) && e is BackendError,
    ensures
        some_call_failed(calls),
{
    let boot = bootstrap_calls(x);
    if !x.created {
        assert(calls[0] matches Call::Exec(_, false));
    } else if x.found is None && !x.inserted {
        assert(calls[2] matches Call::Exec(_, false));
    } else {
        let read = boot.push(Call::ReadLedger(SELECT_MIGRATIONS_QUERY@, x.ledger));
        match x.ledger {
            None => {
                assert(calls[boot.len() as int] matches Call::ReadLedger(_, None));
            },
            Some(rows) => match run_outcome(files, rows, x.checked) {
                RunOutcome::Applied(new) => {
                    let taken = read.push(Call::ReadLock(SELECT_LOCK_QUERY@, x.checked)).push(
                        Call::Exec(seq![lock_statement(1)], x.locked),
                    );
                    if !x.locked {
                        assert(calls[taken.len() - 1] matches Call::Exec(_, false));
                    } else if x.applied < new.len() {
                        assert(x.stamps.len() == x.applied + 1);
                        assert(calls[(taken.len() + x.applied) as int] matches Call::Exec(_, false));
                    } else {
                        assert(calls[calls.len() - 1] matches Call::Exec(_, false));
                    }
                },
                _ => {},
            },
        }
    }
}

} // verus!
