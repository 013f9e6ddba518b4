use vstd::prelude::*;
use crate::client::MigrationsRow;
use crate::error::ErrorType;
use crate::migration::{checksum_text, MigrationFile};
use crate::text::{lemma_less_asymmetric, lemma_not_less_transitive, text_less, text_lt};

verus! {

/// What reconciling the local files against the ledger decides.
pub enum Verdict {
    /// Files and ledger agree; these migrations are new, in the order given.
    Apply(Seq<MigrationFile>),
    /// File `.0` was edited after ledger row `.1` recorded it.
    Corrupt(int, int),
    /// File `.0` is new and holds no SQL.
    Empty(int),
    /// The ledger has rows that no local file matches; the names of those rows.
    Missing(Seq<Seq<char>>),
}

/// Index of the first ledger row at or after `i` named `name`, or -1.
pub open spec fn row_index_from(rows: Seq<MigrationsRow>, name: Seq<char>, i: int) -> int
    decreases rows.len() - i,
{
    if i >= rows.len() {
        -1
    } else if rows[i].name@ == name {
        i
    } else {
        row_index_from(rows, name, i + 1)
    }
}

/// Index of the first ledger row named `name`, or -1.
pub open spec fn row_index(rows: Seq<MigrationsRow>, name: Seq<char>) -> int {
    row_index_from(rows, name, 0)
}

/// Some local file is named `name`.
pub open spec fn has_file(files: Seq<MigrationFile>, name: Seq<char>) -> bool {
    exists|j: int| 0 <= j < files.len() && files[j].name@ == name
}

/// The names of the first `n` ledger rows that no local file matches.
pub open spec fn orphans_upto(files: Seq<MigrationFile>, rows: Seq<MigrationsRow>, n: int) -> Seq<
    Seq<char>,
>
    decreases n,
{
    if n <= 0 {
        Seq::empty()
    } else {
        let prev = orphans_upto(files, rows, n - 1);
        if has_file(files, rows[n - 1].name@) {
            prev
        } else {
            prev.push(rows[n - 1].name@)
        }
    }
}

/// The names of the ledger rows that no local file matches, in ledger order.
pub open spec fn orphan_names(files: Seq<MigrationFile>, rows: Seq<MigrationsRow>) -> Seq<
    Seq<char>,
> {
    orphans_upto(files, rows, rows.len() as int)
}

/// Classifies `files[i..]` in order, `new` holding the new files met so far:
/// a file whose ledger row has another checksum is corrupt, a new file
/// without SQL is empty, and the first such file decides.
pub open spec fn verdict_from(
    files: Seq<MigrationFile>,
    rows: Seq<MigrationsRow>,
    i: int,
    new: Seq<MigrationFile>,
) -> Verdict
    decreases files.len() - i,
{
    if i >= files.len() {
        Verdict::Apply(new)
    } else {
        let k = row_index(rows, files[i].name@);
        if k >= 0 {
            if rows[k].checksum@ != checksum_text(files[i].name@, files[i].sql@) {
                Verdict::Corrupt(i, k)
            } else {
                verdict_from(files, rows, i + 1, new)
            }
        } else if files[i].sql@.len() == 0 {
            Verdict::Empty(i)
        } else {
            verdict_from(files, rows, i + 1, new.push(files[i]))
        }
    }
}

/// The verdict on `files` (forward files in name order) against the ledger
/// `rows`: the per-file classification, then the count check that every
/// ledger row is accounted for by a file that is not new.
pub open spec fn reconcile_spec(files: Seq<MigrationFile>, rows: Seq<MigrationsRow>) -> Verdict {
    match verdict_from(files, rows, 0, Seq::empty()) {
        Verdict::Apply(new) => {
            if files.len() - new.len() != rows.len() {
                Verdict::Missing(orphan_names(files, rows))
            } else {
                Verdict::Apply(new)
            }
        },
        v => v,
    }
}

/// `e` is the error that reports verdict `v` on `files` and `rows`.
pub open spec fn error_reports(
    e: ErrorType,
    v: Verdict,
    files: Seq<MigrationFile>,
    rows: Seq<MigrationsRow>,
) -> bool {
    match v {
        Verdict::Apply(_) => false,
        Verdict::Corrupt(i, k) => e matches ErrorType::CorruptMigrationDirectory {
            name,
            recorded,
            current,
        } && name@ == files[i].name@ && recorded@ == rows[k].checksum@ && current@
            == checksum_text(files[i].name@, files[i].sql@),
        Verdict::Empty(i) => e matches ErrorType::EmptyMigration(name) && name@ == files[i].name@,
        Verdict::Missing(names) => e matches ErrorType::MissingMigrationFiles(list) && list@.map_values(
            |s: String| s@,
        ) == names,
    }
}

/// `r` is the result that reports verdict `v` on `files` and `rows`.
pub open spec fn result_reports(
    r: Result<Vec<MigrationFile>, ErrorType>,
    v: Verdict,
    files: Seq<MigrationFile>,
    rows: Seq<MigrationsRow>,
) -> bool {
    match r {
        Ok(list) => v == Verdict::Apply(list@),
        Err(e) => error_reports(e, v, files, rows),
    }
}

pub proof fn lemma_row_index_from(rows: Seq<MigrationsRow>, name: Seq<char>, i: int)
    requires
        0 <= i,
    ensures
        row_index_from(rows, name, i) == -1 || (i <= row_index_from(rows, name, i) < rows.len()
            && rows[row_index_from(rows, name, i)].name@ == name),
        row_index_from(rows, name, i) == -1 ==> forall|j: int|
            i <= j < rows.len() ==> rows[j].name@ != name,
    decreases rows.len() - i,
{
    if i < rows.len() && rows[i].name@ != name {
        lemma_row_index_from(rows, name, i + 1);
    }
}

/// The first ledger row named `name`.
fn find_row(rows: &Vec<MigrationsRow>, name: &String) -> (r: Option<usize>)
    ensures
        match r {
            Some(k) => k == row_index(rows@, name@) && k < rows@.len(),
            None => row_index(rows@, name@) == -1,
        },
{
    proof {
        lemma_row_index_from(rows@, name@, 0);
    }
    let mut j: usize = 0;
    while j < rows.len()
        invariant
            j <= rows@.len(),
            row_index_from(rows@, name@, j as int) == row_index(rows@, name@),
        decreases rows@.len() - j,
    {
        if rows[j].name == *name {
            return Some(j);
        }
        j += 1;
    }
    None
}

/// Whether some local file is named `name`.
fn has_local_file(files: &Vec<MigrationFile>, name: &String) -> (r: bool)
    ensures
        r == has_file(files@, name@),
{
    let mut j: usize = 0;
    while j < files.len()
        invariant
            j <= files@.len(),
            forall|k: int| 0 <= k < j ==> files@[k].name@ != name@,
        decreases files@.len() - j,
    {
        if files[j].name == *name {
            return true;
        }
        j += 1;
    }
    false
}

/// The names of the ledger rows that no local file matches.
fn orphans(files: &Vec<MigrationFile>, rows: &Vec<MigrationsRow>) -> (r: Vec<String>)
    ensures
        r@.map_values(|s: String| s@) == orphan_names(files@, rows@),
{
    let mut r: Vec<String> = Vec::new();
    let mut i: usize = 0;
    while i < rows.len()
        invariant
            i <= rows@.len(),
            r@.map_values(|s: String| s@) == orphans_upto(files@, rows@, i as int),
        decreases rows@.len() - i,
    {
        if !has_local_file(files, &rows[i].name) {
            r.push(rows[i].name.clone());
        }
        i += 1;
        assert(r@.map_values(|s: String| s@) =~= orphans_upto(files@, rows@, i as int));
    }
    r
}

/// Reconciles `files`, the forward migrations in name order, against the
/// ledger rows: the new migrations to apply, in order, or the error that
/// stops the run before anything is executed.
pub fn reconcile(files: &Vec<MigrationFile>, rows: &Vec<MigrationsRow>) -> (r: Result<
    Vec<MigrationFile>,
    ErrorType,
>)
    ensures
        result_reports(r, reconcile_spec(files@, rows@), files@, rows@),
{
    let mut new: Vec<MigrationFile> = Vec::new();
    let mut i: usize = 0;
    while i < files.len()
        invariant
            i <= files@.len(),
            new@.len() <= i,
            verdict_from(files@, rows@, i as int, new@) == verdict_from(
                files@,
                rows@,
                0,
                Seq::empty(),
            ),
        decreases files@.len() - i,
    {
        let file = &files[i];
        match find_row(rows, &file.name) {
            Some(k) => {
                let current = file.checksum_string();
                if rows[k].checksum != current {
                    return Err(
                        ErrorType::CorruptMigrationDirectory {
                            name: file.name.clone(),
                            recorded: rows[k].checksum.clone(),
                            current,
                        },
                    );
                }
            },
            None => {
                if file.sql.as_str().is_empty() {
                    return Err(ErrorType::EmptyMigration(file.name.clone()));
                }
                new.push(file.copy());
            },
        }
        i += 1;
    }
    if files.len() - new.len() != rows.len() {
        return Err(ErrorType::MissingMigrationFiles(orphans(files, rows)));
    }
    Ok(new)
}

/// Inserts `m` into `s` after every migration whose name does not sort
/// after it: the step of a stable insertion sort by name.
pub open spec fn insert_by_name(m: MigrationFile, s: Seq<MigrationFile>) -> Seq<MigrationFile>
    decreases s.len(),
{
    if s.len() == 0 {
        seq![m]
    } else if text_less(m.name@, s.last().name@) {
        insert_by_name(m, s.drop_last()).push(s.last())
    } else {
        s.push(m)
    }
}

/// The forward migrations among the first `n` files, sorted by name (a
/// stable sort: equal names keep their order).
pub open spec fn pending_upto(files: Seq<MigrationFile>, n: int) -> Seq<MigrationFile>
    decreases n,
{
    if n <= 0 {
        Seq::empty()
    } else {
        let prev = pending_upto(files, n - 1);
        if files[n - 1].rollback {
            prev
        } else {
            insert_by_name(files[n - 1], prev)
        }
    }
}

/// The forward migrations among `files`, sorted by name.
pub open spec fn pending(files: Seq<MigrationFile>) -> Seq<MigrationFile> {
    pending_upto(files, files.len() as int)
}

proof fn lemma_insert_at(m: MigrationFile, s: Seq<MigrationFile>, j: int)
    requires
        0 <= j <= s.len(),
        forall|k: int| j <= k < s.len() ==> text_less(m.name@, #[trigger] s[k].name@),
        j == 0 || !text_less(m.name@, s[j - 1].name@),
    ensures
        insert_by_name(m, s) == s.insert(j, m),
    decreases s.len(),
{
    if s.len() == 0 {
        assert(s.insert(j, m) =~= seq![m]);
    } else if text_less(m.name@, s.last().name@) {
        lemma_insert_at(m, s.drop_last(), j);
        assert(s.drop_last().insert(j, m).push(s.last()) =~= s.insert(j, m));
    } else {
        assert(s.insert(j, m) =~= s.push(m));
    }
}

/// Inserts `m` into `v`, kept in name order.
fn insert_sorted(v: &mut Vec<MigrationFile>, m: MigrationFile)
    ensures
        final(v)@ == insert_by_name(m, old(v)@),
{
    let mut j = v.len();
    while j > 0 && text_lt(m.name.as_str(), v[j - 1].name.as_str())
        invariant
            j <= v@.len(),
            forall|k: int| j <= k < v@.len() ==> text_less(m.name@, #[trigger] v@[k].name@),
        decreases j,
    {
        j -= 1;
    }
    proof {
        lemma_insert_at(m, v@, j as int);
    }
    v.insert(j, m);
}

/// `s` is in name order: no migration sorts before one that precedes it.
pub open spec fn sorted_by_name(s: Seq<MigrationFile>) -> bool {
    forall|i: int, j: int|
        0 <= i < j < s.len() ==> !text_less(#[trigger] s[j].name@, #[trigger] s[i].name@)
}

proof fn lemma_insert_bounded(m: MigrationFile, t: Seq<MigrationFile>, bound: Seq<char>)
    requires
        !text_less(bound, m.name@),
        forall|k: int| 0 <= k < t.len() ==> !text_less(bound, (#[trigger] t[k]).name@),
    ensures
        insert_by_name(m, t).len() == t.len() + 1,
        forall|k: int|
            0 <= k < insert_by_name(m, t).len() ==> !text_less(
                bound,
                (#[trigger] insert_by_name(m, t)[k]).name@,
            ),
    decreases t.len(),
{
    if t.len() > 0 && text_less(m.name@, t.last().name@) {
        lemma_insert_bounded(m, t.drop_last(), bound);
        let u = insert_by_name(m, t.drop_last());
        assert forall|k: int| 0 <= k < u.push(t.last()).len() implies !text_less(
            bound,
            (#[trigger] u.push(t.last())[k]).name@,
        ) by {
            if k < u.len() {
                assert(u.push(t.last())[k] == u[k]);
            }
        }
    }
}

proof fn lemma_insert_sorted(m: MigrationFile, s: Seq<MigrationFile>)
    requires
        sorted_by_name(s),
    ensures
        sorted_by_name(insert_by_name(m, s)),
    decreases s.len(),
{
    if s.len() == 0 {
    } else if text_less(m.name@, s.last().name@) {
        let t = s.drop_last();
        lemma_insert_sorted(m, t);
        lemma_less_asymmetric(m.name@, s.last().name@, 0);
        assert forall|k: int| 0 <= k < t.len() implies !text_less(
            s.last().name@,
            (#[trigger] t[k]).name@,
        ) by {
            assert(t[k] == s[k]);
        }
        lemma_insert_bounded(m, t, s.last().name@);
        let u = insert_by_name(m, t);
        assert forall|i: int, j: int| 0 <= i < j < u.push(s.last()).len() implies !text_less(
            #[trigger] u.push(s.last())[j].name@,
            #[trigger] u.push(s.last())[i].name@,
        ) by {
            assert(u.push(s.last())[i] == u[i]);
            if j < u.len() {
                assert(u.push(s.last())[j] == u[j]);
            }
        }
    } else {
        assert forall|i: int, j: int| 0 <= i < j < s.push(m).len() implies !text_less(
            #[trigger] s.push(m)[j].name@,
            #[trigger] s.push(m)[i].name@,
        ) by {
            assert(s.push(m)[i] == s[i]);
            if j < s.len() {
                assert(s.push(m)[j] == s[j]);
            } else if i < s.len() - 1 {
                lemma_not_less_transitive(s[i].name@, s.last().name@, m.name@, 0);
            }
        }
    }
}

/// The pending migrations are in name order.
pub proof fn pending_is_sorted(files: Seq<MigrationFile>, n: int)
    ensures
        sorted_by_name(pending_upto(files, n)),
    decreases n,
{
    if n > 0 {
        pending_is_sorted(files, n - 1);
        if !files[n - 1].rollback {
            lemma_insert_sorted(files[n - 1], pending_upto(files, n - 1));
        }
    }
}

/// Reconciling files in name order keeps the new ones in name order.
pub proof fn verdict_keeps_order(
    files: Seq<MigrationFile>,
    rows: Seq<MigrationsRow>,
    i: int,
    new: Seq<MigrationFile>,
)
    requires
        0 <= i,
        sorted_by_name(files),
        sorted_by_name(new),
        forall|k: int, j: int|
            0 <= k < new.len() && i <= j < files.len() ==> !text_less(
                (#[trigger] files[j]).name@,
                (#[trigger] new[k]).name@,
            ),
    ensures
        verdict_from(files, rows, i, new) matches Verdict::Apply(all) ==> sorted_by_name(all),
    decreases files.len() - i,
{
    if i < files.len() {
        let next = new.push(files[i]);
        assert forall|a: int, b: int| 0 <= a < b < next.len() implies !text_less(
            #[trigger] next[b].name@,
            #[trigger] next[a].name@,
        ) by {
            assert(next[a] == new[a]);
            if b < new.len() {
                assert(next[b] == new[b]);
            }
        }
        assert forall|k: int, j: int| 0 <= k < next.len() && i + 1 <= j < files.len() implies !text_less(
            (#[trigger] files[j]).name@,
            (#[trigger] next[k]).name@,
        ) by {
            if k < new.len() {
                assert(next[k] == new[k]);
            }
        }
        verdict_keeps_order(files, rows, i + 1, new);
        verdict_keeps_order(files, rows, i + 1, next);
    }
}

/// The forward migrations among `files`, sorted by name: the order in which
/// they are applied.
pub fn pending_migrations(files: &Vec<MigrationFile>) -> (r: Vec<MigrationFile>)
    ensures
        r@ == pending(files@),
{
    let mut r: Vec<MigrationFile> = Vec::new();
    let mut i: usize = 0;
    while i < files.len()
        invariant
            i <= files@.len(),
            r@ == pending_upto(files@, i as int),
        decreases files@.len() - i,
    {
        if !files[i].rollback {
            insert_sorted(&mut r, files[i].copy());
        }
        i += 1;
    }
    r
}

} // verus!
