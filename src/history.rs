use vstd::prelude::*;
use crate::client::MigrationsRow;

verus! {

/// Inserts `row` into `s` after every row that is not older: the step of a
/// stable insertion sort, newest first.
pub open spec fn insert_by_time(row: MigrationsRow, s: Seq<MigrationsRow>) -> Seq<MigrationsRow>
    decreases s.len(),
{
    if s.len() == 0 {
        seq![row]
    } else if s.last().timestamp < row.timestamp {
        insert_by_time(row, s.drop_last()).push(s.last())
    } else {
        s.push(row)
    }
}

/// The first `n` ledger rows, newest first (rows applied at the same time
/// keep their order).
pub open spec fn newest_first_upto(rows: Seq<MigrationsRow>, n: int) -> Seq<MigrationsRow>
    decreases n,
{
    if n <= 0 {
        Seq::empty()
    } else {
        insert_by_time(rows[n - 1], newest_first_upto(rows, n - 1))
    }
}

/// The ledger rows, newest first: the order in which applied migrations
/// are undone.
pub open spec fn newest_first(rows: Seq<MigrationsRow>) -> Seq<MigrationsRow> {
    newest_first_upto(rows, rows.len() as int)
}

proof fn lemma_insert_at(row: MigrationsRow, s: Seq<MigrationsRow>, j: int)
    requires
        0 <= j <= s.len(),
        forall|k: int| j <= k < s.len() ==> (#[trigger] s[k]).timestamp < row.timestamp,
        j == 0 || s[j - 1].timestamp >= row.timestamp,
    ensures
        insert_by_time(row, s) == s.insert(j, row),
    decreases s.len(),
{
    if s.len() == 0 {
        assert(s.insert(j, row) =~= seq![row]);
    } else if s.last().timestamp < row.timestamp {
        lemma_insert_at(row, s.drop_last(), j);
        assert(s.drop_last().insert(j, row).push(s.last()) =~= s.insert(j, row));
    } else {
        assert(s.insert(j, row) =~= s.push(row));
    }
}

/// `rows`, newest first.
pub fn order_newest_first(rows: &Vec<MigrationsRow>) -> (r: Vec<MigrationsRow>)
    ensures
        r@ == newest_first(rows@),
{
    let mut r: Vec<MigrationsRow> = Vec::new();
    let mut i: usize = 0;
    while i < rows.len()
        invariant
            i <= rows@.len(),
            r@ == newest_first_upto(rows@, i as int),
        decreases rows@.len() - i,
    {
        let row = rows[i].copy();
        let mut j = r.len();
        while j > 0 && r[j - 1].timestamp < row.timestamp
            invariant
                j <= r@.len(),
                forall|k: int| j <= k < r@.len() ==> (#[trigger] r@[k]).timestamp < row.timestamp,
            decreases j,
        {
            j -= 1;
        }
        proof {
            lemma_insert_at(row, r@, j as int);
        }
        r.insert(j, row);
        i += 1;
    }
    r
}

} // verus!
