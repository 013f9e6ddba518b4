use vstd::prelude::*;
use crate::migration::{checksum_text, MigrationFile};
use crate::text::{decimal, push_decimal};

verus! {

/// The line that describes one applied migration.
pub open spec fn migration_line(m: MigrationFile) -> Seq<char> {
    "migration "@ + m.name@ + " - checksum "@ + checksum_text(m.name@, m.sql@) + "\n"@
}

/// The lines that describe the first `n` migrations of `ms`.
pub open spec fn migration_lines(ms: Seq<MigrationFile>, n: int) -> Seq<char>
    decreases n,
{
    if n <= 0 {
        Seq::empty()
    } else {
        migration_lines(ms, n - 1) + migration_line(ms[n - 1])
    }
}

/// The rendered summary of a run that applied `ms`: one line per migration,
/// then the count.
pub open spec fn report_text(ms: Seq<MigrationFile>) -> Seq<char> {
    migration_lines(ms, ms.len() as int) + decimal(ms.len()) + " migrations applied\n"@
}

/// The migrations applied by one run, in the order they were applied.
#[derive(Debug, Clone)]
pub struct ExecutionReport {
    ran_migrations: Vec<MigrationFile>,
}

impl View for ExecutionReport {
    type V = Seq<MigrationFile>;

    closed spec fn view(&self) -> Seq<MigrationFile> {
        self.ran_migrations@
    }
}

impl ExecutionReport {
    pub fn new(ran_migrations: Vec<MigrationFile>) -> (r: ExecutionReport)
        ensures
            r@ == ran_migrations@,
    {
        ExecutionReport { ran_migrations }
    }

    /// The applied migrations, in order.
    pub fn migrations(&self) -> (r: &Vec<MigrationFile>)
        ensures
            r@ == self@,
    {
        &self.ran_migrations
    }

    /// The number of applied migrations.
    pub fn len(&self) -> (r: usize)
        ensures
            r == self@.len(),
    {
        self.ran_migrations.len()
    }

    /// The rendered summary: `migration <name> - checksum <checksum>` for each
    /// migration, then `<n> migrations applied`, each line ending in a newline.
    pub fn to_text(&self) -> (r: String)
        ensures
            r@ == report_text(self@),
    {
        let mut r = String::new();
        let mut i: usize = 0;
        let n = self.ran_migrations.len();
        while i < n
            invariant
                n == self@.len(),
                self@ == self.ran_migrations@,
                i <= n,
                r@ == migration_lines(self@, i as int),
            decreases n - i,
        {
            r.append(self.ran_migrations[i].describe().as_str());
            r.append("\n");
            i += 1;
        }
        push_decimal(&mut r, n as u64);
        r.append(" migrations applied\n");
        r
    }
}

} // verus!
