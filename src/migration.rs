use vstd::prelude::*;
use vstd::utf8::encode_utf8;
use crate::clock::{current_ledger_timestamp, current_stamp, epoch_nanos, stamp_of, LocalTime};
use crate::text::{contains, decimal, ends_with, push_decimal, text_contains, text_ends_with};
use crate::util::{fnv1a, fnv1a_extend, FNV_OFFSET_BASIS};

verus! {

/// The checksum of a migration: 64-bit FNV-1a over the UTF-8 bytes of the
/// name, a 0xff byte, the UTF-8 bytes of the SQL and a 0xff byte. (0xff never
/// occurs in UTF-8, so the pair is read back unambiguously.)
pub open spec fn checksum_of(name: Seq<char>, sql: Seq<char>) -> u64 {
    fnv1a(
        fnv1a(fnv1a(fnv1a(FNV_OFFSET_BASIS, encode_utf8(name)), seq![0xffu8]), encode_utf8(sql)),
        seq![0xffu8],
    )
}

/// The checksum as the ledger records it: in decimal.
pub open spec fn checksum_text(name: Seq<char>, sql: Seq<char>) -> Seq<char> {
    decimal(checksum_of(name, sql) as nat)
}

/// Whether a file name marks a rollback migration.
pub open spec fn is_rollback_name(name: Seq<char>) -> bool {
    contains(name, ".down"@)
}

/// The statement that records an applied migration in the ledger.
pub open spec fn insert_statement(name: Seq<char>, checksum: Seq<char>, timestamp: nat) -> Seq<
    char,
> {
    "INSERT INTO clickhouse_migrations (*) VALUES ("@ + decimal(timestamp) + ", '"@ + name + "', '"@
        + checksum + "')"@
}

/// `title` with each space replaced by a dash.
pub open spec fn slug(title: Seq<char>) -> Seq<char> {
    Seq::new(title.len(), |i: int| if title[i] == ' ' { '-' } else { title[i] })
}

/// One migration on disk: its file name, its SQL, and whether it is a
/// rollback file.
#[derive(Debug, Clone)]
pub struct MigrationFile {
    pub name: String,
    pub sql: String,
    pub rollback: bool,
}

impl MigrationFile {
    /// The checksum of this migration.
    pub open spec fn spec_checksum(&self) -> u64 {
        checksum_of(self.name@, self.sql@)
    }

    /// A migration read from the file `name` holding `content`; a name that
    /// holds `.down` marks a rollback file.
    pub fn new(name: &str, content: &str) -> (r: MigrationFile)
        ensures
            r.name@ == name@,
            r.sql@ == content@,
            r.rollback == is_rollback_name(name@),
    {
        let rollback = text_contains(name, ".down");
        MigrationFile { name: name.to_owned(), sql: content.to_owned(), rollback }
    }

    /// The same as `new`.
    pub fn default(name: &str, content: &str) -> (r: MigrationFile)
        ensures
            r.name@ == name@,
            r.sql@ == content@,
            r.rollback == is_rollback_name(name@),
    {
        MigrationFile::new(name, content)
    }

    /// A copy of this migration.
    pub fn copy(&self) -> (r: MigrationFile)
        ensures
            r == *self,
    {
        MigrationFile { name: self.name.clone(), sql: self.sql.clone(), rollback: self.rollback }
    }

    /// The display path of this migration: `/v<name>.sql`.
    pub fn to_display(&self) -> (r: String)
        ensures
            r@ == "/v"@ + self.name@ + ".sql"@,
    {
        let mut r = "/v".to_owned();
        r.append(self.name.as_str());
        r.append(".sql");
        r
    }

    pub fn name(&self) -> (r: &String)
        ensures
            r == &self.name,
    {
        &self.name
    }

    pub fn sql(&self) -> (r: &String)
        ensures
            r == &self.sql,
    {
        &self.sql
    }

    /// The checksum of this migration, a function of its name and SQL alone.
    pub fn checksum(&self) -> (r: u64)
        ensures
            r == self.spec_checksum(),
    {
        let h = fnv1a_extend(FNV_OFFSET_BASIS, self.name.as_str().as_bytes());
        let h = fnv1a_extend(h, &[0xffu8]);
        let h = fnv1a_extend(h, self.sql.as_str().as_bytes());
        let h = fnv1a_extend(h, &[0xffu8]);
        proof {
            assert(seq![0xffu8] =~= [0xffu8]@);
        }
        h
    }

    /// The checksum of this migration in decimal, as the ledger records it.
    pub fn checksum_string(&self) -> (r: String)
        ensures
            r@ == checksum_text(self.name@, self.sql@),
    {
        let mut r = String::new();
        push_decimal(&mut r, self.checksum());
        r
    }

    /// The one-line description of this migration:
    /// `migration <name> - checksum <checksum>`.
    pub fn describe(&self) -> (r: String)
        ensures
            r@ == "migration "@ + self.name@ + " - checksum "@ + checksum_text(
                self.name@,
                self.sql@,
            ),
    {
        let mut r = "migration ".to_owned();
        r.append(self.name.as_str());
        r.append(" - checksum ");
        push_decimal(&mut r, self.checksum());
        r
    }

    /// The statement that records this migration in the ledger as applied at
    /// `timestamp`.
    pub fn insert_sql_at(&self, timestamp: u64) -> (r: String)
        ensures
            r@ == insert_statement(
                self.name@,
                checksum_text(self.name@, self.sql@),
                timestamp as nat,
            ),
    {
        let mut r = "INSERT INTO clickhouse_migrations (*) VALUES (".to_owned();
        push_decimal(&mut r, timestamp);
        r.append(", '");
        r.append(self.name.as_str());
        r.append("', '");
        push_decimal(&mut r, self.checksum());
        r.append("')");
        r
    }

    /// The statement that records this migration in the ledger as applied
    /// now.
    pub fn to_insert_sql(&self) -> (r: String)
        ensures
            exists|t: LocalTime|
                r@ == insert_statement(
                    self.name@,
                    checksum_text(self.name@, self.sql@),
                    #[trigger] epoch_nanos(t.seconds as int, t.nanos as int) as nat,
                ),
    {
        self.insert_sql_at(current_ledger_timestamp())
    }
}

/// Whether a directory entry named `file_name` is a migration file.
pub fn is_migration_file_name(file_name: &str) -> (r: bool)
    ensures
        r == ends_with(file_name@, ".sql"@),
{
    text_ends_with(file_name, ".sql")
}

/// `title` with each space replaced by a dash.
pub fn slugify(title: &str) -> (r: String)
    ensures
        r@ == slug(title@),
{
    let n = title.unicode_len();
    let mut r = String::new();
    let mut i: usize = 0;
    while i < n
        invariant
            n == title@.len(),
            i <= n,
            r@ == slug(title@.subrange(0, i as int)),
        decreases n - i,
    {
        let piece = title.substring_char(i, i + 1);
        let c = title.get_char(i);
        assert(piece@ =~= seq![c]);
        proof {
            reveal_strlit("-");
        }
        let ghost before = r@;
        if c == ' ' {
            r.append("-");
        } else {
            r.append(piece);
        }
        assert(r@ =~= before.push(if c == ' ' { '-' } else { c }));
        i += 1;
        assert(r@ =~= slug(title@.subrange(0, i as int)));
    }
    assert(title@.subrange(0, n as int) =~= title@);
    r
}

/// The file names of a new migration titled `title` and created at `stamp`:
/// the forward file `<stamp>_<slug>.sql` and its rollback file
/// `<stamp>_<slug>.down.sql`.
pub fn migration_file_names(stamp: &str, title: &str) -> (r: (String, String))
    ensures
        r.0@ == stamp@ + "_"@ + slug(title@) + ".sql"@,
        r.1@ == stamp@ + "_"@ + slug(title@) + ".down.sql"@,
{
    let s = slugify(title);
    let mut forward = stamp.to_owned();
    forward.append("_");
    forward.append(s.as_str());
    let mut rollback = forward.clone();
    forward.append(".sql");
    rollback.append(".down.sql");
    (forward, rollback)
}

/// The paths of a new migration titled `title` in `directory`, stamped with
/// the local time now.
pub fn new_migration_paths(directory: &str, title: &str) -> (r: (String, String))
    ensures
        exists|t: LocalTime|
            r.0@ == directory@ + "/"@ + #[trigger] stamp_of(t) + "_"@ + slug(title@) + ".sql"@
                && r.1@ == directory@ + "/"@ + stamp_of(t) + "_"@ + slug(title@) + ".down.sql"@,
{
    let now = current_stamp();
    let mut prefix = directory.to_owned();
    prefix.append("/");
    prefix.append(now.as_str());
    let (forward, rollback) = migration_file_names(prefix.as_str(), title);
    proof {
        let t = choose|t: LocalTime| now@ == #[trigger] stamp_of(t);
        assert(forward@ =~= directory@ + "/"@ + stamp_of(t) + "_"@ + slug(title@) + ".sql"@);
        assert(rollback@ =~= directory@ + "/"@ + stamp_of(t) + "_"@ + slug(title@) + ".down.sql"@);
    }
    (forward, rollback)
}

} // verus!
