use migrator_core::client::{LockRow, MigrationsRow, RowFetcher, Transaction};
use migrator_core::driver::Driver;
use migrator_core::error::ErrorType;
use migrator_core::migration::MigrationFile;

/// An in-memory backend: it records every statement, keeps a ledger and a
/// lock row, and understands the few statements the engine issues.
struct FakeDb {
    executed: Vec<String>,
    ledger: Vec<MigrationsRow>,
    lock: Option<u8>,
    fail_on: Option<String>,
}

impl FakeDb {
    fn new() -> FakeDb {
        FakeDb { executed: Vec::new(), ledger: Vec::new(), lock: Some(0), fail_on: None }
    }

    fn with_row(mut self, name: &str, checksum: &str) -> FakeDb {
        self.ledger.push(MigrationsRow {
            timestamp: self.ledger.len() as u64 + 1,
            name: name.to_string(),
            checksum: checksum.to_string(),
        });
        self
    }

    fn ledger_names(&self) -> Vec<String> {
        self.ledger.iter().map(|r| r.name.clone()).collect()
    }
}

fn quoted(s: &str) -> Vec<String> {
    s.split('\'').skip(1).step_by(2).map(|p| p.to_string()).collect()
}

impl Transaction for FakeDb {
    fn execute_many(&mut self, queries: &[&str]) -> Result<(), ErrorType> {
        for q in queries {
            self.execute_query(q)?;
        }
        Ok(())
    }

    fn execute_query(&mut self, query: &str) -> Result<(), ErrorType> {
        self.executed.push(query.to_string());
        if let Some(bad) = &self.fail_on {
            if query == bad {
                return Err(ErrorType::BackendError("syntax error".to_string()));
            }
        }
        if query.starts_with("INSERT INTO clickhouse_migrations") {
            let parts = quoted(query);
            let stamp = query.split("VALUES (").nth(1).unwrap().split(',').next().unwrap();
            self.ledger.push(MigrationsRow {
                timestamp: stamp.parse().unwrap(),
                name: parts[0].clone(),
                checksum: parts[1].clone(),
            });
        } else if query.starts_with("INSERT INTO clickhouse_migration_lock") {
            self.lock = Some(0);
        } else if let Some(rest) =
            query.strip_prefix("ALTER TABLE clickhouse_migration_lock UPDATE is_locked = ")
        {
            let value: u8 = rest.split(' ').next().unwrap().parse().unwrap();
            self.lock = Some(value);
        }
        Ok(())
    }
}

impl RowFetcher<MigrationsRow> for FakeDb {
    fn fetch_one(&mut self, _query: &str) -> Result<MigrationsRow, ErrorType> {
        match self.ledger.first() {
            Some(r) => Ok(MigrationsRow {
                timestamp: r.timestamp,
                name: r.name.clone(),
                checksum: r.checksum.clone(),
            }),
            None => Err(ErrorType::BackendError("no rows".to_string())),
        }
    }

    fn fetch_many(&mut self, _query: &str) -> Result<Vec<MigrationsRow>, ErrorType> {
        Ok(self
            .ledger
            .iter()
            .map(|r| MigrationsRow {
                timestamp: r.timestamp,
                name: r.name.clone(),
                checksum: r.checksum.clone(),
            })
            .collect())
    }
}

impl RowFetcher<LockRow> for FakeDb {
    fn fetch_one(&mut self, _query: &str) -> Result<LockRow, ErrorType> {
        match self.lock {
            Some(v) => Ok(LockRow { is_locked: v }),
            None => Err(ErrorType::BackendError("no rows".to_string())),
        }
    }

    fn fetch_many(&mut self, _query: &str) -> Result<Vec<LockRow>, ErrorType> {
        Ok(self.lock.iter().map(|v| LockRow { is_locked: *v }).collect())
    }
}

fn two_files() -> Vec<MigrationFile> {
    // Given out of order: the engine sorts by name.
    vec![
        MigrationFile::new("20240102_b.sql", "CREATE TABLE b"),
        MigrationFile::new("20240101_a.sql", "CREATE TABLE a"),
    ]
}

fn checksum_of(name: &str, sql: &str) -> String {
    MigrationFile::new(name, sql).checksum_string()
}

fn position(db: &FakeDb, statement: &str) -> Option<usize> {
    db.executed.iter().position(|s| s == statement)
}

#[test]
fn applies_new_migrations_in_name_order() {
    let mut driver = Driver::new(FakeDb::new());
    let report = driver.migrate(two_files()).unwrap();
    let names: Vec<&str> = report.migrations().iter().map(|m| m.name.as_str()).collect();
    assert_eq!(names, vec!["20240101_a.sql", "20240102_b.sql"]);
    let db = driver.into_client();
    let a = position(&db, "CREATE TABLE a").unwrap();
    let b = position(&db, "CREATE TABLE b").unwrap();
    assert!(a < b);
    assert_eq!(db.ledger_names(), vec!["20240101_a.sql", "20240102_b.sql"]);
    assert_eq!(db.ledger[0].checksum, checksum_of("20240101_a.sql", "CREATE TABLE a"));
    assert_eq!(db.lock, Some(0));
    assert_eq!(
        db.executed.last().unwrap(),
        "ALTER TABLE clickhouse_migration_lock UPDATE is_locked = 0 WHERE is_locked IS NOT NULL"
    );
}

#[test]
fn applies_only_the_migration_not_in_the_ledger() {
    let db = FakeDb::new()
        .with_row("20240101_a.sql", &checksum_of("20240101_a.sql", "CREATE TABLE a"));
    let mut driver = Driver::new(db);
    let report = driver.migrate(two_files()).unwrap();
    assert_eq!(report.len(), 1);
    assert_eq!(report.migrations()[0].name, "20240102_b.sql");
    let db = driver.into_client();
    assert_eq!(position(&db, "CREATE TABLE a"), None);
    assert!(position(&db, "CREATE TABLE b").is_some());
    assert_eq!(db.ledger_names(), vec!["20240101_a.sql", "20240102_b.sql"]);
    assert_eq!(db.lock, Some(0));
}

#[test]
fn edited_migration_is_corrupt() {
    let db = FakeDb::new().with_row("20240101_a.sql", "12345");
    let mut driver = Driver::new(db);
    let err = driver.migrate(two_files()).unwrap_err();
    match err {
        ErrorType::CorruptMigrationDirectory { name, recorded, current } => {
            assert_eq!(name, "20240101_a.sql");
            assert_eq!(recorded, "12345");
            assert_eq!(current, checksum_of("20240101_a.sql", "CREATE TABLE a"));
        }
        other => panic!("unexpected {:?}", other),
    }
    let db = driver.into_client();
    assert_eq!(db.ledger_names(), vec!["20240101_a.sql"]);
    assert_eq!(db.lock, Some(0));
    assert_eq!(position(&db, "CREATE TABLE a"), None);
    assert_eq!(position(&db, "CREATE TABLE b"), None);
}

#[test]
fn everything_applied_runs_nothing() {
    let db = FakeDb::new()
        .with_row("20240101_a.sql", &checksum_of("20240101_a.sql", "CREATE TABLE a"))
        .with_row("20240102_b.sql", &checksum_of("20240102_b.sql", "CREATE TABLE b"));
    let mut driver = Driver::new(db);
    let report = driver.migrate(two_files()).unwrap();
    assert_eq!(report.len(), 0);
    let db = driver.into_client();
    assert_eq!(db.ledger.len(), 2);
    assert_eq!(position(&db, "CREATE TABLE a"), None);
    assert_eq!(db.lock, Some(0));
}

#[test]
fn deleted_migration_is_missing() {
    let db = FakeDb::new()
        .with_row("20240101_a.sql", &checksum_of("20240101_a.sql", "CREATE TABLE a"))
        .with_row("20231231_gone.sql", "1");
    let mut driver = Driver::new(db);
    let err = driver.migrate(two_files()).unwrap_err();
    assert_eq!(err, ErrorType::MissingMigrationFiles(vec!["20231231_gone.sql".to_string()]));
    let db = driver.into_client();
    assert_eq!(db.ledger.len(), 2);
    assert_eq!(position(&db, "CREATE TABLE b"), None);
    assert_eq!(db.lock, Some(0));
}

#[test]
fn empty_new_migration_is_refused() {
    let files = vec![
        MigrationFile::new("20240101_a.sql", "CREATE TABLE a"),
        MigrationFile::new("20240102_b.sql", ""),
    ];
    let mut driver = Driver::new(FakeDb::new());
    let err = driver.migrate(files).unwrap_err();
    assert_eq!(err, ErrorType::EmptyMigration("20240102_b.sql".to_string()));
    let db = driver.into_client();
    assert!(db.ledger.is_empty());
    assert_eq!(position(&db, "CREATE TABLE a"), None);
}

#[test]
fn held_lock_conflicts() {
    let mut db = FakeDb::new();
    db.lock = Some(1);
    let mut driver = Driver::new(db);
    let err = driver.migrate(two_files()).unwrap_err();
    assert_eq!(err, ErrorType::LockConflict);
    let db = driver.into_client();
    assert_eq!(position(&db, "CREATE TABLE a"), None);
    assert_eq!(position(&db, "CREATE TABLE b"), None);
    assert!(db.ledger.is_empty());
    assert_eq!(db.lock, Some(1));
    assert_eq!(db.executed.len(), 2);
}

#[test]
fn empty_set_bootstraps_and_leaves_lock_free() {
    let mut db = FakeDb::new();
    db.lock = None;
    let mut driver = Driver::new(db);
    let report = driver.migrate(Vec::new()).unwrap();
    assert_eq!(report.len(), 0);
    let db = driver.into_client();
    assert!(db.executed[0].contains("CREATE TABLE IF NOT EXISTS clickhouse_migrations"));
    assert!(db.executed[1].contains("CREATE TABLE IF NOT EXISTS clickhouse_migration_lock"));
    assert_eq!(db.executed[2], "INSERT INTO clickhouse_migration_lock (*) VALUES (0)");
    assert_eq!(db.executed.len(), 5);
    assert_eq!(db.lock, Some(0));
    assert!(db.ledger.is_empty());
}

#[test]
fn rollback_files_are_not_applied() {
    let files = vec![
        MigrationFile::new("20240101_a.sql", "CREATE TABLE a"),
        MigrationFile::new("20240101_a.down.sql", "DROP TABLE a"),
    ];
    let mut driver = Driver::new(FakeDb::new());
    let report = driver.migrate(files).unwrap();
    assert_eq!(report.len(), 1);
    let db = driver.into_client();
    assert_eq!(position(&db, "DROP TABLE a"), None);
    assert_eq!(db.ledger_names(), vec!["20240101_a.sql"]);
}

#[test]
fn backend_failure_while_applying_leaves_lock_held() {
    let mut db = FakeDb::new();
    db.fail_on = Some("CREATE TABLE b".to_string());
    let mut driver = Driver::new(db);
    let err = driver.migrate(two_files()).unwrap_err();
    assert_eq!(err, ErrorType::BackendError("syntax error".to_string()));
    let db = driver.into_client();
    assert_eq!(db.ledger_names(), vec!["20240101_a.sql"]);
    assert_eq!(db.lock, Some(1));
}

#[test]
fn second_run_applies_nothing() {
    let mut driver = Driver::new(FakeDb::new());
    driver.migrate(two_files()).unwrap();
    let report = driver.migrate(two_files()).unwrap();
    assert_eq!(report.len(), 0);
    assert_eq!(driver.client().ledger.len(), 2);
}

#[test]
fn report_lists_each_migration_with_its_checksum() {
    let mut driver = Driver::new(FakeDb::new());
    let report = driver.migrate(two_files()).unwrap();
    let expected = format!(
        "migration 20240101_a.sql - checksum {}\nmigration 20240102_b.sql - checksum {}\n2 migrations applied\n",
        checksum_of("20240101_a.sql", "CREATE TABLE a"),
        checksum_of("20240102_b.sql", "CREATE TABLE b"),
    );
    assert_eq!(report.to_text(), expected);
}

#[test]
fn rollback_is_not_available_yet() {
    let db = FakeDb::new().with_row("1_a.sql", "1");
    let mut driver = Driver::new(db);
    let err = driver.rollback(two_files()).unwrap_err();
    assert_eq!(err, ErrorType::RollbackUnavailable);
    let db = driver.into_client();
    assert!(db.executed.is_empty());
    assert_eq!(db.ledger.len(), 1);
}

#[test]
fn applied_rows_come_newest_first() {
    let db = FakeDb::new().with_row("1_a.sql", "1").with_row("2_b.sql", "2").with_row("3_c.sql", "3");
    let mut driver = Driver::new(db);
    let rows = driver.applied_newest_first().unwrap();
    let names: Vec<&str> = rows.iter().map(|r| r.name.as_str()).collect();
    assert_eq!(names, vec!["3_c.sql", "2_b.sql", "1_a.sql"]);
}

#[test]
fn ledger_rows_are_stamped_in_increasing_order() {
    let files = vec![
        MigrationFile::new("1_a.sql", "a"),
        MigrationFile::new("2_b.sql", "b"),
        MigrationFile::new("3_c.sql", "c"),
    ];
    let mut driver = Driver::new(FakeDb::new());
    driver.migrate(files).unwrap();
    let db = driver.into_client();
    assert_eq!(db.ledger.len(), 3);
    assert!(db.ledger[0].timestamp < db.ledger[1].timestamp);
    assert!(db.ledger[1].timestamp < db.ledger[2].timestamp);
    assert!(db.ledger[0].timestamp > 1_600_000_000_000_000_000);
}

#[test]
fn failed_bootstrap_stops_the_run() {
    let mut db = FakeDb::new();
    db.fail_on = Some(
        "\nCREATE TABLE IF NOT EXISTS clickhouse_migrations (\n    timestamp DateTime64(9) NOT NULL,\n    name TEXT NOT NULL,\n    checksum TEXT NOT NULL\n)\nengine=TinyLog\n"
            .to_string(),
    );
    let mut driver = Driver::new(db);
    let err = driver.migrate(two_files()).unwrap_err();
    assert_eq!(err, ErrorType::BackendError("syntax error".to_string()));
    let db = driver.into_client();
    assert_eq!(db.executed.len(), 1);
    assert!(db.ledger.is_empty());
    assert_eq!(db.lock, Some(0));
}

#[test]
fn missing_lock_row_is_written_after_the_tables() {
    let mut db = FakeDb::new();
    db.lock = None;
    let mut driver = Driver::new(db);
    driver.prerequisite().unwrap();
    let db = driver.into_client();
    assert_eq!(db.executed.len(), 3);
    assert_eq!(db.executed[2], "INSERT INTO clickhouse_migration_lock (*) VALUES (0)");
    assert_eq!(db.lock, Some(0));
}
