use migrator_core::client::{LockRow, MigrationsRow};
use migrator_core::driver::check_lock;
use migrator_core::error::ErrorType;
use migrator_core::migration::MigrationFile;
use migrator_core::reconcile::{pending_migrations, reconcile};

fn row(name: &str, checksum: &str) -> MigrationsRow {
    MigrationsRow { timestamp: 1, name: name.to_string(), checksum: checksum.to_string() }
}

fn names(files: &[MigrationFile]) -> Vec<&str> {
    files.iter().map(|m| m.name.as_str()).collect()
}

#[test]
fn pending_is_forward_files_in_name_order() {
    let files = vec![
        MigrationFile::new("3_c.sql", "c"),
        MigrationFile::new("1_a.down.sql", "undo a"),
        MigrationFile::new("1_a.sql", "a"),
        MigrationFile::new("2_b.sql", "b"),
        MigrationFile::new("10_j.sql", "j"),
    ];
    let p = pending_migrations(&files);
    assert_eq!(names(&p), vec!["10_j.sql", "1_a.sql", "2_b.sql", "3_c.sql"]);
    assert!(pending_migrations(&Vec::new()).is_empty());
}

#[test]
fn equal_names_keep_their_order() {
    let files = vec![MigrationFile::new("a.sql", "first"), MigrationFile::new("a.sql", "second")];
    let p = pending_migrations(&files);
    assert_eq!(p[0].sql, "first");
    assert_eq!(p[1].sql, "second");
}

#[test]
fn reconcile_keeps_only_new_files() {
    let a = MigrationFile::new("1_a.sql", "a");
    let b = MigrationFile::new("2_b.sql", "b");
    let rows = vec![row("1_a.sql", &a.checksum_string())];
    let new = reconcile(&vec![a, b], &rows).unwrap();
    assert_eq!(names(&new), vec!["2_b.sql"]);
}

#[test]
fn reconcile_errors() {
    let a = MigrationFile::new("1_a.sql", "a");
    let empty = MigrationFile::new("2_b.sql", "");
    assert_eq!(
        reconcile(&vec![a.copy(), empty], &Vec::new()).unwrap_err(),
        ErrorType::EmptyMigration("2_b.sql".to_string())
    );
    match reconcile(&vec![a.copy()], &vec![row("1_a.sql", "0")]).unwrap_err() {
        ErrorType::CorruptMigrationDirectory { name, recorded, current } => {
            assert_eq!(name, "1_a.sql");
            assert_eq!(recorded, "0");
            assert_eq!(current, a.checksum_string());
        }
        other => panic!("unexpected {:?}", other),
    }
    let rows = vec![row("0_old.sql", "1"), row("1_a.sql", &a.checksum_string()), row("9_x.sql", "2")];
    assert_eq!(
        reconcile(&vec![a.copy()], &rows).unwrap_err(),
        ErrorType::MissingMigrationFiles(vec!["0_old.sql".to_string(), "9_x.sql".to_string()])
    );
}

#[test]
fn empty_inputs_reconcile_to_nothing() {
    assert!(reconcile(&Vec::new(), &Vec::new()).unwrap().is_empty());
}

#[test]
fn lock_checks() {
    assert_eq!(check_lock(&Some(LockRow { is_locked: 1 })), Err(ErrorType::LockConflict));
    assert_eq!(check_lock(&Some(LockRow { is_locked: 0 })), Ok(()));
    assert_eq!(check_lock(&Some(LockRow { is_locked: 2 })), Ok(()));
    assert_eq!(check_lock(&None), Ok(()));
}
