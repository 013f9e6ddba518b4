use migrator_core::migration::MigrationFile;
use migrator_core::report::ExecutionReport;

#[test]
fn empty_report_text() {
    let r = ExecutionReport::new(Vec::new());
    assert_eq!(r.len(), 0);
    assert_eq!(r.to_text(), "0 migrations applied\n");
}

#[test]
fn report_text_lists_migrations() {
    let m = MigrationFile::new("1_a.sql", "a");
    let r = ExecutionReport::new(vec![m.copy()]);
    assert_eq!(r.migrations()[0].name, "1_a.sql");
    assert_eq!(
        r.to_text(),
        format!("migration 1_a.sql - checksum {}\n1 migrations applied\n", m.checksum())
    );
}
