use migrator_core::migration::{
    is_migration_file_name, migration_file_names, new_migration_paths, slugify, MigrationFile,
};
use migrator_core::util::{calculate_hash, create_path};

#[test]
fn fnv1a_known_values() {
    assert_eq!(calculate_hash(b""), 0xcbf2_9ce4_8422_2325);
    assert_eq!(calculate_hash(b"a"), 0xaf63_dc4c_8601_ec8c);
    assert_eq!(calculate_hash(b"foobar"), 0x8594_4171_f739_67e8);
}

#[test]
fn checksum_digests_name_and_sql() {
    let m = MigrationFile::new("20240101_a.sql", "CREATE TABLE a");
    let mut bytes = b"20240101_a.sql".to_vec();
    bytes.push(0xff);
    bytes.extend_from_slice(b"CREATE TABLE a");
    bytes.push(0xff);
    assert_eq!(m.checksum(), calculate_hash(&bytes));
    assert_eq!(m.checksum_string(), calculate_hash(&bytes).to_string());
}

#[test]
fn checksum_is_deterministic() {
    let a = MigrationFile::new("20240101_a.sql", "CREATE TABLE a");
    let b = MigrationFile::default("20240101_a.sql", "CREATE TABLE a");
    assert_eq!(a.checksum(), b.checksum());
    assert_eq!(a.checksum(), a.copy().checksum());
    let edited = MigrationFile::new("20240101_a.sql", "CREATE TABLE a2");
    assert_ne!(a.checksum(), edited.checksum());
    let renamed = MigrationFile::new("20240101_b.sql", "CREATE TABLE a");
    assert_ne!(a.checksum(), renamed.checksum());
}

#[test]
fn name_and_sql_split_is_unambiguous() {
    let a = MigrationFile::new("ab", "c");
    let b = MigrationFile::new("a", "bc");
    assert_ne!(a.checksum(), b.checksum());
}

#[test]
fn rollback_files_are_recognised_by_name() {
    assert!(!MigrationFile::new("20240101_a.sql", "").rollback);
    assert!(MigrationFile::new("20240101_a.down.sql", "").rollback);
    assert!(!MigrationFile::new("20240101_a.up.sql", "").rollback);
}

#[test]
fn accessors_and_display() {
    let m = MigrationFile::new("001_init", "SELECT 1");
    assert_eq!(m.name(), "001_init");
    assert_eq!(m.sql(), "SELECT 1");
    assert_eq!(m.to_display(), "/v001_init.sql");
    assert_eq!(m.describe(), format!("migration 001_init - checksum {}", m.checksum()));
}

#[test]
fn insert_statement_text() {
    let m = MigrationFile::new("20240101_a.sql", "CREATE TABLE a");
    assert_eq!(
        m.insert_sql_at(42),
        format!(
            "INSERT INTO clickhouse_migrations (*) VALUES (42, '20240101_a.sql', '{}')",
            m.checksum()
        )
    );
    let now = m.to_insert_sql();
    assert!(now.starts_with("INSERT INTO clickhouse_migrations (*) VALUES ("));
    assert!(now.ends_with(&format!(", '20240101_a.sql', '{}')", m.checksum())));
}

#[test]
fn migration_file_name_filter() {
    assert!(is_migration_file_name("20240101_a.sql"));
    assert!(is_migration_file_name(".sql"));
    assert!(!is_migration_file_name("20240101_a.txt"));
    assert!(!is_migration_file_name("sql"));
    assert!(!is_migration_file_name(""));
}

#[test]
fn slugs_and_file_names() {
    assert_eq!(slugify("add users table"), "add-users-table");
    assert_eq!(slugify(""), "");
    let (forward, rollback) = migration_file_names("20240101120000", "add users");
    assert_eq!(forward, "20240101120000_add-users.sql");
    assert_eq!(rollback, "20240101120000_add-users.down.sql");
}

#[test]
fn new_migration_paths_are_stamped() {
    let (forward, rollback) = new_migration_paths("migrations", "add users");
    assert!(forward.starts_with("migrations/"));
    assert!(forward.ends_with("_add-users.sql"));
    let stamp = &forward["migrations/".len()..forward.len() - "_add-users.sql".len()];
    assert_eq!(stamp.len(), 14);
    assert!(stamp.chars().all(|c| c.is_ascii_digit()));
    assert_eq!(rollback, format!("migrations/{}_add-users.down.sql", stamp));
}

#[test]
fn paths_are_joined_as_text() {
    assert_eq!(create_path("/tmp/migrations", "/version_cache"), "/tmp/migrations/version_cache");
    assert_eq!(create_path("", ""), "");
}
