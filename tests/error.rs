use migrator_core::error::ErrorType;

#[test]
fn messages_name_what_went_wrong() {
    let corrupt = ErrorType::CorruptMigrationDirectory {
        name: "1_a.sql".to_string(),
        recorded: "12".to_string(),
        current: "34".to_string(),
    };
    assert_eq!(corrupt.message(), "Checksum 34 != 12. Migration directory is corrupt: 1_a.sql");
    let missing =
        ErrorType::MissingMigrationFiles(vec!["0_x.sql".to_string(), "0_y.sql".to_string()]);
    assert_eq!(
        missing.message(),
        "Migration directory is corrupt. Missing following files: 0_x.sql, 0_y.sql"
    );
    assert_eq!(
        ErrorType::MissingMigrationFiles(Vec::new()).message(),
        "Migration directory is corrupt. Missing following files: "
    );
    assert_eq!(
        ErrorType::EmptyMigration("2_b.sql".to_string()).message(),
        "2_b.sql. Empty migration file."
    );
    assert_eq!(
        ErrorType::LockConflict.message(),
        "Database is currently locked, cannot run migrations"
    );
    assert_eq!(ErrorType::BackendError("down".to_string()).message(), "Database error: down");
    assert_eq!(ErrorType::IOError("denied".to_string()).message(), "I/O error: denied");
    assert_eq!(
        ErrorType::InvalidDriverType("pg".to_string()).message(),
        "invalid driver type pg"
    );
    assert_eq!(
        ErrorType::MissingConfigDefinition("Missing migrations definition".to_string()).message(),
        "Missing migrations definition"
    );
    assert_eq!(
        ErrorType::UnableToReadConfig("bad toml".to_string()).message(),
        "unable to read config: bad toml"
    );
    assert_eq!(
        ErrorType::UnableToWriteConfig("read-only".to_string()).message(),
        "unable to write config: read-only"
    );
    assert_eq!(ErrorType::RollbackUnavailable.message(), "rollback not available yet");
}
