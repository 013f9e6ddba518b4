use vstd::prelude::*;

verus! {

/// Every failure the engine reports to its caller.
#[derive(Debug, Clone, PartialEq, Eq)]
pub enum ErrorType {
    /// A local file was edited after it was applied: its checksum differs from
    /// the one recorded in the ledger.
    CorruptMigrationDirectory { name: String, recorded: String, current: String },
    /// The ledger holds rows for which no local file exists; the names of
    /// those rows.
    MissingMigrationFiles(Vec<String>),
    /// A migration that still has to be applied has no SQL in it.
    EmptyMigration(String),
    /// Another run holds the lock.
    LockConflict,
    /// The database backend failed.
    BackendError(String),
    /// A local file or directory could not be read or written.
    IOError(String),
    /// The configured driver name is not one that is supported.
    InvalidDriverType(String),
    /// A required setting is absent from the configuration.
    MissingConfigDefinition(String),
    /// The stored configuration could not be read.
    UnableToReadConfig(String),
    /// The configuration could not be stored.
    UnableToWriteConfig(String),
    /// Rolling back applied migrations is not available yet.
    RollbackUnavailable,
}

/// The first `n` of `names`, separated by `, `.
pub open spec fn joined(names: Seq<Seq<char>>, n: int) -> Seq<char>
    decreases n,
{
    if n <= 0 {
        Seq::empty()
    } else if n == 1 {
        names[0]
    } else {
        joined(names, n - 1) + ", "@ + names[n - 1]
    }
}

/// The message that describes an error to an operator.
pub open spec fn message_of(e: ErrorType) -> Seq<char> {
    match e {
        ErrorType::CorruptMigrationDirectory { name, recorded, current } => "Checksum "@ + current@
            + " != "@ + recorded@ + ". Migration directory is corrupt: "@ + name@,
        ErrorType::MissingMigrationFiles(names) => "Migration directory is corrupt. Missing following files: "@
            + joined(names@.map_values(|s: String| s@), names@.len() as int),
        ErrorType::EmptyMigration(name) => name@ + ". Empty migration file."@,
        ErrorType::LockConflict => "Database is currently locked, cannot run migrations"@,
        ErrorType::BackendError(m) => "Database error: "@ + m@,
        ErrorType::IOError(m) => "I/O error: "@ + m@,
        ErrorType::InvalidDriverType(d) => "invalid driver type "@ + d@,
        ErrorType::MissingConfigDefinition(m) => m@,
        ErrorType::UnableToReadConfig(m) => "unable to read config: "@ + m@,
        ErrorType::UnableToWriteConfig(m) => "unable to write config: "@ + m@,
        ErrorType::RollbackUnavailable => "rollback not available yet"@,
    }
}

fn prefixed(prefix: &str, text: &String) -> (r: String)
    ensures
        r@ == prefix@ + text@,
{
    let mut r = prefix.to_owned();
    r.append(text.as_str());
    r
}

impl ErrorType {
    /// The message that describes this error to an operator.
    pub fn message(&self) -> (r: String)
        ensures
            r@ == message_of(*self),
    {
        match self {
            ErrorType::CorruptMigrationDirectory { name, recorded, current } => {
                let mut r = prefixed("Checksum ", current);
                r.append(" != ");
                r.append(recorded.as_str());
                r.append(". Migration directory is corrupt: ");
                r.append(name.as_str());
                r
            },
            ErrorType::MissingMigrationFiles(names) => {
                let mut r = "Migration directory is corrupt. Missing following files: ".to_owned();
                let ghost head = r@;
                let ghost views = names@.map_values(|s: String| s@);
                let mut i: usize = 0;
                while i < names.len()
                    invariant
                        i <= names@.len(),
                        views == names@.map_values(|s: String| s@),
                        r@ == head + joined(views, i as int),
                    decreases names@.len() - i,
                {
                    if i > 0 {
                        r.append(", ");
                    }
                    r.append(names[i].as_str());
                    i += 1;
                    assert(r@ =~= head + joined(views, i as int));
                }
                r
            },
            ErrorType::EmptyMigration(name) => {
                let mut r = name.clone();
                r.append(". Empty migration file.");
                r
            },
            ErrorType::LockConflict => "Database is currently locked, cannot run migrations".to_owned(),
            ErrorType::BackendError(m) => prefixed("Database error: ", m),
            ErrorType::IOError(m) => prefixed("I/O error: ", m),
            ErrorType::InvalidDriverType(d) => prefixed("invalid driver type ", d),
            ErrorType::MissingConfigDefinition(m) => m.clone(),
            ErrorType::UnableToReadConfig(m) => prefixed("unable to read config: ", m),
            ErrorType::UnableToWriteConfig(m) => prefixed("unable to write config: ", m),
            ErrorType::RollbackUnavailable => "rollback not available yet".to_owned(),
        }
    }
}

} // verus!
