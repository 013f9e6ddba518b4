use migrator_core::schema::{Column, Table, Types};

#[test]
fn type_names() {
    assert_eq!(Types::Int8.as_str(), "Int8");
    assert_eq!(Types::UInt256.as_str(), "UInt256");
    assert_eq!(Types::Float64.as_str(), "Float64");
    assert_eq!(Types::UUID.as_str(), "UUID");
    assert_eq!(Types::Varchar(255).as_str(), "VARCHAR(255)");
    assert_eq!(Types::DateTime(3).as_str(), "DateTime(3)");
    assert_eq!(Types::DateTime64(9).as_str(), "DateTime64(9)");
}

#[test]
fn column_definitions() {
    let c = Column::new("id".to_string(), Types::UInt64);
    assert!(c.nullable);
    assert_eq!(c.as_str(), "id UInt64");
    let c = c.nullable();
    assert!(!c.nullable);
    assert_eq!(c.as_str(), "id UInt64 NOT NULL");
}

#[test]
fn table_definitions() {
    let t = Table::new("events".to_string());
    assert_eq!(t.as_str(), "CREATE TABLE events ()");
    let t = Table::new_exists("events".to_string(), true)
        .column("placement_id", Types::Varchar(255))
        .column("at", Types::Date);
    assert_eq!(t.columns.len(), 2);
    assert_eq!(
        t.as_str(),
        "CREATE TABLE IF NOT EXISTS events (placement_id VARCHAR(255), at Date)"
    );
}
