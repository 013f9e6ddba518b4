use migrator_core::config::{Config, DriverType};
use migrator_core::error::ErrorType;

#[test]
fn driver_names() {
    assert_eq!(DriverType::parse("clickhouse"), Ok(DriverType::ClickHouseDriver));
    assert_eq!(
        DriverType::parse("postgres"),
        Err(ErrorType::InvalidDriverType("postgres".to_string()))
    );
    assert_eq!("clickhouse".parse::<DriverType>(), Ok(DriverType::ClickHouseDriver));
    assert_eq!(DriverType::ClickHouseDriver.prefix(), "tcp");
}

#[test]
fn new_config_is_empty() {
    let c = Config::new("clickhouse").unwrap();
    assert_eq!(c.driver, DriverType::ClickHouseDriver);
    assert_eq!(c.uri, None);
    assert_eq!(c.migrations, None);
    assert_eq!(Config::new("mysql"), Err(ErrorType::InvalidDriverType("mysql".to_string())));
}

#[test]
fn default_config_has_a_uri() {
    let c = Config::default();
    assert_eq!(c.uri, Some("http://localhost:8083".to_string()));
    assert_eq!(c.build_uri(), "http://localhost:8083");
}

#[test]
fn uri_from_parts() {
    let c = Config::new("clickhouse").unwrap();
    assert_eq!(c.build_uri(), "tcp://localhost:8123/");
    let c = c.host("db.local").db_port(&9000);
    assert_eq!(c.build_uri(), "tcp://db.local:9000/");
    let c = c.user_name("admin").db_pass("secret");
    assert_eq!(c.build_uri(), "tcp://db.local:9000/?username=admin?password=secret");
    let c = c.db_database("events");
    assert_eq!(c.db_database, Some("events".to_string()));
    assert_eq!(c.build_uri(), "tcp://db.local:9000/?username=admin?password=secret");
}

#[test]
fn explicit_uri_wins() {
    let c = Config::new("clickhouse").unwrap().host("ignored").uri("http://example:8123");
    assert_eq!(c.build_uri(), "http://example:8123");
    assert_eq!(c.db_host, Some("ignored".to_string()));
}

#[test]
fn negative_port_keeps_its_sign() {
    let c = Config::new("clickhouse").unwrap().db_port(&-5);
    assert_eq!(c.build_uri(), "tcp://localhost:-5/");
    let c = Config::new("clickhouse").unwrap().db_port(&i32::MIN);
    assert_eq!(c.build_uri(), "tcp://localhost:-2147483648/");
}
