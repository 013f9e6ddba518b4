use migrator_core::client::MigrationsRow;
use migrator_core::history::order_newest_first;

fn row(timestamp: u64, name: &str) -> MigrationsRow {
    MigrationsRow { timestamp, name: name.to_string(), checksum: String::new() }
}

#[test]
fn rows_are_ordered_newest_first() {
    let rows = vec![row(5, "b"), row(9, "c"), row(1, "a"), row(5, "b2")];
    let ordered = order_newest_first(&rows);
    let names: Vec<&str> = ordered.iter().map(|r| r.name.as_str()).collect();
    assert_eq!(names, vec!["c", "b", "b2", "a"]);
    assert!(order_newest_first(&Vec::new()).is_empty());
}
