use statekeeper::schema::{SchemaError, SchemaStore};
use statekeeper::types::HistoryRow;

fn row(ts: i64, id: &str, code: &str, error: Option<&str>) -> HistoryRow {
    HistoryRow::new(ts, id.to_string(), code.to_string(), error.map(|e| e.to_string()))
}

#[test]
fn fresh_store_gets_current_layout() {
    let mut db = SchemaStore { meta_present: false, version: String::new(), history: Vec::new() };
    let migrated = db.ensure_schema().unwrap();
    assert!(!migrated);
    assert!(db.meta_present);
    assert_eq!(db.version, "2");
    assert!(db.history.is_empty());
}

#[test]
fn version_one_history_survives_migration() {
    let rows = vec![
        row(100, "s1", "AAA", None),
        row(200, "s2", "BBB", Some("late")),
        row(300, "s1", "CCC", None),
    ];
    let mut db = SchemaStore { meta_present: true, version: "1".to_string(), history: rows };
    let migrated = db.ensure_schema().unwrap();
    assert!(migrated);
    assert_eq!(db.version, "2");
    assert_eq!(db.history.len(), 3);
    assert_eq!(db.history[0].timestamp(), 100);
    assert_eq!(db.history[0].id(), "s1");
    assert_eq!(db.history[0].code(), "AAA");
    assert_eq!(db.history[0].error(), None);
    assert_eq!(db.history[1].timestamp(), 200);
    assert_eq!(db.history[1].error(), Some("late"));
    assert_eq!(db.history[2].code(), "CCC");
}

#[test]
fn rerun_after_migration_changes_nothing() {
    let mut db = SchemaStore {
        meta_present: true,
        version: "1".to_string(),
        history: vec![row(1, "s", "X", None)],
    };
    assert!(db.ensure_schema().unwrap());
    let migrated_again = db.ensure_schema().unwrap();
    assert!(!migrated_again);
    assert_eq!(db.version, "2");
    assert_eq!(db.history.len(), 1);
    assert_eq!(db.history[0].code(), "X");
}

#[test]
fn unknown_version_is_fatal() {
    let mut db = SchemaStore {
        meta_present: true,
        version: "0".to_string(),
        history: vec![row(1, "s", "X", None)],
    };
    match db.ensure_schema() {
        Err(SchemaError::UnrecognizedVersion) => {},
        other => panic!("unexpected result {:?}", other),
    }
    assert_eq!(db.version, "0");
    assert_eq!(db.history.len(), 1);
}
