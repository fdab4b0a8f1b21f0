use leptos_sync_core::migrations::{
    get_default_migrations, schema_change, IndexedDbConnection, Migration, MigrationManager, MigrationStep,
    SchemaChange,
};
use leptos_sync_core::storage::IndexedDbError;

fn failure(r: Result<(), IndexedDbError>) -> String {
    match r {
        Err(IndexedDbError::MigrationFailed(m)) => m,
        other => panic!("expected a migration failure, got {:?}", other),
    }
}

fn custom(version: u32, name: &str, step: &str, down: Option<MigrationStep>) -> Migration {
    Migration {
        version,
        name: name.to_string(),
        description: String::new(),
        up: MigrationStep::Custom { name: step.to_string() },
        down,
    }
}

#[test]
fn test_migration_validation() {
    let connection = IndexedDbConnection::from_opened("test_migration_db", 1);
    let manager = MigrationManager::new(connection);

    let result = manager.validate_migrations();
    assert!(result.is_ok());
}

#[test]
fn test_migration_history() {
    let connection = IndexedDbConnection::from_opened("test_history_db", 1);
    let manager = MigrationManager::new(connection);

    let history = manager.get_migration_history();
    assert!(!history.is_empty());
    assert_eq!(history[0].version, 1);
    assert_eq!(history[0].name, "initial_schema");
}

#[test]
fn test_custom_migration() {
    let connection = IndexedDbConnection::from_opened("test_custom_db", 1);
    let mut manager = MigrationManager::new(connection);

    let custom_migration = Migration {
        version: 4,
        name: "custom_test".to_string(),
        description: "Test custom migration".to_string(),
        up: MigrationStep::Custom { name: "test_custom".to_string() },
        down: None,
    };

    manager.add_migration(custom_migration);

    let history = manager.get_migration_history();
    assert_eq!(history.len(), 4);
    assert_eq!(history[3].version, 4);
    assert_eq!(history[3].name, "custom_test");
}

#[test]
fn test_connection_creation() {
    let result = IndexedDbConnection::open("test_db", 1);
    assert!(result.is_err());
    match result.unwrap_err() {
        IndexedDbError::NotSupported(_) => {}
        _ => panic!("Expected NotSupported error"),
    }
}

#[test]
fn default_migrations_are_the_three_stores() {
    let m = get_default_migrations();
    let names: Vec<&str> = m.iter().map(|x| x.name.as_str()).collect();
    assert_eq!(names, vec!["initial_schema", "add_conflicts_store", "add_compression_store"]);
    assert!(m[0].down.is_none());
    assert!(m[1].down.is_some() && m[2].down.is_some());
}

#[test]
fn added_migration_goes_after_equal_versions() {
    let mut manager = MigrationManager::new(IndexedDbConnection::from_opened("db", 3));
    manager.add_migration(custom(2, "second_two", "add_delta_indexes", None));
    manager.add_migration(custom(0, "zero", "add_delta_indexes", None));
    let names: Vec<&str> = manager.get_migration_history().iter().map(|x| x.name.as_str()).collect();
    assert_eq!(names, vec!["zero", "initial_schema", "add_conflicts_store", "second_two", "add_compression_store"]);
}

#[test]
fn duplicate_version_is_reported() {
    let mut manager = MigrationManager::new(IndexedDbConnection::from_opened("db", 3));
    manager.add_migration(custom(2, "again", "add_delta_indexes", None));
    assert_eq!(failure(manager.validate_migrations()), "Duplicate migration version: 2");
}

#[test]
fn gap_in_versions_is_reported() {
    let mut manager = MigrationManager::new(IndexedDbConnection::from_opened("db", 3));
    manager.add_migration(custom(7, "later", "add_delta_indexes", None));
    assert_eq!(failure(manager.validate_migrations()), "Gap in migration versions: 3 -> 7");
}

#[test]
fn migrate_at_current_version_does_nothing() {
    let manager = MigrationManager::new(IndexedDbConnection::from_opened("db", 3));
    assert!(manager.migrate().is_ok());
}

#[test]
fn upgrade_runs_known_and_refuses_unknown_custom_migrations() {
    let mut manager = MigrationManager::new(IndexedDbConnection::from_opened("db", 1));
    assert!(manager.upgrade(0, 3).is_ok());
    manager.add_migration(custom(4, "known", "migrate_peer_format", None));
    manager.add_migration(custom(5, "unknown", "no_such_step", None));
    assert!(manager.upgrade(0, 4).is_ok());
    assert_eq!(failure(manager.upgrade(3, 6)), "Unknown custom migration: no_such_step");
}

#[test]
fn downgrade_refuses_a_migration_without_way_back() {
    let manager = MigrationManager::new(IndexedDbConnection::from_opened("db", 3));
    assert!(manager.downgrade(3, 1).is_ok());
    assert_eq!(
        failure(manager.downgrade(3, 0)),
        "Cannot rollback migration initial_schema (v1) - no down migration defined"
    );
}

#[test]
fn downgrade_runs_the_way_back_of_each_migration() {
    let mut manager = MigrationManager::new(IndexedDbConnection::from_opened("db", 4));
    manager.add_migration(custom(4, "custom", "add_compression_metadata", Some(MigrationStep::Custom {
        name: "undo".to_string(),
    })));
    assert_eq!(failure(manager.downgrade(4, 2)), "Unknown custom migration: undo");
}

#[test]
fn get_migration_finds_the_first_of_a_version() {
    let mut manager = MigrationManager::new(IndexedDbConnection::from_opened("db", 3));
    manager.add_migration(custom(2, "second_two", "add_delta_indexes", None));
    assert_eq!(manager.get_migration(2).unwrap().name, "add_conflicts_store");
    assert!(manager.get_migration(9).is_none());
}

#[test]
fn schema_change_by_versions() {
    assert_eq!(schema_change(None, Some(1)), SchemaChange::CreateV1);
    assert_eq!(schema_change(Some(1), Some(2)), SchemaChange::MigrateV1ToV2);
    assert_eq!(schema_change(Some(2), Some(5)), SchemaChange::Migrate { from: 2, to: 5 });
    assert_eq!(schema_change(Some(5), Some(2)), SchemaChange::Unchanged);
    assert_eq!(schema_change(None, Some(3)), SchemaChange::Unchanged);
    assert_eq!(schema_change(Some(3), None), SchemaChange::Unchanged);
}

#[test]
fn connection_keeps_its_name_and_version() {
    let c = IndexedDbConnection::from_opened("app_db", 7);
    assert_eq!(c.name(), "app_db");
    assert_eq!(c.version(), 7);
    assert!(c.transaction(&["deltas"]).is_err());
    assert!(c.readonly_transaction(&["deltas"]).is_err());
}

#[test]
fn test_operations_creation() {
    let result = IndexedDbConnection::open("test_db", 1);
    assert!(result.is_err());
}
