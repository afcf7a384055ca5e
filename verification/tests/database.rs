use nila::app_store::AppStore;
use nila::app_store::InitStep;
use nila::app_store::StoredValue;
use nila::database::is_missing_table;
use nila::database::migration_infos;
use nila::database::migrations::migration_steps;
use nila::database::migrations::MigrationKind;
use nila::database::migrations::MigrationPair;
use nila::database::undo_step;
use nila::database::Database;
use nila::database::DB_URL;
use nila::error::AppError;
use nila::system_tray::MenuAction;
use nila::system_tray::TraySetup;

const REGISTRY: &[MigrationPair] = &[
    MigrationPair { version: 1, name: "create_models_table", up: "CREATE 1", down: "DROP 1" },
    MigrationPair { version: 2, name: "add_model_metadata", up: "ALTER 2", down: "UNDO 2" },
];

#[test]
fn both_directions_are_registered_in_order() {
    let steps = migration_steps(REGISTRY);
    assert_eq!(steps.len(), 4);
    assert_eq!((steps[0].version, steps[0].sql, steps[0].kind), (1, "CREATE 1", MigrationKind::Up));
    assert_eq!((steps[1].version, steps[1].sql, steps[1].kind), (1, "DROP 1", MigrationKind::Down));
    assert_eq!((steps[2].version, steps[2].description, steps[2].kind), (2, "add_model_metadata", MigrationKind::Up));
    assert_eq!((steps[3].version, steps[3].sql, steps[3].kind), (2, "UNDO 2", MigrationKind::Down));
}

#[test]
fn listing_marks_applied_versions() {
    let applied = vec![(1i64, "create_models_table".to_string())];
    let infos = migration_infos(REGISTRY, &applied);
    assert_eq!(infos.len(), 2);
    assert_eq!((infos[0].version, infos[0].name.as_str(), infos[0].applied), (1, "create_models_table", true));
    assert_eq!((infos[1].version, infos[1].name.as_str(), infos[1].applied), (2, "add_model_metadata", false));
    let none = migration_infos(REGISTRY, &Vec::new());
    assert!(none.iter().all(|i| !i.applied));
}

#[test]
fn undo_uses_the_registered_down_sql() {
    assert!(undo_step(REGISTRY, None).unwrap().is_none());
    let step = undo_step(REGISTRY, Some(2)).unwrap().unwrap();
    assert_eq!((step.version, step.down_sql), (2, "UNDO 2"));
    match undo_step(REGISTRY, Some(9)).unwrap_err() {
        AppError::Sql(m) => assert_eq!(m, "version 9 has no registered down migration"),
        other => panic!("unexpected {:?}", other),
    }
}

#[test]
fn missing_tracking_table_is_recognised() {
    assert!(is_missing_table("error returned from database: (code: 1) no such table: _sqlx_migrations"));
    assert!(!is_missing_table("database is locked"));
}

#[test]
fn pool_error_names_the_database() {
    assert_eq!(DB_URL, "sqlite:nila.db");
    match Database::pool_missing() {
        AppError::Sql(m) => assert_eq!(m, "connection pool for `sqlite:nila.db` is not initialized"),
        other => panic!("unexpected {:?}", other),
    }
}

#[test]
fn string_settings_are_kept_or_initialised() {
    match AppStore::init_step(Some(StoredValue::Text("abc".into()))) {
        InitStep::UseStored(s) => assert_eq!(s, "abc"),
        other => panic!("unexpected {:?}", other),
    }
    assert!(matches!(AppStore::init_step(Some(StoredValue::Other)), InitStep::StoreDefault));
    assert!(matches!(AppStore::init_step(None), InitStep::StoreDefault));
}

#[test]
fn tray_menu_quits_only_on_quit() {
    assert_eq!(TraySetup::menu_action("quit"), MenuAction::Quit);
    assert_eq!(TraySetup::menu_action("Quit"), MenuAction::Unknown);
    assert_eq!(TraySetup::menu_action("quit2"), MenuAction::Unknown);
    assert_eq!(TraySetup::menu_action(""), MenuAction::Unknown);
}
