use libmarathon::persistence::config::PersistenceConfig;
use libmarathon::persistence::database::{pending_migrations, CheckpointInfo, CheckpointMode, Migration};
use libmarathon::MarathonPlugin;

#[test]
fn checkpoint_pragmas_and_rows() {
    assert_eq!(CheckpointMode::Passive.pragma(), "PRAGMA wal_checkpoint(PASSIVE)");
    assert_eq!(CheckpointMode::Truncate.pragma(), "PRAGMA wal_checkpoint(TRUNCATE)");
    let info = CheckpointInfo::from_row(1, 10, 7);
    assert!(info.busy);
    assert_eq!((info.log_pages, info.checkpointed_pages), (10, 7));
    assert!(!CheckpointInfo::from_row(0, 0, 0).busy);
}

#[test]
fn pending_migrations_skip_applied_versions() {
    let migrations = [
        Migration { version: 1, name: "initial_schema", up: "" },
        Migration { version: 4, name: "sessions", up: "" },
        Migration { version: 5, name: "tombstones", up: "" },
    ];
    assert_eq!(pending_migrations(&migrations, &vec![1, 5]), vec![1]);
    assert_eq!(pending_migrations(&migrations, &vec![]), vec![0, 1, 2]);
}

#[test]
fn marathon_plugin_settings() {
    let mut config = PersistenceConfig::default();
    config.flush_interval_secs = 5;
    let plugin = MarathonPlugin::new("my_app.db", config);
    assert_eq!(plugin.db_path, "my_app.db");
    assert_eq!(plugin.persistence_config.flush_interval_secs, 5);
    let default = MarathonPlugin::with_default_db();
    assert_eq!(default.db_path, "marathon.db");
    assert_eq!(default.persistence_config, PersistenceConfig::default());
}
