use libmarathon::persistence::config::PersistenceConfig;
use libmarathon::persistence::plugin::PersistencePlugin;

#[test]
fn test_plugin_creation() {
    let plugin = PersistencePlugin::new("test.db");
    assert_eq!(plugin.db_path, "test.db");
    assert_eq!(plugin.config, PersistenceConfig::default());
}

#[test]
fn test_plugin_with_config() {
    let mut config = PersistenceConfig::default();
    config.flush_interval_secs = 5;

    let plugin = PersistencePlugin::with_config("test.db", config);
    assert_eq!(plugin.config.flush_interval_secs, 5);
}
