use twopass::model::{AppConfig, ConfigManager};

#[test]
fn defaults_carry_the_documented_values() {
    let c = AppConfig::default();
    assert_eq!(c.db_path, None);
    assert_eq!(c.theme.as_deref(), Some("default"));
    assert_eq!(c.language.as_deref(), Some("zh-CN"));
    assert_eq!(c.auto_lock_timeout, Some(0));
}

#[test]
fn the_manager_remembers_its_path() {
    let m = ConfigManager::new("/tmp/twopass/config.json".to_string());
    assert_eq!(m.get_config_path(), "/tmp/twopass/config.json");
}

#[test]
fn duplication_preserves_the_configuration() {
    let mut c = AppConfig::default();
    c.db_path = Some("/data/vault.kdbx".to_string());
    let d = c.duplicate();
    assert_eq!(d.db_path.as_deref(), Some("/data/vault.kdbx"));
    assert_eq!(d.theme.as_deref(), Some("default"));
}
