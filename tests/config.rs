use msh_daemon::config::{ConfigManager, ConfigManagerError, Configuration};
use msh_daemon::text::Decimal;

const DOC: &str = "endpoint = \"0.0.0.0:8080\"\ntemp_command = \"temp\"\nppa_command = \"co2\"\nnode_endpoint = \"http://node\"\ngraphana_endpoint = \"http://dash\"\nreporting_interval = 60.0 # seconds\nraum_id = 7\n";

fn conf() -> Configuration {
    Configuration {
        endpoint: "0.0.0.0:8080".to_string(),
        temp_command: "temp".to_string(),
        ppa_command: "co2".to_string(),
        node_endpoint: "http://node".to_string(),
        graphana_endpoint: "http://dash".to_string(),
        reporting_interval: Decimal { negative: false, mantissa: 600, scale: 1 },
        raum_id: 7,
    }
}

fn store() -> ConfigManager {
    ConfigManager::new("/tmp/x.toml".to_string(), DOC.to_string(), Ok(conf())).unwrap()
}

#[test]
fn loads_valid_document() {
    let s = store();
    assert_eq!(s.configuration(), &conf());
    assert_eq!(s.document(), DOC);
    assert_eq!(s.path(), "/tmp/x.toml");
}

#[test]
fn refuses_invalid_document() {
    let r = ConfigManager::new("p".to_string(), "a = = 1".to_string(), Ok(conf()));
    assert!(matches!(r, Err(ConfigManagerError::InvalidConfigFile(_))));
    let r = ConfigManager::new("p".to_string(), DOC.to_string(), Err("missing field `raum_id`".to_string()));
    assert!(matches!(r, Err(ConfigManagerError::ConfigFileMissingFields(m)) if m == "missing field `raum_id`"));
}

#[test]
fn negative_interval_changes_nothing() {
    let mut s = store();
    let r = s.update_reporting_interval(Decimal { negative: true, mantissa: 5, scale: 1 });
    assert_eq!(r, Err(ConfigManagerError::ReportingIntervalNegative));
    assert!(r.unwrap_err().is_client_error());
    assert_eq!(s.reporting_interval(), Decimal { negative: false, mantissa: 600, scale: 1 });
    assert_eq!(s.document(), DOC);
}

#[test]
fn interval_update_reaches_memory_and_document() {
    let mut s = store();
    let v = Decimal { negative: false, mantissa: 25, scale: 1 };
    assert_eq!(s.update_reporting_interval(v), Ok(()));
    assert_eq!(s.reporting_interval(), v);
    assert!(s.document().contains("reporting_interval = 2.5"));
    assert!(!s.document().contains("60.0"));
    assert!(s.document().contains("raum_id = 7"));
    assert!(!ConfigManagerError::CouldntSave.is_client_error());
}

#[test]
fn zero_interval_is_accepted() {
    let mut s = store();
    let zero = Decimal { negative: true, mantissa: 0, scale: 1 };
    assert_eq!(s.update_reporting_interval(zero), Ok(()));
    assert!(s.document().contains("reporting_interval = 0.0"));
}
