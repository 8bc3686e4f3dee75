use relax_player::config::Config;
use relax_player::config::ConfigError;
use relax_player::config::SoundConfig;

fn assert_same_config(a: &Config, b: &Config) {
    assert_eq!(a.rain, b.rain);
    assert_eq!(a.thunder, b.thunder);
    assert_eq!(a.campfire, b.campfire);
    assert_eq!(a.master, b.master);
    assert_eq!(a.sounds_version, b.sounds_version);
}

#[test]
fn serializes_default_config() {
    let expected = "{\n  \"rain\": {\n    \"volume\": 70,\n    \"muted\": false\n  },\n  \"thunder\": {\n    \"volume\": 70,\n    \"muted\": false\n  },\n  \"campfire\": {\n    \"volume\": 70,\n    \"muted\": false\n  },\n  \"master\": {\n    \"volume\": 70,\n    \"muted\": false\n  },\n  \"sounds_version\": null\n}";
    assert_eq!(Config::default().to_json_string(), expected);
}

#[test]
fn round_trip_default() {
    let cfg = Config::default();
    let (loaded, migrated) = Config::load_config_string(&cfg.to_json_string()).unwrap();
    assert!(!migrated);
    assert_same_config(&cfg, &loaded);
}

#[test]
fn round_trip_varied_config() {
    let cfg = Config {
        rain: SoundConfig { volume: 0, muted: true },
        thunder: SoundConfig { volume: 100, muted: false },
        campfire: SoundConfig { volume: 37, muted: true },
        master: SoundConfig { volume: 5, muted: false },
        sounds_version: Some(String::from("0.2.0")),
    };
    let (loaded, migrated) = Config::load_config_string(&cfg.to_json_string()).unwrap();
    assert!(!migrated);
    assert_same_config(&cfg, &loaded);
}

#[test]
fn round_trip_version_with_escapes() {
    let cfg = Config {
        sounds_version: Some(String::from("odd \"version\" with \\ and spaces")),
        ..Config::default()
    };
    let (loaded, migrated) = Config::load_config_string(&cfg.to_json_string()).unwrap();
    assert!(!migrated);
    assert_same_config(&cfg, &loaded);
}

#[test]
fn migrates_v1_document() {
    let v1 = r#"{
  "rain": { "volume": 50, "muted": false },
  "thunder": { "volume": 60, "muted": true },
  "campfire": { "volume": 70, "muted": false },
  "master_volume": 80
}"#;
    let (cfg, migrated) = Config::load_config_string(v1).unwrap();
    assert!(migrated, "a legacy document must be reported as migrated");
    assert_eq!(cfg.rain, SoundConfig { volume: 50, muted: false });
    assert_eq!(cfg.thunder, SoundConfig { volume: 60, muted: true });
    assert_eq!(cfg.campfire, SoundConfig { volume: 70, muted: false });
    assert_eq!(cfg.master, SoundConfig { volume: 80, muted: false });
    assert_eq!(cfg.sounds_version, None);
    // Persisting after migration yields the current schema: reloading the
    // written text reports no further migration and the same values.
    let rewritten = cfg.to_json_string();
    assert!(rewritten.contains("\"master\""));
    assert!(!rewritten.contains("master_volume"));
    let (cfg2, migrated2) = Config::load_config_string(&rewritten).unwrap();
    assert!(!migrated2);
    assert_same_config(&cfg, &cfg2);
}

#[test]
fn migrates_v1_document_with_version() {
    let v1 = "{\"rain\":{\"volume\":10,\"muted\":false},\"thunder\":{\"volume\":20,\"muted\":false},\"campfire\":{\"volume\":30,\"muted\":false},\"master_volume\":40,\"sounds_version\":\"0.1.0\"}";
    let (cfg, migrated) = Config::load_config_string(v1).unwrap();
    assert!(migrated);
    assert_eq!(cfg.master, SoundConfig { volume: 40, muted: false });
    assert_eq!(cfg.sounds_version.as_deref(), Some("0.1.0"));
}

#[test]
fn loads_v2_document_with_unknown_member() {
    let text = "{ \"rain\": {\"volume\": 1, \"muted\": false}, \"thunder\": {\"volume\": 2, \"muted\": false}, \"campfire\": {\"volume\": 3, \"muted\": false}, \"master\": {\"volume\": 4, \"muted\": true}, \"extra\": 7 }";
    let (cfg, migrated) = Config::load_config_string(text).unwrap();
    assert!(!migrated);
    assert_eq!(cfg.master, SoundConfig { volume: 4, muted: true });
    assert_eq!(cfg.sounds_version, None);
}

#[test]
fn rejects_unreadable_text() {
    assert!(matches!(Config::load_config_string("not json"), Err(ConfigError::BadJson)));
    assert!(matches!(Config::load_config_string(""), Err(ConfigError::BadJson)));
    assert!(matches!(Config::load_config_string("{ \"rain\": [1, 2] }"), Err(ConfigError::BadJson)));
    assert!(matches!(Config::load_config_string("{ \"rain\": { \"volume\": 70, } }"), Err(ConfigError::BadJson)));
}

#[test]
fn rejects_wrong_schema() {
    // No master at all.
    let text = "{ \"rain\": {\"volume\": 1, \"muted\": false}, \"thunder\": {\"volume\": 2, \"muted\": false}, \"campfire\": {\"volume\": 3, \"muted\": false} }";
    assert!(matches!(Config::load_config_string(text), Err(ConfigError::BadSchema)));
    // Empty document.
    assert!(matches!(Config::load_config_string("{}"), Err(ConfigError::BadSchema)));
    // A volume out of range.
    let text = "{ \"rain\": {\"volume\": 150, \"muted\": false}, \"thunder\": {\"volume\": 2, \"muted\": false}, \"campfire\": {\"volume\": 3, \"muted\": false}, \"master\": {\"volume\": 4, \"muted\": false} }";
    assert!(matches!(Config::load_config_string(text), Err(ConfigError::BadSchema)));
    // A legacy master volume out of range.
    let text = "{ \"rain\": {\"volume\": 1, \"muted\": false}, \"thunder\": {\"volume\": 2, \"muted\": false}, \"campfire\": {\"volume\": 3, \"muted\": false}, \"master_volume\": 200 }";
    assert!(matches!(Config::load_config_string(text), Err(ConfigError::BadSchema)));
    // A version that is neither a string nor null.
    let text = "{ \"rain\": {\"volume\": 1, \"muted\": false}, \"thunder\": {\"volume\": 2, \"muted\": false}, \"campfire\": {\"volume\": 3, \"muted\": false}, \"master\": {\"volume\": 4, \"muted\": false}, \"sounds_version\": 7 }";
    assert!(matches!(Config::load_config_string(text), Err(ConfigError::BadSchema)));
}

#[test]
fn accepts_null_version() {
    let text = "{\"rain\":{\"volume\":1,\"muted\":false},\"thunder\":{\"volume\":2,\"muted\":false},\"campfire\":{\"volume\":3,\"muted\":false},\"master\":{\"volume\":4,\"muted\":false},\"sounds_version\":null}";
    let (cfg, migrated) = Config::load_config_string(text).unwrap();
    assert!(!migrated);
    assert_eq!(cfg.sounds_version, None);
}

#[test]
fn accepts_string_escapes() {
    let text = "{\"rain\":{\"volume\":1,\"muted\":false},\"thunder\":{\"volume\":2,\"muted\":false},\"campfire\":{\"volume\":3,\"muted\":false},\"master\":{\"volume\":4,\"muted\":false},\"sounds_version\":\"a\\\"b\\\\c\\n\"}";
    let (cfg, _) = Config::load_config_string(text).unwrap();
    assert_eq!(cfg.sounds_version.as_deref(), Some("a\"b\\c\n"));
}
