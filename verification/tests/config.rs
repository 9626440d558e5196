//! Configuration and the log level defaults.

use rustgine::config::DEFAULT_ENVIRONMENT;
use rustgine::{default_level, Config};

#[test]
fn default_config_is_development() {
    let config = Config::default();
    assert_eq!(config.environment, "development");
    assert_eq!(config.log_level, "debug");
    assert_eq!(DEFAULT_ENVIRONMENT, "development");
    assert!(config.is_development());
    assert!(!config.is_production());
}

#[test]
fn missing_variable_means_default_environment() {
    let config = Config::from_environment(None);
    assert_eq!(config, Config::default());
}

#[test]
fn named_environment_is_kept_as_written() {
    let config = Config::from_environment(Some("Production".to_string()));
    assert_eq!(config.environment, "Production");
    assert_eq!(config.log_level, "info");
    assert!(config.is_production());
    assert!(!config.is_development());
}

#[test]
fn unknown_environment_logs_debug() {
    let config = Config::from_environment(Some("qa".to_string()));
    assert_eq!(config.environment, "qa");
    assert_eq!(config.log_level, "debug");
    assert!(!config.is_production());
    assert!(!config.is_development());
}

#[test]
fn log_level_per_environment() {
    for name in ["production", "prod", "PROD", "Production", "staging", "STAGING", "StAgInG"] {
        assert_eq!(Config::log_level_for_environment(name), "info", "{}", name);
    }
    for name in ["development", "dev", "DEV", "", "qa", "production ", "prodd", "stage", "test"] {
        assert_eq!(Config::log_level_for_environment(name), "debug", "{:?}", name);
    }
}

#[test]
fn development_names() {
    for name in ["development", "dev", "DEV", "Development", "dEv"] {
        let config = Config { environment: name.to_string(), log_level: String::new() };
        assert!(config.is_development(), "{}", name);
        assert!(!config.is_production(), "{}", name);
    }
    for name in ["developer", "devel", "", " dev", "production", "d\u{00e9}v"] {
        let config = Config { environment: name.to_string(), log_level: String::new() };
        assert!(!config.is_development(), "{:?}", name);
    }
}

#[test]
fn production_names() {
    for name in ["production", "prod", "PROD", "Production", "pROD"] {
        let config = Config { environment: name.to_string(), log_level: String::new() };
        assert!(config.is_production(), "{}", name);
        assert!(!config.is_development(), "{}", name);
    }
    for name in ["prods", "pro", "", "staging", "PR\u{00d6}D", "\u{212a}prod"] {
        let config = Config { environment: name.to_string(), log_level: String::new() };
        assert!(!config.is_production(), "{:?}", name);
    }
}

#[test]
fn only_ascii_letters_are_folded() {
    let config = Config { environment: "PR\u{00d6}D".to_string(), log_level: String::new() };
    assert!(!config.is_production());
    assert_eq!(Config::log_level_for_environment("STAGING\u{0130}"), "debug");
}

#[test]
fn clone_and_equality_go_by_both_settings() {
    let config = Config::from_environment(Some("staging".to_string()));
    let copy = config.clone();
    assert_eq!(copy.environment, "staging");
    assert_eq!(copy.log_level, "info");
    assert!(config == copy);
    let other_level = Config { environment: "staging".to_string(), log_level: "warn".to_string() };
    assert!(config != other_level);
    let other_name = Config { environment: "Staging".to_string(), log_level: "info".to_string() };
    assert!(config != other_name);
}

#[test]
fn default_filter_level_per_environment() {
    for name in ["dev", "development", "DEV", "Development"] {
        assert_eq!(default_level(name), "debug", "{}", name);
    }
    for name in ["prod", "production", "PROD", "Production"] {
        assert_eq!(default_level(name), "warn", "{}", name);
    }
    for name in ["staging", "", "qa", "debug", "info", "devel", "prod "] {
        assert_eq!(default_level(name), "info", "{:?}", name);
    }
}
