use core_engine::{CoreError, EngineConfig};

#[test]
fn test_engine_config_default() {
    let config = EngineConfig::default();
    assert!(config.headless);
    assert!(config.sandbox);
    assert_eq!(config.host, "127.0.0.1");
    assert_eq!(config.port, 9222);
}

#[test]
fn test_engine_config_custom() {
    let config = EngineConfig {
        browser_path: Some("/usr/bin/chrome".to_string()),
        user_data_dir: Some("/tmp/profile".to_string()),
        headless: false,
        sandbox: false,
        host: "0.0.0.0".to_string(),
        port: 8080,
        dom_idle_threshold_ms: 1000,
        network_idle_threshold_ms: 2000,
    };

    assert!(!config.headless);
    assert!(!config.sandbox);
    assert_eq!(config.port, 8080);
    assert_eq!(config.host, "0.0.0.0");
}

#[test]
fn test_core_error_message() {
    let err = CoreError::Browser("test error".to_string());
    assert!(err.to_string().contains("Browser"));
    assert!(err.to_string().contains("test error"));
}

#[test]
fn engine_config_default_thresholds() {
    let config = EngineConfig::default();
    assert_eq!(config.browser_path, None);
    assert_eq!(config.user_data_dir, None);
    assert_eq!(config.dom_idle_threshold_ms, 500);
    assert_eq!(config.network_idle_threshold_ms, 1000);
}

#[test]
fn core_error_texts() {
    assert_eq!(CoreError::Browser("b".to_string()).to_string(), "Browser error: b");
    assert_eq!(CoreError::Cdp("c".to_string()).to_string(), "CDP error: c");
    assert_eq!(CoreError::Parser("p".to_string()).to_string(), "Parser error: p");
    assert_eq!(CoreError::Inspector("i".to_string()).to_string(), "Inspector error: i");
    assert_eq!(CoreError::Server("s".to_string()).to_string(), "Server error: s");
    assert_eq!(CoreError::Config("k".to_string()).to_string(), "Configuration error: k");
}
