use nuclaw::error::NuClawError;
use nuclaw::logging::Level;
use nuclaw::logging::LoggingConfig;

#[test]
fn test_error_display() {
    let err = NuClawError::Database {
        message: "test error".to_string(),
    };
    let msg = err.message();
    assert!(msg.contains("Database error"));
    assert!(msg.contains("test error"));
}

#[test]
fn test_all_error_variants() {
    // Test that all error variants can be created
    let _ = NuClawError::Database {
        message: "test".to_string(),
    };
    let _ = NuClawError::Container {
        message: "test".to_string(),
    };
    let _ = NuClawError::WhatsApp {
        message: "test".to_string(),
    };
    let _ = NuClawError::Telegram {
        message: "test".to_string(),
    };
    let _ = NuClawError::Config {
        message: "test".to_string(),
    };
    let _ = NuClawError::FileSystem {
        message: "test".to_string(),
    };
    let _ = NuClawError::Validation {
        message: "test".to_string(),
    };
    let _ = NuClawError::Timeout {
        operation: "test".to_string(),
    };
    let _ = NuClawError::Auth {
        message: "test".to_string(),
    };
    let _ = NuClawError::Scheduler {
        message: "test".to_string(),
    };
}

#[test]
fn test_error_messages_by_variant() {
    let err = NuClawError::Timeout {
        operation: "poll".to_string(),
    };
    assert_eq!(err.message(), "Timeout error: poll");
    let err = NuClawError::Scheduler {
        message: "bad cron".to_string(),
    };
    assert_eq!(err.message(), "Scheduler error: bad cron");
}

#[test]
fn test_level_from_str() {
    assert_eq!(Level::from_env_str("trace"), Some(Level::Trace));
    assert_eq!(Level::from_env_str("debug"), Some(Level::Debug));
    assert_eq!(Level::from_env_str("info"), Some(Level::Info));
    assert_eq!(Level::from_env_str("warn"), Some(Level::Warn));
    assert_eq!(Level::from_env_str("warning"), Some(Level::Warn));
    assert_eq!(Level::from_env_str("error"), Some(Level::Error));
    assert_eq!(Level::from_env_str("off"), Some(Level::Off));
    assert_eq!(Level::from_env_str("invalid"), None);
}

#[test]
fn test_level_from_str_case_insensitive() {
    assert_eq!(Level::from_env_str("DEBUG"), Some(Level::Debug));
    assert_eq!(Level::from_env_str("Off"), Some(Level::Off));
}

#[test]
fn test_level_display() {
    assert_eq!(Level::Trace.as_str(), "trace");
    assert_eq!(Level::Debug.as_str(), "debug");
    assert_eq!(Level::Info.as_str(), "info");
    assert_eq!(Level::Warn.as_str(), "warn");
    assert_eq!(Level::Error.as_str(), "error");
    assert_eq!(Level::Off.as_str(), "off");
}

#[test]
fn test_logging_config_defaults() {
    let config = LoggingConfig::default();
    assert_eq!(config.level, Level::Info);
    assert!(!config.json_format);
    assert!(config.include_timestamp);
}
