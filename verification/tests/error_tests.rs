use dyn_plug::config::Config;
use dyn_plug::error::{
    is_execution_error_transient, is_recoverable_network_error, IoErrorKind, PluginError,
};

#[test]
fn test_plugin_error_types() {
    // NotFound error
    let not_found_error = PluginError::NotFound {
        name: "test_plugin".to_string(),
    };
    assert_eq!(not_found_error.category(), "not_found");
    assert!(not_found_error.user_friendly_message().contains("test_plugin"));
    assert!(!not_found_error.is_transient());

    // ExecutionFailed error
    let execution_error = PluginError::ExecutionFailed {
        message: "Test execution failure".to_string(),
    };
    assert_eq!(execution_error.category(), "execution_failed");
    assert!(execution_error.user_friendly_message().contains("execution failure"));
    assert!(!execution_error.is_transient());

    // ConfigError
    let config_error = PluginError::ConfigError {
        message: "Test config error".to_string(),
    };
    assert_eq!(config_error.category(), "config_error");
    assert!(config_error.user_friendly_message().contains("configuration"));
    assert!(!config_error.is_transient());

    // PluginDisabled error
    let disabled_error = PluginError::PluginDisabled {
        name: "test_plugin".to_string(),
    };
    assert_eq!(disabled_error.category(), "plugin_disabled");
    assert!(disabled_error.user_friendly_message().contains("disabled"));
    assert!(!disabled_error.is_transient());
}

#[test]
fn test_plugin_error_creation_helpers() {
    let config_error = PluginError::config_error("Test message");
    assert!(matches!(config_error, PluginError::ConfigError { .. }));

    let execution_error = PluginError::execution_failed("Test message");
    assert!(matches!(execution_error, PluginError::ExecutionFailed { .. }));

    let timeout_error = PluginError::timeout_error("Test timeout");
    assert!(matches!(timeout_error, PluginError::TimeoutError { .. }));

    let resource_error = PluginError::resource_exhausted("Test resource");
    assert!(matches!(resource_error, PluginError::ResourceExhausted { .. }));
}

#[test]
fn test_config_manager_error_handling() {
    // The in-memory configuration operations never panic.
    let mut config = Config::default();
    config.enable_plugin("test_plugin");
    config.disable_plugin("test_plugin");
    config.set_plugin_setting("test_plugin", "key", "value");
    assert_eq!(
        config.get_plugin_setting("test_plugin", "key"),
        Some("value".to_string())
    );
}

#[test]
fn test_error_display_and_debug() {
    let error = PluginError::NotFound {
        name: "test_plugin".to_string(),
    };

    // The user-facing rendering names the plugin
    let display_str = error.user_friendly_message();
    assert!(display_str.contains("test_plugin"));

    // Debug implementation
    let debug_str = format!("{:?}", error);
    assert!(debug_str.contains("NotFound"));
    assert!(debug_str.contains("test_plugin"));
}

#[test]
fn test_transient_error_detection() {
    // Non-transient errors
    let not_found = PluginError::NotFound { name: "test".to_string() };
    assert!(!not_found.is_transient());

    let execution_failed = PluginError::ExecutionFailed { message: "test".to_string() };
    assert!(!execution_failed.is_transient());

    let config_error = PluginError::ConfigError { message: "test".to_string() };
    assert!(!config_error.is_transient());

    let disabled = PluginError::PluginDisabled { name: "test".to_string() };
    assert!(!disabled.is_transient());

    // Transient errors
    let timeout = PluginError::TimeoutError { operation: "test".to_string() };
    assert!(timeout.is_transient());

    let resource_exhausted = PluginError::ResourceExhausted { resource: "test".to_string() };
    assert!(resource_exhausted.is_transient());
}

#[test]
fn test_error_categories() {
    let errors = vec![
        (PluginError::NotFound { name: "test".to_string() }, "not_found"),
        (PluginError::ExecutionFailed { message: "test".to_string() }, "execution_failed"),
        (PluginError::ConfigError { message: "test".to_string() }, "config_error"),
        (PluginError::PluginDisabled { name: "test".to_string() }, "plugin_disabled"),
        (PluginError::TimeoutError { operation: "test".to_string() }, "timeout_error"),
        (PluginError::ResourceExhausted { resource: "test".to_string() }, "resource_exhausted"),
    ];

    for (error, expected_category) in errors {
        assert_eq!(error.category(), expected_category);
    }
}

#[test]
fn test_user_friendly_messages() {
    let not_found = PluginError::NotFound { name: "test_plugin".to_string() };
    let message = not_found.user_friendly_message();
    assert!(message.contains("test_plugin"));
    assert!(message.contains("not found"));

    let execution_failed = PluginError::ExecutionFailed { message: "Custom error".to_string() };
    let message = execution_failed.user_friendly_message();
    assert!(message.contains("execution failed") || message.contains("Custom error"));

    let config_error = PluginError::ConfigError { message: "Config issue".to_string() };
    let message = config_error.user_friendly_message();
    assert!(message.contains("configuration"));

    let disabled = PluginError::PluginDisabled { name: "test_plugin".to_string() };
    let message = disabled.user_friendly_message();
    assert!(message.contains("test_plugin"));
    assert!(message.contains("disabled"));
}

#[test]
fn transient_classification_by_kind() {
    // The four environmental kinds are always transient
    assert!(PluginError::NetworkError { message: "x".to_string() }.is_transient());
    assert!(PluginError::TimeoutError { operation: "x".to_string() }.is_transient());
    assert!(PluginError::ResourceExhausted { resource: "x".to_string() }.is_transient());
    assert!(PluginError::TemporaryFailure { message: "x".to_string() }.is_transient());

    // The structural kinds never are
    assert!(!PluginError::RegistrationFailed { message: "x".to_string() }.is_transient());
    assert!(!PluginError::LoadingFailed { message: "x".to_string() }.is_transient());
    assert!(!PluginError::SerializationError { message: "x".to_string() }.is_transient());
}

#[test]
fn config_error_transient_markers() {
    for marker in ["temporary", "lock", "busy", "in use"] {
        let e = PluginError::ConfigError {
            message: format!("store is {} right now", marker),
        };
        assert!(e.is_transient(), "marker {} should be transient", marker);
    }
    let e = PluginError::ConfigError { message: "malformed document".to_string() };
    assert!(!e.is_transient());
}

#[test]
fn io_error_transient_kinds() {
    for kind in [
        IoErrorKind::PermissionDenied,
        IoErrorKind::TimedOut,
        IoErrorKind::Interrupted,
        IoErrorKind::WouldBlock,
        IoErrorKind::ConnectionRefused,
        IoErrorKind::ConnectionAborted,
        IoErrorKind::NotConnected,
    ] {
        let e = PluginError::IoError { kind, message: "io".to_string() };
        assert!(e.is_transient());
    }
    let e = PluginError::IoError { kind: IoErrorKind::Other, message: "io".to_string() };
    assert!(!e.is_transient());
}

#[test]
fn execution_message_heuristic_cases() {
    assert!(is_execution_error_transient("Operation TIMEOUT exceeded"));
    assert!(is_execution_error_transient("temporary glitch"));
    assert!(is_execution_error_transient("device Busy"));
    assert!(is_execution_error_transient("resource temporarily unavailable"));
    assert!(is_execution_error_transient("socket would block"));
    assert!(is_execution_error_transient("call was Interrupted"));
    assert!(!is_execution_error_transient("no such operation"));
    assert!(!is_execution_error_transient(""));
}

#[test]
fn recoverable_network_message_cases() {
    assert!(is_recoverable_network_error("Address already in use"));
    assert!(is_recoverable_network_error("connection refused by peer"));
    assert!(is_recoverable_network_error("Network unreachable"));
    assert!(is_recoverable_network_error("temporary failure in name resolution"));
    assert!(!is_recoverable_network_error("permission denied"));
}

#[test]
fn error_variant_messages_exact() {
    let e = PluginError::TimeoutError { operation: "load".to_string() };
    assert_eq!(
        e.user_friendly_message(),
        "Operation timed out: load. Try again or increase timeout settings."
    );
    let e = PluginError::PluginDisabled { name: "p".to_string() };
    assert_eq!(
        e.user_friendly_message(),
        "Plugin 'p' is disabled. Use 'enable p' to enable it first."
    );
    let e = PluginError::NotFound { name: "p".to_string() };
    assert_eq!(
        e.user_friendly_message(),
        "Plugin 'p' not found. Use 'list' command to see available plugins."
    );
}
