use qorvex_core::config::{homebrew_agent_path_given, AndroidConfigError, QorvexConfig};

#[test]
fn default_config_has_no_agent_dir() {
    let config = QorvexConfig::default();
    assert!(config.agent_source_dir.is_none());
}

#[test]
fn effective_agent_source_dir_prefers_explicit() {
    let config = QorvexConfig {
        agent_source_dir: Some("/explicit/path".to_string()),
        ..Default::default()
    };
    assert_eq!(config.effective_agent_source_dir(), Some("/explicit/path".to_string()));
}

#[test]
fn effective_agent_source_dir_returns_none_when_no_homebrew() {
    let config = QorvexConfig::default();
    let _ = config.effective_agent_source_dir();
}

#[test]
fn android_device_port_defaults_to_8080() {
    let config = QorvexConfig::default();
    assert_eq!(config.android_device_port(), 8080);
    let config = QorvexConfig { android_device_port: Some(9999), ..Default::default() };
    assert_eq!(config.android_device_port(), 9999);
}

#[test]
fn agent_port_defaults_to_8080() {
    assert_eq!(QorvexConfig::default().agent_port(), 8080);
    let config = QorvexConfig { agent_port: Some(9100), ..Default::default() };
    assert_eq!(config.agent_port(), 9100);
}

#[test]
fn validate_android_missing_source_dir_is_clear_error() {
    let config = QorvexConfig::default();
    let err = config.validate_android().unwrap_err();
    assert_eq!(err, AndroidConfigError::MissingAgentSourceDir);
    assert!(err.message().contains("android_agent_source_dir"));
}

#[test]
fn validate_android_nonexistent_source_dir_is_clear_error() {
    let config = QorvexConfig {
        android_agent_source_dir: Some("/no/such/qorvex-agent-android".to_string()),
        ..Default::default()
    };
    let err = config.validate_android().unwrap_err();
    assert!(matches!(err, AndroidConfigError::AgentSourceDirNotFound(_)));
    assert!(err.message().contains("does not exist"));
}

#[test]
fn validate_android_missing_gradlew_is_clear_error() {
    let tmp = std::path::Path::new("/tmp");
    let config = QorvexConfig {
        android_agent_source_dir: Some("/tmp".to_string()),
        ..Default::default()
    };
    if !tmp.join("gradlew").exists() {
        let err = config.validate_android().unwrap_err();
        assert!(matches!(err, AndroidConfigError::GradlewNotFound(_)));
        assert!(err.message().contains("gradlew"));
    }
}

#[test]
fn validate_android_nonexistent_sdk_root_is_clear_error() {
    let config = QorvexConfig {
        android_sdk_root: Some("/no/such/android-sdk".to_string()),
        android_agent_source_dir: Some("/no/such/agent".to_string()),
        ..Default::default()
    };
    let err = config.validate_android().unwrap_err();
    assert!(matches!(err, AndroidConfigError::SdkRootNotFound(_)));
}

#[test]
fn validate_android_given_follows_the_checks_in_order() {
    let config = QorvexConfig {
        android_sdk_root: Some("/sdk".to_string()),
        android_agent_source_dir: Some("/agent".to_string()),
        ..Default::default()
    };
    assert_eq!(
        config.validate_android_given(false, true, true),
        Err(AndroidConfigError::SdkRootNotFound("/sdk".to_string()))
    );
    assert_eq!(
        config.validate_android_given(true, false, true),
        Err(AndroidConfigError::AgentSourceDirNotFound("/agent".to_string()))
    );
    assert_eq!(
        config.validate_android_given(true, true, false),
        Err(AndroidConfigError::GradlewNotFound("/agent".to_string()))
    );
    assert_eq!(config.validate_android_given(true, true, true), Ok("/agent".to_string()));
}

#[test]
fn android_config_error_messages() {
    assert_eq!(
        AndroidConfigError::SdkRootNotFound("/s".into()).message(),
        "Configured Android SDK root does not exist: /s"
    );
    assert_eq!(
        AndroidConfigError::GradlewNotFound("/a".into()).message(),
        "Android agent project directory is missing its Gradle wrapper (expected `gradlew` at /a)"
    );
}

#[test]
fn homebrew_agent_path_prefers_opt_homebrew() {
    assert_eq!(
        homebrew_agent_path_given(true, true),
        Some("/opt/homebrew/share/qorvex/agent".to_string())
    );
    assert_eq!(
        homebrew_agent_path_given(false, true),
        Some("/usr/local/share/qorvex/agent".to_string())
    );
    assert_eq!(homebrew_agent_path_given(false, false), None);
}
