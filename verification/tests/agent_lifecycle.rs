use qorvex_core::agent_lifecycle::{
    build_outcome, poll_next, startup_next, terminate_command_args, AgentLifecycleConfig,
    AgentLifecycleError, PollNext, StartupNext,
};

#[test]
fn agent_lifecycle_config_new_defaults() {
    let config = AgentLifecycleConfig::new("/tmp/agent".to_string());
    assert_eq!(config.project_dir, "/tmp/agent");
    assert_eq!(config.agent_port, 8080);
    assert_eq!(config.startup_timeout_nanos, std::time::Duration::from_secs(30).as_nanos());
    assert_eq!(config.max_retries, 3);
}

#[test]
fn agent_lifecycle_config_custom_values() {
    let config = AgentLifecycleConfig {
        project_dir: "/tmp/custom".to_string(),
        agent_port: 12345,
        startup_timeout_nanos: std::time::Duration::from_secs(10).as_nanos(),
        max_retries: 5,
    };
    assert_eq!(config.project_dir, "/tmp/custom");
    assert_eq!(config.agent_port, 12345);
    assert_eq!(config.startup_timeout_nanos, std::time::Duration::from_secs(10).as_nanos());
    assert_eq!(config.max_retries, 5);
}

#[test]
fn agent_lifecycle_error_display_project_not_found() {
    let err = AgentLifecycleError::ProjectNotFound("/missing/project".to_string());
    assert_eq!(err.message(), "Agent project not found: /missing/project");
}

#[test]
fn agent_lifecycle_error_display_build_failed() {
    let err = AgentLifecycleError::BuildFailed("scheme not found".to_string());
    assert_eq!(err.message(), "Failed to build agent: scheme not found");
}

#[test]
fn agent_lifecycle_error_display_launch_failed() {
    let err = AgentLifecycleError::LaunchFailed("spawn failed".to_string());
    assert_eq!(err.message(), "Failed to launch agent: spawn failed");
}

#[test]
fn agent_lifecycle_error_display_startup_timeout() {
    let err = AgentLifecycleError::StartupTimeout;
    assert_eq!(err.message(), "Agent failed to become ready within timeout");
}

#[test]
fn agent_lifecycle_error_display_not_running() {
    let err = AgentLifecycleError::NotRunning;
    assert_eq!(err.message(), "Agent is not running");
}

#[test]
fn agent_lifecycle_error_display_io() {
    let io_err = std::io::Error::new(std::io::ErrorKind::NotFound, "file not found");
    let err = AgentLifecycleError::Io(io_err);
    assert!(err.message().contains("IO error"));
    assert!(err.message().contains("file not found"));
}

#[test]
fn agent_lifecycle_build_agent_project_dir_not_found() {
    let config = AgentLifecycleConfig::new("/nonexistent/project".to_string());
    match config.build_preflight() {
        Err(AgentLifecycleError::ProjectNotFound(path)) => {
            assert_eq!(path, "/nonexistent/project");
        }
        other => panic!("expected ProjectNotFound, got {other:?}"),
    }
}

#[test]
fn preflight_names_missing_xcodeproj() {
    let config = AgentLifecycleConfig::new("/tmp/agent".to_string());
    match config.build_preflight_given(true, false) {
        Err(AgentLifecycleError::ProjectNotFound(path)) => {
            assert_eq!(path, "/tmp/agent/QorvexAgent.xcodeproj");
        }
        other => panic!("expected ProjectNotFound, got {other:?}"),
    }
    assert!(config.build_preflight_given(true, true).is_ok());
}

#[test]
fn build_and_launch_arguments() {
    let config = AgentLifecycleConfig::new("/tmp/agent".to_string());
    assert_eq!(
        config.build_command_args("SIM-1"),
        vec![
            "build-for-testing",
            "-project",
            "/tmp/agent/QorvexAgent.xcodeproj",
            "-scheme",
            "QorvexAgentUITests",
            "-destination",
            "id=SIM-1",
            "-derivedDataPath",
            "/tmp/agent/.build",
        ]
    );
    let launch = config.launch_command_args("SIM-1");
    assert_eq!(launch[0], "test-without-building");
    assert_eq!(launch[9], "-only-testing");
    assert_eq!(launch[10], "QorvexAgentUITests/QorvexAgentTests/testRunAgent");
    assert_eq!(
        terminate_command_args("SIM-1"),
        vec!["simctl", "terminate", "SIM-1", "com.qorvex.agent"]
    );
}

#[test]
fn build_failure_carries_stderr() {
    assert!(build_outcome(true, String::new()).is_ok());
    match build_outcome(false, "boom".to_string()) {
        Err(AgentLifecycleError::BuildFailed(m)) => assert_eq!(m, "boom"),
        other => panic!("expected BuildFailed, got {other:?}"),
    }
}

#[test]
fn startup_retries_timeouts_until_the_last_attempt() {
    assert!(matches!(startup_next(0, 3, Ok(())), StartupNext::Done));
    assert!(matches!(
        startup_next(0, 3, Err(AgentLifecycleError::StartupTimeout)),
        StartupNext::Respawn
    ));
    assert!(matches!(
        startup_next(3, 3, Err(AgentLifecycleError::StartupTimeout)),
        StartupNext::GiveUp(AgentLifecycleError::StartupTimeout)
    ));
    assert!(matches!(
        startup_next(0, 3, Err(AgentLifecycleError::LaunchFailed("x".into()))),
        StartupNext::GiveUp(AgentLifecycleError::LaunchFailed(_))
    ));
}

#[test]
fn readiness_poll_decisions() {
    assert_eq!(poll_next(true, true), PollNext::Ready);
    assert_eq!(poll_next(false, true), PollNext::TimedOut);
    assert_eq!(poll_next(false, false), PollNext::Wait);
}
