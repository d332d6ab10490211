use qorvex_core::android_lifecycle::{
    brew_openjdk17_prefixes, build_java_home_candidates, build_outcome, choose_client_java_home,
    force_stop_command_args, install_command_args, install_outcome, java_version_supported,
    missing_apk_error, parse_java_major, ready_plan, ready_poll_next, spawn_command_args,
    startup_next, tail_diagnostic, AndroidLifecycleConfig, AndroidLifecycleError, ReadyPlan,
    ReadyPoll, StartupNext,
};

#[test]
fn android_lifecycle_config_new_defaults() {
    let config = AndroidLifecycleConfig::new("/tmp/agent-android".to_string());
    assert_eq!(config.project_dir, "/tmp/agent-android");
    assert_eq!(config.device_port, 8080);
    assert_eq!(config.startup_timeout_nanos, std::time::Duration::from_secs(60).as_nanos());
    assert_eq!(config.max_retries, 3);
}

#[test]
fn android_lifecycle_config_custom_values() {
    let config = AndroidLifecycleConfig {
        project_dir: "/tmp/custom".to_string(),
        device_port: 9999,
        startup_timeout_nanos: std::time::Duration::from_secs(10).as_nanos(),
        max_retries: 5,
        java_home: None,
    };
    assert_eq!(config.device_port, 9999);
    assert_eq!(config.startup_timeout_nanos, std::time::Duration::from_secs(10).as_nanos());
    assert_eq!(config.max_retries, 5);
}

#[test]
fn android_lifecycle_error_display_project_not_found() {
    let err = AndroidLifecycleError::ProjectNotFound("/missing".to_string());
    assert_eq!(err.message(), "Android agent project not found: /missing");
}

#[test]
fn android_lifecycle_error_display_build_failed() {
    let err = AndroidLifecycleError::BuildFailed("task assembleDebug FAILED".into());
    assert_eq!(
        err.message(),
        "Failed to build Android agent (Gradle): task assembleDebug FAILED"
    );
}

#[test]
fn error_display_install_failed() {
    let err = AndroidLifecycleError::InstallFailed("INSTALL_FAILED_INVALID_APK".into());
    assert_eq!(
        err.message(),
        "Failed to install Android agent APK: INSTALL_FAILED_INVALID_APK"
    );
}

#[test]
fn android_lifecycle_error_display_launch_failed() {
    let err = AndroidLifecycleError::LaunchFailed("adb not found".into());
    assert_eq!(
        err.message(),
        "Failed to launch Android agent (am instrument): adb not found"
    );
}

#[test]
fn error_display_instrument_failed() {
    let err = AndroidLifecycleError::InstrumentFailed("exit status: 1 — crash".into());
    assert_eq!(
        err.message(),
        "Android agent instrumentation exited: exit status: 1 — crash"
    );
}

#[test]
fn android_lifecycle_error_display_startup_timeout() {
    let err = AndroidLifecycleError::StartupTimeout;
    assert_eq!(
        err.message(),
        "Android agent failed to become ready within timeout (port never opened)"
    );
}

#[test]
fn android_lifecycle_error_display_not_running() {
    let err = AndroidLifecycleError::NotRunning;
    assert_eq!(err.message(), "Android agent is not running");
}

#[test]
fn android_lifecycle_error_display_io() {
    let io_err = std::io::Error::new(std::io::ErrorKind::NotFound, "file not found");
    let err = AndroidLifecycleError::Io(io_err);
    assert!(err.message().contains("IO error"));
    assert!(err.message().contains("file not found"));
}

#[test]
fn three_failure_modes_are_distinct() {
    let build = AndroidLifecycleError::BuildFailed("x".into());
    let instrument = AndroidLifecycleError::InstrumentFailed("y".into());
    let timeout = AndroidLifecycleError::StartupTimeout;
    assert!(matches!(build, AndroidLifecycleError::BuildFailed(_)));
    assert!(matches!(instrument, AndroidLifecycleError::InstrumentFailed(_)));
    assert!(matches!(timeout, AndroidLifecycleError::StartupTimeout));
    assert_ne!(build.message(), instrument.message());
    assert_ne!(instrument.message(), timeout.message());
    assert_ne!(build.message(), timeout.message());
}

#[test]
fn android_lifecycle_build_agent_project_dir_not_found() {
    let config = AndroidLifecycleConfig::new("/nonexistent/android-project".to_string());
    match config.build_preflight() {
        Err(AndroidLifecycleError::ProjectNotFound(path)) => {
            assert_eq!(path, "/nonexistent/android-project");
        }
        other => panic!("expected ProjectNotFound, got {other:?}"),
    }
}

#[test]
fn build_agent_gradlew_not_found() {
    let config = AndroidLifecycleConfig::new("/tmp".to_string());
    match config.build_preflight() {
        Err(AndroidLifecycleError::ProjectNotFound(path)) => {
            assert!(path.ends_with("gradlew"));
        }
        other => panic!("expected ProjectNotFound, got {other:?}"),
    }
}

#[test]
fn parse_java_major_modern_scheme() {
    let out = "openjdk version \"17.0.19\" 2026-04-21\nOpenJDK Runtime Environment";
    assert_eq!(parse_java_major(out), Some(17));
}

#[test]
fn parse_java_major_unsupported_new_jdk() {
    assert_eq!(parse_java_major("openjdk version \"26.0.1\" 2026-09-16"), Some(26));
}

#[test]
fn parse_java_major_legacy_scheme() {
    assert_eq!(parse_java_major("java version \"1.8.0_302\""), Some(8));
}

#[test]
fn parse_java_major_garbage_is_none() {
    assert_eq!(parse_java_major("no version here"), None);
    assert_eq!(parse_java_major(""), None);
}

#[test]
fn build_java_home_candidates_probes_brew_between_overrides_and_system() {
    let candidates = build_java_home_candidates(
        Some("/client/jdk"),
        Some("/explicit/jdk".to_string()),
        Some("/ambient/jdk".to_string()),
        &brew_openjdk17_prefixes(),
        Some("/system/jdk17".to_string()),
    );
    assert_eq!(
        candidates,
        vec![
            "/client/jdk",
            "/explicit/jdk",
            "/ambient/jdk",
            "/opt/homebrew/opt/openjdk@17",
            "/usr/local/opt/openjdk@17",
            "/system/jdk17",
        ]
    );
}

#[test]
fn build_java_home_candidates_brew_only() {
    let candidates =
        build_java_home_candidates(None, None, None, &brew_openjdk17_prefixes(), None);
    assert_eq!(
        candidates,
        vec!["/opt/homebrew/opt/openjdk@17", "/usr/local/opt/openjdk@17"]
    );
}

#[test]
fn tail_diagnostic_empty_stderr_returns_status() {
    assert_eq!(tail_diagnostic("", "exit status: 1".into()), "exit status: 1");
    assert_eq!(tail_diagnostic("   \n  \n", "exit status: 2".into()), "exit status: 2");
}

#[test]
fn tail_diagnostic_appends_stderr_tail() {
    let out = tail_diagnostic("noise\nFAILURE: build failed\n", "exit status: 1".into());
    assert!(out.starts_with("exit status: 1 — "));
    assert!(out.contains("FAILURE: build failed"));
}

#[test]
fn tail_diagnostic_keeps_last_lines_only() {
    let many: String = (0..50).map(|i| format!("line{i}\n")).collect();
    let out = tail_diagnostic(&many, "exit status: 1".into());
    assert!(out.contains("line49"));
    assert!(!out.contains("line0\n"));
}

#[test]
fn tail_diagnostic_exact_text() {
    let out = tail_diagnostic("  a  \r\n\n b\t\n", "exit status: 3".into());
    assert_eq!(out, "exit status: 3 — a\n b");
    let many: String = (0..25).map(|i| format!("l{i}\n")).collect();
    let out = tail_diagnostic(&many, "s".into());
    let expected: Vec<String> = (5..25).map(|i| format!("l{i}")).collect();
    assert_eq!(out, format!("s — {}", expected.join("\n")));
}

#[test]
fn build_failure_hints_when_no_jdk() {
    match build_outcome(false, "boom\n", "exit status: 1".into(), true) {
        Err(AndroidLifecycleError::BuildFailed(m)) => assert_eq!(m, "exit status: 1 — boom"),
        other => panic!("expected BuildFailed, got {other:?}"),
    }
    match build_outcome(false, "", "exit status: 1".into(), false) {
        Err(AndroidLifecycleError::BuildFailed(m)) => {
            assert!(m.starts_with("exit status: 1\n(hint: no JDK 17 found"))
        }
        other => panic!("expected BuildFailed, got {other:?}"),
    }
    assert!(build_outcome(true, "", "ok".into(), false).is_ok());
}

#[test]
fn install_agent_missing_apk() {
    match missing_apk_error("/tmp/x.apk") {
        AndroidLifecycleError::InstallFailed(msg) => {
            assert!(msg.contains("APK not found"));
            assert_eq!(msg, "APK not found (run build first): /tmp/x.apk");
        }
        other => panic!("expected InstallFailed, got {other:?}"),
    }
}

#[test]
fn install_outcome_reads_failure_reports() {
    assert!(install_outcome("a.apk", true, "Success\n", "").is_ok());
    match install_outcome("a.apk", true, "Failure [INSTALL_FAILED]\n", "") {
        Err(AndroidLifecycleError::InstallFailed(m)) => {
            assert_eq!(m, "a.apk: Failure [INSTALL_FAILED]")
        }
        other => panic!("expected InstallFailed, got {other:?}"),
    }
    match install_outcome("a.apk", false, "out", "  err  ") {
        Err(AndroidLifecycleError::InstallFailed(m)) => assert_eq!(m, "a.apk: err"),
        other => panic!("expected InstallFailed, got {other:?}"),
    }
}

#[test]
fn adb_command_arguments() {
    assert_eq!(
        install_command_args("emulator-5554", "/p/app.apk"),
        vec!["-s", "emulator-5554", "install", "-r", "/p/app.apk"]
    );
    assert_eq!(
        spawn_command_args("emulator-5554", 8080),
        vec![
            "-s",
            "emulator-5554",
            "shell",
            "am",
            "instrument",
            "-w",
            "-e",
            "qorvex_port",
            "8080",
            "-e",
            "class",
            "com.qorvex.agent.QorvexAgentTest#runAgent",
            "com.qorvex.agent.test/androidx.test.runner.AndroidJUnitRunner",
        ]
    );
    assert_eq!(
        force_stop_command_args("emulator-5554"),
        vec!["-s", "emulator-5554", "shell", "am", "force-stop", "com.qorvex.agent"]
    );
}

#[test]
fn apk_and_gradlew_paths() {
    let config = AndroidLifecycleConfig::new("/p".to_string());
    assert_eq!(config.gradlew_path(), "/p/gradlew");
    let (app, test) = config.apk_paths();
    assert_eq!(app, "/p/build/outputs/apk/debug/qorvex-agent-android-debug.apk");
    assert_eq!(
        test,
        "/p/build/outputs/apk/androidTest/debug/qorvex-agent-android-debug-androidTest.apk"
    );
}

#[test]
fn readiness_and_retry_decisions() {
    assert!(matches!(ready_poll_next(true, Some("x".into()), true), ReadyPoll::Ready));
    match ready_poll_next(false, Some("exit status: 1".into()), false) {
        ReadyPoll::Fail(AndroidLifecycleError::InstrumentFailed(d)) => {
            assert_eq!(d, "exit status: 1")
        }
        other => panic!("expected InstrumentFailed, got {other:?}"),
    }
    assert!(matches!(
        ready_poll_next(false, None, true),
        ReadyPoll::Fail(AndroidLifecycleError::StartupTimeout)
    ));
    assert!(matches!(ready_poll_next(false, None, false), ReadyPoll::Wait));
    assert!(matches!(
        startup_next(1, 3, Err(AndroidLifecycleError::InstrumentFailed("x".into()))),
        StartupNext::Respawn
    ));
    assert!(matches!(
        startup_next(3, 3, Err(AndroidLifecycleError::InstrumentFailed("x".into()))),
        StartupNext::GiveUp(AndroidLifecycleError::InstrumentFailed(_))
    ));
    assert!(matches!(
        startup_next(0, 3, Err(AndroidLifecycleError::BuildFailed("x".into()))),
        StartupNext::GiveUp(AndroidLifecycleError::BuildFailed(_))
    ));
    assert_eq!(ready_plan(true, true), ReadyPlan::Reuse);
    assert_eq!(ready_plan(true, false), ReadyPlan::Relaunch { stop_first: true });
    assert_eq!(ready_plan(false, true), ReadyPlan::Relaunch { stop_first: false });
}

#[test]
fn java_versions_and_overrides() {
    assert!(java_version_supported(Some(17)));
    assert!(java_version_supported(Some(23)));
    assert!(!java_version_supported(Some(26)));
    assert!(!java_version_supported(Some(11)));
    assert!(!java_version_supported(None));
    assert_eq!(
        choose_client_java_home(Some(String::new()), Some("/j".into())),
        Some("/j".to_string())
    );
    assert_eq!(
        choose_client_java_home(Some("/q".into()), Some("/j".into())),
        Some("/q".to_string())
    );
    assert_eq!(choose_client_java_home(None, Some(String::new())), None);
}
