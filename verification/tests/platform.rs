use v8_runner::platform::designer::{DesignerConnection, DesignerDsl, DesignerError};
use v8_runner::platform::locator::{
    default_platform_roots, infer_version, normalize_path_roots, DirListing, EdtVersion,
    ExecutableProbe, Locator, LocatorError, PlatformVersion, PlatformVersionRequirement,
    ResolutionSource, SearchFacts, UtilityType, UtilityVersion,
};
use v8_runner::platform::process::{
    is_invalid_standard_handle_error, managed_outcome, managed_stop_result, managed_wait_step,
    poll_failure_error, startup_poll_failure_error, render_command,
    run_precheck, should_retry_spawn, startup_probe_error, ManagedProcessOutcome, ManagedWaitStep,
    ProcessError, ProcessIoMode, ProcessRequest, ProcessResult, EXECUTABLE_BUSY_MAX_RETRIES,
    WINDOWS_ERROR_INVALID_HANDLE,
};

#[test]
fn wraps_plain_connection_string_as_flag_and_value() {
    let connection = DesignerConnection::from_connection_string("File=/tmp/ib");

    assert_eq!(connection.args(), vec!["/IBConnectionString", "File=/tmp/ib"]);
}

#[test]
fn splits_raw_connection_and_auth_into_separate_tokens() {
    let mut connection = DesignerConnection::from_connection_string("/F \"/tmp/my ib\"");
    connection.user = Some("alice".to_owned());
    connection.password = Some("secret".to_owned());

    assert_eq!(connection.args(), vec!["/F", "/tmp/my ib", "/N", "alice", "/P", "secret"]);
}

#[test]
fn empty_path_component_is_captured_as_current_directory() {
    let current = "/captured/current-directory".to_owned();
    let configured = "/configured/bin".to_owned();

    assert_eq!(
        normalize_path_roots(vec![String::new(), configured.clone()], &current),
        vec![current, configured]
    );
}

#[test]
fn relative_path_components_are_absolutized_against_captured_current_directory() {
    let captured = "/captured/current-directory".to_owned();
    let absolute = "/absolute/bin".to_owned();

    assert_eq!(
        normalize_path_roots(
            vec!["relative/bin".to_owned(), ".".to_owned(), absolute.clone()],
            &captured,
        ),
        vec![format!("{captured}/relative/bin"), captured, absolute]
    );
}

#[test]
fn parse_strict_platform_version_requires_four_parts() {
    assert!(PlatformVersion::parse_strict("8.3.25").is_none());
    assert!(PlatformVersion::parse_strict("8.3.25.1234").is_some());
}

#[test]
fn parse_platform_version_requirement_accepts_prefix_or_exact_version() {
    let minor_prefix = PlatformVersionRequirement::parse("8.3").expect("minor prefix");
    assert_eq!(minor_prefix.to_string(), "8.3");
    assert!(minor_prefix.matches(&PlatformVersion::parse_strict("8.3.25.1234").expect("version")));
    assert!(!minor_prefix.matches(&PlatformVersion::parse_strict("8.4.25.1234").expect("version")));

    let prefix = PlatformVersionRequirement::parse("8.3.25").expect("prefix");
    assert_eq!(prefix.to_string(), "8.3.25");
    assert!(prefix.matches(&PlatformVersion::parse_strict("8.3.25.1234").expect("version")));
    assert!(!prefix.matches(&PlatformVersion::parse_strict("8.3.24.9999").expect("version")));

    let exact = PlatformVersionRequirement::parse("8.3.25.1234").expect("exact");
    assert_eq!(exact.to_string(), "8.3.25.1234");
    assert!(exact.matches(&PlatformVersion::parse_strict("8.3.25.1234").expect("version")));
    assert!(!exact.matches(&PlatformVersion::parse_strict("8.3.25.9999").expect("version")));
}

#[test]
fn parse_lenient_edt_version_extracts_numeric_tokens() {
    let version = EdtVersion::parse_lenient("1c-edt-2025.1.0+656-x86_64").expect("version");
    assert_eq!(version.parts, vec![1, 2025, 1, 0, 656, 86, 64]);
}

#[test]
fn default_platform_roots_match_linux_install_contract() {
    assert_eq!(
        default_platform_roots(),
        vec![
            "/opt/1cv8/x86_64".to_owned(),
            "/opt/1cv8/i386".to_owned(),
            "/usr/local/1cv8".to_owned(),
        ]
    );
}

#[test]
fn utility_location_can_infer_platform_version_from_path() {
    let version = infer_version(UtilityType::V8, "/opt/1cv8/x86_64/8.3.25.1234/1cv8");

    assert!(matches!(version, Some(UtilityVersion::Platform(_))));
}

#[test]
fn platform_version_text_round_trips() {
    let v = PlatformVersion::parse_strict("8.3.25.1234").expect("version");
    assert_eq!(v.to_string(), "8.3.25.1234");
    assert_eq!(PlatformVersion::parse_strict(&v.to_string()), Some(v));
    assert!(PlatformVersion::parse_strict("8.3.x.1").is_none());
    assert!(PlatformVersionRequirement::parse("8").is_none());
    for text in ["8.3", "8.3.25", "8.3.25.1234"] {
        let r = PlatformVersionRequirement::parse(text).expect("requirement");
        assert_eq!(PlatformVersionRequirement::parse(&r.to_string()), Some(r));
    }
}

#[test]
fn utility_names_match_platform_executables() {
    assert_eq!(UtilityType::V8.executable_name(), "1cv8");
    assert_eq!(UtilityType::V8C.executable_name(), "1cv8c");
    assert_eq!(UtilityType::EdtCli.to_string(), "1cedtcli");
    assert!(UtilityType::V8.is_platform());
    assert!(!UtilityType::EdtCli.is_platform());
}

#[test]
fn ignores_only_windows_invalid_handle_errors() {
    assert!(is_invalid_standard_handle_error(Some(WINDOWS_ERROR_INVALID_HANDLE)));
    assert!(!is_invalid_standard_handle_error(Some(5)));
}

#[test]
fn timeout_cleanup_failure_retains_timeout_semantics_and_diagnostics() {
    let error = ProcessError::TimedOutCleanupFailed {
        cmd: "1cv8c ENTERPRISE".to_owned(),
        timeout_ms: 25,
        source: Box::new(ProcessError::TerminationFailed {
            cmd: "1cv8c ENTERPRISE".to_owned(),
            source: "taskkill failed".to_owned(),
        }),
    };

    assert!(error.timed_out());
    assert!(error.message().contains("taskkill failed"));
    assert!(matches!(
        error,
        ProcessError::TimedOutCleanupFailed { source, .. }
            if matches!(*source, ProcessError::TerminationFailed { .. })
    ));
}

#[test]
fn process_error_messages_name_the_command() {
    let e = ProcessError::TimedOut { cmd: "1cv8 DESIGNER".to_owned(), timeout_ms: 1500 };
    assert_eq!(e.message(), "process timed out '1cv8 DESIGNER' after 1500ms");
    let e = ProcessError::ExitedEarly { cmd: "1cv8c".to_owned(), exit_code: -1 };
    assert_eq!(e.message(), "process exited before startup completed '1cv8c' (exit -1)");
    assert!(!e.timed_out());
}

#[test]
fn detached_modes_require_standard_handle_isolation() {
    assert!(ProcessIoMode::Detached.requires_standard_handle_isolation());
    assert!(ProcessIoMode::ManagedDetached.requires_standard_handle_isolation());
    assert!(!ProcessIoMode::Captured.requires_standard_handle_isolation());
    assert!(!ProcessIoMode::ManagedWait.requires_standard_handle_isolation());
}

fn request(program: &str, args: &[&str]) -> ProcessRequest {
    ProcessRequest {
        program: program.to_owned(),
        args: args.iter().map(|a| (*a).to_owned()).collect(),
        workdir: None,
        stdout_log_path: None,
        stderr_log_path: None,
        startup_probe_ms: None,
    }
}

#[test]
fn render_command_masks_ibcmd_password_flags() {
    let rendered = render_command(&request(
        "/tmp/ibcmd",
        &[
            "--user",
            "admin",
            "/N",
            "operator",
            "/p",
            "secret",
            "--database-user=postgres",
            "--DATABASE-password=pg-secret",
            "-p=legacy-secret",
            "--target-db-pwd",
            "target-secret",
        ],
    ));

    assert!(rendered.contains("--user ***"));
    assert!(rendered.contains("/N ***"));
    assert!(rendered.contains("/p ***"));
    assert!(rendered.contains("--database-user=***"));
    assert!(rendered.contains("--DATABASE-password=***"));
    assert!(rendered.contains("-p=***"));
    assert!(rendered.contains("--target-db-pwd ***"));
    assert!(!rendered.contains("admin"));
    assert!(!rendered.contains("operator"));
    assert!(!rendered.contains("postgres"));
    assert!(!rendered.contains("secret"));
    assert!(!rendered.contains("pg-secret"));
    assert!(!rendered.contains("legacy-secret"));
    assert!(!rendered.contains("target-secret"));
}

#[test]
fn render_command_keeps_infobase_connection_string_visible() {
    let rendered = render_command(&request(
        "1cv8c",
        &["/IBConnectionString", "Srvr=host;Ref=base;Usr=alice;Pwd=secret"],
    ));

    assert!(rendered.contains("/IBConnectionString Srvr=host;Ref=base;Usr=alice;Pwd=secret"));
}

#[test]
fn render_command_keeps_infobase_connection_string_assignment_visible() {
    let rendered =
        render_command(&request("1cv8c", &["/IBConnectionString=File=/tmp/ib;usr=alice;PWD=secret"]));

    assert!(rendered.contains("/IBConnectionString=File=/tmp/ib;usr=alice;PWD=secret"));
}

#[test]
fn render_command_keeps_combined_infobase_connection_token_visible() {
    let rendered =
        render_command(&request("1cv8c", &["/IBConnectionStringSrvr=host;Ref=base;Usr=alice;Pwd=secret"]));

    assert!(rendered.contains("/IBConnectionStringSrvr=host;Ref=base;Usr=alice;Pwd=secret"));
}

#[test]
fn render_command_keeps_quoted_infobase_connection_values_visible() {
    let rendered = render_command(&request(
        "1cv8c",
        &["/IBConnectionString", "File=/tmp/ib;Usr=alice;Pwd=\"sec;ret\";Ref=base"],
    ));

    assert!(rendered.contains("/IBConnectionString File=/tmp/ib;Usr=alice;Pwd=\"sec;ret\";Ref=base"));
}

#[test]
fn render_command_keeps_argument_count() {
    let rendered = render_command(&request("/opt/1cv8", &["DESIGNER", "/P", "pw", "/Out", "log.txt"]));

    assert_eq!(rendered, "/opt/1cv8 DESIGNER /P *** /Out log.txt");
}

#[test]
fn spawn_retries_only_while_executable_is_busy() {
    assert!(should_retry_spawn(0, true));
    assert!(!should_retry_spawn(0, false));
    assert!(!should_retry_spawn(EXECUTABLE_BUSY_MAX_RETRIES, true));
}

#[test]
fn precheck_reports_cancellation_before_zero_timeout() {
    assert!(matches!(run_precheck("cmd", true, Some(0)), Some(ProcessError::Cancelled { .. })));
    assert!(matches!(
        run_precheck("cmd", false, Some(0)),
        Some(ProcessError::TimedOut { timeout_ms: 0, .. })
    ));
    assert!(run_precheck("cmd", false, Some(10)).is_none());
    assert!(matches!(
        startup_probe_error("cmd", Some(2)),
        Some(ProcessError::ExitedEarly { exit_code: 2, .. })
    ));
    assert!(startup_probe_error("cmd", None).is_none());
}

#[test]
fn managed_wait_prefers_exit_then_cancel_then_deadline() {
    assert_eq!(managed_wait_step(Some(0), true, 100, Some(1)), ManagedWaitStep::Exited(0));
    assert_eq!(managed_wait_step(None, true, 100, Some(1)), ManagedWaitStep::Cancel);
    assert_eq!(managed_wait_step(None, false, 100, Some(100)), ManagedWaitStep::TimeOut);
    assert_eq!(managed_wait_step(None, false, 99, Some(100)), ManagedWaitStep::Continue);
    assert_eq!(
        managed_outcome(ManagedWaitStep::TimeOut),
        Some(ManagedProcessOutcome { exit_code: None, timed_out: true })
    );
    assert_eq!(managed_outcome(ManagedWaitStep::Cancel), None);
}


fn probe(path: &str, root: &str) -> ExecutableProbe {
    ExecutableProbe { path: path.to_owned(), resolved: Some((path.to_owned(), root.to_owned())) }
}

#[test]
fn platform_search_honours_exact_version_requirement() {
    let wanted = "/opt/1cv8/x86_64/8.3.25.1234";
    let other = "/opt/1cv8/x86_64/8.3.27.1000";
    let requirement = PlatformVersionRequirement::parse("8.3.25.1234").expect("requirement");
    let mut locator =
        Locator::with_roots(None, Some(requirement), None, None, vec!["/opt/1cv8/x86_64".to_owned()], vec![]);
    let facts = SearchFacts {
        paths: vec![],
        listings: vec![DirListing {
            root: "/opt/1cv8/x86_64".to_owned(),
            dirs: vec![wanted.to_owned(), other.to_owned()],
        }],
        probes: vec![probe(&format!("{wanted}/1cv8"), wanted), probe(&format!("{other}/1cv8"), other)],
    };

    let location = locator.locate(UtilityType::V8, &facts).expect("locate");

    assert_eq!(location.path, format!("{wanted}/1cv8"));
    assert_eq!(location.source, ResolutionSource::DefaultRoot);
    assert!(matches!(location.version, Some(UtilityVersion::Platform(v)) if v.to_string() == "8.3.25.1234"));

    let mut empty = Locator::with_roots(None, None, None, None, vec!["/nowhere".to_owned()], vec![]);
    let none = SearchFacts { paths: vec![], listings: vec![], probes: vec![] };
    assert_eq!(empty.locate(UtilityType::V8C, &none), Err(LocatorError::NotFound(UtilityType::V8C)));
}

#[test]
fn spawn_detects_immediate_exit_when_probe_is_requested() {
    let err = startup_probe_error("/usr/bin/false", Some(1)).expect("expected early exit");
    assert!(matches!(err, ProcessError::ExitedEarly { exit_code: 1, .. }));
    assert!(startup_probe_error("/usr/bin/false", None).is_none());
}

fn designer_run(code: i32, stderr: &str) -> ProcessResult {
    ProcessResult {
        exit_code: code,
        stdout: String::new(),
        stderr: stderr.to_string(),
        interruption: None,
    }
}

#[test]
fn designer_run_that_could_not_start_is_a_spawn_failure() {
    let spawn = || ProcessError::SpawnFailed {
        cmd: "1cv8 DESIGNER".to_string(),
        source: "no such file".to_string(),
    };
    let r = DesignerDsl::finish_run(Err(spawn()));
    assert_eq!(r, Err(DesignerError::Spawn(spawn())));
}

#[test]
fn designer_run_with_nonzero_exit_is_a_process_failure() {
    let r = DesignerDsl::finish_run(Ok(designer_run(101, "bad config")));
    assert_eq!(
        r,
        Err(DesignerError::ProcessFailed {
            code: 101,
            stderr: "bad config".to_string()
        })
    );
}

#[test]
fn designer_run_with_zero_exit_is_returned_unchanged() {
    let r = DesignerDsl::finish_run(Ok(designer_run(0, "")));
    assert_eq!(r, Ok(designer_run(0, "")));
}

#[test]
fn managed_stop_after_cancellation_reports_cancellation_or_cleanup_failure() {
    let r = managed_stop_result(false, "1cv8 ENTERPRISE", Some(500), Ok(()));
    assert_eq!(
        r,
        Err(ProcessError::Cancelled {
            cmd: "1cv8 ENTERPRISE".to_string()
        })
    );
    let cleanup = || ProcessError::TerminationFailed {
        cmd: "1cv8 ENTERPRISE".to_string(),
        source: "kill failed".to_string(),
    };
    let r = managed_stop_result(false, "1cv8 ENTERPRISE", Some(500), Err(cleanup()));
    assert_eq!(r, Err(cleanup()));
}

#[test]
fn managed_stop_after_timeout_keeps_timeout_semantics() {
    let r = managed_stop_result(true, "1cv8 ENTERPRISE", Some(500), Ok(()));
    assert_eq!(
        r,
        Ok(ManagedProcessOutcome {
            exit_code: None,
            timed_out: true
        })
    );
    let cleanup = || ProcessError::TerminationFailed {
        cmd: "1cv8 ENTERPRISE".to_string(),
        source: "kill failed".to_string(),
    };
    let err = managed_stop_result(true, "1cv8 ENTERPRISE", Some(500), Err(cleanup())).unwrap_err();
    assert!(err.timed_out());
    assert_eq!(
        err,
        ProcessError::TimedOutCleanupFailed {
            cmd: "1cv8 ENTERPRISE".to_string(),
            timeout_ms: 500,
            source: Box::new(cleanup())
        }
    );
}

#[test]
fn failed_poll_names_both_causes_when_cleanup_fails() {
    let e = poll_failure_error("1cv8", "broken pipe", Ok(()));
    assert_eq!(
        e,
        ProcessError::StartupCheckFailed {
            cmd: "1cv8".to_string(),
            source: "broken pipe".to_string()
        }
    );
    let cleanup = ProcessError::Cancelled {
        cmd: "1cv8".to_string(),
    };
    let expected_cleanup_text = cleanup.message();
    let e = poll_failure_error("1cv8", "broken pipe", Err(cleanup));
    match e {
        ProcessError::TerminationFailed { cmd, source } => {
            assert_eq!(cmd, "1cv8");
            assert_eq!(
                source,
                format!("failed to observe process: broken pipe; cleanup also failed: {expected_cleanup_text}")
            );
        }
        other => panic!("unexpected {other:?}"),
    }
}

#[test]
fn failed_startup_poll_names_both_causes_when_cleanup_fails() {
    assert_eq!(
        startup_poll_failure_error("1cv8", "io error", Ok(())),
        ProcessError::StartupCheckFailed {
            cmd: "1cv8".to_string(),
            source: "io error".to_string()
        }
    );
    let cleanup = ProcessError::TerminationFailed {
        cmd: "1cv8".to_string(),
        source: "kill failed".to_string(),
    };
    let text = cleanup.message();
    match startup_poll_failure_error("1cv8", "io error", Err(cleanup)) {
        ProcessError::TerminationFailed { cmd, source } => {
            assert_eq!(cmd, "1cv8");
            assert_eq!(source, format!("failed to observe process startup: io error; cleanup also failed: {text}"));
        }
        other => panic!("unexpected {other:?}"),
    }
}
