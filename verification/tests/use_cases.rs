use v8_runner::cli::args::{BuildArgs, DumpArgs, SyntaxArgs, SyntaxTarget, TestArgs, TestScope};
use v8_runner::config::loader::{choose_config_path, config_probe_paths, resolve_config_path, ConfigLoadError};
use v8_runner::config::model::{AppConfig, BuilderBackend, SourceFormat};
use v8_runner::config::validate::ConfigValidationError;
use v8_runner::domain::execution::{ExecutionInterruptionKind, ExecutionStatus};
use v8_runner::domain::launch::{LaunchMode, PlatformResolutionSource};
use v8_runner::platform::designer::DesignerConnection;
use v8_runner::platform::locator::{
    LocatorError, PlatformVersion, ResolutionSource, UtilityLocation, UtilityType, UtilityVersion,
};
use v8_runner::platform::process::{ProcessError, ProcessInterruptionReason, SpawnResult};
use v8_runner::support::error::AppError;
use v8_runner::use_cases::bootstrap_project::{
    escape_yaml, gitignore_content, preflight_targets, redact_message, reject_embedded_credentials,
    render_bootstrap_connection, render_local_config, render_main_config, BootstrapPaths, BootstrapRequest,
};
use v8_runner::use_cases::client_mcp_readiness::{
    endpoint_url, initialize_outcome, missing_required_tools, parse_json_or_sse, tools_list_outcome, remaining_request_timeout,
    vanessa_mcp_tools, ReadinessAction, ReadinessEvent, ReadinessState,
};
use v8_runner::use_cases::context::{CommandName, ExecutionContext, ExecutionInterruption, ExecutionTransport};
use v8_runner::use_cases::interruption::{
    command_interruption_status, deferred_interruption_warning,
    deferred_interruption_warning_for_command, deferred_process_interruption_message,
    process_interruption_details,
};
use v8_runner::use_cases::launch_app::{
    execute as launch_execute, launch_target, mode_label, plan_launch, LaunchModeRequest,
    LaunchRequest, LAUNCH_STARTUP_PROBE_MS,
};
use v8_runner::use_cases::run_tests::junit_export::JunitExport;
use v8_runner::use_cases::{build_project, check_syntax, dump_config, run_tests};

#[test]
fn constructs_mcp_contexts() {
    let stdio = ExecutionContext::mcp_stdio(CommandName::Build);
    let http = ExecutionContext::mcp_http(CommandName::Test);

    assert_eq!(stdio.command(), CommandName::Build);
    assert_eq!(stdio.transport(), ExecutionTransport::McpStdio);
    assert_eq!(http.command(), CommandName::Test);
    assert_eq!(http.transport(), ExecutionTransport::McpHttp);
}

#[test]
fn command_interruption_status_preserves_terminal_state() {
    assert_eq!(command_interruption_status(ExecutionInterruption::Cancelled), ExecutionStatus::Cancelled);
    assert_eq!(command_interruption_status(ExecutionInterruption::TimedOut), ExecutionStatus::TimedOut);
}

#[test]
fn deferred_warning_uses_shared_reason_vocabulary() {
    assert_eq!(
        deferred_interruption_warning("operation completed successfully", ExecutionInterruption::TimedOut),
        "operation completed successfully after timeout during critical phase; unsafe interruption was not performed"
    );
    assert_eq!(
        deferred_interruption_warning_for_command(
            "dump publication completed",
            CommandName::Dump,
            ExecutionInterruption::Cancelled,
        ),
        "dump publication completed after cancellation request for command 'dump' during critical phase; unsafe interruption was not performed"
    );
}

#[test]
fn process_details_preserve_deferred_flag() {
    let details =
        process_interruption_details(ProcessInterruptionReason::Cancelled, "run", true, "deferred".to_owned());

    assert!(details.deferred);
    assert_eq!(details.phase.as_deref(), Some("run"));
    assert_eq!(details.message.as_deref(), Some("deferred"));
    assert_eq!(details.kind, ExecutionInterruptionKind::Cancelled);
}

#[test]
fn bootstrap_rejects_embedded_connection_credentials() {
    for connection in [
        "File=/tmp/source-ib;Usr=Admin;Pwd=secret",
        "/F /tmp/source-ib /N Admin /P secret",
        "/S server/ref /N=Admin /P=secret",
    ] {
        let r = reject_embedded_credentials(connection);
        assert!(r.is_err(), "connection {connection}");
        let e = r.unwrap_err();
        assert_eq!(e.exit_code(), 2);
        match e {
            AppError::Validation(m) => assert!(m.contains("embedded credentials")),
            other => panic!("unexpected {other:?}"),
        }
    }
    assert!(reject_embedded_credentials("File=/tmp/source-ib").is_ok());
}

#[test]
fn bootstrap_connection_quotes_simple_file_paths() {
    assert_eq!(render_bootstrap_connection("File=/tmp/ib"), "/F \"/tmp/ib\"");
    assert_eq!(render_bootstrap_connection("Srvr=host;Ref=base"), "Srvr=host;Ref=base");
    assert_eq!(escape_yaml("it's"), "it''s");
}

#[test]
fn gitignore_gains_local_config_only_once() {
    let fresh = gitignore_content(None).expect("new file");
    assert!(fresh.contains("v8project.local.yaml"));
    assert_eq!(gitignore_content(Some(&fresh)), None);
    let appended = gitignore_content(Some("target/")).expect("appended");
    assert!(appended.starts_with("target/"));
    assert!(appended.contains("v8project.local.yaml"));
}

#[test]
fn missing_config_in_text_mode_returns_validation_error_on_stderr() {
    let r = resolve_config_path(Some("/definitely/missing/v8project.yaml"));

    let e = r.expect_err("missing config");
    assert_eq!(e.exit_code(), 2);
    assert_eq!(e, ConfigLoadError::NotFound("/definitely/missing/v8project.yaml".to_owned()));
    assert!(e.message().contains("config file not found"));
}

#[test]
fn config_probes_the_given_path_or_the_default_locations_in_order() {
    assert_eq!(config_probe_paths(Some("/etc/v8project.yaml")), vec!["/etc/v8project.yaml".to_owned()]);
    assert_eq!(
        config_probe_paths(None),
        vec!["application.yaml".to_owned(), "application.yml".to_owned(), "config/application.yaml".to_owned()]
    );
}

#[test]
fn config_path_falls_back_to_first_existing_default() {
    assert_eq!(choose_config_path(None, false, &vec![false, true, true]), Ok("application.yml".to_owned()));
    assert_eq!(
        choose_config_path(None, false, &vec![false, false, false]),
        Err(ConfigLoadError::NotFound("application.yaml (searched default locations)".to_owned()))
    );
    assert_eq!(choose_config_path(Some("/x.yaml"), true, &Vec::new()), Ok("/x.yaml".to_owned()));
}

#[test]
fn config_error_messages_wrap_validation_text() {
    let e = ConfigLoadError::ValidationError(ConfigValidationError::SourceSetPathInvalid {
        name: "main".to_owned(),
        path: "/src".to_owned(),
    });
    assert_eq!(e.message(), "config validation failed: source-set entry 'main' path does not exist: /src");
    assert_eq!(ConfigValidationError::EmptyConnection.message(), "connection string is empty");
}

fn sample_config() -> AppConfig {
    AppConfig {
        base_path: "/p".to_owned(),
        work_path: "/p/work".to_owned(),
        source_sets: Vec::new(),
        format: SourceFormat::Designer,
        builder: BuilderBackend::Designer,
        connection: "File=/ib".to_owned(),
        partial_load_threshold: 20,
    }
}

#[test]
fn unavailable_commands_report_runtime_errors() {
    let config = sample_config();
    assert_eq!(
        build_project::execute(&config, &BuildArgs { full_rebuild: false }),
        Err(AppError::Runtime("build not yet implemented".to_owned()))
    );
    assert_eq!(
        run_tests::execute(&config, &TestArgs { scope: TestScope::All }),
        Err(AppError::Runtime("test not yet implemented".to_owned()))
    );
    assert_eq!(
        check_syntax::execute(&config, &SyntaxArgs { target: SyntaxTarget::DesignerConfig }),
        Err(AppError::Runtime("syntax not yet implemented".to_owned()))
    );
    let dump = DumpArgs { mode: "full".to_owned(), source_set: None, extension: None, objects: Vec::new() };
    assert_eq!(
        dump_config::execute(&config, &dump),
        Err(AppError::Runtime("dump not yet implemented".to_owned()))
    );
}

fn located(path: &str) -> UtilityLocation {
    UtilityLocation {
        utility: UtilityType::V8C,
        path: path.to_owned(),
        version: Some(UtilityVersion::Platform(
            PlatformVersion::parse_strict("8.3.25.1234").expect("version"),
        )),
        source: ResolutionSource::DefaultRoot,
        installation_root: "/opt/1cv8/x86_64/8.3.25.1234".to_owned(),
    }
}

#[test]
fn launch_modes_map_to_utilities() {
    assert_eq!(launch_target(LaunchModeRequest::Designer), (LaunchMode::Designer, UtilityType::V8, "DESIGNER"));
    assert_eq!(launch_target(LaunchModeRequest::Thin), (LaunchMode::Thin, UtilityType::V8C, "ENTERPRISE"));
    assert_eq!(launch_target(LaunchModeRequest::Thick), (LaunchMode::Thick, UtilityType::V8, "ENTERPRISE"));
    assert_eq!(mode_label(LaunchModeRequest::Thin), "thin");
}

#[test]
fn launch_plan_passes_mode_then_connection() {
    let args = LaunchRequest { mode: LaunchModeRequest::Thin };
    let connection = DesignerConnection::from_connection_string("File=/tmp/ib");
    let location = Ok(located("/opt/1cv8/x86_64/8.3.25.1234/1cv8c"));

    let request = plan_launch(&args, &connection, &location).expect("plan");

    assert_eq!(request.program, "/opt/1cv8/x86_64/8.3.25.1234/1cv8c");
    assert_eq!(request.args, vec!["ENTERPRISE", "/IBConnectionString", "File=/tmp/ib"]);
    assert_eq!(request.startup_probe_ms, Some(LAUNCH_STARTUP_PROBE_MS));
    assert_eq!(request.workdir, None);

    let missing = Err(LocatorError::NotFound(UtilityType::V8C));
    assert_eq!(
        plan_launch(&args, &connection, &missing),
        Err(AppError::Platform("utility '1cv8c' was not found".to_owned()))
    );
}

#[test]
fn launch_result_names_mode_binary_and_pid() {
    let args = LaunchRequest { mode: LaunchModeRequest::Thin };
    let location = located("/opt/1cv8/x86_64/8.3.25.1234/1cv8c");
    let spawned = SpawnResult { pid: 4242, binary: "/opt/1cv8/x86_64/8.3.25.1234/1cv8c".to_owned() };

    let result = launch_execute(&args, &location, Ok(spawned)).expect("launched");

    assert!(result.ok);
    assert_eq!(result.mode, LaunchMode::Thin);
    assert_eq!(result.pid, Some(4242));
    assert_eq!(
        result.message.as_deref(),
        Some("Launched thin via /opt/1cv8/x86_64/8.3.25.1234/1cv8c (pid 4242)")
    );
    assert_eq!(result.platform_resolution.version.as_deref(), Some("8.3.25.1234"));
    assert_eq!(result.platform_resolution.source, PlatformResolutionSource::DefaultRoot);

    let failed = launch_execute(
        &args,
        &location,
        Err(ProcessError::SpawnFailed { cmd: "1cv8c".to_owned(), source: "denied".to_owned() }),
    );
    assert_eq!(failed, Err(AppError::Platform("failed to spawn process '1cv8c': denied".to_owned())));
}

#[test]
fn junit_export_checks_target_and_report() {
    assert_eq!(
        JunitExport::prepare("", false),
        Err(AppError::Validation("JUnit export target must name a file".to_owned()))
    );
    assert_eq!(
        JunitExport::prepare("/tmp/reports", true),
        Err(AppError::Validation("JUnit export target is a directory: /tmp/reports".to_owned()))
    );
    let export = JunitExport::prepare("/tmp/reports/junit.xml", false).expect("export");
    assert_eq!(export.target(), "/tmp/reports/junit.xml");
    assert_eq!(
        export.check_report(&[]),
        Err(AppError::Runtime("cannot export empty JUnit report".to_owned()))
    );
    assert!(export.check_report(b"<testsuites/>").is_ok());
}

#[test]
fn readiness_helpers_compute_urls_and_missing_tools() {
    assert_eq!(endpoint_url(8080), "http://127.0.0.1:8080/mcp");
    let required = vanessa_mcp_tools();
    assert_eq!(required.len(), 5);
    let offered = vec!["load_features".to_owned(), "run_scenario".to_owned()];
    assert_eq!(
        missing_required_tools(&offered, &required),
        vec!["open_feature_file", "get_test_results", "connect_test_client"]
    );
    assert!(remaining_request_timeout(0).is_err());
    assert_eq!(remaining_request_timeout(10_000), Ok(300));
}

#[test]
fn readiness_parses_sse_bodies() {
    let body = "event: message\ndata: {\"ok\":true}\n\n";
    assert!(parse_json_or_sse(body).is_ok());
    assert!(parse_json_or_sse("not json").is_err());
}

#[test]
fn readiness_wait_starts_with_a_session_and_stops_on_interruption() {
    let required = vanessa_mcp_tools();
    let mut state = ReadinessState::new("http://127.0.0.1:1/mcp", &required);
    let first = state.step(ReadinessEvent::Tick { interruption: None, deadline_passed: false });
    assert!(matches!(first, ReadinessAction::InitializeSession));
    let stop = state.step(ReadinessEvent::Tick { interruption: Some("cancelled".to_owned()), deadline_passed: false });
    match stop {
        ReadinessAction::Finish { outcome: Err(r), .. } => {
            assert!(!r.ok);
            assert_eq!(r.missing_tools, required);
        }
        other => panic!("unexpected {other:?}"),
    }
}

#[test]
fn initialize_outcome_negotiates_protocol_version() {
    let plain = parse_json_or_sse("{\"jsonrpc\":\"2.0\",\"id\":1,\"result\":{}}").expect("json");
    assert_eq!(initialize_outcome(&plain), Ok("2025-11-25".to_owned()));

    let chosen =
        parse_json_or_sse("{\"result\":{\"protocolVersion\":\"2025-03-26\"}}").expect("json");
    assert_eq!(initialize_outcome(&chosen), Ok("2025-03-26".to_owned()));

    let failed = parse_json_or_sse("{\"error\":{\"code\":-1}}").expect("json");
    assert_eq!(initialize_outcome(&failed), Err("initialize failed: {\"code\":-1}".to_owned()));

    let tools = parse_json_or_sse("{\"result\":{\"tools\":[{\"name\":\"a\"},{\"title\":\"x\"},{\"name\":\"b\"}]}}")
        .expect("json");
    assert_eq!(tools_list_outcome(&tools), Ok(vec!["a".to_owned(), "b".to_owned()]));
    assert!(tools_list_outcome(&plain).is_err());
}

#[test]
fn prepare_rejects_path_without_file_name() {
    let error = JunitExport::prepare("", false).expect_err("empty path");

    assert!(matches!(error, AppError::Validation(_)));
    assert_eq!(error.exit_code(), 2);
}

#[test]
fn command_deadline_interrupts_readiness_wait() {
    let mut state = ReadinessState::new(&endpoint_url(1), &Vec::new());

    let action = state.step(ReadinessEvent::Tick {
        interruption: Some("execution timeout expired before reaching a safe completion point".to_owned()),
        deadline_passed: false,
    });

    match action {
        ReadinessAction::Finish { close_session, outcome: Err(readiness) } => {
            assert!(!close_session);
            assert_eq!(
                readiness.message.as_deref(),
                Some("execution timeout expired before reaching a safe completion point while waiting for MCP readiness")
            );
        }
        other => panic!("unexpected {other:?}"),
    }
}

fn bootstrap_request(connection: &str) -> BootstrapRequest {
    BootstrapRequest {
        project_dir: "/work/project".to_owned(),
        connection: connection.to_owned(),
        platform_version: "8.3.27".to_owned(),
        platform_path: Some("/work/1cv8".to_owned()),
        user: None,
        password: None,
        source_dir: "src/configuration".to_owned(),
        force: false,
    }
}

const LOCAL_SCHEMA: &str =
    "https://raw.githubusercontent.com/alkoleft/v8-runner-rust/master/docs/schemas/v8project.local.schema.json";

#[test]
fn main_config_names_designer_layout_and_quoted_file_connection() {
    let request = bootstrap_request("File=/tmp/source ib");
    let paths = BootstrapPaths::new(&request.project_dir, &request.source_dir);

    let config = render_main_config(&paths, &request, "main-schema");

    assert!(config.starts_with("# yaml-language-server: $schema=main-schema\n"));
    assert!(config.contains("format: DESIGNER"));
    assert!(config.contains("builder: DESIGNER"));
    assert!(config.contains("connection: '/F \"/tmp/source ib\"'"));
    assert!(config.contains("path: 'src/configuration'"));
    assert!(config.contains("version: '8.3.27'"));
    assert!(!config.contains("platform_path"));
    assert!(!config.contains("/work/1cv8"));

    let quoted = bootstrap_request("File=\"/tmp/source ib\"");
    assert!(render_main_config(&paths, &quoted, "main-schema").contains("connection: '/F \"/tmp/source ib\"'"));

    let with_locale = bootstrap_request("File=/tmp/source-ib;Locale=ru");
    assert!(render_main_config(&paths, &with_locale, "main-schema").contains("connection: 'File=/tmp/source-ib;Locale=ru'"));
}

#[test]
fn credentials_go_to_local_overlay_only() {
    let mut request = bootstrap_request("File=/tmp/source-ib");
    request.user = Some("Admin".to_owned());
    request.password = Some("super-secret".to_owned());
    let paths = BootstrapPaths::new(&request.project_dir, &request.source_dir);

    let config = render_main_config(&paths, &request, "main-schema");
    assert!(!config.contains("Admin"));
    assert!(!config.contains("super-secret"));

    let local = render_local_config(&request, LOCAL_SCHEMA);
    assert!(local.starts_with(&format!("# yaml-language-server: $schema={LOCAL_SCHEMA}")));
    assert!(local.contains("user: 'Admin'"));
    assert!(local.contains("password: 'super-secret'"));
    assert!(local.contains("path: '/work/1cv8'"));

    let redacted = redact_message("failed: /N Admin /P super-secret", &request);
    assert_eq!(redacted, "failed: /N *** /P ***");
}

#[test]
fn preflight_reports_existing_targets_unless_forced() {
    let request = bootstrap_request("File=/tmp/source-ib");
    let paths = BootstrapPaths::new(&request.project_dir, &request.source_dir);
    assert_eq!(paths.config_path, "/work/project/v8project.yaml");
    assert_eq!(paths.source_dir, "/work/project/src/configuration");

    for existing in ["/work/project/v8project.yaml", "/work/project/v8project.local.yaml", "/work/project/src/configuration"] {
        let r = preflight_targets(&paths, false, &vec![existing.to_owned()]);
        match r {
            Err(AppError::Validation(m)) => assert!(m.contains("already exists") && m.contains(existing)),
            other => panic!("unexpected {other:?}"),
        }
        assert!(preflight_targets(&paths, true, &vec![existing.to_owned()]).is_ok());
    }
    assert!(preflight_targets(&paths, false, &Vec::new()).is_ok());
}

#[test]
fn command_and_process_interruptions_share_wording() {
    for (command, process) in [
        (ExecutionInterruption::Cancelled, ProcessInterruptionReason::Cancelled),
        (ExecutionInterruption::TimedOut, ProcessInterruptionReason::TimedOut),
    ] {
        assert_eq!(
            deferred_interruption_warning("load completed", command),
            deferred_process_interruption_message("load completed", process)
        );
    }
    assert_ne!(
        deferred_interruption_warning("x", ExecutionInterruption::Cancelled),
        deferred_interruption_warning("x", ExecutionInterruption::TimedOut)
    );
}
