//! The `launch` use case: which utility a launch mode needs, the command line
//! it is started with, and the result reported once it was spawned.
//!
//! Locating the utility goes through the verified locator; gathering the
//! file-system facts for it and spawning the process is done by the program
//! around the library, which hands the outcomes back here.

use vstd::prelude::*;

use crate::domain::launch::{LaunchMode, LaunchResult, PlatformResolution, PlatformResolutionSource};
use crate::platform::designer::{spec_designer_args, DesignerConnection};
use crate::platform::locator::{
    locator_error_text, platform_version_text, LocatorError, ResolutionSource, UtilityLocation,
    UtilityType, UtilityVersion,
};
use crate::platform::process::{process_error_text, strings_view, ProcessError, ProcessRequest, SpawnResult};
use crate::support::error::AppError;
use crate::support::text::{append_chars, append_str, chars_of, decimal, string_of, u64_decimal};

verus! {

/// Grace period used to detect an application that exits right after start.
pub const LAUNCH_STARTUP_PROBE_MS: u64 = 250;

/// Launch mode asked for on the command line.
#[derive(Debug, Clone, Copy, PartialEq, Eq, Structural)]
pub enum LaunchModeRequest {
    Designer,
    Thin,
    Thick,
}

/// Arguments of the `launch` use case.
#[derive(Debug, Clone, Copy, PartialEq, Eq, Structural)]
pub struct LaunchRequest {
    pub mode: LaunchModeRequest,
}

/// Launch mode reported, utility started and the platform's command-line mode.
pub open spec fn launch_target_spec(m: LaunchModeRequest) -> (LaunchMode, UtilityType, Seq<char>) {
    match m {
        LaunchModeRequest::Designer => (LaunchMode::Designer, UtilityType::V8, "DESIGNER"@),
        LaunchModeRequest::Thin => (LaunchMode::Thin, UtilityType::V8C, "ENTERPRISE"@),
        LaunchModeRequest::Thick => (LaunchMode::Thick, UtilityType::V8, "ENTERPRISE"@),
    }
}

/// The word a launch mode is shown with.
pub open spec fn mode_label_spec(m: LaunchModeRequest) -> Seq<char> {
    match m {
        LaunchModeRequest::Designer => "designer"@,
        LaunchModeRequest::Thin => "thin"@,
        LaunchModeRequest::Thick => "thick"@,
    }
}

/// The launch mode, the utility and the platform command-line mode of a request.
pub fn launch_target(mode: LaunchModeRequest) -> (r: (LaunchMode, UtilityType, &'static str))
    ensures
        (r.0, r.1, r.2@) == launch_target_spec(mode),
{
    proof {
        reveal_strlit("DESIGNER");
        reveal_strlit("ENTERPRISE");
    }
    match mode {
        LaunchModeRequest::Designer => (LaunchMode::Designer, UtilityType::V8, "DESIGNER"),
        LaunchModeRequest::Thin => (LaunchMode::Thin, UtilityType::V8C, "ENTERPRISE"),
        LaunchModeRequest::Thick => (LaunchMode::Thick, UtilityType::V8, "ENTERPRISE"),
    }
}

/// The word a launch mode is shown with in the summary.
pub fn mode_label(mode: LaunchModeRequest) -> (s: &'static str)
    ensures
        s@ == mode_label_spec(mode),
{
    proof {
        reveal_strlit("designer");
        reveal_strlit("thin");
        reveal_strlit("thick");
    }
    match mode {
        LaunchModeRequest::Designer => "designer",
        LaunchModeRequest::Thin => "thin",
        LaunchModeRequest::Thick => "thick",
    }
}

/// The platform's command-line mode, then the connection arguments.
pub open spec fn launch_args_spec(m: LaunchModeRequest, connection: DesignerConnection) -> Seq<Seq<char>> {
    seq![launch_target_spec(m).2] + spec_designer_args(connection)
}

/// The spawn request for a located utility: its path, the launch arguments and
/// the startup probe, with no working directory and no captured logs.
pub open spec fn launch_request_is(
    r: ProcessRequest,
    m: LaunchModeRequest,
    location: UtilityLocation,
    connection: DesignerConnection,
) -> bool {
    &&& r.program@ == location.path@
    &&& strings_view(r.args@) == launch_args_spec(m, connection)
    &&& r.workdir is None
    &&& r.stdout_log_path is None
    &&& r.stderr_log_path is None
    &&& r.startup_probe_ms == Some(LAUNCH_STARTUP_PROBE_MS)
}

/// What `launch` asks the process runner to start once the utility is known;
/// a failed search is a platform error carrying the locator's message.
pub fn plan_launch(
    args: &LaunchRequest,
    connection: &DesignerConnection,
    location: &Result<UtilityLocation, LocatorError>,
) -> (r: Result<ProcessRequest, AppError>)
    requires
        *location matches Err(e) ==> crate::platform::locator::locator_error_well_formed(e),
    ensures
        match *location {
            Ok(l) => r matches Ok(req) && launch_request_is(req, args.mode, l, *connection),
            Err(e) => r matches Err(AppError::Platform(m)) && m@ == locator_error_text(e),
        },
{
    match location {
        Ok(l) => {
            let (_, _, command_mode) = launch_target(args.mode);
            let mut process_args: Vec<String> = Vec::new();
            process_args.push(string_of(chars_of(command_mode).as_slice()));
            let conn = connection.args();
            let ghost head = strings_view(process_args@);
            let mut i: usize = 0;
            while i < conn.len()
                invariant
                    i <= conn@.len(),
                    head == seq![launch_target_spec(args.mode).2],
                    strings_view(process_args@) == head + strings_view(conn@).take(i as int),
                decreases conn@.len() - i,
            {
                let a = conn[i].clone();
                let ghost prev = process_args@;
                process_args.push(a);
                proof {
                    assert(strings_view(process_args@) =~= strings_view(prev).push(conn@[i as int]@));
                    assert(strings_view(conn@).take(i as int + 1) =~= strings_view(conn@).take(i as int).push(
                        conn@[i as int]@,
                    ));
                    assert(strings_view(process_args@) =~= head + strings_view(conn@).take(i as int + 1));
                }
                i = i + 1;
            }
            assert(strings_view(conn@).take(conn@.len() as int) =~= strings_view(conn@));
            Ok(ProcessRequest {
                program: l.path.clone(),
                args: process_args,
                workdir: None,
                stdout_log_path: None,
                stderr_log_path: None,
                startup_probe_ms: Some(LAUNCH_STARTUP_PROBE_MS),
            })
        },
        Err(e) => Err(AppError::Platform(e.message())),
    }
}

/// Resolution sources as the launch result names them.
pub open spec fn resolution_source_spec(s: ResolutionSource) -> PlatformResolutionSource {
    match s {
        ResolutionSource::Explicit => PlatformResolutionSource::Explicit,
        ResolutionSource::DefaultRoot => PlatformResolutionSource::DefaultRoot,
        ResolutionSource::Path => PlatformResolutionSource::Path,
    }
}

/// The installation metadata of a location: path, platform version text,
/// source and installation root.
pub fn platform_resolution(location: &UtilityLocation) -> (p: PlatformResolution)
    ensures
        p.path@ == location.path@,
        p.installation_root@ == location.installation_root@,
        p.source == resolution_source_spec(location.source),
        match location.version {
            Some(UtilityVersion::Platform(v)) => p.version matches Some(t) && t@ == platform_version_text(v),
            _ => p.version is None,
        },
{
    let version = match &location.version {
        Some(UtilityVersion::Platform(v)) => Some(v.to_string()),
        _ => None,
    };
    let source = match location.source {
        ResolutionSource::Explicit => PlatformResolutionSource::Explicit,
        ResolutionSource::DefaultRoot => PlatformResolutionSource::DefaultRoot,
        ResolutionSource::Path => PlatformResolutionSource::Path,
    };
    PlatformResolution {
        path: location.path.clone(),
        version,
        source,
        installation_root: location.installation_root.clone(),
    }
}

/// `Launched <mode> via <binary> (pid <pid>)`.
pub open spec fn launch_message_spec(m: LaunchModeRequest, binary: Seq<char>, pid: u32) -> Seq<char> {
    "Launched "@ + mode_label_spec(m) + " via "@ + binary + " (pid "@ + decimal(pid as nat) + ")"@
}

/// The `launch` result once the spawn was tried: a platform error carrying the
/// runner's message, or a successful result naming the mode, the process and
/// the installation it came from.
pub fn execute(
    args: &LaunchRequest,
    location: &UtilityLocation,
    spawned: Result<SpawnResult, ProcessError>,
) -> (r: Result<LaunchResult, AppError>)
    ensures
        match spawned {
            Err(e) => r matches Err(AppError::Platform(m)) && m@ == process_error_text(e),
            Ok(s) => r matches Ok(res) && {
                &&& res.ok
                &&& res.mode == launch_target_spec(args.mode).0
                &&& res.pid == Some(s.pid)
                &&& res.binary@ == s.binary@
                &&& res.platform_resolution.path@ == location.path@
                &&& res.platform_resolution.installation_root@ == location.installation_root@
                &&& res.platform_resolution.source == resolution_source_spec(location.source)
                &&& (res.message matches Some(msg) && msg@ == launch_message_spec(args.mode, s.binary@, s.pid))
                &&& res.mcp_readiness is None
                &&& res.external_epf_wait is None
            },
        },
{
    match spawned {
        Err(e) => Err(AppError::Platform(e.message())),
        Ok(s) => {
            let (mode, _, _) = launch_target(args.mode);
            let mut msg: Vec<char> = Vec::new();
            append_str(&mut msg, "Launched ");
            append_str(&mut msg, mode_label(args.mode));
            append_str(&mut msg, " via ");
            let b = chars_of(s.binary.as_str());
            append_chars(&mut msg, b.as_slice());
            append_str(&mut msg, " (pid ");
            let digits = u64_decimal(s.pid as u64);
            append_chars(&mut msg, digits.as_slice());
            append_str(&mut msg, ")");
            proof {
                reveal_strlit("Launched ");
                reveal_strlit(" via ");
                reveal_strlit(" (pid ");
                reveal_strlit(")");
            }
            assert(msg@ =~= launch_message_spec(args.mode, s.binary@, s.pid));
            let message = string_of(msg.as_slice());
            let pid = s.pid;
            Ok(LaunchResult {
                ok: true,
                mode,
                pid: Some(pid),
                binary: s.binary,
                platform_resolution: platform_resolution(location),
                message: Some(message),
                mcp_readiness: None,
                external_epf_wait: None,
            })
        },
    }
}

} // verus!
