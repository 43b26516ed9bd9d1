//! Process execution vocabulary and the decisions the process runner makes:
//! how a command line is shown, when a spawn is retried, what an observed
//! interruption turns into, and when a managed wait ends.
//!
//! Starting, polling and killing operating-system processes is done by the
//! program around the library, which asks these functions what to do next.

use vstd::prelude::*;

use crate::support::text::{
    append_chars, append_str, chars_eq_ignore_ascii_case, chars_of, decimal, eq_ignore_ascii_case,
    join_with, signed_decimal, string_of, u64_decimal, views_of,
};

verus! {

/// How many times a spawn is retried when the executable is busy.
pub const EXECUTABLE_BUSY_MAX_RETRIES: usize = 5;

/// Pause between spawn retries, in milliseconds.
pub const EXECUTABLE_BUSY_RETRY_DELAY_MS: u64 = 10;

/// Windows `ERROR_INVALID_HANDLE`.
pub const WINDOWS_ERROR_INVALID_HANDLE: i32 = 6;

/// Request for launching an external utility.
#[derive(Debug, Clone, PartialEq, Eq)]
pub struct ProcessRequest {
    /// Absolute path to the executable to run.
    pub program: String,
    /// Command-line arguments passed to the executable.
    pub args: Vec<String>,
    /// Optional working directory for the child process.
    pub workdir: Option<String>,
    /// Optional path where runner-captured stdout is mirrored.
    pub stdout_log_path: Option<String>,
    /// Optional path where runner-captured stderr is mirrored.
    pub stderr_log_path: Option<String>,
    /// Optional grace period, in milliseconds, used to detect immediate startup failures.
    pub startup_probe_ms: Option<u64>,
}

/// Result of a completed run.
#[derive(Debug, Clone, PartialEq, Eq)]
pub struct ProcessResult {
    /// Child exit code (`-1` when the child was ended by a signal).
    pub exit_code: i32,
    /// Captured stdout as UTF-8 (lossy-decoded).
    pub stdout: String,
    /// Captured stderr as UTF-8 (lossy-decoded).
    pub stderr: String,
    /// Command-boundary interruption observed while the child was running.
    pub interruption: Option<ProcessInterruption>,
}

impl ProcessResult {
    /// The child exited with code zero.
    pub fn success(&self) -> (b: bool)
        ensures
            b == (self.exit_code == 0),
    {
        self.exit_code == 0
    }
}

/// Result of a detached spawn.
#[derive(Debug, Clone, PartialEq, Eq)]
pub struct SpawnResult {
    /// Operating system process identifier.
    pub pid: u32,
    /// Binary that was used to start the process.
    pub binary: String,
}

/// Managed spawn lifecycle behaviour used by current callers.
#[derive(Debug, Clone, Copy, PartialEq, Eq, Structural)]
pub enum ManagedSpawnMode {
    Detached,
    Wait,
}

/// Terminal state returned by an explicitly managed wait boundary.
#[derive(Debug, Clone, Copy, PartialEq, Eq, Structural)]
pub struct ManagedProcessOutcome {
    pub exit_code: Option<i32>,
    pub timed_out: bool,
}

/// Safety class applied by the process runner when interruption arrives mid-flight.
#[derive(Debug, Clone, Copy, PartialEq, Eq, Structural)]
pub enum ProcessInterruptionSafety {
    Interruptible,
    GracefulThenKill,
    CriticalNonAbortable,
}

/// Normalized interruption reason shared across timeout and cancellation paths.
#[derive(Debug, Clone, Copy, PartialEq, Eq, Structural)]
pub enum ProcessInterruptionReason {
    Cancelled,
    TimedOut,
}

/// How the runner handled the interruption after it arrived.
#[derive(Debug, Clone, Copy, PartialEq, Eq, Structural)]
pub enum ProcessInterruptionAction {
    Deferred,
}

/// Metadata preserved when the runner observes interruption during process execution.
#[derive(Debug, Clone, Copy, PartialEq, Eq, Structural)]
pub struct ProcessInterruption {
    pub reason: ProcessInterruptionReason,
    pub action: ProcessInterruptionAction,
}

/// How stdin/stdout/stderr of a child are wired.
#[derive(Debug, Clone, Copy, PartialEq, Eq, Structural)]
pub enum ProcessIoMode {
    /// Fire and forget, output discarded.
    Detached,
    /// Own process group, output discarded, caller may still terminate it.
    ManagedDetached,
    /// Own process group, stderr to a log file, caller waits for it.
    ManagedWait,
    /// Own process group, output captured.
    Captured,
}

impl ProcessIoMode {
    /// Detached children must not inherit the runner's standard handles.
    pub fn requires_standard_handle_isolation(self) -> (b: bool)
        ensures
            b == (self == ProcessIoMode::Detached || self == ProcessIoMode::ManagedDetached),
    {
        matches!(self, Self::Detached | Self::ManagedDetached)
    }

    /// Managed children run in a process group that is cleaned up as a whole.
    pub fn is_managed(self) -> (b: bool)
        ensures
            b == (self == ProcessIoMode::ManagedDetached || self == ProcessIoMode::ManagedWait),
    {
        matches!(self, Self::ManagedDetached | Self::ManagedWait)
    }
}

/// Whether an OS error code from clearing handle inheritance is the one
/// that means the standard handle is not valid (and can be skipped).
pub fn is_invalid_standard_handle_error(raw_os_error: Option<i32>) -> (b: bool)
    ensures
        b == (raw_os_error == Some(WINDOWS_ERROR_INVALID_HANDLE)),
{
    match raw_os_error {
        Some(code) => code == WINDOWS_ERROR_INVALID_HANDLE,
        None => false,
    }
}

/// Runner-level process execution failures. Outside errors are carried as
/// their messages.
#[derive(Debug, PartialEq, Eq)]
pub enum ProcessError {
    SpawnFailed { cmd: String, source: String },
    StartupCheckFailed { cmd: String, source: String },
    ExitedEarly { cmd: String, exit_code: i32 },
    TerminationFailed { cmd: String, source: String },
    TimedOutCleanupFailed { cmd: String, timeout_ms: u64, source: Box<ProcessError> },
    StdoutLogIo { path: String, source: String },
    StderrLogIo { path: String, source: String },
    Cancelled { cmd: String },
    TimedOut { cmd: String, timeout_ms: u64 },
    ManagedSpawnUnsupported { cmd: String },
}

/// The text of a process error.
pub open spec fn process_error_text(e: ProcessError) -> Seq<char>
    decreases e,
{
    match e {
        ProcessError::SpawnFailed { cmd, source } => "failed to spawn process '"@ + cmd@ + "': "@
            + source@,
        ProcessError::StartupCheckFailed { cmd, source } => "failed to observe process startup '"@
            + cmd@ + "': "@ + source@,
        ProcessError::ExitedEarly { cmd, exit_code } => "process exited before startup completed '"@
            + cmd@ + "' (exit "@ + signed_decimal(exit_code as int) + ")"@,
        ProcessError::TerminationFailed { cmd, source } => "failed to terminate process tree '"@
            + cmd@ + "': "@ + source@,
        ProcessError::TimedOutCleanupFailed { cmd, timeout_ms, source } => "process timed out '"@
            + cmd@ + "' after "@ + decimal(timeout_ms as nat) + "ms; cleanup failed: "@
            + process_error_text(*source),
        ProcessError::StdoutLogIo { path, source } => "failed to write stdout log '"@ + path@
            + "': "@ + source@,
        ProcessError::StderrLogIo { path, source } => "failed to write stderr log '"@ + path@
            + "': "@ + source@,
        ProcessError::Cancelled { cmd } => "process cancelled '"@ + cmd@
            + "' before reaching a safe completion point"@,
        ProcessError::TimedOut { cmd, timeout_ms } => "process timed out '"@ + cmd@ + "' after "@
            + decimal(timeout_ms as nat) + "ms"@,
        ProcessError::ManagedSpawnUnsupported { cmd } => "managed process spawn is not supported for '"@
            + cmd@ + "'"@,
    }
}

/// Appends a string to a character vector.
fn push3(out: &mut Vec<char>, a: &str, b: &str, c: &str)
    ensures
        final(out)@ == old(out)@ + a@ + b@ + c@,
{
    append_str(out, a);
    append_str(out, b);
    append_str(out, c);
}

impl ProcessError {
    /// Timeouts, including a timeout whose cleanup failed, are timeouts.
    pub fn timed_out(&self) -> (b: bool)
        ensures
            b == (self is TimedOut || self is TimedOutCleanupFailed),
    {
        match self {
            Self::TimedOut { .. } | Self::TimedOutCleanupFailed { .. } => true,
            Self::SpawnFailed { .. }
            | Self::StartupCheckFailed { .. }
            | Self::ExitedEarly { .. }
            | Self::TerminationFailed { .. }
            | Self::StdoutLogIo { .. }
            | Self::StderrLogIo { .. }
            | Self::Cancelled { .. }
            | Self::ManagedSpawnUnsupported { .. } => false,
        }
    }

    /// Human-readable message of the error.
    pub fn message(&self) -> (m: String)
        ensures
            m@ == process_error_text(*self),
        decreases self,
    {
        let mut out: Vec<char> = Vec::new();
        match self {
            Self::SpawnFailed { cmd, source } => {
                push3(&mut out, "failed to spawn process '", cmd.as_str(), "': ");
                append_str(&mut out, source.as_str());
            },
            Self::StartupCheckFailed { cmd, source } => {
                push3(&mut out, "failed to observe process startup '", cmd.as_str(), "': ");
                append_str(&mut out, source.as_str());
            },
            Self::ExitedEarly { cmd, exit_code } => {
                push3(&mut out, "process exited before startup completed '", cmd.as_str(), "' (exit ");
                let code = crate::support::text::i64_to_string(*exit_code as i64);
                append_str(&mut out, code.as_str());
                append_str(&mut out, ")");
            },
            Self::TerminationFailed { cmd, source } => {
                push3(&mut out, "failed to terminate process tree '", cmd.as_str(), "': ");
                append_str(&mut out, source.as_str());
            },
            Self::TimedOutCleanupFailed { cmd, timeout_ms, source } => {
                push3(&mut out, "process timed out '", cmd.as_str(), "' after ");
                let ms = u64_decimal(*timeout_ms);
                append_chars(&mut out, ms.as_slice());
                append_str(&mut out, "ms; cleanup failed: ");
                let inner = source.message();
                append_str(&mut out, inner.as_str());
            },
            Self::StdoutLogIo { path, source } => {
                push3(&mut out, "failed to write stdout log '", path.as_str(), "': ");
                append_str(&mut out, source.as_str());
            },
            Self::StderrLogIo { path, source } => {
                push3(&mut out, "failed to write stderr log '", path.as_str(), "': ");
                append_str(&mut out, source.as_str());
            },
            Self::Cancelled { cmd } => {
                push3(
                    &mut out,
                    "process cancelled '",
                    cmd.as_str(),
                    "' before reaching a safe completion point",
                );
            },
            Self::TimedOut { cmd, timeout_ms } => {
                push3(&mut out, "process timed out '", cmd.as_str(), "' after ");
                let ms = u64_decimal(*timeout_ms);
                append_chars(&mut out, ms.as_slice());
                append_str(&mut out, "ms");
            },
            Self::ManagedSpawnUnsupported { cmd } => {
                push3(&mut out, "managed process spawn is not supported for '", cmd.as_str(), "'");
            },
        }
        string_of(out.as_slice())
    }
}

/// Flags whose next argument is a credential.
pub open spec fn sensitive_flags() -> Seq<Seq<char>> {
    seq![
        "/N"@,
        "-N"@,
        "/P"@,
        "-P"@,
        "--user"@,
        "--database-user"@,
        "--db-user"@,
        "--target-database-user"@,
        "--target-db-user"@,
        "--password"@,
        "--database-password"@,
        "--db-pwd"@,
        "--target-database-password"@,
        "--target-db-pwd"@,
    ]
}

/// `arg` is one of the sensitive flags, ignoring ASCII case.
pub open spec fn is_sensitive(arg: Seq<char>) -> bool {
    exists|i: int| 0 <= i < sensitive_flags().len() && eq_ignore_ascii_case(arg, #[trigger] sensitive_flags()[i])
}

/// Position of the first `=` in `s`, if any.
pub open spec fn first_eq(s: Seq<char>) -> Option<int>
    decreases s.len(),
{
    if s.len() == 0 {
        None
    } else if s[0] == '=' {
        Some(0)
    } else {
        match first_eq(s.drop_first()) {
            Some(i) => Some(i + 1),
            None => None,
        }
    }
}

/// The key of a `KEY=VALUE` argument whose key is a sensitive flag.
pub open spec fn sensitive_key(arg: Seq<char>) -> Option<Seq<char>> {
    match first_eq(arg) {
        Some(k) => if is_sensitive(arg.take(k)) {
            Some(arg.take(k))
        } else {
            None
        },
        None => None,
    }
}

/// The arguments as shown in logs: the value after a sensitive flag and the
/// value of a sensitive `KEY=VALUE` are replaced by `***`.
pub open spec fn masked_args(args: Seq<Seq<char>>, skip: bool) -> Seq<Seq<char>>
    decreases args.len(),
{
    if args.len() == 0 {
        Seq::<Seq<char>>::empty()
    } else {
        let a = args[0];
        let rest = args.drop_first();
        if skip {
            seq!["***"@] + masked_args(rest, false)
        } else if is_sensitive(a) {
            seq![a] + masked_args(rest, true)
        } else if sensitive_key(a) is Some {
            seq![sensitive_key(a)->0 + "=***"@] + masked_args(rest, false)
        } else {
            seq![a] + masked_args(rest, false)
        }
    }
}

/// The command line shown in logs and errors.
pub open spec fn rendered_command(program: Seq<char>, args: Seq<Seq<char>>) -> Seq<char> {
    join_with(seq![program] + masked_args(args, false), " "@)
}

/// The strings held by a vector of strings.
pub open spec fn strings_view(v: Seq<String>) -> Seq<Seq<char>> {
    v.map_values(|s: String| s@)
}

/// Whether `arg` is a sensitive flag.
pub fn is_sensitive_flag(arg: &[char]) -> (b: bool)
    ensures
        b == is_sensitive(arg@),
{
    let flags: [&str; 14] = [
        "/N",
        "-N",
        "/P",
        "-P",
        "--user",
        "--database-user",
        "--db-user",
        "--target-database-user",
        "--target-db-user",
        "--password",
        "--database-password",
        "--db-pwd",
        "--target-database-password",
        "--target-db-pwd",
    ];
    assert(flags@.map_values(|f: &str| f@) =~= sensitive_flags());
    let mut i: usize = 0;
    while i < 14
        invariant
            i <= 14,
            flags@.map_values(|f: &str| f@) == sensitive_flags(),
            forall|j: int| 0 <= j < i ==> !eq_ignore_ascii_case(arg@, #[trigger] sensitive_flags()[j]),
        decreases 14 - i,
    {
        let f = chars_of(flags[i]);
        assert(f@ == sensitive_flags()[i as int]);
        if chars_eq_ignore_ascii_case(arg, f.as_slice()) {
            return true;
        }
        i += 1;
    }
    false
}

/// Position of the first `=`.
pub fn find_eq(s: &[char]) -> (r: Option<usize>)
    ensures
        match r {
            Some(i) => first_eq(s@) == Some(i as int) && i < s@.len() && s@[i as int] == '=',
            None => first_eq(s@) is None,
        },
{
    let mut i: usize = s.len();
    let mut found: Option<usize> = None;
    assert(s@.skip(s@.len() as int) =~= Seq::<char>::empty());
    while i > 0
        invariant
            i <= s@.len(),
            match found {
                Some(k) => i <= k && first_eq(s@.skip(i as int)) == Some(k - i),
                None => first_eq(s@.skip(i as int)) is None,
            },
        decreases i,
    {
        i -= 1;
        assert(s@.skip(i as int).drop_first() =~= s@.skip(i + 1));
        if s[i] == '=' {
            found = Some(i);
        }
    }
    assert(s@.skip(0) =~= s@);
    proof {
        lemma_first_eq(s@);
    }
    found
}

proof fn lemma_first_eq(s: Seq<char>)
    ensures
        first_eq(s) matches Some(i) ==> 0 <= i < s.len() && s[i] == '=',
    decreases s.len(),
{
    if s.len() > 0 && s[0] != '=' {
        lemma_first_eq(s.drop_first());
    }
}

/// The key of a sensitive `KEY=VALUE` argument.
pub fn split_sensitive_assignment(arg: &[char]) -> (r: Option<Vec<char>>)
    ensures
        match r {
            Some(k) => sensitive_key(arg@) == Some(k@),
            None => sensitive_key(arg@) is None,
        },
{
    match find_eq(arg) {
        Some(k) => {
            proof {
                lemma_first_eq(arg@);
            }
            let key = crate::support::text::slice_chars(arg, 0, k);
            assert(key@ =~= arg@.take(k as int));
            if is_sensitive_flag(key.as_slice()) {
                Some(key)
            } else {
                None
            }
        },
        None => None,
    }
}

/// The command line of a request as shown in logs, with credentials masked.
pub fn render_command(request: &ProcessRequest) -> (out: String)
    ensures
        out@ == rendered_command(request.program@, strings_view(request.args@)),
{
    let ghost args = strings_view(request.args@);
    let mut parts: Vec<Vec<char>> = Vec::new();
    parts.push(chars_of(request.program.as_str()));
    let mut skip = false;
    let mut i: usize = 0;
    assert(args.skip(0) =~= args);
    while i < request.args.len()
        invariant
            i <= request.args@.len(),
            args == strings_view(request.args@),
            views_of(parts@) + masked_args(args.skip(i as int), skip) == seq![request.program@]
                + masked_args(args, false),
        decreases request.args@.len() - i,
    {
        let ghost before = views_of(parts@);
        let ghost t = args.skip(i as int);
        assert(t.drop_first() =~= args.skip(i + 1));
        let a = chars_of(request.args[i].as_str());
        assert(a@ == t[0]);
        let ghost skip0 = skip;
        if skip {
            parts.push(chars_of("***"));
            skip = false;
        } else if is_sensitive_flag(a.as_slice()) {
            parts.push(a);
            skip = true;
        } else {
            match split_sensitive_assignment(a.as_slice()) {
                Some(key) => {
                    let mut shown = key;
                    append_str(&mut shown, "=***");
                    parts.push(shown);
                },
                None => {
                    parts.push(a);
                },
            }
        }
        assert(masked_args(t, skip0) == seq![views_of(parts@).last()] + masked_args(args.skip(i + 1), skip));
        assert(views_of(parts@) =~= before.push(views_of(parts@).last()));
        assert(views_of(parts@) + masked_args(args.skip(i + 1), skip) =~= before + masked_args(t, skip0));
        i += 1;
    }
    assert(args.skip(request.args@.len() as int) =~= Seq::<Seq<char>>::empty());
    assert(views_of(parts@) + Seq::<Seq<char>>::empty() =~= views_of(parts@));
    let mut strs: Vec<String> = Vec::new();
    let mut k: usize = 0;
    while k < parts.len()
        invariant
            k <= parts@.len(),
            strs@.len() == k,
            strings_view(strs@) == views_of(parts@).take(k as int),
        decreases parts@.len() - k,
    {
        let st = string_of(parts[k].as_slice());
        assert(st@ == views_of(parts@)[k as int]);
        let ghost before = strs@;
        strs.push(st);
        assert(strs@ == before.push(st));
        assert forall|j: int| 0 <= j <= k implies #[trigger] strings_view(strs@)[j] == views_of(parts@).take(k + 1)[j] by {
            if j < k {
                assert(strings_view(strs@)[j] == strs@[j]@);
                assert(strs@[j] == before[j]);
                assert(strings_view(before)[j] == before[j]@);
            }
        }
        assert(strings_view(strs@) =~= views_of(parts@).take(k + 1));
        k += 1;
    }
    assert(views_of(parts@).take(parts@.len() as int) =~= views_of(parts@));
    let out = crate::support::text::join_strings(&strs, " ");
    assert(strs.deep_view() =~= strings_view(strs@));
    out
}

/// The error reported for an interruption that ended the child.
pub open spec fn spec_error_from_reason(
    cmd: Seq<char>,
    timeout_ms: Option<u64>,
    reason: ProcessInterruptionReason,
    e: ProcessError,
) -> bool {
    match reason {
        ProcessInterruptionReason::Cancelled => e matches ProcessError::Cancelled { cmd: c } && c@
            == cmd,
        ProcessInterruptionReason::TimedOut => e matches ProcessError::TimedOut {
            cmd: c,
            timeout_ms: t,
        } && c@ == cmd && t == (match timeout_ms {
            Some(ms) => ms,
            None => 0,
        }),
    }
}

/// The error for an interruption that ended the child; a missing timeout
/// reads as zero.
pub fn process_error_from_reason(
    rendered_command: &str,
    timeout_ms: Option<u64>,
    reason: ProcessInterruptionReason,
) -> (e: ProcessError)
    ensures
        spec_error_from_reason(rendered_command@, timeout_ms, reason, e),
{
    let cmd = rendered_command.to_owned();
    match reason {
        ProcessInterruptionReason::Cancelled => ProcessError::Cancelled { cmd },
        ProcessInterruptionReason::TimedOut => ProcessError::TimedOut {
            cmd,
            timeout_ms: match timeout_ms {
                Some(ms) => ms,
                None => 0,
            },
        },
    }
}

/// Checked before a captured run starts: a cancelled request or a zero
/// timeout ends the run before any child is spawned.
pub fn run_precheck(rendered_command: &str, cancelled: bool, timeout_ms: Option<u64>) -> (r: Option<
    ProcessError,
>)
    ensures
        cancelled ==> (r matches Some(ProcessError::Cancelled { cmd }) && cmd@ == rendered_command@),
        !cancelled && timeout_ms == Some(0u64) ==> (r matches Some(
            ProcessError::TimedOut { cmd, timeout_ms: 0 },
        ) && cmd@ == rendered_command@),
        !cancelled && timeout_ms != Some(0u64) ==> r is None,
{
    if cancelled {
        return Some(ProcessError::Cancelled { cmd: rendered_command.to_owned() });
    }
    match timeout_ms {
        Some(0) => Some(ProcessError::TimedOut { cmd: rendered_command.to_owned(), timeout_ms: 0 }),
        _ => None,
    }
}

/// What the runner does to a child when an interruption arrives.
#[derive(Debug, Clone, Copy, PartialEq, Eq, Structural)]
pub enum InterruptionResponse {
    /// Let the child finish; the interruption is recorded as deferred.
    WaitForExit,
    /// Terminate the process group, waiting this long for a graceful exit.
    Terminate { grace_ms: u64 },
}

/// Critical phases are never aborted; interruptible ones are killed at once;
/// the rest get the configured grace period.
pub fn interruption_response(safety: ProcessInterruptionSafety, graceful_shutdown_ms: u64) -> (r:
    InterruptionResponse)
    ensures
        r == (match safety {
            ProcessInterruptionSafety::CriticalNonAbortable => InterruptionResponse::WaitForExit,
            ProcessInterruptionSafety::Interruptible => InterruptionResponse::Terminate {
                grace_ms: 0,
            },
            ProcessInterruptionSafety::GracefulThenKill => InterruptionResponse::Terminate {
                grace_ms: graceful_shutdown_ms,
            },
        }),
{
    match safety {
        ProcessInterruptionSafety::CriticalNonAbortable => InterruptionResponse::WaitForExit,
        ProcessInterruptionSafety::Interruptible => InterruptionResponse::Terminate { grace_ms: 0 },
        ProcessInterruptionSafety::GracefulThenKill => InterruptionResponse::Terminate {
            grace_ms: graceful_shutdown_ms,
        },
    }
}

/// The interruption newly observed while polling a running child: none if
/// one was already observed, else cancellation before timeout.
pub fn observe_interruption(
    already: Option<ProcessInterruptionReason>,
    cancelled: bool,
    elapsed_ms: u64,
    timeout_ms: Option<u64>,
) -> (r: Option<ProcessInterruptionReason>)
    ensures
        r == (if already is Some {
            None
        } else if cancelled {
            Some(ProcessInterruptionReason::Cancelled)
        } else if timeout_ms matches Some(limit) && elapsed_ms >= limit {
            Some(ProcessInterruptionReason::TimedOut)
        } else {
            None
        }),
{
    if already.is_some() {
        return None;
    }
    if cancelled {
        return Some(ProcessInterruptionReason::Cancelled);
    }
    match timeout_ms {
        Some(limit) => if elapsed_ms >= limit {
            Some(ProcessInterruptionReason::TimedOut)
        } else {
            None
        },
        None => None,
    }
}

/// What a finished captured run reports, given the interruption observed
/// while it ran: outside critical phases an interruption is an error; in a
/// critical phase it is recorded as deferred next to the normal result.
pub fn finished_run_outcome(
    rendered_command: &str,
    observed: Option<ProcessInterruptionReason>,
    safety: ProcessInterruptionSafety,
    timeout_ms: Option<u64>,
) -> (r: Result<Option<ProcessInterruption>, ProcessError>)
    ensures
        match observed {
            None => r == Ok::<Option<ProcessInterruption>, ProcessError>(None),
            Some(reason) => if safety == ProcessInterruptionSafety::CriticalNonAbortable {
                r == Ok::<Option<ProcessInterruption>, ProcessError>(
                    Some(
                        ProcessInterruption { reason, action: ProcessInterruptionAction::Deferred },
                    ),
                )
            } else {
                r matches Err(e) && spec_error_from_reason(
                    rendered_command@,
                    timeout_ms,
                    reason,
                    e,
                )
            },
        },
{
    match observed {
        None => Ok(None),
        Some(reason) => {
            if safety == ProcessInterruptionSafety::CriticalNonAbortable {
                Ok(Some(ProcessInterruption { reason, action: ProcessInterruptionAction::Deferred }))
            } else {
                Err(process_error_from_reason(rendered_command, timeout_ms, reason))
            }
        },
    }
}

/// A spawn that failed because the executable was busy is retried until the
/// retry budget is spent.
pub fn should_retry_spawn(attempt: usize, executable_busy: bool) -> (b: bool)
    ensures
        b == (executable_busy && attempt < EXECUTABLE_BUSY_MAX_RETRIES),
{
    executable_busy && attempt < EXECUTABLE_BUSY_MAX_RETRIES
}

/// After the startup probe: a child that already exited is an early exit.
pub fn startup_probe_error(rendered_command: &str, exited_with: Option<i32>) -> (r: Option<
    ProcessError,
>)
    ensures
        match exited_with {
            Some(code) => r matches Some(ProcessError::ExitedEarly { cmd, exit_code }) && cmd@
                == rendered_command@ && exit_code == code,
            None => r is None,
        },
{
    match exited_with {
        Some(code) => Some(ProcessError::ExitedEarly { cmd: rendered_command.to_owned(), exit_code: code }),
        None => None,
    }
}

/// Next move of a managed wait after one poll.
#[derive(Debug, Clone, Copy, PartialEq, Eq, Structural)]
pub enum ManagedWaitStep {
    /// The child exited with this code.
    Exited(i32),
    /// Cancellation arrived: terminate the group, then report cancellation.
    Cancel,
    /// The deadline passed: terminate the group, then report a timeout.
    TimeOut,
    /// Keep waiting.
    Continue,
}

/// Decides a managed wait from one poll: exit wins, then cancellation, then
/// the deadline.
pub fn managed_wait_step(
    exited_with: Option<i32>,
    cancelled: bool,
    elapsed_ms: u64,
    timeout_ms: Option<u64>,
) -> (r: ManagedWaitStep)
    ensures
        r == (if exited_with is Some {
            ManagedWaitStep::Exited(exited_with->0)
        } else if cancelled {
            ManagedWaitStep::Cancel
        } else if timeout_ms matches Some(limit) && elapsed_ms >= limit {
            ManagedWaitStep::TimeOut
        } else {
            ManagedWaitStep::Continue
        }),
{
    if let Some(code) = exited_with {
        return ManagedWaitStep::Exited(code);
    }
    if cancelled {
        return ManagedWaitStep::Cancel;
    }
    match timeout_ms {
        Some(limit) => if elapsed_ms >= limit {
            ManagedWaitStep::TimeOut
        } else {
            ManagedWaitStep::Continue
        },
        None => ManagedWaitStep::Continue,
    }
}

/// Outcome of a managed wait whose child exited or timed out with cleanup done.
pub fn managed_outcome(step: ManagedWaitStep) -> (r: Option<ManagedProcessOutcome>)
    ensures
        r == (match step {
            ManagedWaitStep::Exited(code) => Some(
                ManagedProcessOutcome { exit_code: Some(code), timed_out: false },
            ),
            ManagedWaitStep::TimeOut => Some(ManagedProcessOutcome { exit_code: None, timed_out: true }),
            _ => None,
        }),
{
    match step {
        ManagedWaitStep::Exited(code) => Some(
            ManagedProcessOutcome { exit_code: Some(code), timed_out: false },
        ),
        ManagedWaitStep::TimeOut => Some(ManagedProcessOutcome { exit_code: None, timed_out: true }),
        _ => None,
    }
}

/// The result of a managed wait that terminated the process group after a
/// cancellation (`timed_out` false) or a timeout (`timed_out` true), given
/// how the termination went. A failed termination after a cancellation is
/// reported as it is; after a timeout it is wrapped in a timeout whose
/// cleanup failed, carrying the limit (0 when there was none).
pub fn managed_stop_result(
    timed_out: bool,
    cmd: &str,
    timeout_ms: Option<u64>,
    cleanup: Result<(), ProcessError>,
) -> (r: Result<ManagedProcessOutcome, ProcessError>)
    ensures
        !timed_out ==> match cleanup {
            Err(e) => r == Err::<ManagedProcessOutcome, ProcessError>(e),
            Ok(_) => r matches Err(ProcessError::Cancelled { cmd: c }) && c@ == cmd@,
        },
        timed_out ==> match cleanup {
            Err(e) => r matches Err(ProcessError::TimedOutCleanupFailed { cmd: c, timeout_ms: t, source })
                && c@ == cmd@ && t == (match timeout_ms {
                Some(v) => v,
                None => 0u64,
            }) && *source == e,
            Ok(_) => r == Ok::<ManagedProcessOutcome, ProcessError>(
                ManagedProcessOutcome { exit_code: None, timed_out: true },
            ),
        },
{
    if !timed_out {
        match cleanup {
            Err(e) => Err(e),
            Ok(()) => Err(ProcessError::Cancelled { cmd: cmd.to_owned() }),
        }
    } else {
        match cleanup {
            Err(e) => {
                let limit: u64 = match timeout_ms {
                    Some(v) => v,
                    None => 0,
                };
                Err(ProcessError::TimedOutCleanupFailed { cmd: cmd.to_owned(), timeout_ms: limit, source: Box::new(e) })
            },
            Ok(()) => Ok(ManagedProcessOutcome { exit_code: None, timed_out: true }),
        }
    }
}

/// A failure to observe a child, given how the termination that follows
/// went: a failed termination turns it into a termination failure naming
/// both causes after `lead`, otherwise it is a failure to observe the process.
fn observe_failure(cmd: &str, lead: &str, source: &str, cleanup: Result<(), ProcessError>) -> (r: ProcessError)
    ensures
        match cleanup {
            Ok(_) => r matches ProcessError::StartupCheckFailed { cmd: c, source: s } && c@ == cmd@
                && s@ == source@,
            Err(e) => r matches ProcessError::TerminationFailed { cmd: c, source: s } && c@ == cmd@
                && s@ == lead@ + source@ + "; cleanup also failed: "@ + process_error_text(e),
        },
{
    match cleanup {
        Ok(()) => ProcessError::StartupCheckFailed { cmd: cmd.to_owned(), source: source.to_owned() },
        Err(e) => {
            let mut out: Vec<char> = Vec::new();
            push3(&mut out, lead, source, "; cleanup also failed: ");
            let m = e.message();
            append_str(&mut out, m.as_str());
            ProcessError::TerminationFailed { cmd: cmd.to_owned(), source: string_of(&out) }
        },
    }
}

/// The error of a managed wait whose poll of the child failed, given how the
/// termination that follows went: a failed termination turns it into a
/// termination failure that names both causes, otherwise it is a failure to
/// observe the process.
pub fn poll_failure_error(cmd: &str, source: &str, cleanup: Result<(), ProcessError>) -> (r: ProcessError)
    ensures
        match cleanup {
            Ok(_) => r matches ProcessError::StartupCheckFailed { cmd: c, source: s } && c@ == cmd@
                && s@ == source@,
            Err(e) => r matches ProcessError::TerminationFailed { cmd: c, source: s } && c@ == cmd@
                && s@ == "failed to observe process: "@ + source@ + "; cleanup also failed: "@
                + process_error_text(e),
        },
{
    observe_failure(cmd, "failed to observe process: ", source, cleanup)
}

/// The error of a startup probe whose poll of the child failed, given how
/// the termination of the child that follows went: a failed termination
/// turns it into a termination failure that names both causes, otherwise it
/// is a failure to observe the startup.
pub fn startup_poll_failure_error(cmd: &str, source: &str, cleanup: Result<(), ProcessError>) -> (r: ProcessError)
    ensures
        match cleanup {
            Ok(_) => r matches ProcessError::StartupCheckFailed { cmd: c, source: s } && c@ == cmd@
                && s@ == source@,
            Err(e) => r matches ProcessError::TerminationFailed { cmd: c, source: s } && c@ == cmd@
                && s@ == "failed to observe process startup: "@ + source@ + "; cleanup also failed: "@
                + process_error_text(e),
        },
{
    observe_failure(cmd, "failed to observe process startup: ", source, cleanup)
}

/// Standard subprocess runner backed by the operating system's process API.
///
/// Its operations are carried out by the program around the library; the
/// decisions they take are the functions of this module.
pub struct ProcessExecutor;

} // verus!
