//! Execution vocabulary shared by runner-like flows: statuses, steps,
//! structured errors, interruptions and the execution envelope.

use vstd::prelude::*;

verus! {

/// Shared execution status used by runner and package-like flows.
#[derive(Debug, Clone, Copy, PartialEq, Eq, Structural)]
pub enum ExecutionStatus {
    Succeeded,
    Failed,
    Cancelled,
    TimedOut,
    InvalidOutput,
}

impl ExecutionStatus {
    /// Only a successful execution is ok.
    pub fn is_ok(self) -> (b: bool)
        ensures
            b == (self == ExecutionStatus::Succeeded),
    {
        matches!(self, Self::Succeeded)
    }
}

/// Shared counters emitted by parsers and execution adapters.
#[derive(Debug, Clone, PartialEq, Eq, Default)]
pub struct ExecutionMetrics {
    pub total: u32,
    pub passed: u32,
    pub failed: u32,
    pub skipped: u32,
    pub errors: u32,
    /// Further named counters, ordered by name.
    pub extra: Vec<(String, u64)>,
}

/// Shared timeout budget for execution scenarios.
#[derive(Debug, Clone, Copy, PartialEq, Eq, Default, Structural)]
pub struct ExecutionTimeouts {
    pub startup_ms: Option<u64>,
    pub run_ms: Option<u64>,
    pub total_ms: Option<u64>,
}

/// Structured execution error.
#[derive(Debug, Clone, PartialEq, Eq)]
pub struct ExecutionError {
    pub code: String,
    pub message: String,
    pub details: Vec<String>,
    pub retryable: bool,
}

impl ExecutionError {
    /// An error with a code and a message, no details, not retryable.
    pub fn new(code: String, message: String) -> (e: Self)
        ensures
            e.code == code,
            e.message == message,
            e.details@.len() == 0,
            !e.retryable,
    {
        Self { code, message, details: Vec::new(), retryable: false }
    }

    /// The same error with `details` in place of its details.
    pub fn with_details(self, details: Vec<String>) -> (e: Self)
        ensures
            e == (Self { details, ..self }),
    {
        Self { details, ..self }
    }
}

/// Command-level interruption kind preserved in serialized execution results.
#[derive(Debug, Clone, Copy, PartialEq, Eq, Structural)]
pub enum ExecutionInterruptionKind {
    Cancelled,
    TimedOut,
}

/// Interruption metadata for actual or deferred command-boundary interruptions.
#[derive(Debug, Clone, PartialEq, Eq)]
pub struct ExecutionInterruptionDetails {
    pub kind: ExecutionInterruptionKind,
    pub deferred: bool,
    pub phase: Option<String>,
    pub message: Option<String>,
}

impl ExecutionInterruptionDetails {
    /// Details of the given kind, with no phase and no message.
    pub fn new(kind: ExecutionInterruptionKind, deferred: bool) -> (d: Self)
        ensures
            d == (Self { kind, deferred, phase: None, message: None }),
    {
        Self { kind, deferred, phase: None, message: None }
    }

    /// The same details with the given phase.
    pub fn with_phase(self, phase: String) -> (d: Self)
        ensures
            d == (Self { phase: Some(phase), ..self }),
    {
        Self { phase: Some(phase), ..self }
    }

    /// The same details with the given message.
    pub fn with_message(self, message: String) -> (d: Self)
        ensures
            d == (Self { message: Some(message), ..self }),
    {
        Self { message: Some(message), ..self }
    }
}

/// Stable pipeline vocabulary for significant execution blocks.
#[derive(Debug, Clone, Copy, PartialEq, Eq, Structural)]
pub enum ExecutionStepKind {
    Validation,
    ResolveTarget,
    PrepareWorkspace,
    PlatformCommand,
    ParseOutput,
    Publish,
    Cleanup,
    Diagnostics,
    Other,
}

/// Step status beyond a plain `ok` flag.
#[derive(Debug, Clone, Copy, PartialEq, Eq, Structural)]
pub enum ExecutionStepStatus {
    Succeeded,
    Failed,
    Skipped,
    Degraded,
}

impl ExecutionStepStatus {
    /// Every status but `Failed` counts as ok.
    pub fn is_ok(self) -> (b: bool)
        ensures
            b == (self != ExecutionStepStatus::Failed),
    {
        matches!(self, Self::Succeeded | Self::Skipped | Self::Degraded)
    }
}

/// A transport-neutral execution step.
#[derive(Debug, Clone, PartialEq, Eq)]
pub struct StepResult {
    pub name: String,
    pub ok: bool,
    pub status: ExecutionStepStatus,
    pub kind: ExecutionStepKind,
    pub duration_ms: u64,
    pub target: Option<String>,
    pub message: Option<String>,
    pub diagnostics: Vec<String>,
    pub errors: Vec<ExecutionError>,
}

/// A fresh step: `ok` follows the status, nothing else is set.
pub open spec fn fresh_step(
    s: StepResult,
    name: String,
    kind: ExecutionStepKind,
    status: ExecutionStepStatus,
    duration_ms: u64,
) -> bool {
    &&& s.name == name
    &&& s.ok == (status != ExecutionStepStatus::Failed)
    &&& s.status == status
    &&& s.kind == kind
    &&& s.duration_ms == duration_ms
    &&& s.target is None
    &&& s.message is None
    &&& s.diagnostics@.len() == 0
    &&& s.errors@.len() == 0
}

impl StepResult {
    /// A step with the given status; `ok` is the status's `is_ok`.
    pub fn new(
        name: String,
        kind: ExecutionStepKind,
        status: ExecutionStepStatus,
        duration_ms: u64,
    ) -> (s: Self)
        ensures
            fresh_step(s, name, kind, status, duration_ms),
    {
        Self {
            name,
            ok: status.is_ok(),
            status,
            kind,
            duration_ms,
            target: None,
            message: None,
            diagnostics: Vec::new(),
            errors: Vec::new(),
        }
    }

    /// A succeeded step.
    pub fn succeeded(name: String, kind: ExecutionStepKind, duration_ms: u64) -> (s: Self)
        ensures
            fresh_step(s, name, kind, ExecutionStepStatus::Succeeded, duration_ms),
    {
        Self::new(name, kind, ExecutionStepStatus::Succeeded, duration_ms)
    }

    /// A failed step.
    pub fn failed(name: String, kind: ExecutionStepKind, duration_ms: u64) -> (s: Self)
        ensures
            fresh_step(s, name, kind, ExecutionStepStatus::Failed, duration_ms),
    {
        Self::new(name, kind, ExecutionStepStatus::Failed, duration_ms)
    }

    /// A degraded step.
    pub fn degraded(name: String, kind: ExecutionStepKind, duration_ms: u64) -> (s: Self)
        ensures
            fresh_step(s, name, kind, ExecutionStepStatus::Degraded, duration_ms),
    {
        Self::new(name, kind, ExecutionStepStatus::Degraded, duration_ms)
    }

    /// The same step with a target.
    pub fn with_target(self, target: String) -> (s: Self)
        ensures
            s == (Self { target: Some(target), ..self }),
    {
        Self { target: Some(target), ..self }
    }

    /// The same step with a message.
    pub fn with_message(self, message: String) -> (s: Self)
        ensures
            s == (Self { message: Some(message), ..self }),
    {
        Self { message: Some(message), ..self }
    }

    /// The same step with the given diagnostics in place of its own.
    pub fn with_diagnostics(self, diagnostics: Vec<String>) -> (s: Self)
        ensures
            s == (Self { diagnostics, ..self }),
    {
        Self { diagnostics, ..self }
    }

    /// The same step with the given errors in place of its own.
    pub fn with_errors(self, errors: Vec<ExecutionError>) -> (s: Self)
        ensures
            s == (Self { errors, ..self }),
    {
        Self { errors, ..self }
    }
}

/// Shared execution envelope for runner-like flows.
#[derive(Debug, Clone, PartialEq, Eq)]
pub struct ExecutionOutcome<T> {
    pub status: ExecutionStatus,
    pub diagnostics: Vec<String>,
    pub errors: Vec<ExecutionError>,
    pub metrics: Option<ExecutionMetrics>,
    pub interruptions: Vec<ExecutionInterruptionDetails>,
    pub payload: Option<T>,
}

impl<T> Default for ExecutionOutcome<T> {
    /// The envelope of a succeeded execution with nothing else set.
    fn default() -> (o: Self)
        ensures
            o.status == ExecutionStatus::Succeeded,
            o.diagnostics@.len() == 0,
            o.errors@.len() == 0,
            o.metrics is None,
            o.interruptions@.len() == 0,
            o.payload is None,
    {
        Self::new(ExecutionStatus::Succeeded)
    }
}

impl<T> ExecutionOutcome<T> {
    /// An envelope with the given status and nothing else.
    pub fn new(status: ExecutionStatus) -> (o: Self)
        ensures
            o.status == status,
            o.diagnostics@.len() == 0,
            o.errors@.len() == 0,
            o.metrics is None,
            o.interruptions@.len() == 0,
            o.payload is None,
    {
        Self {
            status,
            diagnostics: Vec::new(),
            errors: Vec::new(),
            metrics: None,
            interruptions: Vec::new(),
            payload: None,
        }
    }

    /// Whether the status is `Succeeded`.
    pub fn is_ok(&self) -> (b: bool)
        ensures
            b == (self.status == ExecutionStatus::Succeeded),
    {
        self.status.is_ok()
    }

    /// The envelope with the given diagnostics in place of its own.
    pub fn with_diagnostics(self, diagnostics: Vec<String>) -> (o: Self)
        ensures
            o == (Self { diagnostics, ..self }),
    {
        Self { diagnostics, ..self }
    }

    /// The envelope with the given errors in place of its own.
    pub fn with_errors(self, errors: Vec<ExecutionError>) -> (o: Self)
        ensures
            o == (Self { errors, ..self }),
    {
        Self { errors, ..self }
    }

    /// The envelope with metrics.
    pub fn with_metrics(self, metrics: ExecutionMetrics) -> (o: Self)
        ensures
            o == (Self { metrics: Some(metrics), ..self }),
    {
        Self { metrics: Some(metrics), ..self }
    }

    /// The envelope with the given interruptions in place of its own.
    pub fn with_interruptions(self, interruptions: Vec<ExecutionInterruptionDetails>) -> (o: Self)
        ensures
            o == (Self { interruptions, ..self }),
    {
        Self { interruptions, ..self }
    }

    /// The envelope with a payload.
    pub fn with_payload(self, payload: T) -> (o: Self)
        ensures
            o == (Self { payload: Some(payload), ..self }),
    {
        Self { payload: Some(payload), ..self }
    }
}

} // verus!
