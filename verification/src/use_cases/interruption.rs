//! Interruption vocabulary shared by use cases: statuses, structured
//! details and deferred-interruption warnings.

use vstd::prelude::*;

use crate::domain::execution::{
    ExecutionInterruptionDetails, ExecutionInterruptionKind, ExecutionStatus,
};
use crate::platform::process::{ProcessInterruption, ProcessInterruptionReason};
use crate::support::text::{append_str, chars_of, string_of};
use crate::use_cases::context::{command_label, CommandName, ExecutionInterruption};

verus! {

/// Terminal status of a command that was interrupted.
pub fn command_interruption_status(interruption: ExecutionInterruption) -> (s: ExecutionStatus)
    ensures
        s == (match interruption {
            ExecutionInterruption::Cancelled => ExecutionStatus::Cancelled,
            ExecutionInterruption::TimedOut => ExecutionStatus::TimedOut,
        }),
{
    match interruption {
        ExecutionInterruption::Cancelled => ExecutionStatus::Cancelled,
        ExecutionInterruption::TimedOut => ExecutionStatus::TimedOut,
    }
}

/// Interruption kind of a command-boundary interruption.
pub open spec fn spec_command_kind(i: ExecutionInterruption) -> ExecutionInterruptionKind {
    match i {
        ExecutionInterruption::Cancelled => ExecutionInterruptionKind::Cancelled,
        ExecutionInterruption::TimedOut => ExecutionInterruptionKind::TimedOut,
    }
}

/// Interruption kind of a process-level interruption.
pub open spec fn spec_process_kind(r: ProcessInterruptionReason) -> ExecutionInterruptionKind {
    match r {
        ProcessInterruptionReason::Cancelled => ExecutionInterruptionKind::Cancelled,
        ProcessInterruptionReason::TimedOut => ExecutionInterruptionKind::TimedOut,
    }
}

/// Words for the reason of an interruption.
pub open spec fn reason_words(k: ExecutionInterruptionKind) -> Seq<char> {
    match k {
        ExecutionInterruptionKind::Cancelled => "cancellation request"@,
        ExecutionInterruptionKind::TimedOut => "timeout"@,
    }
}

/// The warning for an action that completed although an interruption arrived
/// during its critical phase.
pub open spec fn deferred_warning_text(
    action: Seq<char>,
    reason: Seq<char>,
    command: Option<CommandName>,
) -> Seq<char> {
    match command {
        Some(c) => action + " after "@ + reason + " for command '"@ + command_label(c)
            + "' during critical phase; unsafe interruption was not performed"@,
        None => action + " after "@ + reason
            + " during critical phase; unsafe interruption was not performed"@,
    }
}

/// Details with the given kind, deferred flag, phase and message.
pub open spec fn details_are(
    d: ExecutionInterruptionDetails,
    kind: ExecutionInterruptionKind,
    deferred: bool,
    phase: Seq<char>,
    message: Seq<char>,
) -> bool {
    &&& d.kind == kind
    &&& d.deferred == deferred
    &&& d.phase matches Some(p) && p@ == phase
    &&& d.message matches Some(m) && m@ == message
}

fn command_interruption_kind(interruption: ExecutionInterruption) -> (k: ExecutionInterruptionKind)
    ensures
        k == spec_command_kind(interruption),
{
    match interruption {
        ExecutionInterruption::Cancelled => ExecutionInterruptionKind::Cancelled,
        ExecutionInterruption::TimedOut => ExecutionInterruptionKind::TimedOut,
    }
}

fn process_interruption_kind(interruption: ProcessInterruptionReason) -> (k: ExecutionInterruptionKind)
    ensures
        k == spec_process_kind(interruption),
{
    match interruption {
        ProcessInterruptionReason::Cancelled => ExecutionInterruptionKind::Cancelled,
        ProcessInterruptionReason::TimedOut => ExecutionInterruptionKind::TimedOut,
    }
}

fn command_interruption_reason(interruption: ExecutionInterruption) -> (s: &'static str)
    ensures
        s@ == reason_words(spec_command_kind(interruption)),
{
    match interruption {
        ExecutionInterruption::Cancelled => "cancellation request",
        ExecutionInterruption::TimedOut => "timeout",
    }
}

fn process_interruption_reason(interruption: ProcessInterruptionReason) -> (s: &'static str)
    ensures
        s@ == reason_words(spec_process_kind(interruption)),
{
    match interruption {
        ProcessInterruptionReason::Cancelled => "cancellation request",
        ProcessInterruptionReason::TimedOut => "timeout",
    }
}

/// Details of a command-boundary interruption that was acted on.
pub fn command_interruption_details(
    interruption: ExecutionInterruption,
    phase: &str,
    message: String,
) -> (d: ExecutionInterruptionDetails)
    ensures
        details_are(d, spec_command_kind(interruption), false, phase@, message@),
{
    command_interruption_details_with_deferred(interruption, phase, false, message)
}

/// Details of a command-boundary interruption deferred past a critical phase.
pub fn deferred_command_interruption_details(
    interruption: ExecutionInterruption,
    phase: &str,
    message: String,
) -> (d: ExecutionInterruptionDetails)
    ensures
        details_are(d, spec_command_kind(interruption), true, phase@, message@),
{
    command_interruption_details_with_deferred(interruption, phase, true, message)
}

fn command_interruption_details_with_deferred(
    interruption: ExecutionInterruption,
    phase: &str,
    deferred: bool,
    message: String,
) -> (d: ExecutionInterruptionDetails)
    ensures
        details_are(d, spec_command_kind(interruption), deferred, phase@, message@),
{
    ExecutionInterruptionDetails::new(command_interruption_kind(interruption), deferred)
        .with_phase(phase.to_owned())
        .with_message(message)
}

/// Details of a process-level interruption.
pub fn process_interruption_details(
    interruption: ProcessInterruptionReason,
    phase: &str,
    deferred: bool,
    message: String,
) -> (d: ExecutionInterruptionDetails)
    ensures
        details_are(d, spec_process_kind(interruption), deferred, phase@, message@),
{
    ExecutionInterruptionDetails::new(process_interruption_kind(interruption), deferred)
        .with_phase(phase.to_owned())
        .with_message(message)
}

/// The deferred-interruption warning, with or without the command named.
pub fn format_deferred_interruption_warning(
    completed_action: &str,
    reason: &str,
    command: Option<CommandName>,
) -> (s: String)
    ensures
        s@ == deferred_warning_text(completed_action@, reason@, command),
{
    let mut out = chars_of(completed_action);
    append_str(&mut out, " after ");
    append_str(&mut out, reason);
    match command {
        Some(c) => {
            append_str(&mut out, " for command '");
            append_str(&mut out, c.as_str());
            append_str(&mut out, "' during critical phase; unsafe interruption was not performed");
        },
        None => {
            append_str(&mut out, " during critical phase; unsafe interruption was not performed");
        },
    }
    string_of(out.as_slice())
}

/// Warning for an action completed after a command-boundary interruption.
pub fn deferred_interruption_warning(
    completed_action: &str,
    interruption: ExecutionInterruption,
) -> (s: String)
    ensures
        s@ == deferred_warning_text(
            completed_action@,
            reason_words(spec_command_kind(interruption)),
            None,
        ),
{
    format_deferred_interruption_warning(
        completed_action,
        command_interruption_reason(interruption),
        None,
    )
}

/// Warning for an action of a named command completed after an interruption.
pub fn deferred_interruption_warning_for_command(
    completed_action: &str,
    command: CommandName,
    interruption: ExecutionInterruption,
) -> (s: String)
    ensures
        s@ == deferred_warning_text(
            completed_action@,
            reason_words(spec_command_kind(interruption)),
            Some(command),
        ),
{
    format_deferred_interruption_warning(
        completed_action,
        command_interruption_reason(interruption),
        Some(command),
    )
}

/// Warning for an action completed after a process-level interruption.
pub fn deferred_process_interruption_message(
    completed_action: &str,
    interruption: ProcessInterruptionReason,
) -> (s: String)
    ensures
        s@ == deferred_warning_text(
            completed_action@,
            reason_words(spec_process_kind(interruption)),
            None,
        ),
{
    format_deferred_interruption_warning(
        completed_action,
        process_interruption_reason(interruption),
        None,
    )
}

/// Deferred details for a platform command that recorded an interruption.
pub fn deferred_process_interruption_details(
    phase: &str,
    completed_action: &str,
    interruption: Option<ProcessInterruption>,
) -> (d: Option<ExecutionInterruptionDetails>)
    ensures
        match interruption {
            None => d is None,
            Some(i) => d matches Some(x) && details_are(
                x,
                spec_process_kind(i.reason),
                true,
                phase@,
                deferred_warning_text(completed_action@, reason_words(spec_process_kind(i.reason)), None),
            ),
        },
{
    match interruption {
        None => None,
        Some(i) => {
            let message = deferred_process_interruption_message(completed_action, i.reason);
            Some(process_interruption_details(i.reason, phase, true, message))
        },
    }
}

/// Deferred warning for a platform command that recorded an interruption.
pub fn deferred_process_interruption_warning(
    completed_action: &str,
    interruption: Option<ProcessInterruption>,
) -> (w: Option<String>)
    ensures
        match interruption {
            None => w is None,
            Some(i) => w matches Some(s) && s@ == deferred_warning_text(
                completed_action@,
                reason_words(spec_process_kind(i.reason)),
                None,
            ),
        },
{
    match interruption {
        None => None,
        Some(i) => Some(deferred_process_interruption_message(completed_action, i.reason)),
    }
}

/// Command-boundary and process-level interruptions of the same kind are
/// worded the same, so a deferred warning reads alike whichever layer saw it;
/// a cancellation and a timeout are never worded alike.
pub proof fn law_shared_reason_vocabulary(
    i: ExecutionInterruption,
    r: ProcessInterruptionReason,
    action: Seq<char>,
)
    requires
        (i is Cancelled) == (r is Cancelled),
    ensures
        spec_command_kind(i) == spec_process_kind(r),
        deferred_warning_text(action, reason_words(spec_command_kind(i)), None)
            == deferred_warning_text(action, reason_words(spec_process_kind(r)), None),
        reason_words(ExecutionInterruptionKind::Cancelled) != reason_words(ExecutionInterruptionKind::TimedOut),
{
    reveal_strlit("cancellation request");
    reveal_strlit("timeout");
    assert(reason_words(ExecutionInterruptionKind::Cancelled).len() != reason_words(
        ExecutionInterruptionKind::TimedOut,
    ).len());
}

} // verus!
