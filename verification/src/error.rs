//! Errors of the kernel.
use vstd::prelude::*;

use crate::event::{AgentStatus, JoinOutcome, OperationStatus};
use crate::ids::{
    uuid_text_spec,
    AgentId, CapabilityId, EventId, ExecutionId, GoalId, IdempotencyKey, JoinId, OperationId,
    TaskId,
};

use crate::text::{decimal_text, u64_text};
use vstd::string::StringExecFns;

verus! {

/// Why a complete on-disk record is rejected instead of truncated.
#[derive(Clone, Copy, Debug, PartialEq, Eq, Structural)]
pub enum LogCorruptKind {
    RecordTooLarge,
    CrcMismatch,
    ChecksumMismatch,
    InvalidJson,
    InvalidLength,
}

/// Why the reducer or a kernel command refused a transition.
#[derive(Clone, Copy, Debug, PartialEq, Eq, Structural)]
pub enum Rejection {
    ExecutionExists(ExecutionId),
    CreatedNotFirst,
    AncestryExists,
    NestedExecutionEvent,
    GoalExists(GoalId),
    UnknownGoal(GoalId),
    TerminalGoalRedefined,
    ModelTurnUnknownAgent(AgentId),
    GoalPreconditionsNotMet,
    GoalAlreadyTerminal,
    AgentExists(AgentId),
    UnknownParentAgent(AgentId),
    UnknownCapability(CapabilityId),
    CapabilityExceedsParent,
    UnknownAgent(AgentId),
    AgentStatusMismatch { agent: AgentId, actual: AgentStatus, expected: AgentStatus },
    TerminalStatusMonotonic,
    IllegalAgentTransition { from: AgentStatus, to: AgentStatus },
    TaskExists(TaskId),
    TaskUnknownReference,
    JoinExists(JoinId),
    JoinWithoutChildren,
    JoinWaiterUnknown,
    JoinChildUnknown(AgentId),
    UnknownJoinId(JoinId),
    UnknownJoin,
    JoinAlreadySatisfied,
    NotJoinChild,
    UnknownJoinChild,
    JoinChildStillRunning,
    JoinChildStatusMismatch,
    JoinOutcomeMismatch { outcome: JoinOutcome, expected: Option<JoinOutcome> },
    OperationExists(OperationId),
    OperationAgentUnknown,
    UnknownOperation(OperationId),
    ScheduleTerminal,
    ScheduleFrom(OperationStatus),
    LeaseTerminal,
    LeaseFrom(OperationStatus),
    LeaseStillActive,
    LeaseGenerationStep,
    FirstLeaseGeneration,
    RunningAfterCommit,
    ProcessStartedFrom(OperationStatus),
    UnknownAttempt,
    OutputNotLive,
    ProcessAlreadyCommitted,
    ProcessExitedFrom(OperationStatus),
    AttemptAlreadyExited,
    OperationAlreadyTerminal,
    CommitRequiresExit,
    CommitRequiresLease,
    CommitAttemptNotExited,
    CommitExitMismatch,
    NoLeaseToExpire,
    ExpireGenerationMismatch,
    SnapshotAgentUnknown,
    CapabilityExists,
    BarrierNeedsArrivals,
    UnknownBarrier,
    BarrierAlreadySatisfied,
    BarrierArrivalsIncomplete,
    RetentionUnknownAgent,
    NoExecution,
    GoalCompletionRefused,
    UnknownChild,
    UnknownOperationPlain,
    EmptyLog,
    OperationHasNoAttempt,
    LeaseGenerationsExhausted,
}

#[derive(Debug)]
pub enum KernelError {
    InvalidId { kind: String, value: String, cause: String },
    InvalidHash(String),
    InvalidTransition(Rejection),
    StaleLease { operation: OperationId, current: u64, used: u64 },
    NonMonotonicSeq { execution: ExecutionId, expected: u64, got: u64 },
    IdempotencyConflict { key: IdempotencyKey, existing: EventId, new_event: EventId },
    ExecutionNotFound(ExecutionId),
    EventNotFound(EventId),
    LogIntegrity(String),
    LogCorrupt { at_byte: u64, kind: LogCorruptKind, detail: String },
    Io(String),
    Json(String),
    Sqlite(String),
    Process(String),
    Context(String),
    ChecksumMismatch,
    UnsupportedSchema { found: u16, expected: u16 },
    /// A fork whose rewritten prefix does not reproduce the source's business state.
    ForkDivergence { source: String, prefix: String },
}

/// Shorthand for a refused transition.
pub open spec fn rejected(r: Rejection) -> KernelError {
    KernelError::InvalidTransition(r)
}

impl KernelError {
    pub fn invalid(r: Rejection) -> (e: Self)
        ensures
            e == KernelError::InvalidTransition(r),
    {
        KernelError::InvalidTransition(r)
    }

    pub fn log_corrupt(at_byte: u64, kind: LogCorruptKind, detail: String) -> (e: Self)
        ensures
            e == (KernelError::LogCorrupt { at_byte, kind, detail }),
    {
        KernelError::LogCorrupt { at_byte, kind, detail }
    }
}

/// `{:?}` of an optional join outcome.
pub open spec fn opt_outcome_debug(o: Option<JoinOutcome>) -> Seq<char> {
    match o {
        None => "None"@,
        Some(x) => "Some("@ + x.spec_name() + ")"@,
    }
}

fn opt_outcome_debug_string(o: Option<JoinOutcome>) -> (s: String)
    ensures
        s@ == opt_outcome_debug(o),
{
    match o {
        None => String::from_str("None"),
        Some(x) => {
            let mut s = String::from_str("Some(");
            s.append(x.name());
            s.append(")");
            s
        },
    }
}

impl Rejection {
    /// What the refusal says.
    pub open spec fn spec_message(self) -> Seq<char> {
        match self {
            Rejection::ExecutionExists(x) => "execution "@ + uuid_text_spec(x.0) + " already exists"@,
            Rejection::CreatedNotFirst => "ExecutionCreated must be seq 1 for an execution"@,
            Rejection::AncestryExists => "execution already has ancestry"@,
            Rejection::NestedExecutionEvent => "internal: nested execution event"@,
            Rejection::GoalExists(x) => "goal "@ + uuid_text_spec(x.0) + " exists"@,
            Rejection::UnknownGoal(x) => "unknown goal "@ + uuid_text_spec(x.0),
            Rejection::TerminalGoalRedefined => "cannot redefine a terminal goal"@,
            Rejection::ModelTurnUnknownAgent(x) => "model turn for unknown agent "@ + uuid_text_spec(x.0),
            Rejection::GoalPreconditionsNotMet => "GOAL_COMPLETED rejected: acceptance preconditions not met (model turn finish is not sufficient)"@,
            Rejection::GoalAlreadyTerminal => "goal already terminal"@,
            Rejection::AgentExists(x) => "agent "@ + uuid_text_spec(x.0) + " exists"@,
            Rejection::UnknownParentAgent(x) => "unknown parent agent "@ + uuid_text_spec(x.0),
            Rejection::UnknownCapability(x) => "unknown capability "@ + uuid_text_spec(x.0),
            Rejection::CapabilityExceedsParent => "child capability exceeds parent capability"@,
            Rejection::UnknownAgent(x) => "unknown agent "@ + uuid_text_spec(x.0),
            Rejection::AgentStatusMismatch { agent, actual, expected } => "agent "@ + uuid_text_spec(agent.0) + " is "@ + actual.spec_name() + ", not "@ + expected.spec_name(),
            Rejection::TerminalStatusMonotonic => "committed/terminal agent status is monotonic"@,
            Rejection::IllegalAgentTransition { from, to } => "illegal agent transition "@ + from.spec_name() + " -> "@ + to.spec_name(),
            Rejection::TaskExists(x) => "task "@ + uuid_text_spec(x.0) + " exists"@,
            Rejection::TaskUnknownReference => "task references unknown goal or agent"@,
            Rejection::JoinExists(x) => "join "@ + uuid_text_spec(x.0) + " exists"@,
            Rejection::JoinWithoutChildren => "join requires at least one child"@,
            Rejection::JoinWaiterUnknown => "join waiter unknown"@,
            Rejection::JoinChildUnknown(x) => "join child "@ + uuid_text_spec(x.0) + " unknown"@,
            Rejection::UnknownJoinId(x) => "unknown join "@ + uuid_text_spec(x.0),
            Rejection::UnknownJoin => "unknown join"@,
            Rejection::JoinAlreadySatisfied => "join already satisfied"@,
            Rejection::NotJoinChild => "child is not part of join"@,
            Rejection::UnknownJoinChild => "unknown join child"@,
            Rejection::JoinChildStillRunning => "join child is still running; cannot observe terminal"@,
            Rejection::JoinChildStatusMismatch => "join child status does not match agent state"@,
            Rejection::JoinOutcomeMismatch { outcome, expected } => "join outcome "@ + outcome.spec_name() + " does not match observed children ("@ + opt_outcome_debug(expected) + ")"@,
            Rejection::OperationExists(x) => "operation "@ + uuid_text_spec(x.0) + " exists"@,
            Rejection::OperationAgentUnknown => "operation agent unknown"@,
            Rejection::UnknownOperation(x) => "unknown operation "@ + uuid_text_spec(x.0),
            Rejection::ScheduleTerminal => "cannot schedule a terminal operation"@,
            Rejection::ScheduleFrom(x) => "cannot schedule from "@ + x.spec_name(),
            Rejection::LeaseTerminal => "cannot lease a terminal operation"@,
            Rejection::LeaseFrom(x) => "cannot lease from "@ + x.spec_name(),
            Rejection::LeaseStillActive => "operation already has an active authoritative lease"@,
            Rejection::LeaseGenerationStep => "lease generation must increase by exactly 1"@,
            Rejection::FirstLeaseGeneration => "first lease generation must be 1"@,
            Rejection::RunningAfterCommit => "a committed operation cannot return to RUNNING"@,
            Rejection::ProcessStartedFrom(x) => "ProcessStarted from "@ + x.spec_name(),
            Rejection::UnknownAttempt => "unknown attempt"@,
            Rejection::OutputNotLive => "output is only valid for a live process attempt"@,
            Rejection::ProcessAlreadyCommitted => "process already committed"@,
            Rejection::ProcessExitedFrom(x) => "ProcessExited from "@ + x.spec_name(),
            Rejection::AttemptAlreadyExited => "attempt already has ProcessExited"@,
            Rejection::OperationAlreadyTerminal => "operation already terminal"@,
            Rejection::CommitRequiresExit => "commit requires ProcessExited (Committing)"@,
            Rejection::CommitRequiresLease => "commit requires a lease"@,
            Rejection::CommitAttemptNotExited => "commit must identify an attempt that has ProcessExited"@,
            Rejection::CommitExitMismatch => "commit exit_code must match ProcessExited"@,
            Rejection::NoLeaseToExpire => "no lease to expire"@,
            Rejection::ExpireGenerationMismatch => "lease generation mismatch on expire"@,
            Rejection::SnapshotAgentUnknown => "snapshot agent unknown"@,
            Rejection::CapabilityExists => "capability exists"@,
            Rejection::BarrierNeedsArrivals => "barrier expected_arrivals must be > 0"@,
            Rejection::UnknownBarrier => "unknown barrier"@,
            Rejection::BarrierAlreadySatisfied => "barrier already satisfied"@,
            Rejection::BarrierArrivalsIncomplete => "barrier cannot be satisfied before all arrivals"@,
            Rejection::RetentionUnknownAgent => "unknown agent"@,
            Rejection::NoExecution => "kernel has no execution"@,
            Rejection::GoalCompletionRefused => "GOAL_COMPLETED preconditions not met; MODEL_FINISHED_TURN is not sufficient"@,
            Rejection::UnknownChild => "unknown child"@,
            Rejection::UnknownOperationPlain => "unknown operation"@,
            Rejection::EmptyLog => "empty log"@,
            Rejection::OperationHasNoAttempt => "operation has no attempt"@,
            Rejection::LeaseGenerationsExhausted => "lease generations exhausted"@,
        }
    }

    /// What the refusal says.
    pub fn message(&self) -> (s: String)
        ensures
            s@ == self.spec_message(),
    {
        match *self {
            Rejection::ExecutionExists(x) => {
                let mut s = String::from_str("execution ");
                s.append(x.to_string().as_str());
                s.append(" already exists");
                s
            },
            Rejection::CreatedNotFirst => String::from_str("ExecutionCreated must be seq 1 for an execution"),
            Rejection::AncestryExists => String::from_str("execution already has ancestry"),
            Rejection::NestedExecutionEvent => String::from_str("internal: nested execution event"),
            Rejection::GoalExists(x) => {
                let mut s = String::from_str("goal ");
                s.append(x.to_string().as_str());
                s.append(" exists");
                s
            },
            Rejection::UnknownGoal(x) => {
                let mut s = String::from_str("unknown goal ");
                s.append(x.to_string().as_str());
                s
            },
            Rejection::TerminalGoalRedefined => String::from_str("cannot redefine a terminal goal"),
            Rejection::ModelTurnUnknownAgent(x) => {
                let mut s = String::from_str("model turn for unknown agent ");
                s.append(x.to_string().as_str());
                s
            },
            Rejection::GoalPreconditionsNotMet => String::from_str("GOAL_COMPLETED rejected: acceptance preconditions not met (model turn finish is not sufficient)"),
            Rejection::GoalAlreadyTerminal => String::from_str("goal already terminal"),
            Rejection::AgentExists(x) => {
                let mut s = String::from_str("agent ");
                s.append(x.to_string().as_str());
                s.append(" exists");
                s
            },
            Rejection::UnknownParentAgent(x) => {
                let mut s = String::from_str("unknown parent agent ");
                s.append(x.to_string().as_str());
                s
            },
            Rejection::UnknownCapability(x) => {
                let mut s = String::from_str("unknown capability ");
                s.append(x.to_string().as_str());
                s
            },
            Rejection::CapabilityExceedsParent => String::from_str("child capability exceeds parent capability"),
            Rejection::UnknownAgent(x) => {
                let mut s = String::from_str("unknown agent ");
                s.append(x.to_string().as_str());
                s
            },
            Rejection::AgentStatusMismatch { agent, actual, expected } => {
                let mut s = String::from_str("agent ");
                s.append(agent.to_string().as_str());
                s.append(" is ");
                s.append(actual.name());
                s.append(", not ");
                s.append(expected.name());
                s
            },
            Rejection::TerminalStatusMonotonic => String::from_str("committed/terminal agent status is monotonic"),
            Rejection::IllegalAgentTransition { from, to } => {
                let mut s = String::from_str("illegal agent transition ");
                s.append(from.name());
                s.append(" -> ");
                s.append(to.name());
                s
            },
            Rejection::TaskExists(x) => {
                let mut s = String::from_str("task ");
                s.append(x.to_string().as_str());
                s.append(" exists");
                s
            },
            Rejection::TaskUnknownReference => String::from_str("task references unknown goal or agent"),
            Rejection::JoinExists(x) => {
                let mut s = String::from_str("join ");
                s.append(x.to_string().as_str());
                s.append(" exists");
                s
            },
            Rejection::JoinWithoutChildren => String::from_str("join requires at least one child"),
            Rejection::JoinWaiterUnknown => String::from_str("join waiter unknown"),
            Rejection::JoinChildUnknown(x) => {
                let mut s = String::from_str("join child ");
                s.append(x.to_string().as_str());
                s.append(" unknown");
                s
            },
            Rejection::UnknownJoinId(x) => {
                let mut s = String::from_str("unknown join ");
                s.append(x.to_string().as_str());
                s
            },
            Rejection::UnknownJoin => String::from_str("unknown join"),
            Rejection::JoinAlreadySatisfied => String::from_str("join already satisfied"),
            Rejection::NotJoinChild => String::from_str("child is not part of join"),
            Rejection::UnknownJoinChild => String::from_str("unknown join child"),
            Rejection::JoinChildStillRunning => String::from_str("join child is still running; cannot observe terminal"),
            Rejection::JoinChildStatusMismatch => String::from_str("join child status does not match agent state"),
            Rejection::JoinOutcomeMismatch { outcome, expected } => {
                let mut s = String::from_str("join outcome ");
                s.append(outcome.name());
                s.append(" does not match observed children (");
                s.append(opt_outcome_debug_string(expected).as_str());
                s.append(")");
                s
            },
            Rejection::OperationExists(x) => {
                let mut s = String::from_str("operation ");
                s.append(x.to_string().as_str());
                s.append(" exists");
                s
            },
            Rejection::OperationAgentUnknown => String::from_str("operation agent unknown"),
            Rejection::UnknownOperation(x) => {
                let mut s = String::from_str("unknown operation ");
                s.append(x.to_string().as_str());
                s
            },
            Rejection::ScheduleTerminal => String::from_str("cannot schedule a terminal operation"),
            Rejection::ScheduleFrom(x) => {
                let mut s = String::from_str("cannot schedule from ");
                s.append(x.name());
                s
            },
            Rejection::LeaseTerminal => String::from_str("cannot lease a terminal operation"),
            Rejection::LeaseFrom(x) => {
                let mut s = String::from_str("cannot lease from ");
                s.append(x.name());
                s
            },
            Rejection::LeaseStillActive => String::from_str("operation already has an active authoritative lease"),
            Rejection::LeaseGenerationStep => String::from_str("lease generation must increase by exactly 1"),
            Rejection::FirstLeaseGeneration => String::from_str("first lease generation must be 1"),
            Rejection::RunningAfterCommit => String::from_str("a committed operation cannot return to RUNNING"),
            Rejection::ProcessStartedFrom(x) => {
                let mut s = String::from_str("ProcessStarted from ");
                s.append(x.name());
                s
            },
            Rejection::UnknownAttempt => String::from_str("unknown attempt"),
            Rejection::OutputNotLive => String::from_str("output is only valid for a live process attempt"),
            Rejection::ProcessAlreadyCommitted => String::from_str("process already committed"),
            Rejection::ProcessExitedFrom(x) => {
                let mut s = String::from_str("ProcessExited from ");
                s.append(x.name());
                s
            },
            Rejection::AttemptAlreadyExited => String::from_str("attempt already has ProcessExited"),
            Rejection::OperationAlreadyTerminal => String::from_str("operation already terminal"),
            Rejection::CommitRequiresExit => String::from_str("commit requires ProcessExited (Committing)"),
            Rejection::CommitRequiresLease => String::from_str("commit requires a lease"),
            Rejection::CommitAttemptNotExited => String::from_str("commit must identify an attempt that has ProcessExited"),
            Rejection::CommitExitMismatch => String::from_str("commit exit_code must match ProcessExited"),
            Rejection::NoLeaseToExpire => String::from_str("no lease to expire"),
            Rejection::ExpireGenerationMismatch => String::from_str("lease generation mismatch on expire"),
            Rejection::SnapshotAgentUnknown => String::from_str("snapshot agent unknown"),
            Rejection::CapabilityExists => String::from_str("capability exists"),
            Rejection::BarrierNeedsArrivals => String::from_str("barrier expected_arrivals must be > 0"),
            Rejection::UnknownBarrier => String::from_str("unknown barrier"),
            Rejection::BarrierAlreadySatisfied => String::from_str("barrier already satisfied"),
            Rejection::BarrierArrivalsIncomplete => String::from_str("barrier cannot be satisfied before all arrivals"),
            Rejection::RetentionUnknownAgent => String::from_str("unknown agent"),
            Rejection::NoExecution => String::from_str("kernel has no execution"),
            Rejection::GoalCompletionRefused => String::from_str("GOAL_COMPLETED preconditions not met; MODEL_FINISHED_TURN is not sufficient"),
            Rejection::UnknownChild => String::from_str("unknown child"),
            Rejection::UnknownOperationPlain => String::from_str("unknown operation"),
            Rejection::EmptyLog => String::from_str("empty log"),
            Rejection::OperationHasNoAttempt => String::from_str("operation has no attempt"),
            Rejection::LeaseGenerationsExhausted => String::from_str("lease generations exhausted"),
        }
    }
}

impl LogCorruptKind {
    /// The kind, in words.
    pub open spec fn spec_text(self) -> Seq<char> {
        match self {
            LogCorruptKind::RecordTooLarge => "record too large"@,
            LogCorruptKind::CrcMismatch => "crc mismatch"@,
            LogCorruptKind::ChecksumMismatch => "checksum mismatch"@,
            LogCorruptKind::InvalidJson => "invalid json"@,
            LogCorruptKind::InvalidLength => "invalid length"@,
        }
    }

    /// The kind, in words.
    pub fn text(self) -> (s: &'static str)
        ensures
            s@ == self.spec_text(),
    {
        match self {
            LogCorruptKind::RecordTooLarge => "record too large",
            LogCorruptKind::CrcMismatch => "crc mismatch",
            LogCorruptKind::ChecksumMismatch => "checksum mismatch",
            LogCorruptKind::InvalidJson => "invalid json",
            LogCorruptKind::InvalidLength => "invalid length",
        }
    }
}

/// What an error says.
pub open spec fn error_text(e: KernelError) -> Seq<char> {
    match e {
        KernelError::InvalidId { kind, value, cause } => "invalid id for "@ + kind@ + ": "@ + value@
            + " ("@ + cause@ + ")"@,
        KernelError::InvalidHash(s) => "invalid content hash: "@ + s@,
        KernelError::InvalidTransition(r) => "invalid transition: "@ + r.spec_message(),
        KernelError::StaleLease { operation, current, used } => "stale lease: operation "@
            + uuid_text_spec(operation.0) + " current generation "@ + decimal_text(current as nat)
            + ", commit used "@ + decimal_text(used as nat),
        KernelError::NonMonotonicSeq { execution, expected, got } => "non-monotonic sequence for execution "@
            + uuid_text_spec(execution.0) + ": expected "@ + decimal_text(expected as nat) + ", got "@
            + decimal_text(got as nat),
        KernelError::IdempotencyConflict { key, existing, new_event } => "duplicate idempotency key "@
            + key.0@ + " bound to "@ + uuid_text_spec(existing.0) + ", not "@ + uuid_text_spec(
            new_event.0,
        ),
        KernelError::ExecutionNotFound(x) => "execution not found: "@ + uuid_text_spec(x.0),
        KernelError::EventNotFound(x) => "event not found: "@ + uuid_text_spec(x.0),
        KernelError::LogIntegrity(s) => "log integrity error: "@ + s@,
        KernelError::LogCorrupt { at_byte, kind, detail } => "log corruption at byte "@ + decimal_text(
            at_byte as nat,
        ) + " ("@ + kind.spec_text() + "): "@ + detail@,
        KernelError::Io(s) => "io error: "@ + s@,
        KernelError::Json(s) => "json error: "@ + s@,
        KernelError::Sqlite(s) => "sqlite error: "@ + s@,
        KernelError::Process(s) => "process error: "@ + s@,
        KernelError::Context(s) => "context store error: "@ + s@,
        KernelError::ChecksumMismatch => "checksum mismatch"@,
        KernelError::UnsupportedSchema { found, expected } => "schema version "@ + decimal_text(
            found as nat,
        ) + " is not supported (expected "@ + decimal_text(expected as nat) + ")"@,
        KernelError::ForkDivergence { source, prefix } => "invalid transition: fork divergence: source "@
            + source@ + " vs fork prefix "@ + prefix@,
    }
}

impl KernelError {
    /// What the error says.
    pub fn to_string(&self) -> (s: String)
        ensures
            s@ == error_text(*self),
    {
        match self {
            KernelError::InvalidId { kind, value, cause } => {
                let mut s = String::from_str("invalid id for ");
                s.append(kind.as_str());
                s.append(": ");
                s.append(value.as_str());
                s.append(" (");
                s.append(cause.as_str());
                s.append(")");
                s
            },
            KernelError::InvalidHash(m) => crate::text::join2("invalid content hash: ", m.as_str()),
            KernelError::InvalidTransition(r) => crate::text::join2("invalid transition: ", r.message().as_str()),
            KernelError::StaleLease { operation, current, used } => {
                let mut s = String::from_str("stale lease: operation ");
                s.append(operation.to_string().as_str());
                s.append(" current generation ");
                s.append(u64_text(*current).as_str());
                s.append(", commit used ");
                s.append(u64_text(*used).as_str());
                s
            },
            KernelError::NonMonotonicSeq { execution, expected, got } => {
                let mut s = String::from_str("non-monotonic sequence for execution ");
                s.append(execution.to_string().as_str());
                s.append(": expected ");
                s.append(u64_text(*expected).as_str());
                s.append(", got ");
                s.append(u64_text(*got).as_str());
                s
            },
            KernelError::IdempotencyConflict { key, existing, new_event } => {
                let mut s = String::from_str("duplicate idempotency key ");
                s.append(key.0.as_str());
                s.append(" bound to ");
                s.append(existing.to_string().as_str());
                s.append(", not ");
                s.append(new_event.to_string().as_str());
                s
            },
            KernelError::ExecutionNotFound(x) => crate::text::join2("execution not found: ", x.to_string().as_str()),
            KernelError::EventNotFound(x) => crate::text::join2("event not found: ", x.to_string().as_str()),
            KernelError::LogIntegrity(m) => crate::text::join2("log integrity error: ", m.as_str()),
            KernelError::LogCorrupt { at_byte, kind, detail } => {
                let mut s = String::from_str("log corruption at byte ");
                s.append(u64_text(*at_byte).as_str());
                s.append(" (");
                s.append(kind.text());
                s.append("): ");
                s.append(detail.as_str());
                s
            },
            KernelError::Io(m) => crate::text::join2("io error: ", m.as_str()),
            KernelError::Json(m) => crate::text::join2("json error: ", m.as_str()),
            KernelError::Sqlite(m) => crate::text::join2("sqlite error: ", m.as_str()),
            KernelError::Process(m) => crate::text::join2("process error: ", m.as_str()),
            KernelError::Context(m) => crate::text::join2("context store error: ", m.as_str()),
            KernelError::ChecksumMismatch => String::from_str("checksum mismatch"),
            KernelError::UnsupportedSchema { found, expected } => {
                let mut s = String::from_str("schema version ");
                s.append(u64_text(*found as u64).as_str());
                s.append(" is not supported (expected ");
                s.append(u64_text(*expected as u64).as_str());
                s.append(")");
                s
            },
            KernelError::ForkDivergence { source, prefix } => {
                let mut s = String::from_str("invalid transition: fork divergence: source ");
                s.append(source.as_str());
                s.append(" vs fork prefix ");
                s.append(prefix.as_str());
                s
            },
        }
    }
}

} // verus!
