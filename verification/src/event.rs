//! Event protocol: payloads and the record envelope.
use vstd::prelude::*;

use crate::error::KernelError;
use crate::state::opt_text;
use crate::ids::{
    hex_lower, blake3_digest, AgentId, AttemptId, BarrierId, CapabilityId, ContentHash,
    CorrelationId, EventId, ExecutionId, GoalId, IdempotencyKey, JoinId, LeaseOwnerId,
    OperationId, SnapshotId, TaskId, TurnId,
};

verus! {

pub const SCHEMA_VERSION: u16 = 1;

/// Log file magic, `CAK1`.
pub const LOG_MAGIC: [u8; 4] = [67u8, 65u8, 75u8, 49u8];

#[derive(Clone, Copy, Debug, PartialEq, Eq, Structural)]
pub enum StreamKind {
    Stdout,
    Stderr,
}

#[derive(Clone, Copy, Debug, PartialEq, Eq, Structural)]
pub enum AgentStatus {
    Created,
    Runnable,
    Running,
    WaitingJoin,
    WaitingExternal,
    Succeeded,
    Failed,
    Cancelled,
    Interrupted,
    Orphaned,
}

impl AgentStatus {
    pub open spec fn spec_is_terminal(self) -> bool {
        self == AgentStatus::Succeeded || self == AgentStatus::Failed || self
            == AgentStatus::Cancelled
    }

    #[verifier::when_used_as_spec(spec_is_terminal)]
    pub fn is_terminal(self) -> (b: bool)
        ensures
            b == self.spec_is_terminal(),
    {
        matches!(self, AgentStatus::Succeeded | AgentStatus::Failed | AgentStatus::Cancelled)
    }

    pub open spec fn spec_is_active(self) -> bool {
        !self.spec_is_terminal()
    }

    /// Every status that is not terminal is active.
    #[verifier::when_used_as_spec(spec_is_active)]
    pub fn is_active(self) -> (b: bool)
        ensures
            b == self.spec_is_active(),
    {
        matches!(
            self,
            AgentStatus::Created | AgentStatus::Runnable | AgentStatus::Running
                | AgentStatus::WaitingJoin | AgentStatus::WaitingExternal
                | AgentStatus::Interrupted | AgentStatus::Orphaned
        )
    }
}

#[derive(Clone, Copy, Debug, PartialEq, Eq, Structural)]
pub enum GoalStatus {
    Active,
    Blocked,
    Completed,
    Failed,
    Cancelled,
}

impl GoalStatus {
    pub open spec fn spec_is_terminal(self) -> bool {
        self == GoalStatus::Completed || self == GoalStatus::Failed || self == GoalStatus::Cancelled
    }

    #[verifier::when_used_as_spec(spec_is_terminal)]
    pub fn is_terminal(self) -> (b: bool)
        ensures
            b == self.spec_is_terminal(),
    {
        matches!(self, GoalStatus::Completed | GoalStatus::Failed | GoalStatus::Cancelled)
    }
}

#[derive(Clone, Copy, Debug, PartialEq, Eq, Structural)]
pub enum OperationStatus {
    Created,
    Ready,
    Leased,
    Running,
    WaitingExternal,
    Committing,
    Succeeded,
    Failed,
    Cancelled,
    Orphaned,
    Unknown,
}

impl OperationStatus {
    pub open spec fn spec_is_terminal(self) -> bool {
        self == OperationStatus::Succeeded || self == OperationStatus::Failed || self
            == OperationStatus::Cancelled
    }

    #[verifier::when_used_as_spec(spec_is_terminal)]
    pub fn is_terminal(self) -> (b: bool)
        ensures
            b == self.spec_is_terminal(),
    {
        matches!(
            self,
            OperationStatus::Succeeded | OperationStatus::Failed | OperationStatus::Cancelled
        )
    }

    pub open spec fn spec_can_become_running(self) -> bool {
        self == OperationStatus::Leased || self == OperationStatus::WaitingExternal || self
            == OperationStatus::Ready || self == OperationStatus::Created
    }

    #[verifier::when_used_as_spec(spec_can_become_running)]
    pub fn can_become_running(self) -> (b: bool)
        ensures
            b == self.spec_can_become_running(),
    {
        matches!(
            self,
            OperationStatus::Leased | OperationStatus::WaitingExternal | OperationStatus::Ready
                | OperationStatus::Created
        )
    }
}

#[derive(Clone, Copy, Debug, PartialEq, Eq, Structural)]
pub enum JoinKind {
    All,
    Any,
}

#[derive(Clone, Copy, Debug, PartialEq, Eq, Structural)]
pub enum JoinFailurePolicy {
    WaitAll,
    FailFast,
}

#[derive(Clone, Copy, Debug, PartialEq, Eq, Structural)]
pub enum JoinOutcome {
    Succeeded,
    Failed,
    Cancelled,
}

#[derive(Clone, Copy, Debug, PartialEq, Eq, Structural)]
pub enum NetworkScope {
    Deny,
    Allow,
}

impl StreamKind {
    /// The variant's name, as `{:?}` prints it.
    pub open spec fn spec_name(self) -> Seq<char> {
        match self {
            StreamKind::Stdout => "Stdout"@,
            StreamKind::Stderr => "Stderr"@,
        }
    }

    /// The variant's name, as `{:?}` prints it.
    pub fn name(self) -> (s: &'static str)
        ensures
            s@ == self.spec_name(),
    {
        match self {
            StreamKind::Stdout => "Stdout",
            StreamKind::Stderr => "Stderr",
        }
    }
}

impl AgentStatus {
    /// The variant's name, as `{:?}` prints it.
    pub open spec fn spec_name(self) -> Seq<char> {
        match self {
            AgentStatus::Created => "Created"@,
            AgentStatus::Runnable => "Runnable"@,
            AgentStatus::Running => "Running"@,
            AgentStatus::WaitingJoin => "WaitingJoin"@,
            AgentStatus::WaitingExternal => "WaitingExternal"@,
            AgentStatus::Succeeded => "Succeeded"@,
            AgentStatus::Failed => "Failed"@,
            AgentStatus::Cancelled => "Cancelled"@,
            AgentStatus::Interrupted => "Interrupted"@,
            AgentStatus::Orphaned => "Orphaned"@,
        }
    }

    /// The variant's name, as `{:?}` prints it.
    pub fn name(self) -> (s: &'static str)
        ensures
            s@ == self.spec_name(),
    {
        match self {
            AgentStatus::Created => "Created",
            AgentStatus::Runnable => "Runnable",
            AgentStatus::Running => "Running",
            AgentStatus::WaitingJoin => "WaitingJoin",
            AgentStatus::WaitingExternal => "WaitingExternal",
            AgentStatus::Succeeded => "Succeeded",
            AgentStatus::Failed => "Failed",
            AgentStatus::Cancelled => "Cancelled",
            AgentStatus::Interrupted => "Interrupted",
            AgentStatus::Orphaned => "Orphaned",
        }
    }
}

impl GoalStatus {
    /// The variant's name, as `{:?}` prints it.
    pub open spec fn spec_name(self) -> Seq<char> {
        match self {
            GoalStatus::Active => "Active"@,
            GoalStatus::Blocked => "Blocked"@,
            GoalStatus::Completed => "Completed"@,
            GoalStatus::Failed => "Failed"@,
            GoalStatus::Cancelled => "Cancelled"@,
        }
    }

    /// The variant's name, as `{:?}` prints it.
    pub fn name(self) -> (s: &'static str)
        ensures
            s@ == self.spec_name(),
    {
        match self {
            GoalStatus::Active => "Active",
            GoalStatus::Blocked => "Blocked",
            GoalStatus::Completed => "Completed",
            GoalStatus::Failed => "Failed",
            GoalStatus::Cancelled => "Cancelled",
        }
    }
}

impl OperationStatus {
    /// The variant's name, as `{:?}` prints it.
    pub open spec fn spec_name(self) -> Seq<char> {
        match self {
            OperationStatus::Created => "Created"@,
            OperationStatus::Ready => "Ready"@,
            OperationStatus::Leased => "Leased"@,
            OperationStatus::Running => "Running"@,
            OperationStatus::WaitingExternal => "WaitingExternal"@,
            OperationStatus::Committing => "Committing"@,
            OperationStatus::Succeeded => "Succeeded"@,
            OperationStatus::Failed => "Failed"@,
            OperationStatus::Cancelled => "Cancelled"@,
            OperationStatus::Orphaned => "Orphaned"@,
            OperationStatus::Unknown => "Unknown"@,
        }
    }

    /// The variant's name, as `{:?}` prints it.
    pub fn name(self) -> (s: &'static str)
        ensures
            s@ == self.spec_name(),
    {
        match self {
            OperationStatus::Created => "Created",
            OperationStatus::Ready => "Ready",
            OperationStatus::Leased => "Leased",
            OperationStatus::Running => "Running",
            OperationStatus::WaitingExternal => "WaitingExternal",
            OperationStatus::Committing => "Committing",
            OperationStatus::Succeeded => "Succeeded",
            OperationStatus::Failed => "Failed",
            OperationStatus::Cancelled => "Cancelled",
            OperationStatus::Orphaned => "Orphaned",
            OperationStatus::Unknown => "Unknown",
        }
    }
}

impl JoinKind {
    /// The variant's name, as `{:?}` prints it.
    pub open spec fn spec_name(self) -> Seq<char> {
        match self {
            JoinKind::All => "All"@,
            JoinKind::Any => "Any"@,
        }
    }

    /// The variant's name, as `{:?}` prints it.
    pub fn name(self) -> (s: &'static str)
        ensures
            s@ == self.spec_name(),
    {
        match self {
            JoinKind::All => "All",
            JoinKind::Any => "Any",
        }
    }
}

impl JoinFailurePolicy {
    /// The variant's name, as `{:?}` prints it.
    pub open spec fn spec_name(self) -> Seq<char> {
        match self {
            JoinFailurePolicy::WaitAll => "WaitAll"@,
            JoinFailurePolicy::FailFast => "FailFast"@,
        }
    }

    /// The variant's name, as `{:?}` prints it.
    pub fn name(self) -> (s: &'static str)
        ensures
            s@ == self.spec_name(),
    {
        match self {
            JoinFailurePolicy::WaitAll => "WaitAll",
            JoinFailurePolicy::FailFast => "FailFast",
        }
    }
}

impl JoinOutcome {
    /// The variant's name, as `{:?}` prints it.
    pub open spec fn spec_name(self) -> Seq<char> {
        match self {
            JoinOutcome::Succeeded => "Succeeded"@,
            JoinOutcome::Failed => "Failed"@,
            JoinOutcome::Cancelled => "Cancelled"@,
        }
    }

    /// The variant's name, as `{:?}` prints it.
    pub fn name(self) -> (s: &'static str)
        ensures
            s@ == self.spec_name(),
    {
        match self {
            JoinOutcome::Succeeded => "Succeeded",
            JoinOutcome::Failed => "Failed",
            JoinOutcome::Cancelled => "Cancelled",
        }
    }
}

impl NetworkScope {
    /// The variant's name, as `{:?}` prints it.
    pub open spec fn spec_name(self) -> Seq<char> {
        match self {
            NetworkScope::Deny => "Deny"@,
            NetworkScope::Allow => "Allow"@,
        }
    }

    /// The variant's name, as `{:?}` prints it.
    pub fn name(self) -> (s: &'static str)
        ensures
            s@ == self.spec_name(),
    {
        match self {
            NetworkScope::Deny => "Deny",
            NetworkScope::Allow => "Allow",
        }
    }
}

#[derive(Debug, PartialEq, Eq)]
pub enum Event {
    ExecutionCreated { created_at_ms: i64, note: String },
    ExecutionForked {
        source_execution_id: ExecutionId,
        from_event_id: EventId,
        from_seq: u64,
        source_business_hash: String,
    },
    GoalCreated { goal_id: GoalId, objective: String, required_agent_ids: Vec<AgentId> },
    GoalAcceptanceDefined {
        goal_id: GoalId,
        require_all_required_agents_terminal: bool,
        require_no_running_operations: bool,
        require_barriers: Vec<BarrierId>,
    },
    ModelTurnFinished { turn_id: TurnId, agent_id: AgentId, summary: String },
    GoalCompleted { goal_id: GoalId },
    GoalFailed { goal_id: GoalId, reason: String },
    AgentSpawned {
        agent_id: AgentId,
        parent_agent_id: Option<AgentId>,
        goal_id: GoalId,
        task: String,
        snapshot_id: Option<SnapshotId>,
        capability_id: Option<CapabilityId>,
    },
    AgentStatusChanged { agent_id: AgentId, from: AgentStatus, to: AgentStatus, reason: String },
    TaskCreated { task_id: TaskId, goal_id: GoalId, agent_id: AgentId, description: String },
    JoinCreated {
        join_id: JoinId,
        waiter_agent_id: AgentId,
        children: Vec<AgentId>,
        kind: JoinKind,
        failure_policy: JoinFailurePolicy,
    },
    JoinChildTerminal { join_id: JoinId, child_id: AgentId, child_status: AgentStatus },
    JoinSatisfied { join_id: JoinId, outcome: JoinOutcome },
    OperationCreated {
        operation_id: OperationId,
        agent_id: AgentId,
        attempt_id: AttemptId,
        argv: Vec<String>,
        cwd: String,
        executor_hint: Option<String>,
    },
    OperationScheduled { operation_id: OperationId },
    OperationLeased {
        operation_id: OperationId,
        attempt_id: AttemptId,
        generation: u64,
        owner: LeaseOwnerId,
        expires_at_ms: i64,
        capability_id: Option<CapabilityId>,
        executor_id: String,
    },
    ProcessStarted { operation_id: OperationId, attempt_id: AttemptId, pid: u32, start_key: String },
    ProcessOutputAvailable {
        operation_id: OperationId,
        attempt_id: AttemptId,
        stream: StreamKind,
        offset: u64,
        byte_len: u64,
        chunk_hash: ContentHash,
    },
    ProcessExited {
        operation_id: OperationId,
        attempt_id: AttemptId,
        exit_code: i32,
        signal: Option<String>,
        killed_externally: bool,
    },
    OperationCommitted {
        operation_id: OperationId,
        attempt_id: AttemptId,
        lease_generation: u64,
        exit_code: i32,
    },
    OperationFailed {
        operation_id: OperationId,
        attempt_id: AttemptId,
        lease_generation: Option<u64>,
        reason: String,
    },
    OperationUnresolved { operation_id: OperationId, attempt_id: AttemptId, reason: String },
    OperationCancelled { operation_id: OperationId, reason: String },
    LeaseExpired { operation_id: OperationId, generation: u64 },
    CheckpointTaken { seq: u64, state_hash: String },
    ContextSnapshotAttached {
        snapshot_id: SnapshotId,
        agent_id: AgentId,
        parent_snapshot_id: Option<SnapshotId>,
        chunk_hashes: Vec<ContentHash>,
        byte_len: u64,
    },
    CapabilityGranted {
        capability_id: CapabilityId,
        parent_capability_id: Option<CapabilityId>,
        agent_id: AgentId,
        filesystem_scope: String,
        network: NetworkScope,
        command_allowlist: Vec<String>,
        deadline_ms: Option<i64>,
        approval_evidence: String,
    },
    BarrierCreated { barrier_id: BarrierId, expected_arrivals: u32 },
    BarrierArrived { barrier_id: BarrierId, agent_id: AgentId },
    BarrierSatisfied { barrier_id: BarrierId },
    RetentionChanged { agent_id: AgentId, retained: bool },
}

/// One durable record of the log: the envelope and its payload.
#[derive(Debug, PartialEq, Eq)]
pub struct EventRecord {
    pub schema_version: u16,
    pub execution_id: ExecutionId,
    pub event_id: EventId,
    pub seq: u64,
    pub idempotency_key: IdempotencyKey,
    pub causation_id: Option<EventId>,
    pub correlation_id: Option<CorrelationId>,
    pub parent_event_id: Option<EventId>,
    pub occurred_at_ms: i64,
    pub checksum: String,
    pub payload: Event,
}

/// Two payloads are the same event: same variant, same values and texts.
pub open spec fn same_event(a: Event, b: Event) -> bool {
    match (a, b) {
        (
            Event::ExecutionCreated {
                created_at_ms: x_created_at_ms,
                note: x_note,
            },
            Event::ExecutionCreated {
                created_at_ms: y_created_at_ms,
                note: y_note,
            },
        ) => {
            &&& x_created_at_ms == y_created_at_ms
            &&& x_note@ == y_note@
        },
        (
            Event::ExecutionForked {
                source_execution_id: x_source_execution_id,
                from_event_id: x_from_event_id,
                from_seq: x_from_seq,
                source_business_hash: x_source_business_hash,
            },
            Event::ExecutionForked {
                source_execution_id: y_source_execution_id,
                from_event_id: y_from_event_id,
                from_seq: y_from_seq,
                source_business_hash: y_source_business_hash,
            },
        ) => {
            &&& x_source_execution_id == y_source_execution_id
            &&& x_from_event_id == y_from_event_id
            &&& x_from_seq == y_from_seq
            &&& x_source_business_hash@ == y_source_business_hash@
        },
        (
            Event::GoalCreated {
                goal_id: x_goal_id,
                objective: x_objective,
                required_agent_ids: x_required_agent_ids,
            },
            Event::GoalCreated {
                goal_id: y_goal_id,
                objective: y_objective,
                required_agent_ids: y_required_agent_ids,
            },
        ) => {
            &&& x_goal_id == y_goal_id
            &&& x_objective@ == y_objective@
            &&& x_required_agent_ids@ == y_required_agent_ids@
        },
        (
            Event::GoalAcceptanceDefined {
                goal_id: x_goal_id,
                require_all_required_agents_terminal: x_require_all_required_agents_terminal,
                require_no_running_operations: x_require_no_running_operations,
                require_barriers: x_require_barriers,
            },
            Event::GoalAcceptanceDefined {
                goal_id: y_goal_id,
                require_all_required_agents_terminal: y_require_all_required_agents_terminal,
                require_no_running_operations: y_require_no_running_operations,
                require_barriers: y_require_barriers,
            },
        ) => {
            &&& x_goal_id == y_goal_id
            &&& x_require_all_required_agents_terminal == y_require_all_required_agents_terminal
            &&& x_require_no_running_operations == y_require_no_running_operations
            &&& x_require_barriers@ == y_require_barriers@
        },
        (
            Event::ModelTurnFinished {
                turn_id: x_turn_id,
                agent_id: x_agent_id,
                summary: x_summary,
            },
            Event::ModelTurnFinished {
                turn_id: y_turn_id,
                agent_id: y_agent_id,
                summary: y_summary,
            },
        ) => {
            &&& x_turn_id == y_turn_id
            &&& x_agent_id == y_agent_id
            &&& x_summary@ == y_summary@
        },
        (
            Event::GoalCompleted {
                goal_id: x_goal_id,
            },
            Event::GoalCompleted {
                goal_id: y_goal_id,
            },
        ) => {
            &&& x_goal_id == y_goal_id
        },
        (
            Event::GoalFailed {
                goal_id: x_goal_id,
                reason: x_reason,
            },
            Event::GoalFailed {
                goal_id: y_goal_id,
                reason: y_reason,
            },
        ) => {
            &&& x_goal_id == y_goal_id
            &&& x_reason@ == y_reason@
        },
        (
            Event::AgentSpawned {
                agent_id: x_agent_id,
                parent_agent_id: x_parent_agent_id,
                goal_id: x_goal_id,
                task: x_task,
                snapshot_id: x_snapshot_id,
                capability_id: x_capability_id,
            },
            Event::AgentSpawned {
                agent_id: y_agent_id,
                parent_agent_id: y_parent_agent_id,
                goal_id: y_goal_id,
                task: y_task,
                snapshot_id: y_snapshot_id,
                capability_id: y_capability_id,
            },
        ) => {
            &&& x_agent_id == y_agent_id
            &&& x_parent_agent_id == y_parent_agent_id
            &&& x_goal_id == y_goal_id
            &&& x_task@ == y_task@
            &&& x_snapshot_id == y_snapshot_id
            &&& x_capability_id == y_capability_id
        },
        (
            Event::AgentStatusChanged {
                agent_id: x_agent_id,
                from: x_from,
                to: x_to,
                reason: x_reason,
            },
            Event::AgentStatusChanged {
                agent_id: y_agent_id,
                from: y_from,
                to: y_to,
                reason: y_reason,
            },
        ) => {
            &&& x_agent_id == y_agent_id
            &&& x_from == y_from
            &&& x_to == y_to
            &&& x_reason@ == y_reason@
        },
        (
            Event::TaskCreated {
                task_id: x_task_id,
                goal_id: x_goal_id,
                agent_id: x_agent_id,
                description: x_description,
            },
            Event::TaskCreated {
                task_id: y_task_id,
                goal_id: y_goal_id,
                agent_id: y_agent_id,
                description: y_description,
            },
        ) => {
            &&& x_task_id == y_task_id
            &&& x_goal_id == y_goal_id
            &&& x_agent_id == y_agent_id
            &&& x_description@ == y_description@
        },
        (
            Event::JoinCreated {
                join_id: x_join_id,
                waiter_agent_id: x_waiter_agent_id,
                children: x_children,
                kind: x_kind,
                failure_policy: x_failure_policy,
            },
            Event::JoinCreated {
                join_id: y_join_id,
                waiter_agent_id: y_waiter_agent_id,
                children: y_children,
                kind: y_kind,
                failure_policy: y_failure_policy,
            },
        ) => {
            &&& x_join_id == y_join_id
            &&& x_waiter_agent_id == y_waiter_agent_id
            &&& x_children@ == y_children@
            &&& x_kind == y_kind
            &&& x_failure_policy == y_failure_policy
        },
        (
            Event::JoinChildTerminal {
                join_id: x_join_id,
                child_id: x_child_id,
                child_status: x_child_status,
            },
            Event::JoinChildTerminal {
                join_id: y_join_id,
                child_id: y_child_id,
                child_status: y_child_status,
            },
        ) => {
            &&& x_join_id == y_join_id
            &&& x_child_id == y_child_id
            &&& x_child_status == y_child_status
        },
        (
            Event::JoinSatisfied {
                join_id: x_join_id,
                outcome: x_outcome,
            },
            Event::JoinSatisfied {
                join_id: y_join_id,
                outcome: y_outcome,
            },
        ) => {
            &&& x_join_id == y_join_id
            &&& x_outcome == y_outcome
        },
        (
            Event::OperationCreated {
                operation_id: x_operation_id,
                agent_id: x_agent_id,
                attempt_id: x_attempt_id,
                argv: x_argv,
                cwd: x_cwd,
                executor_hint: x_executor_hint,
            },
            Event::OperationCreated {
                operation_id: y_operation_id,
                agent_id: y_agent_id,
                attempt_id: y_attempt_id,
                argv: y_argv,
                cwd: y_cwd,
                executor_hint: y_executor_hint,
            },
        ) => {
            &&& x_operation_id == y_operation_id
            &&& x_agent_id == y_agent_id
            &&& x_attempt_id == y_attempt_id
            &&& x_argv@ == y_argv@
            &&& x_cwd@ == y_cwd@
            &&& opt_text(x_executor_hint) == opt_text(y_executor_hint)
        },
        (
            Event::OperationScheduled {
                operation_id: x_operation_id,
            },
            Event::OperationScheduled {
                operation_id: y_operation_id,
            },
        ) => {
            &&& x_operation_id == y_operation_id
        },
        (
            Event::OperationLeased {
                operation_id: x_operation_id,
                attempt_id: x_attempt_id,
                generation: x_generation,
                owner: x_owner,
                expires_at_ms: x_expires_at_ms,
                capability_id: x_capability_id,
                executor_id: x_executor_id,
            },
            Event::OperationLeased {
                operation_id: y_operation_id,
                attempt_id: y_attempt_id,
                generation: y_generation,
                owner: y_owner,
                expires_at_ms: y_expires_at_ms,
                capability_id: y_capability_id,
                executor_id: y_executor_id,
            },
        ) => {
            &&& x_operation_id == y_operation_id
            &&& x_attempt_id == y_attempt_id
            &&& x_generation == y_generation
            &&& x_owner == y_owner
            &&& x_expires_at_ms == y_expires_at_ms
            &&& x_capability_id == y_capability_id
            &&& x_executor_id@ == y_executor_id@
        },
        (
            Event::ProcessStarted {
                operation_id: x_operation_id,
                attempt_id: x_attempt_id,
                pid: x_pid,
                start_key: x_start_key,
            },
            Event::ProcessStarted {
                operation_id: y_operation_id,
                attempt_id: y_attempt_id,
                pid: y_pid,
                start_key: y_start_key,
            },
        ) => {
            &&& x_operation_id == y_operation_id
            &&& x_attempt_id == y_attempt_id
            &&& x_pid == y_pid
            &&& x_start_key@ == y_start_key@
        },
        (
            Event::ProcessOutputAvailable {
                operation_id: x_operation_id,
                attempt_id: x_attempt_id,
                stream: x_stream,
                offset: x_offset,
                byte_len: x_byte_len,
                chunk_hash: x_chunk_hash,
            },
            Event::ProcessOutputAvailable {
                operation_id: y_operation_id,
                attempt_id: y_attempt_id,
                stream: y_stream,
                offset: y_offset,
                byte_len: y_byte_len,
                chunk_hash: y_chunk_hash,
            },
        ) => {
            &&& x_operation_id == y_operation_id
            &&& x_attempt_id == y_attempt_id
            &&& x_stream == y_stream
            &&& x_offset == y_offset
            &&& x_byte_len == y_byte_len
            &&& x_chunk_hash == y_chunk_hash
        },
        (
            Event::ProcessExited {
                operation_id: x_operation_id,
                attempt_id: x_attempt_id,
                exit_code: x_exit_code,
                signal: x_signal,
                killed_externally: x_killed_externally,
            },
            Event::ProcessExited {
                operation_id: y_operation_id,
                attempt_id: y_attempt_id,
                exit_code: y_exit_code,
                signal: y_signal,
                killed_externally: y_killed_externally,
            },
        ) => {
            &&& x_operation_id == y_operation_id
            &&& x_attempt_id == y_attempt_id
            &&& x_exit_code == y_exit_code
            &&& opt_text(x_signal) == opt_text(y_signal)
            &&& x_killed_externally == y_killed_externally
        },
        (
            Event::OperationCommitted {
                operation_id: x_operation_id,
                attempt_id: x_attempt_id,
                lease_generation: x_lease_generation,
                exit_code: x_exit_code,
            },
            Event::OperationCommitted {
                operation_id: y_operation_id,
                attempt_id: y_attempt_id,
                lease_generation: y_lease_generation,
                exit_code: y_exit_code,
            },
        ) => {
            &&& x_operation_id == y_operation_id
            &&& x_attempt_id == y_attempt_id
            &&& x_lease_generation == y_lease_generation
            &&& x_exit_code == y_exit_code
        },
        (
            Event::OperationFailed {
                operation_id: x_operation_id,
                attempt_id: x_attempt_id,
                lease_generation: x_lease_generation,
                reason: x_reason,
            },
            Event::OperationFailed {
                operation_id: y_operation_id,
                attempt_id: y_attempt_id,
                lease_generation: y_lease_generation,
                reason: y_reason,
            },
        ) => {
            &&& x_operation_id == y_operation_id
            &&& x_attempt_id == y_attempt_id
            &&& x_lease_generation == y_lease_generation
            &&& x_reason@ == y_reason@
        },
        (
            Event::OperationUnresolved {
                operation_id: x_operation_id,
                attempt_id: x_attempt_id,
                reason: x_reason,
            },
            Event::OperationUnresolved {
                operation_id: y_operation_id,
                attempt_id: y_attempt_id,
                reason: y_reason,
            },
        ) => {
            &&& x_operation_id == y_operation_id
            &&& x_attempt_id == y_attempt_id
            &&& x_reason@ == y_reason@
        },
        (
            Event::OperationCancelled {
                operation_id: x_operation_id,
                reason: x_reason,
            },
            Event::OperationCancelled {
                operation_id: y_operation_id,
                reason: y_reason,
            },
        ) => {
            &&& x_operation_id == y_operation_id
            &&& x_reason@ == y_reason@
        },
        (
            Event::LeaseExpired {
                operation_id: x_operation_id,
                generation: x_generation,
            },
            Event::LeaseExpired {
                operation_id: y_operation_id,
                generation: y_generation,
            },
        ) => {
            &&& x_operation_id == y_operation_id
            &&& x_generation == y_generation
        },
        (
            Event::CheckpointTaken {
                seq: x_seq,
                state_hash: x_state_hash,
            },
            Event::CheckpointTaken {
                seq: y_seq,
                state_hash: y_state_hash,
            },
        ) => {
            &&& x_seq == y_seq
            &&& x_state_hash@ == y_state_hash@
        },
        (
            Event::ContextSnapshotAttached {
                snapshot_id: x_snapshot_id,
                agent_id: x_agent_id,
                parent_snapshot_id: x_parent_snapshot_id,
                chunk_hashes: x_chunk_hashes,
                byte_len: x_byte_len,
            },
            Event::ContextSnapshotAttached {
                snapshot_id: y_snapshot_id,
                agent_id: y_agent_id,
                parent_snapshot_id: y_parent_snapshot_id,
                chunk_hashes: y_chunk_hashes,
                byte_len: y_byte_len,
            },
        ) => {
            &&& x_snapshot_id == y_snapshot_id
            &&& x_agent_id == y_agent_id
            &&& x_parent_snapshot_id == y_parent_snapshot_id
            &&& x_chunk_hashes@ == y_chunk_hashes@
            &&& x_byte_len == y_byte_len
        },
        (
            Event::CapabilityGranted {
                capability_id: x_capability_id,
                parent_capability_id: x_parent_capability_id,
                agent_id: x_agent_id,
                filesystem_scope: x_filesystem_scope,
                network: x_network,
                command_allowlist: x_command_allowlist,
                deadline_ms: x_deadline_ms,
                approval_evidence: x_approval_evidence,
            },
            Event::CapabilityGranted {
                capability_id: y_capability_id,
                parent_capability_id: y_parent_capability_id,
                agent_id: y_agent_id,
                filesystem_scope: y_filesystem_scope,
                network: y_network,
                command_allowlist: y_command_allowlist,
                deadline_ms: y_deadline_ms,
                approval_evidence: y_approval_evidence,
            },
        ) => {
            &&& x_capability_id == y_capability_id
            &&& x_parent_capability_id == y_parent_capability_id
            &&& x_agent_id == y_agent_id
            &&& x_filesystem_scope@ == y_filesystem_scope@
            &&& x_network == y_network
            &&& x_command_allowlist@ == y_command_allowlist@
            &&& x_deadline_ms == y_deadline_ms
            &&& x_approval_evidence@ == y_approval_evidence@
        },
        (
            Event::BarrierCreated {
                barrier_id: x_barrier_id,
                expected_arrivals: x_expected_arrivals,
            },
            Event::BarrierCreated {
                barrier_id: y_barrier_id,
                expected_arrivals: y_expected_arrivals,
            },
        ) => {
            &&& x_barrier_id == y_barrier_id
            &&& x_expected_arrivals == y_expected_arrivals
        },
        (
            Event::BarrierArrived {
                barrier_id: x_barrier_id,
                agent_id: x_agent_id,
            },
            Event::BarrierArrived {
                barrier_id: y_barrier_id,
                agent_id: y_agent_id,
            },
        ) => {
            &&& x_barrier_id == y_barrier_id
            &&& x_agent_id == y_agent_id
        },
        (
            Event::BarrierSatisfied {
                barrier_id: x_barrier_id,
            },
            Event::BarrierSatisfied {
                barrier_id: y_barrier_id,
            },
        ) => {
            &&& x_barrier_id == y_barrier_id
        },
        (
            Event::RetentionChanged {
                agent_id: x_agent_id,
                retained: x_retained,
            },
            Event::RetentionChanged {
                agent_id: y_agent_id,
                retained: y_retained,
            },
        ) => {
            &&& x_agent_id == y_agent_id
            &&& x_retained == y_retained
        },
        _ => false,
    }
}

fn clone_opt_string(o: &Option<String>) -> (r: Option<String>)
    ensures
        opt_text(r) == opt_text(*o),
{
    match o {
        Some(s) => Some(s.clone()),
        None => None,
    }
}

impl Clone for Event {
    fn clone(&self) -> (c: Self)
        ensures
            same_event(c, *self),
    {
        match self {
            Event::ExecutionCreated { created_at_ms, note } => Event::ExecutionCreated {
                created_at_ms: *created_at_ms,
                note: note.clone(),
            },
            Event::ExecutionForked { source_execution_id, from_event_id, from_seq, source_business_hash } => Event::ExecutionForked {
                source_execution_id: *source_execution_id,
                from_event_id: *from_event_id,
                from_seq: *from_seq,
                source_business_hash: source_business_hash.clone(),
            },
            Event::GoalCreated { goal_id, objective, required_agent_ids } => Event::GoalCreated {
                goal_id: *goal_id,
                objective: objective.clone(),
                required_agent_ids: required_agent_ids.clone(),
            },
            Event::GoalAcceptanceDefined { goal_id, require_all_required_agents_terminal, require_no_running_operations, require_barriers } => Event::GoalAcceptanceDefined {
                goal_id: *goal_id,
                require_all_required_agents_terminal: *require_all_required_agents_terminal,
                require_no_running_operations: *require_no_running_operations,
                require_barriers: require_barriers.clone(),
            },
            Event::ModelTurnFinished { turn_id, agent_id, summary } => Event::ModelTurnFinished {
                turn_id: *turn_id,
                agent_id: *agent_id,
                summary: summary.clone(),
            },
            Event::GoalCompleted { goal_id } => Event::GoalCompleted {
                goal_id: *goal_id,
            },
            Event::GoalFailed { goal_id, reason } => Event::GoalFailed {
                goal_id: *goal_id,
                reason: reason.clone(),
            },
            Event::AgentSpawned { agent_id, parent_agent_id, goal_id, task, snapshot_id, capability_id } => Event::AgentSpawned {
                agent_id: *agent_id,
                parent_agent_id: *parent_agent_id,
                goal_id: *goal_id,
                task: task.clone(),
                snapshot_id: *snapshot_id,
                capability_id: *capability_id,
            },
            Event::AgentStatusChanged { agent_id, from, to, reason } => Event::AgentStatusChanged {
                agent_id: *agent_id,
                from: *from,
                to: *to,
                reason: reason.clone(),
            },
            Event::TaskCreated { task_id, goal_id, agent_id, description } => Event::TaskCreated {
                task_id: *task_id,
                goal_id: *goal_id,
                agent_id: *agent_id,
                description: description.clone(),
            },
            Event::JoinCreated { join_id, waiter_agent_id, children, kind, failure_policy } => Event::JoinCreated {
                join_id: *join_id,
                waiter_agent_id: *waiter_agent_id,
                children: children.clone(),
                kind: *kind,
                failure_policy: *failure_policy,
            },
            Event::JoinChildTerminal { join_id, child_id, child_status } => Event::JoinChildTerminal {
                join_id: *join_id,
                child_id: *child_id,
                child_status: *child_status,
            },
            Event::JoinSatisfied { join_id, outcome } => Event::JoinSatisfied {
                join_id: *join_id,
                outcome: *outcome,
            },
            Event::OperationCreated { operation_id, agent_id, attempt_id, argv, cwd, executor_hint } => Event::OperationCreated {
                operation_id: *operation_id,
                agent_id: *agent_id,
                attempt_id: *attempt_id,
                argv: argv.clone(),
                cwd: cwd.clone(),
                executor_hint: clone_opt_string(executor_hint),
            },
            Event::OperationScheduled { operation_id } => Event::OperationScheduled {
                operation_id: *operation_id,
            },
            Event::OperationLeased { operation_id, attempt_id, generation, owner, expires_at_ms, capability_id, executor_id } => Event::OperationLeased {
                operation_id: *operation_id,
                attempt_id: *attempt_id,
                generation: *generation,
                owner: *owner,
                expires_at_ms: *expires_at_ms,
                capability_id: *capability_id,
                executor_id: executor_id.clone(),
            },
            Event::ProcessStarted { operation_id, attempt_id, pid, start_key } => Event::ProcessStarted {
                operation_id: *operation_id,
                attempt_id: *attempt_id,
                pid: *pid,
                start_key: start_key.clone(),
            },
            Event::ProcessOutputAvailable { operation_id, attempt_id, stream, offset, byte_len, chunk_hash } => Event::ProcessOutputAvailable {
                operation_id: *operation_id,
                attempt_id: *attempt_id,
                stream: *stream,
                offset: *offset,
                byte_len: *byte_len,
                chunk_hash: *chunk_hash,
            },
            Event::ProcessExited { operation_id, attempt_id, exit_code, signal, killed_externally } => Event::ProcessExited {
                operation_id: *operation_id,
                attempt_id: *attempt_id,
                exit_code: *exit_code,
                signal: clone_opt_string(signal),
                killed_externally: *killed_externally,
            },
            Event::OperationCommitted { operation_id, attempt_id, lease_generation, exit_code } => Event::OperationCommitted {
                operation_id: *operation_id,
                attempt_id: *attempt_id,
                lease_generation: *lease_generation,
                exit_code: *exit_code,
            },
            Event::OperationFailed { operation_id, attempt_id, lease_generation, reason } => Event::OperationFailed {
                operation_id: *operation_id,
                attempt_id: *attempt_id,
                lease_generation: *lease_generation,
                reason: reason.clone(),
            },
            Event::OperationUnresolved { operation_id, attempt_id, reason } => Event::OperationUnresolved {
                operation_id: *operation_id,
                attempt_id: *attempt_id,
                reason: reason.clone(),
            },
            Event::OperationCancelled { operation_id, reason } => Event::OperationCancelled {
                operation_id: *operation_id,
                reason: reason.clone(),
            },
            Event::LeaseExpired { operation_id, generation } => Event::LeaseExpired {
                operation_id: *operation_id,
                generation: *generation,
            },
            Event::CheckpointTaken { seq, state_hash } => Event::CheckpointTaken {
                seq: *seq,
                state_hash: state_hash.clone(),
            },
            Event::ContextSnapshotAttached { snapshot_id, agent_id, parent_snapshot_id, chunk_hashes, byte_len } => Event::ContextSnapshotAttached {
                snapshot_id: *snapshot_id,
                agent_id: *agent_id,
                parent_snapshot_id: *parent_snapshot_id,
                chunk_hashes: chunk_hashes.clone(),
                byte_len: *byte_len,
            },
            Event::CapabilityGranted { capability_id, parent_capability_id, agent_id, filesystem_scope, network, command_allowlist, deadline_ms, approval_evidence } => Event::CapabilityGranted {
                capability_id: *capability_id,
                parent_capability_id: *parent_capability_id,
                agent_id: *agent_id,
                filesystem_scope: filesystem_scope.clone(),
                network: *network,
                command_allowlist: command_allowlist.clone(),
                deadline_ms: *deadline_ms,
                approval_evidence: approval_evidence.clone(),
            },
            Event::BarrierCreated { barrier_id, expected_arrivals } => Event::BarrierCreated {
                barrier_id: *barrier_id,
                expected_arrivals: *expected_arrivals,
            },
            Event::BarrierArrived { barrier_id, agent_id } => Event::BarrierArrived {
                barrier_id: *barrier_id,
                agent_id: *agent_id,
            },
            Event::BarrierSatisfied { barrier_id } => Event::BarrierSatisfied {
                barrier_id: *barrier_id,
            },
            Event::RetentionChanged { agent_id, retained } => Event::RetentionChanged {
                agent_id: *agent_id,
                retained: *retained,
            },
        }
    }
}

/// Two records are the same: equal envelope values, the same key text and
/// checksum text, and the same event.
pub open spec fn same_record(a: EventRecord, b: EventRecord) -> bool {
    &&& a.schema_version == b.schema_version
    &&& a.execution_id == b.execution_id
    &&& a.event_id == b.event_id
    &&& a.seq == b.seq
    &&& a.idempotency_key.0@ == b.idempotency_key.0@
    &&& a.causation_id == b.causation_id
    &&& a.correlation_id == b.correlation_id
    &&& a.parent_event_id == b.parent_event_id
    &&& a.occurred_at_ms == b.occurred_at_ms
    &&& a.checksum@ == b.checksum@
    &&& same_event(a.payload, b.payload)
}

impl Clone for EventRecord {
    fn clone(&self) -> (c: Self)
        ensures
            same_record(c, *self),
    {
        EventRecord {
            schema_version: self.schema_version,
            execution_id: self.execution_id,
            event_id: self.event_id,
            seq: self.seq,
            idempotency_key: IdempotencyKey(self.idempotency_key.0.clone()),
            causation_id: self.causation_id,
            correlation_id: self.correlation_id,
            parent_event_id: self.parent_event_id,
            occurred_at_ms: self.occurred_at_ms,
            checksum: self.checksum.clone(),
            payload: self.payload.clone(),
        }
    }
}

/// The checksum of a record: lowercase hex of the BLAKE3 digest of its
/// canonical bytes (the record serialized with an empty checksum).
pub open spec fn checksum_text(canonical: Seq<u8>) -> Seq<char> {
    hex_lower(blake3_digest(canonical))
}

/// A lowercase hexadecimal digit.
pub open spec fn is_lower_hex_digit(c: char) -> bool {
    ('0' <= c && c <= '9') || ('a' <= c && c <= 'f')
}

impl EventRecord {
    /// The checksum that `canonical`, the serialization of this record with an
    /// empty checksum, gives: 64 lowercase hex digits.
    pub fn compute_checksum(&self, canonical: &[u8]) -> (s: String)
        ensures
            s@ == checksum_text(canonical@),
            s@.len() == 64,
            forall|i: int| 0 <= i < 64 ==> is_lower_hex_digit(#[trigger] s@[i]),
    {
        let h = ContentHash::of_bytes(canonical);
        let s = h.to_hex();
        proof {
            assert(h.0@.len() == 32);
            assert forall|i: int| 0 <= i < 64 implies is_lower_hex_digit(#[trigger] s@[i]) by {
                let b = h.0@[i / 2];
                assert(b / 16 < 16 && b % 16 < 16);
            }
        }
        s
    }

    /// This record with its checksum set from its canonical bytes.
    pub fn with_checksum(self, canonical: &[u8]) -> (r: EventRecord)
        ensures
            r.checksum@ == checksum_text(canonical@),
            r == (EventRecord { checksum: r.checksum, ..self }),
    {
        let checksum = self.compute_checksum(canonical);
        EventRecord { checksum, ..self }
    }

    /// Succeeds exactly when the stored checksum matches the canonical bytes.
    pub fn verify_checksum(&self, canonical: &[u8]) -> (r: Result<(), KernelError>)
        ensures
            r is Ok <==> self.checksum@ == checksum_text(canonical@),
            r matches Err(e) ==> e is ChecksumMismatch,
    {
        let expected = self.compute_checksum(canonical);
        if expected != self.checksum {
            return Err(KernelError::ChecksumMismatch);
        }
        Ok(())
    }
}

} // verus!
