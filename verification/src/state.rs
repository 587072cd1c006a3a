//! Reduced kernel state and its mathematical model.
use vstd::prelude::*;

use crate::error::KernelError;
use crate::event::{
    AgentStatus, GoalStatus, JoinFailurePolicy, JoinKind, JoinOutcome, NetworkScope,
    OperationStatus, StreamKind,
};
use crate::idmap::{IdMap, KeyIndex};
use crate::ids::{
    AgentId, AttemptId, BarrierId, CapabilityId, ContentHash, EventId, ExecutionId, GoalId,
    JoinId, LeaseOwnerId, OperationId, SnapshotId, TaskId, TurnId,
};

verus! {

/// Text view of an optional string.
pub open spec fn opt_text(o: Option<String>) -> Option<Seq<char>> {
    match o {
        Some(s) => Some(s@),
        None => None,
    }
}

/// Text view of a list of strings.
pub open spec fn texts(v: Seq<String>) -> Seq<Seq<char>> {
    v.map_values(|s: String| s@)
}

#[derive(Clone, Debug, PartialEq, Eq)]
pub struct ForkAncestry {
    pub source_execution_id: ExecutionId,
    pub from_event_id: EventId,
    pub from_seq: u64,
    pub source_business_hash: String,
}

pub struct ForkAncestryView {
    pub source_execution_id: ExecutionId,
    pub from_event_id: EventId,
    pub from_seq: u64,
    pub source_business_hash: Seq<char>,
}

impl View for ForkAncestry {
    type V = ForkAncestryView;

    open spec fn view(&self) -> ForkAncestryView {
        ForkAncestryView {
            source_execution_id: self.source_execution_id,
            from_event_id: self.from_event_id,
            from_seq: self.from_seq,
            source_business_hash: self.source_business_hash@,
        }
    }
}

#[derive(Clone, Debug, PartialEq, Eq)]
pub struct GoalState {
    pub id: GoalId,
    pub objective: String,
    pub status: GoalStatus,
    pub required_agent_ids: Vec<AgentId>,
    pub require_all_required_agents_terminal: bool,
    pub require_no_running_operations: bool,
    pub require_barriers: Vec<BarrierId>,
    pub model_turns_finished: u64,
}

pub struct GoalView {
    pub id: GoalId,
    pub objective: Seq<char>,
    pub status: GoalStatus,
    pub required_agent_ids: Seq<AgentId>,
    pub require_all_required_agents_terminal: bool,
    pub require_no_running_operations: bool,
    pub require_barriers: Seq<BarrierId>,
    pub model_turns_finished: u64,
}

impl View for GoalState {
    type V = GoalView;

    open spec fn view(&self) -> GoalView {
        GoalView {
            id: self.id,
            objective: self.objective@,
            status: self.status,
            required_agent_ids: self.required_agent_ids@,
            require_all_required_agents_terminal: self.require_all_required_agents_terminal,
            require_no_running_operations: self.require_no_running_operations,
            require_barriers: self.require_barriers@,
            model_turns_finished: self.model_turns_finished,
        }
    }
}

#[derive(Clone, Debug, PartialEq, Eq)]
pub struct AgentState {
    pub id: AgentId,
    pub parent_agent_id: Option<AgentId>,
    pub goal_id: GoalId,
    pub task: String,
    pub status: AgentStatus,
    pub snapshot_id: Option<SnapshotId>,
    pub capability_id: Option<CapabilityId>,
    pub retained: bool,
}

pub struct AgentView {
    pub id: AgentId,
    pub parent_agent_id: Option<AgentId>,
    pub goal_id: GoalId,
    pub task: Seq<char>,
    pub status: AgentStatus,
    pub snapshot_id: Option<SnapshotId>,
    pub capability_id: Option<CapabilityId>,
    pub retained: bool,
}

impl View for AgentState {
    type V = AgentView;

    open spec fn view(&self) -> AgentView {
        AgentView {
            id: self.id,
            parent_agent_id: self.parent_agent_id,
            goal_id: self.goal_id,
            task: self.task@,
            status: self.status,
            snapshot_id: self.snapshot_id,
            capability_id: self.capability_id,
            retained: self.retained,
        }
    }
}

#[derive(Clone, Debug, PartialEq, Eq)]
pub struct TaskState {
    pub id: TaskId,
    pub goal_id: GoalId,
    pub agent_id: AgentId,
    pub description: String,
}

pub struct TaskView {
    pub id: TaskId,
    pub goal_id: GoalId,
    pub agent_id: AgentId,
    pub description: Seq<char>,
}

impl View for TaskState {
    type V = TaskView;

    open spec fn view(&self) -> TaskView {
        TaskView {
            id: self.id,
            goal_id: self.goal_id,
            agent_id: self.agent_id,
            description: self.description@,
        }
    }
}

#[derive(Clone, Debug, PartialEq, Eq)]
pub struct LeaseState {
    pub generation: u64,
    pub owner: LeaseOwnerId,
    pub expires_at_ms: i64,
    pub executor_id: String,
    pub capability_id: Option<CapabilityId>,
    pub expired: bool,
}

pub struct LeaseView {
    pub generation: u64,
    pub owner: LeaseOwnerId,
    pub expires_at_ms: i64,
    pub executor_id: Seq<char>,
    pub capability_id: Option<CapabilityId>,
    pub expired: bool,
}

impl View for LeaseState {
    type V = LeaseView;

    open spec fn view(&self) -> LeaseView {
        LeaseView {
            generation: self.generation,
            owner: self.owner,
            expires_at_ms: self.expires_at_ms,
            executor_id: self.executor_id@,
            capability_id: self.capability_id,
            expired: self.expired,
        }
    }
}

pub open spec fn opt_lease(o: Option<LeaseState>) -> Option<LeaseView> {
    match o {
        Some(l) => Some(l@),
        None => None,
    }
}

#[derive(Clone, Copy, Debug, PartialEq, Eq)]
pub struct OutputChunk {
    pub stream: StreamKind,
    pub offset: u64,
    pub byte_len: u64,
    pub chunk_hash: ContentHash,
}

#[derive(Clone, Debug, PartialEq, Eq)]
pub struct AttemptState {
    pub id: AttemptId,
    pub pid: Option<u32>,
    pub start_key: Option<String>,
    pub exit_code: Option<i32>,
    pub signal: Option<String>,
    pub killed_externally: bool,
    pub output_chunks: Vec<OutputChunk>,
}

pub struct AttemptView {
    pub id: AttemptId,
    pub pid: Option<u32>,
    pub start_key: Option<Seq<char>>,
    pub exit_code: Option<i32>,
    pub signal: Option<Seq<char>>,
    pub killed_externally: bool,
    pub output_chunks: Seq<OutputChunk>,
}

impl View for AttemptState {
    type V = AttemptView;

    open spec fn view(&self) -> AttemptView {
        AttemptView {
            id: self.id,
            pid: self.pid,
            start_key: opt_text(self.start_key),
            exit_code: self.exit_code,
            signal: opt_text(self.signal),
            killed_externally: self.killed_externally,
            output_chunks: self.output_chunks@,
        }
    }
}

/// A fresh attempt record: nothing observed yet.
pub open spec fn fresh_attempt(id: AttemptId) -> AttemptView {
    AttemptView {
        id,
        pid: None,
        start_key: None,
        exit_code: None,
        signal: None,
        killed_externally: false,
        output_chunks: Seq::empty(),
    }
}

pub fn new_attempt(id: AttemptId) -> (a: AttemptState)
    ensures
        a@ == fresh_attempt(id),
{
    AttemptState {
        id,
        pid: None,
        start_key: None,
        exit_code: None,
        signal: None,
        killed_externally: false,
        output_chunks: Vec::new(),
    }
}

#[derive(Clone, Debug, PartialEq, Eq)]
pub struct OperationState {
    pub id: OperationId,
    pub agent_id: AgentId,
    pub status: OperationStatus,
    pub argv: Vec<String>,
    pub cwd: String,
    pub executor_hint: Option<String>,
    pub attempts: IdMap<AttemptState>,
    pub active_attempt: Option<AttemptId>,
    pub lease: Option<LeaseState>,
    pub committed_attempt: Option<AttemptId>,
    pub committed_exit_code: Option<i32>,
}

pub struct OperationView {
    pub id: OperationId,
    pub agent_id: AgentId,
    pub status: OperationStatus,
    pub argv: Seq<Seq<char>>,
    pub cwd: Seq<char>,
    pub executor_hint: Option<Seq<char>>,
    pub attempts: Map<u128, AttemptView>,
    pub active_attempt: Option<AttemptId>,
    pub lease: Option<LeaseView>,
    pub committed_attempt: Option<AttemptId>,
    pub committed_exit_code: Option<i32>,
}

impl View for OperationState {
    type V = OperationView;

    open spec fn view(&self) -> OperationView {
        OperationView {
            id: self.id,
            agent_id: self.agent_id,
            status: self.status,
            argv: texts(self.argv@),
            cwd: self.cwd@,
            executor_hint: opt_text(self.executor_hint),
            attempts: self.attempts@.map_values(|a: AttemptState| a@),
            active_attempt: self.active_attempt,
            lease: opt_lease(self.lease),
            committed_attempt: self.committed_attempt,
            committed_exit_code: self.committed_exit_code,
        }
    }
}

#[derive(Clone, Debug, PartialEq, Eq)]
pub struct JoinState {
    pub id: JoinId,
    pub waiter_agent_id: AgentId,
    pub children: Vec<AgentId>,
    pub kind: JoinKind,
    pub failure_policy: JoinFailurePolicy,
    /// Terminal statuses observed for children, in the order first observed.
    pub observed: Vec<(AgentId, AgentStatus)>,
    pub outcome: Option<JoinOutcome>,
}

pub struct JoinView {
    pub id: JoinId,
    pub waiter_agent_id: AgentId,
    pub children: Seq<AgentId>,
    pub kind: JoinKind,
    pub failure_policy: JoinFailurePolicy,
    pub observed: Seq<(AgentId, AgentStatus)>,
    pub outcome: Option<JoinOutcome>,
}

impl View for JoinState {
    type V = JoinView;

    open spec fn view(&self) -> JoinView {
        JoinView {
            id: self.id,
            waiter_agent_id: self.waiter_agent_id,
            children: self.children@,
            kind: self.kind,
            failure_policy: self.failure_policy,
            observed: self.observed@,
            outcome: self.outcome,
        }
    }
}

#[derive(Clone, Debug, PartialEq, Eq)]
pub struct BarrierState {
    pub id: BarrierId,
    pub expected_arrivals: u32,
    pub arrivals: Vec<AgentId>,
    pub satisfied: bool,
}

pub struct BarrierView {
    pub id: BarrierId,
    pub expected_arrivals: u32,
    pub arrivals: Seq<AgentId>,
    pub satisfied: bool,
}

impl View for BarrierState {
    type V = BarrierView;

    open spec fn view(&self) -> BarrierView {
        BarrierView {
            id: self.id,
            expected_arrivals: self.expected_arrivals,
            arrivals: self.arrivals@,
            satisfied: self.satisfied,
        }
    }
}

#[derive(Clone, Debug, PartialEq, Eq)]
pub struct CapabilityState {
    pub id: CapabilityId,
    pub parent_capability_id: Option<CapabilityId>,
    pub agent_id: AgentId,
    pub filesystem_scope: String,
    pub network: NetworkScope,
    pub command_allowlist: Vec<String>,
    pub deadline_ms: Option<i64>,
    pub approval_evidence: String,
}

pub struct CapabilityView {
    pub id: CapabilityId,
    pub parent_capability_id: Option<CapabilityId>,
    pub agent_id: AgentId,
    pub filesystem_scope: Seq<char>,
    pub network: NetworkScope,
    pub command_allowlist: Seq<Seq<char>>,
    pub deadline_ms: Option<i64>,
    pub approval_evidence: Seq<char>,
}

impl View for CapabilityState {
    type V = CapabilityView;

    open spec fn view(&self) -> CapabilityView {
        CapabilityView {
            id: self.id,
            parent_capability_id: self.parent_capability_id,
            agent_id: self.agent_id,
            filesystem_scope: self.filesystem_scope@,
            network: self.network,
            command_allowlist: texts(self.command_allowlist@),
            deadline_ms: self.deadline_ms,
            approval_evidence: self.approval_evidence@,
        }
    }
}

#[derive(Clone, Debug, PartialEq, Eq)]
pub struct SnapshotState {
    pub id: SnapshotId,
    pub agent_id: AgentId,
    pub parent_snapshot_id: Option<SnapshotId>,
    pub chunk_hashes: Vec<ContentHash>,
    pub byte_len: u64,
}

pub struct SnapshotView {
    pub id: SnapshotId,
    pub agent_id: AgentId,
    pub parent_snapshot_id: Option<SnapshotId>,
    pub chunk_hashes: Seq<ContentHash>,
    pub byte_len: u64,
}

impl View for SnapshotState {
    type V = SnapshotView;

    open spec fn view(&self) -> SnapshotView {
        SnapshotView {
            id: self.id,
            agent_id: self.agent_id,
            parent_snapshot_id: self.parent_snapshot_id,
            chunk_hashes: self.chunk_hashes@,
            byte_len: self.byte_len,
        }
    }
}

#[derive(Clone, Debug, PartialEq, Eq)]
pub struct ModelTurnState {
    pub turn_id: TurnId,
    pub agent_id: AgentId,
    pub summary: String,
}

pub struct ModelTurnView {
    pub turn_id: TurnId,
    pub agent_id: AgentId,
    pub summary: Seq<char>,
}

impl View for ModelTurnState {
    type V = ModelTurnView;

    open spec fn view(&self) -> ModelTurnView {
        ModelTurnView { turn_id: self.turn_id, agent_id: self.agent_id, summary: self.summary@ }
    }
}

#[derive(Clone, Debug, PartialEq, Eq)]
pub struct CheckpointState {
    pub seq: u64,
    pub state_hash: String,
}

pub struct CheckpointView {
    pub seq: u64,
    pub state_hash: Seq<char>,
}

impl View for CheckpointState {
    type V = CheckpointView;

    open spec fn view(&self) -> CheckpointView {
        CheckpointView { seq: self.seq, state_hash: self.state_hash@ }
    }
}

#[derive(Clone, Debug, PartialEq, Eq)]
pub struct ExecutionState {
    pub id: ExecutionId,
    pub created_at_ms: i64,
    pub note: String,
    pub ancestor: Option<ForkAncestry>,
    pub goals: IdMap<GoalState>,
    pub agents: IdMap<AgentState>,
    pub tasks: IdMap<TaskState>,
    pub operations: IdMap<OperationState>,
    pub joins: IdMap<JoinState>,
    pub barriers: IdMap<BarrierState>,
    pub capabilities: IdMap<CapabilityState>,
    pub snapshots: IdMap<SnapshotState>,
    pub model_turns: Vec<ModelTurnState>,
    pub checkpoints: Vec<CheckpointState>,
}

pub struct ExecutionView {
    pub id: ExecutionId,
    pub created_at_ms: i64,
    pub note: Seq<char>,
    pub ancestor: Option<ForkAncestryView>,
    pub goals: Map<u128, GoalView>,
    pub agents: Map<u128, AgentView>,
    pub tasks: Map<u128, TaskView>,
    pub operations: Map<u128, OperationView>,
    pub joins: Map<u128, JoinView>,
    pub barriers: Map<u128, BarrierView>,
    pub capabilities: Map<u128, CapabilityView>,
    pub snapshots: Map<u128, SnapshotView>,
    pub model_turns: Seq<ModelTurnView>,
    pub checkpoints: Seq<CheckpointView>,
}

pub open spec fn opt_ancestry(o: Option<ForkAncestry>) -> Option<ForkAncestryView> {
    match o {
        Some(a) => Some(a@),
        None => None,
    }
}

impl View for ExecutionState {
    type V = ExecutionView;

    open spec fn view(&self) -> ExecutionView {
        ExecutionView {
            id: self.id,
            created_at_ms: self.created_at_ms,
            note: self.note@,
            ancestor: opt_ancestry(self.ancestor),
            goals: self.goals@.map_values(|g: GoalState| g@),
            agents: self.agents@.map_values(|a: AgentState| a@),
            tasks: self.tasks@.map_values(|t: TaskState| t@),
            operations: self.operations@.map_values(|o: OperationState| o@),
            joins: self.joins@.map_values(|j: JoinState| j@),
            barriers: self.barriers@.map_values(|b: BarrierState| b@),
            capabilities: self.capabilities@.map_values(|c: CapabilityState| c@),
            snapshots: self.snapshots@.map_values(|s: SnapshotState| s@),
            model_turns: self.model_turns@.map_values(|t: ModelTurnState| t@),
            checkpoints: self.checkpoints@.map_values(|c: CheckpointState| c@),
        }
    }
}

/// A newly created execution: nothing but its identity and note.
pub open spec fn new_execution_view(id: ExecutionId, created_at_ms: i64, note: Seq<char>) -> ExecutionView {
    ExecutionView {
        id,
        created_at_ms,
        note,
        ancestor: None,
        goals: Map::empty(),
        agents: Map::empty(),
        tasks: Map::empty(),
        operations: Map::empty(),
        joins: Map::empty(),
        barriers: Map::empty(),
        capabilities: Map::empty(),
        snapshots: Map::empty(),
        model_turns: Seq::empty(),
        checkpoints: Seq::empty(),
    }
}

impl ExecutionState {
    pub fn new(id: ExecutionId, created_at_ms: i64, note: String) -> (e: Self)
        ensures
            e@ == new_execution_view(id, created_at_ms, note@),
    {
        let e = ExecutionState {
            id,
            created_at_ms,
            note,
            ancestor: None,
            goals: IdMap::new(),
            agents: IdMap::new(),
            tasks: IdMap::new(),
            operations: IdMap::new(),
            joins: IdMap::new(),
            barriers: IdMap::new(),
            capabilities: IdMap::new(),
            snapshots: IdMap::new(),
            model_turns: Vec::new(),
            checkpoints: Vec::new(),
        };
        assert(e@.goals =~= Map::<u128, GoalView>::empty());
        assert(e@.agents =~= Map::<u128, AgentView>::empty());
        assert(e@.tasks =~= Map::<u128, TaskView>::empty());
        assert(e@.operations =~= Map::<u128, OperationView>::empty());
        assert(e@.joins =~= Map::<u128, JoinView>::empty());
        assert(e@.barriers =~= Map::<u128, BarrierView>::empty());
        assert(e@.capabilities =~= Map::<u128, CapabilityView>::empty());
        assert(e@.snapshots =~= Map::<u128, SnapshotView>::empty());
        assert(e@.model_turns =~= Seq::<ModelTurnView>::empty());
        assert(e@.checkpoints =~= Seq::<CheckpointView>::empty());
        e
    }

    /// The business part of the state: everything but identity, creation
    /// metadata, ancestry and checkpoints.
    pub fn business_view(&self) -> (b: BusinessStateView<'_>)
        ensures
            b.goals == &self.goals,
            b.agents == &self.agents,
            b.tasks == &self.tasks,
            b.operations == &self.operations,
            b.joins == &self.joins,
            b.barriers == &self.barriers,
            b.capabilities == &self.capabilities,
            b.snapshots == &self.snapshots,
            b.model_turns == &self.model_turns,
    {
        BusinessStateView {
            goals: &self.goals,
            agents: &self.agents,
            tasks: &self.tasks,
            operations: &self.operations,
            joins: &self.joins,
            barriers: &self.barriers,
            capabilities: &self.capabilities,
            snapshots: &self.snapshots,
            model_turns: &self.model_turns,
        }
    }
}

/// Borrowed business part of an execution, the input of the business hash.
pub struct BusinessStateView<'a> {
    pub goals: &'a IdMap<GoalState>,
    pub agents: &'a IdMap<AgentState>,
    pub tasks: &'a IdMap<TaskState>,
    pub operations: &'a IdMap<OperationState>,
    pub joins: &'a IdMap<JoinState>,
    pub barriers: &'a IdMap<BarrierState>,
    pub capabilities: &'a IdMap<CapabilityState>,
    pub snapshots: &'a IdMap<SnapshotState>,
    pub model_turns: &'a Vec<ModelTurnState>,
}

#[derive(Clone, Debug, PartialEq, Eq)]
pub struct KernelState {
    pub executions: IdMap<ExecutionState>,
    pub seen_event_ids: IdMap<()>,
    pub idempotency_index: KeyIndex,
    pub last_seq: IdMap<u64>,
}

pub struct KernelView {
    pub executions: Map<u128, ExecutionView>,
    pub seen_event_ids: Set<u128>,
    pub idempotency_index: Map<Seq<char>, EventId>,
    pub last_seq: Map<u128, u64>,
}

impl View for KernelState {
    type V = KernelView;

    open spec fn view(&self) -> KernelView {
        KernelView {
            executions: self.executions@.map_values(|e: ExecutionState| e@),
            seen_event_ids: self.seen_event_ids@.dom(),
            idempotency_index: self.idempotency_index@,
            last_seq: self.last_seq@,
        }
    }
}

/// The state before any record: nothing known.
pub open spec fn empty_kernel_view() -> KernelView {
    KernelView {
        executions: Map::empty(),
        seen_event_ids: Set::empty(),
        idempotency_index: Map::empty(),
        last_seq: Map::empty(),
    }
}

impl KernelState {
    pub fn new() -> (s: Self)
        ensures
            s@ == empty_kernel_view(),
    {
        let s = KernelState {
            executions: IdMap::new(),
            seen_event_ids: IdMap::new(),
            idempotency_index: KeyIndex::new(),
            last_seq: IdMap::new(),
        };
        assert(s@.executions =~= Map::<u128, ExecutionView>::empty());
        assert(s@.seen_event_ids =~= Set::<u128>::empty());
        s
    }

    pub fn execution(&self, id: ExecutionId) -> (r: Option<&ExecutionState>)
        ensures
            match r {
                Some(e) => self@.executions.contains_key(id.0) && e@ == self@.executions[id.0]
                    && *e == self.executions@[id.0],
                None => !self@.executions.contains_key(id.0),
            },
    {
        self.executions.get(id.0)
    }

    /// The execution with this id, to change in place.
    pub fn execution_mut(&mut self, id: ExecutionId) -> (r: Option<&mut ExecutionState>)
        ensures
            match r {
                Some(e) => {
                    &&& old(self).executions@.contains_key(id.0)
                    &&& *e == old(self).executions@[id.0]
                    &&& final(self).executions@ == old(self).executions@.insert(id.0, *final(e))
                    &&& final(self).seen_event_ids == old(self).seen_event_ids
                    &&& final(self).idempotency_index == old(self).idempotency_index
                    &&& final(self).last_seq == old(self).last_seq
                },
                None => !old(self).executions@.contains_key(id.0) && *final(self) == *old(self),
            },
    {
        self.executions.get_mut(id.0)
    }

    pub fn require_execution(&self, id: ExecutionId) -> (r: Result<&ExecutionState, KernelError>)
        ensures
            match r {
                Ok(e) => self@.executions.contains_key(id.0) && e@ == self@.executions[id.0]
                    && self.executions@.contains_key(id.0) && *e == self.executions@[id.0],
                Err(err) => !self@.executions.contains_key(id.0) && err == KernelError::ExecutionNotFound(id),
            },
    {
        match self.executions.get(id.0) {
            Some(e) => Ok(e),
            None => Err(KernelError::ExecutionNotFound(id)),
        }
    }
}

} // verus!
