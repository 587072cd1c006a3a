//! The transition semantics of the event log, as mathematics.
//!
//! `reduce_spec` says what reducing one record does to the kernel state and
//! which error refuses it; the executable reducer is proved to compute it.
use vstd::prelude::*;

use crate::error::{rejected, KernelError, Rejection};
use crate::event::{
    checksum_text, AgentStatus, Event, EventRecord, GoalStatus, JoinFailurePolicy, JoinKind,
    JoinOutcome, NetworkScope, OperationStatus, SCHEMA_VERSION,
};
use crate::ids::{AgentId, AttemptId, CapabilityId, GoalId, JoinId, OperationId};
use crate::state::{
    fresh_attempt, new_execution_view, opt_text, texts, AgentView, AttemptView, BarrierView,
    CapabilityView, CheckpointView, ExecutionView, ForkAncestryView, GoalView, JoinView,
    KernelView, LeaseView, ModelTurnView, OperationView, OutputChunk, SnapshotView, TaskView,
};

verus! {

/// The agent lifecycle: which status changes the reducer accepts.
pub open spec fn legal_agent_transition_spec(from: AgentStatus, to: AgentStatus) -> bool {
    if from == to {
        true
    } else {
        match from {
            AgentStatus::Created => to == AgentStatus::Runnable || to == AgentStatus::Running || to
                == AgentStatus::Cancelled,
            AgentStatus::Runnable => to == AgentStatus::Running || to == AgentStatus::WaitingJoin
                || to == AgentStatus::Cancelled || to == AgentStatus::Failed,
            AgentStatus::Running => to == AgentStatus::WaitingJoin || to
                == AgentStatus::WaitingExternal || to == AgentStatus::Succeeded || to
                == AgentStatus::Failed || to == AgentStatus::Cancelled || to
                == AgentStatus::Interrupted || to == AgentStatus::Orphaned,
            AgentStatus::WaitingJoin => to == AgentStatus::Succeeded || to == AgentStatus::Failed
                || to == AgentStatus::Cancelled || to == AgentStatus::Running || to
                == AgentStatus::WaitingExternal || to == AgentStatus::Interrupted,
            AgentStatus::WaitingExternal => to == AgentStatus::Running || to
                == AgentStatus::WaitingJoin || to == AgentStatus::Failed || to == AgentStatus::Cancelled || to
                == AgentStatus::Orphaned,
            AgentStatus::Interrupted => to == AgentStatus::Runnable || to == AgentStatus::Running
                || to == AgentStatus::Cancelled,
            AgentStatus::Orphaned => to == AgentStatus::Runnable || to == AgentStatus::Failed || to
                == AgentStatus::Cancelled,
            _ => false,
        }
    }
}

/// Whether `a` starts with `b`.
pub open spec fn text_starts_with(a: Seq<char>, b: Seq<char>) -> bool {
    b.len() <= a.len() && a.subrange(0, b.len() as int) == b
}

/// A child capability stays within the parent with id `parent_id`: the parent
/// exists, network is not widened from deny to allow, the filesystem scope is
/// a prefix extension, and commands stay within a non-empty parent allowlist.
pub open spec fn capability_subset_spec(
    e: ExecutionView,
    child: CapabilityView,
    parent_id: CapabilityId,
) -> bool {
    &&& e.capabilities.contains_key(parent_id.0)
    &&& {
        let parent = e.capabilities[parent_id.0];
        &&& !(child.network == NetworkScope::Allow && parent.network == NetworkScope::Deny)
        &&& text_starts_with(child.filesystem_scope, parent.filesystem_scope)
        &&& (parent.command_allowlist.len() == 0 || forall|i: int|
            0 <= i < child.command_allowlist.len() ==> parent.command_allowlist.contains(
                #[trigger] child.command_allowlist[i],
            ))
    }
}

/// An operation that keeps a goal from completing: it belongs to an agent of
/// the goal, is not terminal, and has moved past `Created`.
pub open spec fn op_blocks_goal(e: ExecutionView, op: OperationView, goal_id: GoalId) -> bool {
    &&& e.agents.contains_key(op.agent_id.0)
    &&& e.agents[op.agent_id.0].goal_id == goal_id
    &&& !op.status.spec_is_terminal()
    &&& op.status != OperationStatus::Created
}

/// The required agents of a goal have all succeeded. An empty required list
/// means every agent of the goal, and there must be at least one.
pub open spec fn required_agents_succeeded(e: ExecutionView, g: GoalView, goal_id: GoalId) -> bool {
    if g.required_agent_ids.len() == 0 {
        &&& exists|k: u128| #[trigger]
            e.agents.contains_key(k) && e.agents[k].goal_id == goal_id
        &&& forall|k: u128| #[trigger]
            e.agents.contains_key(k) && e.agents[k].goal_id == goal_id ==> e.agents[k].status
                == AgentStatus::Succeeded
    } else {
        forall|i: int|
            0 <= i < g.required_agent_ids.len() ==> {
                let a = #[trigger] g.required_agent_ids[i];
                e.agents.contains_key(a.0) && e.agents[a.0].status == AgentStatus::Succeeded
            }
    }
}

/// Goal acceptance: the goal exists (else an error), is not terminal, and
/// each enabled precondition holds. A finished model turn plays no part.
pub open spec fn goal_completion_spec(e: ExecutionView, goal_id: GoalId) -> Result<bool, KernelError> {
    if !e.goals.contains_key(goal_id.0) {
        Err(rejected(Rejection::UnknownGoal(goal_id)))
    } else {
        let g = e.goals[goal_id.0];
        Ok(
            {
                &&& !g.status.spec_is_terminal()
                &&& g.require_all_required_agents_terminal ==> required_agents_succeeded(
                    e,
                    g,
                    goal_id,
                )
                &&& g.require_no_running_operations ==> !(exists|k: u128| #[trigger]
                    e.operations.contains_key(k) && op_blocks_goal(e, e.operations[k], goal_id))
                &&& forall|i: int|
                    0 <= i < g.require_barriers.len() ==> {
                        let b = #[trigger] g.require_barriers[i];
                        e.barriers.contains_key(b.0) && e.barriers[b.0].satisfied
                    }
            },
        )
    }
}

pub open spec fn status_to_join_outcome_spec(status: AgentStatus) -> JoinOutcome {
    match status {
        AgentStatus::Succeeded => JoinOutcome::Succeeded,
        AgentStatus::Cancelled => JoinOutcome::Cancelled,
        _ => JoinOutcome::Failed,
    }
}

pub open spec fn observed_has(obs: Seq<(AgentId, AgentStatus)>, a: AgentId) -> bool {
    exists|i: int| 0 <= i < obs.len() && #[trigger] obs[i].0 == a
}

pub open spec fn observed_any_status(obs: Seq<(AgentId, AgentStatus)>, s: AgentStatus) -> bool {
    exists|i: int| 0 <= i < obs.len() && #[trigger] obs[i].1 == s
}

/// The outcome a join's observations call for, if any yet.
///
/// `Any`: the first observed child decides. `All`: once every child is
/// observed, any failure fails it, else any cancellation cancels it, else it
/// succeeds; before that only `FailFast` with an observed failure decides.
pub open spec fn join_outcome_of(j: JoinView) -> Option<JoinOutcome> {
    match j.kind {
        JoinKind::Any => if j.observed.len() == 0 {
            None
        } else {
            Some(status_to_join_outcome_spec(j.observed[0].1))
        },
        JoinKind::All => if !(forall|i: int|
            0 <= i < j.children.len() ==> observed_has(j.observed, #[trigger] j.children[i])) {
            if j.failure_policy == JoinFailurePolicy::FailFast && observed_any_status(
                j.observed,
                AgentStatus::Failed,
            ) {
                Some(JoinOutcome::Failed)
            } else {
                None
            }
        } else if observed_any_status(j.observed, AgentStatus::Failed) {
            Some(JoinOutcome::Failed)
        } else if observed_any_status(j.observed, AgentStatus::Cancelled) {
            Some(JoinOutcome::Cancelled)
        } else {
            Some(JoinOutcome::Succeeded)
        },
    }
}

pub open spec fn expected_join_outcome_spec(e: ExecutionView, join_id: JoinId) -> Result<
    Option<JoinOutcome>,
    KernelError,
> {
    if !e.joins.contains_key(join_id.0) {
        Err(rejected(Rejection::UnknownJoin))
    } else {
        Ok(join_outcome_of(e.joins[join_id.0]))
    }
}

/// Recording a child's terminal status: replaces an earlier entry for the same
/// child, else appends.
pub open spec fn observe_insert(
    obs: Seq<(AgentId, AgentStatus)>,
    a: AgentId,
    s: AgentStatus,
) -> Seq<(AgentId, AgentStatus)> {
    if observed_has(obs, a) {
        obs.map_values(|p: (AgentId, AgentStatus)| if p.0 == a { (a, s) } else { p })
    } else {
        obs.push((a, s))
    }
}

/// The first listed agent that the execution does not know.
pub open spec fn first_unknown_agent(agents: Map<u128, AgentView>, s: Seq<AgentId>) -> Option<AgentId>
    decreases s.len(),
{
    if s.len() == 0 {
        None
    } else if !agents.contains_key(s[0].0) {
        Some(s[0])
    } else {
        first_unknown_agent(agents, s.drop_first())
    }
}

pub open spec fn saturating_inc(x: u64) -> u64 {
    if x == u64::MAX {
        x
    } else {
        (x + 1) as u64
    }
}

pub open spec fn with_goal(e: ExecutionView, k: u128, g: GoalView) -> ExecutionView {
    ExecutionView { goals: e.goals.insert(k, g), ..e }
}

pub open spec fn with_agent(e: ExecutionView, k: u128, a: AgentView) -> ExecutionView {
    ExecutionView { agents: e.agents.insert(k, a), ..e }
}

pub open spec fn with_op(e: ExecutionView, k: u128, op: OperationView) -> ExecutionView {
    ExecutionView { operations: e.operations.insert(k, op), ..e }
}

pub open spec fn with_join(e: ExecutionView, k: u128, j: JoinView) -> ExecutionView {
    ExecutionView { joins: e.joins.insert(k, j), ..e }
}

pub open spec fn with_barrier(e: ExecutionView, k: u128, b: BarrierView) -> ExecutionView {
    ExecutionView { barriers: e.barriers.insert(k, b), ..e }
}

pub open spec fn goal_created_spec(e: ExecutionView, ev: Event) -> Result<ExecutionView, KernelError>
    recommends
        ev is GoalCreated,
{
    let goal_id = ev->GoalCreated_goal_id;
    if e.goals.contains_key(goal_id.0) {
        Err(rejected(Rejection::GoalExists(goal_id)))
    } else {
        Ok(
            with_goal(
                e,
                goal_id.0,
                GoalView {
                    id: goal_id,
                    objective: ev->GoalCreated_objective@,
                    status: GoalStatus::Active,
                    required_agent_ids: ev->GoalCreated_required_agent_ids@,
                    require_all_required_agents_terminal: true,
                    require_no_running_operations: true,
                    require_barriers: Seq::empty(),
                    model_turns_finished: 0,
                },
            ),
        )
    }
}

pub open spec fn acceptance_spec(e: ExecutionView, ev: Event) -> Result<ExecutionView, KernelError>
    recommends
        ev is GoalAcceptanceDefined,
{
    let goal_id = ev->GoalAcceptanceDefined_goal_id;
    if !e.goals.contains_key(goal_id.0) {
        Err(rejected(Rejection::UnknownGoal(goal_id)))
    } else if e.goals[goal_id.0].status.spec_is_terminal() {
        Err(rejected(Rejection::TerminalGoalRedefined))
    } else {
        Ok(
            with_goal(
                e,
                goal_id.0,
                GoalView {
                    require_all_required_agents_terminal:
                        ev->GoalAcceptanceDefined_require_all_required_agents_terminal,
                    require_no_running_operations:
                        ev->GoalAcceptanceDefined_require_no_running_operations,
                    require_barriers: ev->GoalAcceptanceDefined_require_barriers@,
                    ..e.goals[goal_id.0]
                },
            ),
        )
    }
}

pub open spec fn model_turn_spec(e: ExecutionView, ev: Event) -> Result<ExecutionView, KernelError>
    recommends
        ev is ModelTurnFinished,
{
    let agent_id = ev->ModelTurnFinished_agent_id;
    if !e.agents.contains_key(agent_id.0) {
        Err(rejected(Rejection::ModelTurnUnknownAgent(agent_id)))
    } else {
        let e1 = ExecutionView {
            model_turns: e.model_turns.push(
                ModelTurnView {
                    turn_id: ev->ModelTurnFinished_turn_id,
                    agent_id,
                    summary: ev->ModelTurnFinished_summary@,
                },
            ),
            ..e
        };
        let gid = e.agents[agent_id.0].goal_id;
        if e.goals.contains_key(gid.0) {
            let g = e.goals[gid.0];
            Ok(
                ExecutionView {
                    goals: e.goals.insert(
                        gid.0,
                        GoalView { model_turns_finished: saturating_inc(g.model_turns_finished), ..g },
                    ),
                    ..e1
                },
            )
        } else {
            Ok(e1)
        }
    }
}

pub open spec fn goal_completed_spec(e: ExecutionView, goal_id: GoalId) -> Result<
    ExecutionView,
    KernelError,
> {
    match goal_completion_spec(e, goal_id) {
        Err(err) => Err(err),
        Ok(met) => if !met {
            Err(rejected(Rejection::GoalPreconditionsNotMet))
        } else {
            Ok(
                ExecutionView {
                    goals: e.goals.insert(
                        goal_id.0,
                        GoalView { status: GoalStatus::Completed, ..e.goals[goal_id.0] },
                    ),
                    ..e
                },
            )
        },
    }
}

pub open spec fn goal_failed_spec(e: ExecutionView, goal_id: GoalId) -> Result<
    ExecutionView,
    KernelError,
> {
    if !e.goals.contains_key(goal_id.0) {
        Err(rejected(Rejection::UnknownGoal(goal_id)))
    } else if e.goals[goal_id.0].status.spec_is_terminal() {
        Err(rejected(Rejection::GoalAlreadyTerminal))
    } else {
        Ok(
            ExecutionView {
                goals: e.goals.insert(
                    goal_id.0,
                    GoalView { status: GoalStatus::Failed, ..e.goals[goal_id.0] },
                ),
                ..e
            },
        )
    }
}

pub open spec fn agent_spawned_spec(e: ExecutionView, ev: Event) -> Result<ExecutionView, KernelError>
    recommends
        ev is AgentSpawned,
{
    let agent_id = ev->AgentSpawned_agent_id;
    let parent = ev->AgentSpawned_parent_agent_id;
    let goal_id = ev->AgentSpawned_goal_id;
    let cap = ev->AgentSpawned_capability_id;
    let p = parent->0;
    let c = cap->0;
    if e.agents.contains_key(agent_id.0) {
        Err(rejected(Rejection::AgentExists(agent_id)))
    } else if !e.goals.contains_key(goal_id.0) {
        Err(rejected(Rejection::UnknownGoal(goal_id)))
    } else if parent is Some && !e.agents.contains_key(p.0) {
        Err(rejected(Rejection::UnknownParentAgent(p)))
    } else if cap is Some && !e.capabilities.contains_key(c.0) {
        Err(rejected(Rejection::UnknownCapability(c)))
    } else if cap is Some && e.capabilities[c.0].parent_capability_id is Some
        && !capability_subset_spec(
        e,
        e.capabilities[c.0],
        e.capabilities[c.0].parent_capability_id->0,
    ) {
        Err(rejected(Rejection::CapabilityExceedsParent))
    } else if cap is Some && parent is Some && e.agents[p.0].capability_id is Some
        && !capability_subset_spec(e, e.capabilities[c.0], e.agents[p.0].capability_id->0) {
        Err(rejected(Rejection::CapabilityExceedsParent))
    } else {
        Ok(
            with_agent(
                e,
                agent_id.0,
                AgentView {
                    id: agent_id,
                    parent_agent_id: parent,
                    goal_id,
                    task: ev->AgentSpawned_task@,
                    status: AgentStatus::Created,
                    snapshot_id: ev->AgentSpawned_snapshot_id,
                    capability_id: cap,
                    retained: true,
                },
            ),
        )
    }
}

pub open spec fn agent_status_spec(
    e: ExecutionView,
    agent_id: AgentId,
    from: AgentStatus,
    to: AgentStatus,
) -> Result<ExecutionView, KernelError> {
    if !e.agents.contains_key(agent_id.0) {
        Err(rejected(Rejection::UnknownAgent(agent_id)))
    } else {
        let a = e.agents[agent_id.0];
        if a.status != from {
            Err(
                rejected(
                    Rejection::AgentStatusMismatch { agent: agent_id, actual: a.status, expected: from },
                ),
            )
        } else if a.status.spec_is_terminal() && to != a.status {
            Err(rejected(Rejection::TerminalStatusMonotonic))
        } else if !legal_agent_transition_spec(from, to) {
            Err(rejected(Rejection::IllegalAgentTransition { from, to }))
        } else {
            Ok(with_agent(e, agent_id.0, AgentView { status: to, ..a }))
        }
    }
}

pub open spec fn task_created_spec(e: ExecutionView, ev: Event) -> Result<ExecutionView, KernelError>
    recommends
        ev is TaskCreated,
{
    let task_id = ev->TaskCreated_task_id;
    let goal_id = ev->TaskCreated_goal_id;
    let agent_id = ev->TaskCreated_agent_id;
    if e.tasks.contains_key(task_id.0) {
        Err(rejected(Rejection::TaskExists(task_id)))
    } else if !e.goals.contains_key(goal_id.0) || !e.agents.contains_key(agent_id.0) {
        Err(rejected(Rejection::TaskUnknownReference))
    } else {
        Ok(
            ExecutionView {
                tasks: e.tasks.insert(
                    task_id.0,
                    TaskView {
                        id: task_id,
                        goal_id,
                        agent_id,
                        description: ev->TaskCreated_description@,
                    },
                ),
                ..e
            },
        )
    }
}

pub open spec fn join_created_spec(e: ExecutionView, ev: Event) -> Result<ExecutionView, KernelError>
    recommends
        ev is JoinCreated,
{
    let join_id = ev->JoinCreated_join_id;
    let waiter = ev->JoinCreated_waiter_agent_id;
    let children = ev->JoinCreated_children@;
    if e.joins.contains_key(join_id.0) {
        Err(rejected(Rejection::JoinExists(join_id)))
    } else if children.len() == 0 {
        Err(rejected(Rejection::JoinWithoutChildren))
    } else if !e.agents.contains_key(waiter.0) {
        Err(rejected(Rejection::JoinWaiterUnknown))
    } else if first_unknown_agent(e.agents, children) is Some {
        Err(rejected(Rejection::JoinChildUnknown(first_unknown_agent(e.agents, children)->0)))
    } else {
        Ok(
            with_join(
                e,
                join_id.0,
                JoinView {
                    id: join_id,
                    waiter_agent_id: waiter,
                    children,
                    kind: ev->JoinCreated_kind,
                    failure_policy: ev->JoinCreated_failure_policy,
                    observed: Seq::empty(),
                    outcome: None,
                },
            ),
        )
    }
}

pub open spec fn join_child_spec(
    e: ExecutionView,
    join_id: JoinId,
    child_id: AgentId,
    child_status: AgentStatus,
) -> Result<ExecutionView, KernelError> {
    if !e.joins.contains_key(join_id.0) {
        Err(rejected(Rejection::UnknownJoinId(join_id)))
    } else {
        let j = e.joins[join_id.0];
        if j.outcome is Some {
            Err(rejected(Rejection::JoinAlreadySatisfied))
        } else if !j.children.contains(child_id) {
            Err(rejected(Rejection::NotJoinChild))
        } else if !e.agents.contains_key(child_id.0) {
            Err(rejected(Rejection::UnknownJoinChild))
        } else if !e.agents[child_id.0].status.spec_is_terminal() {
            Err(rejected(Rejection::JoinChildStillRunning))
        } else if e.agents[child_id.0].status != child_status {
            Err(rejected(Rejection::JoinChildStatusMismatch))
        } else {
            Ok(
                with_join(
                    e,
                    join_id.0,
                    JoinView { observed: observe_insert(j.observed, child_id, child_status), ..j },
                ),
            )
        }
    }
}

pub open spec fn join_satisfied_spec(e: ExecutionView, join_id: JoinId, outcome: JoinOutcome) -> Result<
    ExecutionView,
    KernelError,
> {
    match expected_join_outcome_spec(e, join_id) {
        Err(err) => Err(err),
        Ok(expected) => if expected != Some(outcome) {
            Err(rejected(Rejection::JoinOutcomeMismatch { outcome, expected }))
        } else {
            Ok(
                with_join(
                    e,
                    join_id.0,
                    JoinView { outcome: Some(outcome), ..e.joins[join_id.0] },
                ),
            )
        },
    }
}

pub open spec fn operation_created_spec(e: ExecutionView, ev: Event) -> Result<
    ExecutionView,
    KernelError,
>
    recommends
        ev is OperationCreated,
{
    let op_id = ev->OperationCreated_operation_id;
    let agent_id = ev->OperationCreated_agent_id;
    let attempt_id = ev->OperationCreated_attempt_id;
    if e.operations.contains_key(op_id.0) {
        Err(rejected(Rejection::OperationExists(op_id)))
    } else if !e.agents.contains_key(agent_id.0) {
        Err(rejected(Rejection::OperationAgentUnknown))
    } else {
        Ok(
            with_op(
                e,
                op_id.0,
                OperationView {
                    id: op_id,
                    agent_id,
                    status: OperationStatus::Created,
                    argv: texts(ev->OperationCreated_argv@),
                    cwd: ev->OperationCreated_cwd@,
                    executor_hint: opt_text(ev->OperationCreated_executor_hint),
                    attempts: Map::empty().insert(attempt_id.0, fresh_attempt(attempt_id)),
                    active_attempt: Some(attempt_id),
                    lease: None,
                    committed_attempt: None,
                    committed_exit_code: None,
                },
            ),
        )
    }
}

pub open spec fn operation_scheduled_spec(e: ExecutionView, op_id: OperationId) -> Result<
    ExecutionView,
    KernelError,
> {
    if !e.operations.contains_key(op_id.0) {
        Err(rejected(Rejection::UnknownOperation(op_id)))
    } else {
        let op = e.operations[op_id.0];
        if op.status.spec_is_terminal() {
            Err(rejected(Rejection::ScheduleTerminal))
        } else if !(op.status == OperationStatus::Created || op.status == OperationStatus::Orphaned
            || op.status == OperationStatus::Unknown) {
            Err(rejected(Rejection::ScheduleFrom(op.status)))
        } else {
            Ok(with_op(e, op_id.0, OperationView { status: OperationStatus::Ready, ..op }))
        }
    }
}

pub open spec fn operation_leased_spec(e: ExecutionView, ev: Event) -> Result<
    ExecutionView,
    KernelError,
>
    recommends
        ev is OperationLeased,
{
    let op_id = ev->OperationLeased_operation_id;
    let attempt_id = ev->OperationLeased_attempt_id;
    let generation = ev->OperationLeased_generation;
    if !e.operations.contains_key(op_id.0) {
        Err(rejected(Rejection::UnknownOperation(op_id)))
    } else {
        let op = e.operations[op_id.0];
        if op.status.spec_is_terminal() {
            Err(rejected(Rejection::LeaseTerminal))
        } else if !(op.status == OperationStatus::Ready || op.status == OperationStatus::Orphaned) {
            Err(rejected(Rejection::LeaseFrom(op.status)))
        } else if op.lease is Some && !op.lease->0.expired && op.lease->0.generation >= generation {
            Err(rejected(Rejection::LeaseStillActive))
        } else if op.lease is Some && generation != op.lease->0.generation + 1 {
            Err(rejected(Rejection::LeaseGenerationStep))
        } else if op.lease is None && generation != 1 {
            Err(rejected(Rejection::FirstLeaseGeneration))
        } else {
            Ok(
                with_op(
                    e,
                    op_id.0,
                    OperationView {
                        attempts: if op.attempts.contains_key(attempt_id.0) {
                            op.attempts
                        } else {
                            op.attempts.insert(attempt_id.0, fresh_attempt(attempt_id))
                        },
                        active_attempt: Some(attempt_id),
                        lease: Some(
                            LeaseView {
                                generation,
                                owner: ev->OperationLeased_owner,
                                expires_at_ms: ev->OperationLeased_expires_at_ms,
                                executor_id: ev->OperationLeased_executor_id@,
                                capability_id: ev->OperationLeased_capability_id,
                                expired: false,
                            },
                        ),
                        status: OperationStatus::Leased,
                        ..op
                    },
                ),
            )
        }
    }
}

pub open spec fn process_started_spec(e: ExecutionView, ev: Event) -> Result<
    ExecutionView,
    KernelError,
>
    recommends
        ev is ProcessStarted,
{
    let op_id = ev->ProcessStarted_operation_id;
    let attempt_id = ev->ProcessStarted_attempt_id;
    if !e.operations.contains_key(op_id.0) {
        Err(rejected(Rejection::UnknownOperation(op_id)))
    } else {
        let op = e.operations[op_id.0];
        if op.status.spec_is_terminal() {
            Err(rejected(Rejection::RunningAfterCommit))
        } else if !(op.status == OperationStatus::Leased || op.status
            == OperationStatus::WaitingExternal) {
            Err(rejected(Rejection::ProcessStartedFrom(op.status)))
        } else if !op.attempts.contains_key(attempt_id.0) {
            Err(rejected(Rejection::UnknownAttempt))
        } else {
            let a = op.attempts[attempt_id.0];
            Ok(
                with_op(
                    e,
                    op_id.0,
                    OperationView {
                        attempts: op.attempts.insert(
                            attempt_id.0,
                            AttemptView {
                                pid: Some(ev->ProcessStarted_pid),
                                start_key: Some(ev->ProcessStarted_start_key@),
                                ..a
                            },
                        ),
                        active_attempt: Some(attempt_id),
                        status: OperationStatus::Running,
                        ..op
                    },
                ),
            )
        }
    }
}

pub open spec fn process_output_spec(e: ExecutionView, ev: Event) -> Result<ExecutionView, KernelError>
    recommends
        ev is ProcessOutputAvailable,
{
    let op_id = ev->ProcessOutputAvailable_operation_id;
    let attempt_id = ev->ProcessOutputAvailable_attempt_id;
    if !e.operations.contains_key(op_id.0) {
        Err(rejected(Rejection::UnknownOperation(op_id)))
    } else {
        let op = e.operations[op_id.0];
        if !(op.status == OperationStatus::Running || op.status == OperationStatus::WaitingExternal
            || op.status == OperationStatus::Committing) {
            Err(rejected(Rejection::OutputNotLive))
        } else if !op.attempts.contains_key(attempt_id.0) {
            Err(rejected(Rejection::UnknownAttempt))
        } else {
            let a = op.attempts[attempt_id.0];
            Ok(
                with_op(
                    e,
                    op_id.0,
                    OperationView {
                        attempts: op.attempts.insert(
                            attempt_id.0,
                            AttemptView {
                                output_chunks: a.output_chunks.push(
                                    OutputChunk {
                                        stream: ev->ProcessOutputAvailable_stream,
                                        offset: ev->ProcessOutputAvailable_offset,
                                        byte_len: ev->ProcessOutputAvailable_byte_len,
                                        chunk_hash: ev->ProcessOutputAvailable_chunk_hash,
                                    },
                                ),
                                ..a
                            },
                        ),
                        ..op
                    },
                ),
            )
        }
    }
}

pub open spec fn process_exited_spec(e: ExecutionView, ev: Event) -> Result<ExecutionView, KernelError>
    recommends
        ev is ProcessExited,
{
    let op_id = ev->ProcessExited_operation_id;
    let attempt_id = ev->ProcessExited_attempt_id;
    if !e.operations.contains_key(op_id.0) {
        Err(rejected(Rejection::UnknownOperation(op_id)))
    } else {
        let op = e.operations[op_id.0];
        if op.status.spec_is_terminal() {
            Err(rejected(Rejection::ProcessAlreadyCommitted))
        } else if !(op.status == OperationStatus::Running || op.status
            == OperationStatus::WaitingExternal || op.status == OperationStatus::Leased) {
            Err(rejected(Rejection::ProcessExitedFrom(op.status)))
        } else if !op.attempts.contains_key(attempt_id.0) {
            Err(rejected(Rejection::UnknownAttempt))
        } else if op.attempts[attempt_id.0].exit_code is Some {
            Err(rejected(Rejection::AttemptAlreadyExited))
        } else {
            let a = op.attempts[attempt_id.0];
            Ok(
                with_op(
                    e,
                    op_id.0,
                    OperationView {
                        attempts: op.attempts.insert(
                            attempt_id.0,
                            AttemptView {
                                exit_code: Some(ev->ProcessExited_exit_code),
                                signal: opt_text(ev->ProcessExited_signal),
                                killed_externally: ev->ProcessExited_killed_externally,
                                ..a
                            },
                        ),
                        status: OperationStatus::Committing,
                        ..op
                    },
                ),
            )
        }
    }
}

pub open spec fn operation_committed_spec(
    e: ExecutionView,
    op_id: OperationId,
    attempt_id: AttemptId,
    lease_generation: u64,
    exit_code: i32,
) -> Result<ExecutionView, KernelError> {
    if !e.operations.contains_key(op_id.0) {
        Err(rejected(Rejection::UnknownOperation(op_id)))
    } else {
        let op = e.operations[op_id.0];
        if op.status.spec_is_terminal() {
            Err(rejected(Rejection::OperationAlreadyTerminal))
        } else if op.status != OperationStatus::Committing {
            Err(rejected(Rejection::CommitRequiresExit))
        } else if op.lease is None {
            Err(rejected(Rejection::CommitRequiresLease))
        } else if op.lease->0.expired || op.lease->0.generation != lease_generation {
            Err(
                KernelError::StaleLease {
                    operation: op_id,
                    current: op.lease->0.generation,
                    used: lease_generation,
                },
            )
        } else if !op.attempts.contains_key(attempt_id.0) {
            Err(rejected(Rejection::UnknownAttempt))
        } else if op.attempts[attempt_id.0].exit_code is None {
            Err(rejected(Rejection::CommitAttemptNotExited))
        } else if op.attempts[attempt_id.0].exit_code->0 != exit_code {
            Err(rejected(Rejection::CommitExitMismatch))
        } else {
            Ok(
                with_op(
                    e,
                    op_id.0,
                    OperationView {
                        committed_attempt: Some(attempt_id),
                        committed_exit_code: Some(exit_code),
                        status: if exit_code == 0 {
                            OperationStatus::Succeeded
                        } else {
                            OperationStatus::Failed
                        },
                        ..op
                    },
                ),
            )
        }
    }
}

pub open spec fn operation_failed_spec(
    e: ExecutionView,
    op_id: OperationId,
    lease_generation: Option<u64>,
) -> Result<ExecutionView, KernelError> {
    if !e.operations.contains_key(op_id.0) {
        Err(rejected(Rejection::UnknownOperation(op_id)))
    } else {
        let op = e.operations[op_id.0];
        if op.status.spec_is_terminal() {
            Err(rejected(Rejection::OperationAlreadyTerminal))
        } else if lease_generation is Some && op.lease is Some && (op.lease->0.generation
            != lease_generation->0 || op.lease->0.expired) {
            Err(
                KernelError::StaleLease {
                    operation: op_id,
                    current: op.lease->0.generation,
                    used: lease_generation->0,
                },
            )
        } else {
            Ok(with_op(e, op_id.0, OperationView { status: OperationStatus::Failed, ..op }))
        }
    }
}

/// Moves a non-terminal operation to `status`.
pub open spec fn operation_settle_spec(
    e: ExecutionView,
    op_id: OperationId,
    status: OperationStatus,
) -> Result<ExecutionView, KernelError> {
    if !e.operations.contains_key(op_id.0) {
        Err(rejected(Rejection::UnknownOperation(op_id)))
    } else if e.operations[op_id.0].status.spec_is_terminal() {
        Err(rejected(Rejection::OperationAlreadyTerminal))
    } else {
        Ok(with_op(e, op_id.0, OperationView { status, ..e.operations[op_id.0] }))
    }
}

pub open spec fn lease_expired_spec(e: ExecutionView, op_id: OperationId, generation: u64) -> Result<
    ExecutionView,
    KernelError,
> {
    if !e.operations.contains_key(op_id.0) {
        Err(rejected(Rejection::UnknownOperation(op_id)))
    } else {
        let op = e.operations[op_id.0];
        if op.status.spec_is_terminal() {
            Ok(e)
        } else if op.lease is None {
            Err(rejected(Rejection::NoLeaseToExpire))
        } else if op.lease->0.generation != generation {
            Err(rejected(Rejection::ExpireGenerationMismatch))
        } else {
            Ok(
                with_op(
                    e,
                    op_id.0,
                    OperationView {
                        lease: Some(LeaseView { expired: true, ..op.lease->0 }),
                        status: OperationStatus::Orphaned,
                        ..op
                    },
                ),
            )
        }
    }
}

pub open spec fn snapshot_attached_spec(e: ExecutionView, ev: Event) -> Result<
    ExecutionView,
    KernelError,
>
    recommends
        ev is ContextSnapshotAttached,
{
    let snap = ev->ContextSnapshotAttached_snapshot_id;
    let agent_id = ev->ContextSnapshotAttached_agent_id;
    if !e.agents.contains_key(agent_id.0) {
        Err(rejected(Rejection::SnapshotAgentUnknown))
    } else {
        Ok(
            ExecutionView {
                snapshots: e.snapshots.insert(
                    snap.0,
                    SnapshotView {
                        id: snap,
                        agent_id,
                        parent_snapshot_id: ev->ContextSnapshotAttached_parent_snapshot_id,
                        chunk_hashes: ev->ContextSnapshotAttached_chunk_hashes@,
                        byte_len: ev->ContextSnapshotAttached_byte_len,
                    },
                ),
                agents: e.agents.insert(
                    agent_id.0,
                    AgentView { snapshot_id: Some(snap), ..e.agents[agent_id.0] },
                ),
                ..e
            },
        )
    }
}

pub open spec fn granted_capability(ev: Event) -> CapabilityView
    recommends
        ev is CapabilityGranted,
{
    CapabilityView {
        id: ev->CapabilityGranted_capability_id,
        parent_capability_id: ev->CapabilityGranted_parent_capability_id,
        agent_id: ev->CapabilityGranted_agent_id,
        filesystem_scope: ev->CapabilityGranted_filesystem_scope@,
        network: ev->CapabilityGranted_network,
        command_allowlist: texts(ev->CapabilityGranted_command_allowlist@),
        deadline_ms: ev->CapabilityGranted_deadline_ms,
        approval_evidence: ev->CapabilityGranted_approval_evidence@,
    }
}

/// A grant is recorded; it becomes the agent's capability when the agent has
/// none and the grant has no parent, or when it fits within the agent's
/// current capability.
pub open spec fn capability_granted_spec(e: ExecutionView, ev: Event) -> Result<
    ExecutionView,
    KernelError,
>
    recommends
        ev is CapabilityGranted,
{
    let cap_id = ev->CapabilityGranted_capability_id;
    let agent_id = ev->CapabilityGranted_agent_id;
    if e.capabilities.contains_key(cap_id.0) {
        Err(rejected(Rejection::CapabilityExists))
    } else {
        let c = granted_capability(ev);
        let e1 = ExecutionView { capabilities: e.capabilities.insert(cap_id.0, c), ..e };
        let attach = if e.agents.contains_key(agent_id.0) && e.agents[agent_id.0].capability_id is Some {
            capability_subset_spec(e1, c, e.agents[agent_id.0].capability_id->0)
        } else {
            ev->CapabilityGranted_parent_capability_id is None
        };
        if attach && e.agents.contains_key(agent_id.0) {
            Ok(
                ExecutionView {
                    agents: e.agents.insert(
                        agent_id.0,
                        AgentView { capability_id: Some(cap_id), ..e.agents[agent_id.0] },
                    ),
                    ..e1
                },
            )
        } else {
            Ok(e1)
        }
    }
}

pub open spec fn barrier_arrived_spec(e: ExecutionView, b: u128, agent_id: AgentId) -> Result<
    ExecutionView,
    KernelError,
> {
    if !e.barriers.contains_key(b) {
        Err(rejected(Rejection::UnknownBarrier))
    } else if e.barriers[b].satisfied {
        Err(rejected(Rejection::BarrierAlreadySatisfied))
    } else if e.barriers[b].arrivals.contains(agent_id) {
        Ok(e)
    } else {
        Ok(
            with_barrier(
                e,
                b,
                BarrierView { arrivals: e.barriers[b].arrivals.push(agent_id), ..e.barriers[b] },
            ),
        )
    }
}

pub open spec fn barrier_satisfied_spec(e: ExecutionView, b: u128) -> Result<ExecutionView, KernelError> {
    if !e.barriers.contains_key(b) {
        Err(rejected(Rejection::UnknownBarrier))
    } else if e.barriers[b].arrivals.len() as u32 != e.barriers[b].expected_arrivals {
        Err(rejected(Rejection::BarrierArrivalsIncomplete))
    } else {
        Ok(with_barrier(e, b, BarrierView { satisfied: true, ..e.barriers[b] }))
    }
}

/// What one payload does to the execution it belongs to.
pub open spec fn apply_event_spec(e: ExecutionView, ev: Event) -> Result<ExecutionView, KernelError> {
    match ev {
        Event::ExecutionCreated { .. } => Err(rejected(Rejection::NestedExecutionEvent)),
        Event::ExecutionForked { .. } => Err(rejected(Rejection::NestedExecutionEvent)),
        Event::GoalCreated { .. } => goal_created_spec(e, ev),
        Event::GoalAcceptanceDefined { .. } => acceptance_spec(e, ev),
        Event::ModelTurnFinished { .. } => model_turn_spec(e, ev),
        Event::GoalCompleted { goal_id } => goal_completed_spec(e, goal_id),
        Event::GoalFailed { goal_id, .. } => goal_failed_spec(e, goal_id),
        Event::AgentSpawned { .. } => agent_spawned_spec(e, ev),
        Event::AgentStatusChanged { agent_id, from, to, .. } => agent_status_spec(
            e,
            agent_id,
            from,
            to,
        ),
        Event::TaskCreated { .. } => task_created_spec(e, ev),
        Event::JoinCreated { .. } => join_created_spec(e, ev),
        Event::JoinChildTerminal { join_id, child_id, child_status } => join_child_spec(
            e,
            join_id,
            child_id,
            child_status,
        ),
        Event::JoinSatisfied { join_id, outcome } => join_satisfied_spec(e, join_id, outcome),
        Event::OperationCreated { .. } => operation_created_spec(e, ev),
        Event::OperationScheduled { operation_id } => operation_scheduled_spec(e, operation_id),
        Event::OperationLeased { .. } => operation_leased_spec(e, ev),
        Event::ProcessStarted { .. } => process_started_spec(e, ev),
        Event::ProcessOutputAvailable { .. } => process_output_spec(e, ev),
        Event::ProcessExited { .. } => process_exited_spec(e, ev),
        Event::OperationCommitted { operation_id, attempt_id, lease_generation, exit_code } =>
            operation_committed_spec(e, operation_id, attempt_id, lease_generation, exit_code),
        Event::OperationFailed { operation_id, lease_generation, .. } => operation_failed_spec(
            e,
            operation_id,
            lease_generation,
        ),
        Event::OperationUnresolved { operation_id, .. } => operation_settle_spec(
            e,
            operation_id,
            OperationStatus::Unknown,
        ),
        Event::OperationCancelled { operation_id, .. } => operation_settle_spec(
            e,
            operation_id,
            OperationStatus::Cancelled,
        ),
        Event::LeaseExpired { operation_id, generation } => lease_expired_spec(
            e,
            operation_id,
            generation,
        ),
        Event::CheckpointTaken { seq, state_hash } => Ok(
            ExecutionView {
                checkpoints: e.checkpoints.push(CheckpointView { seq, state_hash: state_hash@ }),
                ..e
            },
        ),
        Event::ContextSnapshotAttached { .. } => snapshot_attached_spec(e, ev),
        Event::CapabilityGranted { .. } => capability_granted_spec(e, ev),
        Event::BarrierCreated { barrier_id, expected_arrivals } => if expected_arrivals == 0 {
            Err(rejected(Rejection::BarrierNeedsArrivals))
        } else {
            Ok(
                with_barrier(
                    e,
                    barrier_id.0,
                    BarrierView {
                        id: barrier_id,
                        expected_arrivals,
                        arrivals: Seq::empty(),
                        satisfied: false,
                    },
                ),
            )
        },
        Event::BarrierArrived { barrier_id, agent_id } => barrier_arrived_spec(
            e,
            barrier_id.0,
            agent_id,
        ),
        Event::BarrierSatisfied { barrier_id } => barrier_satisfied_spec(e, barrier_id.0),
        Event::RetentionChanged { agent_id, retained } => if !e.agents.contains_key(agent_id.0) {
            Err(rejected(Rejection::RetentionUnknownAgent))
        } else {
            Ok(with_agent(e, agent_id.0, AgentView { retained, ..e.agents[agent_id.0] }))
        },
    }
}

/// What a record's payload does to the map of executions.
pub open spec fn apply_payload_spec(execs: Map<u128, ExecutionView>, r: EventRecord) -> Result<
    Map<u128, ExecutionView>,
    KernelError,
> {
    let x = r.execution_id;
    match r.payload {
        Event::ExecutionCreated { created_at_ms, note } => if execs.contains_key(x.0) {
            Err(rejected(Rejection::ExecutionExists(x)))
        } else if r.seq != 1 {
            Err(rejected(Rejection::CreatedNotFirst))
        } else {
            Ok(execs.insert(x.0, new_execution_view(x, created_at_ms, note@)))
        },
        Event::ExecutionForked {
            source_execution_id,
            from_event_id,
            from_seq,
            source_business_hash,
        } => if !execs.contains_key(x.0) {
            Err(KernelError::ExecutionNotFound(x))
        } else if execs[x.0].ancestor is Some {
            Err(rejected(Rejection::AncestryExists))
        } else {
            Ok(
                execs.insert(
                    x.0,
                    ExecutionView {
                        ancestor: Some(
                            ForkAncestryView {
                                source_execution_id,
                                from_event_id,
                                from_seq,
                                source_business_hash: source_business_hash@,
                            },
                        ),
                        ..execs[x.0]
                    },
                ),
            )
        },
        _ => if !execs.contains_key(x.0) {
            Err(KernelError::ExecutionNotFound(x))
        } else {
            match apply_event_spec(execs[x.0], r.payload) {
                Ok(e) => Ok(execs.insert(x.0, e)),
                Err(err) => Err(err),
            }
        },
    }
}

/// The sequence number the next new record of an execution must carry.
pub open spec fn expected_seq(s: KernelView, x: u128) -> int {
    (if s.last_seq.contains_key(x) {
        s.last_seq[x] as int
    } else {
        0
    }) + 1
}

/// Reducing one record. In order: the checksum must match the canonical bytes,
/// the schema must be current, an already seen event is a no-op, a reused key
/// is a no-op for the same event and a conflict for another, the sequence must
/// be the next one of its execution, and the payload must apply.
pub open spec fn reduce_spec(s: KernelView, r: EventRecord, canonical: Seq<u8>) -> Result<
    KernelView,
    KernelError,
> {
    if r.checksum@ != checksum_text(canonical) {
        Err(KernelError::ChecksumMismatch)
    } else if r.schema_version != SCHEMA_VERSION {
        Err(KernelError::UnsupportedSchema { found: r.schema_version, expected: SCHEMA_VERSION })
    } else if s.seen_event_ids.contains(r.event_id.0) {
        Ok(s)
    } else if s.idempotency_index.contains_key(r.idempotency_key.0@) {
        if s.idempotency_index[r.idempotency_key.0@] != r.event_id {
            Err(
                KernelError::IdempotencyConflict {
                    key: r.idempotency_key,
                    existing: s.idempotency_index[r.idempotency_key.0@],
                    new_event: r.event_id,
                },
            )
        } else {
            Ok(s)
        }
    } else if r.seq != expected_seq(s, r.execution_id.0) {
        Err(
            KernelError::NonMonotonicSeq {
                execution: r.execution_id,
                expected: expected_seq(s, r.execution_id.0) as u64,
                got: r.seq,
            },
        )
    } else {
        match apply_payload_spec(s.executions, r) {
            Err(err) => Err(err),
            Ok(execs) => Ok(
                KernelView {
                    executions: execs,
                    seen_event_ids: s.seen_event_ids.insert(r.event_id.0),
                    idempotency_index: s.idempotency_index.insert(
                        r.idempotency_key.0@,
                        r.event_id,
                    ),
                    last_seq: s.last_seq.insert(r.execution_id.0, r.seq),
                },
            ),
        }
    }
}

/// The reduction would reach the sequence check (nothing before it returns).
pub open spec fn reaches_seq_check(s: KernelView, r: EventRecord, canonical: Seq<u8>) -> bool {
    &&& r.checksum@ == checksum_text(canonical)
    &&& r.schema_version == SCHEMA_VERSION
    &&& !s.seen_event_ids.contains(r.event_id.0)
    &&& !s.idempotency_index.contains_key(r.idempotency_key.0@)
}

/// Errors agree, comparing key texts where errors carry keys.
pub open spec fn same_error(a: KernelError, b: KernelError) -> bool {
    match (a, b) {
        (
            KernelError::IdempotencyConflict { key: k1, existing: e1, new_event: n1 },
            KernelError::IdempotencyConflict { key: k2, existing: e2, new_event: n2 },
        ) => k1.0@ == k2.0@ && e1 == e2 && n1 == n2,
        _ => a == b,
    }
}

/// Reducing records one after another from the empty state.
pub open spec fn reduce_all_spec_from(
    s: KernelView,
    records: Seq<EventRecord>,
    canonicals: Seq<Seq<u8>>,
) -> Result<KernelView, KernelError>
    decreases records.len(),
{
    if records.len() == 0 {
        Ok(s)
    } else {
        match reduce_spec(s, records[0], canonicals[0]) {
            Err(err) => Err(err),
            Ok(s1) => reduce_all_spec_from(s1, records.drop_first(), canonicals.drop_first()),
        }
    }
}

} // verus!
