//! The reducer: applies event records to kernel state.
use vstd::prelude::*;

use crate::error::{rejected, KernelError, Rejection};
use crate::event::{
    AgentStatus, Event, EventRecord, GoalStatus, JoinFailurePolicy, JoinKind, JoinOutcome,
    NetworkScope, OperationStatus, SCHEMA_VERSION,
};
use crate::idmap::IdMap;
use crate::ids::{AgentId, AttemptId, CapabilityId, GoalId, JoinId, OperationId};
use crate::model::{
    legal_agent_transition_spec,
    text_starts_with,
    capability_subset_spec,
    op_blocks_goal,
    required_agents_succeeded,
    goal_completion_spec,
    status_to_join_outcome_spec,
    observed_has,
    observed_any_status,
    join_outcome_of,
    expected_join_outcome_spec,
    observe_insert,
    first_unknown_agent,
    saturating_inc,
    with_goal,
    with_agent,
    with_op,
    with_join,
    with_barrier,
    goal_created_spec,
    acceptance_spec,
    model_turn_spec,
    goal_completed_spec,
    goal_failed_spec,
    agent_spawned_spec,
    agent_status_spec,
    task_created_spec,
    join_created_spec,
    join_child_spec,
    join_satisfied_spec,
    operation_created_spec,
    operation_scheduled_spec,
    operation_leased_spec,
    process_started_spec,
    process_output_spec,
    process_exited_spec,
    operation_committed_spec,
    operation_failed_spec,
    operation_settle_spec,
    lease_expired_spec,
    snapshot_attached_spec,
    granted_capability,
    capability_granted_spec,
    barrier_arrived_spec,
    barrier_satisfied_spec,
    apply_event_spec,
    apply_payload_spec,
    expected_seq,
    reduce_spec,
    reaches_seq_check,
    same_error,
    reduce_all_spec_from,
};
use crate::state::{
    fresh_attempt, new_attempt, opt_text, texts, AgentState, AgentView, AttemptState, BarrierState,
    CapabilityState, CheckpointState, ExecutionState, ExecutionView, ForkAncestry, GoalState,
    GoalView, JoinState, KernelState, LeaseState, ModelTurnState, OperationState,
    OperationView, OutputChunk, SnapshotState, TaskState,
};

verus! {

/// The result of applying a payload, seen through the view of the state it left.
pub open spec fn outcome_of(r: Result<(), KernelError>, post: ExecutionView) -> Result<
    ExecutionView,
    KernelError,
> {
    match r {
        Ok(_) => Ok(post),
        Err(e) => Err(e),
    }
}

/// Replacing one entry of an identifier map replaces its view.
pub proof fn lemma_replace_view<V: View>(m: Map<u128, V>, k: u128, v: V)
    ensures
        m.remove(k).insert(k, v).map_values(|x: V| x@) == m.map_values(|x: V| x@).insert(k, v@),
        m.insert(k, v).map_values(|x: V| x@) == m.map_values(|x: V| x@).insert(k, v@),
{
    assert(m.remove(k).insert(k, v).map_values(|x: V| x@) =~= m.map_values(|x: V| x@).insert(
        k,
        v@,
    ));
    assert(m.insert(k, v).map_values(|x: V| x@) =~= m.map_values(|x: V| x@).insert(k, v@));
}

pub fn legal_agent_transition(from: AgentStatus, to: AgentStatus) -> (b: bool)
    ensures
        b == legal_agent_transition_spec(from, to),
{
    if from == to {
        return true;
    }
    match from {
        AgentStatus::Created => matches!(
            to,
            AgentStatus::Runnable | AgentStatus::Running | AgentStatus::Cancelled
        ),
        AgentStatus::Runnable => matches!(
            to,
            AgentStatus::Running | AgentStatus::WaitingJoin | AgentStatus::Cancelled
                | AgentStatus::Failed
        ),
        AgentStatus::Running => matches!(
            to,
            AgentStatus::WaitingJoin | AgentStatus::WaitingExternal | AgentStatus::Succeeded
                | AgentStatus::Failed | AgentStatus::Cancelled | AgentStatus::Interrupted
                | AgentStatus::Orphaned
        ),
        AgentStatus::WaitingJoin => matches!(
            to,
            AgentStatus::Succeeded | AgentStatus::Failed | AgentStatus::Cancelled
                | AgentStatus::Running | AgentStatus::WaitingExternal | AgentStatus::Interrupted
        ),
        AgentStatus::WaitingExternal => matches!(
            to,
            AgentStatus::Running | AgentStatus::WaitingJoin | AgentStatus::Failed
                | AgentStatus::Cancelled | AgentStatus::Orphaned
        ),
        AgentStatus::Interrupted => matches!(
            to,
            AgentStatus::Runnable | AgentStatus::Running | AgentStatus::Cancelled
        ),
        AgentStatus::Orphaned => matches!(
            to,
            AgentStatus::Runnable | AgentStatus::Failed | AgentStatus::Cancelled
        ),
        _ => false,
    }
}

fn goal_created(exec: &mut ExecutionState, ev: &Event) -> (r: Result<(), KernelError>)
    requires
        ev is GoalCreated,
    ensures
        outcome_of(r, final(exec)@) == goal_created_spec(old(exec)@, *ev),
        r is Err ==> final(exec)@ == old(exec)@,
{
    match ev {
        Event::GoalCreated { goal_id, objective, required_agent_ids } => {
            if exec.goals.contains_key(goal_id.0) {
                return Err(KernelError::invalid(Rejection::GoalExists(*goal_id)));
            }
            let g = GoalState {
                id: *goal_id,
                objective: objective.clone(),
                status: GoalStatus::Active,
                required_agent_ids: required_agent_ids.clone(),
                require_all_required_agents_terminal: true,
                require_no_running_operations: true,
                require_barriers: Vec::new(),
                model_turns_finished: 0,
            };
            proof {
                assert(g.required_agent_ids@ =~= required_agent_ids@);
                assert(g.require_barriers@ =~= Seq::empty());
                lemma_replace_view(exec.goals@, goal_id.0, g);
            }
            exec.goals.insert(goal_id.0, g);
            Ok(())
        },
        _ => Err(KernelError::invalid(Rejection::NestedExecutionEvent)),
    }
}


fn acceptance_defined(exec: &mut ExecutionState, ev: &Event) -> (r: Result<(), KernelError>)
    requires
        ev is GoalAcceptanceDefined,
    ensures
        outcome_of(r, final(exec)@) == acceptance_spec(old(exec)@, *ev),
        r is Err ==> final(exec)@ == old(exec)@,
{
    match ev {
        Event::GoalAcceptanceDefined {
            goal_id,
            require_all_required_agents_terminal,
            require_no_running_operations,
            require_barriers,
        } => {
            match exec.goals.get(goal_id.0) {
                None => {
                    return Err(KernelError::invalid(Rejection::UnknownGoal(*goal_id)));
                },
                Some(g) => {
                    if g.status.is_terminal() {
                        return Err(KernelError::invalid(Rejection::TerminalGoalRedefined));
                    }
                },
            }
            let mut g = exec.goals.take(goal_id.0).unwrap();
            g.require_all_required_agents_terminal = *require_all_required_agents_terminal;
            g.require_no_running_operations = *require_no_running_operations;
            g.require_barriers = require_barriers.clone();
            proof {
                assert(g.require_barriers@ =~= require_barriers@);
                lemma_replace_view(old(exec).goals@, goal_id.0, g);
            }
            exec.goals.insert(goal_id.0, g);
            Ok(())
        },
        _ => Err(KernelError::invalid(Rejection::NestedExecutionEvent)),
    }
}

fn model_turn_finished(exec: &mut ExecutionState, ev: &Event) -> (r: Result<(), KernelError>)
    requires
        ev is ModelTurnFinished,
    ensures
        outcome_of(r, final(exec)@) == model_turn_spec(old(exec)@, *ev),
        r is Err ==> final(exec)@ == old(exec)@,
{
    match ev {
        Event::ModelTurnFinished { turn_id, agent_id, summary } => {
            let goal_id = match exec.agents.get(agent_id.0) {
                None => {
                    return Err(KernelError::invalid(Rejection::ModelTurnUnknownAgent(*agent_id)));
                },
                Some(a) => a.goal_id,
            };
            let t = ModelTurnState { turn_id: *turn_id, agent_id: *agent_id, summary: summary.clone() };
            exec.model_turns.push(t);
            proof {
                assert(exec.model_turns@.map_values(|t: ModelTurnState| t@) =~= old(
                    exec,
                ).model_turns@.map_values(|t: ModelTurnState| t@).push(t@));
            }
            if exec.goals.contains_key(goal_id.0) {
                let mut g = exec.goals.take(goal_id.0).unwrap();
                g.model_turns_finished = g.model_turns_finished.saturating_add(1);
                proof {
                    lemma_replace_view(old(exec).goals@, goal_id.0, g);
                }
                exec.goals.insert(goal_id.0, g);
            }
            Ok(())
        },
        _ => Err(KernelError::invalid(Rejection::NestedExecutionEvent)),
    }
}

fn goal_failed(exec: &mut ExecutionState, goal_id: GoalId) -> (r: Result<(), KernelError>)
    ensures
        outcome_of(r, final(exec)@) == goal_failed_spec(old(exec)@, goal_id),
        r is Err ==> final(exec)@ == old(exec)@,
{
    match exec.goals.get(goal_id.0) {
        None => {
            return Err(KernelError::invalid(Rejection::UnknownGoal(goal_id)));
        },
        Some(g) => {
            if g.status.is_terminal() {
                return Err(KernelError::invalid(Rejection::GoalAlreadyTerminal));
            }
        },
    }
    let mut g = exec.goals.take(goal_id.0).unwrap();
    g.status = GoalStatus::Failed;
    proof {
        lemma_replace_view(old(exec).goals@, goal_id.0, g);
    }
    exec.goals.insert(goal_id.0, g);
    Ok(())
}

/// Whether a goal may complete now (see `goal_completion_spec`).
#[verifier::loop_isolation(false)]
pub fn goal_completion_preconditions_met(exec: &ExecutionState, goal_id: GoalId) -> (r: Result<
    bool,
    KernelError,
>)
    ensures
        r == goal_completion_spec(exec@, goal_id),
{
    let goal = match exec.goals.get(goal_id.0) {
        None => {
            return Err(KernelError::invalid(Rejection::UnknownGoal(goal_id)));
        },
        Some(g) => g,
    };
    let ghost e = exec@;
    let ghost g = e.goals[goal_id.0];
    assert(g == goal@);
    if goal.status.is_terminal() {
        return Ok(false);
    }
    if goal.require_all_required_agents_terminal {
        if goal.required_agent_ids.len() == 0 {
            let n = exec.agents.len();
            let mut any = false;
            let mut i: usize = 0;
            while i < n
                invariant
                    n == exec.agents.entries().len(),
                    i <= n,
                    e == exec@,
                    forall|j: int|
                        0 <= j < n ==> exec.agents@.contains_key(
                            #[trigger] exec.agents.entries()[j].0,
                        ) && exec.agents@[exec.agents.entries()[j].0]
                            == exec.agents.entries()[j].1,
                    any == exists|j: int|
                        0 <= j < i && (#[trigger] exec.agents.entries()[j]).1.goal_id == goal_id,
                    forall|j: int|
                        0 <= j < i && (#[trigger] exec.agents.entries()[j]).1.goal_id == goal_id
                            ==> exec.agents.entries()[j].1.status == AgentStatus::Succeeded,
                decreases n - i,
            {
                let (_, a) = exec.agents.entry_at(i);
                if a.goal_id == goal_id {
                    any = true;
                    if a.status != AgentStatus::Succeeded {
                        proof {
                            let k = exec.agents.entries()[i as int].0;
                            assert(e.agents.contains_key(k) && e.agents[k].goal_id == goal_id);
                        }
                        return Ok(false);
                    }
                }
                i = i + 1;
            }
            if !any {
                proof {
                    assert forall|k: u128| #[trigger]
                        e.agents.contains_key(k) implies e.agents[k].goal_id != goal_id by {
                        let j = choose|j: int|
                            0 <= j < n && #[trigger] exec.agents.entries()[j].0 == k;
                        assert(exec.agents.entries()[j].1.goal_id != goal_id);
                    }
                }
                return Ok(false);
            }
            proof {
                let j = choose|j: int|
                    0 <= j < n && (#[trigger] exec.agents.entries()[j]).1.goal_id == goal_id;
                assert(e.agents.contains_key(exec.agents.entries()[j].0));
                assert forall|k: u128| #[trigger]
                    e.agents.contains_key(k) && e.agents[k].goal_id == goal_id implies e.agents[k].status
                    == AgentStatus::Succeeded by {
                    let j = choose|j: int|
                        0 <= j < n && #[trigger] exec.agents.entries()[j].0 == k;
                    assert(exec.agents.entries()[j].1.goal_id == goal_id);
                }
            }
        } else {
            let mut i: usize = 0;
            while i < goal.required_agent_ids.len()
                invariant
                    e == exec@,
                    g == goal@,
                    g.required_agent_ids.len() > 0,
                    i <= g.required_agent_ids.len(),
                    forall|j: int|
                        0 <= j < i ==> {
                            let a = #[trigger] g.required_agent_ids[j];
                            e.agents.contains_key(a.0) && e.agents[a.0].status
                                == AgentStatus::Succeeded
                        },
                decreases g.required_agent_ids.len() - i,
            {
                let a = goal.required_agent_ids[i];
                assert(g.required_agent_ids[i as int] == a);
                match exec.agents.get(a.0) {
                    Some(agent) => {
                        if agent.status != AgentStatus::Succeeded {
                            assert(!required_agents_succeeded(e, g, goal_id));
                            return Ok(false);
                        }
                    },
                    None => {
                        assert(!required_agents_succeeded(e, g, goal_id));
                        return Ok(false);
                    },
                }
                i = i + 1;
            }
        }
    }
    if goal.require_no_running_operations {
        let n = exec.operations.len();
        let mut i: usize = 0;
        while i < n
            invariant
                n == exec.operations.entries().len(),
                i <= n,
                e == exec@,
                forall|j: int|
                    0 <= j < n ==> exec.operations@.contains_key(
                        #[trigger] exec.operations.entries()[j].0,
                    ) && exec.operations@[exec.operations.entries()[j].0]
                        == exec.operations.entries()[j].1,
                forall|j: int|
                    0 <= j < i ==> !op_blocks_goal(
                        e,
                        (#[trigger] exec.operations.entries()[j]).1@,
                        goal_id,
                    ),
            decreases n - i,
        {
            let (_, op) = exec.operations.entry_at(i);
            let agent_ok = match exec.agents.get(op.agent_id.0) {
                Some(agent) => agent.goal_id == goal_id,
                None => false,
            };
            if agent_ok && !op.status.is_terminal() && op.status != OperationStatus::Created {
                proof {
                    let k = exec.operations.entries()[i as int].0;
                    assert(e.operations.contains_key(k) && op_blocks_goal(e, e.operations[k], goal_id));
                }
                return Ok(false);
            }
            i = i + 1;
        }
        proof {
            assert forall|k: u128| #[trigger]
                e.operations.contains_key(k) implies !op_blocks_goal(e, e.operations[k], goal_id) by {
                let j = choose|j: int| 0 <= j < n && #[trigger] exec.operations.entries()[j].0 == k;
                assert(!op_blocks_goal(e, exec.operations.entries()[j].1@, goal_id));
            }
        }
    }
    let mut i: usize = 0;
    while i < goal.require_barriers.len()
        invariant
            e == exec@,
            g == goal@,
            i <= g.require_barriers.len(),
            forall|j: int|
                0 <= j < i ==> {
                    let b = #[trigger] g.require_barriers[j];
                    e.barriers.contains_key(b.0) && e.barriers[b.0].satisfied
                },
        decreases g.require_barriers.len() - i,
    {
        let b = goal.require_barriers[i];
        assert(g.require_barriers[i as int] == b);
        match exec.barriers.get(b.0) {
            Some(barrier) => {
                if !barrier.satisfied {
                    return Ok(false);
                }
            },
            None => {
                return Ok(false);
            },
        }
        i = i + 1;
    }
    Ok(true)
}

fn goal_completed(exec: &mut ExecutionState, goal_id: GoalId) -> (r: Result<(), KernelError>)
    ensures
        outcome_of(r, final(exec)@) == goal_completed_spec(old(exec)@, goal_id),
        r is Err ==> final(exec)@ == old(exec)@,
{
    let met = goal_completion_preconditions_met(exec, goal_id)?;
    if !met {
        return Err(KernelError::invalid(Rejection::GoalPreconditionsNotMet));
    }
    let mut g = exec.goals.take(goal_id.0).unwrap();
    g.status = GoalStatus::Completed;
    proof {
        lemma_replace_view(old(exec).goals@, goal_id.0, g);
    }
    exec.goals.insert(goal_id.0, g);
    Ok(())
}


/// Whether `child` stays within the capability `parent_id` (see `capability_subset_spec`).
#[verifier::loop_isolation(false)]
pub fn capability_is_subset(exec: &ExecutionState, child: &CapabilityState, parent_id: CapabilityId) -> (b:
    bool)
    ensures
        b == capability_subset_spec(exec@, child@, parent_id),
{
    let parent = match exec.capabilities.get(parent_id.0) {
        None => {
            return false;
        },
        Some(p) => p,
    };
    if child.network == NetworkScope::Allow && parent.network == NetworkScope::Deny {
        return false;
    }
    if !crate::text::starts_with(child.filesystem_scope.as_str(), parent.filesystem_scope.as_str()) {
        return false;
    }
    if parent.command_allowlist.len() == 0 {
        return true;
    }
    let mut i: usize = 0;
    while i < child.command_allowlist.len()
        invariant
            i <= child.command_allowlist@.len(),
            forall|j: int|
                0 <= j < i ==> texts(parent.command_allowlist@).contains(
                    #[trigger] texts(child.command_allowlist@)[j],
                ),
        decreases child.command_allowlist@.len() - i,
    {
        if !crate::text::contains_text(&parent.command_allowlist, &child.command_allowlist[i]) {
            assert(texts(child.command_allowlist@)[i as int] == child.command_allowlist@[i as int]@);
            assert(exec@.capabilities[parent_id.0] == parent@);
            assert(!texts(parent.command_allowlist@).contains(texts(child.command_allowlist@)[i as int]));
            assert(!(forall|j: int|
                0 <= j < child@.command_allowlist.len() ==> exec@.capabilities[parent_id.0].command_allowlist.contains(
                    #[trigger] child@.command_allowlist[j],
                )));
            return false;
        }
        i = i + 1;
    }
    true
}

fn agent_spawned(exec: &mut ExecutionState, ev: &Event) -> (r: Result<(), KernelError>)
    requires
        ev is AgentSpawned,
    ensures
        outcome_of(r, final(exec)@) == agent_spawned_spec(old(exec)@, *ev),
        r is Err ==> final(exec)@ == old(exec)@,
{
    match ev {
        Event::AgentSpawned { agent_id, parent_agent_id, goal_id, task, snapshot_id, capability_id } => {
            if exec.agents.contains_key(agent_id.0) {
                return Err(KernelError::invalid(Rejection::AgentExists(*agent_id)));
            }
            if !exec.goals.contains_key(goal_id.0) {
                return Err(KernelError::invalid(Rejection::UnknownGoal(*goal_id)));
            }
            if let Some(parent) = parent_agent_id {
                if !exec.agents.contains_key(parent.0) {
                    return Err(KernelError::invalid(Rejection::UnknownParentAgent(*parent)));
                }
            }
            if let Some(cap) = capability_id {
                let cap_state = match exec.capabilities.get(cap.0) {
                    None => {
                        return Err(KernelError::invalid(Rejection::UnknownCapability(*cap)));
                    },
                    Some(c) => c,
                };
                if let Some(parent_cap_id) = cap_state.parent_capability_id {
                    if !capability_is_subset(exec, cap_state, parent_cap_id) {
                        return Err(KernelError::invalid(Rejection::CapabilityExceedsParent));
                    }
                }
                if let Some(parent) = parent_agent_id {
                    if let Some(parent_agent) = exec.agents.get(parent.0) {
                        if let Some(parent_cap_id) = parent_agent.capability_id {
                            if !capability_is_subset(exec, cap_state, parent_cap_id) {
                                return Err(KernelError::invalid(Rejection::CapabilityExceedsParent));
                            }
                        }
                    }
                }
            }
            let a = AgentState {
                id: *agent_id,
                parent_agent_id: *parent_agent_id,
                goal_id: *goal_id,
                task: task.clone(),
                status: AgentStatus::Created,
                snapshot_id: *snapshot_id,
                capability_id: *capability_id,
                retained: true,
            };
            proof {
                lemma_replace_view(exec.agents@, agent_id.0, a);
            }
            exec.agents.insert(agent_id.0, a);
            Ok(())
        },
        _ => Err(KernelError::invalid(Rejection::NestedExecutionEvent)),
    }
}

fn agent_status_changed(exec: &mut ExecutionState, agent_id: AgentId, from: AgentStatus, to: AgentStatus) -> (r:
    Result<(), KernelError>)
    ensures
        outcome_of(r, final(exec)@) == agent_status_spec(old(exec)@, agent_id, from, to),
        r is Err ==> final(exec)@ == old(exec)@,
{
    match exec.agents.get(agent_id.0) {
        None => {
            return Err(KernelError::invalid(Rejection::UnknownAgent(agent_id)));
        },
        Some(a) => {
            if a.status != from {
                return Err(
                    KernelError::invalid(
                        Rejection::AgentStatusMismatch { agent: agent_id, actual: a.status, expected: from },
                    ),
                );
            }
            if a.status.is_terminal() && to != a.status {
                return Err(KernelError::invalid(Rejection::TerminalStatusMonotonic));
            }
            if !legal_agent_transition(from, to) {
                return Err(KernelError::invalid(Rejection::IllegalAgentTransition { from, to }));
            }
        },
    }
    let mut a = exec.agents.take(agent_id.0).unwrap();
    a.status = to;
    proof {
        lemma_replace_view(old(exec).agents@, agent_id.0, a);
    }
    exec.agents.insert(agent_id.0, a);
    Ok(())
}

fn task_created(exec: &mut ExecutionState, ev: &Event) -> (r: Result<(), KernelError>)
    requires
        ev is TaskCreated,
    ensures
        outcome_of(r, final(exec)@) == task_created_spec(old(exec)@, *ev),
        r is Err ==> final(exec)@ == old(exec)@,
{
    match ev {
        Event::TaskCreated { task_id, goal_id, agent_id, description } => {
            if exec.tasks.contains_key(task_id.0) {
                return Err(KernelError::invalid(Rejection::TaskExists(*task_id)));
            }
            if !exec.goals.contains_key(goal_id.0) || !exec.agents.contains_key(agent_id.0) {
                return Err(KernelError::invalid(Rejection::TaskUnknownReference));
            }
            let t = TaskState {
                id: *task_id,
                goal_id: *goal_id,
                agent_id: *agent_id,
                description: description.clone(),
            };
            proof {
                lemma_replace_view(exec.tasks@, task_id.0, t);
            }
            exec.tasks.insert(task_id.0, t);
            Ok(())
        },
        _ => Err(KernelError::invalid(Rejection::NestedExecutionEvent)),
    }
}

fn retention_changed(exec: &mut ExecutionState, agent_id: AgentId, retained: bool) -> (r: Result<
    (),
    KernelError,
>)
    ensures
        outcome_of(r, final(exec)@) == (if !old(exec)@.agents.contains_key(agent_id.0) {
            Err(rejected(Rejection::RetentionUnknownAgent))
        } else {
            Ok(with_agent(old(exec)@, agent_id.0, AgentView { retained, ..old(exec)@.agents[agent_id.0] }))
        }),
        r is Err ==> final(exec)@ == old(exec)@,
{
    if !exec.agents.contains_key(agent_id.0) {
        return Err(KernelError::invalid(Rejection::RetentionUnknownAgent));
    }
    let mut a = exec.agents.take(agent_id.0).unwrap();
    a.retained = retained;
    proof {
        lemma_replace_view(old(exec).agents@, agent_id.0, a);
    }
    exec.agents.insert(agent_id.0, a);
    Ok(())
}

fn snapshot_attached(exec: &mut ExecutionState, ev: &Event) -> (r: Result<(), KernelError>)
    requires
        ev is ContextSnapshotAttached,
    ensures
        outcome_of(r, final(exec)@) == snapshot_attached_spec(old(exec)@, *ev),
        r is Err ==> final(exec)@ == old(exec)@,
{
    match ev {
        Event::ContextSnapshotAttached { snapshot_id, agent_id, parent_snapshot_id, chunk_hashes, byte_len } => {
            if !exec.agents.contains_key(agent_id.0) {
                return Err(KernelError::invalid(Rejection::SnapshotAgentUnknown));
            }
            let snap = SnapshotState {
                id: *snapshot_id,
                agent_id: *agent_id,
                parent_snapshot_id: *parent_snapshot_id,
                chunk_hashes: chunk_hashes.clone(),
                byte_len: *byte_len,
            };
            proof {
                assert(snap.chunk_hashes@ =~= chunk_hashes@);
                lemma_replace_view(exec.snapshots@, snapshot_id.0, snap);
            }
            exec.snapshots.insert(snapshot_id.0, snap);
            let mut a = exec.agents.take(agent_id.0).unwrap();
            a.snapshot_id = Some(*snapshot_id);
            proof {
                lemma_replace_view(old(exec).agents@, agent_id.0, a);
            }
            exec.agents.insert(agent_id.0, a);
            Ok(())
        },
        _ => Err(KernelError::invalid(Rejection::NestedExecutionEvent)),
    }
}

fn capability_granted(exec: &mut ExecutionState, ev: &Event) -> (r: Result<(), KernelError>)
    requires
        ev is CapabilityGranted,
    ensures
        outcome_of(r, final(exec)@) == capability_granted_spec(old(exec)@, *ev),
        r is Err ==> final(exec)@ == old(exec)@,
{
    match ev {
        Event::CapabilityGranted {
            capability_id,
            parent_capability_id,
            agent_id,
            filesystem_scope,
            network,
            command_allowlist,
            deadline_ms,
            approval_evidence,
        } => {
            if exec.capabilities.contains_key(capability_id.0) {
                return Err(KernelError::invalid(Rejection::CapabilityExists));
            }
            let cap_state = CapabilityState {
                id: *capability_id,
                parent_capability_id: *parent_capability_id,
                agent_id: *agent_id,
                filesystem_scope: filesystem_scope.clone(),
                network: *network,
                command_allowlist: command_allowlist.clone(),
                deadline_ms: *deadline_ms,
                approval_evidence: approval_evidence.clone(),
            };
            let ghost c = granted_capability(*ev);
            proof {
                assert(texts(cap_state.command_allowlist@) =~= texts(command_allowlist@));
                assert(cap_state@ == c);
            }
            let existing = match exec.agents.get(agent_id.0) {
                Some(a) => a.capability_id,
                None => None,
            };
            let probe = CapabilityState {
                id: *capability_id,
                parent_capability_id: *parent_capability_id,
                agent_id: *agent_id,
                filesystem_scope: filesystem_scope.clone(),
                network: *network,
                command_allowlist: command_allowlist.clone(),
                deadline_ms: *deadline_ms,
                approval_evidence: approval_evidence.clone(),
            };
            proof {
                assert(texts(probe.command_allowlist@) =~= texts(command_allowlist@));
                lemma_replace_view(exec.capabilities@, capability_id.0, cap_state);
            }
            exec.capabilities.insert(capability_id.0, cap_state);
            let attach = match existing {
                None => parent_capability_id.is_none(),
                Some(existing_id) => capability_is_subset(exec, &probe, existing_id),
            };
            if attach && exec.agents.contains_key(agent_id.0) {
                let mut a = exec.agents.take(agent_id.0).unwrap();
                a.capability_id = Some(*capability_id);
                proof {
                    lemma_replace_view(old(exec).agents@, agent_id.0, a);
                }
                exec.agents.insert(agent_id.0, a);
            }
            Ok(())
        },
        _ => Err(KernelError::invalid(Rejection::NestedExecutionEvent)),
    }
}


/// Skipping a known first agent does not change the first unknown one.
proof fn lemma_first_unknown_step(agents: Map<u128, AgentView>, s: Seq<AgentId>, i: int)
    requires
        0 <= i < s.len(),
    ensures
        first_unknown_agent(agents, s.subrange(i, s.len() as int)) == if !agents.contains_key(s[i].0) {
            Some(s[i])
        } else {
            first_unknown_agent(agents, s.subrange(i + 1, s.len() as int))
        },
{
    let t = s.subrange(i, s.len() as int);
    assert(t[0] == s[i]);
    assert(t.drop_first() =~= s.subrange(i + 1, s.len() as int));
}

#[verifier::loop_isolation(false)]
fn join_created(exec: &mut ExecutionState, ev: &Event) -> (r: Result<(), KernelError>)
    requires
        ev is JoinCreated,
    ensures
        outcome_of(r, final(exec)@) == join_created_spec(old(exec)@, *ev),
        r is Err ==> final(exec)@ == old(exec)@,
{
    match ev {
        Event::JoinCreated { join_id, waiter_agent_id, children, kind, failure_policy } => {
            if exec.joins.contains_key(join_id.0) {
                return Err(KernelError::invalid(Rejection::JoinExists(*join_id)));
            }
            if children.len() == 0 {
                return Err(KernelError::invalid(Rejection::JoinWithoutChildren));
            }
            if !exec.agents.contains_key(waiter_agent_id.0) {
                return Err(KernelError::invalid(Rejection::JoinWaiterUnknown));
            }
            let ghost agents = exec@.agents;
            let mut i: usize = 0;
            proof {
                assert(children@.subrange(0, children@.len() as int) =~= children@);
            }
            while i < children.len()
                invariant
                    agents == exec@.agents,
                    i <= children@.len(),
                    first_unknown_agent(agents, children@) == first_unknown_agent(
                        agents,
                        children@.subrange(i as int, children@.len() as int),
                    ),
                decreases children@.len() - i,
            {
                proof {
                    lemma_first_unknown_step(agents, children@, i as int);
                }
                if !exec.agents.contains_key(children[i].0) {
                    return Err(KernelError::invalid(Rejection::JoinChildUnknown(children[i])));
                }
                i = i + 1;
            }
            proof {
                assert(children@.subrange(i as int, children@.len() as int) =~= Seq::<AgentId>::empty());
            }
            let j = JoinState {
                id: *join_id,
                waiter_agent_id: *waiter_agent_id,
                children: children.clone(),
                kind: *kind,
                failure_policy: *failure_policy,
                observed: Vec::new(),
                outcome: None,
            };
            proof {
                assert(j.children@ =~= children@);
                assert(j.observed@ =~= Seq::empty());
                lemma_replace_view(exec.joins@, join_id.0, j);
            }
            exec.joins.insert(join_id.0, j);
            Ok(())
        },
        _ => Err(KernelError::invalid(Rejection::NestedExecutionEvent)),
    }
}

fn agent_in(v: &Vec<AgentId>, a: AgentId) -> (b: bool)
    ensures
        b == v@.contains(a),
{
    let mut i: usize = 0;
    while i < v.len()
        invariant
            i <= v@.len(),
            forall|j: int| 0 <= j < i ==> v@[j] != a,
        decreases v@.len() - i,
    {
        if v[i] == a {
            assert(v@[i as int] == a);
            return true;
        }
        i = i + 1;
    }
    false
}

fn observe(obs: &Vec<(AgentId, AgentStatus)>, a: AgentId, st: AgentStatus) -> (r: Vec<(AgentId, AgentStatus)>)
    ensures
        r@ == observe_insert(obs@, a, st),
{
    let mut out: Vec<(AgentId, AgentStatus)> = Vec::new();
    let mut found = false;
    let mut i: usize = 0;
    while i < obs.len()
        invariant
            i <= obs@.len(),
            out@ == obs@.subrange(0, i as int).map_values(
                |p: (AgentId, AgentStatus)| if p.0 == a { (a, st) } else { p },
            ),
            found == exists|j: int| 0 <= j < i && #[trigger] obs@[j].0 == a,
        decreases obs@.len() - i,
    {
        let p = obs[i];
        if p.0 == a {
            found = true;
            out.push((a, st));
        } else {
            out.push(p);
        }
        proof {
            assert(obs@.subrange(0, i + 1) =~= obs@.subrange(0, i as int).push(obs@[i as int]));
            assert(out@ =~= obs@.subrange(0, i + 1).map_values(
                |p: (AgentId, AgentStatus)| if p.0 == a { (a, st) } else { p },
            ));
        }
        i = i + 1;
    }
    proof {
        assert(obs@.subrange(0, obs@.len() as int) =~= obs@);
    }
    if !found {
        proof {
            assert(!observed_has(obs@, a));
            assert(out@ =~= obs@);
        }
        out.push((a, st));
    } else {
        proof {
            let j = choose|j: int| 0 <= j < obs@.len() && #[trigger] obs@[j].0 == a;
            assert(observed_has(obs@, a));
        }
    }
    out
}

fn join_child_terminal(exec: &mut ExecutionState, join_id: JoinId, child_id: AgentId, child_status: AgentStatus) -> (r:
    Result<(), KernelError>)
    ensures
        outcome_of(r, final(exec)@) == join_child_spec(old(exec)@, join_id, child_id, child_status),
        r is Err ==> final(exec)@ == old(exec)@,
{
    let actual = match exec.agents.get(child_id.0) {
        Some(a) => Some(a.status),
        None => None,
    };
    let new_observed = match exec.joins.get(join_id.0) {
        None => {
            return Err(KernelError::invalid(Rejection::UnknownJoinId(join_id)));
        },
        Some(j) => {
            if j.outcome.is_some() {
                return Err(KernelError::invalid(Rejection::JoinAlreadySatisfied));
            }
            if !agent_in(&j.children, child_id) {
                return Err(KernelError::invalid(Rejection::NotJoinChild));
            }
            let actual_status = match actual {
                None => {
                    return Err(KernelError::invalid(Rejection::UnknownJoinChild));
                },
                Some(s) => s,
            };
            if !actual_status.is_terminal() {
                return Err(KernelError::invalid(Rejection::JoinChildStillRunning));
            }
            if actual_status != child_status {
                return Err(KernelError::invalid(Rejection::JoinChildStatusMismatch));
            }
            observe(&j.observed, child_id, child_status)
        },
    };
    let mut j = exec.joins.take(join_id.0).unwrap();
    j.observed = new_observed;
    proof {
        lemma_replace_view(old(exec).joins@, join_id.0, j);
    }
    exec.joins.insert(join_id.0, j);
    Ok(())
}

fn any_status(obs: &Vec<(AgentId, AgentStatus)>, s: AgentStatus) -> (b: bool)
    ensures
        b == observed_any_status(obs@, s),
{
    let mut i: usize = 0;
    while i < obs.len()
        invariant
            i <= obs@.len(),
            forall|j: int| 0 <= j < i ==> obs@[j].1 != s,
        decreases obs@.len() - i,
    {
        if obs[i].1 == s {
            assert(obs@[i as int].1 == s);
            return true;
        }
        i = i + 1;
    }
    false
}

pub(crate) fn has_observed(obs: &Vec<(AgentId, AgentStatus)>, a: AgentId) -> (b: bool)
    ensures
        b == observed_has(obs@, a),
{
    let mut i: usize = 0;
    while i < obs.len()
        invariant
            i <= obs@.len(),
            forall|j: int| 0 <= j < i ==> obs@[j].0 != a,
        decreases obs@.len() - i,
    {
        if obs[i].0 == a {
            assert(obs@[i as int].0 == a);
            return true;
        }
        i = i + 1;
    }
    false
}

fn status_to_join_outcome(status: AgentStatus) -> (o: JoinOutcome)
    ensures
        o == status_to_join_outcome_spec(status),
{
    match status {
        AgentStatus::Succeeded => JoinOutcome::Succeeded,
        AgentStatus::Cancelled => JoinOutcome::Cancelled,
        _ => JoinOutcome::Failed,
    }
}

/// The outcome a join's observations call for (see `join_outcome_of`).
#[verifier::loop_isolation(false)]
pub fn expected_join_outcome(exec: &ExecutionState, join_id: JoinId) -> (r: Result<Option<JoinOutcome>, KernelError>)
    ensures
        r == expected_join_outcome_spec(exec@, join_id),
{
    let join = match exec.joins.get(join_id.0) {
        None => {
            return Err(KernelError::invalid(Rejection::UnknownJoin));
        },
        Some(j) => j,
    };
    assert(join@ == exec@.joins[join_id.0]);
    match join.kind {
        JoinKind::Any => {
            if join.observed.len() == 0 {
                return Ok(None);
            }
            Ok(Some(status_to_join_outcome(join.observed[0].1)))
        },
        JoinKind::All => {
            let mut all_present = true;
            let mut i: usize = 0;
            while i < join.children.len()
                invariant
                    i <= join.children@.len(),
                    all_present == forall|k: int|
                        0 <= k < i ==> observed_has(join.observed@, #[trigger] join.children@[k]),
                decreases join.children@.len() - i,
            {
                if !has_observed(&join.observed, join.children[i]) {
                    all_present = false;
                }
                i = i + 1;
            }
            if !all_present {
                proof {
                    let k = choose|k: int|
                        0 <= k < join.children@.len() && !observed_has(
                            join.observed@,
                            #[trigger] join.children@[k],
                        );
                    let jv = exec@.joins[join_id.0];
                    assert(!observed_has(jv.observed, jv.children[k]));
                }
                if join.failure_policy == JoinFailurePolicy::FailFast && any_status(
                    &join.observed,
                    AgentStatus::Failed,
                ) {
                    return Ok(Some(JoinOutcome::Failed));
                }
                return Ok(None);
            }
            if any_status(&join.observed, AgentStatus::Failed) {
                return Ok(Some(JoinOutcome::Failed));
            }
            if any_status(&join.observed, AgentStatus::Cancelled) {
                return Ok(Some(JoinOutcome::Cancelled));
            }
            Ok(Some(JoinOutcome::Succeeded))
        },
    }
}

/// The outcome a join's observations call for; same as `expected_join_outcome`.
pub fn join_is_satisfied(exec: &ExecutionState, join_id: JoinId) -> (r: Result<Option<JoinOutcome>, KernelError>)
    ensures
        r == expected_join_outcome_spec(exec@, join_id),
{
    expected_join_outcome(exec, join_id)
}

fn join_satisfied(exec: &mut ExecutionState, join_id: JoinId, outcome: JoinOutcome) -> (r: Result<(), KernelError>)
    ensures
        outcome_of(r, final(exec)@) == join_satisfied_spec(old(exec)@, join_id, outcome),
        r is Err ==> final(exec)@ == old(exec)@,
{
    let expected = expected_join_outcome(exec, join_id)?;
    if expected != Some(outcome) {
        return Err(KernelError::invalid(Rejection::JoinOutcomeMismatch { outcome, expected }));
    }
    let mut j = exec.joins.take(join_id.0).unwrap();
    j.outcome = Some(outcome);
    proof {
        lemma_replace_view(old(exec).joins@, join_id.0, j);
    }
    exec.joins.insert(join_id.0, j);
    Ok(())
}

fn barrier_created(exec: &mut ExecutionState, barrier_id: crate::ids::BarrierId, expected_arrivals: u32) -> (r:
    Result<(), KernelError>)
    ensures
        outcome_of(r, final(exec)@) == (if expected_arrivals == 0 {
            Err(rejected(Rejection::BarrierNeedsArrivals))
        } else {
            Ok(
                with_barrier(
                    old(exec)@,
                    barrier_id.0,
                    crate::state::BarrierView {
                        id: barrier_id,
                        expected_arrivals,
                        arrivals: Seq::empty(),
                        satisfied: false,
                    },
                ),
            )
        }),
        r is Err ==> final(exec)@ == old(exec)@,
{
    if expected_arrivals == 0 {
        return Err(KernelError::invalid(Rejection::BarrierNeedsArrivals));
    }
    let b = BarrierState { id: barrier_id, expected_arrivals, arrivals: Vec::new(), satisfied: false };
    proof {
        assert(b.arrivals@ =~= Seq::empty());
        lemma_replace_view(exec.barriers@, barrier_id.0, b);
    }
    exec.barriers.insert(barrier_id.0, b);
    Ok(())
}

fn barrier_arrived(exec: &mut ExecutionState, barrier_id: crate::ids::BarrierId, agent_id: AgentId) -> (r: Result<
    (),
    KernelError,
>)
    ensures
        outcome_of(r, final(exec)@) == barrier_arrived_spec(old(exec)@, barrier_id.0, agent_id),
        r is Err ==> final(exec)@ == old(exec)@,
{
    match exec.barriers.get(barrier_id.0) {
        None => {
            return Err(KernelError::invalid(Rejection::UnknownBarrier));
        },
        Some(b) => {
            if b.satisfied {
                return Err(KernelError::invalid(Rejection::BarrierAlreadySatisfied));
            }
            if agent_in(&b.arrivals, agent_id) {
                return Ok(());
            }
        },
    }
    let mut b = exec.barriers.take(barrier_id.0).unwrap();
    b.arrivals.push(agent_id);
    proof {
        lemma_replace_view(old(exec).barriers@, barrier_id.0, b);
    }
    exec.barriers.insert(barrier_id.0, b);
    Ok(())
}

fn barrier_satisfied(exec: &mut ExecutionState, barrier_id: crate::ids::BarrierId) -> (r: Result<(), KernelError>)
    ensures
        outcome_of(r, final(exec)@) == barrier_satisfied_spec(old(exec)@, barrier_id.0),
        r is Err ==> final(exec)@ == old(exec)@,
{
    match exec.barriers.get(barrier_id.0) {
        None => {
            return Err(KernelError::invalid(Rejection::UnknownBarrier));
        },
        Some(b) => {
            if b.arrivals.len() as u32 != b.expected_arrivals {
                return Err(KernelError::invalid(Rejection::BarrierArrivalsIncomplete));
            }
        },
    }
    let mut b = exec.barriers.take(barrier_id.0).unwrap();
    b.satisfied = true;
    proof {
        lemma_replace_view(old(exec).barriers@, barrier_id.0, b);
    }
    exec.barriers.insert(barrier_id.0, b);
    Ok(())
}


fn clone_texts(v: &Vec<String>) -> (r: Vec<String>)
    ensures
        texts(r@) == texts(v@),
{
    let r = v.clone();
    assert(texts(r@) =~= texts(v@));
    r
}

fn clone_opt_text(o: &Option<String>) -> (r: Option<String>)
    ensures
        opt_text(r) == opt_text(*o),
{
    match o {
        Some(s) => Some(s.clone()),
        None => None,
    }
}

fn operation_created(exec: &mut ExecutionState, ev: &Event) -> (r: Result<(), KernelError>)
    requires
        ev is OperationCreated,
    ensures
        outcome_of(r, final(exec)@) == operation_created_spec(old(exec)@, *ev),
        r is Err ==> final(exec)@ == old(exec)@,
{
    match ev {
        Event::OperationCreated { operation_id, agent_id, attempt_id, argv, cwd, executor_hint } => {
            if exec.operations.contains_key(operation_id.0) {
                return Err(KernelError::invalid(Rejection::OperationExists(*operation_id)));
            }
            if !exec.agents.contains_key(agent_id.0) {
                return Err(KernelError::invalid(Rejection::OperationAgentUnknown));
            }
            let mut attempts: IdMap<AttemptState> = IdMap::new();
            let a = new_attempt(*attempt_id);
            proof {
                lemma_replace_view(attempts@, attempt_id.0, a);
            }
            attempts.insert(attempt_id.0, a);
            let op = OperationState {
                id: *operation_id,
                agent_id: *agent_id,
                status: OperationStatus::Created,
                argv: clone_texts(argv),
                cwd: cwd.clone(),
                executor_hint: clone_opt_text(executor_hint),
                attempts,
                active_attempt: Some(*attempt_id),
                lease: None,
                committed_attempt: None,
                committed_exit_code: None,
            };
            proof {
                assert(op@.attempts =~= Map::<u128, crate::state::AttemptView>::empty().insert(
                    attempt_id.0,
                    fresh_attempt(*attempt_id),
                ));
                lemma_replace_view(exec.operations@, operation_id.0, op);
            }
            exec.operations.insert(operation_id.0, op);
            Ok(())
        },
        _ => Err(KernelError::invalid(Rejection::NestedExecutionEvent)),
    }
}

fn operation_scheduled(exec: &mut ExecutionState, op_id: OperationId) -> (r: Result<(), KernelError>)
    ensures
        outcome_of(r, final(exec)@) == operation_scheduled_spec(old(exec)@, op_id),
        r is Err ==> final(exec)@ == old(exec)@,
{
    match exec.operations.get(op_id.0) {
        None => {
            return Err(KernelError::invalid(Rejection::UnknownOperation(op_id)));
        },
        Some(op) => {
            if op.status.is_terminal() {
                return Err(KernelError::invalid(Rejection::ScheduleTerminal));
            }
            if !matches!(
                op.status,
                OperationStatus::Created | OperationStatus::Orphaned | OperationStatus::Unknown
            ) {
                return Err(KernelError::invalid(Rejection::ScheduleFrom(op.status)));
            }
        },
    }
    let mut op = exec.operations.take(op_id.0).unwrap();
    op.status = OperationStatus::Ready;
    proof {
        lemma_replace_view(old(exec).operations@, op_id.0, op);
    }
    exec.operations.insert(op_id.0, op);
    Ok(())
}

fn operation_leased(exec: &mut ExecutionState, ev: &Event) -> (r: Result<(), KernelError>)
    requires
        ev is OperationLeased,
    ensures
        outcome_of(r, final(exec)@) == operation_leased_spec(old(exec)@, *ev),
        r is Err ==> final(exec)@ == old(exec)@,
{
    match ev {
        Event::OperationLeased {
            operation_id,
            attempt_id,
            generation,
            owner,
            expires_at_ms,
            capability_id,
            executor_id,
        } => {
            match exec.operations.get(operation_id.0) {
                None => {
                    return Err(KernelError::invalid(Rejection::UnknownOperation(*operation_id)));
                },
                Some(op) => {
                    if op.status.is_terminal() {
                        return Err(KernelError::invalid(Rejection::LeaseTerminal));
                    }
                    if !matches!(op.status, OperationStatus::Ready | OperationStatus::Orphaned) {
                        return Err(KernelError::invalid(Rejection::LeaseFrom(op.status)));
                    }
                    match &op.lease {
                        Some(existing) => {
                            if !existing.expired && existing.generation >= *generation {
                                return Err(KernelError::invalid(Rejection::LeaseStillActive));
                            }
                            if existing.generation == u64::MAX || *generation != existing.generation + 1 {
                                return Err(KernelError::invalid(Rejection::LeaseGenerationStep));
                            }
                        },
                        None => {
                            if *generation != 1 {
                                return Err(KernelError::invalid(Rejection::FirstLeaseGeneration));
                            }
                        },
                    }
                },
            }
            let mut op = exec.operations.take(operation_id.0).unwrap();
            if !op.attempts.contains_key(attempt_id.0) {
                let a = new_attempt(*attempt_id);
                proof {
                    lemma_replace_view(op.attempts@, attempt_id.0, a);
                }
                op.attempts.insert(attempt_id.0, a);
            }
            op.active_attempt = Some(*attempt_id);
            op.lease = Some(
                LeaseState {
                    generation: *generation,
                    owner: *owner,
                    expires_at_ms: *expires_at_ms,
                    executor_id: executor_id.clone(),
                    capability_id: *capability_id,
                    expired: false,
                },
            );
            op.status = OperationStatus::Leased;
            proof {
                lemma_replace_view(old(exec).operations@, operation_id.0, op);
            }
            exec.operations.insert(operation_id.0, op);
            Ok(())
        },
        _ => Err(KernelError::invalid(Rejection::NestedExecutionEvent)),
    }
}

fn process_started(exec: &mut ExecutionState, ev: &Event) -> (r: Result<(), KernelError>)
    requires
        ev is ProcessStarted,
    ensures
        outcome_of(r, final(exec)@) == process_started_spec(old(exec)@, *ev),
        r is Err ==> final(exec)@ == old(exec)@,
{
    match ev {
        Event::ProcessStarted { operation_id, attempt_id, pid, start_key } => {
            match exec.operations.get(operation_id.0) {
                None => {
                    return Err(KernelError::invalid(Rejection::UnknownOperation(*operation_id)));
                },
                Some(op) => {
                    if op.status.is_terminal() {
                        return Err(KernelError::invalid(Rejection::RunningAfterCommit));
                    }
                    if !matches!(op.status, OperationStatus::Leased | OperationStatus::WaitingExternal) {
                        return Err(KernelError::invalid(Rejection::ProcessStartedFrom(op.status)));
                    }
                    if !op.attempts.contains_key(attempt_id.0) {
                        return Err(KernelError::invalid(Rejection::UnknownAttempt));
                    }
                },
            }
            let mut op = exec.operations.take(operation_id.0).unwrap();
            let mut a = op.attempts.take(attempt_id.0).unwrap();
            a.pid = Some(*pid);
            a.start_key = Some(start_key.clone());
            proof {
                lemma_replace_view(op.attempts@, attempt_id.0, a);
                lemma_replace_view(old(exec).operations@.index(operation_id.0).attempts@, attempt_id.0, a);
            }
            op.attempts.insert(attempt_id.0, a);
            op.active_attempt = Some(*attempt_id);
            op.status = OperationStatus::Running;
            proof {
                lemma_replace_view(old(exec).operations@, operation_id.0, op);
            }
            exec.operations.insert(operation_id.0, op);
            Ok(())
        },
        _ => Err(KernelError::invalid(Rejection::NestedExecutionEvent)),
    }
}

fn process_output(exec: &mut ExecutionState, ev: &Event) -> (r: Result<(), KernelError>)
    requires
        ev is ProcessOutputAvailable,
    ensures
        outcome_of(r, final(exec)@) == process_output_spec(old(exec)@, *ev),
        r is Err ==> final(exec)@ == old(exec)@,
{
    match ev {
        Event::ProcessOutputAvailable { operation_id, attempt_id, stream, offset, byte_len, chunk_hash } => {
            match exec.operations.get(operation_id.0) {
                None => {
                    return Err(KernelError::invalid(Rejection::UnknownOperation(*operation_id)));
                },
                Some(op) => {
                    if !matches!(
                        op.status,
                        OperationStatus::Running | OperationStatus::WaitingExternal
                            | OperationStatus::Committing
                    ) {
                        return Err(KernelError::invalid(Rejection::OutputNotLive));
                    }
                    if !op.attempts.contains_key(attempt_id.0) {
                        return Err(KernelError::invalid(Rejection::UnknownAttempt));
                    }
                },
            }
            let mut op = exec.operations.take(operation_id.0).unwrap();
            let mut a = op.attempts.take(attempt_id.0).unwrap();
            a.output_chunks.push(
                OutputChunk { stream: *stream, offset: *offset, byte_len: *byte_len, chunk_hash: *chunk_hash },
            );
            proof {
                lemma_replace_view(old(exec).operations@.index(operation_id.0).attempts@, attempt_id.0, a);
            }
            op.attempts.insert(attempt_id.0, a);
            proof {
                lemma_replace_view(old(exec).operations@, operation_id.0, op);
            }
            exec.operations.insert(operation_id.0, op);
            Ok(())
        },
        _ => Err(KernelError::invalid(Rejection::NestedExecutionEvent)),
    }
}

fn process_exited(exec: &mut ExecutionState, ev: &Event) -> (r: Result<(), KernelError>)
    requires
        ev is ProcessExited,
    ensures
        outcome_of(r, final(exec)@) == process_exited_spec(old(exec)@, *ev),
        r is Err ==> final(exec)@ == old(exec)@,
{
    match ev {
        Event::ProcessExited { operation_id, attempt_id, exit_code, signal, killed_externally } => {
            match exec.operations.get(operation_id.0) {
                None => {
                    return Err(KernelError::invalid(Rejection::UnknownOperation(*operation_id)));
                },
                Some(op) => {
                    if op.status.is_terminal() {
                        return Err(KernelError::invalid(Rejection::ProcessAlreadyCommitted));
                    }
                    if !matches!(
                        op.status,
                        OperationStatus::Running | OperationStatus::WaitingExternal
                            | OperationStatus::Leased
                    ) {
                        return Err(KernelError::invalid(Rejection::ProcessExitedFrom(op.status)));
                    }
                    match op.attempts.get(attempt_id.0) {
                        None => {
                            return Err(KernelError::invalid(Rejection::UnknownAttempt));
                        },
                        Some(a) => {
                            if a.exit_code.is_some() {
                                return Err(KernelError::invalid(Rejection::AttemptAlreadyExited));
                            }
                        },
                    }
                },
            }
            let mut op = exec.operations.take(operation_id.0).unwrap();
            let mut a = op.attempts.take(attempt_id.0).unwrap();
            a.exit_code = Some(*exit_code);
            a.signal = clone_opt_text(signal);
            a.killed_externally = *killed_externally;
            proof {
                lemma_replace_view(old(exec).operations@.index(operation_id.0).attempts@, attempt_id.0, a);
            }
            op.attempts.insert(attempt_id.0, a);
            op.status = OperationStatus::Committing;
            proof {
                lemma_replace_view(old(exec).operations@, operation_id.0, op);
            }
            exec.operations.insert(operation_id.0, op);
            Ok(())
        },
        _ => Err(KernelError::invalid(Rejection::NestedExecutionEvent)),
    }
}

fn operation_committed(
    exec: &mut ExecutionState,
    op_id: OperationId,
    attempt_id: AttemptId,
    lease_generation: u64,
    exit_code: i32,
) -> (r: Result<(), KernelError>)
    ensures
        outcome_of(r, final(exec)@) == operation_committed_spec(
            old(exec)@,
            op_id,
            attempt_id,
            lease_generation,
            exit_code,
        ),
        r is Err ==> final(exec)@ == old(exec)@,
{
    match exec.operations.get(op_id.0) {
        None => {
            return Err(KernelError::invalid(Rejection::UnknownOperation(op_id)));
        },
        Some(op) => {
            if op.status.is_terminal() {
                return Err(KernelError::invalid(Rejection::OperationAlreadyTerminal));
            }
            if op.status != OperationStatus::Committing {
                return Err(KernelError::invalid(Rejection::CommitRequiresExit));
            }
            match &op.lease {
                None => {
                    return Err(KernelError::invalid(Rejection::CommitRequiresLease));
                },
                Some(lease) => {
                    if lease.expired || lease.generation != lease_generation {
                        return Err(
                            KernelError::StaleLease {
                                operation: op_id,
                                current: lease.generation,
                                used: lease_generation,
                            },
                        );
                    }
                },
            }
            match op.attempts.get(attempt_id.0) {
                None => {
                    return Err(KernelError::invalid(Rejection::UnknownAttempt));
                },
                Some(a) => {
                    match a.exit_code {
                        None => {
                            return Err(KernelError::invalid(Rejection::CommitAttemptNotExited));
                        },
                        Some(code) => {
                            if code != exit_code {
                                return Err(KernelError::invalid(Rejection::CommitExitMismatch));
                            }
                        },
                    }
                },
            }
        },
    }
    let mut op = exec.operations.take(op_id.0).unwrap();
    op.committed_attempt = Some(attempt_id);
    op.committed_exit_code = Some(exit_code);
    op.status = if exit_code == 0 {
        OperationStatus::Succeeded
    } else {
        OperationStatus::Failed
    };
    proof {
        lemma_replace_view(old(exec).operations@, op_id.0, op);
    }
    exec.operations.insert(op_id.0, op);
    Ok(())
}

fn operation_failed(exec: &mut ExecutionState, op_id: OperationId, lease_generation: Option<u64>) -> (r: Result<
    (),
    KernelError,
>)
    ensures
        outcome_of(r, final(exec)@) == operation_failed_spec(old(exec)@, op_id, lease_generation),
        r is Err ==> final(exec)@ == old(exec)@,
{
    match exec.operations.get(op_id.0) {
        None => {
            return Err(KernelError::invalid(Rejection::UnknownOperation(op_id)));
        },
        Some(op) => {
            if op.status.is_terminal() {
                return Err(KernelError::invalid(Rejection::OperationAlreadyTerminal));
            }
            match (lease_generation, &op.lease) {
                (Some(used), Some(lease)) => {
                    if lease.generation != used || lease.expired {
                        return Err(
                            KernelError::StaleLease { operation: op_id, current: lease.generation, used },
                        );
                    }
                },
                _ => {},
            }
        },
    }
    let mut op = exec.operations.take(op_id.0).unwrap();
    op.status = OperationStatus::Failed;
    proof {
        lemma_replace_view(old(exec).operations@, op_id.0, op);
    }
    exec.operations.insert(op_id.0, op);
    Ok(())
}

fn operation_settle(exec: &mut ExecutionState, op_id: OperationId, status: OperationStatus) -> (r: Result<
    (),
    KernelError,
>)
    ensures
        outcome_of(r, final(exec)@) == operation_settle_spec(old(exec)@, op_id, status),
        r is Err ==> final(exec)@ == old(exec)@,
{
    match exec.operations.get(op_id.0) {
        None => {
            return Err(KernelError::invalid(Rejection::UnknownOperation(op_id)));
        },
        Some(op) => {
            if op.status.is_terminal() {
                return Err(KernelError::invalid(Rejection::OperationAlreadyTerminal));
            }
        },
    }
    let mut op = exec.operations.take(op_id.0).unwrap();
    op.status = status;
    proof {
        lemma_replace_view(old(exec).operations@, op_id.0, op);
    }
    exec.operations.insert(op_id.0, op);
    Ok(())
}

fn lease_expired(exec: &mut ExecutionState, op_id: OperationId, generation: u64) -> (r: Result<(), KernelError>)
    ensures
        outcome_of(r, final(exec)@) == lease_expired_spec(old(exec)@, op_id, generation),
        r is Err ==> final(exec)@ == old(exec)@,
{
    match exec.operations.get(op_id.0) {
        None => {
            return Err(KernelError::invalid(Rejection::UnknownOperation(op_id)));
        },
        Some(op) => {
            if op.status.is_terminal() {
                return Ok(());
            }
            match &op.lease {
                None => {
                    return Err(KernelError::invalid(Rejection::NoLeaseToExpire));
                },
                Some(lease) => {
                    if lease.generation != generation {
                        return Err(KernelError::invalid(Rejection::ExpireGenerationMismatch));
                    }
                },
            }
        },
    }
    let mut op = exec.operations.take(op_id.0).unwrap();
    let mut lease = op.lease.take().unwrap();
    lease.expired = true;
    op.lease = Some(lease);
    op.status = OperationStatus::Orphaned;
    proof {
        lemma_replace_view(old(exec).operations@, op_id.0, op);
    }
    exec.operations.insert(op_id.0, op);
    Ok(())
}

/// Applies one event to an execution's state (see `apply_event_spec`); a
/// refused event leaves the state unchanged.
pub fn apply_execution_event(exec: &mut ExecutionState, event: &Event) -> (r: Result<(), KernelError>)
    ensures
        outcome_of(r, final(exec)@) == apply_event_spec(old(exec)@, *event),
        r is Err ==> final(exec)@ == old(exec)@,
{
    match event {
        Event::ExecutionCreated { .. } => Err(KernelError::invalid(Rejection::NestedExecutionEvent)),
        Event::ExecutionForked { .. } => Err(KernelError::invalid(Rejection::NestedExecutionEvent)),
        Event::GoalCreated { .. } => goal_created(exec, event),
        Event::GoalAcceptanceDefined { .. } => acceptance_defined(exec, event),
        Event::ModelTurnFinished { .. } => model_turn_finished(exec, event),
        Event::GoalCompleted { goal_id } => goal_completed(exec, *goal_id),
        Event::GoalFailed { goal_id, .. } => goal_failed(exec, *goal_id),
        Event::AgentSpawned { .. } => agent_spawned(exec, event),
        Event::AgentStatusChanged { agent_id, from, to, .. } => agent_status_changed(
            exec,
            *agent_id,
            *from,
            *to,
        ),
        Event::TaskCreated { .. } => task_created(exec, event),
        Event::JoinCreated { .. } => join_created(exec, event),
        Event::JoinChildTerminal { join_id, child_id, child_status } => join_child_terminal(
            exec,
            *join_id,
            *child_id,
            *child_status,
        ),
        Event::JoinSatisfied { join_id, outcome } => join_satisfied(exec, *join_id, *outcome),
        Event::OperationCreated { .. } => operation_created(exec, event),
        Event::OperationScheduled { operation_id } => operation_scheduled(exec, *operation_id),
        Event::OperationLeased { .. } => operation_leased(exec, event),
        Event::ProcessStarted { .. } => process_started(exec, event),
        Event::ProcessOutputAvailable { .. } => process_output(exec, event),
        Event::ProcessExited { .. } => process_exited(exec, event),
        Event::OperationCommitted { operation_id, attempt_id, lease_generation, exit_code } =>
            operation_committed(exec, *operation_id, *attempt_id, *lease_generation, *exit_code),
        Event::OperationFailed { operation_id, lease_generation, .. } => operation_failed(
            exec,
            *operation_id,
            *lease_generation,
        ),
        Event::OperationUnresolved { operation_id, .. } => operation_settle(
            exec,
            *operation_id,
            OperationStatus::Unknown,
        ),
        Event::OperationCancelled { operation_id, .. } => operation_settle(
            exec,
            *operation_id,
            OperationStatus::Cancelled,
        ),
        Event::LeaseExpired { operation_id, generation } => lease_expired(exec, *operation_id, *generation),
        Event::CheckpointTaken { seq, state_hash } => {
            let c = CheckpointState { seq: *seq, state_hash: state_hash.clone() };
            exec.checkpoints.push(c);
            proof {
                assert(exec.checkpoints@.map_values(|c: CheckpointState| c@) =~= old(
                    exec,
                ).checkpoints@.map_values(|c: CheckpointState| c@).push(c@));
            }
            Ok(())
        },
        Event::ContextSnapshotAttached { .. } => snapshot_attached(exec, event),
        Event::CapabilityGranted { .. } => capability_granted(exec, event),
        Event::BarrierCreated { barrier_id, expected_arrivals } => barrier_created(
            exec,
            *barrier_id,
            *expected_arrivals,
        ),
        Event::BarrierArrived { barrier_id, agent_id } => barrier_arrived(exec, *barrier_id, *agent_id),
        Event::BarrierSatisfied { barrier_id } => barrier_satisfied(exec, *barrier_id),
        Event::RetentionChanged { agent_id, retained } => retention_changed(exec, *agent_id, *retained),
    }
}

fn apply_payload(state: &mut KernelState, record: &EventRecord) -> (r: Result<(), KernelError>)
    ensures
        match r {
            Ok(_) => apply_payload_spec(old(state)@.executions, *record) == Ok::<
                Map<u128, ExecutionView>,
                KernelError,
            >(final(state)@.executions),
            Err(e) => apply_payload_spec(old(state)@.executions, *record) == Err::<
                Map<u128, ExecutionView>,
                KernelError,
            >(e),
        },
        r is Err ==> final(state)@ == old(state)@,
        final(state)@.seen_event_ids == old(state)@.seen_event_ids,
        final(state)@.idempotency_index == old(state)@.idempotency_index,
        final(state)@.last_seq == old(state)@.last_seq,
{
    let x = record.execution_id;
    match &record.payload {
        Event::ExecutionCreated { created_at_ms, note } => {
            if state.executions.contains_key(x.0) {
                return Err(KernelError::invalid(Rejection::ExecutionExists(x)));
            }
            if record.seq != 1 {
                return Err(KernelError::invalid(Rejection::CreatedNotFirst));
            }
            let e = ExecutionState::new(x, *created_at_ms, note.clone());
            proof {
                lemma_replace_view(state.executions@, x.0, e);
            }
            state.executions.insert(x.0, e);
            Ok(())
        },
        Event::ExecutionForked { source_execution_id, from_event_id, from_seq, source_business_hash } => {
            match state.executions.get(x.0) {
                None => {
                    return Err(KernelError::ExecutionNotFound(x));
                },
                Some(e) => {
                    if e.ancestor.is_some() {
                        return Err(KernelError::invalid(Rejection::AncestryExists));
                    }
                },
            }
            let mut e = state.executions.take(x.0).unwrap();
            e.ancestor = Some(
                ForkAncestry {
                    source_execution_id: *source_execution_id,
                    from_event_id: *from_event_id,
                    from_seq: *from_seq,
                    source_business_hash: source_business_hash.clone(),
                },
            );
            proof {
                lemma_replace_view(old(state).executions@, x.0, e);
            }
            state.executions.insert(x.0, e);
            Ok(())
        },
        other => {
            if !state.executions.contains_key(x.0) {
                return Err(KernelError::ExecutionNotFound(x));
            }
            let mut e = state.executions.take(x.0).unwrap();
            let r = apply_execution_event(&mut e, other);
            proof {
                lemma_replace_view(old(state).executions@, x.0, e);
                if r is Err {
                    assert(old(state)@.executions.insert(x.0, e@) =~= old(state)@.executions);
                }
            }
            state.executions.insert(x.0, e);
            r
        },
    }
}

/// Reduces one record into the state (see `reduce_spec`). `canonical` is the
/// record serialized with an empty checksum. A refused record leaves the
/// state unchanged.
pub fn reduce(state: &mut KernelState, record: &EventRecord, canonical: &[u8]) -> (r: Result<(), KernelError>)
    ensures
        match r {
            Ok(_) => reduce_spec(old(state)@, *record, canonical@) == Ok::<
                crate::state::KernelView,
                KernelError,
            >(final(state)@),
            Err(e) => reduce_spec(old(state)@, *record, canonical@) is Err && same_error(
                e,
                reduce_spec(old(state)@, *record, canonical@)->Err_0,
            ),
        },
        r is Err ==> final(state)@ == old(state)@,
{
    record.verify_checksum(canonical)?;
    if record.schema_version != SCHEMA_VERSION {
        return Err(
            KernelError::UnsupportedSchema { found: record.schema_version, expected: SCHEMA_VERSION },
        );
    }
    if state.seen_event_ids.contains_key(record.event_id.0) {
        return Ok(());
    }
    match state.idempotency_index.get(&record.idempotency_key) {
        Some(existing) => {
            if existing != record.event_id {
                return Err(
                    KernelError::IdempotencyConflict {
                        key: crate::ids::IdempotencyKey(record.idempotency_key.0.clone()),
                        existing,
                        new_event: record.event_id,
                    },
                );
            }
            return Ok(());
        },
        None => {},
    }
    let last = match state.last_seq.get(record.execution_id.0) {
        Some(v) => *v,
        None => 0,
    };
    if last == u64::MAX {
        // No sequence number follows: the successor wraps to 0, which no
        // record carries.
        let expected: u64 = 0;
        proof {
            assert(((last as int) + 1) as u64 == 0u64) by (bit_vector)
                requires
                    last == 0xffff_ffff_ffff_ffffu64,
            ;
        }
        return Err(
            KernelError::NonMonotonicSeq { execution: record.execution_id, expected, got: record.seq },
        );
    }
    let expected = last + 1;
    if record.seq != expected {
        return Err(
            KernelError::NonMonotonicSeq { execution: record.execution_id, expected, got: record.seq },
        );
    }
    apply_payload(state, record)?;
    state.seen_event_ids.insert(record.event_id.0, ());
    state.idempotency_index.insert(
        crate::ids::IdempotencyKey(record.idempotency_key.0.clone()),
        record.event_id,
    );
    state.last_seq.insert(record.execution_id.0, record.seq);
    proof {
        assert(state@.seen_event_ids =~= old(state)@.seen_event_ids.insert(record.event_id.0));
    }
    Ok(())
}

/// The canonical byte sequences, as mathematical sequences.
pub open spec fn byte_seqs(v: Seq<Vec<u8>>) -> Seq<Seq<u8>> {
    v.map_values(|b: Vec<u8>| b@)
}

/// Reduces records in order from the empty state (see `reduce_all_spec_from`).
pub fn reduce_all(records: &[EventRecord], canonicals: &[Vec<u8>]) -> (r: Result<KernelState, KernelError>)
    requires
        canonicals@.len() == records@.len(),
    ensures
        match r {
            Ok(s) => reduce_all_spec_from(
                crate::state::empty_kernel_view(),
                records@,
                byte_seqs(canonicals@),
            ) == Ok::<crate::state::KernelView, KernelError>(s@),
            Err(e) => reduce_all_spec_from(
                crate::state::empty_kernel_view(),
                records@,
                byte_seqs(canonicals@),
            ) is Err && same_error(
                e,
                reduce_all_spec_from(
                    crate::state::empty_kernel_view(),
                    records@,
                    byte_seqs(canonicals@),
                )->Err_0,
            ),
        },
{
    let mut state = KernelState::new();
    let mut i: usize = 0;
    proof {
        assert(records@.subrange(0, records@.len() as int) =~= records@);
        assert(byte_seqs(canonicals@).subrange(0, records@.len() as int) =~= byte_seqs(canonicals@));
        assert(state@.last_seq =~= Map::<u128, u64>::empty());
    }
    while i < records.len()
        invariant
            canonicals@.len() == records@.len(),
            i <= records@.len(),
            reduce_all_spec_from(crate::state::empty_kernel_view(), records@, byte_seqs(canonicals@))
                == reduce_all_spec_from(
                state@,
                records@.subrange(i as int, records@.len() as int),
                byte_seqs(canonicals@).subrange(i as int, records@.len() as int),
            ),
        decreases records@.len() - i,
    {
        let ghost rest = records@.subrange(i as int, records@.len() as int);
        let ghost crest = byte_seqs(canonicals@).subrange(i as int, records@.len() as int);
        proof {
            assert(rest[0] == records@[i as int]);
            assert(crest[0] == canonicals@[i as int]@);
            assert(rest.drop_first() =~= records@.subrange(i + 1, records@.len() as int));
            assert(crest.drop_first() =~= byte_seqs(canonicals@).subrange(
                i + 1,
                records@.len() as int,
            ));
        }
        let ghost before = state@;
        match reduce(&mut state, &records[i], canonicals[i].as_slice()) {
            Err(e) => {
                return Err(e);
            },
            Ok(()) => {},
        }
        i = i + 1;
    }
    proof {
        assert(records@.subrange(i as int, records@.len() as int) =~= Seq::<EventRecord>::empty());
    }
    Ok(state)
}

} // verus!
