//! Laws of the reducer, proved over its mathematical semantics.
use vstd::prelude::*;

use crate::event::{
    AgentStatus, Event, EventRecord, GoalStatus, JoinOutcome, OperationStatus,
};
use crate::ids::{AgentId, BarrierId, GoalId, JoinId, OperationId};
use crate::model::{
    apply_event_spec, apply_payload_spec, capability_subset_spec, goal_completion_spec,
    expected_join_outcome_spec, join_outcome_of, reduce_all_spec_from, reduce_spec, saturating_inc,
};
use crate::event::{checksum_text, SCHEMA_VERSION};
use crate::state::{ExecutionView, GoalView, KernelView};

verus! {

/// Delivering a record again after it was reduced changes nothing.
pub proof fn lemma_redelivery_is_noop(s: KernelView, r: EventRecord, canonical: Seq<u8>)
    requires
        reduce_spec(s, r, canonical) is Ok,
    ensures
        reduce_spec(reduce_spec(s, r, canonical)->Ok_0, r, canonical) == reduce_spec(s, r, canonical),
{
}

/// A record that is new to the state advances its execution's sequence
/// number by exactly one.
pub proof fn lemma_new_record_advances_seq(s: KernelView, r: EventRecord, canonical: Seq<u8>)
    requires
        reduce_spec(s, r, canonical) is Ok,
        !s.seen_event_ids.contains(r.event_id.0),
        !s.idempotency_index.contains_key(r.idempotency_key.0@),
    ensures
        ({
            let s1 = reduce_spec(s, r, canonical)->Ok_0;
            &&& s1.last_seq.contains_key(r.execution_id.0)
            &&& s1.last_seq[r.execution_id.0] == r.seq
            &&& r.seq == (if s.last_seq.contains_key(r.execution_id.0) {
                s.last_seq[r.execution_id.0] as int
            } else {
                0
            }) + 1
            &&& s1.seen_event_ids.contains(r.event_id.0)
        }),
{
}

/// A terminal operation is left exactly as it is by every accepted payload:
/// a committed operation never returns to running.
pub proof fn lemma_terminal_operation_is_final(e: ExecutionView, ev: Event, k: u128)
    requires
        e.operations.contains_key(k),
        e.operations[k].status.spec_is_terminal(),
        apply_event_spec(e, ev) is Ok,
    ensures
        ({
            let e1 = apply_event_spec(e, ev)->Ok_0;
            &&& e1.operations.contains_key(k)
            &&& e1.operations[k] == e.operations[k]
        }),
{
    match ev {
        Event::OperationCreated { .. } => {},
        Event::OperationScheduled { .. } => {},
        Event::OperationLeased { .. } => {},
        Event::ProcessStarted { .. } => {},
        Event::ProcessOutputAvailable { .. } => {},
        Event::ProcessExited { .. } => {},
        Event::OperationCommitted { .. } => {},
        Event::OperationFailed { .. } => {},
        Event::OperationUnresolved { .. } => {},
        Event::OperationCancelled { .. } => {},
        Event::LeaseExpired { .. } => {},
        _ => {},
    }
}

/// A terminal agent keeps its status under every accepted payload.
pub proof fn lemma_terminal_agent_is_final(e: ExecutionView, ev: Event, k: u128)
    requires
        e.agents.contains_key(k),
        e.agents[k].status.spec_is_terminal(),
        apply_event_spec(e, ev) is Ok,
    ensures
        ({
            let e1 = apply_event_spec(e, ev)->Ok_0;
            &&& e1.agents.contains_key(k)
            &&& e1.agents[k].status == e.agents[k].status
        }),
{
    match ev {
        Event::GoalCreated { .. } => {},
        Event::GoalAcceptanceDefined { .. } => {},
        Event::ModelTurnFinished { .. } => {},
        Event::GoalCompleted { .. } => {},
        Event::GoalFailed { .. } => {},
        Event::AgentSpawned { .. } => {},
        Event::AgentStatusChanged { .. } => {},
        Event::ContextSnapshotAttached { .. } => {},
        Event::CapabilityGranted { .. } => {},
        Event::RetentionChanged { .. } => {},
        Event::JoinCreated { .. } => {},
        Event::JoinChildTerminal { .. } => {},
        Event::JoinSatisfied { .. } => {},
        Event::BarrierCreated { .. } => {},
        Event::BarrierArrived { .. } => {},
        Event::BarrierSatisfied { .. } => {},
        _ => {},
    }
}

/// A goal becomes completed only through a `GoalCompleted` payload for it,
/// and only when its acceptance preconditions hold.
pub proof fn lemma_goal_completes_only_by_acceptance(e: ExecutionView, ev: Event, k: u128)
    requires
        apply_event_spec(e, ev) is Ok,
        apply_event_spec(e, ev)->Ok_0.goals.contains_key(k),
        apply_event_spec(e, ev)->Ok_0.goals[k].status == GoalStatus::Completed,
        !(e.goals.contains_key(k) && e.goals[k].status == GoalStatus::Completed),
    ensures
        ev is GoalCompleted,
        ev->GoalCompleted_goal_id.0 == k,
        goal_completion_spec(e, ev->GoalCompleted_goal_id) == Ok::<bool, crate::error::KernelError>(
            true,
        ),
{
    match ev {
        Event::GoalCreated { .. } => {},
        Event::GoalAcceptanceDefined { .. } => {},
        Event::ModelTurnFinished { .. } => {},
        Event::GoalCompleted { .. } => {},
        Event::GoalFailed { .. } => {},
        Event::AgentSpawned { .. } => {},
        Event::AgentStatusChanged { .. } => {},
        Event::ContextSnapshotAttached { .. } => {},
        Event::CapabilityGranted { .. } => {},
        Event::RetentionChanged { .. } => {},
        Event::JoinCreated { .. } => {},
        Event::JoinChildTerminal { .. } => {},
        Event::JoinSatisfied { .. } => {},
        Event::BarrierCreated { .. } => {},
        Event::BarrierArrived { .. } => {},
        Event::BarrierSatisfied { .. } => {},
        _ => {},
    }
}

/// A `GoalCompleted` payload is accepted exactly when the goal's completion
/// preconditions hold, and then marks that goal completed and changes nothing
/// else of it; a refused one names why.
pub proof fn lemma_goal_completed_iff_preconditions(e: ExecutionView, g: GoalId)
    ensures
        (apply_event_spec(e, Event::GoalCompleted { goal_id: g }) is Ok) == (goal_completion_spec(e, g)
            == Ok::<bool, crate::error::KernelError>(true)),
        apply_event_spec(e, Event::GoalCompleted { goal_id: g }) matches Ok(e1) ==> {
            &&& e1.goals.contains_key(g.0)
            &&& e1.goals[g.0] == (GoalView { status: GoalStatus::Completed, ..e.goals[g.0] })
            &&& forall|k: u128| k != g.0 ==> e1.goals.contains_key(k) == e.goals.contains_key(k)
                && (#[trigger] e1.goals[k]) == e.goals[k]
        },
{
}

/// A goal that requires no running operations cannot complete while an
/// operation of one of its agents has moved past `Created` without finishing
/// (it is neither succeeded, failed nor cancelled): its preconditions are
/// unmet and a `GoalCompleted` for it is refused.
pub proof fn lemma_unfinished_operation_blocks_goal(e: ExecutionView, g: GoalId, k: u128)
    requires
        e.goals.contains_key(g.0),
        e.goals[g.0].require_no_running_operations,
        e.operations.contains_key(k),
        e.agents.contains_key(e.operations[k].agent_id.0),
        e.agents[e.operations[k].agent_id.0].goal_id == g,
        e.operations[k].status != OperationStatus::Created,
        e.operations[k].status != OperationStatus::Succeeded,
        e.operations[k].status != OperationStatus::Failed,
        e.operations[k].status != OperationStatus::Cancelled,
    ensures
        goal_completion_spec(e, g) == Ok::<bool, crate::error::KernelError>(false),
        apply_event_spec(e, Event::GoalCompleted { goal_id: g }) is Err,
{
    assert(e.operations.contains_key(k) && crate::model::op_blocks_goal(e, e.operations[k], g));
}

/// An operation becomes succeeded only through a commit of exit code 0 for
/// it: a tool wrapper, a model turn or a process exit alone never does it.
pub proof fn lemma_operation_succeeds_only_by_commit(e: ExecutionView, ev: Event, k: u128)
    requires
        apply_event_spec(e, ev) is Ok,
        apply_event_spec(e, ev)->Ok_0.operations.contains_key(k),
        apply_event_spec(e, ev)->Ok_0.operations[k].status == OperationStatus::Succeeded,
        !(e.operations.contains_key(k) && e.operations[k].status == OperationStatus::Succeeded),
    ensures
        ev is OperationCommitted,
        ev->OperationCommitted_operation_id.0 == k,
        ev->OperationCommitted_exit_code == 0,
{
    match ev {
        Event::OperationCreated { .. } => {},
        Event::OperationScheduled { .. } => {},
        Event::OperationLeased { .. } => {},
        Event::ProcessStarted { .. } => {},
        Event::ProcessOutputAvailable { .. } => {},
        Event::ProcessExited { .. } => {},
        Event::OperationCommitted { .. } => {},
        Event::OperationFailed { .. } => {},
        Event::OperationUnresolved { .. } => {},
        Event::OperationCancelled { .. } => {},
        Event::LeaseExpired { .. } => {},
        _ => {},
    }
}

/// A new event under an idempotency key already bound to another event is
/// refused as a conflict naming both events.
pub proof fn lemma_reused_key_is_a_conflict(s: KernelView, r: EventRecord, canonical: Seq<u8>)
    requires
        r.checksum@ == checksum_text(canonical),
        r.schema_version == SCHEMA_VERSION,
        !s.seen_event_ids.contains(r.event_id.0),
        s.idempotency_index.contains_key(r.idempotency_key.0@),
        s.idempotency_index[r.idempotency_key.0@] != r.event_id,
    ensures
        reduce_spec(s, r, canonical) == Err::<KernelView, crate::error::KernelError>(
            crate::error::KernelError::IdempotencyConflict {
                key: r.idempotency_key,
                existing: s.idempotency_index[r.idempotency_key.0@],
                new_event: r.event_id,
            },
        ),
{
}

/// A record whose checksum is not that of its canonical bytes is refused,
/// whatever it carries.
pub proof fn lemma_bad_checksum_is_refused(s: KernelView, r: EventRecord, canonical: Seq<u8>)
    requires
        r.checksum@ != checksum_text(canonical),
    ensures
        reduce_spec(s, r, canonical) == Err::<KernelView, crate::error::KernelError>(
            crate::error::KernelError::ChecksumMismatch,
        ),
{
}

/// Every record of an accepted log carries the checksum of its canonical
/// bytes: the lowercase hex BLAKE3 digest of the record serialized with an
/// empty checksum (with a kernel's log, the backend's serializations; see
/// `Kernel::from_log` and `Kernel::appended`).
pub proof fn lemma_accepted_log_checksums(s: KernelView, records: Seq<EventRecord>, cs: Seq<Seq<u8>>)
    requires
        cs.len() == records.len(),
        reduce_all_spec_from(s, records, cs) is Ok,
    ensures
        forall|i: int| 0 <= i < records.len() ==> (#[trigger] records[i]).checksum@ == checksum_text(cs[i]),
    decreases records.len(),
{
    if records.len() > 0 {
        let s1 = reduce_spec(s, records[0], cs[0])->Ok_0;
        lemma_accepted_log_checksums(s1, records.drop_first(), cs.drop_first());
        assert forall|i: int| 0 <= i < records.len() implies (#[trigger] records[i]).checksum@ == checksum_text(
            cs[i],
        ) by {
            if i > 0 {
                assert(records[i] == records.drop_first()[i - 1]);
                assert(cs[i] == cs.drop_first()[i - 1]);
            }
        }
    }
}

/// A finished model turn never changes the status of any goal: it only
/// records the turn and counts it for the goal of its agent.
pub proof fn lemma_model_turn_is_not_goal_completion(e: ExecutionView, ev: Event, k: u128)
    requires
        ev is ModelTurnFinished,
        apply_event_spec(e, ev) is Ok,
        e.goals.contains_key(k),
    ensures
        apply_event_spec(e, ev)->Ok_0.goals.contains_key(k),
        apply_event_spec(e, ev)->Ok_0.goals[k].status == e.goals[k].status,
        apply_event_spec(e, ev)->Ok_0.goals[k] == (GoalView {
            model_turns_finished: apply_event_spec(e, ev)->Ok_0.goals[k].model_turns_finished,
            ..e.goals[k]
        }),
        apply_event_spec(e, ev)->Ok_0.goals[k].model_turns_finished == if k
            == e.agents[ev->ModelTurnFinished_agent_id.0].goal_id.0 {
            saturating_inc(e.goals[k].model_turns_finished)
        } else {
            e.goals[k].model_turns_finished
        },
        apply_event_spec(e, ev)->Ok_0.model_turns.len() == e.model_turns.len() + 1,
        apply_event_spec(e, ev)->Ok_0.goals.dom() == e.goals.dom(),
{
}

/// An accepted commit names the current, unexpired lease generation and an
/// attempt whose recorded exit code it repeats.
pub proof fn lemma_commit_is_fenced(e: ExecutionView, ev: Event)
    requires
        ev is OperationCommitted,
        apply_event_spec(e, ev) is Ok,
    ensures
        ({
            let k = ev->OperationCommitted_operation_id.0;
            let op = e.operations[k];
            let a = ev->OperationCommitted_attempt_id.0;
            &&& e.operations.contains_key(k)
            &&& op.status == OperationStatus::Committing
            &&& op.lease is Some
            &&& !op.lease->0.expired
            &&& op.lease->0.generation == ev->OperationCommitted_lease_generation
            &&& op.attempts.contains_key(a)
            &&& op.attempts[a].exit_code == Some(ev->OperationCommitted_exit_code)
        }),
{
}

/// An accepted lease follows the previous one: generation 1 first, then one
/// more than an expired or older lease, never beside an active one.
pub proof fn lemma_lease_generations_step_by_one(e: ExecutionView, ev: Event)
    requires
        ev is OperationLeased,
        apply_event_spec(e, ev) is Ok,
    ensures
        ({
            let k = ev->OperationLeased_operation_id.0;
            let op = e.operations[k];
            let g = ev->OperationLeased_generation;
            &&& e.operations.contains_key(k)
            &&& (op.status == OperationStatus::Ready || op.status == OperationStatus::Orphaned)
            &&& match op.lease {
                None => g == 1,
                Some(l) => g == l.generation + 1 && (l.expired || l.generation < g),
            }
        }),
{
}

/// A join's outcome is set only by a matching `JoinSatisfied`, to the outcome
/// its observations call for.
pub proof fn lemma_join_outcome_matches_observations(e: ExecutionView, ev: Event, k: u128)
    requires
        apply_event_spec(e, ev) is Ok,
        e.joins.contains_key(k),
        e.joins[k].outcome is None,
        apply_event_spec(e, ev)->Ok_0.joins[k].outcome is Some,
    ensures
        ev is JoinSatisfied,
        ev->JoinSatisfied_join_id.0 == k,
        join_outcome_of(e.joins[k]) == Some(ev->JoinSatisfied_outcome),
        apply_event_spec(e, ev)->Ok_0.joins[k].outcome == Some(ev->JoinSatisfied_outcome),
{
    match ev {
        Event::GoalCreated { .. } => {},
        Event::GoalAcceptanceDefined { .. } => {},
        Event::ModelTurnFinished { .. } => {},
        Event::GoalCompleted { .. } => {},
        Event::GoalFailed { .. } => {},
        Event::AgentSpawned { .. } => {},
        Event::AgentStatusChanged { .. } => {},
        Event::ContextSnapshotAttached { .. } => {},
        Event::CapabilityGranted { .. } => {},
        Event::RetentionChanged { .. } => {},
        Event::JoinCreated { .. } => {},
        Event::JoinChildTerminal { .. } => {},
        Event::JoinSatisfied { .. } => {},
        Event::BarrierCreated { .. } => {},
        Event::BarrierArrived { .. } => {},
        Event::BarrierSatisfied { .. } => {},
        _ => {},
    }
}

/// A `JoinSatisfied` payload is accepted exactly when its outcome is the one
/// the join's observed children call for, and then sets that outcome.
pub proof fn lemma_join_satisfied_iff_expected(e: ExecutionView, j: JoinId, x: JoinOutcome)
    ensures
        (apply_event_spec(e, Event::JoinSatisfied { join_id: j, outcome: x }) is Ok) == (
        expected_join_outcome_spec(e, j) == Ok::<Option<JoinOutcome>, crate::error::KernelError>(Some(x))),
        apply_event_spec(e, Event::JoinSatisfied { join_id: j, outcome: x }) matches Ok(e1) ==> e1.joins.contains_key(j.0)
            && e1.joins[j.0].outcome == Some(x),
{
}

/// A join child may be observed only once it is terminal, with its actual status.
pub proof fn lemma_join_observation_is_truthful(e: ExecutionView, ev: Event)
    requires
        ev is JoinChildTerminal,
        apply_event_spec(e, ev) is Ok,
    ensures
        ({
            let c = ev->JoinChildTerminal_child_id.0;
            &&& e.agents.contains_key(c)
            &&& e.agents[c].status.spec_is_terminal()
            &&& e.agents[c].status == ev->JoinChildTerminal_child_status
        }),
{
}

/// A barrier is satisfied only once its expected arrivals are in.
pub proof fn lemma_barrier_needs_arrivals(e: ExecutionView, ev: Event, k: u128)
    requires
        apply_event_spec(e, ev) is Ok,
        e.barriers.contains_key(k),
        !e.barriers[k].satisfied,
        apply_event_spec(e, ev)->Ok_0.barriers.contains_key(k),
        apply_event_spec(e, ev)->Ok_0.barriers[k].satisfied,
    ensures
        ev is BarrierSatisfied,
        e.barriers[k].arrivals.len() as u32 == e.barriers[k].expected_arrivals,
{
    match ev {
        Event::GoalCreated { .. } => {},
        Event::GoalAcceptanceDefined { .. } => {},
        Event::ModelTurnFinished { .. } => {},
        Event::GoalCompleted { .. } => {},
        Event::GoalFailed { .. } => {},
        Event::AgentSpawned { .. } => {},
        Event::AgentStatusChanged { .. } => {},
        Event::ContextSnapshotAttached { .. } => {},
        Event::CapabilityGranted { .. } => {},
        Event::RetentionChanged { .. } => {},
        Event::JoinCreated { .. } => {},
        Event::JoinChildTerminal { .. } => {},
        Event::JoinSatisfied { .. } => {},
        Event::BarrierCreated { .. } => {},
        Event::BarrierArrived { .. } => {},
        Event::BarrierSatisfied { .. } => {},
        _ => {},
    }
}

/// An agent that already arrived at a barrier arriving again changes nothing.
pub proof fn lemma_repeated_arrival_is_noop(e: ExecutionView, b: BarrierId, a: AgentId)
    requires
        e.barriers.contains_key(b.0),
        !e.barriers[b.0].satisfied,
        e.barriers[b.0].arrivals.contains(a),
    ensures
        apply_event_spec(e, Event::BarrierArrived { barrier_id: b, agent_id: a }) == Ok::<
            ExecutionView,
            crate::error::KernelError,
        >(e),
{
}

/// No barrier's arrivals ever hold an agent twice: every accepted payload
/// keeps the arrivals of every barrier free of repeats.
pub proof fn lemma_arrivals_stay_distinct(e: ExecutionView, ev: Event)
    requires
        forall|k: u128| #[trigger] e.barriers.contains_key(k) ==> e.barriers[k].arrivals.no_duplicates(),
        apply_event_spec(e, ev) is Ok,
    ensures
        forall|k: u128| #[trigger] apply_event_spec(e, ev)->Ok_0.barriers.contains_key(k)
            ==> apply_event_spec(e, ev)->Ok_0.barriers[k].arrivals.no_duplicates(),
{
    let e1 = apply_event_spec(e, ev)->Ok_0;
    match ev {
        Event::BarrierCreated { barrier_id, .. } => {
            assert forall|k: u128| #[trigger] e1.barriers.contains_key(k) implies e1.barriers[k].arrivals.no_duplicates() by {
                if k != barrier_id.0 {
                    assert(e.barriers.contains_key(k));
                }
            }
        },
        Event::BarrierArrived { barrier_id, agent_id } => {
            assert forall|k: u128| #[trigger] e1.barriers.contains_key(k) implies e1.barriers[k].arrivals.no_duplicates() by {
                if k == barrier_id.0 && !e.barriers[k].arrivals.contains(agent_id) {
                    let s = e.barriers[k].arrivals;
                    let t = s.push(agent_id);
                    assert forall|i: int, j: int| 0 <= i < t.len() && 0 <= j < t.len() && i != j implies t[i] != t[j] by {
                        if i == s.len() {
                            assert(s[j] == t[j]);
                        } else if j == s.len() {
                            assert(s[i] == t[i]);
                        }
                    }
                } else if k != barrier_id.0 {
                    assert(e.barriers.contains_key(k));
                }
            }
        },
        Event::BarrierSatisfied { barrier_id } => {
            assert forall|k: u128| #[trigger] e1.barriers.contains_key(k) implies e1.barriers[k].arrivals.no_duplicates() by {
                assert(e.barriers.contains_key(k));
            }
        },
        _ => {
            assert(e1.barriers == e.barriers);
        },
    }
}

/// A spawned child with a capability stays within its parent agent's capability.
pub proof fn lemma_child_capability_within_parent(e: ExecutionView, ev: Event)
    requires
        ev is AgentSpawned,
        apply_event_spec(e, ev) is Ok,
        ev->AgentSpawned_capability_id is Some,
        ev->AgentSpawned_parent_agent_id is Some,
        e.agents[(ev->AgentSpawned_parent_agent_id->0).0].capability_id is Some,
    ensures
        ({
            let c = ev->AgentSpawned_capability_id->0;
            let p = ev->AgentSpawned_parent_agent_id->0;
            capability_subset_spec(e, e.capabilities[c.0], e.agents[p.0].capability_id->0)
        }),
{
}


/// The state already reflects this record: it is well-formed and its event
/// (or its key, bound to the same event) was recorded.
pub open spec fn already_reduced(s: KernelView, r: EventRecord, canonical: Seq<u8>) -> bool {
    &&& r.checksum@ == checksum_text(canonical)
    &&& r.schema_version == SCHEMA_VERSION
    &&& (s.seen_event_ids.contains(r.event_id.0) || (s.idempotency_index.contains_key(
        r.idempotency_key.0@,
    ) && s.idempotency_index[r.idempotency_key.0@] == r.event_id))
}

proof fn lemma_reduce_marks_record(s: KernelView, r: EventRecord, canonical: Seq<u8>)
    requires
        reduce_spec(s, r, canonical) is Ok,
    ensures
        already_reduced(reduce_spec(s, r, canonical)->Ok_0, r, canonical),
{
}

proof fn lemma_reduce_keeps_reduced(
    s: KernelView,
    r: EventRecord,
    canonical: Seq<u8>,
    r2: EventRecord,
    c2: Seq<u8>,
)
    requires
        reduce_spec(s, r, canonical) is Ok,
        already_reduced(s, r2, c2),
    ensures
        already_reduced(reduce_spec(s, r, canonical)->Ok_0, r2, c2),
{
    let s1 = reduce_spec(s, r, canonical)->Ok_0;
    if s.idempotency_index.contains_key(r2.idempotency_key.0@) && s1 != s {
        assert(r.idempotency_key.0@ != r2.idempotency_key.0@ ==> s1.idempotency_index[r2.idempotency_key.0@]
            == s.idempotency_index[r2.idempotency_key.0@]);
    }
}

proof fn lemma_reduce_all_keeps_reduced(
    s: KernelView,
    records: Seq<EventRecord>,
    cs: Seq<Seq<u8>>,
    r2: EventRecord,
    c2: Seq<u8>,
)
    requires
        cs.len() == records.len(),
        reduce_all_spec_from(s, records, cs) is Ok,
        already_reduced(s, r2, c2),
    ensures
        already_reduced(reduce_all_spec_from(s, records, cs)->Ok_0, r2, c2),
    decreases records.len(),
{
    if records.len() > 0 {
        lemma_reduce_keeps_reduced(s, records[0], cs[0], r2, c2);
        lemma_reduce_all_keeps_reduced(
            reduce_spec(s, records[0], cs[0])->Ok_0,
            records.drop_first(),
            cs.drop_first(),
            r2,
            c2,
        );
    }
}

/// Replaying a log whose records were all accepted, on top of the state they
/// produced, changes nothing: duplicate delivery of recorded events is
/// idempotent.
pub proof fn lemma_log_redelivery_is_noop(s: KernelView, records: Seq<EventRecord>, cs: Seq<Seq<u8>>)
    requires
        cs.len() == records.len(),
        reduce_all_spec_from(s, records, cs) is Ok,
    ensures
        forall|i: int|
            0 <= i < records.len() ==> reduce_spec(
                reduce_all_spec_from(s, records, cs)->Ok_0,
                #[trigger] records[i],
                cs[i],
            ) == Ok::<KernelView, crate::error::KernelError>(reduce_all_spec_from(s, records, cs)->Ok_0),
    decreases records.len(),
{
    if records.len() > 0 {
        let s1 = reduce_spec(s, records[0], cs[0])->Ok_0;
        let fin = reduce_all_spec_from(s, records, cs)->Ok_0;
        lemma_log_redelivery_is_noop(s1, records.drop_first(), cs.drop_first());
        lemma_reduce_marks_record(s, records[0], cs[0]);
        lemma_reduce_all_keeps_reduced(s1, records.drop_first(), cs.drop_first(), records[0], cs[0]);
        assert forall|i: int| 0 <= i < records.len() implies reduce_spec(fin, #[trigger] records[i], cs[i])
            == Ok::<KernelView, crate::error::KernelError>(fin) by {
            if i > 0 {
                assert(records[i] == records.drop_first()[i - 1]);
                assert(cs[i] == cs.drop_first()[i - 1]);
            }
        }
    }
}

/// Under any accepted record, a terminal operation of any execution is left
/// exactly as it is.
pub proof fn lemma_reduce_keeps_terminal_operations(
    s: KernelView,
    r: EventRecord,
    canonical: Seq<u8>,
    x: u128,
    k: u128,
)
    requires
        reduce_spec(s, r, canonical) is Ok,
        s.executions.contains_key(x),
        s.executions[x].operations.contains_key(k),
        s.executions[x].operations[k].status.spec_is_terminal(),
    ensures
        ({
            let s1 = reduce_spec(s, r, canonical)->Ok_0;
            &&& s1.executions.contains_key(x)
            &&& s1.executions[x].operations.contains_key(k)
            &&& s1.executions[x].operations[k] == s.executions[x].operations[k]
        }),
{
    let s1 = reduce_spec(s, r, canonical)->Ok_0;
    if s1 != s && r.execution_id.0 == x {
        match r.payload {
            Event::ExecutionCreated { .. } => {},
            Event::ExecutionForked { .. } => {},
            _ => {
                lemma_terminal_operation_is_final(s.executions[x], r.payload, k);
            },
        }
    }
}

/// Under any accepted record, a terminal agent of any execution keeps its status.
pub proof fn lemma_reduce_keeps_terminal_agents(
    s: KernelView,
    r: EventRecord,
    canonical: Seq<u8>,
    x: u128,
    k: u128,
)
    requires
        reduce_spec(s, r, canonical) is Ok,
        s.executions.contains_key(x),
        s.executions[x].agents.contains_key(k),
        s.executions[x].agents[k].status.spec_is_terminal(),
    ensures
        ({
            let s1 = reduce_spec(s, r, canonical)->Ok_0;
            &&& s1.executions.contains_key(x)
            &&& s1.executions[x].agents.contains_key(k)
            &&& s1.executions[x].agents[k].status == s.executions[x].agents[k].status
        }),
{
    let s1 = reduce_spec(s, r, canonical)->Ok_0;
    if s1 != s && r.execution_id.0 == x {
        match r.payload {
            Event::ExecutionCreated { .. } => {},
            Event::ExecutionForked { .. } => {},
            _ => {
                lemma_terminal_agent_is_final(s.executions[x], r.payload, k);
            },
        }
    }
}

} // verus!
