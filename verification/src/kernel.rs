//! The command layer: every command is an idempotent append of one or more
//! records, each checked by the reducer before it is made durable.
use vstd::prelude::*;
use vstd::string::StringExecFns;

use crate::error::{rejected, KernelError, Rejection};
use crate::event::{same_event, same_record, checksum_text, Event, EventRecord, SCHEMA_VERSION};
use crate::event::{
    AgentStatus, JoinFailurePolicy, JoinKind, JoinOutcome, NetworkScope, OperationStatus, StreamKind,
};
use crate::ids::{
    is_random_uuid, uuid_text_spec, AgentId, AttemptId, BarrierId, CapabilityId, ContentHash,
    CorrelationId, EventId, ExecutionId, GoalId, IdempotencyKey, JoinId, LeaseOwnerId, OperationId,
    SnapshotId, TaskId, TurnId,
};
use crate::text::{decimal_text, u64_text};
use crate::log::frame_record;
use crate::model::{expected_join_outcome_spec, goal_completion_spec, reduce_all_spec_from, reduce_spec, same_error};
use crate::reducer::{
    byte_seqs, goal_completion_preconditions_met, join_is_satisfied, reduce,
    reduce_all,
};
use crate::state::{empty_kernel_view, BarrierView, ExecutionState, ExecutionView, KernelState, KernelView};

verus! {

/// What a kernel needs from the place its log lives: the serialization of
/// records and states (the bytes that checksums and hashes are taken of), and
/// durable appends of framed records.
pub trait LogBackend {
    /// The serialized bytes of a record.
    fn record_bytes(&self, record: &EventRecord) -> Vec<u8>;

    /// The serialized bytes of an execution's full state.
    fn state_bytes(&self, exec: &ExecutionState) -> Result<Vec<u8>, KernelError>;

    /// The serialized bytes of an execution's business state.
    fn business_bytes(&self, exec: &ExecutionState) -> Result<Vec<u8>, KernelError>;

    /// Appends one framed record durably.
    fn write_frame(&mut self, frame: &[u8]) -> Result<(), KernelError>;
}

/// `out` is what the backend's state serialization gave for an execution
/// whose state is `e`.
pub open spec fn state_serialized<B: LogBackend>(b: &B, e: ExecutionView, out: Result<Vec<u8>, KernelError>) -> bool {
    exists|x: &ExecutionState| x@ == e && #[trigger] call_ensures(B::state_bytes, (b, x), out)
}

/// `out` is what the backend's business serialization gave for an execution
/// whose state is `e`.
pub open spec fn business_serialized<B: LogBackend>(b: &B, e: ExecutionView, out: Result<Vec<u8>, KernelError>) -> bool {
    exists|x: &ExecutionState| x@ == e && #[trigger] call_ensures(B::business_bytes, (b, x), out)
}

/// The backend's state serialization of `exec`, called as a function value so
/// that what it gave is named by `call_ensures`.
pub(crate) fn state_bytes_of<B: LogBackend>(b: &B, exec: &ExecutionState) -> (r: Result<Vec<u8>, KernelError>)
    ensures
        call_ensures(B::state_bytes, (b, exec), r),
        state_serialized(b, exec@, r),
{
    let f = B::state_bytes;
    f(b, exec)
}

/// The backend's business serialization of `exec` (see `state_bytes_of`).
pub(crate) fn business_bytes_of<B: LogBackend>(b: &B, exec: &ExecutionState) -> (r: Result<Vec<u8>, KernelError>)
    ensures
        call_ensures(B::business_bytes, (b, exec), r),
        business_serialized(b, exec@, r),
{
    let f = B::business_bytes;
    f(b, exec)
}

/// `x` is `r` with its checksum cleared.
pub open spec fn is_blank_of(x: EventRecord, r: EventRecord) -> bool {
    &&& x.schema_version == r.schema_version
    &&& x.execution_id == r.execution_id
    &&& x.event_id == r.event_id
    &&& x.seq == r.seq
    &&& x.idempotency_key.0@ == r.idempotency_key.0@
    &&& x.causation_id == r.causation_id
    &&& x.correlation_id == r.correlation_id
    &&& x.parent_event_id == r.parent_event_id
    &&& x.occurred_at_ms == r.occurred_at_ms
    &&& x.checksum@ == Seq::<char>::empty()
    &&& same_event(x.payload, r.payload)
}

/// `c` is what the backend's record serialization gave for `r` with its
/// checksum cleared: the canonical bytes its checksum is taken of.
pub open spec fn canonical_by<B: LogBackend>(b: &B, r: EventRecord, c: Seq<u8>) -> bool {
    exists|x: &EventRecord, v: Vec<u8>|
        is_blank_of(*x, r) && v@ == c && #[trigger] call_ensures(B::record_bytes, (b, x), v)
}

/// `cs` are the backend's canonical bytes of `records`, one for each.
pub open spec fn canonical_all<B: LogBackend>(b: &B, records: Seq<EventRecord>, cs: Seq<Seq<u8>>) -> bool {
    &&& cs.len() == records.len()
    &&& forall|i: int| 0 <= i < records.len() ==> #[trigger] canonical_by(b, records[i], cs[i])
}

/// The backend's bytes of a record with its checksum cleared: the bytes its
/// checksum is taken of.
pub(crate) fn canonical_bytes<B: LogBackend>(backend: &B, record: &EventRecord) -> (c: Vec<u8>)
    ensures
        canonical_by(backend, *record, c@),
{
    let blank = EventRecord { checksum: String::new(), ..record.clone() };
    let f = B::record_bytes;
    let c = f(backend, &blank);
    assert(is_blank_of(blank, *record));
    c
}

/// The first record of `log` from position `i` on with event id `id`.
pub open spec fn find_event(log: Seq<EventRecord>, id: EventId, i: int) -> Option<int>
    decreases log.len() - i,
{
    if i < 0 || i >= log.len() {
        None
    } else if log[i].event_id == id {
        Some(i)
    } else {
        find_event(log, id, i + 1)
    }
}

proof fn lemma_find_event_bounds(log: Seq<EventRecord>, id: EventId, i: int)
    ensures
        find_event(log, id, i) matches Some(j) ==> i <= j < log.len() && log[j].event_id == id,
    decreases log.len() - i,
{
    if 0 <= i < log.len() && log[i].event_id != id {
        lemma_find_event_bounds(log, id, i + 1);
    }
}

/// Reducing one more record after a run of records.
pub proof fn lemma_reduce_all_push(
    s: KernelView,
    records: Seq<EventRecord>,
    canonicals: Seq<Seq<u8>>,
    r: EventRecord,
    c: Seq<u8>,
)
    requires
        records.len() == canonicals.len(),
    ensures
        reduce_all_spec_from(s, records.push(r), canonicals.push(c)) == match reduce_all_spec_from(
            s,
            records,
            canonicals,
        ) {
            Ok(t) => reduce_spec(t, r, c),
            Err(e) => Err(e),
        },
    decreases records.len(),
{
    assert(records.push(r)[0] == if records.len() == 0 { r } else { records[0] });
    assert(canonicals.push(c)[0] == if records.len() == 0 { c } else { canonicals[0] });
    if records.len() == 0 {
        assert(records.push(r).drop_first() =~= Seq::<EventRecord>::empty());
        assert(canonicals.push(c).drop_first() =~= Seq::<Seq<u8>>::empty());
        match reduce_spec(s, r, c) {
            Ok(s1) => {
                assert(reduce_all_spec_from(s1, Seq::<EventRecord>::empty(), Seq::<Seq<u8>>::empty())
                    == Ok::<KernelView, KernelError>(s1));
            },
            Err(_) => {},
        }
    } else {
        assert(records.push(r).drop_first() =~= records.drop_first().push(r));
        assert(canonicals.push(c).drop_first() =~= canonicals.drop_first().push(c));
        match reduce_spec(s, records[0], canonicals[0]) {
            Ok(s1) => {
                lemma_reduce_all_push(s1, records.drop_first(), canonicals.drop_first(), r, c);
            },
            Err(_) => {},
        }
    }
}

/// Every logged event is seen, and every bound key names a logged event.
pub open spec fn log_indexed(log: Seq<EventRecord>, s: KernelView) -> bool {
    &&& forall|j: int| 0 <= j < log.len() ==> s.seen_event_ids.contains(#[trigger] log[j].event_id.0)
    &&& forall|k: Seq<char>|
        #[trigger] s.idempotency_index.contains_key(k) ==> exists|j: int|
            0 <= j < log.len() && #[trigger] log[j].event_id == s.idempotency_index[k]
}

/// Replaying a log from the empty state indexes it.
pub proof fn lemma_replay_indexes_log(records: Seq<EventRecord>, cs: Seq<Seq<u8>>, t: KernelView)
    requires
        records.len() == cs.len(),
        reduce_all_spec_from(empty_kernel_view(), records, cs) == Ok::<KernelView, KernelError>(t),
    ensures
        log_indexed(records, t),
    decreases records.len(),
{
    if records.len() == 0 {
        assert(t == empty_kernel_view());
    } else {
        let pre = records.drop_last();
        let cpre = cs.drop_last();
        let r = records.last();
        let c = cs.last();
        assert(pre.push(r) =~= records);
        assert(cpre.push(c) =~= cs);
        lemma_reduce_all_push(empty_kernel_view(), pre, cpre, r, c);
        let t0 = reduce_all_spec_from(empty_kernel_view(), pre, cpre)->Ok_0;
        lemma_replay_indexes_log(pre, cpre, t0);
        assert(reduce_spec(t0, r, c) == Ok::<KernelView, KernelError>(t));
        assert forall|j: int| 0 <= j < records.len() implies t.seen_event_ids.contains(#[trigger] records[j].event_id.0) by {
            if j < pre.len() {
                assert(records[j] == pre[j]);
                assert(t0.seen_event_ids.contains(pre[j].event_id.0));
            } else if !t0.seen_event_ids.contains(r.event_id.0) && t0.idempotency_index.contains_key(r.idempotency_key.0@) {
                let k = r.idempotency_key.0@;
                let w = choose|w: int| 0 <= w < pre.len() && #[trigger] pre[w].event_id == t0.idempotency_index[k];
                assert(t0.seen_event_ids.contains(pre[w].event_id.0));
            }
        }
        assert forall|k: Seq<char>| #[trigger] t.idempotency_index.contains_key(k) implies exists|j: int|
            0 <= j < records.len() && #[trigger] records[j].event_id == t.idempotency_index[k] by {
            if t0.idempotency_index.contains_key(k) && t.idempotency_index[k] == t0.idempotency_index[k] {
                let w = choose|w: int| 0 <= w < pre.len() && #[trigger] pre[w].event_id == t0.idempotency_index[k];
                assert(records[w] == pre[w]);
            } else {
                assert(records[records.len() - 1] == r);
            }
        }
    }
}

proof fn lemma_find_event_absent(log: Seq<EventRecord>, id: EventId, i: int)
    requires
        0 <= i,
        forall|j: int| i <= j < log.len() ==> #[trigger] log[j].event_id != id,
    ensures
        find_event(log, id, i) is None,
    decreases log.len() - i,
{
    if i < log.len() {
        lemma_find_event_absent(log, id, i + 1);
    }
}

proof fn lemma_find_event_absent_contra(log: Seq<EventRecord>, id: EventId, i: int, w: int)
    requires
        0 <= i <= w < log.len(),
        log[w].event_id == id,
    ensures
        find_event(log, id, i) is Some,
    decreases log.len() - i,
{
    if log[i].event_id != id {
        lemma_find_event_absent_contra(log, id, i + 1, w);
    }
}

proof fn lemma_find_event_last(log: Seq<EventRecord>, id: EventId, i: int)
    requires
        0 <= i < log.len(),
        log.last().event_id == id,
        forall|j: int| i <= j < log.len() - 1 ==> #[trigger] log[j].event_id != id,
    ensures
        find_event(log, id, i) == Some(log.len() - 1),
    decreases log.len() - i,
{
    if i < log.len() - 1 {
        lemma_find_event_last(log, id, i + 1);
    }
}

/// `a + b`, held to the range of `i64`.
pub open spec fn saturating_sum(a: int, b: int) -> i64 {
    if a + b > i64::MAX {
        i64::MAX
    } else if a + b < i64::MIN {
        i64::MIN
    } else {
        (a + b) as i64
    }
}

fn saturating_add(a: i64, b: i64) -> (r: i64)
    ensures
        r == saturating_sum(a as int, b as int),
{
    let s: i128 = a as i128 + b as i128;
    if s > i64::MAX as i128 {
        i64::MAX
    } else if s < i64::MIN as i128 {
        i64::MIN
    } else {
        s as i64
    }
}

/// An idempotency key's text: `kind:unique`.
pub open spec fn key_text(kind: Seq<char>, unique: Seq<char>) -> Seq<char> {
    kind + ":"@ + unique
}

/// The record of an append call with no causation, as a plain result.
pub open spec fn record_of<T>(r: Result<(T, EventRecord), KernelError>) -> Result<EventRecord, KernelError> {
    match r {
        Ok(v) => Ok(v.1),
        Err(e) => Err(e),
    }
}

/// Payload of `create_execution`.
pub open spec fn execution_created_payload(at_ms: i64, note: Seq<char>) -> spec_fn(Event) -> bool {
    |e: Event| e matches Event::ExecutionCreated { created_at_ms, note: n } && created_at_ms == at_ms && n@ == note
}

/// Payload of `create_goal`.
pub open spec fn goal_created_payload(goal: GoalId, objective: Seq<char>, required: Seq<AgentId>) -> spec_fn(Event) -> bool {
    |e: Event| e matches Event::GoalCreated { goal_id, objective: o, required_agent_ids } && goal_id == goal && o@ == objective && required_agent_ids@ == required
}

/// Payload of `define_acceptance`.
pub open spec fn acceptance_payload(goal: GoalId, barriers: Seq<BarrierId>) -> spec_fn(Event) -> bool {
    |e: Event|
        e matches Event::GoalAcceptanceDefined {
            goal_id,
            require_all_required_agents_terminal,
            require_no_running_operations,
            require_barriers,
        } && goal_id == goal && require_all_required_agents_terminal && require_no_running_operations
            && require_barriers@ == barriers
}

/// Payload of `grant_capability`.
pub open spec fn capability_payload(
    cap: CapabilityId,
    parent: Option<CapabilityId>,
    agent: AgentId,
    scope: Seq<char>,
    net: NetworkScope,
    allowlist: Seq<Seq<char>>,
    evidence: Seq<char>,
) -> spec_fn(Event) -> bool {
    |e: Event|
        e matches Event::CapabilityGranted {
            capability_id,
            parent_capability_id,
            agent_id,
            filesystem_scope,
            network,
            command_allowlist,
            deadline_ms,
            approval_evidence,
        } && capability_id == cap && parent_capability_id == parent && agent_id == agent
            && filesystem_scope@ == scope && network == net && crate::state::texts(command_allowlist@)
            == allowlist && deadline_ms is None && approval_evidence@ == evidence
}

/// Payload of `create_task`.
pub open spec fn task_payload(task: TaskId, goal: GoalId, agent: AgentId, description: Seq<char>) -> spec_fn(Event) -> bool {
    |e: Event|
        e matches Event::TaskCreated { task_id, goal_id, agent_id, description: d } && task_id == task
            && goal_id == goal && agent_id == agent && d@ == description
}

/// Payload of `finish_model_turn`.
pub open spec fn model_turn_payload(turn: TurnId, agent: AgentId, summary: Seq<char>) -> spec_fn(Event) -> bool {
    |e: Event|
        e matches Event::ModelTurnFinished { turn_id, agent_id, summary: s } && turn_id == turn
            && agent_id == agent && s@ == summary
}

/// A status change of an agent.
pub open spec fn status_change_payload(
    agent: AgentId,
    from_status: AgentStatus,
    to_status: AgentStatus,
    reason: Seq<char>,
) -> spec_fn(Event) -> bool {
    |e: Event|
        e matches Event::AgentStatusChanged { agent_id, from, to, reason: r } && agent_id == agent
            && from == from_status && to == to_status && r@ == reason
}

/// Payload of `try_complete_goal`.
pub open spec fn goal_completed_payload(goal: GoalId) -> spec_fn(Event) -> bool {
    |e: Event| e matches Event::GoalCompleted { goal_id } && goal_id == goal
}

/// Payload of `process_started`.
pub open spec fn process_started_payload(op: OperationId, att: AttemptId, p: u32, key: Seq<char>) -> spec_fn(Event) -> bool {
    |e: Event|
        e matches Event::ProcessStarted { operation_id, attempt_id, pid, start_key } && operation_id == op
            && attempt_id == att && pid == p && start_key@ == key
}

/// Payload of `process_output`; the chunk hash is given by its bytes.
pub open spec fn process_output_payload(
    op: OperationId,
    att: AttemptId,
    s: StreamKind,
    off: u64,
    len: u64,
    digest: Seq<u8>,
) -> spec_fn(Event) -> bool {
    |e: Event|
        e matches Event::ProcessOutputAvailable {
            operation_id,
            attempt_id,
            stream,
            offset,
            byte_len,
            chunk_hash,
        } && operation_id == op && attempt_id == att && stream == s && offset == off && byte_len
            == len && chunk_hash.0@ == digest
}

/// The stream's name in output keys.
pub open spec fn stream_key_name(s: StreamKind) -> Seq<char> {
    match s {
        StreamKind::Stdout => "stdout"@,
        StreamKind::Stderr => "stderr"@,
    }
}

/// The unique part of an output key: operation, attempt, stream, offset,
/// length and chunk hash, separated by colons.
pub open spec fn output_key_text(
    op: OperationId,
    att: AttemptId,
    s: StreamKind,
    offset: u64,
    len: u64,
    digest: Seq<u8>,
) -> Seq<char> {
    uuid_text_spec(op.0) + ":"@ + uuid_text_spec(att.0) + ":"@ + stream_key_name(s) + ":"@
        + decimal_text(offset as nat) + ":"@ + decimal_text(len as nat) + ":"@ + crate::ids::hex_lower(
        digest,
    )
}

/// Payload of `process_exited`.
pub open spec fn process_exited_payload(
    op: OperationId,
    att: AttemptId,
    code: i32,
    sig: Option<Seq<char>>,
    killed: bool,
) -> spec_fn(Event) -> bool {
    |e: Event|
        e matches Event::ProcessExited { operation_id, attempt_id, exit_code, signal, killed_externally }
            && operation_id == op && attempt_id == att && exit_code == code && crate::state::opt_text(
            signal,
        ) == sig && killed_externally == killed
}

/// Payload of `commit_operation`.
pub open spec fn committed_payload(op: OperationId, att: AttemptId, generation: u64, code: i32) -> spec_fn(Event) -> bool {
    |e: Event|
        e matches Event::OperationCommitted { operation_id, attempt_id, lease_generation, exit_code }
            && operation_id == op && attempt_id == att && lease_generation == generation && exit_code
            == code
}

/// Payload of `expire_lease`.
pub open spec fn lease_expired_payload(op: OperationId, gen: u64) -> spec_fn(Event) -> bool {
    |e: Event| e matches Event::LeaseExpired { operation_id, generation } && operation_id == op && generation == gen
}

/// Payload of `create_barrier`.
pub open spec fn barrier_payload(b: BarrierId, expected: u32) -> spec_fn(Event) -> bool {
    |e: Event|
        e matches Event::BarrierCreated { barrier_id, expected_arrivals } && barrier_id == b
            && expected_arrivals == expected
}

/// Payload of `attach_snapshot`.
pub open spec fn snapshot_payload(
    snap: SnapshotId,
    agent: AgentId,
    parent: Option<SnapshotId>,
    hashes: Seq<ContentHash>,
    len: u64,
) -> spec_fn(Event) -> bool {
    |e: Event|
        e matches Event::ContextSnapshotAttached {
            snapshot_id,
            agent_id,
            parent_snapshot_id,
            chunk_hashes,
            byte_len,
        } && snapshot_id == snap && agent_id == agent && parent_snapshot_id == parent
            && chunk_hashes@ == hashes && byte_len == len
}

/// Payload of `lease_operation`.
pub open spec fn leased_payload(
    op: OperationId,
    att: AttemptId,
    gen: u64,
    own: LeaseOwnerId,
    expires: i64,
    cap: Option<CapabilityId>,
    executor: Seq<char>,
) -> spec_fn(Event) -> bool {
    |e: Event|
        e matches Event::OperationLeased {
            operation_id,
            attempt_id,
            generation,
            owner,
            expires_at_ms,
            capability_id,
            executor_id,
        } && operation_id == op && attempt_id == att && generation == gen && owner == own
            && expires_at_ms == expires && capability_id == cap && executor_id@ == executor
}

/// Payload of `checkpoint`.
pub open spec fn checkpoint_payload(at_seq: u64, hash: Seq<char>) -> spec_fn(Event) -> bool {
    |e: Event| e matches Event::CheckpointTaken { seq, state_hash } && seq == at_seq && state_hash@ == hash
}

/// Payload of `spawn_agent`'s first record.
pub open spec fn agent_spawned_payload(
    agent: AgentId,
    parent: Option<AgentId>,
    goal: GoalId,
    task: Seq<char>,
    snapshot: Option<SnapshotId>,
    cap: Option<CapabilityId>,
) -> spec_fn(Event) -> bool {
    |e: Event|
        e matches Event::AgentSpawned {
            agent_id,
            parent_agent_id,
            goal_id,
            task: t,
            snapshot_id,
            capability_id,
        } && agent_id == agent && parent_agent_id == parent && goal_id == goal && t@ == task
            && snapshot_id == snapshot && capability_id == cap
}

/// Payload of `create_operation`'s first record.
pub open spec fn operation_created_payload(
    op: OperationId,
    agent: AgentId,
    att: AttemptId,
    args: Seq<Seq<char>>,
    dir: Seq<char>,
    hint: Option<Seq<char>>,
) -> spec_fn(Event) -> bool {
    |e: Event|
        e matches Event::OperationCreated { operation_id, agent_id, attempt_id, argv, cwd, executor_hint }
            && operation_id == op && agent_id == agent && attempt_id == att && crate::state::texts(
            argv@,
        ) == args && cwd@ == dir && crate::state::opt_text(executor_hint) == hint
}

/// Payload of `create_operation`'s second record.
pub open spec fn operation_scheduled_payload(op: OperationId) -> spec_fn(Event) -> bool {
    |e: Event| e matches Event::OperationScheduled { operation_id } && operation_id == op
}

/// Payload of `create_join`'s first record.
pub open spec fn join_created_payload(
    join: JoinId,
    waiter: AgentId,
    kids: Seq<AgentId>,
    k: JoinKind,
    policy: JoinFailurePolicy,
) -> spec_fn(Event) -> bool {
    |e: Event|
        e matches Event::JoinCreated { join_id, waiter_agent_id, children, kind, failure_policy }
            && join_id == join && waiter_agent_id == waiter && children@ == kids && kind == k
            && failure_policy == policy
}

/// A status change of `agent` to `to`, from whatever status it had.
pub open spec fn change_from(agent: AgentId, to: AgentStatus, reason: Seq<char>) -> spec_fn(
    AgentStatus,
) -> spec_fn(Event) -> bool {
    |from: AgentStatus| status_change_payload(agent, from, to, reason)
}

/// The result of two appends, the second made only after the first.
pub open spec fn chain_result(
    r1: Result<EventRecord, KernelError>,
    r2: Result<EventRecord, KernelError>,
) -> Result<EventRecord, KernelError> {
    match r1 {
        Err(e) => Err(e),
        Ok(a) => match r2 {
            Err(e) => Err(e),
            Ok(_) => Ok(a),
        },
    }
}

/// Payload of a join's satisfaction.
pub open spec fn join_satisfied_payload(join: JoinId, o: JoinOutcome) -> spec_fn(Event) -> bool {
    |e: Event| e matches Event::JoinSatisfied { join_id, outcome } && join_id == join && outcome == o
}

/// Payload of a child's terminal status seen by a join.
pub open spec fn join_child_payload(join: JoinId, child: AgentId, s: AgentStatus) -> spec_fn(Event) -> bool {
    |e: Event|
        e matches Event::JoinChildTerminal { join_id, child_id, child_status } && join_id == join
            && child_id == child && child_status == s
}

/// Payload of an arrival at a barrier.
pub open spec fn barrier_arrived_payload(b: BarrierId, a: AgentId) -> spec_fn(Event) -> bool {
    |e: Event| e matches Event::BarrierArrived { barrier_id, agent_id } && barrier_id == b && agent_id == a
}

/// Payload of a barrier's satisfaction.
pub open spec fn barrier_satisfied_payload(b: BarrierId) -> spec_fn(Event) -> bool {
    |e: Event| e matches Event::BarrierSatisfied { barrier_id } && barrier_id == b
}

/// The status a join's waiter takes for the join's outcome.
pub open spec fn outcome_status(o: JoinOutcome) -> AgentStatus {
    match o {
        JoinOutcome::Succeeded => AgentStatus::Succeeded,
        JoinOutcome::Failed => AgentStatus::Failed,
        JoinOutcome::Cancelled => AgentStatus::Cancelled,
    }
}

/// A result without its value.
pub open spec fn unit_of<T>(r: Result<T, KernelError>) -> Result<(), KernelError> {
    match r {
        Ok(_) => Ok(()),
        Err(e) => Err(e),
    }
}

/// The kernel: the records of its log, the state they reduce to, and a clock.
pub struct Kernel<B> {
    backend: B,
    records: Vec<EventRecord>,
    canonicals: Vec<Vec<u8>>,
    state: KernelState,
    clock_ms: i64,
}

impl<B: LogBackend> Kernel<B> {
    /// The records of the log, in order.
    pub closed spec fn log(&self) -> Seq<EventRecord> {
        self.records@
    }

    /// For each record, the serialized bytes its checksum was taken of.
    pub closed spec fn canonical_log(&self) -> Seq<Seq<u8>> {
        byte_seqs(self.canonicals@)
    }

    /// The reduced state.
    pub closed spec fn state_view(&self) -> KernelView {
        self.state@
    }

    /// The kernel clock, in milliseconds.
    pub closed spec fn clock(&self) -> i64 {
        self.clock_ms
    }

    /// The execution a command addresses: the one with the smallest id.
    pub closed spec fn first_execution(&self) -> Option<ExecutionId> {
        if self.state.executions.entries().len() > 0 {
            Some(ExecutionId(self.state.executions.entries()[0].0))
        } else {
            None
        }
    }

    /// The state is the replay of the log, and sequence numbers have room.
    pub closed spec fn wf(&self) -> bool {
        &&& self.canonicals@.len() == self.records@.len()
        &&& reduce_all_spec_from(empty_kernel_view(), self.records@, byte_seqs(self.canonicals@))
            == Ok::<KernelView, KernelError>(self.state@)
    }

    /// The sequence number the next record gets.
    pub open spec fn next_seq(&self) -> int {
        if self.log().len() == 0 {
            1
        } else {
            self.log().last().seq + 1
        }
    }

    /// The event id of the last record, if any.
    pub open spec fn last_event_id(&self) -> Option<EventId> {
        if self.log().len() == 0 {
            None
        } else {
            Some(self.log().last().event_id)
        }
    }

    /// The record that already answers an idempotency key: the first record
    /// of the log carrying the event the key is bound to.
    pub open spec fn bound_record(&self, key: Seq<char>) -> Option<int> {
        if self.state_view().idempotency_index.contains_key(key) {
            find_event(self.log(), self.state_view().idempotency_index[key], 0)
        } else {
            None
        }
    }

    /// Nothing observable changed.
    pub open spec fn same_as(&self, other: &Self) -> bool {
        &&& self.log() == other.log()
        &&& self.canonical_log() == other.canonical_log()
        &&& self.state_view() == other.state_view()
        &&& self.clock() == other.clock()
    }

    /// A record the kernel would write next for this key and causation.
    pub open spec fn is_next_record(
        &self,
        rec: EventRecord,
        key: Seq<char>,
        causation: Option<EventId>,
    ) -> bool {
        &&& rec.schema_version == SCHEMA_VERSION
        &&& is_random_uuid(rec.event_id.0)
        &&& (rec.payload is ExecutionCreated ==> is_random_uuid(rec.execution_id.0))
        &&& (!(rec.payload is ExecutionCreated) ==> self.first_execution() == Some(
            rec.execution_id,
        ))
        &&& rec.seq == self.next_seq()
        &&& rec.idempotency_key.0@ == key
        &&& rec.causation_id == causation
        &&& rec.correlation_id == Some(CorrelationId(rec.execution_id.0))
        &&& rec.parent_event_id == self.last_event_id()
        &&& rec.occurred_at_ms == self.clock()
    }

    /// `new` is this kernel with one more record, whose payload satisfies
    /// `payload_ok`, reduced into the state; `ret` is that record.
    pub open spec fn appended(
        &self,
        new: &Self,
        ret: EventRecord,
        payload_ok: spec_fn(Event) -> bool,
        key: Seq<char>,
        causation: Option<EventId>,
    ) -> bool {
        let rec = new.log().last();
        let c = new.canonical_log().last();
        &&& new.log().len() == self.log().len() + 1
        &&& new.log().drop_last() == self.log()
        &&& new.canonical_log().len() == new.log().len()
        &&& new.canonical_log().drop_last() == self.canonical_log()
        &&& self.is_next_record(rec, key, causation)
        &&& payload_ok(rec.payload)
        &&& rec.checksum@ == checksum_text(c)
        &&& canonical_by(&self.backend_of(), rec, c)
        &&& reduce_spec(self.state_view(), rec, c) == Ok::<KernelView, KernelError>(
            new.state_view(),
        )
        &&& same_record(ret, rec)
        &&& new.clock() == self.clock()
    }

    /// Why an append that found no bound record can fail: no execution to
    /// address, no sequence number left, the reducer's refusal of the record
    /// it would write, or a failed durable write of an accepted one.
    pub open spec fn append_refused(
        &self,
        e: KernelError,
        payload_ok: spec_fn(Event) -> bool,
        key: Seq<char>,
        causation: Option<EventId>,
    ) -> bool {
        ||| self.first_execution() is None && e == rejected(Rejection::NoExecution)
        ||| self.next_seq() > u64::MAX && e is LogIntegrity
        ||| exists|rec: EventRecord, c: Seq<u8>|
            {
                &&& #[trigger] self.is_next_record(rec, key, causation)
                &&& payload_ok(rec.payload)
                &&& rec.checksum@ == checksum_text(c)
                &&& match #[trigger] reduce_spec(self.state_view(), rec, c) {
                    Err(r) => same_error(e, r),
                    Ok(_) => true,
                }
            }
    }

    /// The outcome of an idempotent append: the record already bound to the
    /// key is answered again with nothing changed; otherwise one record is
    /// appended, or nothing changes and the error says why.
    pub open spec fn append_outcome(
        &self,
        new: &Self,
        r: Result<EventRecord, KernelError>,
        payload_ok: spec_fn(Event) -> bool,
        key: Seq<char>,
        causation: Option<EventId>,
    ) -> bool {
        match self.bound_record(key) {
            Some(j) => r matches Ok(rec) && same_record(rec, self.log()[j]) && new.same_as(self),
            None => match r {
                Ok(rec) => self.appended(new, rec, payload_ok, key, causation),
                Err(e) => new.same_as(self) && self.append_refused(e, payload_ok, key, causation),
            },
        }
    }

    /// What `create_goal` does: one append of a goal created under a fresh id.
    pub open spec fn goal_created(
        &self,
        new: &Self,
        objective: Seq<char>,
        required: Seq<AgentId>,
        r: Result<(GoalId, EventRecord), KernelError>,
    ) -> bool {
        match r {
            Ok((g, _)) => is_random_uuid(g.0) && self.append_outcome(
                new,
                record_of(r),
                goal_created_payload(g, objective, required),
                key_text("goal_created"@, uuid_text_spec(g.0)),
                None,
            ),
            Err(_) => exists|g: GoalId| #[trigger] is_random_uuid(g.0) && self.append_outcome(
                new,
                record_of(r),
                goal_created_payload(g, objective, required),
                key_text("goal_created"@, uuid_text_spec(g.0)),
                None,
            ),
        }
    }

    /// What `finish_model_turn` does: one append of a finished turn under a fresh id.
    pub open spec fn turn_recorded(
        &self,
        new: &Self,
        agent: AgentId,
        summary: Seq<char>,
        r: Result<EventRecord, KernelError>,
    ) -> bool {
        exists|x: TurnId| #[trigger] is_random_uuid(x.0) && self.append_outcome(
            new,
            r,
            model_turn_payload(x, agent, summary),
            key_text("model_turn"@, uuid_text_spec(x.0)),
            None,
        )
    }

    /// What `start_agent` does: the agent's status is looked up, then the
    /// change from it to `Running` is appended.
    pub open spec fn agent_started(&self, new: &Self, agent: AgentId, r: Result<EventRecord, KernelError>) -> bool {
        match self.agent_status_of(agent) {
            Err(e) => r == Err::<EventRecord, KernelError>(e) && new.same_as(self),
            Ok(from) => self.append_outcome(
                new,
                r,
                status_change_payload(agent, from, AgentStatus::Running, "scheduler"@),
                key_text("agent_running"@, uuid_text_spec(agent.0) + ":"@ + from.spec_name()),
                None,
            ),
        }
    }

    /// What `complete_agent` does: the agent's status is looked up, then the
    /// change from it to `Succeeded` is appended.
    pub open spec fn agent_completed(&self, new: &Self, agent: AgentId, r: Result<EventRecord, KernelError>) -> bool {
        match self.agent_status_of(agent) {
            Err(e) => r == Err::<EventRecord, KernelError>(e) && new.same_as(self),
            Ok(from) => self.append_outcome(
                new,
                r,
                status_change_payload(agent, from, AgentStatus::Succeeded, "agent work finished"@),
                key_text("agent_succeeded"@, uuid_text_spec(agent.0)),
                None,
            ),
        }
    }

    /// What `try_complete_goal` does: the goal's completion is appended only
    /// when its acceptance preconditions hold.
    pub open spec fn goal_completion(&self, new: &Self, goal: GoalId, r: Result<EventRecord, KernelError>) -> bool {
        match self.first_execution() {
            None => r == Err::<EventRecord, KernelError>(rejected(Rejection::NoExecution))
                && new.same_as(self),
            Some(x) => match goal_completion_spec(self.state_view().executions[x.0], goal) {
                Err(e) => r == Err::<EventRecord, KernelError>(e) && new.same_as(self),
                Ok(false) => r == Err::<EventRecord, KernelError>(
                    rejected(Rejection::GoalCompletionRefused),
                ) && new.same_as(self),
                Ok(true) => self.append_outcome(
                    new,
                    r,
                    goal_completed_payload(goal),
                    key_text("goal_completed"@, uuid_text_spec(goal.0)),
                    None,
                ),
            },
        }
    }

    /// The state of a kernel is always the replay of its log.
    pub proof fn lemma_state_is_log_replay(&self)
        requires
            self.wf(),
        ensures
            reduce_all_spec_from(empty_kernel_view(), self.log(), self.canonical_log()) == Ok::<
                KernelView,
                KernelError,
            >(self.state_view()),
    {
    }

    /// A kernel over an existing log: each record is checksummed against the
    /// backend's serialization of it with an empty checksum, and the log is
    /// replayed from the empty state. A sequence number with no successor is
    /// refused before replay.
    pub fn from_log(backend: B, records: Vec<EventRecord>) -> (r: Result<Self, KernelError>)
        ensures
            match r {
                Ok(k) => k.wf() && k.log() == records@ && k.clock() == 0 && k.backend_of() == backend
                    && canonical_all(&backend, records@, k.canonical_log()),
                Err(e) => exists|cs: Seq<Seq<u8>>|
                    #[trigger] canonical_all(&backend, records@, cs) && (reduce_all_spec_from(
                        empty_kernel_view(),
                        records@,
                        cs,
                    ) matches Err(e2) && same_error(e, e2)),
            },
    {
        let mut canonicals: Vec<Vec<u8>> = Vec::new();
        let mut i: usize = 0;
        while i < records.len()
            invariant
                i <= records@.len(),
                canonicals@.len() == i,
                forall|j: int| 0 <= j < i ==> #[trigger] canonical_by(&backend, records@[j], canonicals@[j]@),
            decreases records@.len() - i,
        {
            canonicals.push(canonical_bytes(&backend, &records[i]));
            i = i + 1;
        }
        assert forall|j: int| 0 <= j < records@.len() implies #[trigger] canonical_by(
            &backend,
            records@[j],
            byte_seqs(canonicals@)[j],
        ) by {
            assert(byte_seqs(canonicals@)[j] == canonicals@[j]@);
        }
        assert(canonical_all(&backend, records@, byte_seqs(canonicals@)));
        match reduce_all(records.as_slice(), canonicals.as_slice()) {
            Ok(state) => {
                let k = Kernel { backend, records, canonicals, state, clock_ms: 0 };
                Ok(k)
            },
            Err(e) => {
                assert(byte_seqs(canonicals@).len() == records@.len());
                Err(e)
            },
        }
    }

    /// The execution commands address: the one with the smallest id.
    pub fn execution_id(&self) -> (r: Result<ExecutionId, KernelError>)
        ensures
            match self.first_execution() {
                Some(x) => r == Ok::<ExecutionId, KernelError>(x),
                None => r == Err::<ExecutionId, KernelError>(rejected(Rejection::NoExecution)),
            },
    {
        if self.state.executions.is_empty() {
            Err(KernelError::invalid(Rejection::NoExecution))
        } else {
            let (k, _) = self.state.executions.entry_at(0);
            Ok(ExecutionId(*k))
        }
    }

    /// The state of the execution commands address.
    pub fn execution(&self) -> (r: Result<&ExecutionState, KernelError>)
        ensures
            match self.first_execution() {
                Some(x) => r matches Ok(e) && self.state_view().executions.contains_key(x.0)
                    && e@ == self.state_view().executions[x.0],
                None => r matches Err(e) && e == rejected(Rejection::NoExecution),
            },
    {
        let id = self.execution_id()?;
        let e = self.state.executions.get(id.0);
        proof {
            self.state.executions.lemma_cover();
            assert(self.state.executions.entries()[0].0 == id.0);
        }
        match e {
            Some(e) => Ok(e),
            None => Err(KernelError::invalid(Rejection::NoExecution)),
        }
    }

    /// The records of the log, in order.
    pub fn records(&self) -> (r: &Vec<EventRecord>)
        ensures
            r@ == self.log(),
    {
        &self.records
    }

    /// The reduced state.
    pub fn state(&self) -> (r: &KernelState)
        ensures
            r@ == self.state_view(),
    {
        &self.state
    }

    /// The backend the log lives in.
    pub closed spec fn backend_of(&self) -> B {
        self.backend
    }

    /// The backend the log lives in.
    pub fn backend(&self) -> (b: &B)
        ensures
            *b == self.backend_of(),
    {
        &self.backend
    }

    pub fn set_clock_ms(&mut self, now: i64)
        requires
            old(self).wf(),
        ensures
            final(self).wf(),
            final(self).clock() == now,
            final(self).log() == old(self).log(),
            final(self).canonical_log() == old(self).canonical_log(),
            final(self).state_view() == old(self).state_view(),
    {
        self.clock_ms = now;
    }

    pub fn now_ms(&self) -> (t: i64)
        ensures
            t == self.clock(),
    {
        self.clock_ms
    }

    /// Advances the clock, saturating at the extremes.
    pub fn tick(&mut self, delta_ms: i64)
        requires
            old(self).wf(),
        ensures
            final(self).wf(),
            final(self).clock() == saturating_sum(old(self).clock() as int, delta_ms as int),
            final(self).log() == old(self).log(),
            final(self).canonical_log() == old(self).canonical_log(),
            final(self).state_view() == old(self).state_view(),
    {
        self.clock_ms = saturating_add(self.clock_ms, delta_ms);
    }

    /// Appends a record with no causation (see `append_caused`).
    pub fn append(&mut self, payload: Event, key: IdempotencyKey) -> (r: Result<EventRecord, KernelError>)
        requires
            old(self).wf(),
        ensures
            final(self).wf(),
            old(self).append_outcome(final(self), r, |e: Event| e == payload, key.0@, None),
    {
        self.append_caused(payload, key, None)
    }

    /// The idempotent append every command is made of. A key already bound
    /// to a logged event answers that record again and changes nothing.
    /// Otherwise a record is built (fresh event id, next sequence number,
    /// previous event as parent, the kernel clock as time), checksummed over
    /// the backend's serialization of it, reduced into the state, framed and
    /// written; only a record that all of these accept is kept.
    #[verifier::loop_isolation(false)]
    pub fn append_caused(
        &mut self,
        payload: Event,
        key: IdempotencyKey,
        causation_id: Option<EventId>,
    ) -> (r: Result<EventRecord, KernelError>)
        requires
            old(self).wf(),
        ensures
            final(self).wf(),
            old(self).append_outcome(final(self), r, |e: Event| e == payload, key.0@, causation_id),
    {
        let ghost key_text = key.0@;
        match self.state.idempotency_index.get(&key) {
            Some(existing) => {
                let mut i: usize = 0;
                while i < self.records.len()
                    invariant
                        i <= self.records@.len(),
                        find_event(self.records@, existing, 0) == find_event(
                            self.records@,
                            existing,
                            i as int,
                        ),
                    decreases self.records@.len() - i,
                {
                    if self.records[i].event_id == existing {
                        return Ok(self.records[i].clone());
                    }
                    i = i + 1;
                }
            },
            None => {},
        }
        assert(old(self).bound_record(key_text) is None);
        let execution_id = match &payload {
            Event::ExecutionCreated { .. } => ExecutionId::new(),
            _ => self.execution_id()?,
        };
        let n = self.records.len();
        if n > 0 && self.records[n - 1].seq == u64::MAX {
            return Err(KernelError::LogIntegrity(String::from_str("sequence numbers exhausted")));
        }
        let seq: u64 = if n == 0 {
            1
        } else {
            self.records[n - 1].seq + 1
        };
        let parent_event_id = if n == 0 {
            None
        } else {
            Some(self.records[n - 1].event_id)
        };
        let record = EventRecord {
            schema_version: SCHEMA_VERSION,
            execution_id,
            event_id: EventId::new(),
            seq,
            idempotency_key: key,
            causation_id,
            correlation_id: Some(CorrelationId::from_u128(execution_id.as_u128())),
            parent_event_id,
            occurred_at_ms: self.clock_ms,
            checksum: String::new(),
            payload,
        };
        let f = B::record_bytes;
        let canonical = f(&self.backend, &record);
        let prepared = record.with_checksum(canonical.as_slice());
        assert(is_blank_of(record, prepared));
        assert(canonical_by(&old(self).backend_of(), prepared, canonical@));
        let ghost c = canonical@;
        assert(old(self).is_next_record(prepared, key_text, causation_id));
        match reduce(&mut self.state, &prepared, canonical.as_slice()) {
            Err(e) => {
                return Err(e);
            },
            Ok(()) => {},
        }
        let bytes = self.backend.record_bytes(&prepared);
        let written = match frame_record(bytes.as_slice()) {
            Err(e) => Err(e),
            Ok(frame) => self.backend.write_frame(frame.as_slice()),
        };
        match written {
            Err(e) => {
                self.restore_state();
                return Err(e);
            },
            Ok(()) => {},
        }
        proof {
            lemma_reduce_all_push(
                empty_kernel_view(),
                self.records@,
                byte_seqs(self.canonicals@),
                prepared,
                c,
            );
        }
        self.records.push(prepared);
        self.canonicals.push(canonical);
        proof {
            assert(byte_seqs(self.canonicals@) =~= byte_seqs(old(self).canonicals@).push(c));
            assert(self.records@.drop_last() =~= old(self).records@);
            assert(byte_seqs(self.canonicals@).drop_last() =~= byte_seqs(old(self).canonicals@));
        }
        let last = self.records.len() - 1;
        Ok(self.records[last].clone())
    }

    /// Rebuilds the state from the log after an accepted record could not be
    /// written: the replay gives back the state from before that record.
    fn restore_state(&mut self)
        requires
            old(self).canonicals@.len() == old(self).records@.len(),
            reduce_all_spec_from(empty_kernel_view(), old(self).records@, byte_seqs(old(self).canonicals@)) is Ok,
        ensures
            final(self).records@ == old(self).records@,
            final(self).canonicals@ == old(self).canonicals@,
            final(self).clock_ms == old(self).clock_ms,
            Ok::<KernelView, KernelError>(final(self).state@) == reduce_all_spec_from(
                empty_kernel_view(),
                old(self).records@,
                byte_seqs(old(self).canonicals@),
            ),
    {
        match reduce_all(self.records.as_slice(), self.canonicals.as_slice()) {
            Ok(s) => {
                self.state = s;
            },
            Err(_) => {
                assert(false);
            },
        }
    }

    /// An outcome that holds for one payload predicate holds for any weaker one.
    pub proof fn lemma_outcome_weaken(
        &self,
        new: &Self,
        r: Result<EventRecord, KernelError>,
        p1: spec_fn(Event) -> bool,
        p2: spec_fn(Event) -> bool,
        key: Seq<char>,
        causation: Option<EventId>,
    )
        requires
            forall|e: Event| #[trigger] p1(e) ==> p2(e),
            self.append_outcome(new, r, p1, key, causation),
        ensures
            self.append_outcome(new, r, p2, key, causation),
    {
        if self.bound_record(key) is None {
            if let Err(e) = r {
                if exists|rec: EventRecord, c: Seq<u8>|
                    {
                        &&& #[trigger] self.is_next_record(rec, key, causation)
                        &&& p1(rec.payload)
                        &&& rec.checksum@ == checksum_text(c)
                        &&& match #[trigger] reduce_spec(self.state_view(), rec, c) {
                            Err(x) => same_error(e, x),
                            Ok(_) => true,
                        }
                    } {
                    let (rec, c) = choose|rec: EventRecord, c: Seq<u8>|
                        {
                            &&& #[trigger] self.is_next_record(rec, key, causation)
                            &&& p1(rec.payload)
                            &&& rec.checksum@ == checksum_text(c)
                            &&& match #[trigger] reduce_spec(self.state_view(), rec, c) {
                                Err(x) => same_error(e, x),
                                Ok(_) => true,
                            }
                        };
                    assert(p2(rec.payload));
                }
            }
        }
    }

    /// Starts an execution; the note is also the idempotency key.
    pub fn create_execution(&mut self, note: &str) -> (r: Result<EventRecord, KernelError>)
        requires
            old(self).wf(),
        ensures
            final(self).wf(),
            old(self).append_outcome(
                final(self),
                r,
                execution_created_payload(old(self).clock(), note@),
                key_text("execution_created"@, note@),
                None,
            ),
    {
        let payload = Event::ExecutionCreated { created_at_ms: self.clock_ms, note: String::from_str(note) };
        let ghost pv = payload;
        let ghost before = *self;
        let r = self.append(payload, IdempotencyKey::new("execution_created", note));
        proof {
            before.lemma_outcome_weaken(self, r, |e: Event| e == pv, execution_created_payload(before.clock(), note@), key_text("execution_created"@, note@), None);
        }
        r
    }

    /// Creates a goal under a fresh id.
    pub fn create_goal(&mut self, objective: &str, required_agent_ids: Vec<AgentId>) -> (r: Result<(GoalId, EventRecord), KernelError>)
        requires
            old(self).wf(),
        ensures
            final(self).wf(),
            old(self).goal_created(final(self), objective@, required_agent_ids@, r),
    {
        let goal_id = GoalId::new();
        let ghost ids = required_agent_ids@;
        let payload = Event::GoalCreated { goal_id, objective: String::from_str(objective), required_agent_ids };
        let ghost pv = payload;
        let ghost before = *self;
        let key = IdempotencyKey::new("goal_created", goal_id.to_string().as_str());
        let r = self.append(payload, key);
        proof {
            before.lemma_outcome_weaken(self, r, |e: Event| e == pv, goal_created_payload(goal_id, objective@, ids), key_text("goal_created"@, uuid_text_spec(goal_id.0)), None);
        }
        match r {
            Ok(rec) => Ok((goal_id, rec)),
            Err(e) => Err(e),
        }
    }

    /// Sets a goal's acceptance: all required agents terminal, no running operation, and the given barriers satisfied.
    pub fn define_acceptance(&mut self, goal_id: GoalId, require_barriers: Vec<BarrierId>) -> (r: Result<EventRecord, KernelError>)
        requires
            old(self).wf(),
        ensures
            final(self).wf(),
            old(self).append_outcome(final(self), r, acceptance_payload(goal_id, require_barriers@), key_text("goal_acceptance"@, uuid_text_spec(goal_id.0)), None),
    {
        let ghost bs = require_barriers@;
        let payload = Event::GoalAcceptanceDefined { goal_id, require_all_required_agents_terminal: true, require_no_running_operations: true, require_barriers };
        let ghost pv = payload;
        let ghost before = *self;
        let r = self.append(payload, IdempotencyKey::new("goal_acceptance", goal_id.to_string().as_str()));
        proof {
            before.lemma_outcome_weaken(self, r, |e: Event| e == pv, acceptance_payload(goal_id, bs), key_text("goal_acceptance"@, uuid_text_spec(goal_id.0)), None);
        }
        r
    }

    /// Grants a capability to an agent under a fresh id.
    pub fn grant_capability(&mut self, agent_id: AgentId, parent: Option<CapabilityId>, filesystem_scope: &str, network: NetworkScope, command_allowlist: Vec<String>, approval_evidence: &str) -> (r: Result<(CapabilityId, EventRecord), KernelError>)
        requires
            old(self).wf(),
        ensures
            final(self).wf(),
            match r {
                Ok((x, _)) => is_random_uuid(x.0) && old(self).append_outcome(
                    final(self),
                    record_of(r),
                    capability_payload(x, parent, agent_id, filesystem_scope@, network, crate::state::texts(command_allowlist@), approval_evidence@),
                    key_text("capability"@, uuid_text_spec(x.0)),
                    None,
                ),
                Err(_) => exists|x: CapabilityId| #[trigger] is_random_uuid(x.0) && old(self).append_outcome(
                    final(self),
                    record_of(r),
                    capability_payload(x, parent, agent_id, filesystem_scope@, network, crate::state::texts(command_allowlist@), approval_evidence@),
                    key_text("capability"@, uuid_text_spec(x.0)),
                    None,
                ),
            },
    {
        let cap = CapabilityId::new();
        let ghost allow = crate::state::texts(command_allowlist@);
        let payload = Event::CapabilityGranted { capability_id: cap, parent_capability_id: parent, agent_id, filesystem_scope: String::from_str(filesystem_scope), network, command_allowlist, deadline_ms: None, approval_evidence: String::from_str(approval_evidence) };
        let ghost pv = payload;
        let ghost before = *self;
        let r = self.append(payload, IdempotencyKey::new("capability", cap.to_string().as_str()));
        proof {
            before.lemma_outcome_weaken(self, r, |e: Event| e == pv, capability_payload(cap, parent, agent_id, filesystem_scope@, network, allow, approval_evidence@), key_text("capability"@, uuid_text_spec(cap.0)), None);
        }
        match r {
            Ok(rec) => Ok((cap, rec)),
            Err(e) => Err(e),
        }
    }

    /// Creates a task under a fresh id.
    pub fn create_task(&mut self, goal_id: GoalId, agent_id: AgentId, description: &str) -> (r: Result<TaskId, KernelError>)
        requires
            old(self).wf(),
        ensures
            final(self).wf(),
            exists|x: TaskId, rr: Result<EventRecord, KernelError>|
                #[trigger] is_random_uuid(x.0) && #[trigger] old(self).append_outcome(
                    final(self),
                    rr,
                    task_payload(x, goal_id, agent_id, description@),
                    key_text("task"@, uuid_text_spec(x.0)),
                    None,
                ) && match r {
                    Ok(v) => v == x && rr is Ok,
                    Err(e) => rr == Err::<EventRecord, KernelError>(e),
                },
    {
        let task_id = TaskId::new();
        let payload = Event::TaskCreated { task_id, goal_id, agent_id, description: String::from_str(description) };
        let ghost pv = payload;
        let ghost before = *self;
        let r = self.append(payload, IdempotencyKey::new("task", task_id.to_string().as_str()));
        proof {
            before.lemma_outcome_weaken(self, r, |e: Event| e == pv, task_payload(task_id, goal_id, agent_id, description@), key_text("task"@, uuid_text_spec(task_id.0)), None);
        }
        match r {
            Ok(_) => Ok(task_id),
            Err(e) => Err(e),
        }
    }

    /// Records a finished model turn under a fresh turn id; it completes nothing.
    pub fn finish_model_turn(&mut self, agent_id: AgentId, summary: &str) -> (r: Result<EventRecord, KernelError>)
        requires
            old(self).wf(),
        ensures
            final(self).wf(),
            old(self).turn_recorded(final(self), agent_id, summary@, r),
    {
        let turn_id = TurnId::new();
        let payload = Event::ModelTurnFinished { turn_id, agent_id, summary: String::from_str(summary) };
        let ghost pv = payload;
        let ghost before = *self;
        let r = self.append(payload, IdempotencyKey::new("model_turn", turn_id.to_string().as_str()));
        proof {
            before.lemma_outcome_weaken(self, r, |e: Event| e == pv, model_turn_payload(turn_id, agent_id, summary@), key_text("model_turn"@, uuid_text_spec(turn_id.0)), None);
        }
        r
    }

    /// The status of an agent of the addressed execution.
    pub open spec fn agent_status_of(&self, a: AgentId) -> Result<AgentStatus, KernelError> {
        match self.first_execution() {
            None => Err(rejected(Rejection::NoExecution)),
            Some(x) => if self.state_view().executions[x.0].agents.contains_key(a.0) {
                Ok(self.state_view().executions[x.0].agents[a.0].status)
            } else {
                Err(rejected(Rejection::UnknownAgent(a)))
            },
        }
    }

    /// The status of an operation of the addressed execution.
    pub open spec fn operation_status_of(&self, o: OperationId) -> Result<OperationStatus, KernelError> {
        match self.first_execution() {
            None => Err(rejected(Rejection::NoExecution)),
            Some(x) => if self.state_view().executions[x.0].operations.contains_key(o.0) {
                Ok(self.state_view().executions[x.0].operations[o.0].status)
            } else {
                Err(rejected(Rejection::UnknownOperation(o)))
            },
        }
    }

    fn agent_status(&self, agent_id: AgentId) -> (r: Result<AgentStatus, KernelError>)
        ensures
            r == self.agent_status_of(agent_id),
    {
        let exec = self.execution()?;
        match exec.agents.get(agent_id.0) {
            Some(a) => Ok(a.status),
            None => Err(KernelError::invalid(Rejection::UnknownAgent(agent_id))),
        }
    }

    /// The status of an operation of the addressed execution.
    pub fn operation_status(&self, operation_id: OperationId) -> (r: Result<OperationStatus, KernelError>)
        ensures
            r == self.operation_status_of(operation_id),
    {
        let exec = self.execution()?;
        match exec.operations.get(operation_id.0) {
            Some(o) => Ok(o.status),
            None => Err(KernelError::invalid(Rejection::UnknownOperation(operation_id))),
        }
    }

    /// Moves an agent to `Running`; the key names the status it left.
    pub fn start_agent(&mut self, agent_id: AgentId) -> (r: Result<EventRecord, KernelError>)
        requires
            old(self).wf(),
        ensures
            final(self).wf(),
            old(self).agent_started(final(self), agent_id, r),
    {
        let from = self.agent_status(agent_id)?;
        let unique = crate::text::join3(agent_id.to_string().as_str(), ":", from.name());
        let payload = Event::AgentStatusChanged { agent_id, from, to: AgentStatus::Running, reason: String::from_str("scheduler") };
        let ghost pv = payload;
        let ghost before = *self;
        let r = self.append(payload, IdempotencyKey::new("agent_running", unique.as_str()));
        proof {
            before.lemma_outcome_weaken(
                self,
                r,
                |e: Event| e == pv,
                status_change_payload(agent_id, from, AgentStatus::Running, "scheduler"@),
                key_text("agent_running"@, uuid_text_spec(agent_id.0) + ":"@ + from.spec_name()),
                None,
            );
        }
        r
    }

    /// Moves an agent to `Succeeded`.
    pub fn complete_agent(&mut self, agent_id: AgentId) -> (r: Result<EventRecord, KernelError>)
        requires
            old(self).wf(),
        ensures
            final(self).wf(),
            old(self).agent_completed(final(self), agent_id, r),
    {
        let from = self.agent_status(agent_id)?;
        let payload = Event::AgentStatusChanged { agent_id, from, to: AgentStatus::Succeeded, reason: String::from_str("agent work finished") };
        let ghost pv = payload;
        let ghost before = *self;
        let r = self.append(payload, IdempotencyKey::new("agent_succeeded", agent_id.to_string().as_str()));
        proof {
            before.lemma_outcome_weaken(
                self,
                r,
                |e: Event| e == pv,
                status_change_payload(agent_id, from, AgentStatus::Succeeded, "agent work finished"@),
                key_text("agent_succeeded"@, uuid_text_spec(agent_id.0)),
                None,
            );
        }
        r
    }

    /// Moves an agent to `Failed` with a reason.
    pub fn fail_agent(&mut self, agent_id: AgentId, reason: &str) -> (r: Result<EventRecord, KernelError>)
        requires
            old(self).wf(),
        ensures
            final(self).wf(),
            match old(self).agent_status_of(agent_id) {
                Err(e) => r == Err::<EventRecord, KernelError>(e) && final(self).same_as(old(self)),
                Ok(from) => old(self).append_outcome(
                    final(self),
                    r,
                    status_change_payload(agent_id, from, AgentStatus::Failed, reason@),
                    key_text("agent_failed"@, uuid_text_spec(agent_id.0)),
                    None,
                ),
            },
    {
        let from = self.agent_status(agent_id)?;
        let payload = Event::AgentStatusChanged { agent_id, from, to: AgentStatus::Failed, reason: String::from_str(reason) };
        let ghost pv = payload;
        let ghost before = *self;
        let r = self.append(payload, IdempotencyKey::new("agent_failed", agent_id.to_string().as_str()));
        proof {
            before.lemma_outcome_weaken(
                self,
                r,
                |e: Event| e == pv,
                status_change_payload(agent_id, from, AgentStatus::Failed, reason@),
                key_text("agent_failed"@, uuid_text_spec(agent_id.0)),
                None,
            );
        }
        r
    }

    /// Moves an agent to `Cancelled`.
    pub fn cancel_agent(&mut self, agent_id: AgentId) -> (r: Result<EventRecord, KernelError>)
        requires
            old(self).wf(),
        ensures
            final(self).wf(),
            match old(self).agent_status_of(agent_id) {
                Err(e) => r == Err::<EventRecord, KernelError>(e) && final(self).same_as(old(self)),
                Ok(from) => old(self).append_outcome(
                    final(self),
                    r,
                    status_change_payload(agent_id, from, AgentStatus::Cancelled, "cancel"@),
                    key_text("agent_cancelled"@, uuid_text_spec(agent_id.0)),
                    None,
                ),
            },
    {
        let from = self.agent_status(agent_id)?;
        let payload = Event::AgentStatusChanged { agent_id, from, to: AgentStatus::Cancelled, reason: String::from_str("cancel") };
        let ghost pv = payload;
        let ghost before = *self;
        let r = self.append(payload, IdempotencyKey::new("agent_cancelled", agent_id.to_string().as_str()));
        proof {
            before.lemma_outcome_weaken(
                self,
                r,
                |e: Event| e == pv,
                status_change_payload(agent_id, from, AgentStatus::Cancelled, "cancel"@),
                key_text("agent_cancelled"@, uuid_text_spec(agent_id.0)),
                None,
            );
        }
        r
    }

    /// Completes a goal, only when its acceptance preconditions hold; a
    /// finished model turn is never enough.
    pub fn try_complete_goal(&mut self, goal_id: GoalId) -> (r: Result<EventRecord, KernelError>)
        requires
            old(self).wf(),
        ensures
            final(self).wf(),
            old(self).goal_completion(final(self), goal_id, r),
    {
        let exec = self.execution()?;
        if !goal_completion_preconditions_met(exec, goal_id)? {
            return Err(KernelError::invalid(Rejection::GoalCompletionRefused));
        }
        let payload = Event::GoalCompleted { goal_id };
        let ghost pv = payload;
        let ghost before = *self;
        let r = self.append(payload, IdempotencyKey::new("goal_completed", goal_id.to_string().as_str()));
        proof {
            before.lemma_outcome_weaken(self, r, |e: Event| e == pv, goal_completed_payload(goal_id), key_text("goal_completed"@, uuid_text_spec(goal_id.0)), None);
        }
        r
    }

    /// Records a started process of an attempt.
    pub fn process_started(&mut self, operation_id: OperationId, attempt_id: AttemptId, pid: u32, start_key: &str) -> (r: Result<EventRecord, KernelError>)
        requires
            old(self).wf(),
        ensures
            final(self).wf(),
            old(self).append_outcome(final(self), r, process_started_payload(operation_id, attempt_id, pid, start_key@), key_text("proc_started"@, uuid_text_spec(operation_id.0) + ":"@ + uuid_text_spec(attempt_id.0)), None),
    {
        let unique = crate::text::join3(operation_id.to_string().as_str(), ":", attempt_id.to_string().as_str());
        let payload = Event::ProcessStarted { operation_id, attempt_id, pid, start_key: String::from_str(start_key) };
        let ghost pv = payload;
        let ghost before = *self;
        let r = self.append(payload, IdempotencyKey::new("proc_started", unique.as_str()));
        proof {
            before.lemma_outcome_weaken(self, r, |e: Event| e == pv, process_started_payload(operation_id, attempt_id, pid, start_key@), key_text("proc_started"@, uuid_text_spec(operation_id.0) + ":"@ + uuid_text_spec(attempt_id.0)), None);
        }
        r
    }

    /// Records the exit of an attempt's process.
    pub fn process_exited(&mut self, operation_id: OperationId, attempt_id: AttemptId, exit_code: i32, signal: Option<String>, killed_externally: bool) -> (r: Result<EventRecord, KernelError>)
        requires
            old(self).wf(),
        ensures
            final(self).wf(),
            old(self).append_outcome(final(self), r, process_exited_payload(operation_id, attempt_id, exit_code, crate::state::opt_text(signal), killed_externally), key_text("proc_exited"@, uuid_text_spec(operation_id.0) + ":"@ + uuid_text_spec(attempt_id.0)), None),
    {
        let unique = crate::text::join3(operation_id.to_string().as_str(), ":", attempt_id.to_string().as_str());
        let ghost sig = crate::state::opt_text(signal);
        let payload = Event::ProcessExited { operation_id, attempt_id, exit_code, signal, killed_externally };
        let ghost pv = payload;
        let ghost before = *self;
        let r = self.append(payload, IdempotencyKey::new("proc_exited", unique.as_str()));
        proof {
            before.lemma_outcome_weaken(self, r, |e: Event| e == pv, process_exited_payload(operation_id, attempt_id, exit_code, sig, killed_externally), key_text("proc_exited"@, uuid_text_spec(operation_id.0) + ":"@ + uuid_text_spec(attempt_id.0)), None);
        }
        r
    }

    /// Commits an attempt's exit under a lease generation.
    pub fn commit_operation(&mut self, operation_id: OperationId, attempt_id: AttemptId, lease_generation: u64, exit_code: i32) -> (r: Result<EventRecord, KernelError>)
        requires
            old(self).wf(),
        ensures
            final(self).wf(),
            old(self).append_outcome(final(self), r, committed_payload(operation_id, attempt_id, lease_generation, exit_code), key_text("op_committed"@, uuid_text_spec(operation_id.0) + ":"@ + uuid_text_spec(attempt_id.0)), None),
    {
        let unique = crate::text::join3(operation_id.to_string().as_str(), ":", attempt_id.to_string().as_str());
        let payload = Event::OperationCommitted { operation_id, attempt_id, lease_generation, exit_code };
        let ghost pv = payload;
        let ghost before = *self;
        let r = self.append(payload, IdempotencyKey::new("op_committed", unique.as_str()));
        proof {
            before.lemma_outcome_weaken(self, r, |e: Event| e == pv, committed_payload(operation_id, attempt_id, lease_generation, exit_code), key_text("op_committed"@, uuid_text_spec(operation_id.0) + ":"@ + uuid_text_spec(attempt_id.0)), None);
        }
        r
    }

    /// Expires a lease generation of an operation.
    pub fn expire_lease(&mut self, operation_id: OperationId, generation: u64) -> (r: Result<EventRecord, KernelError>)
        requires
            old(self).wf(),
        ensures
            final(self).wf(),
            old(self).append_outcome(final(self), r, lease_expired_payload(operation_id, generation), key_text("lease_expired"@, uuid_text_spec(operation_id.0) + ":"@ + decimal_text(generation as nat)), None),
    {
        let unique = crate::text::join3(operation_id.to_string().as_str(), ":", u64_text(generation).as_str());
        let payload = Event::LeaseExpired { operation_id, generation };
        let ghost pv = payload;
        let ghost before = *self;
        let r = self.append(payload, IdempotencyKey::new("lease_expired", unique.as_str()));
        proof {
            before.lemma_outcome_weaken(self, r, |e: Event| e == pv, lease_expired_payload(operation_id, generation), key_text("lease_expired"@, uuid_text_spec(operation_id.0) + ":"@ + decimal_text(generation as nat)), None);
        }
        r
    }

    /// Records an output chunk of an attempt: its stream, offset, length and
    /// BLAKE3 hash. The key names all of them.
    pub fn process_output(
        &mut self,
        operation_id: OperationId,
        attempt_id: AttemptId,
        stream: StreamKind,
        offset: u64,
        bytes: &[u8],
    ) -> (r: Result<EventRecord, KernelError>)
        requires
            old(self).wf(),
        ensures
            final(self).wf(),
            old(self).append_outcome(
                final(self),
                r,
                process_output_payload(
                    operation_id,
                    attempt_id,
                    stream,
                    offset,
                    bytes@.len() as u64,
                    crate::ids::blake3_digest(bytes@),
                ),
                key_text("proc_out"@, output_key_text(operation_id, attempt_id, stream, offset, bytes@.len() as u64, crate::ids::blake3_digest(bytes@))),
                None,
            ),
    {
        let chunk_hash = ContentHash::of_bytes(bytes);
        let stream_name = match stream {
            StreamKind::Stdout => "stdout",
            StreamKind::Stderr => "stderr",
        };
        let byte_len = bytes.len() as u64;
        let mut unique = crate::text::join3(operation_id.to_string().as_str(), ":", attempt_id.to_string().as_str());
        unique.append(":");
        unique.append(stream_name);
        unique.append(":");
        unique.append(u64_text(offset).as_str());
        unique.append(":");
        unique.append(u64_text(byte_len).as_str());
        unique.append(":");
        unique.append(chunk_hash.to_hex().as_str());
        let payload = Event::ProcessOutputAvailable { operation_id, attempt_id, stream, offset, byte_len, chunk_hash };
        let ghost pv = payload;
        let ghost before = *self;
        let r = self.append(payload, IdempotencyKey::new("proc_out", unique.as_str()));
        proof {
            before.lemma_outcome_weaken(self, r, |e: Event| e == pv, process_output_payload(operation_id, attempt_id, stream, offset, bytes@.len() as u64, crate::ids::blake3_digest(bytes@)), key_text("proc_out"@, output_key_text(operation_id, attempt_id, stream, offset, bytes@.len() as u64, crate::ids::blake3_digest(bytes@))), None);
        }
        r
    }

    /// Creates a barrier expecting some number of arrivals, under a fresh id.
    pub fn create_barrier(&mut self, expected_arrivals: u32) -> (r: Result<(BarrierId, EventRecord), KernelError>)
        requires
            old(self).wf(),
        ensures
            final(self).wf(),
            match r {
                Ok((x, _)) => is_random_uuid(x.0) && old(self).append_outcome(
                    final(self),
                    record_of(r),
                    barrier_payload(x, expected_arrivals),
                    key_text("barrier"@, uuid_text_spec(x.0)),
                    None,
                ),
                Err(_) => exists|x: BarrierId| #[trigger] is_random_uuid(x.0) && old(self).append_outcome(
                    final(self),
                    record_of(r),
                    barrier_payload(x, expected_arrivals),
                    key_text("barrier"@, uuid_text_spec(x.0)),
                    None,
                ),
            },
    {
        let barrier_id = BarrierId::new();
        let payload = Event::BarrierCreated { barrier_id, expected_arrivals };
        let ghost pv = payload;
        let ghost before = *self;
        let r = self.append(payload, IdempotencyKey::new("barrier", barrier_id.to_string().as_str()));
        proof {
            before.lemma_outcome_weaken(self, r, |e: Event| e == pv, barrier_payload(barrier_id, expected_arrivals), key_text("barrier"@, uuid_text_spec(barrier_id.0)), None);
        }
        match r {
            Ok(rec) => Ok((barrier_id, rec)),
            Err(e) => Err(e),
        }
    }

    /// Attaches a context snapshot to an agent under a fresh id.
    pub fn attach_snapshot(&mut self, agent_id: AgentId, parent_snapshot_id: Option<SnapshotId>, chunk_hashes: Vec<ContentHash>, byte_len: u64) -> (r: Result<SnapshotId, KernelError>)
        requires
            old(self).wf(),
        ensures
            final(self).wf(),
            exists|x: SnapshotId, rr: Result<EventRecord, KernelError>|
                #[trigger] is_random_uuid(x.0) && #[trigger] old(self).append_outcome(
                    final(self),
                    rr,
                    snapshot_payload(x, agent_id, parent_snapshot_id, chunk_hashes@, byte_len),
                    key_text("snapshot"@, uuid_text_spec(x.0)),
                    None,
                ) && match r {
                    Ok(v) => v == x && rr is Ok,
                    Err(e) => rr == Err::<EventRecord, KernelError>(e),
                },
    {
        let snapshot_id = SnapshotId::new();
        let ghost hs = chunk_hashes@;
        let payload = Event::ContextSnapshotAttached { snapshot_id, agent_id, parent_snapshot_id, chunk_hashes, byte_len };
        let ghost pv = payload;
        let ghost before = *self;
        let r = self.append(payload, IdempotencyKey::new("snapshot", snapshot_id.to_string().as_str()));
        proof {
            before.lemma_outcome_weaken(self, r, |e: Event| e == pv, snapshot_payload(snapshot_id, agent_id, parent_snapshot_id, hs, byte_len), key_text("snapshot"@, uuid_text_spec(snapshot_id.0)), None);
        }
        match r {
            Ok(_) => Ok(snapshot_id),
            Err(e) => Err(e),
        }
    }

    /// The generation a new lease of an operation gets: one past the current
    /// lease's, or 1.
    pub open spec fn next_generation(&self, o: OperationId) -> int {
        let x = self.first_execution()->0;
        match self.state_view().executions[x.0].operations[o.0].lease {
            Some(l) => l.generation + 1,
            None => 1,
        }
    }

    /// An operation of the addressed execution exists.
    pub open spec fn has_operation(&self, o: OperationId) -> bool {
        match self.first_execution() {
            Some(x) => self.state_view().executions[x.0].operations.contains_key(o.0),
            None => false,
        }
    }

    /// What `lease_operation` does: the operation is looked up, and the
    /// lease with the next generation is appended while one is left.
    pub open spec fn operation_leased(
        &self,
        new: &Self,
        operation_id: OperationId,
        attempt_id: AttemptId,
        owner: LeaseOwnerId,
        executor_id: Seq<char>,
        ttl_ms: i64,
        capability_id: Option<CapabilityId>,
        r: Result<u64, KernelError>,
    ) -> bool {
        &&& self.first_execution() is None ==> r == Err::<u64, KernelError>(
            rejected(Rejection::NoExecution),
        ) && new.same_as(self)
        &&& self.first_execution() is Some && !self.has_operation(operation_id) ==> r
            == Err::<u64, KernelError>(rejected(Rejection::UnknownOperationPlain))
            && new.same_as(self)
        &&& self.has_operation(operation_id) && self.next_generation(operation_id) > u64::MAX
            ==> r == Err::<u64, KernelError>(rejected(Rejection::LeaseGenerationsExhausted))
            && new.same_as(self)
        &&& self.has_operation(operation_id) && self.next_generation(operation_id) <= u64::MAX
            ==> exists|rr: Result<EventRecord, KernelError>|
            #[trigger] self.append_outcome(
                new,
                rr,
                leased_payload(
                    operation_id,
                    attempt_id,
                    self.next_generation(operation_id) as u64,
                    owner,
                    saturating_sum(self.clock() as int, ttl_ms as int),
                    capability_id,
                    executor_id,
                ),
                key_text(
                    "op_leased"@,
                    uuid_text_spec(operation_id.0) + ":"@ + decimal_text(
                        self.next_generation(operation_id) as nat,
                    ),
                ),
                None,
            ) && match r {
                Ok(g) => g == self.next_generation(operation_id) && rr is Ok,
                Err(e) => rr == Err::<EventRecord, KernelError>(e),
            }
    }

    /// Leases an operation's attempt to an owner until `ttl_ms` past the
    /// clock, with the next lease generation, which it returns.
    pub fn lease_operation(
        &mut self,
        operation_id: OperationId,
        attempt_id: AttemptId,
        owner: LeaseOwnerId,
        executor_id: &str,
        ttl_ms: i64,
        capability_id: Option<CapabilityId>,
    ) -> (r: Result<u64, KernelError>)
        requires
            old(self).wf(),
        ensures
            final(self).wf(),
            old(self).operation_leased(final(self), operation_id, attempt_id, owner, executor_id@, ttl_ms, capability_id, r),
    {
        let exec = self.execution()?;
        let op = match exec.operations.get(operation_id.0) {
            Some(op) => op,
            None => {
                return Err(KernelError::invalid(Rejection::UnknownOperationPlain));
            },
        };
        let generation: u64 = match &op.lease {
            Some(l) => {
                if l.generation == u64::MAX {
                    return Err(KernelError::invalid(Rejection::LeaseGenerationsExhausted));
                }
                l.generation + 1
            },
            None => 1,
        };
        let expires_at_ms = saturating_add(self.clock_ms, ttl_ms);
        let unique = crate::text::join3(operation_id.to_string().as_str(), ":", u64_text(generation).as_str());
        let payload = Event::OperationLeased {
            operation_id,
            attempt_id,
            generation,
            owner,
            expires_at_ms,
            capability_id,
            executor_id: String::from_str(executor_id),
        };
        let ghost pv = payload;
        let ghost before = *self;
        let r = self.append(payload, IdempotencyKey::new("op_leased", unique.as_str()));
        proof {
            before.lemma_outcome_weaken(
                self,
                r,
                |e: Event| e == pv,
                leased_payload(operation_id, attempt_id, generation, owner, expires_at_ms, capability_id, executor_id@),
                key_text("op_leased"@, uuid_text_spec(operation_id.0) + ":"@ + decimal_text(generation as nat)),
                None,
            );
            assert(generation == before.next_generation(operation_id));
            assert(before.append_outcome(
                self,
                r,
                leased_payload(
                    operation_id,
                    attempt_id,
                    before.next_generation(operation_id) as u64,
                    owner,
                    saturating_sum(before.clock() as int, ttl_ms as int),
                    capability_id,
                    executor_id@,
                ),
                key_text(
                    "op_leased"@,
                    uuid_text_spec(operation_id.0) + ":"@ + decimal_text(
                        before.next_generation(operation_id) as nat,
                    ),
                ),
                None,
            ));
        }
        match r {
            Ok(_) => Ok(generation),
            Err(e) => Err(e),
        }
    }

    /// Records a checkpoint: the hex BLAKE3 hash of the backend's
    /// serialization of the addressed execution, at the next sequence number.
    pub fn checkpoint(&mut self) -> (r: Result<EventRecord, KernelError>)
        requires
            old(self).wf(),
        ensures
            final(self).wf(),
            old(self).first_execution() is None ==> r == Err::<EventRecord, KernelError>(
                rejected(Rejection::NoExecution),
            ) && final(self).same_as(old(self)),
            old(self).first_execution() matches Some(x) ==> {
                let ev = old(self).state_view().executions[x.0];
                ||| (r matches Err(err) && state_serialized(&old(self).backend_of(), ev, Err(err))
                    && final(self).same_as(old(self)))
                ||| (old(self).next_seq() > u64::MAX && (r matches Err(err) && err is LogIntegrity)
                    && final(self).same_as(old(self)))
                ||| exists|bytes: Vec<u8>|
                    #[trigger] state_serialized(&old(self).backend_of(), ev, Ok(bytes))
                        && old(self).append_outcome(
                        final(self),
                        r,
                        checkpoint_payload(
                            old(self).next_seq() as u64,
                            crate::ids::hex_lower(crate::ids::blake3_digest(bytes@)),
                        ),
                        key_text("checkpoint"@, decimal_text(old(self).next_seq() as nat)),
                        None,
                    )
            },
    {
        let exec = self.execution()?;
        assert(self.backend_of() == self.backend);
        let bytes = match state_bytes_of(&self.backend, exec) {
            Ok(b) => b,
            Err(e) => {
                return Err(e);
            },
        };
        assert(state_serialized(&old(self).backend_of(), exec@, Ok::<Vec<u8>, KernelError>(bytes)));
        let hash = crate::ids::StateHash::of_bytes(bytes.as_slice());
        let n = self.records.len();
        if n > 0 && self.records[n - 1].seq == u64::MAX {
            return Err(KernelError::LogIntegrity(String::from_str("sequence numbers exhausted")));
        }
        let seq: u64 = if n == 0 {
            1
        } else {
            self.records[n - 1].seq + 1
        };
        let payload = Event::CheckpointTaken { seq, state_hash: hash.to_hex() };
        let ghost pv = payload;
        let ghost before = *self;
        let r = self.append(payload, IdempotencyKey::new("checkpoint", u64_text(seq).as_str()));
        proof {
            before.lemma_outcome_weaken(
                self,
                r,
                |e: Event| e == pv,
                checkpoint_payload(seq, crate::ids::hex_lower(crate::ids::blake3_digest(bytes@))),
                key_text("checkpoint"@, decimal_text(seq as nat)),
                None,
            );
            assert(seq == before.next_seq());
            assert(old(self).append_outcome(
                self,
                r,
                checkpoint_payload(
                    old(self).next_seq() as u64,
                    crate::ids::hex_lower(crate::ids::blake3_digest(bytes@)),
                ),
                key_text("checkpoint"@, decimal_text(old(self).next_seq() as nat)),
                None,
            ));
        }
        r
    }

    /// The state hash and business hash of the addressed execution: hex
    /// BLAKE3 hashes of the backend's state and business serializations of
    /// it. It fails only without an execution, or with the error a
    /// serialization gave.
    pub fn hashes(&self) -> (r: Result<(String, String), KernelError>)
        ensures
            match self.first_execution() {
                None => r == Err::<(String, String), KernelError>(rejected(Rejection::NoExecution)),
                Some(x) => {
                    let e = self.state_view().executions[x.0];
                    match r {
                        Ok((a, b)) => exists|sb: Vec<u8>, bb: Vec<u8>|
                            {
                                &&& #[trigger] state_serialized(&self.backend_of(), e, Ok(sb))
                                &&& #[trigger] business_serialized(&self.backend_of(), e, Ok(bb))
                                &&& a@ == crate::ids::hex_lower(crate::ids::blake3_digest(sb@))
                                &&& b@ == crate::ids::hex_lower(crate::ids::blake3_digest(bb@))
                            },
                        Err(err) => state_serialized(&self.backend_of(), e, Err(err)) || exists|
                            sb: Vec<u8>,
                        |
                            #[trigger] state_serialized(&self.backend_of(), e, Ok(sb))
                                && business_serialized(&self.backend_of(), e, Err(err)),
                    }
                },
            },
    {
        let exec = self.execution()?;
        let ghost x = self.first_execution()->0;
        assert(self.backend_of() == self.backend);
        assert(exec@ == self.state_view().executions[x.0]);
        let sb = match state_bytes_of(&self.backend, exec) {
            Ok(b) => b,
            Err(e) => {
                return Err(e);
            },
        };
        let bb = match business_bytes_of(&self.backend, exec) {
            Ok(b) => b,
            Err(e) => {
                assert(state_serialized(&self.backend_of(), exec@, Ok::<Vec<u8>, KernelError>(sb)));
                return Err(e);
            },
        };
        let a = crate::ids::StateHash::of_bytes(sb.as_slice()).to_hex();
        let b = crate::ids::StateHash::of_bytes(bb.as_slice()).to_hex();
        assert(state_serialized(&self.backend_of(), exec@, Ok::<Vec<u8>, KernelError>(sb)));
        assert(business_serialized(&self.backend_of(), exec@, Ok::<Vec<u8>, KernelError>(bb)));
        Ok((a, b))
    }

    /// Two appends: the second is made only when the first succeeded.
    pub open spec fn chain2(
        &self,
        mid: &Self,
        new: &Self,
        r1: Result<EventRecord, KernelError>,
        r2: Result<EventRecord, KernelError>,
        p1: spec_fn(Event) -> bool,
        k1: Seq<char>,
        p2: spec_fn(Event) -> bool,
        k2: Seq<char>,
    ) -> bool {
        &&& self.append_outcome(mid, r1, p1, k1, None)
        &&& match r1 {
            Err(_) => new.same_as(mid),
            Ok(_) => mid.append_outcome(new, r2, p2, k2, None),
        }
    }

    /// An append, then a status change of `agent` from the status it has
    /// after that append; the lookup of that status can fail too.
    pub open spec fn chain_status(
        &self,
        mid: &Self,
        new: &Self,
        r1: Result<EventRecord, KernelError>,
        r2: Result<EventRecord, KernelError>,
        p1: spec_fn(Event) -> bool,
        k1: Seq<char>,
        agent: AgentId,
        p2: spec_fn(AgentStatus) -> spec_fn(Event) -> bool,
        k2: Seq<char>,
    ) -> bool {
        &&& self.append_outcome(mid, r1, p1, k1, None)
        &&& match r1 {
            Err(_) => new.same_as(mid),
            Ok(_) => match mid.agent_status_of(agent) {
                Err(e) => new.same_as(mid) && r2 == Err::<EventRecord, KernelError>(e),
                Ok(from) => mid.append_outcome(new, r2, p2(from), k2, None),
            },
        }
    }

    /// What `spawn_agent` does: the agent is appended under a fresh id, then
    /// its move to `Runnable`.
    pub open spec fn agent_spawned(
        &self,
        new: &Self,
        parent_agent_id: Option<AgentId>,
        goal_id: GoalId,
        task: Seq<char>,
        snapshot_id: Option<SnapshotId>,
        capability_id: Option<CapabilityId>,
        r: Result<(AgentId, EventRecord), KernelError>,
    ) -> bool {
        exists|x: AgentId, mid: Kernel<B>, r1: Result<EventRecord, KernelError>, r2: Result<EventRecord, KernelError>|
            #[trigger] self.chain2(
                &mid,
                new,
                r1,
                r2,
                agent_spawned_payload(x, parent_agent_id, goal_id, task, snapshot_id, capability_id),
                key_text("agent_spawned"@, uuid_text_spec(x.0)),
                status_change_payload(x, AgentStatus::Created, AgentStatus::Runnable, "spawned"@),
                key_text("agent_runnable"@, uuid_text_spec(x.0)),
            ) && is_random_uuid(x.0) && record_of(r) == chain_result(r1, r2) && (r matches Ok(
                (y, _),
            ) ==> y == x)
    }

    /// What `create_operation` does: the operation and its first attempt are
    /// appended under fresh ids, then its scheduling.
    pub open spec fn operation_created(
        &self,
        new: &Self,
        agent_id: AgentId,
        argv: Seq<Seq<char>>,
        cwd: Seq<char>,
        executor_hint: Option<Seq<char>>,
        r: Result<(OperationId, AttemptId, EventRecord), KernelError>,
    ) -> bool {
        exists|x: OperationId, a: AttemptId, mid: Kernel<B>, r1: Result<EventRecord, KernelError>, r2: Result<EventRecord, KernelError>|
            #[trigger] self.chain2(
                &mid,
                new,
                r1,
                r2,
                operation_created_payload(x, agent_id, a, argv, cwd, executor_hint),
                key_text("op_created"@, uuid_text_spec(x.0)),
                operation_scheduled_payload(x),
                key_text("op_scheduled"@, uuid_text_spec(x.0)),
            ) && is_random_uuid(x.0) && is_random_uuid(a.0) && match r {
                Ok((y, b, rec)) => y == x && b == a && r1 == Ok::<EventRecord, KernelError>(rec) && r2 is Ok,
                Err(e) => chain_result(r1, r2) == Err::<EventRecord, KernelError>(e),
            }
    }

    /// Spawns an agent under a fresh id and makes it runnable.
    pub fn spawn_agent(
        &mut self,
        parent_agent_id: Option<AgentId>,
        goal_id: GoalId,
        task: &str,
        snapshot_id: Option<SnapshotId>,
        capability_id: Option<CapabilityId>,
    ) -> (r: Result<(AgentId, EventRecord), KernelError>)
        requires
            old(self).wf(),
        ensures
            final(self).wf(),
            old(self).agent_spawned(final(self), parent_agent_id, goal_id, task@, snapshot_id, capability_id, r),
    {
        let agent_id = AgentId::new();
        let payload = Event::AgentSpawned {
            agent_id,
            parent_agent_id,
            goal_id,
            task: String::from_str(task),
            snapshot_id,
            capability_id,
        };
        let ghost pv = payload;
        let ghost before = *self;
        let r1 = self.append(payload, IdempotencyKey::new("agent_spawned", agent_id.to_string().as_str()));
        let ghost p1 = agent_spawned_payload(agent_id, parent_agent_id, goal_id, task@, snapshot_id, capability_id);
        let ghost k1 = key_text("agent_spawned"@, uuid_text_spec(agent_id.0));
        let ghost p2 = status_change_payload(agent_id, AgentStatus::Created, AgentStatus::Runnable, "spawned"@);
        let ghost k2 = key_text("agent_runnable"@, uuid_text_spec(agent_id.0));
        proof {
            before.lemma_outcome_weaken(self, r1, |e: Event| e == pv, p1, k1, None);
        }
        let ghost mid = *self;
        let rec = match r1 {
            Err(e) => {
                assert(before.chain2(&mid, self, r1, Err(e), p1, k1, p2, k2));
                return Err(e);
            },
            Ok(rec) => rec,
        };
        let payload2 = Event::AgentStatusChanged {
            agent_id,
            from: AgentStatus::Created,
            to: AgentStatus::Runnable,
            reason: String::from_str("spawned"),
        };
        let ghost pv2 = payload2;
        let r2 = self.append(payload2, IdempotencyKey::new("agent_runnable", agent_id.to_string().as_str()));
        proof {
            mid.lemma_outcome_weaken(self, r2, |e: Event| e == pv2, p2, k2, None);
            assert(before.chain2(&mid, self, r1, r2, p1, k1, p2, k2));
        }
        match r2 {
            Err(e) => Err(e),
            Ok(_) => Ok((agent_id, rec)),
        }
    }

    /// Creates an operation and its first attempt under fresh ids, and
    /// schedules it.
    pub fn create_operation(
        &mut self,
        agent_id: AgentId,
        argv: Vec<String>,
        cwd: &str,
        executor_hint: Option<String>,
    ) -> (r: Result<(OperationId, AttemptId, EventRecord), KernelError>)
        requires
            old(self).wf(),
        ensures
            final(self).wf(),
            old(self).operation_created(final(self), agent_id, crate::state::texts(argv@), cwd@, crate::state::opt_text(executor_hint), r),
    {
        let operation_id = OperationId::new();
        let attempt_id = AttemptId::new();
        let ghost args = crate::state::texts(argv@);
        let ghost hint = crate::state::opt_text(executor_hint);
        let payload = Event::OperationCreated {
            operation_id,
            agent_id,
            attempt_id,
            argv,
            cwd: String::from_str(cwd),
            executor_hint,
        };
        let ghost pv = payload;
        let ghost before = *self;
        let r1 = self.append(payload, IdempotencyKey::new("op_created", operation_id.to_string().as_str()));
        let ghost p1 = operation_created_payload(operation_id, agent_id, attempt_id, args, cwd@, hint);
        let ghost k1 = key_text("op_created"@, uuid_text_spec(operation_id.0));
        let ghost p2 = operation_scheduled_payload(operation_id);
        let ghost k2 = key_text("op_scheduled"@, uuid_text_spec(operation_id.0));
        proof {
            before.lemma_outcome_weaken(self, r1, |e: Event| e == pv, p1, k1, None);
        }
        let ghost mid = *self;
        let rec = match r1 {
            Err(e) => {
                assert(before.chain2(&mid, self, r1, Err(e), p1, k1, p2, k2));
                return Err(e);
            },
            Ok(rec) => rec,
        };
        let payload2 = Event::OperationScheduled { operation_id };
        let ghost pv2 = payload2;
        let r2 = self.append(payload2, IdempotencyKey::new("op_scheduled", operation_id.to_string().as_str()));
        proof {
            mid.lemma_outcome_weaken(self, r2, |e: Event| e == pv2, p2, k2, None);
            assert(before.chain2(&mid, self, r1, r2, p1, k1, p2, k2));
        }
        match r2 {
            Err(e) => Err(e),
            Ok(_) => Ok((operation_id, attempt_id, rec)),
        }
    }

    /// Creates a join under a fresh id and puts its waiter in `WaitingJoin`.
    pub fn create_join(
        &mut self,
        waiter_agent_id: AgentId,
        children: Vec<AgentId>,
        kind: JoinKind,
        failure_policy: JoinFailurePolicy,
    ) -> (r: Result<(JoinId, EventRecord), KernelError>)
        requires
            old(self).wf(),
        ensures
            final(self).wf(),
            exists|x: JoinId, mid: Kernel<B>, r1: Result<EventRecord, KernelError>, r2: Result<EventRecord, KernelError>|
                #[trigger] old(self).chain_status(
                    &mid,
                    final(self),
                    r1,
                    r2,
                    join_created_payload(x, waiter_agent_id, children@, kind, failure_policy),
                    key_text("join_created"@, uuid_text_spec(x.0)),
                    waiter_agent_id,
                    change_from(waiter_agent_id, AgentStatus::WaitingJoin, "join "@ + uuid_text_spec(x.0)),
                    key_text("join_wait"@, uuid_text_spec(x.0)),
                ) && is_random_uuid(x.0) && record_of(r) == chain_result(r1, r2) && (r matches Ok(
                    (y, _),
                ) ==> y == x),
    {
        let join_id = JoinId::new();
        let ghost kids = children@;
        let payload = Event::JoinCreated { join_id, waiter_agent_id, children, kind, failure_policy };
        let ghost pv = payload;
        let ghost before = *self;
        let r1 = self.append(payload, IdempotencyKey::new("join_created", join_id.to_string().as_str()));
        let ghost p1 = join_created_payload(join_id, waiter_agent_id, kids, kind, failure_policy);
        let ghost k1 = key_text("join_created"@, uuid_text_spec(join_id.0));
        let ghost reason = "join "@ + uuid_text_spec(join_id.0);
        let ghost p2 = change_from(waiter_agent_id, AgentStatus::WaitingJoin, reason);
        let ghost k2 = key_text("join_wait"@, uuid_text_spec(join_id.0));
        proof {
            before.lemma_outcome_weaken(self, r1, |e: Event| e == pv, p1, k1, None);
        }
        let ghost mid = *self;
        let rec = match r1 {
            Err(e) => {
                assert(before.chain_status(&mid, self, r1, Err(e), p1, k1, waiter_agent_id, p2, k2));
                return Err(e);
            },
            Ok(rec) => rec,
        };
        let from = match self.agent_status(waiter_agent_id) {
            Err(e) => {
                assert(before.chain_status(&mid, self, r1, Err(e), p1, k1, waiter_agent_id, p2, k2));
                return Err(e);
            },
            Ok(f) => f,
        };
        let payload2 = Event::AgentStatusChanged {
            agent_id: waiter_agent_id,
            from,
            to: AgentStatus::WaitingJoin,
            reason: crate::text::join2("join ", join_id.to_string().as_str()),
        };
        let ghost pv2 = payload2;
        let r2 = self.append(payload2, IdempotencyKey::new("join_wait", join_id.to_string().as_str()));
        proof {
            mid.lemma_outcome_weaken(self, r2, |e: Event| e == pv2, p2(from), k2, None);
            assert(before.chain_status(&mid, self, r1, r2, p1, k1, waiter_agent_id, p2, k2));
        }
        match r2 {
            Err(e) => Err(e),
            Ok(_) => Ok((join_id, rec)),
        }
    }

    /// What `maybe_satisfy_join` does to this kernel: nothing when the join
    /// has no outcome yet; otherwise it records the outcome and moves the
    /// waiter to the matching terminal status.
    pub open spec fn satisfy_outcome(
        &self,
        new: &Self,
        r: Result<Option<JoinOutcome>, KernelError>,
        join_id: JoinId,
    ) -> bool {
        match self.first_execution() {
            None => r == Err::<Option<JoinOutcome>, KernelError>(rejected(Rejection::NoExecution))
                && new.same_as(self),
            Some(x) => match expected_join_outcome_spec(self.state_view().executions[x.0], join_id) {
                Err(e) => r == Err::<Option<JoinOutcome>, KernelError>(e) && new.same_as(self),
                Ok(None) => r == Ok::<Option<JoinOutcome>, KernelError>(None) && new.same_as(self),
                Ok(Some(o)) => {
                    let waiter = self.state_view().executions[x.0].joins[join_id.0].waiter_agent_id;
                    exists|mid: Kernel<B>, r1: Result<EventRecord, KernelError>, r2: Result<EventRecord, KernelError>|
                        #[trigger] self.chain_status(
                            &mid,
                            new,
                            r1,
                            r2,
                            join_satisfied_payload(join_id, o),
                            key_text("join_satisfied"@, uuid_text_spec(join_id.0)),
                            waiter,
                            change_from(
                                waiter,
                                outcome_status(o),
                                "join "@ + uuid_text_spec(join_id.0) + " "@ + o.spec_name(),
                            ),
                            key_text("join_waiter_done"@, uuid_text_spec(join_id.0)),
                        ) && match chain_result(r1, r2) {
                            Ok(_) => r == Ok::<Option<JoinOutcome>, KernelError>(Some(o)),
                            Err(e) => r == Err::<Option<JoinOutcome>, KernelError>(e),
                        }
                },
            },
        }
    }

    /// Records a join's outcome once the observed children decide it, and
    /// releases its waiter with the matching status.
    pub fn maybe_satisfy_join(&mut self, join_id: JoinId) -> (r: Result<Option<JoinOutcome>, KernelError>)
        requires
            old(self).wf(),
        ensures
            final(self).wf(),
            old(self).satisfy_outcome(final(self), r, join_id),
    {
        let exec = self.execution()?;
        let outcome = match join_is_satisfied(exec, join_id)? {
            None => {
                return Ok(None);
            },
            Some(o) => o,
        };
        let waiter = match exec.joins.get(join_id.0) {
            Some(j) => {
                assert(exec@.joins[join_id.0] == j@);
                j.waiter_agent_id
            },
            None => {
                return Err(KernelError::invalid(Rejection::UnknownJoin));
            },
        };
        let ghost before = *self;
        proof {
            let x = before.first_execution()->0;
            let key = x.0;
            assert(waiter == before.state_view().executions[key].joins[join_id.0].waiter_agent_id);
        }
        let payload = Event::JoinSatisfied { join_id, outcome };
        let ghost pv = payload;
        let r1 = self.append(payload, IdempotencyKey::new("join_satisfied", join_id.to_string().as_str()));
        let ghost p1 = join_satisfied_payload(join_id, outcome);
        let ghost k1 = key_text("join_satisfied"@, uuid_text_spec(join_id.0));
        let ghost reason = "join "@ + uuid_text_spec(join_id.0) + " "@ + outcome.spec_name();
        let ghost p2 = change_from(waiter, outcome_status(outcome), reason);
        let ghost k2 = key_text("join_waiter_done"@, uuid_text_spec(join_id.0));
        proof {
            before.lemma_outcome_weaken(self, r1, |e: Event| e == pv, p1, k1, None);
        }
        let ghost mid = *self;
        match r1 {
            Err(e) => {
                assert(before.chain_status(&mid, self, r1, Err(e), p1, k1, waiter, p2, k2));
                return Err(e);
            },
            Ok(_) => {},
        }
        let to = match outcome {
            JoinOutcome::Succeeded => AgentStatus::Succeeded,
            JoinOutcome::Failed => AgentStatus::Failed,
            JoinOutcome::Cancelled => AgentStatus::Cancelled,
        };
        let from = match self.agent_status(waiter) {
            Err(e) => {
                assert(before.chain_status(&mid, self, r1, Err(e), p1, k1, waiter, p2, k2));
                return Err(e);
            },
            Ok(f) => f,
        };
        let mut why = crate::text::join3("join ", join_id.to_string().as_str(), " ");
        why.append(outcome.name());
        let payload2 = Event::AgentStatusChanged { agent_id: waiter, from, to, reason: why };
        let ghost pv2 = payload2;
        let r2 = self.append(payload2, IdempotencyKey::new("join_waiter_done", join_id.to_string().as_str()));
        proof {
            mid.lemma_outcome_weaken(self, r2, |e: Event| e == pv2, p2(from), k2, None);
            assert(before.chain_status(&mid, self, r1, r2, p1, k1, waiter, p2, k2));
        }
        match r2 {
            Err(e) => Err(e),
            Ok(_) => Ok(Some(outcome)),
        }
    }

    /// The steps of `observe_join_child` for a terminal child: the record
    /// of its status, then `maybe_satisfy_join`.
    pub open spec fn observe_steps(
        &self,
        mid: &Self,
        new: &Self,
        r1: Result<EventRecord, KernelError>,
        r3: Result<Option<JoinOutcome>, KernelError>,
        r: Result<(), KernelError>,
        join_id: JoinId,
        child_id: AgentId,
        status: AgentStatus,
    ) -> bool {
        &&& self.append_outcome(
            mid,
            r1,
            join_child_payload(join_id, child_id, status),
            key_text("join_child"@, uuid_text_spec(join_id.0) + ":"@ + uuid_text_spec(child_id.0)),
            None,
        )
        &&& match r1 {
            Err(e) => r == Err::<(), KernelError>(e) && new.same_as(mid),
            Ok(_) => mid.satisfy_outcome(new, r3, join_id) && r == unit_of(r3),
        }
    }

    /// Feeds a child's terminal status to a join, then satisfies the join if
    /// that decides it. A child that is not terminal yet changes nothing.
    pub fn observe_join_child(&mut self, join_id: JoinId, child_id: AgentId) -> (r: Result<(), KernelError>)
        requires
            old(self).wf(),
        ensures
            final(self).wf(),
            match old(self).first_execution() {
                None => r == Err::<(), KernelError>(rejected(Rejection::NoExecution)) && final(self).same_as(old(self)),
                Some(x) => {
                    let agents = old(self).state_view().executions[x.0].agents;
                    if !agents.contains_key(child_id.0) {
                        r == Err::<(), KernelError>(rejected(Rejection::UnknownChild)) && final(self).same_as(old(self))
                    } else if !agents[child_id.0].status.is_terminal() {
                        r == Ok::<(), KernelError>(()) && final(self).same_as(old(self))
                    } else {
                        exists|mid: Kernel<B>, r1: Result<EventRecord, KernelError>, r3: Result<Option<JoinOutcome>, KernelError>|
                            #[trigger] old(self).observe_steps(&mid, final(self), r1, r3, r, join_id, child_id, agents[child_id.0].status)
                    }
                },
            },
    {
        let exec = self.execution()?;
        let child_status = match exec.agents.get(child_id.0) {
            Some(c) => c.status,
            None => {
                return Err(KernelError::invalid(Rejection::UnknownChild));
            },
        };
        if !child_status.is_terminal() {
            return Ok(());
        }
        let ghost before = *self;
        let unique = crate::text::join3(join_id.to_string().as_str(), ":", child_id.to_string().as_str());
        let payload = Event::JoinChildTerminal { join_id, child_id, child_status };
        let ghost pv = payload;
        let r1 = self.append(payload, IdempotencyKey::new("join_child", unique.as_str()));
        let ghost p1 = join_child_payload(join_id, child_id, child_status);
        let ghost k1 = key_text("join_child"@, uuid_text_spec(join_id.0) + ":"@ + uuid_text_spec(child_id.0));
        proof {
            before.lemma_outcome_weaken(self, r1, |e: Event| e == pv, p1, k1, None);
        }
        let ghost mid = *self;
        let ghost none_yet: Result<Option<JoinOutcome>, KernelError> = Ok(None);
        match r1 {
            Err(e) => {
                assert(before.observe_steps(&mid, self, r1, none_yet, Err(e), join_id, child_id, child_status));
                return Err(e);
            },
            Ok(_) => {},
        }
        let r3 = self.maybe_satisfy_join(join_id);
        let r = match r3 {
            Err(e) => Err(e),
            Ok(_) => Ok(()),
        };
        assert(before.observe_steps(&mid, self, r1, r3, r, join_id, child_id, child_status));
        r
    }

    /// A barrier of the addressed execution.
    pub open spec fn barrier_of(&self, b: BarrierId) -> Result<BarrierView, KernelError> {
        match self.first_execution() {
            None => Err(rejected(Rejection::NoExecution)),
            Some(x) => if self.state_view().executions[x.0].barriers.contains_key(b.0) {
                Ok(self.state_view().executions[x.0].barriers[b.0])
            } else {
                Err(rejected(Rejection::UnknownBarrier))
            },
        }
    }

    /// The steps of `arrive_barrier`: the arrival, then the satisfaction if
    /// the barrier has enough arrivals and is not satisfied yet.
    pub open spec fn arrive_steps(
        &self,
        mid: &Self,
        new: &Self,
        r1: Result<EventRecord, KernelError>,
        r2: Result<EventRecord, KernelError>,
        r: Result<(), KernelError>,
        barrier_id: BarrierId,
        agent_id: AgentId,
    ) -> bool {
        &&& self.append_outcome(
            mid,
            r1,
            barrier_arrived_payload(barrier_id, agent_id),
            key_text("barrier_arrive"@, uuid_text_spec(barrier_id.0) + ":"@ + uuid_text_spec(agent_id.0)),
            None,
        )
        &&& match r1 {
            Err(e) => r == Err::<(), KernelError>(e) && new.same_as(mid),
            Ok(_) => match mid.barrier_of(barrier_id) {
                Err(e) => r == Err::<(), KernelError>(e) && new.same_as(mid),
                Ok(b) => if (b.arrivals.len() as u32) >= b.expected_arrivals && !b.satisfied {
                    mid.append_outcome(
                        new,
                        r2,
                        barrier_satisfied_payload(barrier_id),
                        key_text("barrier_satisfied"@, uuid_text_spec(barrier_id.0)),
                        None,
                    ) && r == unit_of(r2)
                } else {
                    r == Ok::<(), KernelError>(()) && new.same_as(mid)
                },
            },
        }
    }

    /// Records an agent's arrival at a barrier, and the barrier's
    /// satisfaction once enough agents arrived.
    pub fn arrive_barrier(&mut self, barrier_id: BarrierId, agent_id: AgentId) -> (r: Result<(), KernelError>)
        requires
            old(self).wf(),
        ensures
            final(self).wf(),
            exists|mid: Kernel<B>, r1: Result<EventRecord, KernelError>, r2: Result<EventRecord, KernelError>|
                #[trigger] old(self).arrive_steps(&mid, final(self), r1, r2, r, barrier_id, agent_id),
    {
        let ghost before = *self;
        let unique = crate::text::join3(barrier_id.to_string().as_str(), ":", agent_id.to_string().as_str());
        let payload = Event::BarrierArrived { barrier_id, agent_id };
        let ghost pv = payload;
        let r1 = self.append(payload, IdempotencyKey::new("barrier_arrive", unique.as_str()));
        let ghost p1 = barrier_arrived_payload(barrier_id, agent_id);
        let ghost k1 = key_text("barrier_arrive"@, uuid_text_spec(barrier_id.0) + ":"@ + uuid_text_spec(agent_id.0));
        proof {
            before.lemma_outcome_weaken(self, r1, |e: Event| e == pv, p1, k1, None);
        }
        let ghost mid = *self;
        let ghost no_second: Result<EventRecord, KernelError> = Ok(arbitrary());
        match r1 {
            Err(e) => {
                assert(before.arrive_steps(&mid, self, r1, no_second, Err(e), barrier_id, agent_id));
                return Err(e);
            },
            Ok(_) => {},
        }
        let exec = match self.execution() {
            Err(e) => {
                assert(before.arrive_steps(&mid, self, r1, no_second, Err(e), barrier_id, agent_id));
                return Err(e);
            },
            Ok(exec) => exec,
        };
        let barrier = match exec.barriers.get(barrier_id.0) {
            Some(b) => b,
            None => {
                let e = KernelError::invalid(Rejection::UnknownBarrier);
                assert(before.arrive_steps(&mid, self, r1, no_second, Err(e), barrier_id, agent_id));
                return Err(e);
            },
        };
        if barrier.arrivals.len() as u32 >= barrier.expected_arrivals && !barrier.satisfied {
            let payload2 = Event::BarrierSatisfied { barrier_id };
            let ghost pv2 = payload2;
            let r2 = self.append(payload2, IdempotencyKey::new("barrier_satisfied", barrier_id.to_string().as_str()));
            proof {
                mid.lemma_outcome_weaken(self, r2, |e: Event| e == pv2, barrier_satisfied_payload(barrier_id), key_text("barrier_satisfied"@, uuid_text_spec(barrier_id.0)), None);
            }
            let r = match r2 {
                Err(e) => Err(e),
                Ok(_) => Ok(()),
            };
            assert(before.arrive_steps(&mid, self, r1, r2, r, barrier_id, agent_id));
            return r;
        }
        assert(before.arrive_steps(&mid, self, r1, no_second, Ok(()), barrier_id, agent_id));
        Ok(())
    }

    /// Commands are idempotent: once an append under a key has written a
    /// record with a new event id, appending again under that key (with any
    /// payload) writes nothing, changes nothing, and answers the same record.
    pub proof fn lemma_retry_answers_first_record(
        &self,
        mid: &Self,
        new: &Self,
        first: EventRecord,
        again: Result<EventRecord, KernelError>,
        p1: spec_fn(Event) -> bool,
        p2: spec_fn(Event) -> bool,
        key: Seq<char>,
        c1: Option<EventId>,
        c2: Option<EventId>,
    )
        requires
            self.wf(),
            mid.wf(),
            self.bound_record(key) is None,
            self.append_outcome(mid, Ok(first), p1, key, c1),
            !self.state_view().seen_event_ids.contains(mid.log().last().event_id.0),
            mid.append_outcome(new, again, p2, key, c2),
        ensures
            again matches Ok(rec) && same_record(rec, mid.log().last()),
            new.same_as(mid),
    {
        let rec = mid.log().last();
        let c = mid.canonical_log().last();
        lemma_replay_indexes_log(self.log(), self.canonical_log(), self.state_view());
        assert(!self.state_view().idempotency_index.contains_key(key)) by {
            if self.state_view().idempotency_index.contains_key(key) {
                let id = self.state_view().idempotency_index[key];
                let w = choose|w: int| 0 <= w < self.log().len() && #[trigger] self.log()[w].event_id == id;
                if find_event(self.log(), id, 0) is None {
                    lemma_find_event_absent_contra(self.log(), id, 0, w);
                }
            }
        }
        assert(reduce_spec(self.state_view(), rec, c) == Ok::<KernelView, KernelError>(mid.state_view()));
        assert(mid.state_view().idempotency_index[key] == rec.event_id);
        assert forall|j: int| 0 <= j < mid.log().len() - 1 implies #[trigger] mid.log()[j].event_id != rec.event_id by {
            assert(mid.log()[j] == self.log()[j]);
            assert(self.state_view().seen_event_ids.contains(self.log()[j].event_id.0));
        }
        lemma_find_event_last(mid.log(), rec.event_id, 0);
    }
}

} // verus!
