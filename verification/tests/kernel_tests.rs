use codex_agent_kernel::error::{KernelError, Rejection};
use codex_agent_kernel::event::{
    AgentStatus, Event, EventRecord, JoinFailurePolicy, JoinKind, JoinOutcome, NetworkScope,
    OperationStatus, StreamKind,
};
use codex_agent_kernel::idmap::IdMap;
use codex_agent_kernel::ids::{AgentId, AttemptId, ContentHash, EventId, IdempotencyKey, LeaseOwnerId};
use codex_agent_kernel::kernel::{Kernel, LogBackend};
use codex_agent_kernel::process::ProcessLiveness;
use codex_agent_kernel::reducer::{legal_agent_transition, reduce};
use codex_agent_kernel::replay::{fork_from, prefix_hashes, replay_until};
use codex_agent_kernel::runtime::{launch_failed, lease_for_launch, recover_started, recovery_candidates};
use codex_agent_kernel::state::{ExecutionState, KernelState, OutputChunk};

/// An in-memory log: records serialize to their `Debug` text.
#[derive(Default)]
struct MemLog {
    frames: Vec<Vec<u8>>,
}

impl LogBackend for MemLog {
    fn record_bytes(&self, record: &EventRecord) -> Vec<u8> {
        format!("{:?}", record).into_bytes()
    }

    fn state_bytes(&self, exec: &ExecutionState) -> Result<Vec<u8>, KernelError> {
        Ok(format!("{:?}", exec).into_bytes())
    }

    fn business_bytes(&self, exec: &ExecutionState) -> Result<Vec<u8>, KernelError> {
        Ok(format!(
            "{:?}|{:?}|{:?}|{:?}|{:?}|{:?}|{:?}|{:?}|{:?}",
            exec.goals,
            exec.agents,
            exec.tasks,
            exec.operations,
            exec.joins,
            exec.barriers,
            exec.capabilities,
            exec.snapshots,
            exec.model_turns
        )
        .into_bytes())
    }

    fn write_frame(&mut self, frame: &[u8]) -> Result<(), KernelError> {
        self.frames.push(frame.to_vec());
        Ok(())
    }
}

/// A log whose durable writes fail.
struct BrokenLog;

impl LogBackend for BrokenLog {
    fn record_bytes(&self, record: &EventRecord) -> Vec<u8> {
        format!("{:?}", record).into_bytes()
    }

    fn state_bytes(&self, exec: &ExecutionState) -> Result<Vec<u8>, KernelError> {
        Ok(format!("{:?}", exec).into_bytes())
    }

    fn business_bytes(&self, exec: &ExecutionState) -> Result<Vec<u8>, KernelError> {
        Ok(format!("{:?}", exec.goals).into_bytes())
    }

    fn write_frame(&mut self, _frame: &[u8]) -> Result<(), KernelError> {
        Err(KernelError::Io("disk full".to_string()))
    }
}

fn kernel() -> Kernel<MemLog> {
    Kernel::from_log(MemLog::default(), Vec::new()).unwrap()
}

fn reopen(k: &Kernel<MemLog>) -> Kernel<MemLog> {
    Kernel::from_log(MemLog::default(), k.records().clone()).unwrap()
}

fn canonical(k: &Kernel<MemLog>, rec: &EventRecord) -> Vec<u8> {
    let mut blank = rec.clone();
    blank.checksum = String::new();
    k.backend().record_bytes(&blank)
}

#[test]
fn duplicate_event_id_is_idempotent() {
    let mut k = kernel();
    let created = k.create_execution("dup").unwrap();
    let bytes = canonical(&k, &created);
    let mut state = KernelState::new();
    reduce(&mut state, &created, &bytes).unwrap();
    reduce(&mut state, &created, &bytes).unwrap();
    assert_eq!(state.executions.len(), 1);
}

#[test]
fn committed_operation_cannot_return_to_running() {
    let mut k = kernel();
    k.create_execution("op").unwrap();
    let (goal, _) = k.create_goal("g", vec![]).unwrap();
    let (agent, _) = k.spawn_agent(None, goal, "work", None, None).unwrap();
    k.start_agent(agent).unwrap();
    let (op, attempt, _) = k
        .create_operation(agent, vec!["/bin/true".to_string()], "/", None)
        .unwrap();
    let owner = LeaseOwnerId::new();
    let gen = k.lease_operation(op, attempt, owner, "local", 1000, None).unwrap();
    k.process_started(op, attempt, 1, "1:0").unwrap();
    k.process_exited(op, attempt, 0, None, false).unwrap();
    k.commit_operation(op, attempt, gen, 0).unwrap();
    let err = k
        .append(
            Event::ProcessStarted {
                operation_id: op,
                attempt_id: attempt,
                pid: 2,
                start_key: "2:0".to_string(),
            },
            IdempotencyKey::new("proc_started_again", op.to_string().as_str()),
        )
        .unwrap_err();
    assert!(
        err.to_string().contains("cannot return to RUNNING")
            || err.to_string().contains("invalid")
            || err.to_string().contains("ProcessStarted")
    );
}

#[test]
fn stale_lease_cannot_commit() {
    let mut k = kernel();
    k.create_execution("lease").unwrap();
    let (goal, _) = k.create_goal("g", vec![]).unwrap();
    let (agent, _) = k.spawn_agent(None, goal, "work", None, None).unwrap();
    k.start_agent(agent).unwrap();
    let (op, attempt, _) = k
        .create_operation(agent, vec!["/bin/true".to_string()], "/", None)
        .unwrap();
    let owner_a = LeaseOwnerId::new();
    let owner_b = LeaseOwnerId::new();
    let gen41 = k.lease_operation(op, attempt, owner_a, "a", 1, None).unwrap();
    assert_eq!(gen41, 1);
    k.expire_lease(op, gen41).unwrap();
    let attempt2 = AttemptId::new();
    let gen42 = k.lease_operation(op, attempt2, owner_b, "b", 1000, None).unwrap();
    assert_eq!(gen42, 2);
    k.process_started(op, attempt2, 9, "9:0").unwrap();
    k.process_exited(op, attempt2, 0, None, false).unwrap();
    let err = k.commit_operation(op, attempt, gen41, 0).unwrap_err();
    match err {
        KernelError::StaleLease { current, used, .. } => {
            assert_eq!(current, 2);
            assert_eq!(used, 1);
        }
        other => panic!("expected stale lease, got {}", other.to_string()),
    }
    k.commit_operation(op, attempt2, gen42, 0).unwrap();
    assert_eq!(k.operation_status(op).unwrap(), OperationStatus::Succeeded);
}

#[test]
fn model_turn_does_not_complete_goal() {
    let mut k = kernel();
    k.create_execution("goal").unwrap();
    let agent_placeholder = AgentId::new();
    let (goal, _) = k.create_goal("ship it", vec![agent_placeholder]).unwrap();
    let (agent, _) = k.spawn_agent(None, goal, "work", None, None).unwrap();
    k.define_acceptance(goal, vec![]).unwrap();
    k.start_agent(agent).unwrap();
    k.finish_model_turn(agent, "I am done").unwrap();
    let err = k.try_complete_goal(goal).unwrap_err();
    assert!(err.to_string().contains("preconditions"));
}

#[test]
fn two_agent_join_all_waits_for_both() {
    let mut k = kernel();
    k.create_execution("join").unwrap();
    let (goal, _) = k.create_goal("parallel", vec![]).unwrap();
    let (parent, _) = k.spawn_agent(None, goal, "parent", None, None).unwrap();
    let (a, _) = k.spawn_agent(Some(parent), goal, "A", None, None).unwrap();
    let (b, _) = k.spawn_agent(Some(parent), goal, "B", None, None).unwrap();
    k.start_agent(parent).unwrap();
    k.start_agent(a).unwrap();
    k.start_agent(b).unwrap();
    let (join, _) = k
        .create_join(parent, vec![a, b], JoinKind::All, JoinFailurePolicy::WaitAll)
        .unwrap();
    k.complete_agent(a).unwrap();
    k.observe_join_child(join, a).unwrap();
    assert!(k.execution().unwrap().joins.get(join.0).unwrap().outcome.is_none());
    k.complete_agent(b).unwrap();
    k.observe_join_child(join, b).unwrap();
    assert_eq!(
        k.execution().unwrap().joins.get(join.0).unwrap().outcome,
        Some(JoinOutcome::Succeeded)
    );
    assert_eq!(
        k.execution().unwrap().agents.get(parent.0).unwrap().status,
        AgentStatus::Succeeded
    );
}

#[test]
fn join_all_fails_if_child_fails() {
    let mut k = kernel();
    k.create_execution("join-fail").unwrap();
    let (goal, _) = k.create_goal("parallel", vec![]).unwrap();
    let (parent, _) = k.spawn_agent(None, goal, "parent", None, None).unwrap();
    let (a, _) = k.spawn_agent(Some(parent), goal, "A", None, None).unwrap();
    let (b, _) = k.spawn_agent(Some(parent), goal, "B", None, None).unwrap();
    k.start_agent(parent).unwrap();
    k.start_agent(a).unwrap();
    k.start_agent(b).unwrap();
    let (join, _) = k
        .create_join(parent, vec![a, b], JoinKind::All, JoinFailurePolicy::WaitAll)
        .unwrap();
    k.complete_agent(a).unwrap();
    k.fail_agent(b, "boom").unwrap();
    k.observe_join_child(join, a).unwrap();
    k.observe_join_child(join, b).unwrap();
    assert_eq!(
        k.execution().unwrap().joins.get(join.0).unwrap().outcome,
        Some(JoinOutcome::Failed)
    );
}

#[test]
fn join_terminal_event_cannot_forge_child_state() {
    let mut k = kernel();
    k.create_execution("join-forge").unwrap();
    let (goal, _) = k.create_goal("parallel", vec![]).unwrap();
    let (parent, _) = k.spawn_agent(None, goal, "parent", None, None).unwrap();
    let (a, _) = k.spawn_agent(Some(parent), goal, "A", None, None).unwrap();
    k.start_agent(parent).unwrap();
    k.start_agent(a).unwrap();
    let (join, _) = k
        .create_join(parent, vec![a], JoinKind::All, JoinFailurePolicy::WaitAll)
        .unwrap();
    let running_err = k
        .append(
            Event::JoinChildTerminal { join_id: join, child_id: a, child_status: AgentStatus::Succeeded },
            IdempotencyKey::new("fake_join_running", format!("{}:{}", join.to_string(), a.to_string()).as_str()),
        )
        .unwrap_err();
    assert!(
        running_err.to_string().contains("still running"),
        "unexpected error: {}",
        running_err.to_string()
    );

    k.complete_agent(a).unwrap();
    let mismatch_err = k
        .append(
            Event::JoinChildTerminal { join_id: join, child_id: a, child_status: AgentStatus::Failed },
            IdempotencyKey::new(
                "fake_join_status",
                format!("{}:{}:failed", join.to_string(), a.to_string()).as_str(),
            ),
        )
        .unwrap_err();
    assert!(
        mismatch_err.to_string().contains("does not match"),
        "unexpected error: {}",
        mismatch_err.to_string()
    );
    assert!(k.execution().unwrap().joins.get(join.0).unwrap().observed.is_empty());
}

#[test]
fn replay_hash_is_deterministic() {
    let mut k = kernel();
    k.create_execution("hash").unwrap();
    let (goal, _) = k.create_goal("g", vec![]).unwrap();
    let (agent, _) = k.spawn_agent(None, goal, "work", None, None).unwrap();
    k.start_agent(agent).unwrap();
    k.complete_agent(agent).unwrap();
    let (h1, b1) = k.hashes().unwrap();
    let k2 = reopen(&k);
    let (h2, b2) = k2.hashes().unwrap();
    assert_eq!(h1, h2);
    assert_eq!(b1, b2);
}

#[test]
fn stdout_and_stderr_chunks_with_same_offset_and_len_are_both_recorded() {
    let mut k = kernel();
    k.create_execution("streams").unwrap();
    let (goal, _) = k.create_goal("g", vec![]).unwrap();
    let (agent, _) = k.spawn_agent(None, goal, "work", None, None).unwrap();
    k.start_agent(agent).unwrap();
    let (op, attempt, _) = k
        .create_operation(agent, vec!["/bin/true".to_string()], "/", None)
        .unwrap();
    let owner = LeaseOwnerId::new();
    k.lease_operation(op, attempt, owner, "local", 1000, None).unwrap();
    k.process_started(op, attempt, 1, "1:0").unwrap();

    let stdout = b"hello!!";
    let stderr = b"error!!";
    let stdout_rec = k.process_output(op, attempt, StreamKind::Stdout, 0, stdout).unwrap();
    let stderr_rec = k.process_output(op, attempt, StreamKind::Stderr, 0, stderr).unwrap();
    assert_ne!(stdout_rec.event_id, stderr_rec.event_id);
    assert_ne!(stdout_rec.idempotency_key, stderr_rec.idempotency_key);
    assert_eq!(k.process_output(op, attempt, StreamKind::Stdout, 0, stdout).unwrap(), stdout_rec);

    let chunks = &k
        .execution()
        .unwrap()
        .operations
        .get(op.0)
        .unwrap()
        .attempts
        .get(attempt.0)
        .unwrap()
        .output_chunks;
    assert_eq!(
        chunks,
        &vec![
            OutputChunk {
                stream: StreamKind::Stdout,
                offset: 0,
                byte_len: stdout.len() as u64,
                chunk_hash: ContentHash::of_bytes(stdout),
            },
            OutputChunk {
                stream: StreamKind::Stderr,
                offset: 0,
                byte_len: stderr.len() as u64,
                chunk_hash: ContentHash::of_bytes(stderr),
            },
        ]
    );

    let output_streams: Vec<StreamKind> = k
        .records()
        .iter()
        .filter_map(|record| match &record.payload {
            Event::ProcessOutputAvailable { stream, .. } => Some(*stream),
            _ => None,
        })
        .collect();
    assert_eq!(output_streams, vec![StreamKind::Stdout, StreamKind::Stderr]);
}

#[test]
fn idempotent_append_round_trip_after_clean_open() {
    let mut k = kernel();
    k.create_execution("a").unwrap();
    k.append(
        Event::ExecutionCreated { created_at_ms: 0, note: "a".to_string() },
        IdempotencyKey::new("execution_created", "a"),
    )
    .unwrap();
    assert_eq!(k.records().len(), 1);
}

#[test]
fn crash_restart_replays_same_hash() {
    let mut k = kernel();
    k.create_execution("crash").unwrap();
    let (goal, _) = k.create_goal("g", vec![]).unwrap();
    let (agent, _) = k.spawn_agent(None, goal, "work", None, None).unwrap();
    k.start_agent(agent).unwrap();
    k.complete_agent(agent).unwrap();
    let (h1, b1) = k.hashes().unwrap();
    let k2 = reopen(&k);
    drop(k);
    let (h2, b2) = k2.hashes().unwrap();
    assert_eq!(h1, h2);
    assert_eq!(b1, b2);
}

fn started_kernel(note: &str) -> Kernel<MemLog> {
    let mut k = kernel();
    k.create_execution(note).unwrap();
    let (goal, _) = k.create_goal("g", vec![]).unwrap();
    let (agent, _) = k.spawn_agent(None, goal, "work", None, None).unwrap();
    k.start_agent(agent).unwrap();
    k
}

#[test]
fn replay_until_matches_prefix_hash() {
    let k = started_kernel("replay");
    let records = k.records().clone();
    let hashes = prefix_hashes(&records, k.backend()).unwrap();
    let mid = records[2].event_id;
    let report = replay_until(&records, Some(mid), k.backend()).unwrap();
    assert_eq!(report.prefix_hashes.last().unwrap().1, hashes[2].1.to_hex());
}

#[test]
fn fork_preserves_business_hash() {
    let k = started_kernel("fork");
    let records = k.records().clone();
    let from = records.last().unwrap().event_id;
    let out = fork_from(&records, k.backend(), MemLog::default(), from).unwrap();
    assert_eq!(out.source_business_hash, out.prefix_business_hash);
}

#[test]
fn unknown_replay_cutoff_returns_event_not_found() {
    let k = started_kernel("replay-missing");
    let records = k.records().clone();
    let missing = EventId::new();
    match replay_until(&records, Some(missing), k.backend()) {
        Err(KernelError::EventNotFound(id)) => assert_eq!(id, missing),
        Err(other) => panic!("expected EventNotFound, got {}", other.to_string()),
        Ok(report) => panic!("unknown cutoff must not replay the whole log ({} events)", report.events),
    }
    let full = replay_until(&records, None, k.backend()).unwrap();
    assert!(full.events > 0);
}

#[test]
fn lost_process_after_restart_is_not_silently_dropped() {
    let mut k = kernel();
    k.create_execution("lost-proc").unwrap();
    let (goal, _) = k.create_goal("g", vec![]).unwrap();
    let (agent, _) = k.spawn_agent(None, goal, "sleep", None, None).unwrap();
    let (op, attempt, _) = k
        .create_operation(agent, vec!["/bin/sleep".to_string(), "30".to_string()], "/tmp", None)
        .unwrap();
    let gen = k.lease_operation(op, attempt, LeaseOwnerId::new(), "local", 60_000, None).unwrap();
    k.process_started(op, attempt, 999_999, "999999:0").unwrap();
    let mut k2 = reopen(&k);
    let mut live: IdMap<u64> = IdMap::new();
    let candidates = recovery_candidates(k2.execution().unwrap(), &live);
    assert_eq!(candidates.len(), 1);
    let watch = recover_started(&mut k2, &mut live, &candidates[0], ProcessLiveness::Dead).unwrap();
    assert!(!watch);
    let op_state = k2.execution().unwrap().operations.get(op.0).cloned().unwrap();
    assert_eq!(op_state.status, OperationStatus::Failed);
    assert_eq!(op_state.committed_exit_code, None, "dead pid must not invent exit -1");
    let _ = gen;
}

#[test]
fn capability_cannot_exceed_parent() {
    let mut k = kernel();
    k.create_execution("cap").unwrap();
    let (goal, _) = k.create_goal("g", vec![]).unwrap();
    let (parent, _) = k.spawn_agent(None, goal, "p", None, None).unwrap();
    let (cap, _) = k
        .grant_capability(
            parent,
            None,
            "/repo",
            NetworkScope::Deny,
            vec!["/bin/echo".to_string()],
            "user-approved:echo",
        )
        .unwrap();
    k.append(
        Event::AgentSpawned {
            agent_id: AgentId::new(),
            parent_agent_id: Some(parent),
            goal_id: goal,
            task: "child".to_string(),
            snapshot_id: None,
            capability_id: Some(cap),
        },
        IdempotencyKey::new("x", "1"),
    )
    .unwrap();
    let (wide, _) = k
        .grant_capability(
            parent,
            Some(cap),
            "/repo",
            NetworkScope::Allow,
            vec!["/bin/echo".to_string(), "/bin/rm".to_string()],
            "should-fail",
        )
        .unwrap();
    let err = k.spawn_agent(Some(parent), goal, "evil", None, Some(wide)).unwrap_err();
    assert!(err.to_string().contains("capability"));
}

#[test]
fn spawn_failure_does_not_leave_operation_leased() {
    let mut k = kernel();
    k.create_execution("spawn-fail").unwrap();
    let (goal, _) = k.create_goal("g", vec![]).unwrap();
    let (agent, _) = k.spawn_agent(None, goal, "work", None, None).unwrap();
    let (op, _, _) = k
        .create_operation(agent, vec!["/definitely-not-a-cak-binary".to_string()], "/tmp", None)
        .unwrap();
    let (spec, gen) = lease_for_launch(&mut k, op, LeaseOwnerId::new(), "local").unwrap();
    assert_eq!(k.operation_status(op).unwrap(), OperationStatus::Leased);
    launch_failed(&mut k, spec.operation_id, spec.attempt_id, gen, "No such file or directory").unwrap();
    let status = k.operation_status(op).unwrap();
    assert_eq!(status, OperationStatus::Failed);
    assert_ne!(status, OperationStatus::Leased);
}

#[test]
fn retry_of_a_command_answers_the_first_record() {
    let mut k = kernel();
    let first = k.create_execution("again").unwrap();
    let second = k.create_execution("again").unwrap();
    assert_eq!(first, second);
    assert_eq!(k.records().len(), 1);
}

#[test]
fn commands_without_an_execution_are_refused() {
    let mut k = kernel();
    let err = k.create_goal("g", vec![]).unwrap_err();
    match err {
        KernelError::InvalidTransition(Rejection::NoExecution) => {}
        other => panic!("unexpected {}", other.to_string()),
    }
    assert_eq!(k.records().len(), 0);
}

#[test]
fn failed_write_leaves_kernel_unchanged() {
    let mut k = Kernel::from_log(BrokenLog, Vec::new()).unwrap();
    let err = k.create_execution("x").unwrap_err();
    assert_eq!(err.to_string(), "io error: disk full");
    assert_eq!(k.records().len(), 0);
    assert!(k.execution_id().is_err());
}

#[test]
fn state_is_replay_of_the_records() {
    let k = started_kernel("replay-state");
    let k2 = reopen(&k);
    assert_eq!(k.state(), k2.state());
    assert_eq!(k.records().len(), 5);
    let seqs: Vec<u64> = k.records().iter().map(|r| r.seq).collect();
    assert_eq!(seqs, vec![1, 2, 3, 4, 5]);
}

#[test]
fn second_lease_generation_follows_the_first() {
    let mut k = started_kernel("gens");
    let agent = k.execution().unwrap().agents.entry_at(0).1.id;
    let (op, attempt, _) = k.create_operation(agent, vec!["echo".to_string()], "/", None).unwrap();
    let g1 = k.lease_operation(op, attempt, LeaseOwnerId::new(), "a", 10, None).unwrap();
    assert!(k.lease_operation(op, attempt, LeaseOwnerId::new(), "b", 10, None).is_err());
    k.expire_lease(op, g1).unwrap();
    let g2 = k.lease_operation(op, attempt, LeaseOwnerId::new(), "b", 10, None).unwrap();
    assert_eq!((g1, g2), (1, 2));
}

#[test]
fn reused_key_with_a_new_event_is_a_conflict() {
    let mut k = kernel();
    let created = k.create_execution("conflict").unwrap();
    let bytes = canonical(&k, &created);
    let mut state = KernelState::new();
    reduce(&mut state, &created, &bytes).unwrap();
    let mut other = created.clone();
    other.event_id = EventId::new();
    other.checksum = String::new();
    let c2 = canonical(&k, &other);
    let other = other.with_checksum(&c2);
    match reduce(&mut state, &other, &c2) {
        Err(KernelError::IdempotencyConflict { existing, new_event, .. }) => {
            assert_eq!(existing, created.event_id);
            assert_eq!(new_event, other.event_id);
        }
        _ => panic!("expected an idempotency conflict"),
    }
    assert_eq!(state.executions.len(), 1);
}

#[test]
fn bad_checksum_is_refused() {
    let mut k = kernel();
    let mut created = k.create_execution("sum").unwrap();
    let bytes = canonical(&k, &created);
    created.checksum = "00".repeat(32);
    let mut state = KernelState::new();
    match reduce(&mut state, &created, &bytes) {
        Err(KernelError::ChecksumMismatch) => {}
        _ => panic!("expected a checksum mismatch"),
    }
    assert_eq!(state.executions.len(), 0);
}

#[test]
fn process_exit_alone_does_not_succeed_an_operation() {
    let mut k = started_kernel("exit-only");
    let agent = k.execution().unwrap().agents.entry_at(0).1.id;
    let (op, attempt, _) = k.create_operation(agent, vec!["echo".to_string()], "/", None).unwrap();
    let gen = k.lease_operation(op, attempt, LeaseOwnerId::new(), "local", 1000, None).unwrap();
    k.process_started(op, attempt, 5, "5:1").unwrap();
    k.process_exited(op, attempt, 0, None, false).unwrap();
    assert_eq!(k.operation_status(op).unwrap(), OperationStatus::Committing);
    k.commit_operation(op, attempt, gen, 0).unwrap();
    assert_eq!(k.operation_status(op).unwrap(), OperationStatus::Succeeded);
}

#[test]
fn goal_completes_when_acceptance_holds() {
    let mut k = kernel();
    k.create_execution("accept").unwrap();
    let (goal, _) = k.create_goal("ship", vec![]).unwrap();
    let (agent, _) = k.spawn_agent(None, goal, "work", None, None).unwrap();
    k.define_acceptance(goal, vec![]).unwrap();
    k.start_agent(agent).unwrap();
    assert!(k.try_complete_goal(goal).is_err());
    k.complete_agent(agent).unwrap();
    k.try_complete_goal(goal).unwrap();
    let g = k.execution().unwrap().goals.get(goal.0).unwrap();
    assert_eq!(g.status, codex_agent_kernel::event::GoalStatus::Completed);
}

#[test]
fn barrier_is_satisfied_by_its_expected_arrivals() {
    let mut k = kernel();
    k.create_execution("barrier").unwrap();
    let (goal, _) = k.create_goal("g", vec![]).unwrap();
    let (a, _) = k.spawn_agent(None, goal, "a", None, None).unwrap();
    let (b, _) = k.spawn_agent(None, goal, "b", None, None).unwrap();
    let (barrier, _) = k.create_barrier(2).unwrap();
    k.arrive_barrier(barrier, a).unwrap();
    assert!(!k.execution().unwrap().barriers.get(barrier.0).unwrap().satisfied);
    k.arrive_barrier(barrier, b).unwrap();
    assert!(k.execution().unwrap().barriers.get(barrier.0).unwrap().satisfied);
}

#[test]
fn tree_and_trace_render_the_state() {
    let mut k = kernel();
    k.create_execution("view").unwrap();
    let (goal, _) = k.create_goal("ship", vec![]).unwrap();
    let (agent, _) = k.spawn_agent(None, goal, "work", None, None).unwrap();
    let tree = codex_agent_kernel::viewer::render_tree(k.execution().unwrap());
    let g = goal.to_string();
    let a = agent.to_string();
    assert_eq!(
        tree,
        format!("Goal {} [ACTIVE]\n  ship\n├── Agent {} [RUNNABLE]\n│     work\n", &g[..8], &a[..8])
    );
    let trace = codex_agent_kernel::viewer::render_trace(k.records(), None).unwrap();
    let first = trace.lines().next().unwrap().to_string();
    assert_eq!(first, format!("#1    {}  execution created (view)", k.records()[0].event_id.to_string()));
    assert_eq!(trace.lines().count(), 4);
    let cut = codex_agent_kernel::viewer::render_trace(k.records(), Some(k.records()[1].event_id)).unwrap();
    assert_eq!(cut.lines().count(), 2);
}

#[test]
fn execution_can_be_changed_in_place() {
    let k = started_kernel("in-place");
    let id = k.execution_id().unwrap();
    let mut st = k.state().clone();
    st.execution_mut(id).unwrap().note = "changed".to_string();
    assert_eq!(st.execution(id).unwrap().note, "changed");
    assert_eq!(k.state().execution(id).unwrap().note, "in-place");
    assert!(st.execution_mut(codex_agent_kernel::ids::ExecutionId::new()).is_none());
}

#[test]
fn id_map_keeps_keys_in_order() {
    let mut m: IdMap<&str> = IdMap::new();
    m.insert(30, "c");
    m.insert(10, "a");
    m.insert(20, "b");
    m.insert(10, "A");
    assert_eq!(m.len(), 3);
    let keys: Vec<u128> = (0..m.len()).map(|i| *m.entry_at(i).0).collect();
    assert_eq!(keys, vec![10, 20, 30]);
    assert_eq!(m.get(10), Some(&"A"));
    *m.get_mut(20).unwrap() = "B";
    assert_eq!(m.get(20), Some(&"B"));
    assert!(m.get_mut(40).is_none());
    assert_eq!(m.take(30), Some("c"));
    assert_eq!(m.take(30), None);
    assert!(!m.contains_key(30));
    assert_eq!(m.position(20), Some(1));
}

#[test]
fn agent_waiting_states_reach_each_other() {
    assert!(legal_agent_transition(AgentStatus::Created, AgentStatus::Runnable));
    assert!(legal_agent_transition(AgentStatus::Runnable, AgentStatus::Running));
    assert!(legal_agent_transition(AgentStatus::Running, AgentStatus::WaitingJoin));
    assert!(legal_agent_transition(AgentStatus::WaitingJoin, AgentStatus::Running));
    assert!(legal_agent_transition(AgentStatus::WaitingJoin, AgentStatus::WaitingExternal));
    assert!(legal_agent_transition(AgentStatus::WaitingExternal, AgentStatus::WaitingJoin));
    assert!(legal_agent_transition(AgentStatus::WaitingExternal, AgentStatus::Running));
    assert!(legal_agent_transition(AgentStatus::Running, AgentStatus::Succeeded));
    assert!(legal_agent_transition(AgentStatus::Running, AgentStatus::Interrupted));
    assert!(legal_agent_transition(AgentStatus::Running, AgentStatus::Orphaned));
    assert!(legal_agent_transition(AgentStatus::Interrupted, AgentStatus::Runnable));
    assert!(legal_agent_transition(AgentStatus::Interrupted, AgentStatus::Cancelled));
    assert!(legal_agent_transition(AgentStatus::Cancelled, AgentStatus::Cancelled));
    assert!(!legal_agent_transition(AgentStatus::Succeeded, AgentStatus::Running));
    assert!(!legal_agent_transition(AgentStatus::Failed, AgentStatus::Succeeded));
}

#[test]
fn empty_log_has_no_prefix_hashes_and_no_report() {
    let log = MemLog::default();
    assert!(prefix_hashes(&[], &log).unwrap().is_empty());
    match replay_until(&[], None, &log) {
        Err(KernelError::InvalidTransition(Rejection::EmptyLog)) => {}
        other => panic!("expected an empty-log refusal, got {:?}", other.err()),
    }
}
