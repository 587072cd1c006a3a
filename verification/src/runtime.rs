//! The decisions of the runtime loop: what each process report appends, what
//! a restart does with operations whose processes may still be running, and
//! how an operation is leased for launch. The loop itself, the process
//! supervisor and the stores live with the caller.
use vstd::prelude::*;
use vstd::string::StringExecFns;

use crate::error::{rejected, KernelError, Rejection};
use crate::event::{Event, EventRecord, OperationStatus};
use crate::idmap::IdMap;
use crate::ids::{uuid_text_spec, AttemptId, IdempotencyKey, LeaseOwnerId, OperationId};
use crate::kernel::{
    committed_payload, key_text, process_exited_payload, process_output_payload,
    process_started_payload, unit_of, Kernel, LogBackend,
};
use crate::process::{LaunchSpec, ProcessLiveness, ProcessReport};
use crate::scheduler::ordered_operations;
use crate::state::{opt_text, AttemptState, ExecutionState, OperationView};
use crate::text::decimal_text;

verus! {

/// Payload of a failed operation.
pub open spec fn op_failed_payload(
    op: OperationId,
    att: AttemptId,
    gen: Option<u64>,
    why: Seq<char>,
) -> spec_fn(Event) -> bool {
    |e: Event|
        e matches Event::OperationFailed { operation_id, attempt_id, lease_generation, reason }
            && operation_id == op && attempt_id == att && lease_generation == gen && reason@ == why
}

/// Payload of an operation whose outcome could not be established.
pub open spec fn op_unresolved_payload(op: OperationId, att: AttemptId, why: Seq<char>) -> spec_fn(
    Event,
) -> bool {
    |e: Event|
        e matches Event::OperationUnresolved { operation_id, attempt_id, reason } && operation_id == op
            && attempt_id == att && reason@ == why
}

/// The key of an operation's failure.
pub open spec fn failed_key(op: OperationId) -> Seq<char> {
    key_text("op_failed"@, uuid_text_spec(op.0))
}

/// The key of an operation's unresolved outcome.
pub open spec fn unresolved_key(op: OperationId) -> Seq<char> {
    key_text("op_unresolved"@, uuid_text_spec(op.0))
}

/// The lease generation the runtime holds for an operation it watches.
pub open spec fn live_generation(live: Map<u128, u64>, op: OperationId) -> Option<u64> {
    if live.contains_key(op.0) {
        Some(live[op.0])
    } else {
        None
    }
}

/// Operations in these states still need the runtime.
pub open spec fn keeps_runtime_busy(s: OperationStatus) -> bool {
    s is Ready || s is Leased || s is Running || s is WaitingExternal || s is Committing
        || s is Orphaned
}

/// Whether some operation of the execution still needs the runtime.
pub fn has_live_operations(exec: &ExecutionState) -> (b: bool)
    ensures
        b == exists|i: int|
            0 <= i < ordered_operations(*exec).len() && keeps_runtime_busy(
                #[trigger] ordered_operations(*exec)[i].status,
            ),
{
    let n = exec.operations.len();
    let ghost ops = ordered_operations(*exec);
    let mut i: usize = 0;
    while i < n
        invariant
            n == exec.operations.entries().len(),
            ops == ordered_operations(*exec),
            i <= n,
            forall|j: int| 0 <= j < i ==> !keeps_runtime_busy(#[trigger] ops[j].status),
        decreases n - i,
    {
        let (_, op) = exec.operations.entry_at(i);
        assert(ops[i as int] == op@);
        if matches!(
            op.status,
            OperationStatus::Ready | OperationStatus::Leased | OperationStatus::Running
                | OperationStatus::WaitingExternal | OperationStatus::Committing
                | OperationStatus::Orphaned
        ) {
            assert(keeps_runtime_busy(ordered_operations(*exec)[i as int].status));
            return true;
        }
        i = i + 1;
    }
    false
}

/// An operation whose process may have outlived the runtime: not terminal,
/// not watched, with an active attempt that has no exit recorded.
#[derive(Debug)]
pub struct RecoveryCandidate {
    pub operation_id: OperationId,
    pub attempt_id: AttemptId,
    pub status: OperationStatus,
    /// The generation of the current lease, unless it expired.
    pub generation: Option<u64>,
    /// The recorded identity of the attempt's process, if it started.
    pub start_key: Option<String>,
}

/// The candidate an operation gives, if it is one.
pub open spec fn candidate_of(op: OperationView, live: Map<u128, u64>) -> Option<
    (OperationId, AttemptId, OperationStatus, Option<u64>, Option<Seq<char>>),
> {
    if op.status.is_terminal() || live.contains_key(op.id.0) {
        None
    } else {
        match op.active_attempt {
            None => None,
            Some(att) => if !op.attempts.contains_key(att.0) {
                None
            } else if op.attempts[att.0].exit_code is Some {
                None
            } else {
                let generation = match op.lease {
                    Some(l) => if l.expired {
                        None
                    } else {
                        Some(l.generation)
                    },
                    None => None,
                };
                Some((op.id, att, op.status, generation, op.attempts[att.0].start_key))
            },
        }
    }
}

/// The candidates of the operations, in order.
pub open spec fn candidates_of(ops: Seq<OperationView>, live: Map<u128, u64>) -> Seq<
    (OperationId, AttemptId, OperationStatus, Option<u64>, Option<Seq<char>>),
>
    decreases ops.len(),
{
    if ops.len() == 0 {
        Seq::empty()
    } else {
        match candidate_of(ops.last(), live) {
            Some(c) => candidates_of(ops.drop_last(), live).push(c),
            None => candidates_of(ops.drop_last(), live),
        }
    }
}

impl RecoveryCandidate {
    pub open spec fn view(&self) -> (OperationId, AttemptId, OperationStatus, Option<u64>, Option<Seq<char>>) {
        (self.operation_id, self.attempt_id, self.status, self.generation, opt_text(self.start_key))
    }
}

fn clone_opt_string(o: &Option<String>) -> (r: Option<String>)
    ensures
        opt_text(r) == opt_text(*o),
{
    match o {
        Some(s) => Some(s.clone()),
        None => None,
    }
}

/// The operations a restarted runtime must reconcile, in ascending
/// identifier order.
pub fn recovery_candidates(exec: &ExecutionState, live: &IdMap<u64>) -> (v: Vec<RecoveryCandidate>)
    ensures
        v@.map_values(|c: RecoveryCandidate| c.view()) == candidates_of(ordered_operations(*exec), live@),
{
    let n = exec.operations.len();
    let ghost ops = ordered_operations(*exec);
    let mut out: Vec<RecoveryCandidate> = Vec::new();
    let mut i: usize = 0;
    assert(ops.take(0) =~= Seq::<OperationView>::empty());
    while i < n
        invariant
            n == exec.operations.entries().len(),
            ops == ordered_operations(*exec),
            i <= n,
            out@.map_values(|c: RecoveryCandidate| c.view()) == candidates_of(ops.take(i as int), live@),
        decreases n - i,
    {
        let (_, op) = exec.operations.entry_at(i);
        assert(ops.take(i + 1).drop_last() =~= ops.take(i as int));
        assert(ops.take(i + 1).last() == op@);
        let ghost before = out@.map_values(|c: RecoveryCandidate| c.view());
        if !op.status.is_terminal() && !live.contains_key(op.id.0) {
            match op.active_attempt {
                None => {},
                Some(att) => match op.attempts.get(att.0) {
                    None => {},
                    Some(attempt) => {
                        assert(op@.attempts[att.0] == attempt@);
                        if attempt.exit_code.is_none() {
                            let generation = match &op.lease {
                                Some(l) => if l.expired {
                                    None
                                } else {
                                    Some(l.generation)
                                },
                                None => None,
                            };
                            let c = RecoveryCandidate {
                                operation_id: op.id,
                                attempt_id: att,
                                status: op.status,
                                generation,
                                start_key: clone_opt_string(&attempt.start_key),
                            };
                            out.push(c);
                            assert(out@.map_values(|c: RecoveryCandidate| c.view()) =~= before.push(c.view()));
                        }
                    },
                },
            }
        }
        i = i + 1;
    }
    assert(ops.take(n as int) =~= ops);
    out
}

/// Reconciles a candidate whose process never reported a start: a leased or
/// running one fails as incomplete after restart; others are left alone.
pub fn recover_unstarted<B: LogBackend>(kernel: &mut Kernel<B>, c: &RecoveryCandidate) -> (r: Result<(), KernelError>)
    requires
        old(kernel).wf(),
    ensures
        final(kernel).wf(),
        if c.status is Leased || c.status is Running {
            exists|rr: Result<EventRecord, KernelError>|
                #[trigger] old(kernel).append_outcome(
                    final(kernel),
                    rr,
                    op_failed_payload(c.operation_id, c.attempt_id, c.generation, "incomplete-after-restart"@),
                    failed_key(c.operation_id),
                    None,
                ) && r == unit_of(rr)
        } else {
            r == Ok::<(), KernelError>(()) && final(kernel).same_as(old(kernel))
        },
{
    if matches!(c.status, OperationStatus::Leased | OperationStatus::Running) {
        let payload = Event::OperationFailed {
            operation_id: c.operation_id,
            attempt_id: c.attempt_id,
            lease_generation: c.generation,
            reason: String::from_str("incomplete-after-restart"),
        };
        let ghost pv = payload;
        let ghost before = *kernel;
        let rr = kernel.append(payload, IdempotencyKey::new("op_failed", c.operation_id.to_string().as_str()));
        proof {
            before.lemma_outcome_weaken(
                kernel,
                rr,
                |e: Event| e == pv,
                op_failed_payload(c.operation_id, c.attempt_id, c.generation, "incomplete-after-restart"@),
                failed_key(c.operation_id),
                None,
            );
        }
        match rr {
            Ok(_) => Ok(()),
            Err(e) => Err(e),
        }
    } else {
        Ok(())
    }
}

/// Reconciles a candidate whose process started, given the liveness the OS
/// shows for its start key. A live process is watched again under its
/// lease generation (1 when it has none), and `true` asks the caller to
/// poll it; a dead one fails as lost, with no exit code invented; an
/// uncertain one is recorded as unresolved.
pub fn recover_started<B: LogBackend>(
    kernel: &mut Kernel<B>,
    live: &mut IdMap<u64>,
    c: &RecoveryCandidate,
    liveness: ProcessLiveness,
) -> (r: Result<bool, KernelError>)
    requires
        old(kernel).wf(),
    ensures
        final(kernel).wf(),
        match liveness {
            ProcessLiveness::Alive => r == Ok::<bool, KernelError>(true) && final(kernel).same_as(old(kernel))
                && final(live)@ == old(live)@.insert(
                c.operation_id.0,
                match c.generation {
                    Some(g) => g,
                    None => 1,
                },
            ),
            ProcessLiveness::Dead => final(live)@ == old(live)@ && exists|rr: Result<EventRecord, KernelError>|
                #[trigger] old(kernel).append_outcome(
                    final(kernel),
                    rr,
                    op_failed_payload(c.operation_id, c.attempt_id, c.generation, "lost-after-restart"@),
                    failed_key(c.operation_id),
                    None,
                ) && match rr {
                    Ok(_) => r == Ok::<bool, KernelError>(false),
                    Err(e) => r == Err::<bool, KernelError>(e),
                },
            ProcessLiveness::Unknown => final(live)@ == old(live)@ && exists|rr: Result<EventRecord, KernelError>|
                #[trigger] old(kernel).append_outcome(
                    final(kernel),
                    rr,
                    op_unresolved_payload(c.operation_id, c.attempt_id, "process-identity-uncertain-after-restart"@),
                    unresolved_key(c.operation_id),
                    None,
                ) && match rr {
                    Ok(_) => r == Ok::<bool, KernelError>(false),
                    Err(e) => r == Err::<bool, KernelError>(e),
                },
        },
{
    match liveness {
        ProcessLiveness::Alive => {
            let generation = match c.generation {
                Some(g) => g,
                None => 1,
            };
            live.insert(c.operation_id.0, generation);
            Ok(true)
        },
        ProcessLiveness::Dead => {
            let payload = Event::OperationFailed {
                operation_id: c.operation_id,
                attempt_id: c.attempt_id,
                lease_generation: c.generation,
                reason: String::from_str("lost-after-restart"),
            };
            let ghost pv = payload;
            let ghost before = *kernel;
            let rr = kernel.append(payload, IdempotencyKey::new("op_failed", c.operation_id.to_string().as_str()));
            proof {
                before.lemma_outcome_weaken(
                    kernel,
                    rr,
                    |e: Event| e == pv,
                    op_failed_payload(c.operation_id, c.attempt_id, c.generation, "lost-after-restart"@),
                    failed_key(c.operation_id),
                    None,
                );
            }
            match rr {
                Ok(_) => Ok(false),
                Err(e) => Err(e),
            }
        },
        ProcessLiveness::Unknown => {
            let payload = Event::OperationUnresolved {
                operation_id: c.operation_id,
                attempt_id: c.attempt_id,
                reason: String::from_str("process-identity-uncertain-after-restart"),
            };
            let ghost pv = payload;
            let ghost before = *kernel;
            let rr = kernel.append(payload, IdempotencyKey::new("op_unresolved", c.operation_id.to_string().as_str()));
            proof {
                before.lemma_outcome_weaken(
                    kernel,
                    rr,
                    |e: Event| e == pv,
                    op_unresolved_payload(c.operation_id, c.attempt_id, "process-identity-uncertain-after-restart"@),
                    unresolved_key(c.operation_id),
                    None,
                );
            }
            match rr {
                Ok(_) => Ok(false),
                Err(e) => Err(e),
            }
        },
    }
}

/// The unique part of keys naming an attempt of an operation.
pub open spec fn attempt_key(op: OperationId, att: AttemptId) -> Seq<char> {
    uuid_text_spec(op.0) + ":"@ + uuid_text_spec(att.0)
}

/// The steps of an exit report: the exit is recorded, then committed under
/// the watched lease generation (1 when none is watched), and the operation
/// is no longer watched.
pub open spec fn exit_steps<B: LogBackend>(
    old: Kernel<B>,
    mid: Kernel<B>,
    new: Kernel<B>,
    r1: Result<EventRecord, KernelError>,
    r2: Result<EventRecord, KernelError>,
    live0: Map<u128, u64>,
    live1: Map<u128, u64>,
    op: OperationId,
    att: AttemptId,
    code: i32,
    sig: Option<Seq<char>>,
    killed: bool,
    r: Result<(), KernelError>,
) -> bool {
    let gen = match live_generation(live0, op) {
        Some(g) => g,
        None => 1,
    };
    &&& old.append_outcome(
        &mid,
        r1,
        process_exited_payload(op, att, code, sig, killed),
        key_text("proc_exited"@, attempt_key(op, att)),
        None,
    )
    &&& match r1 {
        Err(e) => r == Err::<(), KernelError>(e) && new.same_as(&mid) && live1 == live0,
        Ok(_) => {
            &&& mid.append_outcome(
                &new,
                r2,
                committed_payload(op, att, gen, code),
                key_text("op_committed"@, attempt_key(op, att)),
                None,
            )
            &&& match r2 {
                Err(e) => r == Err::<(), KernelError>(e) && live1 == live0,
                Ok(_) => r == Ok::<(), KernelError>(()) && live1 == live0.remove(op.0),
            }
        },
    }
}

/// A report of a failed or unresolved process: nothing is recorded for an
/// operation whose status already settles it (it is only no longer
/// watched); otherwise the record is appended and, when it is, the
/// operation is no longer watched.
pub open spec fn settle_steps<B: LogBackend>(
    old: Kernel<B>,
    new: Kernel<B>,
    live0: Map<u128, u64>,
    live1: Map<u128, u64>,
    settled: bool,
    op: OperationId,
    payload_ok: spec_fn(Event) -> bool,
    key: Seq<char>,
    r: Result<(), KernelError>,
) -> bool {
    if settled {
        r == Ok::<(), KernelError>(()) && new.same_as(&old) && live1 == live0.remove(op.0)
    } else {
        exists|rr: Result<EventRecord, KernelError>|
            #[trigger] old.append_outcome(&new, rr, payload_ok, key, None) && match rr {
                Err(e) => r == Err::<(), KernelError>(e) && live1 == live0,
                Ok(_) => r == Ok::<(), KernelError>(()) && live1 == live0.remove(op.0),
            }
    }
}

/// What a process report does to the kernel and to the watched operations.
pub open spec fn report_outcome<B: LogBackend>(
    old: Kernel<B>,
    new: Kernel<B>,
    live0: Map<u128, u64>,
    live1: Map<u128, u64>,
    report: ProcessReport,
    r: Result<(), KernelError>,
) -> bool {
    match report {
        ProcessReport::Started { operation_id, attempt_id, pid, start_key } => live1 == live0 && exists|
            rr: Result<EventRecord, KernelError>,
        |
            #[trigger] old.append_outcome(
                &new,
                rr,
                process_started_payload(operation_id, attempt_id, pid, start_key@),
                key_text("proc_started"@, attempt_key(operation_id, attempt_id)),
                None,
            ) && r == unit_of(rr),
        ProcessReport::Output { operation_id, attempt_id, stream, offset, bytes } => live1 == live0
            && exists|rr: Result<EventRecord, KernelError>|
            #[trigger] old.append_outcome(
                &new,
                rr,
                process_output_payload(
                    operation_id,
                    attempt_id,
                    stream,
                    offset,
                    bytes@.len() as u64,
                    crate::ids::blake3_digest(bytes@),
                ),
                key_text(
                    "proc_out"@,
                    crate::kernel::output_key_text(
                        operation_id,
                        attempt_id,
                        stream,
                        offset,
                        bytes@.len() as u64,
                        crate::ids::blake3_digest(bytes@),
                    ),
                ),
                None,
            ) && r == unit_of(rr),
        ProcessReport::Exited { operation_id, attempt_id, exit_code, signal, killed_externally } => exists|
            mid: Kernel<B>,
            r1: Result<EventRecord, KernelError>,
            r2: Result<EventRecord, KernelError>,
        |
            #[trigger] exit_steps(
                old,
                mid,
                new,
                r1,
                r2,
                live0,
                live1,
                operation_id,
                attempt_id,
                exit_code,
                opt_text(signal),
                killed_externally,
                r,
            ),
        ProcessReport::Failed { operation_id, attempt_id, reason } => settle_steps(
            old,
            new,
            live0,
            live1,
            old.operation_status_of(operation_id) matches Ok(st) && st.is_terminal(),
            operation_id,
            op_failed_payload(operation_id, attempt_id, live_generation(live0, operation_id), reason@),
            failed_key(operation_id),
            r,
        ),
        ProcessReport::Unresolved { operation_id, attempt_id, reason } => settle_steps(
            old,
            new,
            live0,
            live1,
            old.operation_status_of(operation_id) matches Ok(st) && (st.is_terminal() || st
                is Unknown),
            operation_id,
            op_unresolved_payload(operation_id, attempt_id, reason@),
            unresolved_key(operation_id),
            r,
        ),
    }
}

/// Records what the supervisor reported of a process (see `report_outcome`).
/// Output bytes are stored by the caller before this is called.
pub fn apply_report<B: LogBackend>(
    kernel: &mut Kernel<B>,
    live: &mut IdMap<u64>,
    report: ProcessReport,
) -> (r: Result<(), KernelError>)
    requires
        old(kernel).wf(),
    ensures
        final(kernel).wf(),
        report_outcome(*old(kernel), *final(kernel), old(live)@, final(live)@, report, r),
{
    let ghost rep = report;
    match report {
        ProcessReport::Started { operation_id, attempt_id, pid, start_key } => {
            let ghost k0 = *kernel;
            let rr = kernel.process_started(operation_id, attempt_id, pid, start_key.as_str());
            assert(k0.append_outcome(
                &*kernel,
                rr,
                process_started_payload(operation_id, attempt_id, pid, start_key@),
                key_text("proc_started"@, attempt_key(operation_id, attempt_id)),
                None,
            ));
            match rr {
                Ok(_) => Ok(()),
                Err(e) => Err(e),
            }
        },
        ProcessReport::Output { operation_id, attempt_id, stream, offset, bytes } => {
            let rr = kernel.process_output(operation_id, attempt_id, stream, offset, bytes.as_slice());
            match rr {
                Ok(_) => Ok(()),
                Err(e) => Err(e),
            }
        },
        ProcessReport::Exited { operation_id, attempt_id, exit_code, signal, killed_externally } => {
            let ghost sig = opt_text(signal);
            let ghost k0 = *kernel;
            let ghost live0 = live@;
            let r1 = kernel.process_exited(operation_id, attempt_id, exit_code, signal, killed_externally);
            let ghost mid = *kernel;
            let ghost nothing: Result<EventRecord, KernelError> = Err(KernelError::ChecksumMismatch);
            match r1 {
                Err(e) => {
                    assert(exit_steps(k0, mid, *kernel, r1, nothing, live0, live@, operation_id, attempt_id, exit_code, sig, killed_externally, Err(e)));
                    return Err(e);
                },
                Ok(_) => {},
            }
            let generation = match live.get(operation_id.0) {
                Some(g) => *g,
                None => 1,
            };
            let r2 = kernel.commit_operation(operation_id, attempt_id, generation, exit_code);
            match r2 {
                Err(e) => {
                    assert(exit_steps(k0, mid, *kernel, r1, r2, live0, live@, operation_id, attempt_id, exit_code, sig, killed_externally, Err(e)));
                    Err(e)
                },
                Ok(_) => {
                    live.take(operation_id.0);
                    assert(exit_steps(k0, mid, *kernel, r1, r2, live0, live@, operation_id, attempt_id, exit_code, sig, killed_externally, Ok(())));
                    Ok(())
                },
            }
        },
        ProcessReport::Failed { operation_id, attempt_id, reason } => {
            match kernel.operation_status(operation_id) {
                Ok(status) => {
                    if status.is_terminal() {
                        live.take(operation_id.0);
                        return Ok(());
                    }
                },
                Err(_) => {},
            }
            let lease_generation = match live.get(operation_id.0) {
                Some(g) => Some(*g),
                None => None,
            };
            let ghost why = reason@;
            let payload = Event::OperationFailed { operation_id, attempt_id, lease_generation, reason };
            let ghost pv = payload;
            let ghost before = *kernel;
            let rr = kernel.append(payload, IdempotencyKey::new("op_failed", operation_id.to_string().as_str()));
            proof {
                before.lemma_outcome_weaken(
                    kernel,
                    rr,
                    |e: Event| e == pv,
                    op_failed_payload(operation_id, attempt_id, lease_generation, why),
                    failed_key(operation_id),
                    None,
                );
            }
            match rr {
                Err(e) => Err(e),
                Ok(_) => {
                    live.take(operation_id.0);
                    Ok(())
                },
            }
        },
        ProcessReport::Unresolved { operation_id, attempt_id, reason } => {
            match kernel.operation_status(operation_id) {
                Ok(status) => {
                    if status.is_terminal() || status == OperationStatus::Unknown {
                        live.take(operation_id.0);
                        return Ok(());
                    }
                },
                Err(_) => {},
            }
            let ghost why = reason@;
            let payload = Event::OperationUnresolved { operation_id, attempt_id, reason };
            let ghost pv = payload;
            let ghost before = *kernel;
            let rr = kernel.append(payload, IdempotencyKey::new("op_unresolved", operation_id.to_string().as_str()));
            proof {
                before.lemma_outcome_weaken(
                    kernel,
                    rr,
                    |e: Event| e == pv,
                    op_unresolved_payload(operation_id, attempt_id, why),
                    unresolved_key(operation_id),
                    None,
                );
            }
            match rr {
                Err(e) => Err(e),
                Ok(_) => {
                    live.take(operation_id.0);
                    Ok(())
                },
            }
        },
    }
}

/// Leases an operation's active attempt for launch (60 s, no capability)
/// and says what to launch: the attempt, argv and working directory.
pub fn lease_for_launch<B: LogBackend>(
    kernel: &mut Kernel<B>,
    operation_id: OperationId,
    owner: LeaseOwnerId,
    executor_id: &str,
) -> (r: Result<(LaunchSpec, u64), KernelError>)
    requires
        old(kernel).wf(),
    ensures
        final(kernel).wf(),
        old(kernel).first_execution() is None ==> (r matches Err(e) && e == rejected(
            Rejection::NoExecution,
        ) && final(kernel).same_as(old(kernel))),
        old(kernel).first_execution() is Some && !old(kernel).has_operation(operation_id) ==> (
        r matches Err(e) && e == rejected(Rejection::UnknownOperationPlain) && final(kernel).same_as(
            old(kernel),
        )),
        old(kernel).has_operation(operation_id) ==> {
            let x = old(kernel).first_execution()->0;
            let op = old(kernel).state_view().executions[x.0].operations[operation_id.0];
            match op.active_attempt {
                None => r matches Err(e) && e == rejected(Rejection::OperationHasNoAttempt)
                    && final(kernel).same_as(old(kernel)),
                Some(att) => if old(kernel).next_generation(operation_id) > u64::MAX {
                    r matches Err(e) && e == rejected(Rejection::LeaseGenerationsExhausted)
                        && final(kernel).same_as(old(kernel))
                } else {
                    exists|rr: Result<EventRecord, KernelError>|
                    #[trigger] old(kernel).append_outcome(
                        final(kernel),
                        rr,
                        crate::kernel::leased_payload(
                            operation_id,
                            att,
                            old(kernel).next_generation(operation_id) as u64,
                            owner,
                            crate::kernel::saturating_sum(old(kernel).clock() as int, 60000),
                            None,
                            executor_id@,
                        ),
                        key_text(
                            "op_leased"@,
                            uuid_text_spec(operation_id.0) + ":"@ + decimal_text(
                                old(kernel).next_generation(operation_id) as nat,
                            ),
                        ),
                        None,
                    ) && match r {
                        Ok((spec, g)) => rr is Ok && g == old(kernel).next_generation(operation_id)
                            && spec.operation_id == operation_id && spec.attempt_id == att
                            && crate::state::texts(spec.argv@) == op.argv && spec.cwd@ == op.cwd,
                        Err(e) => rr == Err::<EventRecord, KernelError>(e),
                    }
                },
            }
        },
{
    let exec = kernel.execution()?;
    let op = match exec.operations.get(operation_id.0) {
        Some(op) => op,
        None => {
            return Err(KernelError::invalid(Rejection::UnknownOperationPlain));
        },
    };
    let attempt_id = match op.active_attempt {
        Some(a) => a,
        None => {
            return Err(KernelError::invalid(Rejection::OperationHasNoAttempt));
        },
    };
    let argv = op.argv.clone();
    let cwd = op.cwd.clone();
    proof {
        assert(crate::state::texts(argv@) =~= crate::state::texts(op.argv@));
    }
    let generation = kernel.lease_operation(operation_id, attempt_id, owner, executor_id, 60000, None)?;
    Ok((LaunchSpec { operation_id, attempt_id, argv, cwd }, generation))
}

/// Records that a leased operation's process could not be spawned.
pub fn launch_failed<B: LogBackend>(
    kernel: &mut Kernel<B>,
    operation_id: OperationId,
    attempt_id: AttemptId,
    generation: u64,
    reason: &str,
) -> (r: Result<(), KernelError>)
    requires
        old(kernel).wf(),
    ensures
        final(kernel).wf(),
        exists|rr: Result<EventRecord, KernelError>|
            #[trigger] old(kernel).append_outcome(
                final(kernel),
                rr,
                op_failed_payload(operation_id, attempt_id, Some(generation), reason@),
                failed_key(operation_id),
                None,
            ) && r == unit_of(rr),
{
    let payload = Event::OperationFailed {
        operation_id,
        attempt_id,
        lease_generation: Some(generation),
        reason: String::from_str(reason),
    };
    let ghost pv = payload;
    let ghost before = *kernel;
    let rr = kernel.append(payload, IdempotencyKey::new("op_failed", operation_id.to_string().as_str()));
    proof {
        before.lemma_outcome_weaken(
            kernel,
            rr,
            |e: Event| e == pv,
            op_failed_payload(operation_id, attempt_id, Some(generation), reason@),
            failed_key(operation_id),
            None,
        );
    }
    match rr {
        Ok(_) => Ok(()),
        Err(e) => Err(e),
    }
}

} // verus!
