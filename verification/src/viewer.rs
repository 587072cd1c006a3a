//! Human-readable views of an execution: its tree and its event trace.
use vstd::prelude::*;
use vstd::string::{StrSliceExecFns, StringExecFns};

use crate::error::KernelError;
use crate::event::{AgentStatus, Event, EventRecord, GoalStatus, JoinOutcome, OperationStatus};
use crate::ids::{hex_lower, uuid_text_spec, AgentId, EventId, SnapshotId};
use crate::model::observed_has;
use crate::scheduler::{ordered_agents, ordered_operations};
use crate::state::{
    opt_text, texts, AgentState, AgentView, ExecutionState, JoinState, JoinView, OperationState,
    OperationView,
};
use crate::text::{chars_of, decimal_text, i64_text, signed_text, u64_text};

verus! {

/// The `{:?}` text of a string: quoted, with escapes, as std prints it.
pub uninterp spec fn str_debug_text(s: Seq<char>) -> Seq<char>;

/// Formats a string with std's `{:?}`; the text is named, not described.
#[verifier::external_body]
pub(crate) fn str_debug(s: &str) -> (d: String)
    ensures
        d@ == str_debug_text(s@),
{
    format!("{:?}", s)
}

/// `true` or `false`.
pub open spec fn bool_text(b: bool) -> Seq<char> {
    if b {
        "true"@
    } else {
        "false"@
    }
}

pub(crate) fn bool_str(b: bool) -> (s: &'static str)
    ensures
        s@ == bool_text(b),
{
    if b {
        "true"
    } else {
        "false"
    }
}

/// The value of an optional agent id.
pub open spec fn agent_key(o: Option<AgentId>) -> Option<u128> {
    match o {
        Some(a) => Some(a.0),
        None => None,
    }
}

/// The value of an optional snapshot id.
pub open spec fn snapshot_key(o: Option<SnapshotId>) -> Option<u128> {
    match o {
        Some(a) => Some(a.0),
        None => None,
    }
}

/// `{:?}` of an optional typed id: `None`, or `Some(Name(uuid))`.
pub open spec fn opt_id_debug(name: Seq<char>, o: Option<u128>) -> Seq<char> {
    match o {
        None => "None"@,
        Some(v) => "Some("@ + name + "("@ + uuid_text_spec(v) + "))"@,
    }
}

fn opt_id_debug_string(name: &str, o: Option<u128>) -> (s: String)
    ensures
        s@ == opt_id_debug(name@, o),
{
    match o {
        None => String::from_str("None"),
        Some(v) => {
            let mut s = String::from_str("Some(");
            s.append(name);
            s.append("(");
            s.append(crate::ids::uuid_text(v).as_str());
            s.append("))");
            s
        },
    }
}

/// The items of a list of strings in `{:?}` form, separated by `, `.
pub open spec fn debug_items(v: Seq<Seq<char>>) -> Seq<char>
    decreases v.len(),
{
    if v.len() == 0 {
        Seq::empty()
    } else if v.len() == 1 {
        str_debug_text(v[0])
    } else {
        debug_items(v.drop_last()) + ", "@ + str_debug_text(v.last())
    }
}

/// `{:?}` of a list of strings.
pub open spec fn strings_debug(v: Seq<Seq<char>>) -> Seq<char> {
    "["@ + debug_items(v) + "]"@
}

fn strings_debug_string(v: &Vec<String>) -> (s: String)
    ensures
        s@ == strings_debug(texts(v@)),
{
    let ghost t = texts(v@);
    let mut items = String::new();
    let mut i: usize = 0;
    while i < v.len()
        invariant
            i <= v@.len(),
            t == texts(v@),
            items@ == debug_items(t.subrange(0, i as int)),
        decreases v@.len() - i,
    {
        let d = str_debug(v[i].as_str());
        proof {
            assert(t.subrange(0, i + 1).drop_last() =~= t.subrange(0, i as int));
            assert(t.subrange(0, i + 1).last() == v@[i as int]@);
        }
        if i > 0 {
            items.append(", ");
        } else {
            assert(items@ =~= Seq::<char>::empty());
        }
        items.append(d.as_str());
        proof {
            if i == 0 {
                assert(items@ =~= d@);
            }
        }
        i = i + 1;
    }
    assert(t.subrange(0, v@.len() as int) =~= t);
    let mut s = String::from_str("[");
    s.append(items.as_str());
    s.append("]");
    s
}

/// `{:?}` of an optional string.
pub open spec fn opt_str_debug(o: Option<Seq<char>>) -> Seq<char> {
    match o {
        None => "None"@,
        Some(s) => "Some("@ + str_debug_text(s) + ")"@,
    }
}

fn opt_str_debug_string(o: &Option<String>) -> (s: String)
    ensures
        s@ == opt_str_debug(opt_text(*o)),
{
    match o {
        None => String::from_str("None"),
        Some(x) => {
            let mut s = String::from_str("Some(");
            s.append(str_debug(x.as_str()).as_str());
            s.append(")");
            s
        },
    }
}

/// What one record says, in words.
pub open spec fn event_summary(e: Event) -> Seq<char> {
    match e {
        Event::ExecutionCreated { note, .. } => "execution created ("@ + note@ + ")"@,
        Event::ExecutionForked { source_execution_id, from_event_id, .. } => "forked from "@ + uuid_text_spec(source_execution_id.0) + " at "@ + uuid_text_spec(from_event_id.0),
        Event::GoalCreated { objective, .. } => "goal created: "@ + objective@,
        Event::GoalAcceptanceDefined { goal_id, .. } => "goal "@ + uuid_text_spec(goal_id.0) + " acceptance rules defined"@,
        Event::ModelTurnFinished { agent_id, summary, .. } => "MODEL_FINISHED_TURN agent="@ + uuid_text_spec(agent_id.0) + " "@ + summary@,
        Event::GoalCompleted { goal_id, .. } => "GOAL_COMPLETED "@ + uuid_text_spec(goal_id.0),
        Event::GoalFailed { goal_id, reason, .. } => "goal "@ + uuid_text_spec(goal_id.0) + " failed: "@ + reason@,
        Event::AgentSpawned { agent_id, parent_agent_id, task, snapshot_id, .. } => "agent "@ + uuid_text_spec(agent_id.0) + " spawned parent="@ + opt_id_debug("AgentId"@, agent_key(parent_agent_id)) + " snapshot="@ + opt_id_debug("SnapshotId"@, snapshot_key(snapshot_id)) + " task="@ + task@,
        Event::AgentStatusChanged { agent_id, from, to, reason, .. } => "agent "@ + uuid_text_spec(agent_id.0) + " "@ + from.spec_name() + "->"@ + to.spec_name() + " ("@ + reason@ + ")"@,
        Event::TaskCreated { task_id, description, .. } => "task "@ + uuid_text_spec(task_id.0) + " "@ + description@,
        Event::JoinCreated { join_id, children, kind, .. } => "join "@ + uuid_text_spec(join_id.0) + " "@ + kind.spec_name() + " children="@ + decimal_text(children@.len()),
        Event::JoinChildTerminal { join_id, child_id, child_status, .. } => "join "@ + uuid_text_spec(join_id.0) + " observed "@ + uuid_text_spec(child_id.0) + " "@ + child_status.spec_name(),
        Event::JoinSatisfied { join_id, outcome, .. } => "join "@ + uuid_text_spec(join_id.0) + " "@ + outcome.spec_name(),
        Event::OperationCreated { operation_id, argv, .. } => "operation "@ + uuid_text_spec(operation_id.0) + " created argv="@ + strings_debug(texts(argv@)),
        Event::OperationScheduled { operation_id, .. } => "operation "@ + uuid_text_spec(operation_id.0) + " scheduled"@,
        Event::OperationLeased { operation_id, generation, executor_id, .. } => "operation "@ + uuid_text_spec(operation_id.0) + " leased gen="@ + decimal_text(generation as nat) + " executor="@ + executor_id@,
        Event::ProcessStarted { operation_id, pid, start_key, .. } => "process started op="@ + uuid_text_spec(operation_id.0) + " pid="@ + decimal_text(pid as nat) + " start_key="@ + start_key@,
        Event::ProcessOutputAvailable { operation_id, byte_len, chunk_hash, .. } => "process output op="@ + uuid_text_spec(operation_id.0) + " "@ + decimal_text(byte_len as nat) + "B hash="@ + hex_lower(chunk_hash.0@),
        Event::ProcessExited { operation_id, exit_code, signal, killed_externally, .. } => "process exited op="@ + uuid_text_spec(operation_id.0) + " code="@ + signed_text(exit_code as int) + " signal="@ + opt_str_debug(opt_text(signal)) + " killed_externally="@ + bool_text(killed_externally),
        Event::OperationCommitted { operation_id, attempt_id, lease_generation, exit_code, .. } => "operation "@ + uuid_text_spec(operation_id.0) + " committed attempt="@ + uuid_text_spec(attempt_id.0) + " gen="@ + decimal_text(lease_generation as nat) + " exit="@ + signed_text(exit_code as int),
        Event::OperationFailed { operation_id, reason, .. } => "operation "@ + uuid_text_spec(operation_id.0) + " failed: "@ + reason@,
        Event::OperationUnresolved { operation_id, reason, .. } => "operation "@ + uuid_text_spec(operation_id.0) + " unresolved: "@ + reason@,
        Event::OperationCancelled { operation_id, reason, .. } => "operation "@ + uuid_text_spec(operation_id.0) + " cancelled: "@ + reason@,
        Event::LeaseExpired { operation_id, generation, .. } => "lease expired op="@ + uuid_text_spec(operation_id.0) + " gen="@ + decimal_text(generation as nat),
        Event::CheckpointTaken { seq, state_hash, .. } => "checkpoint seq="@ + decimal_text(seq as nat) + " hash="@ + state_hash@,
        Event::ContextSnapshotAttached { snapshot_id, agent_id, byte_len, .. } => "snapshot "@ + uuid_text_spec(snapshot_id.0) + " attached to "@ + uuid_text_spec(agent_id.0) + " ("@ + decimal_text(byte_len as nat) + "B)"@,
        Event::CapabilityGranted { capability_id, agent_id, approval_evidence, .. } => "capability "@ + uuid_text_spec(capability_id.0) + " granted to "@ + uuid_text_spec(agent_id.0) + " evidence="@ + approval_evidence@,
        Event::BarrierCreated { barrier_id, expected_arrivals, .. } => "barrier "@ + uuid_text_spec(barrier_id.0) + " expect="@ + decimal_text(expected_arrivals as nat),
        Event::BarrierArrived { barrier_id, agent_id, .. } => "barrier "@ + uuid_text_spec(barrier_id.0) + " arrival "@ + uuid_text_spec(agent_id.0),
        Event::BarrierSatisfied { barrier_id, .. } => "barrier "@ + uuid_text_spec(barrier_id.0) + " satisfied"@,
        Event::RetentionChanged { agent_id, retained, .. } => "agent "@ + uuid_text_spec(agent_id.0) + " retained="@ + bool_text(retained),
    }
}

/// `s` padded with spaces on the right to at least `width` characters.
pub open spec fn pad_right(s: Seq<char>, width: nat) -> Seq<char>
    decreases width - s.len(),
{
    if s.len() >= width {
        s
    } else {
        pad_right(s.push(' '), width)
    }
}

/// One line of the trace: sequence number, event id and summary.
pub open spec fn trace_line(r: EventRecord) -> Seq<char> {
    "#"@ + pad_right(decimal_text(r.seq as nat), 4) + " "@ + uuid_text_spec(r.event_id.0) + "  "@
        + event_summary(r.payload) + "\n"@
}

/// The trace of records, stopping after the record `until` names.
pub open spec fn trace_text(rs: Seq<EventRecord>, until: Option<EventId>) -> Seq<char>
    decreases rs.len(),
{
    if rs.len() == 0 {
        Seq::empty()
    } else if until == Some(rs[0].event_id) {
        trace_line(rs[0])
    } else {
        trace_line(rs[0]) + trace_text(rs.drop_first(), until)
    }
}

fn summary_string(e: &Event) -> (s: String)
    ensures
        s@ == event_summary(*e),
{
    match e {
        Event::ExecutionCreated { note, .. } => {
            let mut s = String::from_str("execution created (");
            s.append(note.as_str());
            s.append(")");
            s
        },
        Event::ExecutionForked { source_execution_id, from_event_id, .. } => {
            let mut s = String::from_str("forked from ");
            s.append(source_execution_id.to_string().as_str());
            s.append(" at ");
            s.append(from_event_id.to_string().as_str());
            s
        },
        Event::GoalCreated { objective, .. } => {
            let mut s = String::from_str("goal created: ");
            s.append(objective.as_str());
            s
        },
        Event::GoalAcceptanceDefined { goal_id, .. } => {
            let mut s = String::from_str("goal ");
            s.append(goal_id.to_string().as_str());
            s.append(" acceptance rules defined");
            s
        },
        Event::ModelTurnFinished { agent_id, summary, .. } => {
            let mut s = String::from_str("MODEL_FINISHED_TURN agent=");
            s.append(agent_id.to_string().as_str());
            s.append(" ");
            s.append(summary.as_str());
            s
        },
        Event::GoalCompleted { goal_id, .. } => {
            let mut s = String::from_str("GOAL_COMPLETED ");
            s.append(goal_id.to_string().as_str());
            s
        },
        Event::GoalFailed { goal_id, reason, .. } => {
            let mut s = String::from_str("goal ");
            s.append(goal_id.to_string().as_str());
            s.append(" failed: ");
            s.append(reason.as_str());
            s
        },
        Event::AgentSpawned { agent_id, parent_agent_id, task, snapshot_id, .. } => {
            let mut s = String::from_str("agent ");
            s.append(agent_id.to_string().as_str());
            s.append(" spawned parent=");
            s.append(opt_id_debug_string("AgentId", match parent_agent_id { Some(x) => Some(x.0), None => None }).as_str());
            s.append(" snapshot=");
            s.append(opt_id_debug_string("SnapshotId", match snapshot_id { Some(x) => Some(x.0), None => None }).as_str());
            s.append(" task=");
            s.append(task.as_str());
            s
        },
        Event::AgentStatusChanged { agent_id, from, to, reason, .. } => {
            let mut s = String::from_str("agent ");
            s.append(agent_id.to_string().as_str());
            s.append(" ");
            s.append(from.name());
            s.append("->");
            s.append(to.name());
            s.append(" (");
            s.append(reason.as_str());
            s.append(")");
            s
        },
        Event::TaskCreated { task_id, description, .. } => {
            let mut s = String::from_str("task ");
            s.append(task_id.to_string().as_str());
            s.append(" ");
            s.append(description.as_str());
            s
        },
        Event::JoinCreated { join_id, children, kind, .. } => {
            let mut s = String::from_str("join ");
            s.append(join_id.to_string().as_str());
            s.append(" ");
            s.append(kind.name());
            s.append(" children=");
            s.append(u64_text(children.len() as u64).as_str());
            s
        },
        Event::JoinChildTerminal { join_id, child_id, child_status, .. } => {
            let mut s = String::from_str("join ");
            s.append(join_id.to_string().as_str());
            s.append(" observed ");
            s.append(child_id.to_string().as_str());
            s.append(" ");
            s.append(child_status.name());
            s
        },
        Event::JoinSatisfied { join_id, outcome, .. } => {
            let mut s = String::from_str("join ");
            s.append(join_id.to_string().as_str());
            s.append(" ");
            s.append(outcome.name());
            s
        },
        Event::OperationCreated { operation_id, argv, .. } => {
            let mut s = String::from_str("operation ");
            s.append(operation_id.to_string().as_str());
            s.append(" created argv=");
            s.append(strings_debug_string(argv).as_str());
            s
        },
        Event::OperationScheduled { operation_id, .. } => {
            let mut s = String::from_str("operation ");
            s.append(operation_id.to_string().as_str());
            s.append(" scheduled");
            s
        },
        Event::OperationLeased { operation_id, generation, executor_id, .. } => {
            let mut s = String::from_str("operation ");
            s.append(operation_id.to_string().as_str());
            s.append(" leased gen=");
            s.append(u64_text(*generation as u64).as_str());
            s.append(" executor=");
            s.append(executor_id.as_str());
            s
        },
        Event::ProcessStarted { operation_id, pid, start_key, .. } => {
            let mut s = String::from_str("process started op=");
            s.append(operation_id.to_string().as_str());
            s.append(" pid=");
            s.append(u64_text(*pid as u64).as_str());
            s.append(" start_key=");
            s.append(start_key.as_str());
            s
        },
        Event::ProcessOutputAvailable { operation_id, byte_len, chunk_hash, .. } => {
            let mut s = String::from_str("process output op=");
            s.append(operation_id.to_string().as_str());
            s.append(" ");
            s.append(u64_text(*byte_len as u64).as_str());
            s.append("B hash=");
            s.append(chunk_hash.to_hex().as_str());
            s
        },
        Event::ProcessExited { operation_id, exit_code, signal, killed_externally, .. } => {
            let mut s = String::from_str("process exited op=");
            s.append(operation_id.to_string().as_str());
            s.append(" code=");
            s.append(i64_text(*exit_code as i64).as_str());
            s.append(" signal=");
            s.append(opt_str_debug_string(signal).as_str());
            s.append(" killed_externally=");
            s.append(bool_str(*killed_externally));
            s
        },
        Event::OperationCommitted { operation_id, attempt_id, lease_generation, exit_code, .. } => {
            let mut s = String::from_str("operation ");
            s.append(operation_id.to_string().as_str());
            s.append(" committed attempt=");
            s.append(attempt_id.to_string().as_str());
            s.append(" gen=");
            s.append(u64_text(*lease_generation as u64).as_str());
            s.append(" exit=");
            s.append(i64_text(*exit_code as i64).as_str());
            s
        },
        Event::OperationFailed { operation_id, reason, .. } => {
            let mut s = String::from_str("operation ");
            s.append(operation_id.to_string().as_str());
            s.append(" failed: ");
            s.append(reason.as_str());
            s
        },
        Event::OperationUnresolved { operation_id, reason, .. } => {
            let mut s = String::from_str("operation ");
            s.append(operation_id.to_string().as_str());
            s.append(" unresolved: ");
            s.append(reason.as_str());
            s
        },
        Event::OperationCancelled { operation_id, reason, .. } => {
            let mut s = String::from_str("operation ");
            s.append(operation_id.to_string().as_str());
            s.append(" cancelled: ");
            s.append(reason.as_str());
            s
        },
        Event::LeaseExpired { operation_id, generation, .. } => {
            let mut s = String::from_str("lease expired op=");
            s.append(operation_id.to_string().as_str());
            s.append(" gen=");
            s.append(u64_text(*generation as u64).as_str());
            s
        },
        Event::CheckpointTaken { seq, state_hash, .. } => {
            let mut s = String::from_str("checkpoint seq=");
            s.append(u64_text(*seq as u64).as_str());
            s.append(" hash=");
            s.append(state_hash.as_str());
            s
        },
        Event::ContextSnapshotAttached { snapshot_id, agent_id, byte_len, .. } => {
            let mut s = String::from_str("snapshot ");
            s.append(snapshot_id.to_string().as_str());
            s.append(" attached to ");
            s.append(agent_id.to_string().as_str());
            s.append(" (");
            s.append(u64_text(*byte_len as u64).as_str());
            s.append("B)");
            s
        },
        Event::CapabilityGranted { capability_id, agent_id, approval_evidence, .. } => {
            let mut s = String::from_str("capability ");
            s.append(capability_id.to_string().as_str());
            s.append(" granted to ");
            s.append(agent_id.to_string().as_str());
            s.append(" evidence=");
            s.append(approval_evidence.as_str());
            s
        },
        Event::BarrierCreated { barrier_id, expected_arrivals, .. } => {
            let mut s = String::from_str("barrier ");
            s.append(barrier_id.to_string().as_str());
            s.append(" expect=");
            s.append(u64_text(*expected_arrivals as u64).as_str());
            s
        },
        Event::BarrierArrived { barrier_id, agent_id, .. } => {
            let mut s = String::from_str("barrier ");
            s.append(barrier_id.to_string().as_str());
            s.append(" arrival ");
            s.append(agent_id.to_string().as_str());
            s
        },
        Event::BarrierSatisfied { barrier_id, .. } => {
            let mut s = String::from_str("barrier ");
            s.append(barrier_id.to_string().as_str());
            s.append(" satisfied");
            s
        },
        Event::RetentionChanged { agent_id, retained, .. } => {
            let mut s = String::from_str("agent ");
            s.append(agent_id.to_string().as_str());
            s.append(" retained=");
            s.append(bool_str(*retained));
            s
        },
    }
}

fn explain_record(out: &mut String, record: &EventRecord)
    ensures
        final(out)@ == old(out)@ + trace_line(*record),
{
    let summary = summary_string(&record.payload);
    let mut num = u64_text(record.seq);
    let ghost digits = num@;
    while num.unicode_len() < 4
        invariant
            pad_right(num@, 4) == pad_right(digits, 4),
        decreases 4 - num@.len(),
    {
        proof {
            reveal_strlit(" ");
        }
        let ghost before = num@;
        num.append(" ");
        assert(num@ =~= before.push(' '));
    }
    out.append("#");
    out.append(num.as_str());
    out.append(" ");
    out.append(record.event_id.to_string().as_str());
    out.append("  ");
    out.append(summary.as_str());
    out.append("\n");
}

/// The event trace of `records`, one line each, through the record with
/// event id `until` when one is given.
pub fn render_trace(records: &[EventRecord], until: Option<EventId>) -> (r: Result<String, KernelError>)
    ensures
        r matches Ok(s) && s@ == trace_text(records@, until),
{
    let mut out = String::new();
    let mut i: usize = 0;
    assert(records@.subrange(0, records@.len() as int) =~= records@);
    assert(out@ + trace_text(records@, until) =~= trace_text(records@, until));
    while i < records.len()
        invariant
            i <= records@.len(),
            trace_text(records@, until) == out@ + trace_text(
                records@.subrange(i as int, records@.len() as int),
                until,
            ),
        decreases records@.len() - i,
    {
        let ghost rest = records@.subrange(i as int, records@.len() as int);
        assert(rest[0] == records@[i as int]);
        assert(rest.drop_first() =~= records@.subrange(i + 1, records@.len() as int));
        let ghost before = out@;
        explain_record(&mut out, &records[i]);
        match until {
            Some(u) => {
                if records[i].event_id == u {
                    return Ok(out);
                }
            },
            None => {},
        }
        assert(out@ + trace_text(records@.subrange(i + 1, records@.len() as int), until) =~= before
            + trace_text(rest, until));
        i = i + 1;
    }
    assert(out@ + Seq::<char>::empty() =~= out@);
    Ok(out)
}

/// The first eight characters of a text.
pub open spec fn short_text(s: Seq<char>) -> Seq<char> {
    if s.len() <= 8 {
        s
    } else {
        s.subrange(0, 8)
    }
}

/// The short form of an identifier: its first eight characters.
pub open spec fn short_id(v: u128) -> Seq<char> {
    short_text(uuid_text_spec(v))
}

fn short(v: u128) -> (s: String)
    ensures
        s@ == short_id(v),
{
    let full = crate::ids::uuid_text(v);
    let n = full.as_str().unicode_len();
    if n <= 8 {
        full
    } else {
        String::from_str(full.as_str().substring_char(0, 8))
    }
}

/// Label of a goal status in the tree.
pub open spec fn goal_label(s: GoalStatus) -> Seq<char> {
    match s {
        GoalStatus::Active => "ACTIVE"@,
        GoalStatus::Blocked => "BLOCKED"@,
        GoalStatus::Completed => "DONE"@,
        GoalStatus::Failed => "FAILED"@,
        GoalStatus::Cancelled => "CANCELLED"@,
    }
}

fn status_goal(s: GoalStatus) -> (t: &'static str)
    ensures
        t@ == goal_label(s),
{
    match s {
        GoalStatus::Active => "ACTIVE",
        GoalStatus::Blocked => "BLOCKED",
        GoalStatus::Completed => "DONE",
        GoalStatus::Failed => "FAILED",
        GoalStatus::Cancelled => "CANCELLED",
    }
}

/// Label of an agent status in the tree.
pub open spec fn agent_label(s: AgentStatus) -> Seq<char> {
    match s {
        AgentStatus::Created => "CREATED"@,
        AgentStatus::Runnable => "RUNNABLE"@,
        AgentStatus::Running => "RUNNING"@,
        AgentStatus::WaitingJoin => "WAITING_JOIN"@,
        AgentStatus::WaitingExternal => "WAITING"@,
        AgentStatus::Succeeded => "DONE"@,
        AgentStatus::Failed => "FAILED"@,
        AgentStatus::Cancelled => "CANCELLED"@,
        AgentStatus::Interrupted => "INTERRUPTED"@,
        AgentStatus::Orphaned => "ORPHANED"@,
    }
}

fn status_agent(s: AgentStatus) -> (t: &'static str)
    ensures
        t@ == agent_label(s),
{
    match s {
        AgentStatus::Created => "CREATED",
        AgentStatus::Runnable => "RUNNABLE",
        AgentStatus::Running => "RUNNING",
        AgentStatus::WaitingJoin => "WAITING_JOIN",
        AgentStatus::WaitingExternal => "WAITING",
        AgentStatus::Succeeded => "DONE",
        AgentStatus::Failed => "FAILED",
        AgentStatus::Cancelled => "CANCELLED",
        AgentStatus::Interrupted => "INTERRUPTED",
        AgentStatus::Orphaned => "ORPHANED",
    }
}

/// Label of an operation status in the tree.
pub open spec fn op_label(s: OperationStatus) -> Seq<char> {
    match s {
        OperationStatus::Created => "CREATED"@,
        OperationStatus::Ready => "READY"@,
        OperationStatus::Leased => "LEASED"@,
        OperationStatus::Running => "RUNNING"@,
        OperationStatus::WaitingExternal => "WAITING"@,
        OperationStatus::Committing => "COMMITTING"@,
        OperationStatus::Succeeded => "DONE"@,
        OperationStatus::Failed => "FAILED"@,
        OperationStatus::Cancelled => "CANCELLED"@,
        OperationStatus::Orphaned => "ORPHANED"@,
        OperationStatus::Unknown => "UNKNOWN"@,
    }
}

fn status_op(s: OperationStatus) -> (t: &'static str)
    ensures
        t@ == op_label(s),
{
    match s {
        OperationStatus::Created => "CREATED",
        OperationStatus::Ready => "READY",
        OperationStatus::Leased => "LEASED",
        OperationStatus::Running => "RUNNING",
        OperationStatus::WaitingExternal => "WAITING",
        OperationStatus::Committing => "COMMITTING",
        OperationStatus::Succeeded => "DONE",
        OperationStatus::Failed => "FAILED",
        OperationStatus::Cancelled => "CANCELLED",
        OperationStatus::Orphaned => "ORPHANED",
        OperationStatus::Unknown => "UNKNOWN",
    }
}

/// The goal line: the goal with the smallest id, or none.
pub open spec fn goal_text(exec: ExecutionState) -> Seq<char> {
    if exec.goals.entries().len() > 0 {
        let g = exec.goals.entries()[0].1@;
        "Goal "@ + short_id(g.id.0) + " ["@ + goal_label(g.status) + "]\n  "@ + g.objective + "\n"@
    } else {
        "Goal (none)\n"@
    }
}

/// Whether `a` sorts before or with `b`: character by character, then by
/// length (the order of `String`).
pub open spec fn text_le(a: Seq<char>, b: Seq<char>) -> bool
    decreases a.len(),
{
    if a.len() == 0 {
        true
    } else if b.len() == 0 {
        false
    } else if a[0] != b[0] {
        (a[0] as u32) < (b[0] as u32)
    } else {
        text_le(a.drop_first(), b.drop_first())
    }
}

/// Inserts an agent into a list sorted by task, after every agent whose
/// task sorts before or with it.
pub open spec fn insert_by_task(sorted: Seq<AgentView>, a: AgentView) -> Seq<AgentView>
    decreases sorted.len(),
{
    if sorted.len() == 0 {
        seq![a]
    } else if text_le(sorted.last().task, a.task) {
        sorted.push(a)
    } else {
        insert_by_task(sorted.drop_last(), a).push(sorted.last())
    }
}

/// A stable sort of agents by task.
pub open spec fn sort_by_task(s: Seq<AgentView>) -> Seq<AgentView>
    decreases s.len(),
{
    if s.len() == 0 {
        Seq::empty()
    } else {
        insert_by_task(sort_by_task(s.drop_last()), s.last())
    }
}

/// The committed exit code of an operation in its tree line.
pub open spec fn exit_text(op: OperationView) -> Seq<char> {
    match op.committed_exit_code {
        Some(c) => " exit "@ + signed_text(c as int),
        None => Seq::empty(),
    }
}

/// The lease of an operation in its tree line.
pub open spec fn lease_text(op: OperationView) -> Seq<char> {
    match op.lease {
        Some(l) => " leased gen="@ + decimal_text(l.generation as nat) + " "@ + l.executor_id + if l.expired {
            " EXPIRED"@
        } else {
            Seq::empty()
        },
        None => Seq::empty(),
    }
}

/// The tree line of one operation.
pub open spec fn op_line(indent: Seq<char>, op: OperationView) -> Seq<char> {
    indent + "│     └── op "@ + short_id(op.id.0) + " ["@ + op_label(op.status) + exit_text(op)
        + lease_text(op) + "]\n"@
}

/// The lines of an agent's operations, in the order given.
pub open spec fn ops_text(indent: Seq<char>, ops: Seq<OperationView>, agent: AgentId) -> Seq<char>
    decreases ops.len(),
{
    if ops.len() == 0 {
        Seq::empty()
    } else if ops.last().agent_id == agent {
        ops_text(indent, ops.drop_last(), agent) + op_line(indent, ops.last())
    } else {
        ops_text(indent, ops.drop_last(), agent)
    }
}

/// The indent of an agent: children are drawn one level in.
pub open spec fn agent_indent(a: AgentView) -> Seq<char> {
    if a.parent_agent_id is Some {
        "│   "@
    } else {
        Seq::empty()
    }
}

/// The block of one agent: its line, its task, and its operations.
pub open spec fn agent_block(ops: Seq<OperationView>, a: AgentView) -> Seq<char> {
    let indent = agent_indent(a);
    let branch = if a.parent_agent_id is Some {
        "└── "@
    } else {
        "├── "@
    };
    indent + branch + "Agent "@ + short_id(a.id.0) + " ["@ + agent_label(a.status) + "]\n"@ + indent
        + "│     "@ + a.task + "\n"@ + ops_text(indent, ops, a.id)
}

/// The blocks of agents, in the order given.
pub open spec fn agents_text(ops: Seq<OperationView>, agents: Seq<AgentView>) -> Seq<char>
    decreases agents.len(),
{
    if agents.len() == 0 {
        Seq::empty()
    } else {
        agents_text(ops, agents.drop_last()) + agent_block(ops, agents.last())
    }
}

/// The short ids of the children not yet observed, separated by `, `.
pub open spec fn waiting_list(children: Seq<AgentId>, obs: Seq<(AgentId, AgentStatus)>) -> Seq<char>
    decreases children.len(),
{
    if children.len() == 0 {
        Seq::empty()
    } else if observed_has(obs, children.last()) {
        waiting_list(children.drop_last(), obs)
    } else if waiting_list(children.drop_last(), obs).len() == 0 {
        short_id(children.last().0)
    } else {
        waiting_list(children.drop_last(), obs) + ", "@ + short_id(children.last().0)
    }
}

/// Short ids of agents, separated by `, `, in their order.
pub open spec fn comma_short_ids(ids: Seq<AgentId>) -> Seq<char>
    decreases ids.len(),
{
    if ids.len() == 0 {
        Seq::empty()
    } else if ids.len() == 1 {
        short_id(ids[0].0)
    } else {
        comma_short_ids(ids.drop_last()) + ", "@ + short_id(ids.last().0)
    }
}

proof fn lemma_short_id_nonempty(v: u128)
    ensures
        short_id(v).len() == 8,
{
    assert(uuid_text_spec(v).len() == 36);
}

/// A join's tree line waits on exactly its children that no observation
/// names, in the children's order.
pub proof fn lemma_waiting_list_is_unobserved_children(children: Seq<AgentId>, obs: Seq<(AgentId, AgentStatus)>)
    ensures
        waiting_list(children, obs) == comma_short_ids(
            children.filter(|c: AgentId| !(exists|i: int| 0 <= i < obs.len() && obs[i].0 == c)),
        ),
    decreases children.len(),
{
    let p = |c: AgentId| !(exists|i: int| 0 <= i < obs.len() && obs[i].0 == c);
    if children.len() > 0 {
        lemma_waiting_list_is_unobserved_children(children.drop_last(), obs);
        let sub = children.drop_last().filter(p);
        reveal(Seq::filter);
        assert(children.filter(p) == if p(children.last()) {
            sub.push(children.last())
        } else {
            sub
        });
        if p(children.last()) {
            lemma_short_id_nonempty(children.last().0);
            let w = sub.push(children.last());
            assert(w.drop_last() =~= sub);
            if sub.len() > 0 {
                lemma_short_id_nonempty(sub.last().0);
                assert(comma_short_ids(sub).len() > 0);
            }
        } else {
            assert(observed_has(obs, children.last()));
        }
    }
}

/// `{:?}` of an optional join outcome.
pub open spec fn outcome_debug(o: Option<JoinOutcome>) -> Seq<char> {
    match o {
        None => "None"@,
        Some(x) => "Some("@ + x.spec_name() + ")"@,
    }
}

/// The tree line of one join.
pub open spec fn join_line(j: JoinView) -> Seq<char> {
    let w = waiting_list(j.children, j.observed);
    "└── Join "@ + short_id(j.id.0) + " ["@ + outcome_debug(j.outcome) + "] waiting on "@ + if w.len()
        == 0 {
        "(none)"@
    } else {
        w
    } + "\n"@
}

/// The joins of an execution in ascending identifier order.
pub open spec fn ordered_joins(exec: ExecutionState) -> Seq<JoinView> {
    exec.joins.entries().map_values(|p: (u128, JoinState)| p.1@)
}

/// The lines of joins, in the order given.
pub open spec fn joins_text(joins: Seq<JoinView>) -> Seq<char>
    decreases joins.len(),
{
    if joins.len() == 0 {
        Seq::empty()
    } else {
        joins_text(joins.drop_last()) + join_line(joins.last())
    }
}

/// The tree of an execution: its first goal, its agents sorted by task with
/// their operations, and its joins.
pub open spec fn tree_text(exec: ExecutionState) -> Seq<char> {
    goal_text(exec) + agents_text(ordered_operations(exec), sort_by_task(ordered_agents(exec)))
        + joins_text(ordered_joins(exec))
}

fn task_le(a: &String, b: &String) -> (r: bool)
    ensures
        r == text_le(a@, b@),
{
    let ac = chars_of(a.as_str());
    let bc = chars_of(b.as_str());
    let mut i: usize = 0;
    assert(a@.skip(0) =~= a@);
    assert(b@.skip(0) =~= b@);
    loop
        invariant
            ac@ == a@,
            bc@ == b@,
            i <= ac@.len(),
            i <= bc@.len(),
            text_le(a@, b@) == text_le(a@.skip(i as int), b@.skip(i as int)),
        decreases ac@.len() - i,
    {
        let ghost sa = a@.skip(i as int);
        let ghost sb = b@.skip(i as int);
        if i == ac.len() {
            return true;
        }
        if i == bc.len() {
            return false;
        }
        assert(sa[0] == ac@[i as int] && sb[0] == bc@[i as int]);
        if ac[i] != bc[i] {
            return (ac[i] as u32) < (bc[i] as u32);
        }
        assert(sa.drop_first() =~= a@.skip(i + 1));
        assert(sb.drop_first() =~= b@.skip(i + 1));
        i = i + 1;
    }
}

/// The agents at the given entry positions.
pub open spec fn agents_at(exec: ExecutionState, order: Seq<usize>) -> Seq<AgentView> {
    order.map_values(|i: usize| exec.agents.entries()[i as int].1@)
}

proof fn lemma_insert_position(s: Seq<AgentView>, a: AgentView, j: int)
    requires
        0 <= j <= s.len(),
        j == 0 || text_le(s[j - 1].task, a.task),
        forall|i: int| j <= i < s.len() ==> !text_le(#[trigger] s[i].task, a.task),
    ensures
        insert_by_task(s, a) == s.take(j) + seq![a] + s.skip(j),
    decreases s.len(),
{
    if j == s.len() {
        if s.len() == 0 {
            assert(s.take(j) + seq![a] + s.skip(j) =~= seq![a]);
        } else {
            assert(s.take(j) + seq![a] + s.skip(j) =~= s.push(a));
        }
    } else {
        let t = s.drop_last();
        assert(!text_le(s.last().task, a.task));
        assert forall|i: int| j <= i < t.len() implies !text_le(#[trigger] t[i].task, a.task) by {
            assert(t[i] == s[i]);
        }
        if j > 0 {
            assert(t[j - 1] == s[j - 1]);
        }
        lemma_insert_position(t, a, j);
        assert((t.take(j) + seq![a] + t.skip(j)).push(s.last()) =~= s.take(j) + seq![a] + s.skip(j));
    }
}

/// Entry positions of the agents, sorted stably by task.
fn sorted_agent_order(exec: &ExecutionState) -> (order: Vec<usize>)
    ensures
        forall|k: int| 0 <= k < order@.len() ==> #[trigger] order@[k] < exec.agents.entries().len(),
        agents_at(*exec, order@) == sort_by_task(ordered_agents(*exec)),
{
    let n = exec.agents.len();
    let ghost all = ordered_agents(*exec);
    let mut order: Vec<usize> = Vec::new();
    let mut k: usize = 0;
    assert(all.take(0) =~= Seq::<AgentView>::empty());
    assert(agents_at(*exec, order@) =~= Seq::<AgentView>::empty());
    while k < n
        invariant
            n == exec.agents.entries().len(),
            all == ordered_agents(*exec),
            k <= n,
            forall|q: int| 0 <= q < order@.len() ==> #[trigger] order@[q] < k,
            agents_at(*exec, order@) == sort_by_task(all.take(k as int)),
        decreases n - k,
    {
        let (_, agent) = exec.agents.entry_at(k);
        let ghost s = agents_at(*exec, order@);
        let ghost a = agent@;
        assert(all[k as int] == a);
        let mut j: usize = order.len();
        while j > 0
            invariant
                j <= order@.len(),
                s == agents_at(*exec, order@),
                forall|q: int| 0 <= q < order@.len() ==> #[trigger] order@[q] < k,
                k < n,
                n == exec.agents.entries().len(),
                a == agent@,
                forall|i: int| j <= i < s.len() ==> !text_le(#[trigger] s[i].task, a.task),
            ensures
                j <= order@.len(),
                forall|i: int| j <= i < s.len() ==> !text_le(#[trigger] s[i].task, a.task),
                j == 0 || text_le(s[j - 1].task, a.task),
            decreases j,
        {
            let (_, other) = exec.agents.entry_at(order[j - 1]);
            assert(s[j - 1] == other@);
            if task_le(&other.task, &agent.task) {
                break;
            }
            j = j - 1;
        }
        proof {
            lemma_insert_position(s, a, j as int);
            assert(all.take(k + 1).drop_last() =~= all.take(k as int));
            assert(all.take(k + 1).last() == a);
        }
        order.insert(j, k);
        proof {
            assert(agents_at(*exec, order@) =~= s.take(j as int) + seq![a] + s.skip(j as int));
        }
        k = k + 1;
    }
    assert(all.take(n as int) =~= all);
    order
}

fn exit_string(op: &OperationState) -> (s: String)
    ensures
        s@ == exit_text(op@),
{
    match op.committed_exit_code {
        Some(c) => crate::text::join2(" exit ", i64_text(c as i64).as_str()),
        None => String::new(),
    }
}

fn lease_string(op: &OperationState) -> (s: String)
    ensures
        s@ == lease_text(op@),
{
    match &op.lease {
        Some(l) => {
            let mut s = crate::text::join2(" leased gen=", u64_text(l.generation).as_str());
            s.append(" ");
            s.append(l.executor_id.as_str());
            if l.expired {
                s.append(" EXPIRED");
            } else {
                proof {
                    reveal_strlit("");
                }
                assert(s@ =~= s@ + Seq::<char>::empty());
            }
            s
        },
        None => String::new(),
    }
}

fn append_op_line(out: &mut String, indent: &str, op: &OperationState)
    ensures
        final(out)@ == old(out)@ + op_line(indent@, op@),
{
    let exit = exit_string(op);
    let lease = lease_string(op);
    out.append(indent);
    out.append("│     └── op ");
    out.append(short(op.id.0).as_str());
    out.append(" [");
    out.append(status_op(op.status));
    out.append(exit.as_str());
    out.append(lease.as_str());
    out.append("]\n");
    assert(final(out)@ =~= old(out)@ + op_line(indent@, op@));
}

fn append_agent_block(out: &mut String, exec: &ExecutionState, agent: &AgentState)
    ensures
        final(out)@ == old(out)@ + agent_block(ordered_operations(*exec), agent@),
{
    let child = agent.parent_agent_id.is_some();
    let indent = if child { "│   " } else { "" };
    let branch = if child { "└── " } else { "├── " };
    let ghost start = out@;
    out.append(indent);
    out.append(branch);
    out.append("Agent ");
    out.append(short(agent.id.0).as_str());
    out.append(" [");
    out.append(status_agent(agent.status));
    out.append("]\n");
    out.append(indent);
    out.append("│     ");
    out.append(agent.task.as_str());
    out.append("\n");
    proof {
        reveal_strlit("");
    }
    let ghost head = out@;
    let ghost ops = ordered_operations(*exec);
    assert(indent@ == agent_indent(agent@));
    let n = exec.operations.len();
    let mut i: usize = 0;
    assert(ops.take(0) =~= Seq::<OperationView>::empty());
    while i < n
        invariant
            n == exec.operations.entries().len(),
            ops == ordered_operations(*exec),
            i <= n,
            indent@ == agent_indent(agent@),
            out@ == head + ops_text(indent@, ops.take(i as int), agent.id),
        decreases n - i,
    {
        let (_, op) = exec.operations.entry_at(i);
        assert(ops.take(i + 1).drop_last() =~= ops.take(i as int));
        assert(ops.take(i + 1).last() == op@);
        if op.agent_id == agent.id {
            append_op_line(out, indent, op);
            assert(out@ =~= head + ops_text(indent@, ops.take(i + 1), agent.id));
        }
        i = i + 1;
    }
    assert(ops.take(n as int) =~= ops);
    let ghost branch_v = if agent@.parent_agent_id is Some { "└── "@ } else { "├── "@ };
    assert(head =~= start + (agent_indent(agent@) + branch_v + "Agent "@ + short_id(agent@.id.0) + " ["@ + agent_label(agent@.status) + "]\n"@ + agent_indent(agent@) + "│     "@ + agent@.task + "\n"@));
    assert(out@ =~= start + agent_block(ops, agent@));
}

fn append_join_line(out: &mut String, join: &JoinState)
    ensures
        final(out)@ == old(out)@ + join_line(join@),
{
    let ghost kids = join@.children;
    let ghost obs = join@.observed;
    let mut waiting = String::new();
    let mut i: usize = 0;
    assert(kids.take(0) =~= Seq::<AgentId>::empty());
    while i < join.children.len()
        invariant
            kids == join@.children,
            obs == join@.observed,
            i <= kids.len(),
            waiting@ == waiting_list(kids.take(i as int), obs),
        decreases kids.len() - i,
    {
        let c = join.children[i];
        assert(kids.take(i + 1).drop_last() =~= kids.take(i as int));
        assert(kids.take(i + 1).last() == c);
        if !crate::reducer::has_observed(&join.observed, c) {
            if waiting.unicode_len() > 0 {
                waiting.append(", ");
            }
            let ghost before = waiting@;
            waiting.append(short(c.0).as_str());
            proof {
                if before.len() == 0 {
                    assert(waiting@ =~= short_id(c.0));
                }
            }
        }
        i = i + 1;
    }
    assert(kids.take(kids.len() as int) =~= kids);
    let ghost start = out@;
    out.append("└── Join ");
    out.append(short(join.id.0).as_str());
    out.append(" [");
    match join.outcome {
        None => out.append("None"),
        Some(o) => {
            out.append("Some(");
            out.append(o.name());
            out.append(")");
        },
    }
    out.append("] waiting on ");
    if waiting.unicode_len() == 0 {
        out.append("(none)");
    } else {
        out.append(waiting.as_str());
    }
    out.append("\n");
    assert(out@ =~= start + join_line(join@));
}

/// Renders the tree of an execution: its first goal, its agents sorted by
/// task with their operations, and its joins with the children they still
/// wait on.
pub fn render_tree(exec: &ExecutionState) -> (s: String)
    ensures
        s@ == tree_text(*exec),
{
    let mut out = String::new();
    if exec.goals.len() > 0 {
        let (_, goal) = exec.goals.entry_at(0);
        out.append("Goal ");
        out.append(short(goal.id.0).as_str());
        out.append(" [");
        out.append(status_goal(goal.status));
        out.append("]\n  ");
        out.append(goal.objective.as_str());
        out.append("\n");
    } else {
        out.append("Goal (none)\n");
    }
    assert(out@ =~= goal_text(*exec));
    let ghost ops = ordered_operations(*exec);
    let order = sorted_agent_order(exec);
    let ghost sorted = agents_at(*exec, order@);
    let ghost head = out@;
    let mut i: usize = 0;
    assert(sorted.take(0) =~= Seq::<AgentView>::empty());
    while i < order.len()
        invariant
            i <= order@.len(),
            sorted == agents_at(*exec, order@),
            forall|k: int| 0 <= k < order@.len() ==> #[trigger] order@[k] < exec.agents.entries().len(),
            ops == ordered_operations(*exec),
            out@ == head + agents_text(ops, sorted.take(i as int)),
        decreases order@.len() - i,
    {
        let (_, agent) = exec.agents.entry_at(order[i]);
        assert(sorted.take(i + 1).drop_last() =~= sorted.take(i as int));
        assert(sorted.take(i + 1).last() == agent@);
        append_agent_block(&mut out, exec, agent);
        assert(out@ =~= head + agents_text(ops, sorted.take(i + 1)));
        i = i + 1;
    }
    assert(sorted.take(order@.len() as int) =~= sorted);
    let ghost mid = out@;
    let ghost joins = ordered_joins(*exec);
    let n = exec.joins.len();
    let mut k: usize = 0;
    assert(joins.take(0) =~= Seq::<JoinView>::empty());
    while k < n
        invariant
            n == exec.joins.entries().len(),
            joins == ordered_joins(*exec),
            k <= n,
            out@ == mid + joins_text(joins.take(k as int)),
        decreases n - k,
    {
        let (_, join) = exec.joins.entry_at(k);
        assert(joins.take(k + 1).drop_last() =~= joins.take(k as int));
        assert(joins.take(k + 1).last() == join@);
        append_join_line(&mut out, join);
        assert(out@ =~= mid + joins_text(joins.take(k + 1)));
        k = k + 1;
    }
    assert(joins.take(n as int) =~= joins);
    assert(out@ =~= tree_text(*exec));
    out
}

} // verus!
