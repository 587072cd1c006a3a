//! Mechanical scheduler: the model decides semantic work; this decides what
//! may run now given leases, concurrency limits and capability allowlists.
use vstd::prelude::*;

use crate::error::KernelError;
use crate::event::{AgentStatus, OperationStatus};
use crate::ids::{AgentId, OperationId};
use crate::state::{AgentState, AgentView, ExecutionState, ExecutionView, OperationState, OperationView};
use crate::text::chars_of;

verus! {

/// A path separator, either style.
pub open spec fn is_separator(c: char) -> bool {
    c == '/' || c == '\\'
}

/// A non-empty name without any path separator.
pub open spec fn is_bare_name(s: Seq<char>) -> bool {
    s.len() > 0 && forall|i: int| 0 <= i < s.len() ==> !is_separator(#[trigger] s[i])
}

/// `s` without its trailing separators.
pub open spec fn trim_trailing_separators(s: Seq<char>) -> Seq<char>
    decreases s.len(),
{
    if s.len() > 0 && is_separator(s.last()) {
        trim_trailing_separators(s.drop_last())
    } else {
        s
    }
}

/// The characters after the last separator of `s` (all of `s` when it has none).
pub open spec fn last_component(s: Seq<char>) -> Seq<char>
    decreases s.len(),
{
    if s.len() == 0 || is_separator(s.last()) {
        Seq::empty()
    } else {
        last_component(s.drop_last()).push(s.last())
    }
}

/// Final path component of a command, after trailing separators are dropped;
/// `None` when nothing but separators remains.
pub open spec fn basename_of(cmd: Seq<char>) -> Option<Seq<char>> {
    let t = trim_trailing_separators(cmd);
    if t.len() == 0 {
        None
    } else {
        Some(last_component(t))
    }
}

/// An allowlist entry matches an argv0 exactly, or, when the entry is a bare
/// name, by being exactly the argv0's final path component.
pub open spec fn executable_matches_spec(argv0: Seq<char>, allow: Seq<char>) -> bool {
    argv0 == allow || (is_bare_name(allow) && basename_of(argv0) == Some(allow))
}

/// Some entry of the allowlist matches the argv0.
pub open spec fn command_allowed_spec(argv0: Seq<char>, allowlist: Seq<Seq<char>>) -> bool {
    exists|i: int| 0 <= i < allowlist.len() && executable_matches_spec(argv0, #[trigger] allowlist[i])
}

fn is_separator_char(c: char) -> (b: bool)
    ensures
        b == is_separator(c),
{
    c == '/' || c == '\\'
}

fn same_chars(a: &Vec<char>, b: &Vec<char>) -> (r: bool)
    ensures
        r == (a@ == b@),
{
    if a.len() != b.len() {
        return false;
    }
    let mut i: usize = 0;
    while i < a.len()
        invariant
            a@.len() == b@.len(),
            i <= a@.len(),
            forall|j: int| 0 <= j < i ==> a@[j] == b@[j],
        decreases a@.len() - i,
    {
        if a[i] != b[i] {
            return false;
        }
        i = i + 1;
    }
    assert(a@ =~= b@);
    true
}

fn is_bare_executable_name(name: &Vec<char>) -> (b: bool)
    ensures
        b == is_bare_name(name@),
{
    if name.len() == 0 {
        return false;
    }
    let mut i: usize = 0;
    while i < name.len()
        invariant
            i <= name@.len(),
            forall|j: int| 0 <= j < i ==> !is_separator(#[trigger] name@[j]),
        decreases name@.len() - i,
    {
        if is_separator_char(name[i]) {
            return false;
        }
        i = i + 1;
    }
    true
}

fn executable_basename(cmd: &Vec<char>) -> (r: Option<Vec<char>>)
    ensures
        match r {
            Some(v) => basename_of(cmd@) == Some(v@),
            None => basename_of(cmd@) is None,
        },
{
    let mut end: usize = cmd.len();
    assert(cmd@.subrange(0, end as int) =~= cmd@);
    while end > 0 && is_separator_char(cmd[end - 1])
        invariant
            end <= cmd@.len(),
            trim_trailing_separators(cmd@) == trim_trailing_separators(cmd@.subrange(0, end as int)),
        decreases end,
    {
        assert(cmd@.subrange(0, end as int).drop_last() =~= cmd@.subrange(0, end - 1));
        end = end - 1;
    }
    let ghost t = cmd@.subrange(0, end as int);
    assert(trim_trailing_separators(cmd@) == t);
    if end == 0 {
        return None;
    }
    let mut start: usize = end;
    while start > 0 && !is_separator_char(cmd[start - 1])
        invariant
            start <= end <= cmd@.len(),
            t == cmd@.subrange(0, end as int),
            last_component(t) == last_component(cmd@.subrange(0, start as int)) + cmd@.subrange(
                start as int,
                end as int,
            ),
        decreases start,
    {
        let ghost before = cmd@.subrange(0, start as int);
        assert(before.drop_last() =~= cmd@.subrange(0, start - 1));
        assert(last_component(before) == last_component(cmd@.subrange(0, start - 1)).push(
            cmd@[start - 1],
        ));
        assert(last_component(cmd@.subrange(0, start - 1)).push(cmd@[start - 1]) + cmd@.subrange(
            start as int,
            end as int,
        ) =~= last_component(cmd@.subrange(0, start - 1)) + cmd@.subrange(start - 1, end as int));
        start = start - 1;
    }
    assert(last_component(cmd@.subrange(0, start as int)) =~= Seq::<char>::empty());
    let mut out: Vec<char> = Vec::new();
    let mut i: usize = start;
    while i < end
        invariant
            start <= i <= end <= cmd@.len(),
            out@ =~= cmd@.subrange(start as int, i as int),
        decreases end - i,
    {
        out.push(cmd[i]);
        i = i + 1;
    }
    assert(last_component(t) =~= out@);
    Some(out)
}

fn executable_matches(argv0: &Vec<char>, allow: &Vec<char>) -> (b: bool)
    ensures
        b == executable_matches_spec(argv0@, allow@),
{
    if same_chars(argv0, allow) {
        return true;
    }
    if !is_bare_executable_name(allow) {
        return false;
    }
    match executable_basename(argv0) {
        Some(base) => same_chars(&base, allow),
        None => false,
    }
}

/// Allowlist match is an executable boundary, never an arbitrary suffix.
///
/// An entry with a path separator (`/` or `\`) matches only that exact
/// argv0. A bare name matches argv0 itself or an argv0 whose final path
/// component is exactly that name: `echo` allows `echo` and `/bin/echo`, but
/// not `/tmp/malicious-echo`, `my-echo` or `bash`.
pub fn command_allowed(argv0: &str, allowlist: &[String]) -> (b: bool)
    ensures
        b == command_allowed_spec(argv0@, allowlist@.map_values(|s: String| s@)),
{
    let a = chars_of(argv0);
    let ghost list = allowlist@.map_values(|s: String| s@);
    let mut i: usize = 0;
    while i < allowlist.len()
        invariant
            a@ == argv0@,
            list == allowlist@.map_values(|s: String| s@),
            i <= allowlist@.len(),
            forall|j: int| 0 <= j < i ==> !executable_matches_spec(argv0@, #[trigger] list[j]),
        decreases allowlist@.len() - i,
    {
        let entry = chars_of(allowlist[i].as_str());
        if executable_matches(&a, &entry) {
            assert(list[i as int] == allowlist@[i as int]@);
            return true;
        }
        i = i + 1;
    }
    false
}

#[derive(Clone, Debug)]
pub struct SchedulerConfig {
    pub max_concurrent_operations: usize,
    pub max_concurrent_agents: usize,
}

impl Default for SchedulerConfig {
    fn default() -> (c: Self)
        ensures
            c.max_concurrent_operations == 8,
            c.max_concurrent_agents == 16,
    {
        SchedulerConfig { max_concurrent_operations: 8, max_concurrent_agents: 16 }
    }
}

#[derive(Clone, Debug, PartialEq, Eq)]
pub struct ScheduleDecision {
    pub runnable_agents: Vec<AgentId>,
    pub runnable_operations: Vec<OperationId>,
    pub blocked_operations: Vec<OperationId>,
}

/// An operation in one of these states holds a concurrency slot.
pub open spec fn holds_operation_slot(s: OperationStatus) -> bool {
    s is Leased || s is Running || s is WaitingExternal
}

/// An agent in one of these states counts as running.
pub open spec fn holds_agent_slot(s: AgentStatus) -> bool {
    s is Running || s is WaitingExternal
}

/// Operations the scheduler considers for a slot.
pub open spec fn is_schedulable(s: OperationStatus) -> bool {
    s is Ready || s is Orphaned
}

/// The operations of an execution in ascending identifier order.
pub open spec fn ordered_operations(exec: ExecutionState) -> Seq<OperationView> {
    exec.operations.entries().map_values(|p: (u128, OperationState)| p.1@)
}

/// The agents of an execution in ascending identifier order.
pub open spec fn ordered_agents(exec: ExecutionState) -> Seq<AgentView> {
    exec.agents.entries().map_values(|p: (u128, AgentState)| p.1@)
}

/// How many operations of `ops` hold a slot.
pub open spec fn count_holding_operations(ops: Seq<OperationView>) -> nat
    decreases ops.len(),
{
    if ops.len() == 0 {
        0
    } else {
        count_holding_operations(ops.drop_last()) + if holds_operation_slot(ops.last().status) {
            1nat
        } else {
            0nat
        }
    }
}

/// How many agents of `agents` are running.
pub open spec fn count_running_agents(agents: Seq<AgentView>) -> nat
    decreases agents.len(),
{
    if agents.len() == 0 {
        0
    } else {
        count_running_agents(agents.drop_last()) + if holds_agent_slot(agents.last().status) {
            1nat
        } else {
            0nat
        }
    }
}

/// `a - b`, or zero when `b` exceeds `a`.
pub open spec fn saturating_sub(a: int, b: int) -> int {
    if a >= b {
        a - b
    } else {
        0
    }
}

/// The operation's first argv word is refused by the allowlist of its
/// agent's capability (an empty allowlist refuses nothing).
pub open spec fn refused_by_capability(e: ExecutionView, op: OperationView) -> bool {
    &&& e.agents.contains_key(op.agent_id.0)
    &&& match e.agents[op.agent_id.0].capability_id {
        Some(cap) => {
            let k = cap.0;
            &&& e.capabilities.contains_key(k)
            &&& e.capabilities[k].command_allowlist.len() > 0
            &&& op.argv.len() > 0
            &&& !command_allowed_spec(op.argv[0], e.capabilities[k].command_allowlist)
        },
        None => false,
    }
}

/// Walk of the operations in order with `slots` free slots: the runnable
/// ones, the blocked ones, and the slots left.
pub open spec fn operation_pass(e: ExecutionView, ops: Seq<OperationView>, slots: int) -> (
    Seq<OperationId>,
    Seq<OperationId>,
    int,
)
    decreases ops.len(),
{
    if ops.len() == 0 {
        (Seq::empty(), Seq::empty(), slots)
    } else {
        let prev = operation_pass(e, ops.drop_last(), slots);
        let op = ops.last();
        if !is_schedulable(op.status) {
            prev
        } else if refused_by_capability(e, op) || prev.2 == 0 {
            (prev.0, prev.1.push(op.id), prev.2)
        } else {
            (prev.0.push(op.id), prev.1, prev.2 - 1)
        }
    }
}

/// Walk of the agents in order with `slots` free slots: the runnable ones
/// and the slots left.
pub open spec fn agent_pass(agents: Seq<AgentView>, slots: int) -> (Seq<AgentId>, int)
    decreases agents.len(),
{
    if agents.len() == 0 {
        (Seq::empty(), slots)
    } else {
        let prev = agent_pass(agents.drop_last(), slots);
        let a = agents.last();
        if a.status is Runnable && prev.1 > 0 {
            (prev.0.push(a.id), prev.1 - 1)
        } else {
            prev
        }
    }
}

/// The decision the scheduler owes for an execution and a configuration.
pub open spec fn schedule_spec(exec: ExecutionState, cfg: SchedulerConfig) -> (
    Seq<AgentId>,
    Seq<OperationId>,
    Seq<OperationId>,
) {
    let ops = ordered_operations(exec);
    let agents = ordered_agents(exec);
    let op_slots = saturating_sub(
        cfg.max_concurrent_operations as int,
        count_holding_operations(ops) as int,
    );
    let agent_slots = saturating_sub(
        cfg.max_concurrent_agents as int,
        count_running_agents(agents) as int,
    );
    let o = operation_pass(exec@, ops, op_slots);
    (agent_pass(agents, agent_slots).0, o.0, o.1)
}

proof fn lemma_count_ops_bounded(ops: Seq<OperationView>)
    ensures
        count_holding_operations(ops) <= ops.len(),
    decreases ops.len(),
{
    if ops.len() > 0 {
        lemma_count_ops_bounded(ops.drop_last());
    }
}

proof fn lemma_count_agents_bounded(agents: Seq<AgentView>)
    ensures
        count_running_agents(agents) <= agents.len(),
    decreases agents.len(),
{
    if agents.len() > 0 {
        lemma_count_agents_bounded(agents.drop_last());
    }
}

proof fn lemma_operation_pass_bounds(e: ExecutionView, ops: Seq<OperationView>, slots: int)
    requires
        slots >= 0,
    ensures
        0 <= operation_pass(e, ops, slots).2 <= slots,
        operation_pass(e, ops, slots).0.len() <= ops.len(),
        operation_pass(e, ops, slots).1.len() <= ops.len(),
    decreases ops.len(),
{
    if ops.len() > 0 {
        lemma_operation_pass_bounds(e, ops.drop_last(), slots);
    }
}

proof fn lemma_agent_pass_bounds(agents: Seq<AgentView>, slots: int)
    requires
        slots >= 0,
    ensures
        0 <= agent_pass(agents, slots).1 <= slots,
        agent_pass(agents, slots).0.len() <= agents.len(),
    decreases agents.len(),
{
    if agents.len() > 0 {
        lemma_agent_pass_bounds(agents.drop_last(), slots);
    }
}

/// How many operations of `ops` are leased, running or waiting on
/// something external.
pub open spec fn active_operations(ops: Seq<OperationView>) -> nat
    decreases ops.len(),
{
    if ops.len() == 0 {
        0
    } else {
        active_operations(ops.drop_last()) + if ops.last().status == OperationStatus::Leased
            || ops.last().status == OperationStatus::Running || ops.last().status
            == OperationStatus::WaitingExternal {
            1nat
        } else {
            0nat
        }
    }
}

proof fn lemma_active_is_holding(ops: Seq<OperationView>)
    ensures
        active_operations(ops) == count_holding_operations(ops),
    decreases ops.len(),
{
    if ops.len() > 0 {
        lemma_active_is_holding(ops.drop_last());
    }
}

proof fn lemma_operation_pass_uses_slots(e: ExecutionView, ops: Seq<OperationView>, slots: int)
    requires
        slots >= 0,
    ensures
        operation_pass(e, ops, slots).0.len() + operation_pass(e, ops, slots).2 == slots,
    decreases ops.len(),
{
    if ops.len() > 0 {
        lemma_operation_pass_uses_slots(e, ops.drop_last(), slots);
        lemma_operation_pass_bounds(e, ops.drop_last(), slots);
    }
}

/// The scheduler never exceeds the operation limit: the operations it makes
/// runnable, together with those already leased, running or waiting on
/// something external, fit within `max_concurrent_operations` whenever the
/// latter already do; when they already fill it, nothing is made runnable.
pub proof fn lemma_schedule_keeps_operation_limit(exec: ExecutionState, cfg: SchedulerConfig)
    ensures
        active_operations(ordered_operations(exec)) <= cfg.max_concurrent_operations ==> schedule_spec(
            exec,
            cfg,
        ).1.len() + active_operations(ordered_operations(exec)) <= cfg.max_concurrent_operations,
        active_operations(ordered_operations(exec)) >= cfg.max_concurrent_operations ==> schedule_spec(
            exec,
            cfg,
        ).1.len() == 0,
{
    let ops = ordered_operations(exec);
    lemma_active_is_holding(ops);
    let slots = saturating_sub(cfg.max_concurrent_operations as int, count_holding_operations(ops) as int);
    lemma_operation_pass_uses_slots(exec@, ops, slots);
    lemma_operation_pass_bounds(exec@, ops, slots);
}

/// Whether the operation's argv is refused by its agent's capability.
fn operation_refused(exec: &ExecutionState, op: &OperationState) -> (b: bool)
    ensures
        b == refused_by_capability(exec@, op@),
{
    match exec.agents.get(op.agent_id.0) {
        None => false,
        Some(agent) => match agent.capability_id {
            None => false,
            Some(cap_id) => match exec.capabilities.get(cap_id.0) {
                None => false,
                Some(cap) => {
                    if cap.command_allowlist.len() == 0 || op.argv.len() == 0 {
                        false
                    } else {
                        !command_allowed(op.argv[0].as_str(), cap.command_allowlist.as_slice())
                    }
                },
            },
        },
    }
}

/// Mechanical scheduler: the model decides semantic work; this decides
/// what is allowed to run now given leases, concurrency, and dependencies.
///
/// Operations are walked in ascending identifier order: a `Ready` or
/// `Orphaned` one whose argv0 its capability refuses is blocked; otherwise it
/// takes a free slot if one is left, and is blocked if none is. Agents in
/// `Runnable` take the free agent slots in ascending identifier order.
pub fn schedule(exec: &ExecutionState, cfg: &SchedulerConfig) -> (r: Result<
    ScheduleDecision,
    KernelError,
>)
    ensures
        r matches Ok(d) && (d.runnable_agents@, d.runnable_operations@, d.blocked_operations@)
            == schedule_spec(*exec, *cfg),
{
    let ghost ops = ordered_operations(*exec);
    let ghost agents = ordered_agents(*exec);
    let n_ops = exec.operations.len();
    let n_agents = exec.agents.len();

    let mut running_ops: usize = 0;
    let mut i: usize = 0;
    while i < n_ops
        invariant
            n_ops == exec.operations.entries().len(),
            ops == ordered_operations(*exec),
            i <= n_ops,
            running_ops == count_holding_operations(ops.take(i as int)),
            running_ops <= i,
        decreases n_ops - i,
    {
        let (_, op) = exec.operations.entry_at(i);
        assert(ops.take(i + 1).drop_last() =~= ops.take(i as int));
        if matches!(
            op.status,
            OperationStatus::Leased | OperationStatus::Running | OperationStatus::WaitingExternal
        ) {
            running_ops = running_ops + 1;
        }
        i = i + 1;
    }
    assert(ops.take(n_ops as int) =~= ops);

    let mut running_agents: usize = 0;
    let mut i: usize = 0;
    while i < n_agents
        invariant
            n_agents == exec.agents.entries().len(),
            agents == ordered_agents(*exec),
            i <= n_agents,
            running_agents == count_running_agents(agents.take(i as int)),
            running_agents <= i,
        decreases n_agents - i,
    {
        let (_, agent) = exec.agents.entry_at(i);
        assert(agents.take(i + 1).drop_last() =~= agents.take(i as int));
        if matches!(agent.status, AgentStatus::Running | AgentStatus::WaitingExternal) {
            running_agents = running_agents + 1;
        }
        i = i + 1;
    }
    assert(agents.take(n_agents as int) =~= agents);

    let mut runnable_operations: Vec<OperationId> = Vec::new();
    let mut blocked_operations: Vec<OperationId> = Vec::new();
    let mut slots: usize = cfg.max_concurrent_operations.saturating_sub(running_ops);
    let ghost slots0 = slots as int;
    let mut i: usize = 0;
    while i < n_ops
        invariant
            n_ops == exec.operations.entries().len(),
            ops == ordered_operations(*exec),
            i <= n_ops,
            slots0 >= 0,
            (runnable_operations@, blocked_operations@, slots as int) == operation_pass(
                exec@,
                ops.take(i as int),
                slots0,
            ),
        decreases n_ops - i,
    {
        let (_, op) = exec.operations.entry_at(i);
        assert(ops.take(i + 1).drop_last() =~= ops.take(i as int));
        assert(ops.take(i + 1).last() == op@);
        match op.status {
            OperationStatus::Ready | OperationStatus::Orphaned => {
                if operation_refused(exec, op) || slots == 0 {
                    blocked_operations.push(op.id);
                } else {
                    runnable_operations.push(op.id);
                    slots = slots - 1;
                }
            },
            _ => {},
        }
        i = i + 1;
    }
    assert(ops.take(n_ops as int) =~= ops);

    let mut agent_slots: usize = cfg.max_concurrent_agents.saturating_sub(running_agents);
    let ghost agent_slots0 = agent_slots as int;
    let mut runnable_agents: Vec<AgentId> = Vec::new();
    let mut i: usize = 0;
    while i < n_agents
        invariant
            n_agents == exec.agents.entries().len(),
            agents == ordered_agents(*exec),
            i <= n_agents,
            agent_slots0 >= 0,
            (runnable_agents@, agent_slots as int) == agent_pass(agents.take(i as int), agent_slots0),
        decreases n_agents - i,
    {
        let (_, agent) = exec.agents.entry_at(i);
        assert(agents.take(i + 1).drop_last() =~= agents.take(i as int));
        assert(agents.take(i + 1).last() == agent@);
        if agent.status == AgentStatus::Runnable && agent_slots > 0 {
            runnable_agents.push(agent.id);
            agent_slots = agent_slots - 1;
        }
        i = i + 1;
    }
    assert(agents.take(n_agents as int) =~= agents);
    Ok(ScheduleDecision { runnable_agents, runnable_operations, blocked_operations })
}

} // verus!
