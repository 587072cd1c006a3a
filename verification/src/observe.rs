//! Observation-only adapter: mirrors Codex facts into the kernel and reports
//! where Codex and the kernel disagree. It does not control Codex.

use vstd::prelude::*;
use crate::error::{error_text, rejected, KernelError, Rejection};
use crate::event::{EventRecord, OperationStatus};
use crate::idmap::IdMap;
use crate::ids::{uuid_text_spec, AgentId, AttemptId, GoalId, LeaseOwnerId, OperationId};
use crate::kernel::{
    chain_result, committed_payload, execution_created_payload, key_text, process_exited_payload,
    process_started_payload, Kernel, LogBackend,
};
use crate::state::texts;
use crate::text::{decimal_text, i64_text, signed_text, u64_text};
use crate::viewer::{bool_str, bool_text, str_debug, str_debug_text};

verus! {

/// Codex `main` SHA this adapter was checked against.
pub const TESTED_UPSTREAM_HEAD: &'static str = "41d3dc56a0e1de47e30a9585c1b49253c082f8f7";

/// Unified exec yield return after `exec_command` (`process_manager.rs`).
pub const UNIFIED_EXEC_SOURCE: &'static str = "codex-rs/core/src/unified_exec/process_manager.rs";

/// Model-owned goal completion (`ext/goal/src/tool.rs` `handle_update`).
pub const GOAL_UPDATE_SOURCE: &'static str = "codex-rs/ext/goal/src/tool.rs";

/// A fact Codex reports about its own run.
#[derive(Clone, Debug, PartialEq, Eq)]
pub enum CodexFact {
    ExecCommandStarted { session_id: i32, argv: Vec<String> },
    ExecYieldReturned {
        session_id: i32,
        process_id: Option<i32>,
        wrapper_output: String,
        tool_call_completed: bool,
    },
    OsProcessExited { session_id: i32, exit_code: i32 },
    ModelTurnFinished { last_message: String },
    ChildAgentTurnComplete { child: String },
    GoalMarkedComplete,
}

/// A point where Codex's view and the kernel's view differ.
#[derive(Clone, Debug, PartialEq, Eq)]
pub struct Disagreement {
    pub code: String,
    pub codex_view: String,
    pub kernel_view: String,
    pub source: String,
}

/// The texts of a disagreement.
pub struct DisagreementView {
    pub code: Seq<char>,
    pub codex_view: Seq<char>,
    pub kernel_view: Seq<char>,
    pub source: Seq<char>,
}

impl View for Disagreement {
    type V = DisagreementView;

    open spec fn view(&self) -> DisagreementView {
        DisagreementView {
            code: self.code@,
            codex_view: self.codex_view@,
            kernel_view: self.kernel_view@,
            source: self.source@,
        }
    }
}

/// Unified exec's tool response after the initial yield wait: a live
/// process keeps its `process_id` in the response.
pub fn tool_response_process_id(has_exited: bool, session_id: i32) -> (r: Option<i32>)
    ensures
        r == (if has_exited {
            None
        } else {
            Some(session_id)
        }),
{
    if has_exited {
        None
    } else {
        Some(session_id)
    }
}

/// The key a session id is kept under: its value shifted to be non-negative,
/// which keeps the order of session ids.
pub open spec fn session_key(s: i32) -> u128 {
    (s + 2147483648) as u128
}

fn session_slot(s: i32) -> (k: u128)
    ensures
        k == session_key(s),
{
    let shifted: i64 = s as i64 + 2147483648i64;
    shifted as u128
}

/// The pid recorded for a session: the session id, at least 1.
pub open spec fn observed_pid(s: i32) -> u32 {
    if s < 1 {
        1
    } else {
        s as u32
    }
}

/// The `{:?}` text of an optional `i32`.
pub open spec fn opt_i32_debug(o: Option<i32>) -> Seq<char> {
    match o {
        Some(n) => "Some("@ + signed_text(n as int) + ")"@,
        None => "None"@,
    }
}

fn opt_i32_text(o: Option<i32>) -> (s: String)
    ensures
        s@ == opt_i32_debug(o),
{
    match o {
        Some(n) => {
            let mut s = String::from_str("Some(");
            let digits = i64_text(n as i64);
            s.append(digits.as_str());
            s.append(")");
            s
        },
        None => String::from_str("None"),
    }
}

/// The disagreement when the tool call completed while the process is live.
pub open spec fn running_disagreement(
    op: OperationId,
    status: OperationStatus,
    exited: bool,
    process_id: Option<i32>,
    wrapper_output: Seq<char>,
) -> DisagreementView {
    DisagreementView {
        code: "wrapper_complete_process_running"@,
        codex_view: "tool call completed with process_id="@ + opt_i32_debug(process_id) + "; wrapper="@
            + str_debug_text(wrapper_output),
        kernel_view: "operation "@ + uuid_text_spec(op.0) + " status="@ + status.spec_name()
            + " process_exited="@ + bool_text(exited),
        source: UNIFIED_EXEC_SOURCE@,
    }
}

/// The disagreement when Codex completed a goal the kernel refuses to complete.
pub open spec fn unfinished_disagreement(e: KernelError) -> DisagreementView {
    DisagreementView {
        code: "goal_complete_unfinished_work"@,
        codex_view: "update_goal(complete) accepted with no child/process gate"@,
        kernel_view: error_text(e),
        source: GOAL_UPDATE_SOURCE@,
    }
}

fn wrapper_disagreement(
    op: OperationId,
    status: OperationStatus,
    exited: bool,
    process_id: Option<i32>,
    wrapper_output: &str,
) -> (d: Disagreement)
    ensures
        d@ == running_disagreement(op, status, exited, process_id, wrapper_output@),
{
    let mut codex_view = String::from_str("tool call completed with process_id=");
    let pid = opt_i32_text(process_id);
    codex_view.append(pid.as_str());
    codex_view.append("; wrapper=");
    let quoted = str_debug(wrapper_output);
    codex_view.append(quoted.as_str());
    let mut kernel_view = String::from_str("operation ");
    let id = op.to_string();
    kernel_view.append(id.as_str());
    kernel_view.append(" status=");
    kernel_view.append(status.name());
    kernel_view.append(" process_exited=");
    kernel_view.append(bool_str(exited));
    Disagreement {
        code: String::from_str("wrapper_complete_process_running"),
        codex_view,
        kernel_view,
        source: String::from_str(UNIFIED_EXEC_SOURCE),
    }
}

fn goal_disagreement(e: &KernelError) -> (d: Disagreement)
    ensures
        d@ == unfinished_disagreement(*e),
{
    Disagreement {
        code: String::from_str("goal_complete_unfinished_work"),
        codex_view: String::from_str("update_goal(complete) accepted with no child/process gate"),
        kernel_view: e.to_string(),
        source: String::from_str(GOAL_UPDATE_SOURCE),
    }
}

/// The texts of each disagreement.
pub open spec fn views(v: Seq<Disagreement>) -> Seq<DisagreementView> {
    v.map_values(|d: Disagreement| d@)
}

fn none_found() -> (v: Vec<Disagreement>)
    ensures
        views(v@) == Seq::<DisagreementView>::empty(),
{
    let v = Vec::new();
    proof {
        assert(views(v@) =~= Seq::<DisagreementView>::empty());
    }
    v
}

/// The disagreements of a result, by their texts.
pub open spec fn found_view(r: Result<Vec<Disagreement>, KernelError>) -> Result<
    Seq<DisagreementView>,
    KernelError,
> {
    match r {
        Ok(v) => Ok(views(v@)),
        Err(e) => Err(e),
    }
}

/// Nothing found, or the error of the step that failed.
pub open spec fn nothing_or<T>(r: Result<T, KernelError>) -> Result<Seq<DisagreementView>, KernelError> {
    match r {
        Ok(_) => Ok(Seq::empty()),
        Err(e) => Err(e),
    }
}

/// The exit of an attempt's process is recorded, then its operation is
/// committed under a lease generation; `found` is nothing, or the error of
/// the step that failed.
pub open spec fn exit_then_commit<B: LogBackend>(
    k: Kernel<B>,
    new: Kernel<B>,
    op: OperationId,
    att: AttemptId,
    gen: u64,
    exit_code: i32,
    found: Result<Seq<DisagreementView>, KernelError>,
) -> bool {
    exists|mid: Kernel<B>, r1: Result<EventRecord, KernelError>, r2: Result<EventRecord, KernelError>|
        #[trigger] k.chain2(
            &mid,
            &new,
            r1,
            r2,
            process_exited_payload(op, att, exit_code, None, false),
            key_text("proc_exited"@, uuid_text_spec(op.0) + ":"@ + uuid_text_spec(att.0)),
            committed_payload(op, att, gen, exit_code),
            key_text("op_committed"@, uuid_text_spec(op.0) + ":"@ + uuid_text_spec(att.0)),
        ) && found == nothing_or(chain_result(r1, r2))
}

/// Mirrors Codex facts into a kernel: one goal and root agent stand for the
/// Codex session, and each exec session maps to an operation, its attempt
/// and its lease generation.
pub struct ObservationAdapter<B> {
    pub kernel: Kernel<B>,
    pub root: Option<(GoalId, AgentId)>,
    pub ops: IdMap<(OperationId, AttemptId, u64)>,
}

impl<B: LogBackend> ObservationAdapter<B> {
    /// The observed goal and root agent, once made.
    pub open spec fn root(&self) -> Option<(GoalId, AgentId)> {
        self.root
    }

    /// The kernel the facts are mirrored into.
    pub open spec fn kernel_of(&self) -> Kernel<B> {
        self.kernel
    }

    /// The operations of the exec sessions seen, by session key.
    pub open spec fn sessions(&self) -> Map<u128, (OperationId, AttemptId, u64)> {
        self.ops@
    }

    pub open spec fn wf(&self) -> bool {
        self.kernel.wf()
    }

    /// The operation, attempt and lease generation of an exec session.
    pub open spec fn slot(&self, s: i32) -> Option<(OperationId, AttemptId, u64)> {
        if self.sessions().contains_key(session_key(s)) {
            Some(self.sessions()[session_key(s)])
        } else {
            None
        }
    }

    /// Root and sessions are those of `other`.
    pub open spec fn same_slots(&self, other: &Self) -> bool {
        &&& self.root() == other.root()
        &&& self.sessions() == other.sessions()
    }

    /// Whether any attempt of an operation has an exit code.
    pub open spec fn exit_seen(&self, op: OperationId) -> Result<bool, KernelError> {
        match self.kernel.first_execution() {
            None => Err(rejected(Rejection::NoExecution)),
            Some(x) => {
                let ops = self.kernel.state_view().executions[x.0].operations;
                if ops.contains_key(op.0) {
                    Ok(
                        exists|k: u128| #[trigger]
                            ops[op.0].attempts.contains_key(k) && ops[op.0].attempts[k].exit_code is Some,
                    )
                } else {
                    Err(rejected(Rejection::UnknownOperationPlain))
                }
            },
        }
    }

    /// The root goal and agent: those already made, or a goal `observed`
    /// with a root agent `root`, spawned and started.
    pub open spec fn agent_ensured(&self, new: &Self, r: Result<(GoalId, AgentId), KernelError>) -> bool {
        match self.root() {
            Some(p) => r == Ok::<(GoalId, AgentId), KernelError>(p) && *new == *self,
            None => new.sessions() == self.sessions() && exists|
                k1: Kernel<B>,
                rg: Result<(GoalId, EventRecord), KernelError>,
            |
                #[trigger] self.kernel.goal_created(&k1, "observed"@, Seq::empty(), rg) && match rg {
                    Err(e) => r == Err::<(GoalId, AgentId), KernelError>(e) && new.kernel == k1
                        && new.root() is None,
                    Ok((g, _)) => exists|
                        k2: Kernel<B>,
                        rs: Result<(AgentId, EventRecord), KernelError>,
                    |
                        #[trigger] k1.agent_spawned(&k2, None, g, "root"@, None, None, rs) && match rs {
                            Err(e) => r == Err::<(GoalId, AgentId), KernelError>(e) && new.kernel
                                == k2 && new.root() is None,
                            Ok((a, _)) => exists|rst: Result<EventRecord, KernelError>|
                                #[trigger] k2.agent_started(&new.kernel, a, rst) && match rst {
                                    Err(e) => r == Err::<(GoalId, AgentId), KernelError>(e)
                                        && new.root() is None,
                                    Ok(_) => r == Ok::<(GoalId, AgentId), KernelError>((g, a))
                                        && new.root() == Some((g, a)),
                                },
                        },
                },
        }
    }

    /// An exec session started: an operation of the root agent with `argv`
    /// in `/`, leased to a fresh owner as `observe` for a minute, with its
    /// process started under the session's pid; the session then maps to it.
    pub open spec fn exec_started(
        &self,
        new: &Self,
        s: i32,
        argv: Seq<Seq<char>>,
        r: Result<Vec<Disagreement>, KernelError>,
    ) -> bool {
        exists|m: Self, ra: Result<(GoalId, AgentId), KernelError>|
            #[trigger] self.agent_ensured(&m, ra) && match ra {
                Err(e) => found_view(r) == Err::<Seq<DisagreementView>, KernelError>(e) && *new == m,
                Ok((_, a)) => exists|
                    k2: Kernel<B>,
                    rc: Result<(OperationId, AttemptId, EventRecord), KernelError>,
                |
                    #[trigger] m.kernel.operation_created(&k2, a, argv, "/"@, None, rc) && match rc {
                        Err(e) => found_view(r) == Err::<Seq<DisagreementView>, KernelError>(e)
                            && new.kernel == k2 && new.same_slots(&m),
                        Ok((op, att, _)) => exists|
                            k3: Kernel<B>,
                            owner: LeaseOwnerId,
                            rl: Result<u64, KernelError>,
                        |
                            #[trigger] k2.operation_leased(&k3, op, att, owner, "observe"@, 60000, None, rl)
                                && match rl {
                                Err(e) => found_view(r) == Err::<Seq<DisagreementView>, KernelError>(e)
                                    && new.kernel == k3 && new.same_slots(&m),
                                Ok(gen) => exists|rp: Result<EventRecord, KernelError>|
                                    #[trigger] k3.append_outcome(
                                        &new.kernel,
                                        rp,
                                        process_started_payload(
                                            op,
                                            att,
                                            observed_pid(s),
                                            decimal_text(observed_pid(s) as nat),
                                        ),
                                        key_text(
                                            "proc_started"@,
                                            uuid_text_spec(op.0) + ":"@ + uuid_text_spec(att.0),
                                        ),
                                        None,
                                    ) && new.root() == m.root() && match rp {
                                        Err(e) => found_view(r) == Err::<
                                            Seq<DisagreementView>,
                                            KernelError,
                                        >(e) && new.sessions() == m.sessions(),
                                        Ok(_) => found_view(r) == Ok::<
                                            Seq<DisagreementView>,
                                            KernelError,
                                        >(Seq::empty()) && new.sessions() == m.sessions().insert(
                                            session_key(s),
                                            (op, att, gen),
                                        ),
                                    },
                            },
                    },
            }
    }

    /// What a yield return finds: for a known session whose tool call
    /// completed with a `process_id` while no attempt of its operation has
    /// exited, one disagreement; otherwise none.
    pub open spec fn yield_report(
        &self,
        s: i32,
        process_id: Option<i32>,
        wrapper_output: Seq<char>,
        tool_call_completed: bool,
    ) -> Result<Seq<DisagreementView>, KernelError> {
        match self.slot(s) {
            None => Ok(Seq::empty()),
            Some((op, _, _)) => match self.kernel.operation_status_of(op) {
                Err(e) => Err(e),
                Ok(status) => match self.exit_seen(op) {
                    Err(e) => Err(e),
                    Ok(exited) => if tool_call_completed && process_id is Some && !exited {
                        Ok(seq![running_disagreement(op, status, exited, process_id, wrapper_output)])
                    } else {
                        Ok(Seq::empty())
                    },
                },
            },
        }
    }

    /// A process exited: for a known session, its exit is recorded and its
    /// operation committed under the session's lease generation.
    pub open spec fn exit_observed(
        &self,
        new: &Self,
        s: i32,
        exit_code: i32,
        r: Result<Vec<Disagreement>, KernelError>,
    ) -> bool {
        match self.slot(s) {
            None => found_view(r) == Ok::<Seq<DisagreementView>, KernelError>(Seq::empty()) && *new == *self,
            Some(t) => new.same_slots(self) && exit_then_commit(self.kernel, new.kernel, t.0, t.1, t.2, exit_code, found_view(r)),
        }
    }

    /// A model turn finished: it is recorded for the root agent.
    pub open spec fn turn_observed(
        &self,
        new: &Self,
        last_message: Seq<char>,
        r: Result<Vec<Disagreement>, KernelError>,
    ) -> bool {
        exists|m: Self, ra: Result<(GoalId, AgentId), KernelError>|
            #[trigger] self.agent_ensured(&m, ra) && match ra {
                Err(e) => found_view(r) == Err::<Seq<DisagreementView>, KernelError>(e) && *new == m,
                Ok((_, a)) => new.same_slots(&m) && exists|rt: Result<EventRecord, KernelError>|
                    #[trigger] m.kernel.turn_recorded(&new.kernel, a, last_message, rt) && found_view(r)
                        == nothing_or(rt),
            }
    }

    /// A child agent's turn completed: the child is spawned under the root
    /// agent, started and completed.
    pub open spec fn child_observed(
        &self,
        new: &Self,
        child: Seq<char>,
        r: Result<Vec<Disagreement>, KernelError>,
    ) -> bool {
        exists|m: Self, ra: Result<(GoalId, AgentId), KernelError>|
            #[trigger] self.agent_ensured(&m, ra) && match ra {
                Err(e) => found_view(r) == Err::<Seq<DisagreementView>, KernelError>(e) && *new == m,
                Ok((g, a)) => new.same_slots(&m) && exists|
                    k2: Kernel<B>,
                    rs: Result<(AgentId, EventRecord), KernelError>,
                |
                    #[trigger] m.kernel.agent_spawned(&k2, Some(a), g, child, None, None, rs) && match rs {
                        Err(e) => found_view(r) == Err::<Seq<DisagreementView>, KernelError>(e)
                            && new.kernel == k2,
                        Ok((c, _)) => exists|k3: Kernel<B>, rst: Result<EventRecord, KernelError>|
                            #[trigger] k2.agent_started(&k3, c, rst) && match rst {
                                Err(e) => found_view(r) == Err::<Seq<DisagreementView>, KernelError>(
                                    e,
                                ) && new.kernel == k3,
                                Ok(_) => exists|rc: Result<EventRecord, KernelError>|
                                    #[trigger] k3.agent_completed(&new.kernel, c, rc) && found_view(r)
                                        == nothing_or(rc),
                            },
                    },
            }
    }

    /// Codex marked the goal complete: the kernel tries to complete the root
    /// goal, and its refusal is reported as a disagreement.
    pub open spec fn goal_observed(&self, new: &Self, r: Result<Vec<Disagreement>, KernelError>) -> bool {
        exists|m: Self, ra: Result<(GoalId, AgentId), KernelError>|
            #[trigger] self.agent_ensured(&m, ra) && match ra {
                Err(e) => found_view(r) == Err::<Seq<DisagreementView>, KernelError>(e) && *new == m,
                Ok((g, _)) => new.same_slots(&m) && exists|rg: Result<EventRecord, KernelError>|
                    #[trigger] m.kernel.goal_completion(&new.kernel, g, rg) && found_view(r) == match rg {
                        Ok(_) => Ok::<Seq<DisagreementView>, KernelError>(Seq::empty()),
                        Err(e) => Ok(seq![unfinished_disagreement(e)]),
                    },
            }
    }

    /// What observing a fact does.
    pub open spec fn observed(&self, new: &Self, fact: CodexFact, r: Result<Vec<Disagreement>, KernelError>) -> bool {
        match fact {
            CodexFact::ExecCommandStarted { session_id, argv } => self.exec_started(new, session_id, texts(argv@), r),
            CodexFact::ExecYieldReturned { session_id, process_id, wrapper_output, tool_call_completed } => {
                &&& *new == *self
                &&& found_view(r) == self.yield_report(session_id, process_id, wrapper_output@, tool_call_completed)
            },
            CodexFact::OsProcessExited { session_id, exit_code } => self.exit_observed(new, session_id, exit_code, r),
            CodexFact::ModelTurnFinished { last_message } => self.turn_observed(new, last_message@, r),
            CodexFact::ChildAgentTurnComplete { child } => self.child_observed(new, child@, r),
            CodexFact::GoalMarkedComplete => self.goal_observed(new, r),
        }
    }
}

impl<B: LogBackend> ObservationAdapter<B> {
    /// An adapter over a kernel; a kernel with no execution first gets one,
    /// created with the note `codex-observe`.
    pub fn new(kernel: Kernel<B>) -> (r: Result<Self, KernelError>)
        requires
            kernel.wf(),
        ensures
            r matches Ok(a) ==> a.wf() && a.root() is None && a.sessions() == Map::<
                u128,
                (OperationId, AttemptId, u64),
            >::empty(),
            kernel.first_execution() is Some ==> (r matches Ok(a) && a.kernel_of() == kernel),
            kernel.first_execution() is None ==> exists|k: Kernel<B>, rc: Result<EventRecord, KernelError>|
                #[trigger] kernel.append_outcome(
                    &k,
                    rc,
                    execution_created_payload(kernel.clock(), "codex-observe"@),
                    key_text("execution_created"@, "codex-observe"@),
                    None,
                ) && match rc {
                    Ok(_) => (r matches Ok(a) && a.kernel_of() == k),
                    Err(e) => r == Err::<Self, KernelError>(e),
                },
    {
        let mut kernel = kernel;
        if kernel.execution_id().is_err() {
            let rc = kernel.create_execution("codex-observe");
            if let Err(e) = rc {
                return Err(e);
            }
        }
        Ok(ObservationAdapter { kernel, root: None, ops: IdMap::new() })
    }

    fn ensure_agent(&mut self) -> (r: Result<(GoalId, AgentId), KernelError>)
        requires
            old(self).wf(),
        ensures
            final(self).wf(),
            old(self).agent_ensured(final(self), r),
    {
        if let Some(p) = self.root {
            return Ok(p);
        }
        let rg = self.kernel.create_goal("observed", Vec::new());
        let goal = match rg {
            Err(e) => {
                return Err(e);
            },
            Ok((g, _)) => g,
        };
        let rs = self.kernel.spawn_agent(None, goal, "root", None, None);
        let agent = match rs {
            Err(e) => {
                return Err(e);
            },
            Ok((a, _)) => a,
        };
        let rst = self.kernel.start_agent(agent);
        if let Err(e) = rst {
            return Err(e);
        }
        self.root = Some((goal, agent));
        Ok((goal, agent))
    }

    fn process_has_exit(&self, op: OperationId) -> (r: Result<bool, KernelError>)
        ensures
            r == self.exit_seen(op),
    {
        let exec = self.kernel.execution()?;
        let operation = match exec.operations.get(op.0) {
            Some(o) => o,
            None => {
                return Err(KernelError::invalid(Rejection::UnknownOperationPlain));
            },
        };
        let ghost ov = operation@;
        proof {
            let x = self.kernel.first_execution()->0;
            assert(exec@.operations.contains_key(op.0));
            assert(exec@.operations[op.0] == ov);
            assert(self.kernel.state_view().executions[x.0] == exec@);
        }
        let n = operation.attempts.len();
        let mut i: usize = 0;
        while i < n
            invariant
                n == operation.attempts.entries().len(),
                i <= n,
                ov == operation@,
                forall|j: int|
                    0 <= j < n ==> operation.attempts@.contains_key(
                        #[trigger] operation.attempts.entries()[j].0,
                    ) && operation.attempts@[operation.attempts.entries()[j].0]
                        == operation.attempts.entries()[j].1,
                forall|j: int| 0 <= j < i ==> (#[trigger] operation.attempts.entries()[j]).1.exit_code is None,
                self.kernel.first_execution() is Some,
                self.kernel.state_view().executions[(self.kernel.first_execution()->0).0].operations.contains_key(op.0),
                self.kernel.state_view().executions[(self.kernel.first_execution()->0).0].operations[op.0] == ov,
            decreases n - i,
        {
            let (_, a) = operation.attempts.entry_at(i);
            if a.exit_code.is_some() {
                proof {
                    let k = operation.attempts.entries()[i as int].0;
                    let x = self.kernel.first_execution()->0;
                    let ops = self.kernel.state_view().executions[x.0].operations;
                    assert(ops[op.0] == ov);
                    assert(ops[op.0].attempts.contains_key(k) && ops[op.0].attempts[k].exit_code is Some);
                }
                return Ok(true);
            }
            i = i + 1;
        }
        proof {
            let x = self.kernel.first_execution()->0;
            assert(self.kernel.state_view().executions[x.0].operations[op.0] == ov);
            operation.attempts.lemma_cover();
            assert forall|k: u128| #[trigger] ov.attempts.contains_key(k) implies ov.attempts[k].exit_code is None by {
                let j = choose|j: int| 0 <= j < n && #[trigger] operation.attempts.entries()[j].0 == k;
                assert(operation.attempts.entries()[j].1.exit_code is None);
            }
        }
        Ok(false)
    }

    #[verifier::rlimit(40)]
    fn on_exec_started(&mut self, session_id: i32, argv: Vec<String>) -> (r: Result<Vec<Disagreement>, KernelError>)
        requires
            old(self).wf(),
        ensures
            final(self).wf(),
            old(self).exec_started(final(self), session_id, texts(argv@), r),
    {
        let ghost args = texts(argv@);
        let ghost s0 = *self;
        let ra = self.ensure_agent();
        let ghost m = *self;
        let agent = match ra {
            Err(e) => {
                assert(s0.agent_ensured(&m, ra));
                return Err(e);
            },
            Ok((_, a)) => a,
        };
        let rc = self.kernel.create_operation(agent, argv, "/", None);
        let ghost k2 = self.kernel;
        let (op, attempt) = match rc {
            Err(e) => {
                assert(m.kernel.operation_created(&k2, agent, args, "/"@, None, rc));
                assert(s0.agent_ensured(&m, ra));
                return Err(e);
            },
            Ok((o, a, _)) => (o, a),
        };
        let owner = LeaseOwnerId::new();
        let rl = self.kernel.lease_operation(op, attempt, owner, "observe", 60000, None);
        let ghost k3 = self.kernel;
        let gen = match rl {
            Err(e) => {
                assert(k2.operation_leased(&k3, op, attempt, owner, "observe"@, 60000, None, rl));
                assert(m.kernel.operation_created(&k2, agent, args, "/"@, None, rc));
                assert(s0.agent_ensured(&m, ra));
                return Err(e);
            },
            Ok(g) => g,
        };
        let pid: u32 = if session_id < 1 {
            1
        } else {
            session_id as u32
        };
        let pid_text = u64_text(pid as u64);
        let rp = self.kernel.process_started(op, attempt, pid, pid_text.as_str());
        let ghost k4 = self.kernel;
        proof {
            assert(pid == observed_pid(session_id));
            assert(k3.append_outcome(
                &k4,
                rp,
                process_started_payload(op, attempt, observed_pid(session_id), decimal_text(observed_pid(session_id) as nat)),
                key_text("proc_started"@, uuid_text_spec(op.0) + ":"@ + uuid_text_spec(attempt.0)),
                None,
            ));
            assert(k2.operation_leased(&k3, op, attempt, owner, "observe"@, 60000, None, rl));
            assert(m.kernel.operation_created(&k2, agent, args, "/"@, None, rc));
            assert(s0.agent_ensured(&m, ra));
        }
        if let Err(e) = rp {
            return Err(e);
        }
        self.ops.insert(session_slot(session_id), (op, attempt, gen));
        let res = Ok(none_found());
        proof {
            assert(found_view(res) == Ok::<Seq<DisagreementView>, KernelError>(Seq::empty()));
            assert(self.sessions() == m.sessions().insert(session_key(session_id), (op, attempt, gen)));
            assert(self.root() == m.root());
            assert(self.kernel == k4);
        }
        res
    }

    fn on_yield_returned(
        &self,
        session_id: i32,
        process_id: Option<i32>,
        wrapper_output: &str,
        tool_call_completed: bool,
    ) -> (r: Result<Vec<Disagreement>, KernelError>)
        ensures
            found_view(r) == self.yield_report(session_id, process_id, wrapper_output@, tool_call_completed),
    {
        let (op, _, _) = match self.ops.get(session_slot(session_id)) {
            Some(t) => *t,
            None => {
                return Ok(none_found());
            },
        };
        let status = self.kernel.operation_status(op)?;
        let exited = self.process_has_exit(op)?;
        let mut found = none_found();
        if tool_call_completed && process_id.is_some() && !exited {
            let d = wrapper_disagreement(op, status, exited, process_id, wrapper_output);
            found.push(d);
            proof {
                assert(views(found@) =~= seq![running_disagreement(op, status, exited, process_id, wrapper_output@)]);
            }
        }
        Ok(found)
    }

    fn on_process_exited(&mut self, session_id: i32, exit_code: i32) -> (r: Result<Vec<Disagreement>, KernelError>)
        requires
            old(self).wf(),
        ensures
            final(self).wf(),
            old(self).exit_observed(final(self), session_id, exit_code, r),
    {
        let (op, attempt, gen) = match self.ops.get(session_slot(session_id)) {
            Some(t) => *t,
            None => {
                return Ok(none_found());
            },
        };
        let ghost k0 = self.kernel;
        let ghost s0 = *self;
        assert(s0.slot(session_id) == Some((op, attempt, gen)));
        let r1 = self.kernel.process_exited(op, attempt, exit_code, None, false);
        let ghost mid = self.kernel;
        if let Err(e) = r1 {
            proof {
                assert(k0.chain2(
                    &mid,
                    &self.kernel,
                    r1,
                    r1,
                    process_exited_payload(op, attempt, exit_code, None, false),
                    key_text("proc_exited"@, uuid_text_spec(op.0) + ":"@ + uuid_text_spec(attempt.0)),
                    committed_payload(op, attempt, gen, exit_code),
                    key_text("op_committed"@, uuid_text_spec(op.0) + ":"@ + uuid_text_spec(attempt.0)),
                ));
            }
            assert(found_view(Err(e)) == nothing_or(chain_result(r1, r1)));
            assert(self.same_slots(&s0));
            assert(exit_then_commit(k0, self.kernel, op, attempt, gen, exit_code, found_view(Err::<Vec<Disagreement>, KernelError>(e))));
            return Err(e);
        }
        let r2 = self.kernel.commit_operation(op, attempt, gen, exit_code);
        proof {
            assert(k0.chain2(
                &mid,
                &self.kernel,
                r1,
                r2,
                process_exited_payload(op, attempt, exit_code, None, false),
                key_text("proc_exited"@, uuid_text_spec(op.0) + ":"@ + uuid_text_spec(attempt.0)),
                committed_payload(op, attempt, gen, exit_code),
                key_text("op_committed"@, uuid_text_spec(op.0) + ":"@ + uuid_text_spec(attempt.0)),
            ));
        }
        let res = match r2 {
            Err(e) => Err(e),
            Ok(_) => Ok(none_found()),
        };
        assert(found_view(res) == nothing_or(chain_result(r1, r2)));
        assert(self.same_slots(&s0));
        assert(exit_then_commit(k0, self.kernel, op, attempt, gen, exit_code, found_view(res)));
        res
    }

    fn on_model_turn(&mut self, last_message: &str) -> (r: Result<Vec<Disagreement>, KernelError>)
        requires
            old(self).wf(),
        ensures
            final(self).wf(),
            old(self).turn_observed(final(self), last_message@, r),
    {
        let ghost s0 = *self;
        let ra = self.ensure_agent();
        let ghost m = *self;
        let agent = match ra {
            Err(e) => {
                assert(s0.agent_ensured(&m, ra));
                return Err(e);
            },
            Ok((_, a)) => a,
        };
        let rt = self.kernel.finish_model_turn(agent, last_message);
        proof {
            assert(m.kernel.turn_recorded(&self.kernel, agent, last_message@, rt));
            assert(s0.agent_ensured(&m, ra));
        }
        match rt {
            Err(e) => Err(e),
            Ok(_) => Ok(none_found()),
        }
    }

    fn on_child_complete(&mut self, child: &str) -> (r: Result<Vec<Disagreement>, KernelError>)
        requires
            old(self).wf(),
        ensures
            final(self).wf(),
            old(self).child_observed(final(self), child@, r),
    {
        let ghost s0 = *self;
        let ra = self.ensure_agent();
        let ghost m = *self;
        let (goal, parent) = match ra {
            Err(e) => {
                assert(s0.agent_ensured(&m, ra));
                return Err(e);
            },
            Ok(p) => p,
        };
        let rs = self.kernel.spawn_agent(Some(parent), goal, child, None, None);
        let ghost k2 = self.kernel;
        let id = match rs {
            Err(e) => {
                assert(m.kernel.agent_spawned(&k2, Some(parent), goal, child@, None, None, rs));
                assert(s0.agent_ensured(&m, ra));
                return Err(e);
            },
            Ok((c, _)) => c,
        };
        let rst = self.kernel.start_agent(id);
        let ghost k3 = self.kernel;
        if let Err(e) = rst {
            assert(k2.agent_started(&k3, id, rst));
            assert(m.kernel.agent_spawned(&k2, Some(parent), goal, child@, None, None, rs));
            assert(s0.agent_ensured(&m, ra));
            return Err(e);
        }
        let rc = self.kernel.complete_agent(id);
        proof {
            assert(k3.agent_completed(&self.kernel, id, rc));
            assert(k2.agent_started(&k3, id, rst));
            assert(m.kernel.agent_spawned(&k2, Some(parent), goal, child@, None, None, rs));
            assert(s0.agent_ensured(&m, ra));
        }
        match rc {
            Err(e) => Err(e),
            Ok(_) => Ok(none_found()),
        }
    }

    fn on_goal_complete(&mut self) -> (r: Result<Vec<Disagreement>, KernelError>)
        requires
            old(self).wf(),
        ensures
            final(self).wf(),
            old(self).goal_observed(final(self), r),
    {
        let ghost s0 = *self;
        let ra = self.ensure_agent();
        let ghost m = *self;
        let goal = match ra {
            Err(e) => {
                assert(s0.agent_ensured(&m, ra));
                return Err(e);
            },
            Ok((g, _)) => g,
        };
        let rg = self.kernel.try_complete_goal(goal);
        proof {
            assert(m.kernel.goal_completion(&self.kernel, goal, rg));
            assert(s0.agent_ensured(&m, ra));
        }
        let mut found = none_found();
        match rg {
            Ok(_) => {},
            Err(err) => {
                let d = goal_disagreement(&err);
                found.push(d);
                proof {
                    assert(views(found@) =~= seq![unfinished_disagreement(err)]);
                }
            },
        }
        Ok(found)
    }

    /// Mirrors one Codex fact into the kernel and returns the disagreements
    /// it reveals.
    pub fn observe(&mut self, fact: CodexFact) -> (r: Result<Vec<Disagreement>, KernelError>)
        requires
            old(self).wf(),
        ensures
            final(self).wf(),
            old(self).observed(final(self), fact, r),
    {
        match fact {
            CodexFact::ExecCommandStarted { session_id, argv } => self.on_exec_started(session_id, argv),
            CodexFact::ExecYieldReturned { session_id, process_id, wrapper_output, tool_call_completed } => {
                self.on_yield_returned(session_id, process_id, wrapper_output.as_str(), tool_call_completed)
            },
            CodexFact::OsProcessExited { session_id, exit_code } => self.on_process_exited(session_id, exit_code),
            CodexFact::ModelTurnFinished { last_message } => self.on_model_turn(last_message.as_str()),
            CodexFact::ChildAgentTurnComplete { child } => self.on_child_complete(child.as_str()),
            CodexFact::GoalMarkedComplete => self.on_goal_complete(),
        }
    }
}

} // verus!
