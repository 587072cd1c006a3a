//! Compatibility map between current Codex concepts and kernel entities.
//!
//! Mappings are documentary and used by tests as a checklist so an upstream
//! engineer can evaluate the architecture without a rewrite.
use vstd::prelude::*;

verus! {

#[derive(Clone, Copy, Debug, PartialEq, Eq, Structural)]
pub enum MappingQuality {
    Faithful,
    Approximate,
    ProjectionOnly,
    Unmapped,
}

#[derive(Clone, Debug, PartialEq, Eq)]
pub struct Mapping {
    pub codex: &'static str,
    pub kernel: &'static str,
    pub quality: MappingQuality,
    pub notes: &'static str,
}

/// The text of one mapping.
pub struct MappingEntry {
    pub codex: Seq<char>,
    pub kernel: Seq<char>,
    pub quality: MappingQuality,
    pub notes: Seq<char>,
}

impl View for Mapping {
    type V = MappingEntry;

    open spec fn view(&self) -> MappingEntry {
        MappingEntry {
            codex: self.codex@,
            kernel: self.kernel@,
            quality: self.quality,
            notes: self.notes@,
        }
    }
}

/// Number of rows of the mapping table.
pub const MAPPING_COUNT: usize = 15;

/// Row `i` of the mapping table.
pub open spec fn mapping_row(i: int) -> MappingEntry {
    if i == 0 {
        MappingEntry {
            codex: "thread / SessionId"@,
            kernel: "Execution"@,
            quality: MappingQuality::Approximate,
            notes: "A Codex thread is a conversation plus live runtime. Kernel Execution is the durable run. UI thread metadata remains a projection."@,
        }
    } else if i == 1 {
        MappingEntry {
            codex: "ext/goal ThreadGoal"@,
            kernel: "Goal"@,
            quality: MappingQuality::Approximate,
            notes: "Codex goals are SQLite rows completed by model tool update_goal. Kernel Goal completion is an acceptance-checked event, not MODEL_FINISHED_TURN."@,
        }
    } else if i == 2 {
        MappingEntry {
            codex: "subagent / AgentControl thread"@,
            kernel: "Agent"@,
            quality: MappingQuality::Approximate,
            notes: "Codex agent status is derived from turn events and is live. Kernel Agent status is reduced from the event log."@,
        }
    } else if i == 3 {
        MappingEntry {
            codex: "wait_agent v2 (mailbox wake)"@,
            kernel: "Join"@,
            quality: MappingQuality::Unmapped,
            notes: "Codex has no authoritative join. Kernel JoinAll/JoinAny is the proposed primitive."@,
        }
    } else if i == 4 {
        MappingEntry {
            codex: "tool call / unified exec process"@,
            kernel: "Operation + Attempt"@,
            quality: MappingQuality::Approximate,
            notes: "Codex exposes session_id, process_id, cell_id, call_id. Kernel uses one OperationId from launch to exit."@,
        }
    } else if i == 5 {
        MappingEntry {
            codex: "rollout JSONL RolloutItem"@,
            kernel: "EventRecord"@,
            quality: MappingQuality::Approximate,
            notes: "Rollout is canonical for session history, not for process/agent leases. Kernel events are the execution authority."@,
        }
    } else if i == 6 {
        MappingEntry {
            codex: "thread_history SQLite"@,
            kernel: "Projection"@,
            quality: MappingQuality::Faithful,
            notes: "Both are rebuildable views. Codex already documents this; the kernel preserves the rule."@,
        }
    } else if i == 7 {
        MappingEntry {
            codex: "state_5.sqlite thread metadata / spawn edges"@,
            kernel: "Projection + Agent parent links"@,
            quality: MappingQuality::ProjectionOnly,
            notes: "Codex indexes can lag JSONL. Kernel indexes are always rebuilt from the log."@,
        }
    } else if i == 8 {
        MappingEntry {
            codex: "queue_1.sqlite user messages"@,
            kernel: "Task READY + scheduler"@,
            quality: MappingQuality::Approximate,
            notes: "Codex queue is durable user input. Kernel tasks are durable work nodes."@,
        }
    } else if i == 9 {
        MappingEntry {
            codex: "in-memory mailbox"@,
            kernel: "JoinChildTerminal event"@,
            quality: MappingQuality::Unmapped,
            notes: "Mailbox is lost on restart. Kernel child completion is an event."@,
        }
    } else if i == 10 {
        MappingEntry {
            codex: "InitialHistory::Forked(Vec<RolloutItem>)"@,
            kernel: "Context snapshot + delta"@,
            quality: MappingQuality::Approximate,
            notes: "Codex copies sanitized parent rollout items into the child. Kernel shares content-addressed chunks."@,
        }
    } else if i == 11 {
        MappingEntry {
            codex: "exec-server ProcessId / resume_session_id"@,
            kernel: "Lease + executor_id"@,
            quality: MappingQuality::Approximate,
            notes: "Remote executor becomes a leased worker; it cannot define completion outside ProcessExited/commit."@,
        }
    } else if i == 12 {
        MappingEntry {
            codex: "ApprovalAction / Guardian"@,
            kernel: "CapabilityGranted + approval_evidence"@,
            quality: MappingQuality::Approximate,
            notes: "Approvals become durable capability decisions bound to an operation or agent."@,
        }
    } else if i == 13 {
        MappingEntry {
            codex: "AgentStatus::Interrupted"@,
            kernel: "AgentStatus::Interrupted (non-terminal)"@,
            quality: MappingQuality::Faithful,
            notes: "Preserved: interrupted is resumable, matching Codex is_final()."@,
        }
    } else if i == 14 {
        MappingEntry {
            codex: "app-server CommandExecManager"@,
            kernel: "Operation (same log)"@,
            quality: MappingQuality::Unmapped,
            notes: "A second process manager must not exist. Client exec should create kernel operations."@,
        }
    } else {
        MappingEntry { codex: Seq::empty(), kernel: Seq::empty(), quality: MappingQuality::Unmapped, notes: Seq::empty() }
    }
}

/// The mapping table, row by row.
pub fn mappings() -> (v: Vec<Mapping>)
    ensures
        v@.len() == MAPPING_COUNT,
        forall|i: int| 0 <= i < v@.len() ==> #[trigger] v@[i]@ == mapping_row(i),
{
    let mut v: Vec<Mapping> = Vec::new();
    v.push(
        Mapping {
            codex: "thread / SessionId",
            kernel: "Execution",
            quality: MappingQuality::Approximate,
            notes: "A Codex thread is a conversation plus live runtime. Kernel Execution is the durable run. UI thread metadata remains a projection.",
        },
    );
    v.push(
        Mapping {
            codex: "ext/goal ThreadGoal",
            kernel: "Goal",
            quality: MappingQuality::Approximate,
            notes: "Codex goals are SQLite rows completed by model tool update_goal. Kernel Goal completion is an acceptance-checked event, not MODEL_FINISHED_TURN.",
        },
    );
    v.push(
        Mapping {
            codex: "subagent / AgentControl thread",
            kernel: "Agent",
            quality: MappingQuality::Approximate,
            notes: "Codex agent status is derived from turn events and is live. Kernel Agent status is reduced from the event log.",
        },
    );
    v.push(
        Mapping {
            codex: "wait_agent v2 (mailbox wake)",
            kernel: "Join",
            quality: MappingQuality::Unmapped,
            notes: "Codex has no authoritative join. Kernel JoinAll/JoinAny is the proposed primitive.",
        },
    );
    v.push(
        Mapping {
            codex: "tool call / unified exec process",
            kernel: "Operation + Attempt",
            quality: MappingQuality::Approximate,
            notes: "Codex exposes session_id, process_id, cell_id, call_id. Kernel uses one OperationId from launch to exit.",
        },
    );
    v.push(
        Mapping {
            codex: "rollout JSONL RolloutItem",
            kernel: "EventRecord",
            quality: MappingQuality::Approximate,
            notes: "Rollout is canonical for session history, not for process/agent leases. Kernel events are the execution authority.",
        },
    );
    v.push(
        Mapping {
            codex: "thread_history SQLite",
            kernel: "Projection",
            quality: MappingQuality::Faithful,
            notes: "Both are rebuildable views. Codex already documents this; the kernel preserves the rule.",
        },
    );
    v.push(
        Mapping {
            codex: "state_5.sqlite thread metadata / spawn edges",
            kernel: "Projection + Agent parent links",
            quality: MappingQuality::ProjectionOnly,
            notes: "Codex indexes can lag JSONL. Kernel indexes are always rebuilt from the log.",
        },
    );
    v.push(
        Mapping {
            codex: "queue_1.sqlite user messages",
            kernel: "Task READY + scheduler",
            quality: MappingQuality::Approximate,
            notes: "Codex queue is durable user input. Kernel tasks are durable work nodes.",
        },
    );
    v.push(
        Mapping {
            codex: "in-memory mailbox",
            kernel: "JoinChildTerminal event",
            quality: MappingQuality::Unmapped,
            notes: "Mailbox is lost on restart. Kernel child completion is an event.",
        },
    );
    v.push(
        Mapping {
            codex: "InitialHistory::Forked(Vec<RolloutItem>)",
            kernel: "Context snapshot + delta",
            quality: MappingQuality::Approximate,
            notes: "Codex copies sanitized parent rollout items into the child. Kernel shares content-addressed chunks.",
        },
    );
    v.push(
        Mapping {
            codex: "exec-server ProcessId / resume_session_id",
            kernel: "Lease + executor_id",
            quality: MappingQuality::Approximate,
            notes: "Remote executor becomes a leased worker; it cannot define completion outside ProcessExited/commit.",
        },
    );
    v.push(
        Mapping {
            codex: "ApprovalAction / Guardian",
            kernel: "CapabilityGranted + approval_evidence",
            quality: MappingQuality::Approximate,
            notes: "Approvals become durable capability decisions bound to an operation or agent.",
        },
    );
    v.push(
        Mapping {
            codex: "AgentStatus::Interrupted",
            kernel: "AgentStatus::Interrupted (non-terminal)",
            quality: MappingQuality::Faithful,
            notes: "Preserved: interrupted is resumable, matching Codex is_final().",
        },
    );
    v.push(
        Mapping {
            codex: "app-server CommandExecManager",
            kernel: "Operation (same log)",
            quality: MappingQuality::Unmapped,
            notes: "A second process manager must not exist. Client exec should create kernel operations.",
        },
    );
    v
}

} // verus!
