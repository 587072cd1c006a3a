//! Codex Agent Kernel
//!
//! Event-sourced durable execution for goals, agents, operations, leases,
//! joins, and content-addressed context.

pub mod compat;
pub mod context;
pub mod error;
pub mod event;
pub mod idmap;
pub mod kernel;
pub mod ids;
pub mod state;
pub mod text;
pub mod viewer;
pub mod model;
pub mod process;
pub mod reducer;
pub mod replay;
pub mod runtime;
pub mod scheduler;
pub mod laws;
pub mod log;
pub mod observe;

pub use compat::{mappings, Mapping, MappingQuality};
pub use context::{naive_child_storage_bytes, shared_child_storage_bytes, ContentStore, Snapshot};
pub use error::{KernelError, LogCorruptKind};
pub use event::{
    AgentStatus, Event, EventRecord, GoalStatus, JoinFailurePolicy, JoinKind, JoinOutcome,
    NetworkScope, OperationStatus, StreamKind, SCHEMA_VERSION,
};
pub use kernel::Kernel;
pub use log::MAX_RECORD_BYTES;
pub use process::{LaunchSpec, ProcessLiveness, ProcessReport};
pub use reducer::{goal_completion_preconditions_met, join_is_satisfied, reduce, reduce_all};
pub use replay::{fork_from, replay_until, ReplayReport};
pub use scheduler::{command_allowed, schedule, ScheduleDecision, SchedulerConfig};
pub use state::{ExecutionState, KernelState};
pub use viewer::{render_trace, render_tree};
