use codex_agent_kernel::error::KernelError;
use codex_agent_kernel::event::{EventRecord, OperationStatus};
use codex_agent_kernel::kernel::{Kernel, LogBackend};
use codex_agent_kernel::observe::{
    tool_response_process_id, CodexFact, ObservationAdapter, GOAL_UPDATE_SOURCE, UNIFIED_EXEC_SOURCE,
};
use codex_agent_kernel::state::ExecutionState;

#[derive(Default)]
struct MemLog {
    frames: Vec<Vec<u8>>,
}

impl LogBackend for MemLog {
    fn record_bytes(&self, record: &EventRecord) -> Vec<u8> {
        format!("{:?}", record).into_bytes()
    }

    fn state_bytes(&self, exec: &ExecutionState) -> Result<Vec<u8>, KernelError> {
        Ok(format!("{:?}", exec).into_bytes())
    }

    fn business_bytes(&self, exec: &ExecutionState) -> Result<Vec<u8>, KernelError> {
        Ok(format!("{:?}", exec.goals).into_bytes())
    }

    fn write_frame(&mut self, frame: &[u8]) -> Result<(), KernelError> {
        self.frames.push(frame.to_vec());
        Ok(())
    }
}

fn adapter() -> ObservationAdapter<MemLog> {
    let kernel = Kernel::from_log(MemLog::default(), Vec::new()).unwrap();
    ObservationAdapter::new(kernel).unwrap()
}

#[test]
fn yield_keeps_process_id_while_alive() {
    assert_eq!(tool_response_process_id(false, 7), Some(7));
    assert_eq!(tool_response_process_id(true, 7), None);
}

#[test]
fn wrapper_complete_experiment_detects_disagreement() {
    let mut adapter = adapter();
    let session_id = 7;
    adapter
        .observe(CodexFact::ExecCommandStarted {
            session_id,
            argv: vec!["/bin/sh".to_string(), "-c".to_string(), "sleep 8".to_string()],
        })
        .unwrap();
    let process_id = tool_response_process_id(false, session_id);
    assert_eq!(process_id, Some(7));
    let disagreements = adapter
        .observe(CodexFact::ExecYieldReturned {
            session_id,
            process_id,
            wrapper_output: "Script completed".to_string(),
            tool_call_completed: true,
        })
        .unwrap();
    assert_eq!(disagreements.len(), 1);
    assert_eq!(disagreements[0].code, "wrapper_complete_process_running");
    assert_eq!(disagreements[0].source, UNIFIED_EXEC_SOURCE);
    assert_eq!(
        disagreements[0].codex_view,
        "tool call completed with process_id=Some(7); wrapper=\"Script completed\""
    );
    assert!(disagreements[0].kernel_view.ends_with(" status=Running process_exited=false"));
    let exec = adapter.kernel.execution().unwrap();
    let op = exec.operations.entry_at(0).1;
    assert_eq!(op.status, OperationStatus::Running);
    assert!(disagreements[0].kernel_view.starts_with(&format!("operation {}", op.id.to_string())));
}

#[test]
fn goal_complete_experiment_rejects_model_turn() {
    let mut adapter = adapter();
    adapter
        .observe(CodexFact::ModelTurnFinished { last_message: "I am done".to_string() })
        .unwrap();
    let disagreements = adapter.observe(CodexFact::GoalMarkedComplete).unwrap();
    assert_eq!(disagreements.len(), 1);
    assert_eq!(disagreements[0].code, "goal_complete_unfinished_work");
    assert_eq!(disagreements[0].source, GOAL_UPDATE_SOURCE);
    assert_eq!(
        disagreements[0].codex_view,
        "update_goal(complete) accepted with no child/process gate"
    );
    assert!(disagreements[0].kernel_view.contains("preconditions"));
}

#[test]
fn exited_process_yields_no_disagreement() {
    let mut adapter = adapter();
    adapter
        .observe(CodexFact::ExecCommandStarted { session_id: 3, argv: vec!["true".to_string()] })
        .unwrap();
    adapter.observe(CodexFact::OsProcessExited { session_id: 3, exit_code: 0 }).unwrap();
    let found = adapter
        .observe(CodexFact::ExecYieldReturned {
            session_id: 3,
            process_id: tool_response_process_id(true, 3),
            wrapper_output: String::new(),
            tool_call_completed: true,
        })
        .unwrap();
    assert!(found.is_empty());
    let exec = adapter.kernel.execution().unwrap();
    assert_eq!(exec.operations.entry_at(0).1.status, OperationStatus::Succeeded);
}

#[test]
fn unknown_session_yields_nothing() {
    let mut adapter = adapter();
    let found = adapter
        .observe(CodexFact::ExecYieldReturned {
            session_id: -4,
            process_id: Some(-4),
            wrapper_output: "x".to_string(),
            tool_call_completed: true,
        })
        .unwrap();
    assert!(found.is_empty());
    assert!(adapter.observe(CodexFact::OsProcessExited { session_id: -4, exit_code: 1 }).unwrap().is_empty());
    assert_eq!(adapter.kernel.records().len(), 1);
}

#[test]
fn completed_children_let_the_goal_complete() {
    let mut adapter = adapter();
    adapter.observe(CodexFact::ChildAgentTurnComplete { child: "helper".to_string() }).unwrap();
    let exec = adapter.kernel.execution().unwrap();
    assert_eq!(exec.agents.len(), 2);
    let found = adapter.observe(CodexFact::GoalMarkedComplete).unwrap();
    assert_eq!(found.len(), 1);
}

#[test]
fn new_adapter_creates_an_execution_once() {
    let a = adapter();
    assert_eq!(a.kernel.records().len(), 1);
    let records = a.kernel.records().clone();
    let k = Kernel::from_log(MemLog::default(), records).unwrap();
    let b = ObservationAdapter::new(k).unwrap();
    assert_eq!(b.kernel.records().len(), 1);
}
