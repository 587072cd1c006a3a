use codex_agent_kernel::error::{KernelError, LogCorruptKind, Rejection};
use codex_agent_kernel::ids::OperationId;

#[test]
fn error_texts() {
    assert_eq!(KernelError::Io("x".to_string()).to_string(), "io error: x");
    assert_eq!(KernelError::ChecksumMismatch.to_string(), "checksum mismatch");
    assert_eq!(
        KernelError::UnsupportedSchema { found: 2, expected: 1 }.to_string(),
        "schema version 2 is not supported (expected 1)"
    );
    let op = OperationId::from_u128(1);
    assert_eq!(
        KernelError::StaleLease { operation: op, current: 2, used: 1 }.to_string(),
        "stale lease: operation 00000000-0000-0000-0000-000000000001 current generation 2, commit used 1"
    );
    assert_eq!(
        KernelError::InvalidTransition(Rejection::GoalCompletionRefused).to_string(),
        "invalid transition: GOAL_COMPLETED preconditions not met; MODEL_FINISHED_TURN is not sufficient"
    );
    let corrupt = KernelError::LogCorrupt { at_byte: 8, kind: LogCorruptKind::CrcMismatch, detail: "d".to_string() };
    assert!(corrupt.to_string().starts_with("log corruption at byte 8 ("));
    assert!(corrupt.to_string().ends_with("): d"));
}
