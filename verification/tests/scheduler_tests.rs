use codex_agent_kernel::error::KernelError;
use codex_agent_kernel::event::{EventRecord, NetworkScope};
use codex_agent_kernel::kernel::{Kernel, LogBackend};
use codex_agent_kernel::scheduler::{command_allowed, schedule, SchedulerConfig};
use codex_agent_kernel::state::ExecutionState;

#[derive(Default)]
struct MemLog {
    frames: Vec<Vec<u8>>,
}

impl LogBackend for MemLog {
    fn record_bytes(&self, record: &EventRecord) -> Vec<u8> {
        format!("{:?}", record).into_bytes()
    }

    fn state_bytes(&self, exec: &ExecutionState) -> Result<Vec<u8>, KernelError> {
        Ok(format!("{:?}", exec).into_bytes())
    }

    fn business_bytes(&self, exec: &ExecutionState) -> Result<Vec<u8>, KernelError> {
        Ok(format!("{:?}", exec.goals).into_bytes())
    }

    fn write_frame(&mut self, frame: &[u8]) -> Result<(), KernelError> {
        self.frames.push(frame.to_vec());
        Ok(())
    }
}

fn allow(entries: &[&str]) -> Vec<String> {
    entries.iter().map(|s| (*s).to_string()).collect()
}

#[test]
fn allowlist_matches_executable_boundary_only() {
    let echo = allow(&["echo"]);
    assert!(command_allowed("echo", &echo));
    assert!(command_allowed("/bin/echo", &echo));
    assert!(command_allowed("/usr/bin/echo", &echo));
    assert!(
        !command_allowed("/tmp/malicious-echo", &echo),
        "suffix of a path component must not authorize a different binary"
    );
    assert!(!command_allowed("my-echo", &echo));
    assert!(!command_allowed("bash", &echo));
    assert!(!command_allowed("/bin/bash", &echo));

    let sh = allow(&["sh"]);
    assert!(command_allowed("sh", &sh));
    assert!(command_allowed("/bin/sh", &sh));
    assert!(!command_allowed("bash", &sh), "`sh` must not suffix-match `bash`");
    assert!(!command_allowed("/bin/bash", &sh));
    assert!(!command_allowed("/tmp/malicious-sh", &sh));

    let exact = allow(&["/bin/echo"]);
    assert!(command_allowed("/bin/echo", &exact));
    assert!(!command_allowed("echo", &exact), "exact path entries do not match a bare name");
    assert!(!command_allowed("/usr/bin/echo", &exact));
    assert!(!command_allowed("/tmp/malicious-echo", &exact));
    assert!(!command_allowed("/bin/echo-extra", &exact));

    let win = allow(&["echo"]);
    assert!(!command_allowed(r"C:\tmp\malicious-echo", &win));
    assert!(!command_allowed(r"C:\tmp\my-echo", &win));
    assert!(command_allowed(r"C:\Windows\echo", &win));
}

#[test]
fn scheduler_blocks_suffix_matching_bypass() {
    let mut k = Kernel::from_log(MemLog::default(), Vec::new()).unwrap();
    k.create_execution("allow").unwrap();
    let (goal, _) = k.create_goal("g", vec![]).unwrap();
    let (parent, _) = k.spawn_agent(None, goal, "p", None, None).unwrap();
    let (cap, _) = k
        .grant_capability(parent, None, "/", NetworkScope::Deny, vec!["echo".to_string()], "test")
        .unwrap();
    let (agent, _) = k.spawn_agent(Some(parent), goal, "child", None, Some(cap)).unwrap();
    let (evil, _, _) = k
        .create_operation(agent, vec!["/tmp/malicious-echo".to_string()], "/", None)
        .unwrap();
    let (ok, _, _) = k
        .create_operation(agent, vec!["/bin/echo".to_string(), "hi".to_string()], "/", None)
        .unwrap();
    let decision = schedule(k.execution().unwrap(), &SchedulerConfig::default()).unwrap();
    assert!(
        decision.blocked_operations.contains(&evil),
        "malicious-echo must be blocked, got {:?}",
        decision
    );
    assert!(
        decision.runnable_operations.contains(&ok),
        "/bin/echo must be allowed for a bare echo allowlist, got {:?}",
        decision
    );
}

#[test]
fn empty_allowlist_allows_nothing() {
    assert!(!command_allowed("echo", &[]));
    assert!(!command_allowed("", &allow(&["echo"])));
}

#[test]
fn scheduler_config_defaults() {
    let cfg = SchedulerConfig::default();
    assert_eq!(cfg.max_concurrent_operations, 8);
    assert_eq!(cfg.max_concurrent_agents, 16);
}

#[test]
fn concurrency_limit_caps_runnable_operations() {
    let mut k = Kernel::from_log(MemLog::default(), Vec::new()).unwrap();
    k.create_execution("cap-limit").unwrap();
    let (goal, _) = k.create_goal("g", vec![]).unwrap();
    let (agent, _) = k.spawn_agent(None, goal, "w", None, None).unwrap();
    for _ in 0..3 {
        k.create_operation(agent, vec!["echo".to_string()], "/", None).unwrap();
    }
    let cfg = SchedulerConfig { max_concurrent_operations: 2, max_concurrent_agents: 16 };
    let decision = schedule(k.execution().unwrap(), &cfg).unwrap();
    assert_eq!(decision.runnable_operations.len(), 2);
    assert_eq!(decision.blocked_operations.len(), 1);
}
