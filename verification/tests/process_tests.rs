use codex_agent_kernel::error::KernelError;
use codex_agent_kernel::process::{
    decode_exit, key_liveness, liveness_from, OsView, parse_u32, start_key_parts, start_key_text, stat_starttime,
    write_stdin_pid, ProcessLiveness,
};

#[test]
fn missing_pid_is_dead() {
    let (pid, start) = start_key_parts("999999").unwrap();
    assert_eq!(pid, 999999);
    assert_eq!(start, None);
    assert_eq!(liveness_from(false, start.as_deref(), None), ProcessLiveness::Dead);
}

#[test]
fn start_time_mismatch_is_dead_not_alive() {
    let (_, start) = start_key_parts("4242:0").unwrap();
    assert_eq!(start.as_deref(), Some("0"));
    assert_eq!(liveness_from(true, start.as_deref(), Some("913")), ProcessLiveness::Dead);
    assert_eq!(liveness_from(true, Some("913"), Some("913")), ProcessLiveness::Alive);
    assert_eq!(liveness_from(true, None, Some("913")), ProcessLiveness::Unknown);
    assert_eq!(liveness_from(true, Some("913"), None), ProcessLiveness::Unknown);
}

#[test]
fn start_keys_round_trip() {
    assert_eq!(start_key_text(17, Some("5521")), "17:5521");
    assert_eq!(start_key_text(17, None), "17");
    assert_eq!(start_key_parts("17:5521"), Some((17, Some("5521".to_string()))));
    assert_eq!(start_key_parts("x:1"), None);
    assert_eq!(start_key_parts(""), None);
}

#[test]
fn parse_u32_accepts_digits_only() {
    assert_eq!(parse_u32("0"), Some(0));
    assert_eq!(parse_u32("4294967295"), Some(u32::MAX));
    assert_eq!(parse_u32("4294967296"), None);
    assert_eq!(parse_u32("+1"), Some(1));
    assert_eq!(parse_u32("-1"), None);
    assert_eq!(parse_u32(""), None);
    assert_eq!(parse_u32("12a"), None);
}

#[test]
fn stat_start_time_is_field_twenty_two() {
    let stat = "1 (x) S 1 2 3 4 5 6 7 8 9 10 11 12 13 14 15 16 17 18 777 20 21 22 23 24 25 26 27 28 29 30 31 32 33 34 35 36 37 38 39 40 41 42 43 44 45 46 47 48 49";
    assert_eq!(stat_starttime(stat).as_deref(), Some("777"));
    let spaced = "42 (a) b (c) R 1 2 3 4 5 6 7 8 9 10 11 12 13 14 15 16 17 18 9001 20 21";
    assert_eq!(stat_starttime(spaced).as_deref(), Some("9001"));
    assert_eq!(stat_starttime("too short"), None);
    assert_eq!(stat_starttime("1 (x) S 1 2"), None);
}

#[test]
fn key_liveness_follows_the_platform_rules() {
    let linux = |exists: bool, start: Option<&str>| OsView::Linux {
        proc_exists: exists,
        start: start.map(|s| s.to_string()),
    };
    assert_eq!(key_liveness("12:99", &linux(true, Some("99"))), ProcessLiveness::Alive);
    assert_eq!(key_liveness("12:0", &linux(true, Some("99"))), ProcessLiveness::Dead);
    assert_eq!(key_liveness("12:99", &linux(false, None)), ProcessLiveness::Dead);
    assert_eq!(key_liveness("12", &linux(true, Some("99"))), ProcessLiveness::Unknown);
    assert_eq!(key_liveness("12:99", &linux(true, None)), ProcessLiveness::Unknown);
    assert_eq!(key_liveness("x:99", &linux(true, Some("99"))), ProcessLiveness::Unknown);
    assert_eq!(key_liveness("12", &OsView::Other { pid_exists: Some(false) }), ProcessLiveness::Dead);
    assert_eq!(key_liveness("12", &OsView::Other { pid_exists: Some(true) }), ProcessLiveness::Unknown);
    assert_eq!(key_liveness("12:99", &OsView::Other { pid_exists: None }), ProcessLiveness::Unknown);
    assert_eq!(key_liveness("nope", &OsView::Other { pid_exists: Some(false) }), ProcessLiveness::Unknown);
}

#[test]
fn exit_status_decoding() {
    assert_eq!(decode_exit(Some(3), None), (3, None));
    assert_eq!(decode_exit(None, None), (-1, None));
    assert_eq!(decode_exit(None, Some(9)), (137, Some("9".to_string())));
}

#[test]
fn stdin_is_not_attached() {
    match write_stdin_pid(1, b"x") {
        Err(KernelError::Process(m)) => {
            assert_eq!(m, "write_stdin is not attached in the first slice; use a single-shot argv")
        }
        _ => panic!("expected a process error"),
    }
}
